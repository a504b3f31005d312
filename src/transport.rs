//! What the library decides for the transport: how a model reference names
//! a provider and a model, and which lines of an event stream carry data.

use vstd::prelude::*;
use crate::text::chars_of;

verus! {

/// How many times `c` occurs in `s`.
pub open spec fn count_char(s: Seq<char>, c: char) -> nat
    decreases s.len(),
{
    if s.len() == 0 {
        0
    } else {
        count_char(s.drop_last(), c) + if s.last() == c {
            1nat
        } else {
            0
        }
    }
}

/// A model reference "provider:model" with exactly one colon, split at it.
pub open spec fn model_ref_parts(s: Seq<char>) -> Option<(Seq<char>, Seq<char>)> {
    if count_char(s, ':') == 1 {
        let i = choose|i: int| 0 <= i < s.len() && s[i] == ':';
        Some((s.subrange(0, i), s.subrange(i + 1, s.len() as int)))
    } else {
        None
    }
}

/// Splits a model reference "provider:model"; none unless it holds exactly one colon.
pub fn split_model_ref(s: &str) -> (r: Option<(String, String)>)
    ensures
        match (r, model_ref_parts(s@)) {
            (Some((p, m)), Some((a, b))) => p@ == a && m@ == b,
            (None, None) => true,
            _ => false,
        },
{
    let cs = chars_of(s);
    let mut count: usize = 0;
    let mut at: usize = 0;
    let mut i: usize = 0;
    while i < cs.len()
        invariant
            cs@ == s@,
            i <= cs.len(),
            count == count_char(s@.take(i as int), ':'),
            count <= i,
            count >= 1 ==> at < i && s@[at as int] == ':',
            count == 0 ==> forall|j: int| 0 <= j < i ==> s@[j] != ':',
            count == 1 ==> forall|j: int| 0 <= j < i && s@[j] == ':' ==> j == at,
        decreases cs.len() - i,
    {
        proof {
            assert(s@.take(i + 1).drop_last() =~= s@.take(i as int));
        }
        if cs[i] == ':' {
            if count == 0 {
                at = i;
            }
            count = count + 1;
        }
        i = i + 1;
    }
    assert(s@.take(i as int) =~= s@);
    if count == 1 {
        proof {
            let k = choose|k: int| 0 <= k < s@.len() && s@[k] == ':';
            assert(k == at);
        }
        Some((String::from_str(s.substring_char(0, at)), String::from_str(s.substring_char(at + 1, cs.len()))))
    } else {
        None
    }
}

/// A line of a server-sent event stream, as the transport reads it.
pub enum EventLine {
    /// The payload after "data: ".
    Data(String),
    /// The "[DONE]" marker that ends an OpenAI-style stream.
    Done,
    /// Any other line, and a data line with nothing after the prefix.
    Skip,
}

pub open spec fn data_prefix() -> Seq<char> {
    seq!['d', 'a', 't', 'a', ':', ' ']
}

pub open spec fn done_marker() -> Seq<char> {
    seq!['[', 'D', 'O', 'N', 'E', ']']
}

/// Sorts an event-stream line: its data payload, the end marker, or nothing.
pub fn classify_event_line(line: &str) -> (r: EventLine)
    ensures
        ({
            let l = line@;
            let prefixed = l.len() >= 6 && l.take(6) == data_prefix();
            let payload = l.subrange(6, l.len() as int);
            match r {
                EventLine::Data(p) => prefixed && payload.len() > 0 && payload != done_marker() && p@ == payload,
                EventLine::Done => prefixed && payload == done_marker(),
                EventLine::Skip => !prefixed || payload.len() == 0,
            }
        }),
{
    let cs = chars_of(line);
    let n = cs.len();
    if n < 6 || cs[0] != 'd' || cs[1] != 'a' || cs[2] != 't' || cs[3] != 'a' || cs[4] != ':' || cs[5]
        != ' ' {
        assert(n >= 6 ==> line@.take(6) != data_prefix()) by {
            if n >= 6 {
                assert(line@.take(6)[0] == cs@[0]);
                assert(line@.take(6)[1] == cs@[1]);
                assert(line@.take(6)[2] == cs@[2]);
                assert(line@.take(6)[3] == cs@[3]);
                assert(line@.take(6)[4] == cs@[4]);
                assert(line@.take(6)[5] == cs@[5]);
            }
        }
        return EventLine::Skip;
    }
    assert(line@.take(6) =~= data_prefix());
    let payload = line.substring_char(6, n);
    if n == 6 {
        return EventLine::Skip;
    }
    if n == 12 && cs[6] == '[' && cs[7] == 'D' && cs[8] == 'O' && cs[9] == 'N' && cs[10] == 'E' && cs[11]
        == ']' {
        assert(payload@ =~= done_marker());
        return EventLine::Done;
    }
    assert(payload@ != done_marker()) by {
        if payload@ == done_marker() {
            assert(payload@[0] == cs@[6]);
            assert(payload@[1] == cs@[7]);
            assert(payload@[2] == cs@[8]);
            assert(payload@[3] == cs@[9]);
            assert(payload@[4] == cs@[10]);
            assert(payload@[5] == cs@[11]);
        }
    }
    EventLine::Data(String::from_str(payload))
}

} // verus!
