//! Character-level helpers: line splitting, trimming and joining.

use vstd::prelude::*;

verus! {

/// Whitespace as the fence grammar understands it: the characters with
/// Unicode's White_Space property, the ones `str::trim` removes.
pub open spec fn is_ws(c: char) -> bool {
    let u = c as u32;
    (0x09 <= u && u <= 0x0D) || u == 0x20 || u == 0x85 || u == 0xA0 || u == 0x1680 || (0x2000 <= u
        && u <= 0x200A) || u == 0x2028 || u == 0x2029 || u == 0x202F || u == 0x205F || u == 0x3000
}

pub fn is_ws_exec(c: char) -> (r: bool)
    ensures
        r == is_ws(c),
{
    let u = c as u32;
    (0x09 <= u && u <= 0x0D) || u == 0x20 || u == 0x85 || u == 0xA0 || u == 0x1680 || (0x2000 <= u
        && u <= 0x200A) || u == 0x2028 || u == 0x2029 || u == 0x202F || u == 0x205F || u == 0x3000
}

/// Drops one carriage return that ends `l`.
pub open spec fn strip_cr(l: Seq<char>) -> Seq<char> {
    if l.len() > 0 && l.last() == '\r' {
        l.drop_last()
    } else {
        l
    }
}

/// Splitting as a left fold over the characters: the finished lines and the
/// line still open.
pub open spec fn scan_lines(s: Seq<char>) -> (Seq<Seq<char>>, Seq<char>)
    decreases s.len(),
{
    if s.len() == 0 {
        (seq![], seq![])
    } else {
        let (done, cur) = scan_lines(s.drop_last());
        if s.last() == '\n' {
            (done.push(strip_cr(cur)), seq![])
        } else {
            (done, cur.push(s.last()))
        }
    }
}

/// The lines of `s`: split at each newline, a carriage return before a
/// newline dropped, and no empty line after a final newline.
pub open spec fn lines_of(s: Seq<char>) -> Seq<Seq<char>> {
    let (done, cur) = scan_lines(s);
    if cur.len() > 0 {
        done.push(cur)
    } else {
        done
    }
}

/// Every line followed by a newline.
pub open spec fn join_terminated(ls: Seq<Seq<char>>) -> Seq<char>
    decreases ls.len(),
{
    if ls.len() == 0 {
        seq![]
    } else {
        join_terminated(ls.drop_last()) + ls.last().push('\n')
    }
}

/// The lines separated by newlines.
pub open spec fn join_lines(ls: Seq<Seq<char>>) -> Seq<char>
    decreases ls.len(),
{
    if ls.len() == 0 {
        seq![]
    } else if ls.len() == 1 {
        ls[0]
    } else {
        join_lines(ls.drop_last()).push('\n') + ls.last()
    }
}

pub open spec fn trim_start(s: Seq<char>) -> Seq<char>
    decreases s.len(),
{
    if s.len() > 0 && is_ws(s[0]) {
        trim_start(s.subrange(1, s.len() as int))
    } else {
        s
    }
}

pub open spec fn trim_end(s: Seq<char>) -> Seq<char>
    decreases s.len(),
{
    if s.len() > 0 && is_ws(s.last()) {
        trim_end(s.drop_last())
    } else {
        s
    }
}

pub open spec fn trim(s: Seq<char>) -> Seq<char> {
    trim_end(trim_start(s))
}

/// The characters of `s`, one element each.
pub fn chars_of(s: &str) -> (r: Vec<char>)
    ensures
        r@ == s@,
{
    let mut r: Vec<char> = Vec::new();
    for c in it: s.chars()
        invariant
            r@ == it.seq().take(it.index() as int),
    {
        r.push(c);
    }
    assert(r@ =~= s@);
    r
}

/// The views of a sequence of strings.
pub open spec fn views(v: Seq<String>) -> Seq<Seq<char>> {
    v.map_values(|x: String| x@)
}

/// Splits `s` into its lines (see `lines_of`).
pub fn split_lines(s: &str) -> (r: Vec<String>)
    ensures
        views(r@) == lines_of(s@),
{
    let cs = chars_of(s);
    let mut r: Vec<String> = Vec::new();
    let mut start: usize = 0;
    let mut i: usize = 0;
    while i < cs.len()
        invariant
            cs@ == s@,
            start <= i <= cs.len(),
            scan_lines(s@.take(i as int)) == (views(r@), s@.subrange(start as int, i as int)),
        decreases cs.len() - i,
    {
        let ghost prev = s@.take(i as int);
        proof {
            assert(s@.take(i + 1).drop_last() =~= prev);
            assert(s@.take(i + 1).last() == s@[i as int]);
        }
        if cs[i] == '\n' {
            let end = if i > start && cs[i - 1] == '\r' {
                i - 1
            } else {
                i
            };
            proof {
                assert(s@.subrange(start as int, end as int) =~= strip_cr(
                    s@.subrange(start as int, i as int),
                ));
            }
            let line = String::from_str(s.substring_char(start, end));
            r.push(line);
            start = i + 1;
            assert(views(r@) =~= scan_lines(prev).0.push(line@));
        } else {
            assert(s@.subrange(start as int, i + 1) =~= s@.subrange(start as int, i as int).push(
                s@[i as int],
            ));
        }
        i = i + 1;
        assert(s@.take(i as int).len() == i);
    }
    assert(s@.take(i as int) =~= s@);
    if start < cs.len() {
        let line = String::from_str(s.substring_char(start, cs.len()));
        r.push(line);
        assert(views(r@) =~= lines_of(s@));
    }
    r
}

/// Joins the lines with newlines between them.
pub fn join_with_newlines(ls: &Vec<String>) -> (r: String)
    ensures
        r@ == join_lines(views(ls@)),
{
    let mut r = String::new();
    let mut i: usize = 0;
    while i < ls.len()
        invariant
            i <= ls.len(),
            r@ == join_lines(views(ls@).take(i as int)),
        decreases ls.len() - i,
    {
        proof {
            reveal_strlit("\n");
            let t = views(ls@).take(i + 1);
            assert(t.drop_last() =~= views(ls@).take(i as int));
        }
        if i > 0 {
            r.append("\n");
        }
        r.append(ls[i].as_str());
        i = i + 1;
        proof {
            let t = views(ls@).take(i as int);
            if i == 1 {
                assert(r@ =~= t[0]);
            } else {
                assert(r@ =~= join_lines(t.drop_last()).push('\n') + t.last());
            }
        }
    }
    assert(views(ls@).take(i as int) =~= views(ls@));
    r
}

/// The bounds of `cs[from..to]` with leading and trailing whitespace removed.
pub fn trim_bounds(cs: &Vec<char>, from: usize, to: usize) -> (r: (usize, usize))
    requires
        from <= to <= cs.len(),
    ensures
        from <= r.0 <= r.1 <= to,
        cs@.subrange(r.0 as int, r.1 as int) == trim(cs@.subrange(from as int, to as int)),
{
    let mut a = from;
    while a < to && is_ws_exec(cs[a])
        invariant
            from <= a <= to <= cs.len(),
            trim_start(cs@.subrange(from as int, to as int)) == trim_start(
                cs@.subrange(a as int, to as int),
            ),
        decreases to - a,
    {
        let ghost t = cs@.subrange(a as int, to as int);
        assert(t.subrange(1, t.len() as int) =~= cs@.subrange(a + 1, to as int));
        a = a + 1;
    }
    let mut b = to;
    while b > a && is_ws_exec(cs[b - 1])
        invariant
            from <= a <= b <= to <= cs.len(),
            trim_end(cs@.subrange(a as int, to as int)) == trim_end(
                cs@.subrange(a as int, b as int),
            ),
        decreases b - a,
    {
        let ghost t = cs@.subrange(a as int, b as int);
        assert(t.drop_last() =~= cs@.subrange(a as int, b - 1));
        b = b - 1;
    }
    (a, b)
}

/// No newline in `l`, and no carriage return at its end.
pub open spec fn is_plain_line(l: Seq<char>) -> bool {
    (forall|k: int| 0 <= k < l.len() ==> l[k] != '\n') && !(l.len() > 0 && l.last() == '\r')
}

proof fn lemma_scan_lines_open(s: Seq<char>, l: Seq<char>)
    requires
        scan_lines(s).1.len() == 0,
        forall|k: int| 0 <= k < l.len() ==> l[k] != '\n',
    ensures
        scan_lines(s + l) == (scan_lines(s).0, l),
    decreases l.len(),
{
    if l.len() == 0 {
        assert(s + l =~= s);
    } else {
        assert((s + l).drop_last() =~= s + l.drop_last());
        lemma_scan_lines_open(s, l.drop_last());
        assert(l.drop_last().push(l.last()) =~= l);
    }
}

/// Lines written out each with a newline split back into the same lines.
pub proof fn lemma_lines_of_join_terminated(ls: Seq<Seq<char>>)
    requires
        forall|k: int| 0 <= k < ls.len() ==> is_plain_line(#[trigger] ls[k]),
    ensures
        scan_lines(join_terminated(ls)) == (ls, Seq::<char>::empty()),
        lines_of(join_terminated(ls)) == ls,
    decreases ls.len(),
{
    if ls.len() > 0 {
        let init = ls.drop_last();
        let l = ls.last();
        assert(is_plain_line(ls[ls.len() - 1]));
        lemma_lines_of_join_terminated(init);
        let s = join_terminated(init);
        lemma_scan_lines_open(s, l);
        let full = join_terminated(ls);
        assert(full =~= (s + l).push('\n'));
        assert(full.drop_last() =~= s + l);
        assert(ls =~= init.push(l));
    } else {
        assert(ls =~= Seq::<Seq<char>>::empty());
    }
}

proof fn lemma_join_lines_split(ls: Seq<Seq<char>>)
    requires
        ls.len() > 0,
    ensures
        join_lines(ls) == join_terminated(ls.drop_last()) + ls.last(),
    decreases ls.len(),
{
    if ls.len() == 1 {
        assert(ls.drop_last() =~= Seq::<Seq<char>>::empty());
        assert(join_terminated(ls.drop_last()) + ls.last() =~= ls[0]);
    } else {
        let init = ls.drop_last();
        lemma_join_lines_split(init);
        assert(init.drop_last() =~= ls.drop_last().drop_last());
        assert(join_lines(ls) =~= join_terminated(ls.drop_last()) + ls.last());
    }
}

/// `text` is the lines written out: each followed by a newline, or with
/// newlines between them and a last line that is not empty.
pub open spec fn is_text_of_lines(text: Seq<char>, ls: Seq<Seq<char>>) -> bool {
    text == join_terminated(ls) || (text == join_lines(ls) && (ls.len() == 0 || ls.last().len() > 0))
}

/// Lines written out either way split back into the same lines.
pub proof fn lemma_lines_of_text(text: Seq<char>, ls: Seq<Seq<char>>)
    requires
        forall|k: int| 0 <= k < ls.len() ==> is_plain_line(#[trigger] ls[k]),
        is_text_of_lines(text, ls),
    ensures
        lines_of(text) == ls,
{
    lemma_lines_of_join_terminated(ls);
    if text != join_terminated(ls) {
        if ls.len() == 0 {
            assert(text =~= Seq::<char>::empty());
            assert(join_terminated(ls) =~= Seq::<char>::empty());
        } else {
            let init = ls.drop_last();
            assert forall|k: int| 0 <= k < init.len() implies is_plain_line(#[trigger] init[k]) by {
                assert(init[k] == ls[k]);
            }
            lemma_lines_of_join_terminated(init);
            lemma_join_lines_split(ls);
            assert(is_plain_line(ls[ls.len() - 1]));
            lemma_scan_lines_open(join_terminated(init), ls.last());
            assert(init.push(ls.last()) =~= ls);
        }
    }
}

} // verus!
