//! The fence grammar: splitting a message into plain-text and fenced code
//! segments, and extracting its code blocks.

use vstd::prelude::*;
use crate::text::{
    chars_of, join_lines, join_with_newlines, lines_of, split_lines, trim, trim_bounds, views,
};

verus! {

/// A line that starts with three backticks opens a fence.
pub open spec fn is_fence_open(l: Seq<char>) -> bool {
    l.len() >= 3 && l[0] == '`' && l[1] == '`' && l[2] == '`'
}

/// What follows the three backticks.
pub open spec fn fence_tail(l: Seq<char>) -> Seq<char> {
    l.subrange(3, l.len() as int)
}

/// A line of three backticks and nothing but whitespace after them closes a fence.
pub open spec fn is_fence_close(l: Seq<char>) -> bool {
    is_fence_open(l) && trim(fence_tail(l)).len() == 0
}

/// The language tag of an opening fence: the trimmed text after the backticks,
/// none where that is empty.
pub open spec fn fence_lang(l: Seq<char>) -> Option<Seq<char>> {
    let t = trim(fence_tail(l));
    if t.len() == 0 {
        None
    } else {
        Some(t)
    }
}

/// A segment of a message: plain-text lines, or the body lines of a fenced
/// block with its language tag and the index of its first body line.
pub ghost enum SegmentView {
    Text(Seq<Seq<char>>),
    Code { lang: Option<Seq<char>>, body: Seq<Seq<char>>, first: nat },
}

/// The scanner's state after some lines: the segments completed, the open
/// fence if any (its tag and first body line), and the lines gathered since.
pub ghost struct ScanState {
    pub segs: Seq<SegmentView>,
    pub open: Option<(Option<Seq<char>>, nat)>,
    pub acc: Seq<Seq<char>>,
}

pub open spec fn text_flush(segs: Seq<SegmentView>, acc: Seq<Seq<char>>) -> Seq<SegmentView> {
    if acc.len() > 0 {
        segs.push(SegmentView::Text(acc))
    } else {
        segs
    }
}

/// One scanner step on line `l` at index `idx`.
pub open spec fn scan_step(st: ScanState, l: Seq<char>, idx: nat) -> ScanState {
    match st.open {
        None => if is_fence_open(l) {
            ScanState { segs: text_flush(st.segs, st.acc), open: Some((fence_lang(l), idx + 1)), acc: seq![] }
        } else {
            ScanState { acc: st.acc.push(l), ..st }
        },
        Some((lang, first)) => if is_fence_close(l) {
            ScanState {
                segs: st.segs.push(SegmentView::Code { lang, body: st.acc, first }),
                open: None,
                acc: seq![],
            }
        } else {
            ScanState { acc: st.acc.push(l), ..st }
        },
    }
}

pub open spec fn scan_init() -> ScanState {
    ScanState { segs: seq![], open: None, acc: seq![] }
}

/// The scanner run over `lines` from state `st`; the first of them has index `base`.
pub open spec fn scan_from(st: ScanState, lines: Seq<Seq<char>>, base: nat) -> ScanState
    decreases lines.len(),
{
    if lines.len() == 0 {
        st
    } else {
        scan_step(
            scan_from(st, lines.drop_last(), base),
            lines.last(),
            (base + lines.len() - 1) as nat,
        )
    }
}

/// The segments once the lines run out: an unterminated block is closed at the end.
pub open spec fn scan_finish(st: ScanState) -> Seq<SegmentView> {
    match st.open {
        None => text_flush(st.segs, st.acc),
        Some((lang, first)) => st.segs.push(SegmentView::Code { lang, body: st.acc, first }),
    }
}

pub open spec fn segments_of_lines(lines: Seq<Seq<char>>) -> Seq<SegmentView> {
    scan_finish(scan_from(scan_init(), lines, 0))
}

/// The segments of a message's text.
pub open spec fn segments_of(text: Seq<char>) -> Seq<SegmentView> {
    segments_of_lines(lines_of(text))
}

/// A plain-text or fenced code segment of a message.
pub enum Segment {
    Text(Vec<String>),
    Code { language: Option<String>, lines: Vec<String>, first_line: usize },
}

impl View for Segment {
    type V = SegmentView;

    open spec fn view(&self) -> SegmentView {
        match self {
            Segment::Text(ls) => SegmentView::Text(views(ls@)),
            Segment::Code { language, lines, first_line } => SegmentView::Code {
                lang: match language {
                    Some(s) => Some(s@),
                    None => None,
                },
                body: views(lines@),
                first: *first_line as nat,
            },
        }
    }
}

pub open spec fn segment_views(v: Seq<Segment>) -> Seq<SegmentView> {
    v.map_values(|s: Segment| s@)
}

/// A code segment's first body line is not the first line, and its body
/// ends at or before line `n`.
pub open spec fn code_span_within(s: Segment, n: nat) -> bool {
    match s {
        Segment::Code { lines, first_line, .. } => 1 <= first_line && first_line + lines@.len() <= n,
        _ => true,
    }
}

/// Classifies a line: `None` if it opens no fence; otherwise whether it can
/// close one, and its language tag.
fn classify_fence(line: &String) -> (r: Option<(bool, Option<String>)>)
    ensures
        r.is_none() <==> !is_fence_open(line@),
        r.is_some() ==> r.unwrap().0 == is_fence_close(line@),
        r.is_some() ==> (match (r.unwrap().1, fence_lang(line@)) {
            (Some(a), Some(b)) => a@ == b,
            (None, None) => true,
            _ => false,
        }),
{
    let cs = chars_of(line.as_str());
    if cs.len() < 3 || cs[0] != '`' || cs[1] != '`' || cs[2] != '`' {
        return None;
    }
    let (a, b) = trim_bounds(&cs, 3, cs.len());
    assert(cs@.subrange(3, cs.len() as int) =~= fence_tail(line@));
    if a == b {
        Some((true, None))
    } else {
        let tag = String::from_str(line.as_str().substring_char(a, b));
        Some((false, Some(tag)))
    }
}

/// Splits a message's text into plain-text and fenced code segments, in order.
pub fn parse_message_segments(content: &str) -> (r: Vec<Segment>)
    ensures
        segment_views(r@) == segments_of(content@),
        lines_of(content@).len() <= usize::MAX,
        forall|k: int|
            0 <= k < r@.len() ==> code_span_within(#[trigger] r@[k], lines_of(content@).len()),
{
    let lines = split_lines(content);
    let ghost ls = lines_of(content@);
    let mut segs: Vec<Segment> = Vec::new();
    let mut acc: Vec<String> = Vec::new();
    let mut open: Option<(Option<String>, usize)> = None;
    let mut i: usize = 0;
    while i < lines.len()
        invariant
            views(lines@) == ls,
            i <= lines.len(),
            ({
                let st = scan_from(scan_init(), ls.take(i as int), 0);
                &&& st.segs == segment_views(segs@)
                &&& st.acc == views(acc@)
                &&& match (open, st.open) {
                    (None, None) => true,
                    (Some((l1, f1)), Some((l2, f2))) => f1 as nat == f2 && match (l1, l2) {
                        (Some(a), Some(b)) => a@ == b,
                        (None, None) => true,
                        _ => false,
                    },
                    _ => false,
                }
            }),
            forall|k: int| 0 <= k < segs@.len() ==> code_span_within(#[trigger] segs@[k], i as nat),
            open matches Some((_, f)) ==> 1 <= f && f + acc@.len() == i,
        decreases lines.len() - i,
    {
        proof {
            assert(ls.take(i + 1).drop_last() =~= ls.take(i as int));
            assert(ls.take(i + 1).last() == ls[i as int]);
        }
        let line = &lines[i];
        let kind = classify_fence(line);
        match open {
            None => {
                match kind {
                    Some((_, tag)) => {
                        if acc.len() > 0 {
                            let done = acc;
                            acc = Vec::new();
                            segs.push(Segment::Text(done));
                            assert(segment_views(segs@) =~= text_flush(
                                scan_from(scan_init(), ls.take(i as int), 0).segs,
                                scan_from(scan_init(), ls.take(i as int), 0).acc,
                            ));
                        } else {
                            assert(segment_views(segs@) =~= text_flush(
                                scan_from(scan_init(), ls.take(i as int), 0).segs,
                                scan_from(scan_init(), ls.take(i as int), 0).acc,
                            ));
                        }
                        open = Some((tag, i + 1));
                        assert(views(acc@) =~= seq![]);
                    },
                    None => {
                        let ghost old_acc = acc@;
                        acc.push(line.clone());
                        assert(views(acc@) =~= views(old_acc).push(line@));
                    },
                }
            },
            Some((lang, first)) => {
                let is_close = match &kind {
                    Some((c, _)) => *c,
                    None => false,
                };
                if is_close {
                    let done = acc;
                    acc = Vec::new();
                    let ghost old_segs = segs@;
                    segs.push(Segment::Code { language: lang, lines: done, first_line: first });
                    assert(segment_views(segs@) =~= segment_views(old_segs).push(segs@.last()@));
                    open = None;
                    assert(views(acc@) =~= seq![]);
                } else {
                    let ghost old_acc = acc@;
                    acc.push(line.clone());
                    assert(views(acc@) =~= views(old_acc).push(line@));
                    open = Some((lang, first));
                }
            },
        }
        i = i + 1;
    }
    assert(ls.take(i as int) =~= ls);
    match open {
        None => {
            if acc.len() > 0 {
                segs.push(Segment::Text(acc));
            }
        },
        Some((lang, first)) => {
            segs.push(Segment::Code { language: lang, lines: acc, first_line: first });
        },
    }
    assert(segment_views(segs@) =~= segments_of(content@));
    segs
}

/// A fenced code block: its body joined with newlines, its language tag, and
/// the indices of its first and last body lines.
pub struct CodeBlock {
    pub content: String,
    pub language: Option<String>,
    pub start_line: usize,
    pub end_line: usize,
}

pub ghost struct CodeBlockView {
    pub content: Seq<char>,
    pub language: Option<Seq<char>>,
    pub start_line: nat,
    pub end_line: nat,
}

impl View for CodeBlock {
    type V = CodeBlockView;

    open spec fn view(&self) -> CodeBlockView {
        CodeBlockView {
            content: self.content@,
            language: match self.language {
                Some(s) => Some(s@),
                None => None,
            },
            start_line: self.start_line as nat,
            end_line: self.end_line as nat,
        }
    }
}

pub open spec fn block_views(v: Seq<CodeBlock>) -> Seq<CodeBlockView> {
    v.map_values(|b: CodeBlock| b@)
}

/// The code blocks among `segs`, in order.
pub open spec fn blocks_of_segments(segs: Seq<SegmentView>) -> Seq<CodeBlockView>
    decreases segs.len(),
{
    if segs.len() == 0 {
        seq![]
    } else {
        let rest = blocks_of_segments(segs.drop_last());
        match segs.last() {
            SegmentView::Code { lang, body, first } => rest.push(
                CodeBlockView {
                    content: join_lines(body),
                    language: lang,
                    start_line: first,
                    end_line: if first + body.len() > 0 {
                        (first + body.len() - 1) as nat
                    } else {
                        0
                    },
                },
            ),
            SegmentView::Text(_) => rest,
        }
    }
}

/// The code blocks of a message's text, in order of appearance.
pub open spec fn code_blocks_of(text: Seq<char>) -> Seq<CodeBlockView> {
    blocks_of_segments(segments_of(text))
}

/// Extracts the fenced code blocks of a message's text, in order; a block
/// left open runs to the end of the text.
pub fn extract_code_blocks(content: &str) -> (r: Vec<CodeBlock>)
    ensures
        block_views(r@) == code_blocks_of(content@),
{
    let segs = parse_message_segments(content);
    let mut r: Vec<CodeBlock> = Vec::new();
    let mut i: usize = 0;
    while i < segs.len()
        invariant
            i <= segs.len(),
            segment_views(segs@) == segments_of(content@),
            lines_of(content@).len() <= usize::MAX,
            forall|k: int|
                0 <= k < segs@.len() ==> code_span_within(#[trigger] segs@[k], lines_of(content@).len()),
            block_views(r@) == blocks_of_segments(segment_views(segs@).take(i as int)),
        decreases segs.len() - i,
    {
        proof {
            let t = segment_views(segs@).take(i + 1);
            assert(t.drop_last() =~= segment_views(segs@).take(i as int));
            assert(t.last() == segs@[i as int]@);
        }
        assert(code_span_within(segs@[i as int], lines_of(content@).len()));
        match &segs[i] {
            Segment::Code { language, lines, first_line } => {
                let content = join_with_newlines(lines);
                let language = match language {
                    Some(s) => Some(s.clone()),
                    None => None,
                };
                let ghost old_r = r@;
                r.push(
                    CodeBlock {
                        content,
                        language,
                        start_line: *first_line,
                        end_line: *first_line + lines.len() - 1,
                    },
                );
                assert(block_views(r@) =~= block_views(old_r).push(r@.last()@));
            },
            Segment::Text(_) => {},
        }
        i = i + 1;
    }
    assert(segment_views(segs@).take(i as int) =~= segment_views(segs@));
    r
}

proof fn lemma_scan_from_append(st: ScanState, a: Seq<Seq<char>>, b: Seq<Seq<char>>, base: nat)
    ensures
        scan_from(st, a + b, base) == scan_from(scan_from(st, a, base), b, base + a.len()),
    decreases b.len(),
{
    if b.len() == 0 {
        assert(a + b =~= a);
    } else {
        assert((a + b).drop_last() =~= a + b.drop_last());
        lemma_scan_from_append(st, a, b.drop_last(), base);
    }
}

proof fn lemma_scan_single(st: ScanState, l: Seq<char>, idx: nat)
    ensures
        scan_from(st, seq![l], idx) == scan_step(st, l, idx),
{
    let one = seq![l];
    assert(one.drop_last() =~= Seq::<Seq<char>>::empty());
    assert(scan_from(st, one.drop_last(), idx) == st);
    assert(one.last() == l);
}

proof fn lemma_scan_plain(st: ScanState, p: Seq<Seq<char>>, base: nat)
    requires
        st.open is None,
        forall|k: int| 0 <= k < p.len() ==> !is_fence_open(#[trigger] p[k]),
    ensures
        scan_from(st, p, base) == (ScanState { acc: st.acc + p, ..st }),
    decreases p.len(),
{
    if p.len() == 0 {
        assert(st.acc + p =~= st.acc);
    } else {
        lemma_scan_plain(st, p.drop_last(), base);
        assert(!is_fence_open(p[p.len() - 1]));
        assert((st.acc + p.drop_last()).push(p.last()) =~= st.acc + p);
    }
}

proof fn lemma_scan_body(st: ScanState, b: Seq<Seq<char>>, base: nat)
    requires
        st.open is Some,
        forall|k: int| 0 <= k < b.len() ==> !is_fence_close(#[trigger] b[k]),
    ensures
        scan_from(st, b, base) == (ScanState { acc: st.acc + b, ..st }),
    decreases b.len(),
{
    if b.len() == 0 {
        assert(st.acc + b =~= st.acc);
    } else {
        lemma_scan_body(st, b.drop_last(), base);
        assert(!is_fence_close(b[b.len() - 1]));
        assert((st.acc + b.drop_last()).push(b.last()) =~= st.acc + b);
    }
}

/// A bare closing fence.
pub open spec fn close_fence() -> Seq<char> {
    seq!['`', '`', '`']
}

/// A piece of a message: plain lines, an opening fence line, the body lines.
pub type FencedPart = (Seq<Seq<char>>, Seq<char>, Seq<Seq<char>>);

/// The plain lines contain no opening fence, the fence line opens one, and
/// no body line closes it.
pub open spec fn well_formed_part(p: FencedPart) -> bool {
    &&& forall|k: int| 0 <= k < p.0.len() ==> !is_fence_open(#[trigger] p.0[k])
    &&& is_fence_open(p.1)
    &&& forall|k: int| 0 <= k < p.2.len() ==> !is_fence_close(#[trigger] p.2[k])
}

/// The lines of a piece, its block closed by a bare fence.
pub open spec fn part_lines(p: FencedPart) -> Seq<Seq<char>> {
    p.0 + seq![p.1] + p.2 + seq![close_fence()]
}

/// The lines of the pieces, one after another.
pub open spec fn fenced_lines(parts: Seq<FencedPart>) -> Seq<Seq<char>>
    decreases parts.len(),
{
    if parts.len() == 0 {
        seq![]
    } else {
        fenced_lines(parts.drop_last()) + part_lines(parts.last())
    }
}

/// The index of the opening fence line of piece `i`.
pub open spec fn fence_index(parts: Seq<FencedPart>, i: int) -> nat {
    fenced_lines(parts.take(i)).len() + parts[i].0.len()
}

/// The blocks found match the pieces one for one: body, tag, and the lines
/// from the one after the opening fence to the last body line.
pub open spec fn blocks_match_parts(blocks: Seq<CodeBlockView>, parts: Seq<FencedPart>) -> bool {
    &&& blocks.len() == parts.len()
    &&& forall|i: int|
        0 <= i < parts.len() ==> (#[trigger] blocks[i]).content == join_lines(parts[i].2)
            && blocks[i].language == fence_lang(parts[i].1)
            && blocks[i].start_line == fence_index(parts, i) + 1
            && blocks[i].end_line == fence_index(parts, i) + parts[i].2.len()
}

proof fn lemma_scan_part(st: ScanState, p: FencedPart, base: nat)
    requires
        st.open is None,
        st.acc.len() == 0,
        well_formed_part(p),
    ensures
        ({
            let r = scan_from(st, part_lines(p), base);
            &&& r.open is None
            &&& r.acc.len() == 0
            &&& r.segs == text_flush(st.segs, p.0).push(
                SegmentView::Code { lang: fence_lang(p.1), body: p.2, first: base + p.0.len() + 1 },
            )
        }),
{
    let a = p.0;
    let b = seq![p.1];
    let c = p.2;
    let d = seq![close_fence()];
    lemma_scan_from_append(st, a + b + c, d, base);
    lemma_scan_from_append(st, a + b, c, base);
    lemma_scan_from_append(st, a, b, base);
    lemma_scan_plain(st, a, base);
    assert(st.acc + a =~= a);
    let s1 = scan_from(st, a, base);
    lemma_scan_single(s1, p.1, base + a.len());
    let s2 = scan_from(s1, b, base + a.len());
    lemma_scan_body(s2, c, base + a.len() + 1);
    assert(s2.acc + c =~= c);
    let s3 = scan_from(s2, c, base + (a + b).len());
    lemma_scan_single(s3, close_fence(), base + (a + b + c).len());
    assert(fence_tail(close_fence()) =~= Seq::<char>::empty());
    assert(trim(fence_tail(close_fence())) =~= Seq::<char>::empty());
    assert(is_fence_close(close_fence()));
    assert(part_lines(p) == a + b + c + d);
}

proof fn lemma_blocks_of_flush(segs: Seq<SegmentView>, acc: Seq<Seq<char>>)
    ensures
        blocks_of_segments(text_flush(segs, acc)) == blocks_of_segments(segs),
{
    if acc.len() > 0 {
        assert(text_flush(segs, acc).drop_last() =~= segs);
    }
}

proof fn lemma_scan_parts(parts: Seq<FencedPart>)
    requires
        forall|i: int| 0 <= i < parts.len() ==> well_formed_part(#[trigger] parts[i]),
    ensures
        ({
            let r = scan_from(scan_init(), fenced_lines(parts), 0);
            &&& r.open is None
            &&& r.acc.len() == 0
            &&& blocks_match_parts(blocks_of_segments(r.segs), parts)
        }),
    decreases parts.len(),
{
    if parts.len() == 0 {
        assert(blocks_of_segments(Seq::<SegmentView>::empty()) =~= Seq::<CodeBlockView>::empty());
    } else {
        let init = parts.drop_last();
        let p = parts.last();
        assert(well_formed_part(parts[parts.len() - 1]));
        assert forall|i: int| 0 <= i < init.len() implies well_formed_part(#[trigger] init[i]) by {
            assert(init[i] == parts[i]);
        }
        lemma_scan_parts(init);
        let pre = fenced_lines(init);
        lemma_scan_from_append(scan_init(), pre, part_lines(p), 0);
        let st = scan_from(scan_init(), pre, 0);
        lemma_scan_part(st, p, pre.len());
        let r = scan_from(scan_init(), fenced_lines(parts), 0);
        let flushed = text_flush(st.segs, p.0);
        lemma_blocks_of_flush(st.segs, p.0);
        assert(r.segs.drop_last() =~= flushed);
        let bs = blocks_of_segments(r.segs);
        assert(bs.drop_last() == blocks_of_segments(st.segs));
        assert forall|i: int| 0 <= i < parts.len() implies (#[trigger] bs[i]).content == join_lines(
            parts[i].2,
        ) && bs[i].language == fence_lang(parts[i].1) && bs[i].start_line == fence_index(parts, i)
            + 1 && bs[i].end_line == fence_index(parts, i) + parts[i].2.len() by {
            if i < init.len() {
                assert(bs[i] == bs.drop_last()[i]);
                assert(parts[i] == init[i]);
                assert(parts.take(i) =~= init.take(i));
            } else {
                assert(parts.take(i) =~= init);
            }
        }
    }
}

proof fn lemma_round_trip_lines(parts: Seq<FencedPart>, tail: Seq<Seq<char>>)
    requires
        forall|i: int| 0 <= i < parts.len() ==> well_formed_part(#[trigger] parts[i]),
        forall|k: int| 0 <= k < tail.len() ==> !is_fence_open(#[trigger] tail[k]),
    ensures
        blocks_match_parts(blocks_of_segments(segments_of_lines(fenced_lines(parts) + tail)), parts),
{
    lemma_scan_parts(parts);
    lemma_scan_from_append(scan_init(), fenced_lines(parts), tail, 0);
    let st = scan_from(scan_init(), fenced_lines(parts), 0);
    lemma_scan_plain(st, tail, fenced_lines(parts).len());
    lemma_blocks_of_flush(st.segs, st.acc + tail);
}

/// Fence round trip: a text whose lines are well-formed fenced blocks
/// separated by plain text yields exactly one code block per fenced block,
/// in source order, each with its body verbatim, its tag, and its span of
/// lines. (Lines written out with newlines, or with CRLF, have such text:
/// see `lemma_lines_of_text`.)
pub proof fn lemma_fence_round_trip(parts: Seq<FencedPart>, tail: Seq<Seq<char>>, text: Seq<char>)
    requires
        forall|i: int| 0 <= i < parts.len() ==> well_formed_part(#[trigger] parts[i]),
        forall|k: int| 0 <= k < tail.len() ==> !is_fence_open(#[trigger] tail[k]),
        lines_of(text) == fenced_lines(parts) + tail,
    ensures
        blocks_match_parts(code_blocks_of(text), parts),
{
    lemma_round_trip_lines(parts, tail);
}

/// Unterminated fence: a text whose lines are plain lines, an opening fence
/// and body lines with no closing fence yields one code block whose content
/// is every line after the opening one, spanning them to the end of the text.
pub proof fn lemma_unterminated_fence(
    pre: Seq<Seq<char>>,
    fence: Seq<char>,
    body: Seq<Seq<char>>,
    text: Seq<char>,
)
    requires
        forall|k: int| 0 <= k < pre.len() ==> !is_fence_open(#[trigger] pre[k]),
        is_fence_open(fence),
        forall|k: int| 0 <= k < body.len() ==> !is_fence_close(#[trigger] body[k]),
        lines_of(text) == pre + seq![fence] + body,
    ensures
        ({
            let blocks = code_blocks_of(text);
            &&& blocks.len() == 1
            &&& blocks[0].content == join_lines(body)
            &&& blocks[0].language == fence_lang(fence)
            &&& blocks[0].start_line == pre.len() + 1
            &&& blocks[0].end_line == pre.len() + body.len()
        }),
{
    let ls = pre + seq![fence] + body;
    let st = scan_init();
    lemma_scan_from_append(st, pre + seq![fence], body, 0);
    lemma_scan_from_append(st, pre, seq![fence], 0);
    lemma_scan_plain(st, pre, 0);
    assert(st.acc + pre =~= pre);
    let s1 = scan_from(st, pre, 0);
    lemma_scan_single(s1, fence, pre.len());
    let s2 = scan_from(s1, seq![fence], pre.len());
    lemma_scan_body(s2, body, pre.len() + 1);
    assert(s2.acc + body =~= body);
    lemma_blocks_of_flush(Seq::<SegmentView>::empty(), pre);
    assert(blocks_of_segments(Seq::<SegmentView>::empty()) =~= Seq::<CodeBlockView>::empty());
    let segs = scan_finish(scan_from(st, ls, 0));
    assert(segs.drop_last() == text_flush(Seq::<SegmentView>::empty(), pre));
}

} // verus!
