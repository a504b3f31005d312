//! Flattening the per-message cache entries into one line sequence, with the
//! line-to-message index.

use vstd::prelude::*;
use crate::chat::MessageView;
use crate::highlight::{row_text, Rgb};
use crate::fence::segments_of;
use crate::render::{
    code_line, lemma_render_covers_text, message_entry, text_line_count, MAX_VISIBLE_LINES_PER_MESSAGE, entry_views, line_views, single, CacheEntry, LineView, Span, SpanStyle, StyledLine,
};

verus! {

/// The line shown where a message was cut short.
pub open spec fn ellipsis_line() -> LineView {
    single(seq!['.', '.', '.'], SpanStyle::Ellipsis)
}

/// The empty line after each message.
pub open spec fn separator_line() -> LineView {
    seq![]
}

/// A cache entry's lines in the document: its lines, the ellipsis if cut
/// short, and the separator.
pub open spec fn entry_block(e: (Seq<LineView>, bool)) -> Seq<LineView> {
    e.0 + (if e.1 {
        seq![ellipsis_line()]
    } else {
        seq![]
    }) + seq![separator_line()]
}

/// The owner of each line of an entry's block, and whether it is the ellipsis.
pub open spec fn entry_owners(i: usize, e: (Seq<LineView>, bool)) -> Seq<(usize, bool)> {
    Seq::new(e.0.len(), |j: int| (i, false)) + (if e.1 {
        seq![(i, true)]
    } else {
        seq![]
    }) + seq![(i, false)]
}

pub open spec fn flatten_lines(es: Seq<(Seq<LineView>, bool)>) -> Seq<LineView>
    decreases es.len(),
{
    if es.len() == 0 {
        seq![]
    } else {
        flatten_lines(es.drop_last()) + entry_block(es.last())
    }
}

pub open spec fn flatten_owners(es: Seq<(Seq<LineView>, bool)>) -> Seq<(usize, bool)>
    decreases es.len(),
{
    if es.len() == 0 {
        seq![]
    } else {
        flatten_owners(es.drop_last()) + entry_owners((es.len() - 1) as usize, es.last())
    }
}

pub proof fn lemma_owners_len(es: Seq<(Seq<LineView>, bool)>)
    ensures
        flatten_owners(es).len() == flatten_lines(es).len(),
    decreases es.len(),
{
    if es.len() > 0 {
        lemma_owners_len(es.drop_last());
    }
}

/// The flattened document: its lines, and for each line the index of the
/// message it belongs to and whether it is an ellipsis marker.
pub struct Document {
    pub lines: Vec<StyledLine>,
    pub line_to_message: Vec<(usize, bool)>,
}

fn copy_line(l: &StyledLine) -> (r: StyledLine)
    ensures
        r@ == l@,
{
    let mut spans: Vec<Span> = Vec::new();
    let mut i: usize = 0;
    while i < l.spans.len()
        invariant
            i <= l.spans.len(),
            spans@.map_values(|s: Span| s@) == l@.take(i as int),
        decreases l.spans.len() - i,
    {
        let ghost before = spans@;
        let s = &l.spans[i];
        spans.push(Span { text: s.text.clone(), style: s.style });
        assert(spans@.map_values(|s: Span| s@) =~= before.map_values(|s: Span| s@).push(
            spans@.last()@,
        ));
        assert(l@.take(i + 1) =~= l@.take(i as int).push(l@[i as int]));
        i = i + 1;
    }
    assert(l@.take(i as int) =~= l@);
    StyledLine { spans }
}

/// Flattens the cache entries, one block per message in order.
pub fn flatten(entries: &Vec<CacheEntry>) -> (r: Document)
    ensures
        line_views(r.lines@) == flatten_lines(entry_views(entries@)),
        r.line_to_message@ == flatten_owners(entry_views(entries@)),
{
    let ghost es = entry_views(entries@);
    let mut lines: Vec<StyledLine> = Vec::new();
    let mut owners: Vec<(usize, bool)> = Vec::new();
    let mut i: usize = 0;
    while i < entries.len()
        invariant
            i <= entries.len(),
            es == entry_views(entries@),
            line_views(lines@) == flatten_lines(es.take(i as int)),
            owners@ == flatten_owners(es.take(i as int)),
        decreases entries.len() - i,
    {
        proof {
            let t = es.take(i + 1);
            assert(t.drop_last() =~= es.take(i as int));
            assert(t.last() == entries@[i as int]@);
        }
        let ghost lines0 = line_views(lines@);
        let ghost owners0 = owners@;
        let e = &entries[i];
        let mut j: usize = 0;
        while j < e.lines.len()
            invariant
                j <= e.lines.len(),
                line_views(lines@) == lines0 + line_views(e.lines@).take(j as int),
                owners@ == owners0 + Seq::new(j as nat, |x: int| (i, false)),
            decreases e.lines.len() - j,
        {
            let ghost lb = lines@;
            lines.push(copy_line(&e.lines[j]));
            owners.push((i, false));
            assert(line_views(lines@) =~= line_views(lb).push(lines@.last()@));
            assert(line_views(e.lines@).take(j + 1) =~= line_views(e.lines@).take(j as int).push(
                e.lines@[j as int]@,
            ));
            assert(owners@ =~= owners0 + Seq::new((j + 1) as nat, |x: int| (i, false)));
            j = j + 1;
        }
        assert(line_views(e.lines@).take(j as int) =~= line_views(e.lines@));
        let ghost lines1 = line_views(lines@);
        let ghost owners1 = owners@;
        if e.truncated {
            proof {
                reveal_strlit("...");
            }
            let dots = String::from_str("...");
            assert(dots@ =~= seq!['.', '.', '.']);
            let mut spans: Vec<Span> = Vec::new();
            spans.push(Span { text: dots, style: SpanStyle::Ellipsis });
            let l = StyledLine { spans };
            assert(l@ =~= ellipsis_line());
            let ghost lb = lines@;
            lines.push(l);
            owners.push((i, true));
            assert(line_views(lines@) =~= line_views(lb).push(ellipsis_line()));
        }
        let ghost lb = lines@;
        let sep = StyledLine { spans: Vec::new() };
        assert(sep@ =~= separator_line());
        lines.push(sep);
        owners.push((i, false));
        assert(line_views(lines@) =~= line_views(lb).push(separator_line()));
        proof {
            let e_v = es[i as int];
            assert(line_views(lines@) =~= lines0 + entry_block(e_v));
            assert(owners@ =~= owners0 + entry_owners(i, e_v));
        }
        i = i + 1;
    }
    assert(es.take(i as int) =~= es);
    Document { lines, line_to_message: owners }
}

/// Truncation toggle: collapsing a message whose plain text wraps past the
/// cap marks its entry cut short and leaves the cap's lines plus the
/// ellipsis (and the separator); expanding it again restores its full entry.
pub proof fn lemma_truncation_toggle(m: MessageView, shortcuts: Seq<Seq<char>>, width: nat)
    requires
        width > 0,
        !m.collapsed,
        text_line_count(segments_of(m.content), width) > MAX_VISIBLE_LINES_PER_MESSAGE,
    ensures
        !message_entry(m, shortcuts, width).1,
        message_entry(m, shortcuts, width).0.len() > MAX_VISIBLE_LINES_PER_MESSAGE,
        message_entry(MessageView { collapsed: true, ..m }, shortcuts, width).1,
        message_entry(MessageView { collapsed: true, ..m }, shortcuts, width).0.len()
            == MAX_VISIBLE_LINES_PER_MESSAGE,
        entry_block(message_entry(MessageView { collapsed: true, ..m }, shortcuts, width)).len()
            == MAX_VISIBLE_LINES_PER_MESSAGE + 2,
        entry_block(message_entry(MessageView { collapsed: true, ..m }, shortcuts, width))[
            MAX_VISIBLE_LINES_PER_MESSAGE as int] == ellipsis_line(),
        message_entry(
            MessageView { collapsed: false, ..MessageView { collapsed: true, ..m } },
            shortcuts,
            width,
        ) == message_entry(m, shortcuts, width),
{
    lemma_render_covers_text(segments_of(m.content), m.role, shortcuts, width);
    let t = MessageView { collapsed: true, ..m };
    assert(MessageView { collapsed: false, ..t } == m);
}

/// The text of a display line: its spans' texts one after another.
pub open spec fn line_text(l: LineView) -> Seq<char>
    decreases l.len(),
{
    if l.len() == 0 {
        seq![]
    } else {
        line_text(l.drop_last()) + l.last().0
    }
}

/// The text of a display line.
pub fn plain_text(l: &StyledLine) -> (r: String)
    ensures
        r@ == line_text(l@),
{
    let mut r = String::new();
    let mut i: usize = 0;
    while i < l.spans.len()
        invariant
            i <= l.spans.len(),
            r@ == line_text(l@.take(i as int)),
        decreases l.spans.len() - i,
    {
        proof {
            assert(l@.take(i + 1).drop_last() =~= l@.take(i as int));
        }
        r.append(l.spans[i].text.as_str());
        i = i + 1;
    }
    assert(l@.take(i as int) =~= l@);
    r
}

/// The texts of lines `lo` to `hi` of the document, both included and
/// clamped to its end, joined with newlines.
pub open spec fn range_text(lines: Seq<LineView>, lo: int, hi: int) -> Seq<char>
    decreases hi - lo + 1,
{
    if hi < lo || lo >= lines.len() {
        seq![]
    } else if hi >= lines.len() {
        range_text(lines, lo, lines.len() - 1)
    } else if hi == lo {
        line_text(lines[lo])
    } else {
        range_text(lines, lo, hi - 1).push('\n') + line_text(lines[hi])
    }
}

impl Document {
    /// The text of lines `lo` to `hi`, both included and clamped to the end
    /// of the document, joined with newlines.
    pub fn text_between(&self, lo: usize, hi: usize) -> (r: String)
        ensures
            r@ == range_text(line_views(self.lines@), lo as int, hi as int),
    {
        proof {
            reveal_strlit("\n");
        }
        let ghost lv = line_views(self.lines@);
        let n = self.lines.len();
        if hi < lo || lo >= n {
            return String::new();
        }
        let end = if hi >= n {
            n - 1
        } else {
            hi
        };
        assert(range_text(lv, lo as int, hi as int) == range_text(lv, lo as int, end as int));
        let mut r = plain_text(&self.lines[lo]);
        let mut i: usize = lo;
        while i < end
            invariant
                lo <= i <= end < n,
                n == self.lines@.len(),
                lv == line_views(self.lines@),
                r@ == range_text(lv, lo as int, i as int),
            decreases end - i,
        {
            proof {
                reveal_strlit("\n");
            }
            i = i + 1;
            r.append("\n");
            let t = plain_text(&self.lines[i]);
            r.append(t.as_str());
            assert(lv[i as int] == self.lines@[i as int]@);
        }
        r
    }
}

/// A code line reads as the bar and then its row's text.
pub proof fn lemma_code_line_text(row: Seq<(Seq<char>, Rgb, Rgb)>)
    ensures
        line_text(code_line(row)) == seq!['│', ' '] + row_text(row),
    decreases row.len(),
{
    if row.len() == 0 {
        let l = code_line(row);
        assert(l =~= seq![(seq!['│', ' '], SpanStyle::Border)]);
        assert(l.drop_last() =~= Seq::<(Seq<char>, SpanStyle)>::empty());
        assert(line_text(l.drop_last()) == Seq::<char>::empty());
        assert(line_text(l) =~= seq!['│', ' ']);
        assert(row_text(row) =~= Seq::<char>::empty());
    } else {
        lemma_code_line_text(row.drop_last());
        assert(code_line(row).drop_last() =~= code_line(row.drop_last()));
        assert(code_line(row).last() == (row.last().0, SpanStyle::Rgb { fg: row.last().1, bg: row.last().2 }));
    }
}

} // verus!
