//! Building the display lines of each message at a wrap width.

use vstd::prelude::*;
use crate::chat::{message_views, Message, MessageView, Role};
use crate::fence::{parse_message_segments, segment_views, segments_of, Segment, SegmentView};
use crate::highlight::{colored_rows_view, highlight_of, Highlighter, Rgb};
use crate::text::{join_lines, join_with_newlines, views};

verus! {

/// How many wrapped plain-text lines a collapsed message shows.
pub const MAX_VISIBLE_LINES_PER_MESSAGE: usize = 10;

/// The look of a span of text.
#[derive(Debug, Clone, Copy, PartialEq, Eq)]
pub enum SpanStyle {
    User,
    Assistant,
    Border,
    Ellipsis,
    Rgb { fg: Rgb, bg: Rgb },
}

/// A run of text in one style.
#[derive(Debug, Clone)]
pub struct Span {
    pub text: String,
    pub style: SpanStyle,
}

impl View for Span {
    type V = (Seq<char>, SpanStyle);

    open spec fn view(&self) -> (Seq<char>, SpanStyle) {
        (self.text@, self.style)
    }
}

pub type LineView = Seq<(Seq<char>, SpanStyle)>;

/// One display line.
#[derive(Debug, Clone)]
pub struct StyledLine {
    pub spans: Vec<Span>,
}

impl View for StyledLine {
    type V = LineView;

    open spec fn view(&self) -> LineView {
        self.spans@.map_values(|s: Span| s@)
    }
}

pub open spec fn line_views(v: Seq<StyledLine>) -> Seq<LineView> {
    v.map_values(|l: StyledLine| l@)
}

/// The display lines of one message, and whether they were cut short.
#[derive(Debug, Clone)]
pub struct CacheEntry {
    pub lines: Vec<StyledLine>,
    pub truncated: bool,
}

impl View for CacheEntry {
    type V = (Seq<LineView>, bool);

    open spec fn view(&self) -> (Seq<LineView>, bool) {
        (line_views(self.lines@), self.truncated)
    }
}

pub open spec fn entry_views(v: Seq<CacheEntry>) -> Seq<(Seq<LineView>, bool)> {
    v.map_values(|e: CacheEntry| e@)
}

/// The lines of `text` wrapped by textwrap at `width` columns.
pub uninterp spec fn wrap_of(text: Seq<char>, width: nat) -> Seq<Seq<char>>;

/// ASCII text with no newline that does not end in a space.
pub open spec fn is_short_line_text(text: Seq<char>) -> bool {
    &&& forall|k: int| 0 <= k < text.len() ==> (text[k] as u32) < 128 && text[k] != '\n'
    &&& !(text.len() > 0 && text.last() == ' ')
}

/// Relies on textwrap::wrap with default options: the lines depend on the
/// text and the width alone, and a single line shorter than the width (in
/// bytes, which for ASCII are its characters) comes back as it is, but for
/// trailing spaces, which it does not have here.
#[verifier::external_body]
fn wrap_text(text: &str, width: usize) -> (r: Vec<String>)
    requires
        width > 0,
    ensures
        views(r@) == wrap_of(text@, width as nat),
        is_short_line_text(text@) && text@.len() < width ==> views(r@) == seq![text@],
{
    textwrap::wrap(text, width).into_iter().map(|l| l.into_owned()).collect()
}

pub open spec fn single(text: Seq<char>, style: SpanStyle) -> LineView {
    seq![(text, style)]
}

pub open spec fn role_style(role: Role) -> SpanStyle {
    match role {
        Role::User => SpanStyle::User,
        Role::Assistant => SpanStyle::Assistant,
    }
}

/// Plain-text lines wrapped at `width`, one display line each in the role's style.
pub open spec fn text_segment_lines(role: Role, lines: Seq<Seq<char>>, width: nat) -> Seq<LineView> {
    wrap_of(join_lines(lines), width).map_values(|l: Seq<char>| single(l, role_style(role)))
}

pub open spec fn repeat_char(c: char, n: nat) -> Seq<char>
    decreases n,
{
    if n == 0 {
        seq![]
    } else {
        repeat_char(c, (n - 1) as nat).push(c)
    }
}

/// What a border line of `width` columns has left for dashes once `used`
/// columns and its two corners are placed.
pub open spec fn fill(width: nat, used: nat) -> nat {
    if width >= used + 2 {
        (width - used - 2) as nat
    } else {
        0
    }
}

pub open spec fn lang_label(lang: Option<Seq<char>>) -> Seq<char> {
    match lang {
        Some(l) => l,
        None => seq!['c', 'o', 'd', 'e'],
    }
}

/// The top border: the language tag (or "code") between spaces, then dashes.
pub open spec fn top_border(lang: Option<Seq<char>>, width: nat) -> LineView {
    let label = seq![' '] + lang_label(lang) + seq![' '];
    single(seq!['┌'] + label + repeat_char('─', fill(width, label.len())) + seq!['┐'], SpanStyle::Border)
}

/// The copy hint of the `k`-th code block of a message, empty where the
/// shortcut list has no `k`-th entry.
pub open spec fn copy_hint(k: nat, shortcuts: Seq<Seq<char>>) -> Seq<char> {
    if k < shortcuts.len() {
        seq![' ', 'C', 'o', 'p', 'y', ' ', '['] + shortcuts[k as int] + seq![']', ' ']
    } else {
        seq![]
    }
}

pub open spec fn bottom_border(k: nat, shortcuts: Seq<Seq<char>>, width: nat) -> LineView {
    let hint = copy_hint(k, shortcuts);
    single(seq!['└'] + hint + repeat_char('─', fill(width, hint.len())) + seq!['┘'], SpanStyle::Border)
}

pub open spec fn code_line(row: Seq<(Seq<char>, Rgb, Rgb)>) -> LineView {
    seq![(seq!['│', ' '], SpanStyle::Border)] + row.map_values(
        |p: (Seq<char>, Rgb, Rgb)| (p.0, SpanStyle::Rgb { fg: p.1, bg: p.2 }),
    )
}

/// A code block drawn in a border: top line, one line per body line, bottom line.
pub open spec fn code_segment_lines(
    lang: Option<Seq<char>>,
    body: Seq<Seq<char>>,
    k: nat,
    shortcuts: Seq<Seq<char>>,
    width: nat,
) -> Seq<LineView> {
    seq![top_border(lang, width)] + highlight_of(lang_label(lang), body).map_values(
        |row: Seq<(Seq<char>, Rgb, Rgb)>| code_line(row),
    ) + seq![bottom_border(k, shortcuts, width)]
}

pub open spec fn segment_lines(
    seg: SegmentView,
    role: Role,
    k: nat,
    shortcuts: Seq<Seq<char>>,
    width: nat,
) -> Seq<LineView> {
    match seg {
        SegmentView::Text(ls) => text_segment_lines(role, ls, width),
        SegmentView::Code { lang, body, .. } => code_segment_lines(lang, body, k, shortcuts, width),
    }
}

/// How many code segments are among `segs`.
pub open spec fn code_count(segs: Seq<SegmentView>) -> nat
    decreases segs.len(),
{
    if segs.len() == 0 {
        0
    } else {
        code_count(segs.drop_last()) + if segs.last() is Code {
            1nat
        } else {
            0
        }
    }
}

/// The display lines of the segments, in order; the `k`-th code block gets the
/// `k`-th shortcut.
pub open spec fn render_segments(
    segs: Seq<SegmentView>,
    role: Role,
    shortcuts: Seq<Seq<char>>,
    width: nat,
) -> Seq<LineView>
    decreases segs.len(),
{
    if segs.len() == 0 {
        seq![]
    } else {
        render_segments(segs.drop_last(), role, shortcuts, width) + segment_lines(
            segs.last(),
            role,
            code_count(segs.drop_last()),
            shortcuts,
            width,
        )
    }
}

/// How many wrapped plain-text lines the segments have.
pub open spec fn text_line_count(segs: Seq<SegmentView>, width: nat) -> nat
    decreases segs.len(),
{
    if segs.len() == 0 {
        0
    } else {
        text_line_count(segs.drop_last(), width) + match segs.last() {
            SegmentView::Text(ls) => wrap_of(join_lines(ls), width).len(),
            SegmentView::Code { .. } => 0,
        }
    }
}

/// Whether a message is cut short: it is collapsed and its plain text wraps
/// to more lines than a collapsed message shows.
pub open spec fn is_truncated(m: MessageView, width: nat) -> bool {
    m.collapsed && text_line_count(segments_of(m.content), width) > MAX_VISIBLE_LINES_PER_MESSAGE
}

/// A message's full display lines at `width`.
pub open spec fn full_lines(m: MessageView, shortcuts: Seq<Seq<char>>, width: nat) -> Seq<LineView> {
    render_segments(segments_of(m.content), m.role, shortcuts, width)
}

/// A message's cache entry: its display lines, the first few only where it
/// is cut short.
pub open spec fn message_entry(m: MessageView, shortcuts: Seq<Seq<char>>, width: nat) -> (
    Seq<LineView>,
    bool,
) {
    if is_truncated(m, width) {
        (full_lines(m, shortcuts, width).take(MAX_VISIBLE_LINES_PER_MESSAGE as int), true)
    } else {
        (full_lines(m, shortcuts, width), false)
    }
}

/// The line cache of a conversation: one entry per message, none at width zero.
pub open spec fn document_entries(
    msgs: Seq<MessageView>,
    shortcuts: Seq<Seq<char>>,
    width: nat,
) -> Seq<(Seq<LineView>, bool)> {
    if width == 0 {
        seq![]
    } else {
        msgs.map_values(|m: MessageView| message_entry(m, shortcuts, width))
    }
}

pub open spec fn opt_view(o: Option<String>) -> Option<Seq<char>> {
    match o {
        Some(s) => Some(s@),
        None => None,
    }
}

fn single_line(text: String, style: SpanStyle) -> (r: StyledLine)
    ensures
        r@ == single(text@, style),
{
    let mut spans: Vec<Span> = Vec::new();
    spans.push(Span { text, style });
    let r = StyledLine { spans };
    assert(r@ =~= single(text@, style));
    r
}

fn dashes(n: usize) -> (r: String)
    ensures
        r@ == repeat_char('─', n as nat),
{
    let mut r = String::new();
    let mut i: usize = 0;
    while i < n
        invariant
            i <= n,
            r@ == repeat_char('─', i as nat),
        decreases n - i,
    {
        proof {
            reveal_strlit("─");
        }
        r.append("─");
        i = i + 1;
    }
    r
}

/// Dashes for a border line of `width` columns whose text between the
/// corners holds `n` characters and `extra` more.
fn fill_after(width: usize, n: usize, extra: usize) -> (r: usize)
    requires
        extra <= 9,
    ensures
        r == fill(width as nat, (n + extra) as nat),
{
    if n <= width && width - n >= extra + 2 {
        width - n - extra - 2
    } else {
        0
    }
}

fn top_border_line(lang: &Option<String>, width: usize) -> (r: StyledLine)
    ensures
        r@ == top_border(opt_view(*lang), width as nat),
{
    proof {
        reveal_strlit("code");
        reveal_strlit("┌");
        reveal_strlit("┐");
        reveal_strlit(" ");
    }
    let name: &str = match lang {
        Some(l) => l.as_str(),
        None => "code",
    };
    assert(name@ == lang_label(opt_view(*lang)));
    let mut s = String::from_str("┌");
    s.append(" ");
    s.append(name);
    s.append(" ");
    let d = dashes(fill_after(width, name.unicode_len(), 2));
    s.append(d.as_str());
    s.append("┐");
    let ghost label = seq![' '] + lang_label(opt_view(*lang)) + seq![' '];
    assert(s@ =~= seq!['┌'] + label + repeat_char('─', fill(width as nat, label.len())) + seq!['┐']);
    single_line(s, SpanStyle::Border)
}

fn bottom_border_line(k: usize, shortcuts: &Vec<String>, width: usize) -> (r: StyledLine)
    ensures
        r@ == bottom_border(k as nat, views(shortcuts@), width as nat),
{
    proof {
        reveal_strlit("└");
        reveal_strlit("┘");
        reveal_strlit(" Copy [");
        reveal_strlit("] ");
    }
    let mut s = String::from_str("└");
    let f = if k < shortcuts.len() {
        s.append(" Copy [");
        s.append(shortcuts[k].as_str());
        s.append("] ");
        fill_after(width, shortcuts[k].as_str().unicode_len(), 9)
    } else {
        fill_after(width, 0, 0)
    };
    let d = dashes(f);
    s.append(d.as_str());
    s.append("┘");
    let ghost hint = copy_hint(k as nat, views(shortcuts@));
    assert(s@ =~= seq!['└'] + hint + repeat_char('─', fill(width as nat, hint.len())) + seq!['┘']);
    single_line(s, SpanStyle::Border)
}

fn code_display_line(row: &Vec<(String, Rgb, Rgb)>) -> (r: StyledLine)
    ensures
        r@ == code_line(row@.map_values(|p: (String, Rgb, Rgb)| (p.0@, p.1, p.2))),
{
    proof {
        reveal_strlit("│ ");
    }
    let ghost rv = row@.map_values(|p: (String, Rgb, Rgb)| (p.0@, p.1, p.2));
    let ghost target = code_line(rv);
    let mut spans: Vec<Span> = Vec::new();
    let bar = String::from_str("│ ");
    assert(bar@ =~= seq!['│', ' ']);
    spans.push(Span { text: bar, style: SpanStyle::Border });
    assert(target[0] == (seq!['│', ' '], SpanStyle::Border));
    assert(target.len() >= 1);
    assert(spans@.map_values(|s: Span| s@)[0] == (seq!['│', ' '], SpanStyle::Border));
    assert(spans@.map_values(|s: Span| s@) =~= target.take(1));
    let mut i: usize = 0;
    while i < row.len()
        invariant
            i <= row.len(),
            rv == row@.map_values(|p: (String, Rgb, Rgb)| (p.0@, p.1, p.2)),
            target == code_line(rv),
            spans@.map_values(|s: Span| s@) == target.take(i + 1),
        decreases row.len() - i,
    {
        let ghost old_spans = spans@;
        spans.push(Span { text: row[i].0.clone(), style: SpanStyle::Rgb { fg: row[i].1, bg: row[i].2 } });
        assert(spans@.map_values(|s: Span| s@) =~= old_spans.map_values(|s: Span| s@).push(
            spans@.last()@,
        ));
        assert(target.take(i + 2) =~= target.take(i + 1).push(target[i + 1]));
        i = i + 1;
    }
    let r = StyledLine { spans };
    assert(target.take(i + 1) =~= target);
    r
}

/// Appends wrapped plain-text lines to `out`, one display line each in the
/// role's style.
pub fn push_text_lines(role: Role, wrapped: &Vec<String>, out: &mut Vec<StyledLine>)
    ensures
        line_views(final(out)@) == line_views(old(out)@) + views(wrapped@).map_values(
            |l: Seq<char>| single(l, role_style(role)),
        ),
{
    let ghost start = line_views(out@);
    let ghost target = views(wrapped@).map_values(|l: Seq<char>| single(l, role_style(role)));
    let style = match role {
        Role::User => SpanStyle::User,
        Role::Assistant => SpanStyle::Assistant,
    };
    let mut i: usize = 0;
    while i < wrapped.len()
        invariant
            i <= wrapped.len(),
            style == role_style(role),
            target == views(wrapped@).map_values(|l: Seq<char>| single(l, role_style(role))),
            line_views(out@) == start + target.take(i as int),
        decreases wrapped.len() - i,
    {
        let ghost before = out@;
        out.push(single_line(wrapped[i].clone(), style));
        assert(line_views(out@) =~= line_views(before).push(out@.last()@));
        assert(target.take(i + 1) =~= target.take(i as int).push(target[i as int]));
        i = i + 1;
    }
    assert(target.take(i as int) =~= target);
}

/// Appends a bordered code block to `out`: the top border with the
/// language tag, one line per colored row, and the bottom border with the
/// `k`-th shortcut's copy hint.
pub fn push_code_block_lines(
    language: &Option<String>,
    rows: &Vec<Vec<(String, Rgb, Rgb)>>,
    k: usize,
    shortcuts: &Vec<String>,
    width: usize,
    out: &mut Vec<StyledLine>,
)
    ensures
        line_views(final(out)@) == line_views(old(out)@) + seq![top_border(opt_view(*language), width as nat)]
            + colored_rows_view(rows@).map_values(|row: Seq<(Seq<char>, Rgb, Rgb)>| code_line(row))
            + seq![bottom_border(k as nat, views(shortcuts@), width as nat)],
{
    let ghost start = line_views(out@);
    let ghost hrows = colored_rows_view(rows@);
    let ghost mid = hrows.map_values(|row: Seq<(Seq<char>, Rgb, Rgb)>| code_line(row));
    let ghost before = out@;
    out.push(top_border_line(language, width));
    assert(line_views(out@) =~= line_views(before).push(out@.last()@));
    let mut i: usize = 0;
    while i < rows.len()
        invariant
            i <= rows.len(),
            colored_rows_view(rows@) == hrows,
            mid == hrows.map_values(|row: Seq<(Seq<char>, Rgb, Rgb)>| code_line(row)),
            line_views(out@) == start + seq![top_border(opt_view(*language), width as nat)] + mid.take(
                i as int,
            ),
        decreases rows.len() - i,
    {
        let ghost before = out@;
        out.push(code_display_line(&rows[i]));
        assert(line_views(out@) =~= line_views(before).push(out@.last()@));
        assert(colored_rows_view(rows@)[i as int] == rows@[i as int]@.map_values(
            |p: (String, Rgb, Rgb)| (p.0@, p.1, p.2),
        ));
        assert(mid.take(i + 1) =~= mid.take(i as int).push(mid[i as int]));
        i = i + 1;
    }
    let ghost before = out@;
    out.push(bottom_border_line(k, shortcuts, width));
    assert(line_views(out@) =~= line_views(before).push(out@.last()@));
    assert(mid.take(i as int) =~= mid);
    assert(line_views(out@) =~= start + seq![top_border(opt_view(*language), width as nat)] + mid
        + seq![bottom_border(k as nat, views(shortcuts@), width as nat)]);
}

/// Appends the display lines of one segment to `out`, the `k`-th code block
/// of its message getting the `k`-th shortcut; returns how many wrapped
/// plain-text lines it added.
fn push_segment_lines(
    hl: &Highlighter,
    seg: &Segment,
    role: Role,
    k: usize,
    shortcuts: &Vec<String>,
    width: usize,
    out: &mut Vec<StyledLine>,
) -> (r: usize)
    requires
        width > 0,
    ensures
        line_views(final(out)@) == line_views(old(out)@) + segment_lines(
            seg@,
            role,
            k as nat,
            views(shortcuts@),
            width as nat,
        ),
        r == match seg@ {
            SegmentView::Text(ls) => wrap_of(join_lines(ls), width as nat).len(),
            SegmentView::Code { .. } => 0,
        },
{
    match seg {
        Segment::Text(ls) => {
            let joined = join_with_newlines(ls);
            let wrapped = wrap_text(joined.as_str(), width);
            push_text_lines(role, &wrapped, out);
            wrapped.len()
        },
        Segment::Code { language, lines, .. } => {
            proof {
                reveal_strlit("code");
            }
            let token: &str = match language {
                Some(l) => l.as_str(),
                None => "code",
            };
            assert(token@ == lang_label(opt_view(*language)));
            let rows = hl.highlight(token, lines);
            push_code_block_lines(language, &rows, k, shortcuts, width, out);
            0
        },
    }
}

/// A message renders to at least as many lines as its plain text wraps to.
pub proof fn lemma_render_covers_text(
    segs: Seq<SegmentView>,
    role: Role,
    shortcuts: Seq<Seq<char>>,
    width: nat,
)
    ensures
        render_segments(segs, role, shortcuts, width).len() >= text_line_count(segs, width),
    decreases segs.len(),
{
    if segs.len() > 0 {
        lemma_render_covers_text(segs.drop_last(), role, shortcuts, width);
    }
}

/// Builds the cache entry of one message at `width` columns.
pub fn build_entry(hl: &Highlighter, m: &Message, shortcuts: &Vec<String>, width: usize) -> (r:
    CacheEntry)
    requires
        width > 0,
    ensures
        r@ == message_entry(m@, views(shortcuts@), width as nat),
{
    let segs = parse_message_segments(m.content.as_str());
    let ghost sv = segment_views(segs@);
    let ghost sc = views(shortcuts@);
    let mut lines: Vec<StyledLine> = Vec::new();
    let mut k: usize = 0;
    let mut count: usize = 0;
    let mut i: usize = 0;
    while i < segs.len()
        invariant
            i <= segs.len(),
            sv == segment_views(segs@),
            sv == segments_of(m.content@),
            sc == views(shortcuts@),
            width > 0,
            k <= i,
            k == code_count(sv.take(i as int)),
            line_views(lines@) == render_segments(sv.take(i as int), m.role, sc, width as nat),
            count <= MAX_VISIBLE_LINES_PER_MESSAGE + 1,
            count == if text_line_count(sv.take(i as int), width as nat)
                > MAX_VISIBLE_LINES_PER_MESSAGE {
                (MAX_VISIBLE_LINES_PER_MESSAGE + 1) as nat
            } else {
                text_line_count(sv.take(i as int), width as nat)
            },
        decreases segs.len() - i,
    {
        proof {
            let t = sv.take(i + 1);
            assert(t.drop_last() =~= sv.take(i as int));
            assert(t.last() == segs@[i as int]@);
        }
        let added = push_segment_lines(hl, &segs[i], m.role, k, shortcuts, width, &mut lines);
        if added > MAX_VISIBLE_LINES_PER_MESSAGE + 1 - count {
            count = MAX_VISIBLE_LINES_PER_MESSAGE + 1;
        } else {
            count = count + added;
            if count > MAX_VISIBLE_LINES_PER_MESSAGE + 1 {
                count = MAX_VISIBLE_LINES_PER_MESSAGE + 1;
            }
        }
        match &segs[i] {
            Segment::Code { .. } => {
                k = k + 1;
            },
            Segment::Text(_) => {},
        }
        i = i + 1;
    }
    assert(sv.take(i as int) =~= sv);
    let truncated = m.collapsed && count > MAX_VISIBLE_LINES_PER_MESSAGE;
    if truncated {
        proof {
            lemma_render_covers_text(sv, m.role, sc, width as nat);
        }
        lines.truncate(MAX_VISIBLE_LINES_PER_MESSAGE);
        assert(line_views(lines@) =~= full_lines(m@, sc, width as nat).take(
            MAX_VISIBLE_LINES_PER_MESSAGE as int,
        ));
    }
    CacheEntry { lines, truncated }
}

/// Builds the line cache of a conversation at `width` columns: one entry per
/// message, and none at width zero.
pub fn build_document(hl: &Highlighter, msgs: &Vec<Message>, shortcuts: &Vec<String>, width: usize) -> (r:
    Vec<CacheEntry>)
    ensures
        entry_views(r@) == document_entries(message_views(msgs@), views(shortcuts@), width as nat),
{
    let mut r: Vec<CacheEntry> = Vec::new();
    if width == 0 {
        assert(entry_views(r@) =~= seq![]);
        return r;
    }
    let ghost target = document_entries(message_views(msgs@), views(shortcuts@), width as nat);
    let mut i: usize = 0;
    while i < msgs.len()
        invariant
            width > 0,
            i <= msgs.len(),
            target == document_entries(message_views(msgs@), views(shortcuts@), width as nat),
            entry_views(r@) == target.take(i as int),
        decreases msgs.len() - i,
    {
        let ghost before = r@;
        r.push(build_entry(hl, &msgs[i], shortcuts, width));
        assert(entry_views(r@) =~= entry_views(before).push(r@.last()@));
        assert(target.take(i + 1) =~= target.take(i as int).push(target[i as int]));
        i = i + 1;
    }
    assert(target.take(i as int) =~= target);
    r
}

} // verus!
