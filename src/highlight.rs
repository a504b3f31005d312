//! Syntax coloring of code lines, through syntect's bundled syntaxes and themes.

use vstd::prelude::*;
use crate::text::views;

verus! {

/// syntect's set of syntax definitions, carried as an opaque value.
#[verifier::external_type_specification]
#[verifier::external_body]
pub struct ExSyntaxSet(syntect::parsing::SyntaxSet);

/// syntect's color theme, carried as an opaque value.
#[verifier::external_type_specification]
#[verifier::external_body]
pub struct ExTheme(syntect::highlighting::Theme);

/// A color as red, green and blue.
pub type Rgb = (u8, u8, u8);

/// The colored pieces of each line that syntect's bundled syntax set and
/// theme give for the lines of a code block, under the syntax found by the
/// token (plain text where none is found).
pub uninterp spec fn highlight_of(token: Seq<char>, lines: Seq<Seq<char>>) -> Seq<
    Seq<(Seq<char>, Rgb, Rgb)>,
>;

pub open spec fn colored_rows_view(rows: Seq<Vec<(String, Rgb, Rgb)>>) -> Seq<
    Seq<(Seq<char>, Rgb, Rgb)>,
> {
    rows.map_values(
        |row: Vec<(String, Rgb, Rgb)>|
            row@.map_values(|p: (String, Rgb, Rgb)| (p.0@, p.1, p.2)),
    )
}

/// The text of a colored row: its pieces one after another.
pub open spec fn row_text(row: Seq<(Seq<char>, Rgb, Rgb)>) -> Seq<char>
    decreases row.len(),
{
    if row.len() == 0 {
        seq![]
    } else {
        row_text(row.drop_last()) + row.last().0
    }
}

/// Relies on syntect's SyntaxSet::load_defaults_nonewlines: the bundled syntaxes.
#[verifier::external_body]
fn load_syntaxes() -> syntect::parsing::SyntaxSet {
    syntect::parsing::SyntaxSet::load_defaults_nonewlines()
}

/// Relies on syntect's ThemeSet::load_defaults: the bundled theme of that name, if any.
#[verifier::external_body]
fn load_theme(name: &str) -> Option<syntect::highlighting::Theme> {
    syntect::highlighting::ThemeSet::load_defaults().themes.get(name).cloned()
}

/// Relies on syntect's Theme::default: a theme with no rules.
#[verifier::external_body]
fn empty_theme() -> syntect::highlighting::Theme {
    syntect::highlighting::Theme::default()
}

/// The bundled syntaxes and the color theme, loaded once and then only read.
pub struct Highlighter {
    syntaxes: syntect::parsing::SyntaxSet,
    theme: syntect::highlighting::Theme,
}

impl Highlighter {
    /// Loads the bundled syntaxes and the "base16-ocean.dark" theme.
    pub fn new() -> Highlighter {
        let theme = match load_theme("base16-ocean.dark") {
            Some(t) => t,
            None => empty_theme(),
        };
        Highlighter { syntaxes: load_syntaxes(), theme }
    }

    /// Colors the lines of a code block under the syntax that `token` names.
    ///
    /// Relies on syntect's HighlightLines: each line is colored in turn, the
    /// parse state carried from one line to the next, and the pieces of a
    /// line concatenate to the line (HighlightIterator's documented
    /// behaviour); a line that fails to parse is one piece in the default
    /// style. Every highlighter holds the same bundled syntaxes and theme, so
    /// the colors depend on the token and the lines alone.
    #[verifier::external_body]
    pub(crate) fn highlight(&self, token: &str, lines: &Vec<String>) -> (r: Vec<Vec<(String, Rgb, Rgb)>>)
        ensures
            r@.len() == lines@.len(),
            colored_rows_view(r@) == highlight_of(token@, views(lines@)),
            forall|i: int| 0 <= i < r@.len() ==> row_text(#[trigger] colored_rows_view(r@)[i]) == lines@[i]@,
    {
        let ss = &self.syntaxes;
        let syntax = ss.find_syntax_by_token(token).unwrap_or_else(|| ss.find_syntax_plain_text());
        let mut h = syntect::easy::HighlightLines::new(syntax, &self.theme);
        lines.iter().map(|l| {
            let plain = vec![(syntect::highlighting::Style::default(), l.as_str())];
            h.highlight_line(l, ss).unwrap_or(plain).into_iter().map(|(s, t)| {
                let (f, b) = (s.foreground, s.background);
                (t.to_string(), (f.r, f.g, f.b), (b.r, b.g, b.b))
            }).collect()
        }).collect()
    }
}

} // verus!
