use vstd::prelude::*;

use crate::text::lines_with_endings;

use syntect::easy::HighlightLines;
use syntect::highlighting::{Style, ThemeSet};
use syntect::parsing::SyntaxSet;
use syntect::util::LinesWithEndings;

verus! {

/// A highlighted piece of one line of code: its foreground colour, its font style bits
/// (1 bold, 2 underline, 4 italic) and its text.
#[derive(Clone, Debug, PartialEq, Eq)]
pub struct HlPiece {
    pub r: u8,
    pub g: u8,
    pub b: u8,
    pub font_style: u8,
    pub text: String,
}

/// The mathematical value of an [`HlPiece`].
pub struct HlPieceView {
    pub r: u8,
    pub g: u8,
    pub b: u8,
    pub font_style: u8,
    pub text: Seq<char>,
}

impl View for HlPiece {
    type V = HlPieceView;

    open spec fn view(&self) -> HlPieceView {
        HlPieceView { r: self.r, g: self.g, b: self.b, font_style: self.font_style, text: self.text@ }
    }
}

/// The values of highlighted lines.
pub open spec fn highlight_views(h: Seq<Vec<HlPiece>>) -> Seq<Seq<HlPieceView>> {
    h.map_values(|l: Vec<HlPiece>| l@.map_values(|p: HlPiece| p@))
}

/// The text of the pieces of a line, one after the other.
pub open spec fn pieces_text(ps: Seq<HlPieceView>) -> Seq<char>
    decreases ps.len(),
{
    if ps.len() == 0 {
        seq![]
    } else {
        pieces_text(ps.drop_last()) + ps.last().text
    }
}

/// Whether `hl` has one entry per line of `code` (line ends kept), each either empty or made
/// of that line's text.
pub open spec fn covers_lines(code: Seq<char>, hl: Seq<Seq<HlPieceView>>) -> bool {
    let ls = lines_with_endings(code);
    &&& hl.len() == ls.len()
    &&& forall|i: int| 0 <= i < hl.len() ==> (#[trigger] hl[i]).len() == 0 || pieces_text(hl[i]) == ls[i]
}

/// The theme that code blocks are drawn with; `ThemeSet::load_defaults` holds it.
pub open spec fn code_theme() -> Seq<char> {
    seq!['b', 'a', 's', 'e', '1', '6', '-', 'o', 'c', 'e', 'a', 'n', '.', 'd', 'a', 'r', 'k']
}

/// What syntect's `HighlightLines` gives, line by line (`LinesWithEndings`), for `code` in
/// the default syntaxes and the theme `theme`: the syntax found by `find_syntax_by_token`
/// for `lang`, or plain text; an empty line where highlighting fails.
pub uninterp spec fn syntect_highlight(
    theme: Seq<char>,
    lang: Option<Seq<char>>,
    code: Seq<char>,
) -> Seq<Seq<HlPieceView>>;

/// Highlights `code` with syntect's default syntaxes (newline variant) and the default
/// theme named `theme`, one `HighlightLines::highlight_line` call per line of
/// `LinesWithEndings`. Claimed: the result is determined by the three arguments; it has an
/// entry per line, and an entry's pieces together make the line (syntect documents that the
/// pieces concatenate to the line), or the entry is empty where syntect fails.
#[verifier::external_body]
pub(crate) fn highlight_code(theme: &str, lang: Option<&str>, code: &str) -> (r: Vec<Vec<HlPiece>>)
    requires
        theme@ == code_theme(),
    ensures
        highlight_views(r@) == syntect_highlight(theme@, lang.deep_view(), code@),
        covers_lines(code@, highlight_views(r@)),
{
    let ps = SyntaxSet::load_defaults_newlines();
    let ts = ThemeSet::load_defaults();
    let syntax = lang.and_then(|l| ps.find_syntax_by_token(l)).unwrap_or_else(|| ps.find_syntax_plain_text());
    let mut h = HighlightLines::new(syntax, &ts.themes[theme]);
    let piece = |(s, t): (Style, &str)| {
        HlPiece { r: s.foreground.r, g: s.foreground.g, b: s.foreground.b, font_style: s.font_style.bits(), text: t.to_string() }
    };
    LinesWithEndings::from(code)
        .map(|line| h.highlight_line(line, &ps).unwrap_or_default().into_iter().map(piece).collect())
        .collect()
}

} // verus!
