use vstd::prelude::*;

use crate::highlight::{covers_lines, highlight_views, HlPiece, HlPieceView};
use crate::render_laws::lemma_code_box_even;
use crate::render_spec::{
    boost, code_bg_style, code_block_lines, code_border_style, code_bottom, code_box_width,
    code_row, code_top, code_top_prefix, code_total_width, expand_tabs, max_tab_width, piece_spans,
    piece_style, pieces_width, sadd, ssub, trim_newlines,
};
use crate::style::{line_width, line_views, span_of, span_views, Line, LineView, Rgb, Span, TextStyle};
use crate::text::{
    append_chars, chars_of, repeat, repeat_char, split_lines, string_from_chars, views,
};

verus! {

/// A span with the given characters and style.
pub fn make_span(content: &[char], style: TextStyle) -> (s: Span)
    ensures
        s@ == span_of(content@, style),
{
    Span { content: string_from_chars(content), style }
}

/// `s` with each tab replaced by four spaces.
pub fn expand_tabs_chars(s: &[char]) -> (r: Vec<char>)
    ensures
        r@ == expand_tabs(s@),
{
    let n = s.len();
    let mut r: Vec<char> = Vec::new();
    let mut k: usize = 0;
    while k < n
        invariant
            k <= n == s@.len(),
            r@ == expand_tabs(s@.take(k as int)),
        decreases n - k,
    {
        proof {
            assert(s@.take(k + 1).drop_last() == s@.take(k as int));
        }
        if s[k] == '\t' {
            r.push(' ');
            r.push(' ');
            r.push(' ');
            r.push(' ');
        } else {
            r.push(s[k]);
        }
        k = k + 1;
    }
    proof {
        assert(s@.take(n as int) == s@);
    }
    r
}

proof fn lemma_trim_newlines_take(s: Seq<char>, e: int)
    requires
        0 <= e <= s.len(),
        forall|j: int| e <= j < s.len() ==> (#[trigger] s[j] == '\n' || s[j] == '\r'),
    ensures
        trim_newlines(s) == trim_newlines(s.take(e)),
    decreases s.len() - e,
{
    if e < s.len() {
        assert(s.take(s.len() - 1) == s.drop_last());
        lemma_trim_newlines_take(s.drop_last(), e);
        assert(s.drop_last().take(e) == s.take(e));
    } else {
        assert(s.take(e) == s);
    }
}

/// `s` without its trailing line feeds and carriage returns.
pub fn trim_newlines_chars(s: &[char]) -> (r: Vec<char>)
    ensures
        r@ == trim_newlines(s@),
{
    let mut e = s.len();
    while e > 0 && (s[e - 1] == '\n' || s[e - 1] == '\r')
        invariant
            e <= s@.len(),
            forall|j: int| e <= j < s@.len() ==> (#[trigger] s@[j] == '\n' || s@[j] == '\r'),
        decreases e,
    {
        e = e - 1;
    }
    let mut r: Vec<char> = Vec::new();
    let mut k: usize = 0;
    while k < e
        invariant
            k <= e <= s@.len(),
            r@ == s@.take(k as int),
        decreases e - k,
    {
        r.push(s[k]);
        k = k + 1;
    }
    proof {
        lemma_trim_newlines_take(s@, e as int);
        if e > 0 {
            assert(r@.last() == s@[e - 1]);
        }
    }
    r
}

/// A colour channel of highlighted code brightened by half, held at 255.
pub fn boost_channel(x: u8) -> (r: u8)
    ensures
        r == boost(x),
{
    let y: u16 = 3 * (x as u16) / 2;
    if y > 255 {
        255
    } else {
        y as u8
    }
}

/// The style of a highlighted piece of code.
pub fn piece_text_style(p: &HlPiece) -> (s: TextStyle)
    ensures
        s == piece_style(p@),
{
    TextStyle {
        fg: Some(Rgb { r: boost_channel(p.r), g: boost_channel(p.g), b: boost_channel(p.b) }),
        bg: Some(Rgb { r: 20, g: 22, b: 28 }),
        bold: p.font_style & 1 != 0,
        italic: p.font_style & 4 != 0,
        underlined: false,
        crossed_out: false,
    }
}

/// One line of a code block's box from its highlighted pieces; `total` is the inside width.
pub fn render_code_row(ps: &[HlPiece], total: usize) -> (l: Line)
    ensures
        l@ == code_row(ps@.map_values(|p: HlPiece| p@), total as nat),
{
    let ghost pv = ps@.map_values(|p: HlPiece| p@);
    let border = TextStyle::plain().fg(Rgb { r: 100, g: 120, b: 150 }).bg(Rgb { r: 20, g: 22, b: 28 });
    let bg_only = TextStyle::plain().bg(Rgb { r: 20, g: 22, b: 28 });
    let mut middle: Vec<Span> = Vec::new();
    let mut count: usize = 0;
    let n = ps.len();
    let mut k: usize = 0;
    while k < n
        invariant
            k <= n == ps@.len(),
            pv == ps@.map_values(|p: HlPiece| p@),
            span_views(middle@) == piece_spans(pv.take(k as int)),
            count == pieces_width(pv.take(k as int)),
        decreases n - k,
    {
        proof {
            assert(pv.take(k + 1).drop_last() == pv.take(k as int));
            assert(pv.take(k + 1).last() == ps@[k as int]@);
        }
        let text: Vec<char> = chars_of(ps[k].text.as_str());
        let raw = trim_newlines_chars(&text);
        if raw.len() > 0 {
            let clean = expand_tabs_chars(&raw);
            count = count.saturating_add(clean.len());
            let sp = make_span(&clean, piece_text_style(&ps[k]));
            proof {
                assert(span_views(middle@.push(sp)) == span_views(middle@).push(sp@));
            }
            middle.push(sp);
        }
        k = k + 1;
    }
    proof {
        assert(pv.take(n as int) == pv);
    }
    let mut spans: Vec<Span> = Vec::new();
    let mut first: Vec<char> = Vec::new();
    first.push('│');
    first.push(' ');
    proof {
        assert(first@ =~= seq!['│', ' ']);
    }
    spans.push(make_span(&first, border));
    let ghost before = spans@;
    let mut i: usize = 0;
    while i < middle.len()
        invariant
            i <= middle@.len(),
            spans@.len() == 1 + i,
            spans@[0] == before[0],
            forall|j: int| 0 <= j < i ==> spans@[1 + j] == middle@[j],
        decreases middle@.len() - i,
    {
        let sp = Span { content: middle[i].content.clone(), style: middle[i].style };
        spans.push(sp);
        i = i + 1;
    }
    let pad = repeat_char('\u{a0}', total.saturating_sub(count));
    spans.push(make_span(&pad, bg_only));
    let mut last: Vec<char> = Vec::new();
    last.push('│');
    proof {
        assert(last@ =~= seq!['│']);
    }
    spans.push(make_span(&last, border));
    let l = Line { spans, style: bg_only };
    proof {
        let want = code_row(pv, total as nat);
        let m = middle@.len();
        assert(want.spans.len() == m + 3);
        assert forall|j: int| 0 <= j < want.spans.len() implies span_views(l.spans@)[j]
            == want.spans[j] by {
            if j == 0 {
                assert(l.spans@[0] == before[0]);
            } else if 1 <= j <= m {
                assert(l.spans@[j] == middle@[j - 1]);
                assert(want.spans[j] == span_views(middle@)[j - 1]);
            } else if j == m + 1 {
            } else {
            }
        }
        assert(span_views(l.spans@) =~= want.spans);
    }
    l
}


/// The widest of `lines`, tabs counted as four characters.
fn max_line_width(lines: &Vec<Vec<char>>) -> (w: usize)
    ensures
        w == max_tab_width(views(lines@)),
{
    let n = lines.len();
    let mut w: usize = 0;
    let mut k: usize = 0;
    while k < n
        invariant
            k <= n == lines@.len(),
            w == max_tab_width(views(lines@).take(k as int)),
        decreases n - k,
    {
        proof {
            assert(views(lines@).take(k + 1).drop_last() == views(lines@).take(k as int));
        }
        let e = expand_tabs_chars(&lines[k]);
        if e.len() > w {
            w = e.len();
        }
        k = k + 1;
    }
    proof {
        assert(views(lines@).take(n as int) == views(lines@));
    }
    w
}

/// The start of a code block's top border.
fn top_prefix(lang: &Option<Vec<char>>) -> (r: Vec<char>)
    ensures
        r@ == code_top_prefix(opt_chars(lang)),
{
    let mut r: Vec<char> = Vec::new();
    r.push('╭');
    r.push('─');
    r.push('─');
    match lang {
        Some(l) if l.len() > 0 => {
            r.push(' ');
            append_chars(&mut r, l);
            r.push(' ');
            proof {
                assert(r@ =~= seq!['╭', '─', '─', ' '] + l@ + seq![' ']);
            }
        },
        _ => {
            r.push('─');
            proof {
                assert(r@ =~= seq!['╭', '─', '─', '─']);
            }
        },
    }
    r
}

/// The value of an optional character vector.
pub open spec fn opt_chars(o: &Option<Vec<char>>) -> Option<Seq<char>> {
    match o {
        Some(v) => Some(v@),
        None => None,
    }
}

/// A line of one span in the code block's border style.
fn border_line(content: &[char]) -> (l: Line)
    ensures
        l@ == (LineView { spans: seq![span_of(content@, code_border_style())], style: code_bg_style() }),
{
    let border = TextStyle::plain().fg(Rgb { r: 100, g: 120, b: 150 }).bg(Rgb { r: 20, g: 22, b: 28 });
    let mut spans: Vec<Span> = Vec::new();
    spans.push(make_span(content, border));
    let l = Line { spans, style: TextStyle::plain().bg(Rgb { r: 20, g: 22, b: 28 }) };
    proof {
        assert(span_views(l.spans@) =~= seq![span_of(content@, code_border_style())]);
    }
    l
}

/// The lines of a code block's box: a top border naming `lang`, one line per line of
/// highlighted code `hl`, padded to the widest line of `block`, and a bottom border.
pub fn render_code_block(lang: &Option<Vec<char>>, block: &[char], hl: &[Vec<HlPiece>]) -> (r: Vec<Line>)
    ensures
        line_views(r@) == code_block_lines(opt_chars(lang), block@, highlight_views(hl@)),
        covers_lines(block@, highlight_views(hl@)) && code_box_width(opt_chars(lang), block@)
            < usize::MAX ==> forall|i: int|
            0 <= i < r@.len() ==> line_width(#[trigger] line_views(r@)[i]) == code_box_width(
                opt_chars(lang),
                block@,
            ),
{
    proof {
        if covers_lines(block@, highlight_views(hl@)) && code_box_width(opt_chars(lang), block@)
            < usize::MAX {
            lemma_code_box_even(opt_chars(lang), block@, highlight_views(hl@));
        }
    }
    let ghost lv = opt_chars(lang);
    let lines = split_lines(block);
    let maxw = max_line_width(&lines);
    let prefix = top_prefix(lang);
    let min_content = prefix.len().saturating_sub(2);
    let a = maxw.saturating_add(2);
    let b = min_content.saturating_add(2);
    let total = if a >= b { a } else { b };
    let full = total.saturating_add(3);
    assert(total == code_total_width(lv, block@));
    assert(full == code_box_width(lv, block@));
    let mut top = prefix;
    let dashes = repeat_char('─', full.saturating_sub(prefix_len_plus_one(&top)));
    append_chars(&mut top, &dashes);
    top.push('╮');
    let mut out: Vec<Line> = Vec::new();
    let tl = border_line(&top);
    proof {
        assert(top@ =~= code_top_prefix(lv) + repeat('─', ssub(full as nat, sadd(code_top_prefix(lv).len(), 1))) + seq!['╮']);
        assert(tl@ == code_top(lv, block@));
    }
    out.push(tl);
    let ghost hv = highlight_views(hl@);
    let n = hl.len();
    let mut k: usize = 0;
    while k < n
        invariant
            k <= n == hl@.len(),
            hv == highlight_views(hl@),
            total == code_total_width(lv, block@),
            line_views(out@) == seq![code_top(lv, block@)] + hv.take(k as int).map_values(
                |ps: Seq<HlPieceView>| code_row(ps, total as nat),
            ),
        decreases n - k,
    {
        let row = render_code_row(&hl[k], total);
        proof {
            assert(hv[k as int] == hl@[k as int]@.map_values(|p: HlPiece| p@));
            assert(line_views(out@.push(row)) =~= line_views(out@).push(row@));
            assert(hv.take(k + 1).map_values(|ps: Seq<HlPieceView>| code_row(ps, total as nat))
                =~= hv.take(k as int).map_values(|ps: Seq<HlPieceView>| code_row(ps, total as nat)).push(row@));
        }
        out.push(row);
        k = k + 1;
    }
    let mut bottom: Vec<char> = Vec::new();
    bottom.push('╰');
    let d2 = repeat_char('─', full.saturating_sub(2));
    append_chars(&mut bottom, &d2);
    bottom.push('╯');
    let bl = border_line(&bottom);
    proof {
        assert(bottom@ =~= seq!['╰'] + repeat('─', ssub(full as nat, 2)) + seq!['╯']);
        assert(bl@ == code_bottom(lv, block@));
        assert(line_views(out@.push(bl)) =~= line_views(out@).push(bl@));
        assert(hv.take(n as int) == hv);
    }
    out.push(bl);
    proof {
        assert(line_views(out@) =~= code_block_lines(lv, block@, hv));
    }
    out
}

/// The length of `v` plus one, held at `usize::MAX`.
fn prefix_len_plus_one(v: &Vec<char>) -> (r: usize)
    ensures
        r == sadd(v@.len(), 1),
{
    v.len().saturating_add(1)
}

} // verus!
