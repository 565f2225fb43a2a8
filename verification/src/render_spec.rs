use vstd::prelude::*;

use crate::events::{MdEventView, MdTagEnd, MdTagView};
use crate::highlight::{code_theme, syntect_highlight, HlPieceView};
use crate::style::{
    line_of, plain_style, span_of, with_bg, with_bold, with_crossed_out, with_fg, with_italic,
    with_underlined, LineView, Rgb, SpanView, TextStyle,
};
use crate::text::{decimal, find, lines_of, repeat, trim};

verus! {

/// `a + b`, held at `usize::MAX`.
pub open spec fn sadd(a: nat, b: nat) -> nat {
    if a + b > usize::MAX {
        usize::MAX as nat
    } else {
        a + b
    }
}

/// `a - b`, held at zero.
pub open spec fn ssub(a: nat, b: nat) -> nat {
    if a >= b {
        (a - b) as nat
    } else {
        0
    }
}

/// The larger of `a` and `b`.
pub open spec fn nmax(a: nat, b: nat) -> nat {
    if a >= b {
        a
    } else {
        b
    }
}

// ---------------------------------------------------------------------------------------
// Colours and styles
// ---------------------------------------------------------------------------------------

/// The colour of ordinary text.
pub open spec fn base_style() -> TextStyle {
    with_fg(plain_style(), Rgb { r: 235, g: 240, b: 245 })
}

/// The colour of a heading of level `level`.
pub open spec fn heading_color(level: u8) -> Rgb {
    if level == 1 {
        Rgb { r: 255, g: 110, b: 150 }
    } else if level == 2 {
        Rgb { r: 110, g: 255, b: 150 }
    } else if level == 3 {
        Rgb { r: 110, g: 200, b: 255 }
    } else if level == 4 {
        Rgb { r: 255, g: 220, b: 110 }
    } else {
        Rgb { r: 200, g: 200, b: 200 }
    }
}

/// The style that the text inside a heading of level `level` gets, from the style `cur`
/// around it: its colour, bold, and underlined for the first level.
pub open spec fn heading_style(cur: TextStyle, level: u8) -> TextStyle {
    let s = with_bold(with_fg(cur, heading_color(level)));
    if level == 1 {
        with_underlined(s)
    } else {
        s
    }
}

/// The colour of box borders (code blocks and tables).
pub open spec fn border_color() -> Rgb {
    Rgb { r: 100, g: 120, b: 150 }
}

/// The background of code blocks and of table cells.
pub open spec fn code_bg() -> Rgb {
    Rgb { r: 20, g: 22, b: 28 }
}

/// The background of the header row of a table.
pub open spec fn header_bg() -> Rgb {
    Rgb { r: 35, g: 40, b: 50 }
}

/// The colour of bold text, and of a table's header text.
pub open spec fn gold() -> Rgb {
    Rgb { r: 255, g: 215, b: 0 }
}

/// The style of inline code.
pub open spec fn code_span_style() -> TextStyle {
    with_bg(with_fg(plain_style(), Rgb { r: 255, g: 150, b: 200 }), Rgb { r: 45, g: 40, b: 50 })
}

/// The style of a list item's bullet or number.
pub open spec fn bullet_style(cur: TextStyle) -> TextStyle {
    with_bold(with_fg(cur, Rgb { r: 255, g: 150, b: 100 }))
}

/// The style that the inside of an element starting with `tag` gets, from the style `cur`
/// around it.
pub open spec fn tag_style(tag: MdTagView, cur: TextStyle) -> TextStyle {
    match tag {
        MdTagView::Heading(l) => heading_style(cur, l),
        MdTagView::Strong => with_fg(with_bold(cur), gold()),
        MdTagView::Emphasis => with_fg(with_italic(cur), Rgb { r: 200, g: 180, b: 255 }),
        MdTagView::Strikethrough => with_fg(with_crossed_out(cur), Rgb { r: 150, g: 150, b: 150 }),
        MdTagView::Link => with_underlined(with_fg(cur, Rgb { r: 80, g: 180, b: 255 })),
        MdTagView::Image => with_italic(with_fg(cur, Rgb { r: 255, g: 150, b: 255 })),
        MdTagView::BlockQuote => with_italic(with_fg(cur, Rgb { r: 180, g: 190, b: 200 })),
        _ => cur,
    }
}

// ---------------------------------------------------------------------------------------
// Text helpers
// ---------------------------------------------------------------------------------------

/// `s` with each tab replaced by four spaces.
pub open spec fn expand_tabs(s: Seq<char>) -> Seq<char>
    decreases s.len(),
{
    if s.len() == 0 {
        seq![]
    } else if s.last() == '\t' {
        expand_tabs(s.drop_last()) + seq![' ', ' ', ' ', ' ']
    } else {
        expand_tabs(s.drop_last()).push(s.last())
    }
}

/// `s` without its trailing line feeds and carriage returns.
pub open spec fn trim_newlines(s: Seq<char>) -> Seq<char>
    decreases s.len(),
{
    if s.len() > 0 && (s.last() == '\n' || s.last() == '\r') {
        trim_newlines(s.drop_last())
    } else {
        s
    }
}

/// The language of a fenced code block: its info string up to the first comma, trimmed.
pub open spec fn clean_language(info: Seq<char>) -> Seq<char> {
    match find(info, seq![',']) {
        Some(i) => trim(info.take(i)),
        None => trim(info),
    }
}

/// The non-breaking space, which the terminal does not trim.
pub open spec fn nbsp() -> char {
    '\u{a0}'
}

// ---------------------------------------------------------------------------------------
// Code blocks
// ---------------------------------------------------------------------------------------

/// The widest of `lines`, tabs counted as four characters.
pub open spec fn max_tab_width(lines: Seq<Seq<char>>) -> nat
    decreases lines.len(),
{
    if lines.len() == 0 {
        0
    } else {
        nmax(max_tab_width(lines.drop_last()), expand_tabs(lines.last()).len())
    }
}

/// The start of a code block's top border, naming the language when there is one.
pub open spec fn code_top_prefix(lang: Option<Seq<char>>) -> Seq<char> {
    let l = match lang {
        Some(s) => s,
        None => seq![],
    };
    if l.len() == 0 {
        seq!['╭', '─', '─', '─']
    } else {
        seq!['╭', '─', '─', ' '] + l + seq![' ']
    }
}

/// The width of the inside of a code block's box.
pub open spec fn code_total_width(lang: Option<Seq<char>>, block: Seq<char>) -> nat {
    let min_content = ssub(code_top_prefix(lang).len(), 2);
    nmax(sadd(max_tab_width(lines_of(block)), 2), sadd(min_content, 2))
}

/// The full width of a code block's box.
pub open spec fn code_box_width(lang: Option<Seq<char>>, block: Seq<char>) -> nat {
    sadd(code_total_width(lang, block), 3)
}

/// The style of code block borders.
pub open spec fn code_border_style() -> TextStyle {
    with_bg(with_fg(plain_style(), border_color()), code_bg())
}

/// The style of a code block's background.
pub open spec fn code_bg_style() -> TextStyle {
    with_bg(plain_style(), code_bg())
}

/// A colour channel of highlighted code, brightened by half and held at 255.
pub open spec fn boost(x: u8) -> u8 {
    if 3 * x / 2 > 255 {
        255
    } else {
        (3 * x / 2) as u8
    }
}

/// The style of a highlighted piece of code.
pub open spec fn piece_style(p: HlPieceView) -> TextStyle {
    TextStyle {
        fg: Some(Rgb { r: boost(p.r), g: boost(p.g), b: boost(p.b) }),
        bg: Some(code_bg()),
        bold: p.font_style & 1 != 0,
        italic: p.font_style & 4 != 0,
        underlined: false,
        crossed_out: false,
    }
}

/// The spans of the highlighted pieces of one line: line ends dropped, tabs expanded,
/// pieces left empty skipped.
pub open spec fn piece_spans(ps: Seq<HlPieceView>) -> Seq<SpanView>
    decreases ps.len(),
{
    if ps.len() == 0 {
        seq![]
    } else {
        let raw = trim_newlines(ps.last().text);
        if raw.len() == 0 {
            piece_spans(ps.drop_last())
        } else {
            piece_spans(ps.drop_last()).push(span_of(expand_tabs(raw), piece_style(ps.last())))
        }
    }
}

/// The number of characters that the pieces of one line take in the box.
pub open spec fn pieces_width(ps: Seq<HlPieceView>) -> nat
    decreases ps.len(),
{
    if ps.len() == 0 {
        0
    } else {
        let raw = trim_newlines(ps.last().text);
        if raw.len() == 0 {
            pieces_width(ps.drop_last())
        } else {
            sadd(pieces_width(ps.drop_last()), expand_tabs(raw).len())
        }
    }
}

/// One line of a code block's box.
pub open spec fn code_row(ps: Seq<HlPieceView>, total: nat) -> LineView {
    LineView {
        spans: seq![span_of(seq!['│', ' '], code_border_style())] + piece_spans(ps) + seq![
            span_of(repeat(nbsp(), ssub(total, pieces_width(ps))), code_bg_style()),
            span_of(seq!['│'], code_border_style()),
        ],
        style: code_bg_style(),
    }
}

/// The top border of a code block's box.
pub open spec fn code_top(lang: Option<Seq<char>>, block: Seq<char>) -> LineView {
    let prefix = code_top_prefix(lang);
    let dashes = ssub(code_box_width(lang, block), sadd(prefix.len(), 1));
    LineView {
        spans: seq![span_of(prefix + repeat('─', dashes) + seq!['╮'], code_border_style())],
        style: code_bg_style(),
    }
}

/// The bottom border of a code block's box.
pub open spec fn code_bottom(lang: Option<Seq<char>>, block: Seq<char>) -> LineView {
    LineView {
        spans: seq![
            span_of(
                seq!['╰'] + repeat('─', ssub(code_box_width(lang, block), 2)) + seq!['╯'],
                code_border_style(),
            ),
        ],
        style: code_bg_style(),
    }
}

/// The lines of a code block's box, given the highlighting of its code `hl`.
pub open spec fn code_block_lines(
    lang: Option<Seq<char>>,
    block: Seq<char>,
    hl: Seq<Seq<HlPieceView>>,
) -> Seq<LineView> {
    let total = code_total_width(lang, block);
    seq![code_top(lang, block)] + hl.map_values(|ps: Seq<HlPieceView>| code_row(ps, total))
        + seq![code_bottom(lang, block)]
}

// ---------------------------------------------------------------------------------------
// Tables
// ---------------------------------------------------------------------------------------

/// The number of characters in the spans of a cell, held at `usize::MAX`.
pub open spec fn cell_width(cell: Seq<SpanView>) -> nat
    decreases cell.len(),
{
    if cell.len() == 0 {
        0
    } else {
        sadd(cell_width(cell.drop_last()), cell.last().content.len())
    }
}

/// The width of column `i`: its widest cell over `rows`.
pub open spec fn column_width(rows: Seq<Seq<Seq<SpanView>>>, i: int) -> nat
    decreases rows.len(),
{
    if rows.len() == 0 {
        0
    } else {
        let last = rows.last();
        nmax(
            column_width(rows.drop_last(), i),
            if i < last.len() {
                cell_width(last[i])
            } else {
                0
            },
        )
    }
}

/// The widths of the first `n` columns.
pub open spec fn column_widths(rows: Seq<Seq<Seq<SpanView>>>, n: nat) -> Seq<nat> {
    Seq::new(n, |i: int| column_width(rows, i))
}

/// The middle of a horizontal rule of a table over its first `k` columns.
pub open spec fn rule_body(widths: Seq<nat>, mid: char, k: int) -> Seq<char>
    decreases k,
{
    if k <= 0 {
        seq![]
    } else {
        rule_body(widths, mid, k - 1) + repeat('─', sadd(widths[k - 1], 2)) + if k - 1 < widths.len()
            - 1 {
            seq![mid]
        } else {
            seq![]
        }
    }
}

/// A horizontal rule of a table.
pub open spec fn table_rule(widths: Seq<nat>, left: char, mid: char, right: char) -> LineView {
    line_of(
        seq![
            span_of(
                seq![left] + rule_body(widths, mid, widths.len() as int) + seq![right],
                with_fg(plain_style(), border_color()),
            ),
        ],
    )
}

/// A span of a cell, restyled for its row.
pub open spec fn cell_span(s: SpanView, bg: Rgb, header: bool) -> SpanView {
    if header {
        span_of(s.content, with_fg(with_bold(with_bg(s.style, bg)), gold()))
    } else {
        span_of(s.content, with_bg(s.style, bg))
    }
}

/// The spans of one cell in a row of the given background, padded to `width`.
pub open spec fn cell_spans(cell: Option<Seq<SpanView>>, width: nat, bg: Rgb, header: bool) -> Seq<
    SpanView,
> {
    let spans = match cell {
        Some(c) => c,
        None => seq![],
    };
    seq![span_of(seq![nbsp()], with_bg(plain_style(), bg))] + spans.map_values(
        |s: SpanView| cell_span(s, bg, header),
    ) + seq![
        span_of(repeat(nbsp(), sadd(ssub(width, cell_width(spans)), 1)), with_bg(plain_style(), bg)),
        span_of(seq!['│'], with_fg(plain_style(), border_color())),
    ]
}

/// The spans of the first `k` cells of a row.
pub open spec fn row_cells(row: Seq<Seq<SpanView>>, widths: Seq<nat>, header: bool, k: int) -> Seq<
    SpanView,
>
    decreases k,
{
    if k <= 0 {
        seq![]
    } else {
        let bg = if header {
            header_bg()
        } else {
            code_bg()
        };
        let cell = if k - 1 < row.len() {
            Some(row[k - 1])
        } else {
            None
        };
        row_cells(row, widths, header, k - 1) + cell_spans(cell, widths[k - 1], bg, header)
    }
}

/// The line of one row of a table.
pub open spec fn table_row_line(row: Seq<Seq<SpanView>>, widths: Seq<nat>, header: bool) -> LineView {
    line_of(
        seq![span_of(seq!['│'], with_fg(plain_style(), border_color()))] + row_cells(
            row,
            widths,
            header,
            widths.len() as int,
        ),
    )
}

/// The lines of the first `k` rows of a table; the first row is its header.
pub open spec fn table_rows_lines(rows: Seq<Seq<Seq<SpanView>>>, widths: Seq<nat>, k: int) -> Seq<
    LineView,
>
    decreases k,
{
    if k <= 0 {
        seq![]
    } else {
        let header = k == 1;
        let lines = table_rows_lines(rows, widths, k - 1).push(
            table_row_line(rows[k - 1], widths, header),
        );
        if header {
            lines.push(table_rule(widths, '├', '┼', '┤'))
        } else {
            lines
        }
    }
}

/// The lines of a table with `columns` columns and the given rows.
pub open spec fn table_lines(rows: Seq<Seq<Seq<SpanView>>>, columns: nat) -> Seq<LineView> {
    let widths = column_widths(rows, columns);
    seq![table_rule(widths, '╭', '┬', '╮')] + table_rows_lines(rows, widths, rows.len() as int)
        + seq![table_rule(widths, '╰', '┴', '╯')]
}

// ---------------------------------------------------------------------------------------
// The renderer
// ---------------------------------------------------------------------------------------

/// What the renderer holds between two events.
pub struct RenderState {
    /// The lines produced so far.
    pub lines: Seq<LineView>,
    pub in_code_block: bool,
    /// The language of the code block being read.
    pub language: Option<Seq<char>>,
    /// The code of the code block being read.
    pub block: Seq<char>,
    /// The spans of the line being built.
    pub line_spans: Seq<SpanView>,
    pub in_table: bool,
    /// The number of columns of the table being read.
    pub columns: nat,
    /// The rows of the table being read.
    pub rows: Seq<Seq<Seq<SpanView>>>,
    /// The cells of the row being read.
    pub row: Seq<Seq<SpanView>>,
    /// The spans of the cell being read.
    pub cell: Seq<SpanView>,
    /// The styles of the elements that are open, innermost last.
    pub styles: Seq<TextStyle>,
    /// The lists that are open: the number of the next item of an ordered one.
    pub lists: Seq<Option<u64>>,
}

/// The state before the first event.
pub open spec fn initial_state() -> RenderState {
    RenderState {
        lines: seq![],
        in_code_block: false,
        language: None,
        block: seq![],
        line_spans: seq![],
        in_table: false,
        columns: 0,
        rows: seq![],
        row: seq![],
        cell: seq![],
        styles: seq![base_style()],
        lists: seq![],
    }
}

/// The style of the innermost open element.
pub open spec fn current_style(st: RenderState) -> TextStyle {
    if st.styles.len() > 0 {
        st.styles.last()
    } else {
        base_style()
    }
}

/// Ends the line being built, if it has spans.
pub open spec fn flush_line(st: RenderState) -> RenderState {
    if st.line_spans.len() > 0 {
        RenderState { lines: st.lines.push(line_of(st.line_spans)), line_spans: seq![], ..st }
    } else {
        st
    }
}

/// Adds an empty line, unless there is no line yet or the last one is already empty.
pub open spec fn push_blank_line(st: RenderState) -> RenderState {
    if st.lines.len() > 0 && st.lines.last().spans.len() > 0 {
        RenderState { lines: st.lines.push(line_of(seq![])), ..st }
    } else {
        st
    }
}

/// Adds `s` to the line being built.
pub open spec fn push_span(st: RenderState, s: SpanView) -> RenderState {
    RenderState { line_spans: st.line_spans.push(s), ..st }
}

/// Adds `s` to the cell being read.
pub open spec fn push_cell_span(st: RenderState, s: SpanView) -> RenderState {
    RenderState { cell: st.cell.push(s), ..st }
}

/// The number that follows `n` on a list, as a 64-bit counter.
pub open spec fn next_number(n: u64) -> u64 {
    if n == u64::MAX {
        0
    } else {
        (n + 1) as u64
    }
}

/// Starts a list item: adds its bullet, or its number and advances the list's counter.
pub open spec fn start_item(st: RenderState, cur: TextStyle) -> RenderState {
    let indent = repeat(' ', 2 * ssub(st.lists.len(), 1));
    if st.lists.len() > 0 && st.lists.last() is Some {
        let n = st.lists.last()->0;
        let s = RenderState {
            lists: st.lists.update(st.lists.len() - 1, Some(next_number(n))),
            ..st
        };
        push_span(s, span_of(indent + decimal(n as nat) + seq![' '], bullet_style(cur)))
    } else {
        push_span(st, span_of(indent + seq!['•', ' '], bullet_style(cur)))
    }
}

/// What the start of an element does, apart from opening its style.
pub open spec fn start_tag(st: RenderState, tag: MdTagView, cur: TextStyle) -> RenderState {
    match tag {
        MdTagView::CodeBlock(info) => RenderState {
            in_code_block: true,
            block: seq![],
            language: match info {
                Some(i) => Some(clean_language(i)),
                None => None,
            },
            ..st
        },
        MdTagView::Table(n) => RenderState { in_table: true, columns: n, rows: seq![], ..st },
        MdTagView::TableHead => RenderState { row: seq![], ..st },
        MdTagView::TableRow => RenderState { row: seq![], ..st },
        MdTagView::TableCell => RenderState { cell: seq![], ..st },
        MdTagView::Heading(l) => push_span(
            st,
            span_of(
                repeat('#', l as nat).push(' '),
                with_bold(with_fg(plain_style(), heading_color(l))),
            ),
        ),
        MdTagView::Image => push_span(st, span_of(seq!['🖼', ' ', ' '], plain_style())),
        MdTagView::List(start) => RenderState { lists: st.lists.push(start), ..st },
        MdTagView::Item => start_item(st, cur),
        MdTagView::BlockQuote => push_span(
            st,
            span_of(seq!['▍', ' '], with_fg(plain_style(), Rgb { r: 100, g: 250, b: 150 })),
        ),
        _ => st,
    }
}

/// Closes the innermost open style.
pub open spec fn pop_style(st: RenderState) -> RenderState {
    if st.styles.len() > 0 {
        RenderState { styles: st.styles.drop_last(), ..st }
    } else {
        st
    }
}

/// Adds an empty line when no list is open.
pub open spec fn blank_outside_lists(st: RenderState) -> RenderState {
    if st.lists.len() == 0 {
        push_blank_line(st)
    } else {
        st
    }
}

/// What the end of an element does, after its style is closed.
pub open spec fn end_tag(st: RenderState, tag: MdTagEnd) -> RenderState {
    match tag {
        MdTagEnd::CodeBlock => {
            let code = code_block_lines(
                st.language,
                st.block,
                syntect_highlight(code_theme(), st.language, st.block),
            );
            push_blank_line(
                RenderState {
                    in_code_block: false,
                    lines: st.lines + code,
                    block: seq![],
                    language: None,
                    ..st
                },
            )
        },
        MdTagEnd::Table => push_blank_line(
            RenderState {
                in_table: false,
                lines: st.lines + table_lines(st.rows, st.columns),
                ..st
            },
        ),
        MdTagEnd::TableHead | MdTagEnd::TableRow => if st.row.len() > 0 {
            RenderState { rows: st.rows.push(st.row), row: seq![], ..st }
        } else {
            st
        },
        MdTagEnd::TableCell => RenderState { row: st.row.push(st.cell), cell: seq![], ..st },
        MdTagEnd::Heading => push_blank_line(flush_line(st)),
        MdTagEnd::Paragraph => blank_outside_lists(flush_line(st)),
        MdTagEnd::Item => flush_line(st),
        MdTagEnd::List => blank_outside_lists(
            if st.lists.len() > 0 {
                RenderState { lists: st.lists.drop_last(), ..st }
            } else {
                st
            },
        ),
        MdTagEnd::BlockQuote => blank_outside_lists(flush_line(st)),
        MdTagEnd::Other => st,
    }
}

/// The state after one event.
pub open spec fn step(st: RenderState, ev: MdEventView) -> RenderState {
    let cur = current_style(st);
    match ev {
        MdEventView::Start(tag) => {
            let s = start_tag(st, tag, cur);
            RenderState { styles: s.styles.push(tag_style(tag, cur)), ..s }
        },
        MdEventView::End(tag) => end_tag(pop_style(st), tag),
        MdEventView::Text(t) => if st.in_table {
            push_cell_span(st, span_of(t, cur))
        } else if st.in_code_block {
            RenderState { block: st.block + t, ..st }
        } else {
            push_span(st, span_of(t, cur))
        },
        MdEventView::Code(t) => if st.in_table {
            push_cell_span(st, span_of(t, code_span_style()))
        } else {
            push_span(st, span_of(t, code_span_style()))
        },
        MdEventView::SoftBreak => if st.in_table {
            push_cell_span(st, span_of(seq![' '], cur))
        } else if !st.in_code_block {
            push_span(st, span_of(seq![' '], cur))
        } else {
            st
        },
        MdEventView::HardBreak => if st.in_table {
            push_cell_span(st, span_of(seq![' '], cur))
        } else if !st.in_code_block {
            flush_line(st)
        } else {
            st
        },
        MdEventView::Rule => {
            let s = flush_line(st);
            push_blank_line(
                RenderState {
                    lines: s.lines.push(
                        line_of(
                            seq![
                                span_of(
                                    repeat('─', 40),
                                    with_fg(plain_style(), Rgb { r: 100, g: 100, b: 100 }),
                                ),
                            ],
                        ),
                    ),
                    ..s
                },
            )
        },
        MdEventView::Other => st,
    }
}

/// The state after the events `evs`, from `st`.
pub open spec fn run(st: RenderState, evs: Seq<MdEventView>) -> RenderState
    decreases evs.len(),
{
    if evs.len() == 0 {
        st
    } else {
        step(run(st, evs.drop_last()), evs.last())
    }
}

/// The lines that a document with the events `evs` is drawn as.
pub open spec fn render_lines(evs: Seq<MdEventView>) -> Seq<LineView> {
    flush_line(run(initial_state(), evs)).lines
}

} // verus!
