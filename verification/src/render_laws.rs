use vstd::prelude::*;

use crate::events::{MdEventView, MdTagEnd, MdTagView};
use crate::highlight::{code_theme, covers_lines, pieces_text, syntect_highlight, HlPieceView};
use crate::render_spec::{next_number, 
    border_color, cell_span, cell_spans, cell_width, code_bg, code_bg_style, code_block_lines,
    code_border_style, code_bottom, max_tab_width, code_box_width, code_row, code_top, code_top_prefix,
    code_total_width, column_width, column_widths, current_style, expand_tabs, flush_line,
    header_bg, initial_state, nbsp, piece_spans, piece_style, pieces_width, pop_style,
    push_blank_line, render_lines, row_cells, rule_body, run, sadd, ssub, start_tag, step,
    table_lines, table_row_line, table_rows_lines, table_rule, trim_newlines, RenderState,
};
use crate::style::{
    line_of, line_width, plain_style, span_of, spans_width, with_bg, with_fg, LineView, Rgb,
    SpanView,
};
use crate::text::{decimal, lines_of, lines_state, lines_with_endings, pieces_state, repeat, strip_cr};

verus! {

/// Whether a line has nothing on it.
pub open spec fn is_blank(l: LineView) -> bool {
    l.spans.len() == 0
}

/// Whether every empty line follows a line that is not empty: no document begins with an
/// empty line or has two in a row.
pub open spec fn blanks_separated(ls: Seq<LineView>) -> bool {
    forall|i: int| 0 <= i < ls.len() && is_blank(#[trigger] ls[i]) ==> i > 0 && !is_blank(ls[i - 1])
}

/// Whether no line of `ls` is empty.
pub open spec fn none_blank(ls: Seq<LineView>) -> bool {
    forall|i: int| 0 <= i < ls.len() ==> !is_blank(#[trigger] ls[i])
}

proof fn lemma_append_none_blank(a: Seq<LineView>, b: Seq<LineView>)
    requires
        blanks_separated(a),
        none_blank(b),
    ensures
        blanks_separated(a + b),
{
    assert forall|i: int| 0 <= i < (a + b).len() && is_blank(#[trigger] (a + b)[i]) implies i > 0
        && !is_blank((a + b)[i - 1]) by {
        if i >= a.len() {
            assert((a + b)[i] == b[i - a.len()]);
        } else {
            assert((a + b)[i] == a[i]);
            assert((a + b)[i - 1] == a[i - 1]);
        }
    }
}

proof fn lemma_code_block_none_blank(
    lang: Option<Seq<char>>,
    block: Seq<char>,
    hl: Seq<Seq<HlPieceView>>,
)
    ensures
        none_blank(code_block_lines(lang, block, hl)),
{
    let ls = code_block_lines(lang, block, hl);
    assert forall|i: int| 0 <= i < ls.len() implies !is_blank(#[trigger] ls[i]) by {
        if i == 0 {
        } else if i == ls.len() - 1 {
        } else {
            let total = code_total_width(lang, block);
            assert(ls[i] == code_row(hl[i - 1], total));
        }
    }
}

proof fn lemma_table_rows_none_blank(rows: Seq<Seq<Seq<SpanView>>>, widths: Seq<nat>, k: int)
    ensures
        none_blank(table_rows_lines(rows, widths, k)),
    decreases k,
{
    if k > 0 {
        lemma_table_rows_none_blank(rows, widths, k - 1);
        let prev = table_rows_lines(rows, widths, k - 1);
        let l1 = prev.push(table_row_line(rows[k - 1], widths, k == 1));
        assert(none_blank(l1)) by {
            assert forall|i: int| 0 <= i < l1.len() implies !is_blank(#[trigger] l1[i]) by {
                if i < prev.len() {
                    assert(l1[i] == prev[i]);
                }
            }
        }
        if k == 1 {
            let l2 = l1.push(table_rule(widths, '├', '┼', '┤'));
            assert forall|i: int| 0 <= i < l2.len() implies !is_blank(#[trigger] l2[i]) by {
                if i < l1.len() {
                    assert(l2[i] == l1[i]);
                }
            }
        }
    }
}

proof fn lemma_table_none_blank(rows: Seq<Seq<Seq<SpanView>>>, columns: nat)
    ensures
        none_blank(table_lines(rows, columns)),
{
    let widths = column_widths(rows, columns);
    let mid = table_rows_lines(rows, widths, rows.len() as int);
    lemma_table_rows_none_blank(rows, widths, rows.len() as int);
    let ls = table_lines(rows, columns);
    assert forall|i: int| 0 <= i < ls.len() implies !is_blank(#[trigger] ls[i]) by {
        if 0 < i < ls.len() - 1 {
            assert(ls[i] == mid[i - 1]);
        }
    }
}

proof fn lemma_push_nonblank(a: Seq<LineView>, l: LineView)
    requires
        blanks_separated(a),
        !is_blank(l),
    ensures
        blanks_separated(a.push(l)),
{
    assert forall|i: int| 0 <= i < a.push(l).len() && is_blank(#[trigger] a.push(l)[i]) implies i > 0
        && !is_blank(a.push(l)[i - 1]) by {
        assert(a.push(l)[i] == a[i]);
        assert(a.push(l)[i - 1] == a[i - 1]);
    }
}

proof fn lemma_flush(st: RenderState)
    requires
        blanks_separated(st.lines),
    ensures
        blanks_separated(flush_line(st).lines),
{
    if st.line_spans.len() > 0 {
        lemma_push_nonblank(st.lines, line_of(st.line_spans));
    }
}

proof fn lemma_blank(st: RenderState)
    requires
        blanks_separated(st.lines),
    ensures
        blanks_separated(push_blank_line(st).lines),
{
    if st.lines.len() > 0 && st.lines.last().spans.len() > 0 {
        let ls = st.lines.push(line_of(seq![]));
        assert forall|i: int| 0 <= i < ls.len() && is_blank(#[trigger] ls[i]) implies i > 0
            && !is_blank(ls[i - 1]) by {
            if i < st.lines.len() {
                assert(ls[i] == st.lines[i]);
                assert(ls[i - 1] == st.lines[i - 1]);
            }
        }
    }
}

proof fn lemma_step(st: RenderState, ev: MdEventView)
    requires
        blanks_separated(st.lines),
    ensures
        blanks_separated(step(st, ev).lines),
{
    let cur = current_style(st);
    match ev {
        MdEventView::Start(tag) => {
            assert(start_tag(st, tag, cur).lines == st.lines);
        },
        MdEventView::End(tag) => {
            let s = pop_style(st);
            match tag {
                MdTagEnd::CodeBlock => {
                    let code = code_block_lines(s.language, s.block, syntect_highlight(code_theme(), s.language, s.block));
                    lemma_code_block_none_blank(s.language, s.block, syntect_highlight(code_theme(), s.language, s.block));
                    lemma_append_none_blank(s.lines, code);
                    let s2 = RenderState { in_code_block: false, lines: s.lines + code, block: seq![], language: None, ..s };
                    lemma_blank(s2);
                },
                MdTagEnd::Table => {
                    lemma_table_none_blank(s.rows, s.columns);
                    lemma_append_none_blank(s.lines, table_lines(s.rows, s.columns));
                    let s2 = RenderState { in_table: false, lines: s.lines + table_lines(s.rows, s.columns), ..s };
                    lemma_blank(s2);
                },
                MdTagEnd::Heading => {
                    lemma_flush(s);
                    lemma_blank(flush_line(s));
                },
                MdTagEnd::Paragraph | MdTagEnd::BlockQuote => {
                    lemma_flush(s);
                    lemma_blank(flush_line(s));
                },
                MdTagEnd::Item => {
                    lemma_flush(s);
                },
                MdTagEnd::List => {
                    let s2 = if s.lists.len() > 0 {
                        RenderState { lists: s.lists.drop_last(), ..s }
                    } else {
                        s
                    };
                    lemma_blank(s2);
                },
                _ => {},
            }
        },
        MdEventView::HardBreak => {
            lemma_flush(st);
        },
        MdEventView::Rule => {
            lemma_flush(st);
            let s = flush_line(st);
            let l = line_of(seq![span_of(repeat('─', 40), with_fg(plain_style(), Rgb { r: 100, g: 100, b: 100 }))]);
            lemma_push_nonblank(s.lines, l);
            lemma_blank(RenderState { lines: s.lines.push(l), ..s });
        },
        _ => {},
    }
}

proof fn lemma_run(evs: Seq<MdEventView>)
    ensures
        blanks_separated(run(initial_state(), evs).lines),
    decreases evs.len(),
{
    if evs.len() > 0 {
        lemma_run(evs.drop_last());
        lemma_step(run(initial_state(), evs.drop_last()), evs.last());
    }
}

/// A drawn document never begins with an empty line and never has two empty lines in a row.
pub proof fn lemma_blank_lines_separated(evs: Seq<MdEventView>)
    ensures
        blanks_separated(render_lines(evs)),
{
    lemma_run(evs);
    lemma_flush(run(initial_state(), evs));
}


proof fn lemma_width_one(x: SpanView)
    ensures
        spans_width(seq![x]) == x.content.len(),
{
    let e = Seq::<SpanView>::empty();
    assert(seq![x].drop_last() =~= e);
    assert(spans_width(e) == 0);
    assert(seq![x].last() == x);
}

/// The width of spans put one after the other is the sum of their widths.
pub proof fn lemma_width_concat(a: Seq<SpanView>, b: Seq<SpanView>)
    ensures
        spans_width(a + b) == spans_width(a) + spans_width(b),
    decreases b.len(),
{
    if b.len() == 0 {
        assert(a + b =~= a);
    } else {
        lemma_width_concat(a, b.drop_last());
        assert((a + b).drop_last() =~= a + b.drop_last());
    }
}

/// Both borders of a code block's box are as wide as the box, when no width is held at
/// `usize::MAX`.
pub proof fn lemma_code_borders_match(lang: Option<Seq<char>>, block: Seq<char>)
    requires
        code_box_width(lang, block) < usize::MAX,
    ensures
        line_width(code_top(lang, block)) == code_box_width(lang, block),
        line_width(code_bottom(lang, block)) == code_box_width(lang, block),
{
    let prefix = code_top_prefix(lang);
    let full = code_box_width(lang, block);
    let dashes = ssub(full, sadd(prefix.len(), 1));
    let top_text = prefix + repeat('─', dashes) + seq!['╮'];
    lemma_width_one(span_of(top_text, code_border_style()));
    let bottom_text = seq!['╰'] + repeat('─', ssub(full, 2)) + seq!['╯'];
    lemma_width_one(span_of(bottom_text, code_border_style()));
}

proof fn lemma_pieces_exact(ps: Seq<HlPieceView>)
    requires
        pieces_width(ps) < usize::MAX,
    ensures
        spans_width(piece_spans(ps)) == pieces_width(ps),
    decreases ps.len(),
{
    if ps.len() > 0 {
        let raw = trim_newlines(ps.last().text);
        lemma_pieces_exact(ps.drop_last());
        if raw.len() > 0 {
            let prev = piece_spans(ps.drop_last());
            let sp = span_of(expand_tabs(raw), piece_style(ps.last()));
            assert(prev.push(sp).drop_last() =~= prev);
        }
    }
}

/// A line of a code block's box is as wide as the box when its highlighted text fits inside
/// it and no width is held at `usize::MAX`.
pub proof fn lemma_code_row_fills_box(ps: Seq<HlPieceView>, total: nat)
    requires
        pieces_width(ps) <= total,
        total + 3 < usize::MAX,
    ensures
        line_width(code_row(ps, total)) == total + 3,
{
    lemma_pieces_exact(ps);
    let first = seq![span_of(seq!['│', ' '], code_border_style())];
    let mid = piece_spans(ps);
    let last = seq![
        span_of(repeat(nbsp(), ssub(total, pieces_width(ps))), code_bg_style()),
        span_of(seq!['│'], code_border_style()),
    ];
    lemma_width_concat(first, mid);
    lemma_width_concat(first + mid, last);
    lemma_width_one(first[0]);
    assert(last.drop_last() =~= seq![last[0]]);
    lemma_width_one(last[0]);
}


/// The sum of `widths[j] + 3` over the first `k` columns: the width a table line takes for
/// them.
pub open spec fn columns_span(widths: Seq<nat>, k: int) -> nat
    decreases k,
{
    if k <= 0 {
        0
    } else {
        columns_span(widths, k - 1) + widths[k - 1] + 3
    }
}

proof fn lemma_rule_body_len(widths: Seq<nat>, mid: char, k: int)
    requires
        0 <= k <= widths.len(),
        forall|j: int| 0 <= j < widths.len() ==> #[trigger] widths[j] + 3 < usize::MAX,
    ensures
        rule_body(widths, mid, k).len() + (if k == widths.len() && k > 0 { 1int } else { 0 })
            == columns_span(widths, k),
    decreases k,
{
    if k > 0 {
        lemma_rule_body_len(widths, mid, k - 1);
        assert(widths[k - 1] + 3 < usize::MAX);
    }
}

/// Every rule of a table is one wider than its columns.
proof fn lemma_rule_width(widths: Seq<nat>, l: char, m: char, r: char)
    requires
        widths.len() > 0,
        forall|j: int| 0 <= j < widths.len() ==> #[trigger] widths[j] + 3 < usize::MAX,
    ensures
        line_width(table_rule(widths, l, m, r)) == columns_span(widths, widths.len() as int) + 1,
{
    lemma_rule_body_len(widths, m, widths.len() as int);
    let text = seq![l] + rule_body(widths, m, widths.len() as int) + seq![r];
    lemma_width_one(span_of(text, with_fg(plain_style(), border_color())));
}

proof fn lemma_column_width_bound(rows: Seq<Seq<Seq<SpanView>>>, r: int, j: int)
    requires
        0 <= r < rows.len(),
        0 <= j < rows[r].len(),
    ensures
        cell_width(rows[r][j]) <= column_width(rows, j),
    decreases rows.len(),
{
    if r < rows.len() - 1 {
        lemma_column_width_bound(rows.drop_last(), r, j);
        assert(rows.drop_last()[r] == rows[r]);
    }
}

proof fn lemma_restyle_width(s: Seq<SpanView>, bg: Rgb, header: bool)
    ensures
        spans_width(s.map_values(|x: SpanView| cell_span(x, bg, header)))
            == spans_width(s),
    decreases s.len(),
{
    if s.len() > 0 {
        lemma_restyle_width(s.drop_last(), bg, header);
        assert(s.map_values(|x: SpanView| cell_span(x, bg, header)).drop_last()
            =~= s.drop_last().map_values(|x: SpanView| cell_span(x, bg, header)));
    }
}

proof fn lemma_cell_exact(s: Seq<SpanView>)
    requires
        cell_width(s) < usize::MAX,
    ensures
        spans_width(s) == cell_width(s),
    decreases s.len(),
{
    if s.len() > 0 {
        lemma_cell_exact(s.drop_last());
    }
}

proof fn lemma_cell_spans_width(cell: Option<Seq<SpanView>>, w: nat, bg: Rgb, header: bool)
    requires
        w + 3 < usize::MAX,
        cell matches Some(c) ==> cell_width(c) <= w,
    ensures
        spans_width(cell_spans(cell, w, bg, header)) == w + 3,
{
    let spans = match cell {
        Some(c) => c,
        None => seq![],
    };
    assert(cell_width(spans) <= w) by {
        if cell is None {
            assert(cell_width(Seq::<SpanView>::empty()) == 0);
        }
    }
    lemma_cell_exact(spans);
    lemma_restyle_width(spans, bg, header);
    let first = seq![span_of(seq![nbsp()], with_bg(plain_style(), bg))];
    let mid = spans.map_values(|s: SpanView| cell_span(s, bg, header));
    let last = seq![
        span_of(repeat(nbsp(), sadd(ssub(w, cell_width(spans)), 1)), with_bg(plain_style(), bg)),
        span_of(seq!['│'], with_fg(plain_style(), border_color())),
    ];
    lemma_width_concat(first, mid);
    lemma_width_concat(first + mid, last);
    lemma_width_one(first[0]);
    assert(last.drop_last() =~= seq![last[0]]);
    lemma_width_one(last[0]);
}

proof fn lemma_row_cells_width(
    rows: Seq<Seq<Seq<SpanView>>>,
    r: int,
    widths: Seq<nat>,
    header: bool,
    k: int,
)
    requires
        0 <= r < rows.len(),
        0 <= k <= widths.len(),
        widths == column_widths(rows, widths.len()),
        forall|j: int| 0 <= j < widths.len() ==> #[trigger] widths[j] + 3 < usize::MAX,
    ensures
        spans_width(row_cells(rows[r], widths, header, k)) == columns_span(widths, k),
    decreases k,
{
    if k > 0 {
        lemma_row_cells_width(rows, r, widths, header, k - 1);
        let bg = if header { header_bg() } else { code_bg() };
        let row = rows[r];
        let cell = if k - 1 < row.len() { Some(row[k - 1]) } else { None };
        if k - 1 < row.len() {
            lemma_column_width_bound(rows, r, k - 1);
        }
        assert(widths[k - 1] + 3 < usize::MAX);
        lemma_cell_spans_width(cell, widths[k - 1], bg, header);
        lemma_width_concat(
            row_cells(row, widths, header, k - 1),
            cell_spans(cell, widths[k - 1], bg, header),
        );
    }
}

proof fn lemma_rows_lines_width(rows: Seq<Seq<Seq<SpanView>>>, widths: Seq<nat>, k: int)
    requires
        0 <= k <= rows.len(),
        widths.len() > 0,
        widths == column_widths(rows, widths.len()),
        forall|j: int| 0 <= j < widths.len() ==> #[trigger] widths[j] + 3 < usize::MAX,
    ensures
        forall|i: int| 0 <= i < table_rows_lines(rows, widths, k).len() ==> line_width(
            #[trigger] table_rows_lines(rows, widths, k)[i],
        ) == columns_span(widths, widths.len() as int) + 1,
    decreases k,
{
    if k > 0 {
        lemma_rows_lines_width(rows, widths, k - 1);
        let prev = table_rows_lines(rows, widths, k - 1);
        let rl = table_row_line(rows[k - 1], widths, k == 1);
        lemma_row_cells_width(rows, k - 1, widths, k == 1, widths.len() as int);
        let bar = seq![span_of(seq!['│'], with_fg(plain_style(), border_color()))];
        lemma_width_concat(bar, row_cells(rows[k - 1], widths, k == 1, widths.len() as int));
        lemma_width_one(bar[0]);
        lemma_rule_width(widths, '├', '┼', '┤');
        let ls = table_rows_lines(rows, widths, k);
        assert forall|i: int| 0 <= i < ls.len() implies line_width(#[trigger] ls[i])
            == columns_span(widths, widths.len() as int) + 1 by {
            if i < prev.len() {
                assert(ls[i] == prev[i]);
            } else if i == prev.len() {
                assert(ls[i] == rl);
            }
        }
    }
}

/// Every line of a drawn table, rules and rows alike, has the same width, when the table has
/// a column and no column is within three of `usize::MAX` wide.
pub proof fn lemma_table_lines_same_width(rows: Seq<Seq<Seq<SpanView>>>, columns: nat)
    requires
        columns > 0,
        forall|j: int| 0 <= j < columns ==> #[trigger] column_width(rows, j) + 3 < usize::MAX,
    ensures
        forall|i: int, j: int| 0 <= i < table_lines(rows, columns).len() && 0 <= j < table_lines(rows, columns).len()
            ==> line_width(#[trigger] table_lines(rows, columns)[i])
                == line_width(#[trigger] table_lines(rows, columns)[j]),
{
    let widths = column_widths(rows, columns);
    assert forall|j: int| 0 <= j < widths.len() implies #[trigger] widths[j] + 3 < usize::MAX by {
        assert(widths[j] == column_width(rows, j));
    }
    assert(widths == column_widths(rows, widths.len()));
    let w = columns_span(widths, widths.len() as int) + 1;
    lemma_rows_lines_width(rows, widths, rows.len() as int);
    lemma_rule_width(widths, '╭', '┬', '╮');
    lemma_rule_width(widths, '╰', '┴', '╯');
    let mid = table_rows_lines(rows, widths, rows.len() as int);
    let ls = table_lines(rows, columns);
    assert forall|i: int| 0 <= i < ls.len() implies line_width(#[trigger] ls[i]) == w by {
        if 0 < i < ls.len() - 1 {
            assert(ls[i] == mid[i - 1]);
        }
    }
}


/// Whether every character of `s` ends a line (`\n` or `\r`).
pub open spec fn all_newlines(s: Seq<char>) -> bool {
    forall|i: int| 0 <= i < s.len() ==> (#[trigger] s[i] == '\n' || s[i] == '\r')
}

proof fn lemma_expand_concat(a: Seq<char>, b: Seq<char>)
    ensures
        expand_tabs(a + b) == expand_tabs(a) + expand_tabs(b),
    decreases b.len(),
{
    if b.len() == 0 {
        assert(a + b =~= a);
        assert(expand_tabs(b) =~= Seq::<char>::empty());
        assert(expand_tabs(a) + expand_tabs(b) =~= expand_tabs(a));
    } else {
        lemma_expand_concat(a, b.drop_last());
        assert((a + b).drop_last() =~= a + b.drop_last());
        assert((a + b).last() == b.last());
        if b.last() == '\t' {
            assert(expand_tabs(a) + expand_tabs(b) =~= expand_tabs(a) + expand_tabs(b.drop_last())
                + seq![' ', ' ', ' ', ' ']);
        } else {
            assert(expand_tabs(a) + expand_tabs(b) =~= (expand_tabs(a) + expand_tabs(b.drop_last())).push(
                b.last(),
            ));
        }
    }
}

proof fn lemma_trim_newlines_suffix(x: Seq<char>, b: Seq<char>)
    requires
        all_newlines(b),
    ensures
        trim_newlines(x + b) == trim_newlines(x),
    decreases b.len(),
{
    if b.len() == 0 {
        assert(x + b =~= x);
    } else {
        assert((x + b).drop_last() =~= x + b.drop_last());
        assert((x + b).last() == b[b.len() - 1]);
        lemma_trim_newlines_suffix(x, b.drop_last());
    }
}

proof fn lemma_trim_newlines_prefix(x: Seq<char>)
    ensures
        trim_newlines(x).len() <= x.len(),
        trim_newlines(x) == x.take(trim_newlines(x).len() as int),
    decreases x.len(),
{
    if x.len() > 0 && (x.last() == '\n' || x.last() == '\r') {
        lemma_trim_newlines_prefix(x.drop_last());
        let t = trim_newlines(x.drop_last());
        assert(x.drop_last().take(t.len() as int) =~= x.take(t.len() as int));
    } else {
        assert(x.take(x.len() as int) =~= x);
    }
}

proof fn lemma_expand_take(x: Seq<char>, k: int)
    requires
        0 <= k <= x.len(),
    ensures
        expand_tabs(x.take(k)).len() <= expand_tabs(x).len(),
{
    lemma_expand_concat(x.take(k), x.skip(k));
    assert(x.take(k) + x.skip(k) =~= x);
}

proof fn lemma_pieces_within(ps: Seq<HlPieceView>, a: Seq<char>, b: Seq<char>)
    requires
        pieces_text(ps) == a + b,
        all_newlines(b),
    ensures
        pieces_width(ps) <= expand_tabs(a).len(),
    decreases ps.len(),
{
    if ps.len() == 0 {
        assert((a + b).len() == 0);
        assert(a =~= Seq::<char>::empty());
        assert(expand_tabs(a) =~= Seq::<char>::empty());
    } else {
        let t = ps.last();
        let c = pieces_text(ps.drop_last());
        assert(c + t.text == a + b);
        if t.text.len() <= b.len() {
            let b1 = b.take(b.len() - t.text.len());
            let b2 = b.skip(b.len() - t.text.len());
            assert(b1 + b2 =~= b);
            assert(c =~= a + b1) by {
                assert((c + t.text).take(c.len() as int) =~= c);
                assert((a + b1 + b2).take(c.len() as int) =~= a + b1);
                assert(a + b =~= a + b1 + b2);
            }
            assert(t.text =~= b2) by {
                assert((c + t.text).skip(c.len() as int) =~= t.text);
                assert((a + b1 + b2).skip(c.len() as int) =~= b2);
                assert(a + b =~= a + b1 + b2);
            }
            assert(all_newlines(b1)) by {
                assert forall|i: int| 0 <= i < b1.len() implies (#[trigger] b1[i] == '\n' || b1[i] == '\r') by {
                    assert(b1[i] == b[i]);
                }
            }
            assert(all_newlines(b2)) by {
                assert forall|i: int| 0 <= i < b2.len() implies (#[trigger] b2[i] == '\n' || b2[i] == '\r') by {
                    assert(b2[i] == b[i + b.len() - t.text.len()]);
                }
            }
            lemma_trim_newlines_suffix(Seq::<char>::empty(), b2);
            assert(Seq::<char>::empty() + b2 =~= b2);
            assert(trim_newlines(Seq::<char>::empty()) =~= Seq::<char>::empty());
            lemma_pieces_within(ps.drop_last(), a, b1);
        } else {
            let t1 = t.text.take(t.text.len() - b.len());
            assert(t1 + b =~= t.text) by {
                assert((c + t.text).skip((c.len() + t.text.len() - b.len()) as int) =~= t.text.skip(t.text.len() - b.len()));
                assert((a + b).skip(a.len() as int) =~= b);
            }
            assert(c + t1 =~= a) by {
                assert((c + t.text).take(a.len() as int) =~= c + t1);
                assert((a + b).take(a.len() as int) =~= a);
            }
            lemma_trim_newlines_suffix(t1, b);
            lemma_trim_newlines_prefix(t1);
            let raw = trim_newlines(t.text);
            lemma_expand_take(t1, raw.len() as int);
            lemma_pieces_within(ps.drop_last(), c, Seq::<char>::empty());
            assert(c + Seq::<char>::empty() =~= c);
            lemma_expand_concat(c, t1);
        }
    }
}

proof fn lemma_states_match(s: Seq<char>, k: nat)
    requires
        k <= s.len(),
    ensures
        lines_state(s, k).1 == pieces_state(s, k).1,
        lines_state(s, k).0.len() == pieces_state(s, k).0.len(),
        forall|i: int| 0 <= i < lines_state(s, k).0.len() ==> {
            let l = #[trigger] lines_state(s, k).0[i];
            let p = pieces_state(s, k).0[i];
            &&& l.len() <= p.len()
            &&& p.take(l.len() as int) == l
            &&& all_newlines(p.skip(l.len() as int))
        },
    decreases k,
{
    if k > 0 {
        lemma_states_match(s, (k - 1) as nat);
        let (ld, lc) = lines_state(s, (k - 1) as nat);
        let (pd, pc) = pieces_state(s, (k - 1) as nat);
        if s[k - 1] == '\n' {
            let l = strip_cr(lc);
            let p = pc.push('\n');
            assert(p.take(l.len() as int) =~= l);
            assert forall|j: int| 0 <= j < p.skip(l.len() as int).len() implies (#[trigger] p.skip(
                l.len() as int,
            )[j] == '\n' || p.skip(l.len() as int)[j] == '\r') by {
                assert(p.skip(l.len() as int)[j] == p[j + l.len()]);
            }
            assert forall|i: int| 0 <= i < ld.push(l).len() implies {
                let l2 = #[trigger] ld.push(l)[i];
                let p2 = pd.push(p)[i];
                &&& l2.len() <= p2.len()
                &&& p2.take(l2.len() as int) == l2
                &&& all_newlines(p2.skip(l2.len() as int))
            } by {
                if i < ld.len() {
                    assert(ld.push(l)[i] == ld[i]);
                    assert(pd.push(p)[i] == pd[i]);
                }
            }
        }
    }
}

/// Each line of `s` with its end kept is the line as `lines_of` gives it followed by line-end
/// characters only.
proof fn lemma_lines_and_endings(s: Seq<char>)
    ensures
        lines_with_endings(s).len() == lines_of(s).len(),
        forall|i: int| 0 <= i < lines_of(s).len() ==> {
            let l = #[trigger] lines_of(s)[i];
            let p = lines_with_endings(s)[i];
            &&& l.len() <= p.len()
            &&& p.take(l.len() as int) == l
            &&& all_newlines(p.skip(l.len() as int))
        },
{
    lemma_states_match(s, s.len());
    let (ld, lc) = lines_state(s, s.len());
    let (pd, pc) = pieces_state(s, s.len());
    if lc.len() > 0 {
        assert(lc.skip(lc.len() as int) =~= Seq::<char>::empty());
        assert(lc.take(lc.len() as int) =~= lc);
        assert forall|i: int| 0 <= i < ld.push(lc).len() implies {
            let l2 = #[trigger] ld.push(lc)[i];
            let p2 = pd.push(pc)[i];
            &&& l2.len() <= p2.len()
            &&& p2.take(l2.len() as int) == l2
            &&& all_newlines(p2.skip(l2.len() as int))
        } by {
            if i < ld.len() {
                assert(ld.push(lc)[i] == ld[i]);
                assert(pd.push(pc)[i] == pd[i]);
            }
        }
    }
}

proof fn lemma_max_width_bound(ls: Seq<Seq<char>>, i: int)
    requires
        0 <= i < ls.len(),
    ensures
        expand_tabs(ls[i]).len() <= max_tab_width(ls),
    decreases ls.len(),
{
    if i < ls.len() - 1 {
        lemma_max_width_bound(ls.drop_last(), i);
        assert(ls.drop_last()[i] == ls[i]);
    }
}

/// A line of code drawn from highlighting that covers it fits inside its box.
proof fn lemma_row_fits(lang: Option<Seq<char>>, block: Seq<char>, hl: Seq<Seq<HlPieceView>>, i: int)
    requires
        covers_lines(block, hl),
        code_box_width(lang, block) < usize::MAX,
        0 <= i < hl.len(),
    ensures
        pieces_width(hl[i]) <= code_total_width(lang, block),
{
    let ps = hl[i];
    if ps.len() == 0 {
    } else {
        lemma_lines_and_endings(block);
        let ls = lines_of(block);
        let l = ls[i];
        let p = lines_with_endings(block)[i];
        assert(pieces_text(ps) == p);
        let b = p.skip(l.len() as int);
        assert(l + b =~= p) by {
            assert(p.take(l.len() as int) == l);
        }
        lemma_pieces_within(ps, l, b);
        lemma_max_width_bound(ls, i);
    }
}

/// The box of a code block fits its widest line: when the highlighting covers the code, line
/// by line, every line of the box (borders and code alike) is as wide as the box, if no width
/// is held at `usize::MAX`.
pub proof fn lemma_code_box_even(lang: Option<Seq<char>>, block: Seq<char>, hl: Seq<Seq<HlPieceView>>)
    requires
        covers_lines(block, hl),
        code_box_width(lang, block) < usize::MAX,
    ensures
        forall|i: int| 0 <= i < code_block_lines(lang, block, hl).len() ==> line_width(
            #[trigger] code_block_lines(lang, block, hl)[i],
        ) == code_box_width(lang, block),
{
    let ls = code_block_lines(lang, block, hl);
    let total = code_total_width(lang, block);
    lemma_code_borders_match(lang, block);
    assert forall|i: int| 0 <= i < ls.len() implies line_width(#[trigger] ls[i]) == code_box_width(
        lang,
        block,
    ) by {
        if 0 < i < ls.len() - 1 {
            assert(ls[i] == code_row(hl[i - 1], total));
            lemma_row_fits(lang, block, hl, i - 1);
            lemma_code_row_fills_box(hl[i - 1], total);
        }
    }
}


/// A list item takes its marker from the innermost open list only: when that list is
/// numbered, the item shows its number and the list's counter moves on; when it is not, the
/// item shows a bullet. The counters of the lists around it are left as they were, and the
/// marker, indented two spaces per enclosing list, is added to the line being built. An item
/// outside any list shows an unindented bullet.
pub proof fn lemma_item_marker_from_innermost_list(st: RenderState)
    ensures
        ({
            let after = step(st, MdEventView::Start(MdTagView::Item));
            let k = st.lists.len() - 1;
            let marker = after.line_spans.last().content;
            let indent = repeat(' ', 2 * k as nat);
            &&& after.lists.len() == st.lists.len()
            &&& forall|i: int| 0 <= i < k ==> #[trigger] after.lists[i] == st.lists[i]
            &&& after.line_spans.len() == st.line_spans.len() + 1
            &&& after.line_spans.drop_last() == st.line_spans
            &&& after.lines == st.lines
            &&& st.lists.len() == 0 ==> marker == seq!['•', ' '] && after.lists == st.lists
            &&& st.lists.len() > 0 ==> match st.lists[k] {
                Some(n) => {
                    &&& after.lists[k] == Some(next_number(n))
                    &&& marker == indent + decimal(n as nat) + seq![' ']
                },
                None => {
                    &&& after.lists[k] is None
                    &&& marker == indent + seq!['•', ' ']
                },
            }
        }),
{
    let after = step(st, MdEventView::Start(MdTagView::Item));
    let k = st.lists.len() - 1;
    assert(after.line_spans.drop_last() =~= st.line_spans);
    if st.lists.len() > 0 {
        assert(ssub(st.lists.len(), 1) == k);
    } else {
        assert(repeat(' ', 0) =~= seq![]);
        assert(seq![] + seq!['•', ' '] =~= seq!['•', ' ']);
    }
}

/// An item of a list nested in a numbered list leaves the numbered list's counter as it was:
/// the next item of the outer list takes the number that follows its previous item.
pub proof fn lemma_nested_item_keeps_outer_number(st: RenderState, inner: Option<u64>)
    requires
        st.lists.len() > 0,
    ensures
        ({
            let opened = step(st, MdEventView::Start(MdTagView::List(inner)));
            let after = step(opened, MdEventView::Start(MdTagView::Item));
            &&& after.lists.len() == st.lists.len() + 1
            &&& after.lists.drop_last() == st.lists
        }),
{
    let opened = step(st, MdEventView::Start(MdTagView::List(inner)));
    lemma_item_marker_from_innermost_list(opened);
    let after = step(opened, MdEventView::Start(MdTagView::Item));
    assert(after.lists.drop_last() =~= st.lists);
}

} // verus!
