use vstd::prelude::*;

use crate::code_block::make_span;
use crate::render_laws::lemma_table_lines_same_width;
use crate::render_spec::{
    border_color, cell_span, cell_spans, cell_width, code_bg, column_width, column_widths,
    header_bg, nbsp, nmax, row_cells, rule_body, table_lines, table_row_line, table_rows_lines,
    table_rule,
};
use crate::style::{line_width, 
    line_views, plain_style, span_of, span_views, with_bg, with_fg, Line, Rgb, Span, SpanView,
    TextStyle,
};
use crate::text::{append_chars, chars_of, repeat_char};

verus! {

/// The values of the cells of a row.
pub open spec fn cells_view(row: Seq<Vec<Span>>) -> Seq<Seq<SpanView>> {
    row.map_values(|c: Vec<Span>| span_views(c@))
}

/// The values of the rows of a table.
pub open spec fn rows_view(rows: Seq<Vec<Vec<Span>>>) -> Seq<Seq<Seq<SpanView>>> {
    rows.map_values(|r: Vec<Vec<Span>>| cells_view(r@))
}

/// Column widths as numbers.
pub open spec fn widths_view(w: Seq<usize>) -> Seq<nat> {
    w.map_values(|x: usize| x as nat)
}

/// The number of characters in the spans of a cell, held at `usize::MAX`.
fn cell_chars(cell: &Vec<Span>) -> (w: usize)
    ensures
        w == cell_width(span_views(cell@)),
{
    let ghost cv = span_views(cell@);
    let n = cell.len();
    let mut w: usize = 0;
    let mut k: usize = 0;
    while k < n
        invariant
            k <= n == cell@.len(),
            cv == span_views(cell@),
            w == cell_width(cv.take(k as int)),
        decreases n - k,
    {
        proof {
            assert(cv.take(k + 1).drop_last() == cv.take(k as int));
        }
        let c = chars_of(cell[k].content.as_str());
        w = w.saturating_add(c.len());
        k = k + 1;
    }
    proof {
        assert(cv.take(n as int) == cv);
    }
    w
}

/// The widths of the first `columns` columns of a table.
fn table_widths(rows: &Vec<Vec<Vec<Span>>>, columns: usize) -> (w: Vec<usize>)
    ensures
        widths_view(w@) == column_widths(rows_view(rows@), columns as nat),
{
    let ghost rv = rows_view(rows@);
    let mut w: Vec<usize> = Vec::new();
    let mut i: usize = 0;
    while i < columns
        invariant
            i <= columns,
            w@.len() == i,
            forall|j: int| 0 <= j < i ==> w@[j] == 0,
        decreases columns - i,
    {
        w.push(0);
        i = i + 1;
    }
    let n = rows.len();
    let mut k: usize = 0;
    while k < n
        invariant
            k <= n == rows@.len(),
            rv == rows_view(rows@),
            w@.len() == columns,
            forall|j: int| 0 <= j < columns ==> w@[j] == column_width(rv.take(k as int), j),
        decreases n - k,
    {
        let row = &rows[k];
        let ghost pre = w@;
        proof {
            assert(rv.take(k + 1).drop_last() == rv.take(k as int));
            assert(rv.take(k + 1).last() == cells_view(row@));
        }
        let mut j: usize = 0;
        while j < row.len() && j < columns
            invariant
                j <= columns,
                w@.len() == columns,
                rv == rows_view(rows@),
                k < n == rows@.len(),
                row == &rows@[k as int],
                rv.take(k + 1).drop_last() == rv.take(k as int),
                rv.take(k + 1).last() == cells_view(row@),
                pre.len() == columns,
                forall|q: int| 0 <= q < columns ==> pre[q] == column_width(rv.take(k as int), q),
                forall|q: int| 0 <= q < j ==> w@[q] == column_width(rv.take(k + 1), q),
                forall|q: int| j <= q < columns ==> w@[q] == pre[q],
            decreases columns - j,
        {
            let cw = cell_chars(&row[j]);
            proof {
                let t = rv.take(k + 1);
                assert(t.last()[j as int] == span_views(row@[j as int]@));
                assert(column_width(t, j as int) == nmax(
                    column_width(t.drop_last(), j as int),
                    cell_width(t.last()[j as int]),
                ));
            }
            if cw > w[j] {
                w.set(j, cw);
            }
            proof {
                let t = rv.take(k + 1);
                assert(column_width(t.drop_last(), j as int) == pre[j as int]);
                assert(w@[j as int] == column_width(t, j as int));
            }
            j = j + 1;
        }
        proof {
            assert forall|q: int| 0 <= q < columns implies w@[q] == column_width(rv.take(k + 1), q) by {
                if q >= j {
                    let t = rv.take(k + 1);
                    assert(w@[q] == pre[q]);
                    assert(pre[q] == column_width(rv.take(k as int), q));
                    assert(t.drop_last() == rv.take(k as int));
                    assert(q >= row@.len());
                    assert(t.last().len() == row@.len());
                    assert(column_width(t, q) == nmax(column_width(t.drop_last(), q), 0));
                }
            }
        }
        k = k + 1;
    }
    proof {
        assert(rv.take(n as int) == rv);
        assert(widths_view(w@) =~= column_widths(rv, columns as nat));
    }
    w
}

/// A horizontal rule of a table.
fn render_rule(widths: &Vec<usize>, left: char, mid: char, right: char) -> (l: Line)
    ensures
        l@ == table_rule(widths_view(widths@), left, mid, right),
{
    let ghost wv = widths_view(widths@);
    let n = widths.len();
    let mut s: Vec<char> = Vec::new();
    s.push(left);
    let mut i: usize = 0;
    while i < n
        invariant
            i <= n == widths@.len(),
            wv == widths_view(widths@),
            s@ == seq![left] + rule_body(wv, mid, i as int),
        decreases n - i,
    {
        let d = repeat_char('─', widths[i].saturating_add(2));
        append_chars(&mut s, &d);
        if i < n - 1 {
            s.push(mid);
        }
        proof {
            assert(wv[i as int] == widths@[i as int] as nat);
            if i < n - 1 {
                assert(s@ =~= seq![left] + rule_body(wv, mid, i + 1));
            } else {
                assert(s@ =~= seq![left] + rule_body(wv, mid, i + 1));
            }
        }
        i = i + 1;
    }
    s.push(right);
    let mut spans: Vec<Span> = Vec::new();
    spans.push(make_span(&s, TextStyle::plain().fg(Rgb { r: 100, g: 120, b: 150 })));
    let l = Line { spans, style: TextStyle::plain() };
    proof {
        assert(s@ =~= seq![left] + rule_body(wv, mid, n as int) + seq![right]);
        assert(span_views(l.spans@) =~= table_rule(wv, left, mid, right).spans);
    }
    l
}

/// Appends to `spans` the spans of one cell, padded to `width`.
fn push_cell(spans: &mut Vec<Span>, cell: Option<&Vec<Span>>, width: usize, bg: Rgb, header: bool)
    ensures
        span_views(final(spans)@) == span_views(old(spans)@) + cell_spans(
            match cell {
                Some(c) => Some(span_views(c@)),
                None => None,
            },
            width as nat,
            bg,
            header,
        ),
{
    let ghost start = span_views(spans@);
    let ghost cv: Seq<SpanView> = match cell {
        Some(c) => span_views(c@),
        None => seq![],
    };
    let bg_style = TextStyle::plain().bg(bg);
    let mut one: Vec<char> = Vec::new();
    one.push('\u{a0}');
    proof {
        assert(one@ =~= seq![nbsp()]);
    }
    let s0 = make_span(&one, bg_style);
    proof {
        assert(span_views(spans@.push(s0)) =~= span_views(spans@).push(s0@));
    }
    spans.push(s0);
    let mut len: usize = 0;
    match cell {
        Some(c) => {
            let n = c.len();
            let mut k: usize = 0;
            while k < n
                invariant
                    k <= n == c@.len(),
                    cv == span_views(c@),
                    len == cell_width(cv.take(k as int)),
                    span_views(spans@) == start + seq![span_of(seq![nbsp()], with_bg_plain(bg))]
                        + cv.take(k as int).map_values(|s: SpanView| cell_span(s, bg, header)),
                decreases n - k,
            {
                proof {
                    assert(cv.take(k + 1).drop_last() == cv.take(k as int));
                }
                let text = chars_of(c[k].content.as_str());
                len = len.saturating_add(text.len());
                let st = if header {
                    c[k].style.bg(bg).bold().fg(Rgb { r: 255, g: 215, b: 0 })
                } else {
                    c[k].style.bg(bg)
                };
                let sp = Span { content: c[k].content.clone(), style: st };
                proof {
                    assert(sp@ == cell_span(cv[k as int], bg, header));
                    assert(span_views(spans@.push(sp)) =~= span_views(spans@).push(sp@));
                    assert(cv.take(k + 1).map_values(|s: SpanView| cell_span(s, bg, header))
                        =~= cv.take(k as int).map_values(|s: SpanView| cell_span(s, bg, header)).push(sp@));
                }
                spans.push(sp);
                k = k + 1;
            }
            proof {
                assert(cv.take(n as int) == cv);
            }
        },
        None => {
            proof {
                assert(cv.map_values(|s: SpanView| cell_span(s, bg, header)) =~= seq![]);
                assert(cv == cv.take(0));
            }
        },
    }
    let pad = repeat_char('\u{a0}', width.saturating_sub(len).saturating_add(1));
    let sp = make_span(&pad, bg_style);
    proof {
        assert(span_views(spans@.push(sp)) =~= span_views(spans@).push(sp@));
    }
    spans.push(sp);
    let mut bar: Vec<char> = Vec::new();
    bar.push('│');
    proof {
        assert(bar@ =~= seq!['│']);
    }
    let sb = make_span(&bar, TextStyle::plain().fg(Rgb { r: 100, g: 120, b: 150 }));
    proof {
        assert(span_views(spans@.push(sb)) =~= span_views(spans@).push(sb@));
    }
    spans.push(sb);
    proof {
        assert(span_views(spans@) =~= start + cell_spans(
            match cell {
                Some(c) => Some(span_views(c@)),
                None => None,
            },
            width as nat,
            bg,
            header,
        ));
    }
}

/// The plain style with background `bg`.
pub open spec fn with_bg_plain(bg: Rgb) -> TextStyle {
    with_bg(plain_style(), bg)
}


/// The line of one row of a table.
fn render_row(row: &Vec<Vec<Span>>, widths: &Vec<usize>, header: bool) -> (l: Line)
    ensures
        l@ == table_row_line(cells_view(row@), widths_view(widths@), header),
{
    let ghost wv = widths_view(widths@);
    let ghost rv = cells_view(row@);
    let mut spans: Vec<Span> = Vec::new();
    let mut bar: Vec<char> = Vec::new();
    bar.push('│');
    proof {
        assert(bar@ =~= seq!['│']);
    }
    spans.push(make_span(&bar, TextStyle::plain().fg(Rgb { r: 100, g: 120, b: 150 })));
    let ghost first = span_views(spans@);
    let bg = if header { Rgb { r: 35, g: 40, b: 50 } } else { Rgb { r: 20, g: 22, b: 28 } };
    let n = widths.len();
    let mut i: usize = 0;
    while i < n
        invariant
            i <= n == widths@.len(),
            wv == widths_view(widths@),
            rv == cells_view(row@),
            bg == (if header { header_bg() } else { code_bg() }),
            span_views(spans@) == first + row_cells(rv, wv, header, i as int),
        decreases n - i,
    {
        let cell: Option<&Vec<Span>> = if i < row.len() { Some(&row[i]) } else { None };
        proof {
            if i < row@.len() {
                assert(rv[i as int] == span_views(row@[i as int]@));
            }
        }
        push_cell(&mut spans, cell, widths[i], bg, header);
        i = i + 1;
    }
    let l = Line { spans, style: TextStyle::plain() };
    proof {
        assert(first =~= seq![span_of(seq!['│'], with_fg(plain_style(), border_color()))]);
    }
    l
}

/// The lines of a table with `columns` columns and the given rows, the first row being the
/// header: a top rule, each row (a rule under the header), and a bottom rule, every column
/// padded to its widest cell.
pub fn render_table(rows: &Vec<Vec<Vec<Span>>>, columns: usize) -> (r: Vec<Line>)
    ensures
        line_views(r@) == table_lines(rows_view(rows@), columns as nat),
        columns > 0 && (forall|j: int| 0 <= j < columns ==> #[trigger] column_width(rows_view(rows@), j) + 3
            < usize::MAX) ==> forall|i: int, j: int| 0 <= i < r@.len() && 0 <= j < r@.len()
            ==> line_width(#[trigger] line_views(r@)[i]) == line_width(#[trigger] line_views(r@)[j]),
{
    proof {
        if columns > 0 && (forall|j: int| 0 <= j < columns ==> #[trigger] column_width(rows_view(rows@), j) + 3
            < usize::MAX) {
            lemma_table_lines_same_width(rows_view(rows@), columns as nat);
        }
    }
    let ghost rv = rows_view(rows@);
    let widths = table_widths(rows, columns);
    let ghost wv = widths_view(widths@);
    let mut out: Vec<Line> = Vec::new();
    out.push(render_rule(&widths, '╭', '┬', '╮'));
    let ghost top = line_views(out@);
    let n = rows.len();
    let mut k: usize = 0;
    while k < n
        invariant
            k <= n == rows@.len(),
            rv == rows_view(rows@),
            wv == widths_view(widths@),
            line_views(out@) == top + table_rows_lines(rv, wv, k as int),
        decreases n - k,
    {
        let rl = render_row(&rows[k], &widths, k == 0);
        proof {
            assert(rv[k as int] == cells_view(rows@[k as int]@));
            assert(line_views(out@.push(rl)) =~= line_views(out@).push(rl@));
        }
        out.push(rl);
        if k == 0 {
            let mid = render_rule(&widths, '├', '┼', '┤');
            proof {
                assert(line_views(out@.push(mid)) =~= line_views(out@).push(mid@));
            }
            out.push(mid);
        }
        k = k + 1;
    }
    let bottom = render_rule(&widths, '╰', '┴', '╯');
    proof {
        assert(line_views(out@.push(bottom)) =~= line_views(out@).push(bottom@));
    }
    out.push(bottom);
    proof {
        assert(line_views(out@) =~= table_lines(rv, columns as nat));
    }
    out
}

} // verus!
