use vstd::prelude::*;

use crate::code_block::{make_span, opt_chars, render_code_block};
use crate::events::{commonmark_events, event_views, markdown_events, MdEvent, MdTag, MdTagEnd};
use crate::highlight::{code_theme, highlight_code};
use crate::render_spec::{
    base_style, blank_outside_lists, clean_language, current_style, end_tag, flush_line,
    heading_color, initial_state, next_number, pop_style, push_blank_line, push_cell_span,
    push_span, render_lines, run, ssub, start_item, start_tag, step, tag_style, RenderState,
};
use crate::style::{
    line_views, plain_style, span_of, span_views, with_fg, Line, Rgb, Span, TextStyle,
};
use crate::table::{cells_view, render_table, rows_view};
use crate::render_laws::{blanks_separated, lemma_blank_lines_separated};
use crate::text::{
    append_chars, chars_of, decimal, decimal_chars, find, find_chars, find_from, repeat,
    repeat_char, string_from_chars, trim_chars,
};

verus! {

/// The state of drawing a Markdown document, event by event.
pub struct Renderer {
    lines: Vec<Line>,
    in_code_block: bool,
    language: Option<Vec<char>>,
    block: Vec<char>,
    line_spans: Vec<Span>,
    in_table: bool,
    columns: usize,
    rows: Vec<Vec<Vec<Span>>>,
    row: Vec<Vec<Span>>,
    cell: Vec<Span>,
    styles: Vec<TextStyle>,
    lists: Vec<Option<u64>>,
}

impl View for Renderer {
    type V = RenderState;

    closed spec fn view(&self) -> RenderState {
        RenderState {
            lines: line_views(self.lines@),
            in_code_block: self.in_code_block,
            language: opt_chars(&self.language),
            block: self.block@,
            line_spans: span_views(self.line_spans@),
            in_table: self.in_table,
            columns: self.columns as nat,
            rows: rows_view(self.rows@),
            row: cells_view(self.row@),
            cell: span_views(self.cell@),
            styles: self.styles@,
            lists: self.lists@,
        }
    }
}

/// The language of a fenced code block: its info string up to the first comma, trimmed.
fn clean_language_chars(info: &[char]) -> (r: Vec<char>)
    ensures
        r@ == clean_language(info@),
{
    let mut comma: Vec<char> = Vec::new();
    comma.push(',');
    proof {
        assert(comma@ =~= seq![',']);
    }
    let found = find_chars(info, &comma, 0);
    proof {
        assert(find(info@, seq![',']) == find_from(info@, comma@, 0));
    }
    match found {
        Some(i) => {
            proof {
                assert(find(info@, seq![',']) == Some(i as int));
            }
            let mut head: Vec<char> = Vec::new();
            let mut k: usize = 0;
            while k < i
                invariant
                    k <= i <= info@.len(),
                    head@ == info@.take(k as int),
                    find(info@, seq![',']) == Some(i as int),
                decreases i - k,
            {
                head.push(info[k]);
                k = k + 1;
            }
            trim_chars(&head)
        },
        None => trim_chars(info),
    }
}

/// `2 * m` spaces.
fn indent_chars(m: usize) -> (r: Vec<char>)
    ensures
        r@ == repeat(' ', 2 * m as nat),
{
    let mut r: Vec<char> = Vec::new();
    let mut k: usize = 0;
    while k < m
        invariant
            k <= m,
            r@ == repeat(' ', 2 * k as nat),
        decreases m - k,
    {
        r.push(' ');
        r.push(' ');
        k = k + 1;
        proof {
            assert(r@ =~= repeat(' ', 2 * k as nat));
        }
    }
    r
}

/// The colour of a heading of level `level`.
fn heading_rgb(level: u8) -> (c: Rgb)
    ensures
        c == heading_color(level),
{
    if level == 1 {
        Rgb { r: 255, g: 110, b: 150 }
    } else if level == 2 {
        Rgb { r: 110, g: 255, b: 150 }
    } else if level == 3 {
        Rgb { r: 110, g: 200, b: 255 }
    } else if level == 4 {
        Rgb { r: 255, g: 220, b: 110 }
    } else {
        Rgb { r: 200, g: 200, b: 200 }
    }
}

/// A single space.
fn space() -> (r: Vec<char>)
    ensures
        r@ == seq![' '],
{
    let mut r: Vec<char> = Vec::new();
    r.push(' ');
    proof {
        assert(r@ =~= seq![' ']);
    }
    r
}

/// The style that the inside of an element starting with `tag` gets, from the style `cur`.
fn tag_style_of(tag: &MdTag, cur: TextStyle) -> (s: TextStyle)
    ensures
        s == tag_style(tag@, cur),
{
    match tag {
        MdTag::Heading(l) => {
            let s = cur.fg(heading_rgb(*l)).bold();
            if *l == 1 {
                s.underlined()
            } else {
                s
            }
        },
        MdTag::Strong => cur.bold().fg(Rgb { r: 255, g: 215, b: 0 }),
        MdTag::Emphasis => cur.italic().fg(Rgb { r: 200, g: 180, b: 255 }),
        MdTag::Strikethrough => cur.crossed_out().fg(Rgb { r: 150, g: 150, b: 150 }),
        MdTag::Link => cur.fg(Rgb { r: 80, g: 180, b: 255 }).underlined(),
        MdTag::Image => cur.fg(Rgb { r: 255, g: 150, b: 255 }).italic(),
        MdTag::BlockQuote => cur.fg(Rgb { r: 180, g: 190, b: 200 }).italic(),
        _ => cur,
    }
}

/// A span with the characters of `s`.
fn span_of_str(s: &String, style: TextStyle) -> (r: Span)
    ensures
        r@ == span_of(s@, style),
{
    Span { content: s.clone(), style }
}

impl Renderer {
    /// A renderer before the first event.
    pub fn new() -> (r: Renderer)
        ensures
            r@ == initial_state(),
    {
        let mut styles: Vec<TextStyle> = Vec::new();
        styles.push(TextStyle::plain().fg(Rgb { r: 235, g: 240, b: 245 }));
        let r = Renderer {
            lines: Vec::new(),
            in_code_block: false,
            language: None,
            block: Vec::new(),
            line_spans: Vec::new(),
            in_table: false,
            columns: 0,
            rows: Vec::new(),
            row: Vec::new(),
            cell: Vec::new(),
            styles,
            lists: Vec::new(),
        };
        proof {
            assert(r@.styles =~= seq![base_style()]);
            assert(r@.lines =~= seq![]);
            assert(r@.line_spans =~= seq![]);
            assert(r@.rows =~= seq![]);
            assert(r@.row =~= seq![]);
            assert(r@.cell =~= seq![]);
        }
        r
    }

    /// The style of the innermost open element.
    fn cur_style(&self) -> (s: TextStyle)
        ensures
            s == current_style(self@),
    {
        let n = self.styles.len();
        if n > 0 {
            self.styles[n - 1]
        } else {
            TextStyle::plain().fg(Rgb { r: 235, g: 240, b: 245 })
        }
    }

    /// Ends the line being built, if it has spans.
    fn flush_line(&mut self)
        ensures
            final(self)@ == flush_line(old(self)@),
    {
        if self.line_spans.len() > 0 {
            let mut spans: Vec<Span> = Vec::new();
            std::mem::swap(&mut spans, &mut self.line_spans);
            let l = Line { spans, style: TextStyle::plain() };
            proof {
                assert(line_views(self.lines@.push(l)) =~= line_views(self.lines@).push(l@));
            }
            self.lines.push(l);
            proof {
                assert(span_views(self.line_spans@) =~= seq![]);
            }
        }
    }

    /// Adds an empty line, unless there is no line yet or the last one is already empty.
    fn push_blank_line(&mut self)
        ensures
            final(self)@ == push_blank_line(old(self)@),
    {
        let n = self.lines.len();
        if n > 0 && self.lines[n - 1].spans.len() > 0 {
            let l = Line { spans: Vec::new(), style: TextStyle::plain() };
            proof {
                assert(span_views(l.spans@) =~= seq![]);
                assert(line_views(self.lines@.push(l)) =~= line_views(self.lines@).push(l@));
            }
            self.lines.push(l);
        }
    }

    /// Adds `s` to the line being built.
    fn push_span(&mut self, s: Span)
        ensures
            final(self)@ == push_span(old(self)@, s@),
    {
        proof {
            assert(span_views(self.line_spans@.push(s)) =~= span_views(self.line_spans@).push(s@));
        }
        self.line_spans.push(s);
    }

    /// Adds `s` to the cell being read.
    fn push_cell_span(&mut self, s: Span)
        ensures
            final(self)@ == push_cell_span(old(self)@, s@),
    {
        proof {
            assert(span_views(self.cell@.push(s)) =~= span_views(self.cell@).push(s@));
        }
        self.cell.push(s);
    }

    /// Starts a list item: adds its bullet, or its number and advances the list's counter.
    fn start_item(&mut self, cur: TextStyle)
        ensures
            final(self)@ == start_item(old(self)@, cur),
    {
        let ghost st = self@;
        let n = self.lists.len();
        let mut prefix = indent_chars(n.saturating_sub(1));
        let ghost indent = prefix@;
        assert(indent == repeat(' ', 2 * ssub(st.lists.len(), 1)));
        let style = cur.fg(Rgb { r: 255, g: 150, b: 100 }).bold();
        if n > 0 && self.lists[n - 1].is_some() {
            let idx = self.lists[n - 1].unwrap();
            let digits = decimal_chars(idx);
            append_chars(&mut prefix, &digits);
            prefix.push(' ');
            let next = idx.wrapping_add(1);
            proof {
                assert(next == next_number(idx)) by (bit_vector)
                    requires next == idx.wrapping_add(1);
            }
            self.lists.set(n - 1, Some(next));
            let ghost mid = self@;
            proof {
                assert(prefix@ =~= indent + decimal(idx as nat) + seq![' ']);
                assert(mid == (RenderState { lists: st.lists.update(st.lists.len() - 1, Some(next_number(idx))), ..st }));
            }
            let sp = make_span(&prefix, style);
            self.push_span(sp);
        } else {
            prefix.push('•');
            prefix.push(' ');
            proof {
                assert(prefix@ =~= indent + seq!['•', ' ']);
            }
            let sp = make_span(&prefix, style);
            self.push_span(sp);
        }
    }

    /// What the start of an element does, apart from opening its style.
    fn start_tag(&mut self, tag: &MdTag, cur: TextStyle)
        ensures
            final(self)@ == start_tag(old(self)@, tag@, cur),
    {
        match tag {
            MdTag::CodeBlock(info) => {
                self.in_code_block = true;
                self.block = Vec::new();
                self.language = match info {
                    Some(i) => Some(clean_language_chars(&chars_of(i.as_str()))),
                    None => None,
                };
            },
            MdTag::Table(n) => {
                self.in_table = true;
                self.columns = *n;
                self.rows = Vec::new();
                proof {
                    assert(rows_view(self.rows@) =~= seq![]);
                }
            },
            MdTag::TableHead | MdTag::TableRow => {
                self.row = Vec::new();
                proof {
                    assert(cells_view(self.row@) =~= seq![]);
                }
            },
            MdTag::TableCell => {
                self.cell = Vec::new();
                proof {
                    assert(span_views(self.cell@) =~= seq![]);
                }
            },
            MdTag::Heading(l) => {
                let mut h = repeat_char('#', *l as usize);
                h.push(' ');
                let sp = make_span(&h, TextStyle::plain().fg(heading_rgb(*l)).bold());
                self.push_span(sp);
            },
            MdTag::Image => {
                let mut c: Vec<char> = Vec::new();
                c.push('🖼');
                c.push(' ');
                c.push(' ');
                proof {
                    assert(c@ =~= seq!['🖼', ' ', ' ']);
                }
                self.push_span(make_span(&c, TextStyle::plain()));
            },
            MdTag::List(start) => {
                self.lists.push(*start);
            },
            MdTag::Item => {
                self.start_item(cur);
            },
            MdTag::BlockQuote => {
                let mut c: Vec<char> = Vec::new();
                c.push('▍');
                c.push(' ');
                proof {
                    assert(c@ =~= seq!['▍', ' ']);
                }
                self.push_span(make_span(&c, TextStyle::plain().fg(Rgb { r: 100, g: 250, b: 150 })));
            },
            _ => {},
        }
    }

    /// Closes the innermost open style.
    fn pop_style(&mut self)
        ensures
            final(self)@ == pop_style(old(self)@),
    {
        if self.styles.len() > 0 {
            self.styles.pop();
        }
    }

    /// Adds an empty line when no list is open.
    fn blank_outside_lists(&mut self)
        ensures
            final(self)@ == blank_outside_lists(old(self)@),
    {
        if self.lists.len() == 0 {
            self.push_blank_line();
        }
    }

    /// Appends lines to the output.
    fn append_lines(&mut self, more: Vec<Line>)
        ensures
            final(self)@ == (RenderState { lines: old(self)@.lines + line_views(more@), ..old(self)@ }),
    {
        let mut more = more;
        let ghost m = more@;
        proof {
            assert(line_views(self.lines@ + m) =~= line_views(self.lines@) + line_views(m));
        }
        self.lines.append(&mut more);
    }

    /// Ends a code block: draws its box, highlighted, and forgets its code.
    fn end_code_block(&mut self)
        ensures
            final(self)@ == end_tag(old(self)@, MdTagEnd::CodeBlock),
    {
        self.in_code_block = false;
        let lang_s: Option<String> = match &self.language {
            Some(l) => Some(string_from_chars(l)),
            None => None,
        };
        let lang_ref: Option<&str> = match &lang_s {
            Some(x) => Some(x.as_str()),
            None => None,
        };
        let code = string_from_chars(&self.block);
        proof {
            reveal_strlit("base16-ocean.dark");
            assert("base16-ocean.dark"@ =~= code_theme());
            assert(lang_ref.deep_view() == opt_chars(&self.language));
        }
        let hl = highlight_code("base16-ocean.dark", lang_ref, code.as_str());
        let drawn = render_code_block(&self.language, &self.block, &hl);
        self.append_lines(drawn);
        self.block = Vec::new();
        self.language = None;
        proof {
            assert(self@.block =~= seq![]);
        }
        self.push_blank_line();
    }

    /// What the end of an element does, after its style is closed.
    fn end_tag(&mut self, tag: MdTagEnd)
        ensures
            final(self)@ == end_tag(old(self)@, tag),
    {
        match tag {
            MdTagEnd::CodeBlock => self.end_code_block(),
            MdTagEnd::Table => {
                self.in_table = false;
                let drawn = render_table(&self.rows, self.columns);
                self.append_lines(drawn);
                self.push_blank_line();
            },
            MdTagEnd::TableHead | MdTagEnd::TableRow => {
                if self.row.len() > 0 {
                    let mut r: Vec<Vec<Span>> = Vec::new();
                    std::mem::swap(&mut r, &mut self.row);
                    proof {
                        assert(rows_view(self.rows@.push(r)) =~= rows_view(self.rows@).push(cells_view(r@)));
                        assert(cells_view(self.row@) =~= seq![]);
                    }
                    self.rows.push(r);
                }
            },
            MdTagEnd::TableCell => {
                let mut c: Vec<Span> = Vec::new();
                std::mem::swap(&mut c, &mut self.cell);
                proof {
                    assert(cells_view(self.row@.push(c)) =~= cells_view(self.row@).push(span_views(c@)));
                    assert(span_views(self.cell@) =~= seq![]);
                }
                self.row.push(c);
            },
            MdTagEnd::Heading => {
                self.flush_line();
                self.push_blank_line();
            },
            MdTagEnd::Paragraph => {
                self.flush_line();
                self.blank_outside_lists();
            },
            MdTagEnd::Item => self.flush_line(),
            MdTagEnd::List => {
                if self.lists.len() > 0 {
                    self.lists.pop();
                }
                self.blank_outside_lists();
            },
            MdTagEnd::BlockQuote => {
                self.flush_line();
                self.blank_outside_lists();
            },
            MdTagEnd::Other => {},
        }
    }

    /// Takes one event of the document.
    pub fn handle(&mut self, ev: &MdEvent)
        ensures
            final(self)@ == step(old(self)@, ev@),
    {
        let cur = self.cur_style();
        match ev {
            MdEvent::Start(tag) => {
                self.start_tag(tag, cur);
                let ns = tag_style_of(tag, cur);
                self.styles.push(ns);
            },
            MdEvent::End(tag) => {
                self.pop_style();
                self.end_tag(*tag);
            },
            MdEvent::Text(t) => {
                if self.in_table {
                    self.push_cell_span(span_of_str(t, cur));
                } else if self.in_code_block {
                    let c = chars_of(t.as_str());
                    append_chars(&mut self.block, &c);
                } else {
                    self.push_span(span_of_str(t, cur));
                }
            },
            MdEvent::Code(t) => {
                let cs = TextStyle::plain().fg(Rgb { r: 255, g: 150, b: 200 }).bg(Rgb { r: 45, g: 40, b: 50 });
                if self.in_table {
                    self.push_cell_span(span_of_str(t, cs));
                } else {
                    self.push_span(span_of_str(t, cs));
                }
            },
            MdEvent::SoftBreak => {
                if self.in_table {
                    self.push_cell_span(make_span(&space(), cur));
                } else if !self.in_code_block {
                    self.push_span(make_span(&space(), cur));
                }
            },
            MdEvent::HardBreak => {
                if self.in_table {
                    self.push_cell_span(make_span(&space(), cur));
                } else if !self.in_code_block {
                    self.flush_line();
                }
            },
            MdEvent::Rule => {
                self.flush_line();
                let mut spans: Vec<Span> = Vec::new();
                spans.push(make_span(&repeat_char('─', 40), TextStyle::plain().fg(Rgb { r: 100, g: 100, b: 100 })));
                let l = Line { spans, style: TextStyle::plain() };
                proof {
                    assert(span_views(l.spans@) =~= seq![span_of(repeat('─', 40), with_fg(plain_style(), Rgb { r: 100, g: 100, b: 100 }))]);
                    assert(line_views(self.lines@.push(l)) =~= line_views(self.lines@).push(l@));
                }
                self.lines.push(l);
                self.push_blank_line();
            },
            MdEvent::Other => {},
        }
    }

    /// Ends the document and gives its lines.
    pub fn finish(self) -> (r: Vec<Line>)
        ensures
            line_views(r@) == flush_line(self@).lines,
    {
        let mut me = self;
        me.flush_line();
        me.lines
    }
}

/// Draws a document given as its events: each event in turn, then the last line.
pub fn render_events(events: &Vec<MdEvent>) -> (r: Vec<Line>)
    ensures
        line_views(r@) == render_lines(event_views(events@)),
        blanks_separated(line_views(r@)),
{
    proof {
        lemma_blank_lines_separated(event_views(events@));
    }
    let ghost ev = event_views(events@);
    let mut rd = Renderer::new();
    let n = events.len();
    let mut k: usize = 0;
    while k < n
        invariant
            k <= n == events@.len(),
            ev == event_views(events@),
            rd@ == run(initial_state(), ev.take(k as int)),
        decreases n - k,
    {
        proof {
            assert(ev.take(k + 1).drop_last() == ev.take(k as int));
        }
        rd.handle(&events[k]);
        k = k + 1;
    }
    proof {
        assert(ev.take(n as int) == ev);
    }
    rd.finish()
}

/// Turns a Markdown document into styled lines for the terminal: headings, emphasis,
/// lists, block quotes, rules, tables, and code blocks in highlighted boxes.
pub fn parse_to_lines(input: &str) -> (r: Vec<Line>)
    ensures
        line_views(r@) == render_lines(commonmark_events(input@)),
        blanks_separated(line_views(r@)),
{
    let events = markdown_events(input);
    render_events(&events)
}

} // verus!
