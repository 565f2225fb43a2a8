use lesson_viewer::code_block::render_code_block;
use lesson_viewer::events::{MdEvent, MdTag, MdTagEnd};
use lesson_viewer::highlight::HlPiece;
use lesson_viewer::markdown::{parse_to_lines, render_events};
use lesson_viewer::style::{Line, Rgb, Span, TextStyle};
use lesson_viewer::table::render_table;

fn rgb(r: u8, g: u8, b: u8) -> Rgb {
    Rgb { r, g, b }
}

fn plain() -> TextStyle {
    TextStyle { fg: None, bg: None, bold: false, italic: false, underlined: false, crossed_out: false }
}

fn fg(c: Rgb) -> TextStyle {
    TextStyle { fg: Some(c), ..plain() }
}

fn base() -> TextStyle {
    fg(rgb(235, 240, 245))
}

fn span(s: &str, style: TextStyle) -> Span {
    Span { content: s.to_string(), style }
}

fn line(spans: Vec<Span>) -> Line {
    Line { spans, style: plain() }
}

fn blank() -> Line {
    line(vec![])
}

fn text_of(l: &Line) -> String {
    l.spans.iter().map(|s| s.content.clone()).collect()
}

fn width(l: &Line) -> usize {
    text_of(l).chars().count()
}

#[test]
fn heading_gets_marker_colour_and_blank_line() {
    let lines = parse_to_lines("# Hello");
    let color = rgb(255, 110, 150);
    let marker = TextStyle { bold: true, ..fg(color) };
    let text = TextStyle { bold: true, underlined: true, ..fg(color) };
    assert_eq!(lines, vec![line(vec![span("# ", marker), span("Hello", text)]), blank()]);
}

#[test]
fn second_level_heading_is_not_underlined() {
    let lines = parse_to_lines("## Two");
    let color = rgb(110, 255, 150);
    assert_eq!(lines[0].spans[0], span("## ", TextStyle { bold: true, ..fg(color) }));
    assert_eq!(lines[0].spans[1], span("Two", TextStyle { bold: true, ..fg(color) }));
}

#[test]
fn paragraph_with_emphasis_and_strong() {
    let lines = parse_to_lines("Hello *world* and **bold**");
    let em = TextStyle { italic: true, ..fg(rgb(200, 180, 255)) };
    let strong = TextStyle { bold: true, ..fg(rgb(255, 215, 0)) };
    assert_eq!(
        lines,
        vec![
            line(vec![span("Hello ", base()), span("world", em), span(" and ", base()), span("bold", strong)]),
            blank(),
        ]
    );
}

#[test]
fn inline_code_has_its_own_colours() {
    let lines = parse_to_lines("use `x` here");
    let code = TextStyle { bg: Some(rgb(45, 40, 50)), ..fg(rgb(255, 150, 200)) };
    assert_eq!(lines[0].spans[1], span("x", code));
}

#[test]
fn bullet_list_items_get_bullets() {
    let lines = parse_to_lines("- a\n- b\n");
    let bullet = TextStyle { bold: true, ..fg(rgb(255, 150, 100)) };
    assert_eq!(
        lines,
        vec![
            line(vec![span("• ", bullet), span("a", base())]),
            line(vec![span("• ", bullet), span("b", base())]),
            blank(),
        ]
    );
}

#[test]
fn ordered_list_items_are_numbered_from_the_start() {
    let lines = parse_to_lines("3. a\n4. b\n");
    assert_eq!(text_of(&lines[0]), "3 a");
    assert_eq!(text_of(&lines[1]), "4 b");
}

#[test]
fn nested_list_item_is_indented_and_joins_its_parent_line() {
    // the parent item is not ended before the nested list starts, so its line goes on
    let lines = parse_to_lines("- a\n  - b\n");
    assert_eq!(text_of(&lines[0]), "• a  • b");
    assert_eq!(lines[0].spans[2].content, "  • ");
}

#[test]
fn block_quote_gets_a_bar() {
    let lines = parse_to_lines("> quoted");
    let bar = fg(rgb(100, 250, 150));
    let quoted = TextStyle { italic: true, ..fg(rgb(180, 190, 200)) };
    assert_eq!(lines, vec![line(vec![span("▍ ", bar), span("quoted", quoted)]), blank()]);
}

#[test]
fn rule_is_forty_dashes() {
    let lines = parse_to_lines("a\n\n---\n\nb");
    assert_eq!(lines[2], line(vec![span(&"─".repeat(40), fg(rgb(100, 100, 100)))]));
    assert_eq!(lines[3], blank());
}

#[test]
fn link_and_image_styles() {
    let lines = parse_to_lines("[site](http://x) ![pic](p.png)");
    let link = TextStyle { underlined: true, ..fg(rgb(80, 180, 255)) };
    assert_eq!(lines[0].spans[0], span("site", link));
    assert_eq!(lines[0].spans[2], span("🖼  ", plain()));
    let img = TextStyle { italic: true, ..fg(rgb(255, 150, 255)) };
    assert_eq!(lines[0].spans[3], span("pic", img));
}

#[test]
fn soft_break_becomes_a_space_and_hard_break_a_new_line() {
    let lines = parse_to_lines("one\ntwo");
    assert_eq!(text_of(&lines[0]), "one two");
    let lines = parse_to_lines("one  \ntwo");
    assert_eq!(text_of(&lines[0]), "one");
    assert_eq!(text_of(&lines[1]), "two");
}

#[test]
fn empty_document_has_no_lines() {
    assert!(parse_to_lines("").is_empty());
}

#[test]
fn no_two_blank_lines_in_a_row() {
    let doc = "# T\n\npara\n\n- x\n\n> q\n\n---\n\n```\ncode\n```\n\n## U\n";
    let lines = parse_to_lines(doc);
    assert!(!lines.is_empty());
    assert!(!lines[0].spans.is_empty());
    for w in lines.windows(2) {
        assert!(!(w[0].spans.is_empty() && w[1].spans.is_empty()));
    }
}

#[test]
fn fenced_code_block_is_boxed_and_highlighted() {
    let lines = parse_to_lines("```rust\nfn main() {}\n```\n");
    assert_eq!(lines.len(), 4);
    assert_eq!(text_of(&lines[0]), "╭── rust ───────╮");
    let row = text_of(&lines[1]);
    assert_eq!(row, format!("│ fn main() {{}}{}│", "\u{a0}".repeat(2)));
    assert_eq!(text_of(&lines[2]), format!("╰{}╯", "─".repeat(15)));
    assert_eq!(lines[3], blank());
    // the code is split into highlighted pieces in colour on the code background
    assert!(lines[1].spans.len() > 4);
    for s in &lines[1].spans {
        assert_eq!(s.style.bg, Some(rgb(20, 22, 28)));
    }
    assert_eq!(lines[1].style, TextStyle { bg: Some(rgb(20, 22, 28)), ..plain() });
    for l in &lines[0..3] {
        assert_eq!(width(l), 17);
    }
}

#[test]
fn indented_code_block_has_plain_top() {
    let lines = parse_to_lines("    let x = 1;\n");
    assert_eq!(text_of(&lines[0]), format!("╭───{}╮", "─".repeat(10)));
    assert_eq!(width(&lines[0]), 15);
}

#[test]
fn code_block_language_is_cut_at_comma_and_trimmed() {
    let lines = parse_to_lines("```  py , ignore\nx\n```\n");
    assert_eq!(text_of(&lines[0]), "╭── py ──╮");
}

#[test]
fn code_block_with_given_highlighting() {
    let piece = HlPiece { r: 100, g: 200, b: 10, font_style: 1 | 4, text: "a\tb\n".to_string() };
    let lines = render_code_block(&None, &['a', '\t', 'b', '\n'], &[vec![piece]]);
    let border = TextStyle { bg: Some(rgb(20, 22, 28)), ..fg(rgb(100, 120, 150)) };
    let bg = TextStyle { bg: Some(rgb(20, 22, 28)), ..plain() };
    let code = TextStyle {
        fg: Some(rgb(150, 255, 15)),
        bg: Some(rgb(20, 22, 28)),
        bold: true,
        italic: true,
        underlined: false,
        crossed_out: false,
    };
    assert_eq!(lines.len(), 3);
    assert_eq!(
        lines[1],
        Line {
            spans: vec![
                span("│ ", border),
                span("a    b", code),
                span(&"\u{a0}".repeat(2), bg),
                span("│", border),
            ],
            style: bg,
        }
    );
    assert_eq!(lines[0], Line { spans: vec![span(&format!("╭───{}╮", "─".repeat(6)), border)], style: bg });
}

#[test]
fn highlighting_splits_code_into_coloured_pieces() {
    let lines = parse_to_lines("```rust\nfn main() {}\nlet x = 1;\n```\n");
    assert_eq!(lines.len(), 5);
    let rows = &lines[1..3];
    for row in rows {
        // border, several pieces of code, padding, border
        assert!(row.spans.len() > 4);
    }
    let colours: Vec<_> = rows[0].spans[1..rows[0].spans.len() - 2].iter().map(|s| s.style.fg).collect();
    assert!(colours.iter().any(|c| *c != colours[0]));
    assert_eq!(text_of(&rows[1]), format!("│ let x = 1;{}│", "\u{a0}".repeat(4)));
}

#[test]
fn parsed_heading_draws_like_its_events() {
    let ev = vec![MdEvent::Start(MdTag::Heading(1)), MdEvent::Text("Hi".to_string()), MdEvent::End(MdTagEnd::Heading)];
    assert_eq!(parse_to_lines("# Hi"), render_events(&ev));
}

#[test]
fn table_events_render_a_grid() {
    let ev = vec![
        MdEvent::Start(MdTag::Table(2)),
        MdEvent::Start(MdTag::TableHead),
        MdEvent::Start(MdTag::TableCell),
        MdEvent::Text("a".to_string()),
        MdEvent::End(MdTagEnd::TableCell),
        MdEvent::Start(MdTag::TableCell),
        MdEvent::Text("bb".to_string()),
        MdEvent::End(MdTagEnd::TableCell),
        MdEvent::End(MdTagEnd::TableHead),
        MdEvent::Start(MdTag::TableRow),
        MdEvent::Start(MdTag::TableCell),
        MdEvent::Text("ccc".to_string()),
        MdEvent::End(MdTagEnd::TableCell),
        MdEvent::End(MdTagEnd::TableRow),
        MdEvent::End(MdTagEnd::Table),
    ];
    let lines = render_events(&ev);
    let texts: Vec<String> = lines.iter().map(text_of).collect();
    let nb = "\u{a0}";
    assert_eq!(
        texts,
        vec![
            "╭─────┬────╮".to_string(),
            format!("│{nb}a{nb}{nb}{nb}│{nb}bb{nb}│"),
            "├─────┼────┤".to_string(),
            format!("│{nb}ccc{nb}│{nb}{nb}{nb}{nb}│"),
            "╰─────┴────╯".to_string(),
            String::new(),
        ]
    );
    for l in &lines[0..5] {
        assert_eq!(width(l), 12);
    }
    // header cells are bold gold on the header background
    let head = &lines[1].spans[2];
    assert_eq!(head.content, "a");
    assert_eq!(head.style, TextStyle { bg: Some(rgb(35, 40, 50)), bold: true, ..fg(rgb(255, 215, 0)) });
}

#[test]
fn render_table_without_rows_draws_two_rules() {
    let lines = render_table(&vec![], 1);
    let texts: Vec<String> = lines.iter().map(text_of).collect();
    assert_eq!(texts, vec!["╭──╮".to_string(), "╰──╯".to_string()]);
}
