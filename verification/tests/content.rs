use lesson_viewer::content::{extract_title, make_lesson, summary_links};
use lesson_viewer::markdown::parse_to_lines;

#[test]
fn title_from_first_heading_line() {
    assert_eq!(extract_title("intro\n# The Title  \nmore"), Some("The Title".to_string()));
    assert_eq!(extract_title("#  Spaced\t\r\n"), Some("Spaced".to_string()));
}

#[test]
fn second_level_heading_is_no_title() {
    assert_eq!(extract_title("## Sub\nno title here"), None);
    assert_eq!(extract_title("#NoSpace"), None);
    assert_eq!(extract_title(""), None);
}

#[test]
fn title_may_be_empty() {
    assert_eq!(extract_title("#   \nx"), Some(String::new()));
}

#[test]
fn summary_links_in_order() {
    let summary = "# Summary\n\n- [Intro](intro.md)\n- [Next](ch1/next.md)\r\n- [Web](http://x.org)\n- [Img](pic.png)\n  [Bad](no_close.md\n";
    assert_eq!(summary_links(summary), vec!["intro.md".to_string(), "ch1/next.md".to_string()]);
}

#[test]
fn summary_link_takes_first_target_on_a_line() {
    assert_eq!(summary_links("[a](one.md) [b](two.md)"), vec!["one.md".to_string()]);
    assert_eq!(summary_links("no links"), Vec::<String>::new());
    assert_eq!(summary_links("[x]().md)"), Vec::<String>::new());
}

#[test]
fn make_lesson_uses_title_or_stem() {
    let l = make_lesson("book/a.md".to_string(), "a".to_string(), "# Alpha\ntext".to_string());
    assert_eq!(l.path, "book/a.md");
    assert_eq!(l.title, "Alpha");
    assert_eq!(l.content, "# Alpha\ntext");
    assert_eq!(l.text_lines, parse_to_lines("# Alpha\ntext"));
    let l = make_lesson("book/b.md".to_string(), "b".to_string(), "plain".to_string());
    assert_eq!(l.title, "b");
}
