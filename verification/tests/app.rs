use lesson_viewer::app::{App, Key, Mode};
use lesson_viewer::models::{Lesson, Progress};
use lesson_viewer::style::{Line, TextStyle};

fn plain() -> TextStyle {
    TextStyle { fg: None, bg: None, bold: false, italic: false, underlined: false, crossed_out: false }
}

fn lesson(path: &str, n_lines: usize) -> Lesson {
    Lesson {
        path: path.to_string(),
        title: path.to_string(),
        content: String::new(),
        text_lines: (0..n_lines).map(|_| Line { spans: vec![], style: plain() }).collect(),
    }
}

fn progress(done: &[&str], last: usize) -> Progress {
    Progress { completed_files: done.iter().map(|s| s.to_string()).collect(), last_index: last }
}

fn app3() -> App {
    App::new(vec![lesson("a.md", 100), lesson("b.md", 10), lesson("c.md", 50)], Progress::default())
}

#[test]
fn new_starts_at_the_lesson_opened_last() {
    let app = App::new(vec![lesson("a.md", 100), lesson("b.md", 100)], progress(&[], 1));
    assert!(app.running);
    assert_eq!(app.mode, Mode::List);
    assert_eq!(app.selected_lesson_index, 1);
    assert_eq!(app.scroll_offset, 0);
}

#[test]
fn new_clamps_the_start_to_the_last_lesson() {
    let app = App::new(vec![lesson("a.md", 100), lesson("b.md", 100)], progress(&[], 7));
    assert_eq!(app.selected_lesson_index, 1);
    let empty = App::new(vec![], progress(&[], 7));
    assert_eq!(empty.selected_lesson_index, 0);
}

#[test]
fn mode_defaults_to_list() {
    assert_eq!(Mode::default(), Mode::List);
}

#[test]
fn progress_default_is_empty() {
    let p = Progress::default();
    assert!(p.completed_files.is_empty());
    assert_eq!(p.last_index, 0);
}

#[test]
fn next_moves_and_resets_scroll_and_completes_short_lessons() {
    let mut app = app3();
    app.scroll_offset = 5;
    app.next();
    assert_eq!(app.selected_lesson_index, 1);
    assert_eq!(app.scroll_offset, 0);
    // b.md has fewer than thirty lines
    assert_eq!(app.progress.completed_files, vec!["b.md".to_string()]);
    app.next();
    assert_eq!(app.selected_lesson_index, 2);
    assert_eq!(app.progress.completed_files, vec!["b.md".to_string()]);
    app.next();
    assert_eq!(app.selected_lesson_index, 2);
}

#[test]
fn previous_stops_at_the_first_lesson() {
    let mut app = app3();
    app.previous();
    assert_eq!(app.selected_lesson_index, 0);
    app.next();
    app.next();
    app.previous();
    assert_eq!(app.selected_lesson_index, 1);
}

#[test]
fn next_then_previous_returns() {
    let mut app = app3();
    app.next();
    app.previous();
    assert_eq!(app.selected_lesson_index, 0);
    assert_eq!(app.scroll_offset, 0);
}

#[test]
fn moving_in_an_empty_reader_does_nothing() {
    let mut app = App::new(vec![], Progress::default());
    app.next();
    app.previous();
    app.mark_completed();
    assert_eq!(app.selected_lesson_index, 0);
    assert!(app.progress.completed_files.is_empty());
}

#[test]
fn toggle_mode_switches_panes_and_back() {
    let mut app = app3();
    app.toggle_mode();
    assert_eq!(app.mode, Mode::Content);
    app.toggle_mode();
    assert_eq!(app.mode, Mode::List);
}

#[test]
fn scrolling_only_in_the_text_pane() {
    let mut app = app3();
    app.scroll_down();
    assert_eq!(app.scroll_offset, 0);
    app.toggle_mode();
    app.scroll_down();
    app.scroll_down();
    assert_eq!(app.scroll_offset, 2);
    app.scroll_up();
    assert_eq!(app.scroll_offset, 1);
    app.scroll_up();
    app.scroll_up();
    assert_eq!(app.scroll_offset, 0);
}

#[test]
fn scroll_down_then_up_returns() {
    let mut app = app3();
    app.toggle_mode();
    app.scroll_offset = 7;
    app.scroll_down();
    app.scroll_up();
    assert_eq!(app.scroll_offset, 7);
}

#[test]
fn scroll_offset_saturates() {
    let mut app = app3();
    app.toggle_mode();
    app.scroll_offset = u16::MAX;
    app.scroll_down();
    assert_eq!(app.scroll_offset, u16::MAX);
}

#[test]
fn reaching_the_end_marks_completed() {
    let mut app = app3();
    app.toggle_mode();
    // a.md has 100 lines: completed once the offset plus twenty reaches them
    app.scroll_offset = 78;
    app.scroll_down();
    assert!(app.progress.completed_files.is_empty());
    app.scroll_down();
    assert_eq!(app.scroll_offset, 80);
    assert_eq!(app.progress.completed_files, vec!["a.md".to_string()]);
}

#[test]
fn mark_completed_once() {
    let mut app = app3();
    app.mark_completed();
    app.mark_completed();
    assert_eq!(app.progress.completed_files, vec!["a.md".to_string()]);
    assert!(app.progress.is_completed(&"a.md".to_string()));
    assert!(!app.progress.is_completed(&"c.md".to_string()));
}

#[test]
fn quit_remembers_the_open_lesson() {
    let mut app = app3();
    app.next();
    app.next();
    app.quit();
    assert!(!app.running);
    assert_eq!(app.progress.last_index, 2);
    let again = App::new(app.lessons.clone(), app.progress.clone());
    assert_eq!(again.selected_lesson_index, 2);
}

#[test]
fn keys_drive_the_reader() {
    let mut app = app3();
    assert!(!app.handle_key(Key::Down));
    assert_eq!(app.selected_lesson_index, 1);
    assert!(!app.handle_key(Key::Char('k')));
    assert_eq!(app.selected_lesson_index, 0);
    assert!(!app.handle_key(Key::Enter));
    assert_eq!(app.mode, Mode::Content);
    assert!(!app.handle_key(Key::Char('j')));
    assert_eq!(app.scroll_offset, 1);
    assert!(!app.handle_key(Key::Up));
    assert_eq!(app.scroll_offset, 0);
    assert!(!app.handle_key(Key::Tab));
    assert_eq!(app.mode, Mode::List);
    assert_eq!(app.selected_lesson_index, 1);
    assert!(!app.handle_key(Key::BackTab));
    assert_eq!(app.selected_lesson_index, 0);
    assert!(!app.handle_key(Key::Char(' ')));
    assert_eq!(app.mode, Mode::Content);
    assert!(!app.handle_key(Key::Char('c')));
    assert!(app.progress.is_completed(&"a.md".to_string()));
    assert!(!app.handle_key(Key::Other));
    assert!(!app.handle_key(Key::Char('x')));
    assert!(app.running);
    assert!(app.handle_key(Key::Char('q')));
    assert!(!app.running);
    let mut app = app3();
    assert!(app.handle_key(Key::Esc));
    assert!(!app.running);
}

#[test]
fn completed_list_never_shrinks() {
    let mut app = App::new(vec![lesson("a.md", 100), lesson("b.md", 100)], progress(&["z.md"], 0));
    let keys = [Key::Char('c'), Key::Down, Key::Char('c'), Key::Up, Key::Enter, Key::Down, Key::Char('q')];
    let mut before = app.progress.completed_files.clone();
    for k in keys {
        app.handle_key(k);
        assert!(app.progress.completed_files.starts_with(&before));
        before = app.progress.completed_files.clone();
    }
    assert_eq!(before, vec!["z.md".to_string(), "a.md".to_string(), "b.md".to_string()]);
}
