use vstd::prelude::*;

use crate::models::{path_views, Lesson, Progress, ProgressView};

verus! {

/// Which pane has the keyboard: the list of lessons or the text of the open lesson.
#[derive(Debug, Clone, Copy, PartialEq, Eq, Structural)]
pub enum Mode {
    List,
    Content,
}

impl Default for Mode {
    /// The list pane.
    fn default() -> (m: Mode)
        ensures
            m == Mode::List,
    {
        Mode::List
    }
}

/// A key press, as far as the reader tells keys apart.
#[derive(Debug, Clone, Copy, PartialEq, Eq, Structural)]
pub enum Key {
    Char(char),
    Esc,
    Tab,
    BackTab,
    Up,
    Down,
    Enter,
    Other,
}

/// The state of the lesson reader.
pub struct App {
    /// Is the application running?
    pub running: bool,
    pub mode: Mode,
    pub lessons: Vec<Lesson>,
    pub selected_lesson_index: usize,
    pub progress: Progress,
    pub scroll_offset: u16,
}

/// The mathematical value of an [`App`].
pub struct AppView {
    pub running: bool,
    pub mode: Mode,
    pub lessons: Seq<Lesson>,
    pub selected: nat,
    pub progress: ProgressView,
    pub scroll: nat,
}

impl View for App {
    type V = AppView;

    open spec fn view(&self) -> AppView {
        AppView {
            running: self.running,
            mode: self.mode,
            lessons: self.lessons@,
            selected: self.selected_lesson_index as nat,
            progress: self.progress@,
            scroll: self.scroll_offset as nat,
        }
    }
}

/// The number of scroll positions from which the end of a lesson counts as read.
pub open spec fn read_margin() -> nat {
    20
}

/// Lessons shorter than this many lines count as read once opened.
pub open spec fn short_lesson() -> nat {
    30
}

/// The selected lesson is one of the lessons, or there is no lesson and it is the first.
pub open spec fn selection_valid(a: AppView) -> bool {
    if a.lessons.len() == 0 {
        a.selected == 0
    } else {
        a.selected < a.lessons.len()
    }
}

/// When there are lessons, the selected one is one of them (what marking one completed
/// needs).
pub open spec fn selection_in_range(a: AppView) -> bool {
    a.lessons.len() > 0 ==> a.selected < a.lessons.len()
}

/// The reader at start-up, with the lessons and the progress loaded: the selection is the
/// lesson open last, or the last lesson if there are fewer now.
pub open spec fn start_state(lessons: Seq<Lesson>, progress: ProgressView) -> AppView {
    let last: nat = if lessons.len() > 0 { (lessons.len() - 1) as nat } else { 0 };
    AppView {
        running: true,
        mode: Mode::List,
        lessons,
        selected: if progress.last_index < last { progress.last_index } else { last },
        progress,
        scroll: 0,
    }
}

/// The state after quitting: stopped, with the open lesson remembered.
pub open spec fn quit_state(a: AppView) -> AppView {
    AppView {
        running: false,
        progress: ProgressView { last_index: a.selected, ..a.progress },
        ..a
    }
}

/// The state after marking the open lesson completed (nothing when there is no lesson or it
/// is already completed).
pub open spec fn mark_state(a: AppView) -> AppView {
    if a.lessons.len() == 0 {
        a
    } else {
        let p = a.lessons[a.selected as int].path@;
        if a.progress.completed.contains(p) {
            a
        } else {
            AppView { progress: ProgressView { completed: a.progress.completed.push(p), ..a.progress }, ..a }
        }
    }
}

/// The state after opening a lesson: a lesson shorter than [`short_lesson`] lines counts as
/// read.
pub open spec fn auto_complete_state(a: AppView) -> AppView {
    if a.selected < a.lessons.len() && a.lessons[a.selected as int].text_lines@.len() < short_lesson() {
        mark_state(a)
    } else {
        a
    }
}

/// The state after moving to the next lesson.
pub open spec fn next_state(a: AppView) -> AppView {
    if a.lessons.len() > 0 && a.selected < a.lessons.len() - 1 {
        auto_complete_state(AppView { selected: a.selected + 1, scroll: 0, ..a })
    } else {
        a
    }
}

/// The state after moving to the previous lesson.
pub open spec fn previous_state(a: AppView) -> AppView {
    if a.lessons.len() > 0 && a.selected > 0 {
        auto_complete_state(AppView { selected: (a.selected - 1) as nat, scroll: 0, ..a })
    } else {
        a
    }
}

/// The state after switching panes.
pub open spec fn toggle_state(a: AppView) -> AppView {
    AppView {
        mode: match a.mode {
            Mode::List => Mode::Content,
            Mode::Content => Mode::List,
        },
        ..a
    }
}

/// The state after scrolling down the text: one line further (at most `u16::MAX`); reaching
/// the last [`read_margin`] lines marks the lesson completed.
pub open spec fn scroll_down_state(a: AppView) -> AppView {
    if a.mode == Mode::Content {
        let s: nat = if a.scroll < u16::MAX { a.scroll + 1 } else { a.scroll };
        let b = AppView { scroll: s, ..a };
        if b.selected < b.lessons.len() && s + read_margin() >= b.lessons[b.selected as int].text_lines@.len() {
            mark_state(b)
        } else {
            b
        }
    } else {
        a
    }
}

/// The state after scrolling up the text: one line back, not above the top.
pub open spec fn scroll_up_state(a: AppView) -> AppView {
    if a.mode == Mode::Content {
        AppView { scroll: if a.scroll > 0 { (a.scroll - 1) as nat } else { 0 }, ..a }
    } else {
        a
    }
}

/// The state after a key press.
pub open spec fn key_state(a: AppView, key: Key) -> AppView {
    match key {
        Key::Char('q') | Key::Esc => quit_state(a),
        Key::Tab => next_state(AppView { mode: Mode::List, ..a }),
        Key::BackTab => previous_state(AppView { mode: Mode::List, ..a }),
        Key::Up | Key::Char('k') => if a.mode == Mode::List {
            previous_state(a)
        } else {
            scroll_up_state(a)
        },
        Key::Down | Key::Char('j') => if a.mode == Mode::List {
            next_state(a)
        } else {
            scroll_down_state(a)
        },
        Key::Enter | Key::Char(' ') => toggle_state(a),
        Key::Char('c') => mark_state(a),
        _ => a,
    }
}

/// Whether a key press asks to quit.
pub open spec fn is_quit_key(key: Key) -> bool {
    key == Key::Char('q') || key == Key::Esc
}


/// Whether `s` is the start of `t`.
pub open spec fn starts_seq(s: Seq<Seq<char>>, t: Seq<Seq<char>>) -> bool {
    s.len() <= t.len() && t.take(s.len() as int) == s
}

/// Whether no path occurs twice in `s`.
pub open spec fn no_repeats(s: Seq<Seq<char>>) -> bool {
    forall|i: int, j: int| 0 <= i < j < s.len() ==> s[i] != s[j]
}

/// Marking a lesson completed keeps every completed lesson, in order, adding at most the
/// open one at the end.
proof fn lemma_mark_extends(a: AppView)
    ensures
        starts_seq(a.progress.completed, mark_state(a).progress.completed),
        mark_state(a).lessons == a.lessons,
        mark_state(a).selected == a.selected,
        mark_state(a).mode == a.mode,
        mark_state(a).scroll == a.scroll,
        mark_state(a).running == a.running,
        mark_state(a).progress.last_index == a.progress.last_index,
        no_repeats(a.progress.completed) ==> no_repeats(mark_state(a).progress.completed),
{
    let c = a.progress.completed;
    assert(c.take(c.len() as int) =~= c);
    if a.lessons.len() > 0 {
        let p = a.lessons[a.selected as int].path@;
        if !c.contains(p) {
            assert(c.push(p).take(c.len() as int) =~= c);
            if no_repeats(c) {
                assert forall|i: int, j: int| 0 <= i < j < c.push(p).len() implies c.push(p)[i]
                    != c.push(p)[j] by {
                    if j == c.len() {
                        assert(c[i] == c.push(p)[i]);
                    }
                }
            }
        }
    }
}

proof fn lemma_auto_extends(a: AppView)
    ensures
        starts_seq(a.progress.completed, auto_complete_state(a).progress.completed),
        auto_complete_state(a).selected == a.selected,
        auto_complete_state(a).lessons == a.lessons,
        no_repeats(a.progress.completed) ==> no_repeats(auto_complete_state(a).progress.completed),
{
    lemma_mark_extends(a);
    let c = a.progress.completed;
    assert(c.take(c.len() as int) =~= c);
}

/// No key press ever takes a lesson off the completed list, or changes the order of those on
/// it; nor does it put a lesson on it twice.
pub proof fn lemma_completed_only_grows(a: AppView, key: Key)
    ensures
        starts_seq(a.progress.completed, key_state(a, key).progress.completed),
        no_repeats(a.progress.completed) ==> no_repeats(key_state(a, key).progress.completed),
{
    let c = a.progress.completed;
    assert(c.take(c.len() as int) =~= c);
    lemma_mark_extends(a);
    lemma_auto_extends(AppView { selected: a.selected + 1, scroll: 0, ..a });
    lemma_auto_extends(AppView { selected: a.selected + 1, scroll: 0, mode: Mode::List, ..a });
    if a.selected > 0 {
        lemma_auto_extends(AppView { selected: (a.selected - 1) as nat, scroll: 0, ..a });
        lemma_auto_extends(AppView { selected: (a.selected - 1) as nat, scroll: 0, mode: Mode::List, ..a });
    }
    let s: nat = if a.scroll < u16::MAX { a.scroll + 1 } else { a.scroll };
    lemma_mark_extends(AppView { scroll: s, ..a });
}

/// Every key press keeps the selection on one of the lessons.
pub proof fn lemma_selection_stays_valid(a: AppView, key: Key)
    requires
        selection_valid(a),
    ensures
        selection_valid(key_state(a, key)),
{
    lemma_mark_extends(a);
    lemma_auto_extends(AppView { selected: a.selected + 1, scroll: 0, ..a });
    lemma_auto_extends(AppView { selected: a.selected + 1, scroll: 0, mode: Mode::List, ..a });
    if a.selected > 0 {
        lemma_auto_extends(AppView { selected: (a.selected - 1) as nat, scroll: 0, ..a });
        lemma_auto_extends(AppView { selected: (a.selected - 1) as nat, scroll: 0, mode: Mode::List, ..a });
    }
    let s: nat = if a.scroll < u16::MAX { a.scroll + 1 } else { a.scroll };
    lemma_mark_extends(AppView { scroll: s, ..a });
}

/// Switching panes twice changes nothing.
pub proof fn lemma_toggle_twice(a: AppView)
    ensures
        toggle_state(toggle_state(a)) == a,
{
}

/// Moving to the next lesson and back returns to the lesson one started from, at its top.
pub proof fn lemma_next_then_previous(a: AppView)
    requires
        selection_valid(a),
        a.selected + 1 < a.lessons.len(),
    ensures
        previous_state(next_state(a)).selected == a.selected,
        previous_state(next_state(a)).scroll == 0,
{
    lemma_auto_extends(AppView { selected: a.selected + 1, scroll: 0, ..a });
    let b = next_state(a);
    lemma_auto_extends(AppView { selected: (b.selected - 1) as nat, scroll: 0, ..b });
}

/// Marking the open lesson completed twice is the same as once, and afterwards it is on the
/// completed list.
pub proof fn lemma_mark_completed_idempotent(a: AppView)
    requires
        selection_in_range(a),
    ensures
        mark_state(mark_state(a)) == mark_state(a),
        a.lessons.len() > 0 ==> mark_state(a).progress.completed.contains(
            a.lessons[a.selected as int].path@,
        ),
{
    if a.lessons.len() > 0 {
        let p = a.lessons[a.selected as int].path@;
        let c = a.progress.completed;
        if !c.contains(p) {
            assert(c.push(p)[c.len() as int] == p);
        }
    }
}

/// In the text pane, scrolling down a line and back up returns to the same place.
pub proof fn lemma_scroll_down_then_up(a: AppView)
    requires
        a.mode == Mode::Content,
        a.scroll < u16::MAX,
    ensures
        scroll_up_state(scroll_down_state(a)).scroll == a.scroll,
{
    let b = AppView { scroll: a.scroll + 1, ..a };
    lemma_mark_extends(b);
}

/// Quitting remembers the open lesson so that the next start opens it again.
pub proof fn lemma_quit_then_start_resumes(a: AppView)
    requires
        selection_valid(a),
    ensures
        start_state(quit_state(a).lessons, quit_state(a).progress).selected == a.selected,
        start_state(quit_state(a).lessons, quit_state(a).progress).progress.completed
            == a.progress.completed,
{
}


/// Moving to the previous lesson selects the lesson before, at its top, leaves the pane and
/// the lessons as they were, and a lesson of fewer than thirty lines so opened is then on
/// the completed list; nothing already completed leaves it.
pub proof fn lemma_previous_opens_and_reads_short(a: AppView)
    requires
        0 < a.selected < a.lessons.len(),
    ensures
        ({
            let b = previous_state(a);
            let opened = a.lessons[a.selected - 1];
            &&& b.selected == a.selected - 1
            &&& b.scroll == 0
            &&& b.mode == a.mode
            &&& b.lessons == a.lessons
            &&& opened.text_lines@.len() < 30 ==> b.progress.completed.contains(opened.path@)
            &&& forall|p: Seq<char>| a.progress.completed.contains(p) ==> #[trigger] b.progress.completed.contains(p)
            &&& opened.text_lines@.len() >= 30 ==> b.progress == a.progress
            &&& b.progress.completed.len() <= a.progress.completed.len() + 1
            &&& b.progress.last_index == a.progress.last_index
            &&& b.running == a.running
        }),
{
    let c = AppView { selected: (a.selected - 1) as nat, scroll: 0, ..a };
    lemma_auto_extends(c);
    lemma_mark_completed_idempotent(c);
    lemma_starts_keeps(a.progress.completed, previous_state(a).progress.completed);
}

/// Moving to the next lesson selects the lesson after, at its top, leaves the pane and the
/// lessons as they were, and a lesson of fewer than thirty lines so opened is then on the
/// completed list; nothing already completed leaves it.
pub proof fn lemma_next_opens_and_reads_short(a: AppView)
    requires
        a.selected + 1 < a.lessons.len(),
    ensures
        ({
            let b = next_state(a);
            let opened = a.lessons[(a.selected + 1) as int];
            &&& b.selected == a.selected + 1
            &&& b.scroll == 0
            &&& b.mode == a.mode
            &&& b.lessons == a.lessons
            &&& opened.text_lines@.len() < 30 ==> b.progress.completed.contains(opened.path@)
            &&& forall|p: Seq<char>| a.progress.completed.contains(p) ==> #[trigger] b.progress.completed.contains(p)
            &&& opened.text_lines@.len() >= 30 ==> b.progress == a.progress
            &&& b.progress.completed.len() <= a.progress.completed.len() + 1
            &&& b.progress.last_index == a.progress.last_index
            &&& b.running == a.running
        }),
{
    let c = AppView { selected: a.selected + 1, scroll: 0, ..a };
    lemma_auto_extends(c);
    lemma_mark_completed_idempotent(c);
    lemma_starts_keeps(a.progress.completed, next_state(a).progress.completed);
}

proof fn lemma_starts_keeps(s: Seq<Seq<char>>, t: Seq<Seq<char>>)
    requires
        starts_seq(s, t),
    ensures
        forall|p: Seq<char>| s.contains(p) ==> #[trigger] t.contains(p),
{
    assert forall|p: Seq<char>| s.contains(p) implies #[trigger] t.contains(p) by {
        let i = choose|i: int| 0 <= i < s.len() && s[i] == p;
        assert(t.take(s.len() as int)[i] == t[i]);
    }
}

/// The arrow keys and the letter keys are the same commands: Up is `k`, Down is `j`, Esc is
/// `q`, Enter is Space, in either pane.
pub proof fn lemma_key_synonyms(a: AppView)
    ensures
        key_state(a, Key::Up) == key_state(a, Key::Char('k')),
        key_state(a, Key::Down) == key_state(a, Key::Char('j')),
        key_state(a, Key::Esc) == key_state(a, Key::Char('q')),
        key_state(a, Key::Enter) == key_state(a, Key::Char(' ')),
{
}

/// In the list pane, Up selects the lesson before the selected one (when there is one) and
/// Down the lesson after it; in the text pane they move the text a line, keeping the
/// selection.
pub proof fn lemma_arrows_move(a: AppView)
    requires
        a.selected < a.lessons.len(),
    ensures
        a.mode == Mode::List && a.selected > 0 ==> key_state(a, Key::Up).selected == a.selected - 1,
        a.mode == Mode::List && a.selected + 1 < a.lessons.len() ==> key_state(a, Key::Down).selected
            == a.selected + 1,
        a.mode == Mode::Content ==> key_state(a, Key::Up).selected == a.selected && key_state(
            a,
            Key::Up,
        ).scroll == (if a.scroll > 0 { a.scroll - 1 } else { 0 }),
        a.mode == Mode::Content && a.scroll < u16::MAX ==> key_state(a, Key::Down).selected
            == a.selected && key_state(a, Key::Down).scroll == a.scroll + 1,
{
    if a.mode == Mode::List && a.selected > 0 {
        lemma_previous_opens_and_reads_short(a);
    }
    if a.mode == Mode::List && a.selected + 1 < a.lessons.len() {
        lemma_next_opens_and_reads_short(a);
    }
    let s: nat = if a.scroll < u16::MAX { a.scroll + 1 } else { a.scroll };
    lemma_mark_extends(AppView { scroll: s, ..a });
}

/// Tab and Shift-Tab go to the list pane and move to the next and the previous lesson.
pub proof fn lemma_tab_moves_in_list(a: AppView)
    requires
        a.selected < a.lessons.len(),
    ensures
        key_state(a, Key::Tab).mode == Mode::List,
        key_state(a, Key::BackTab).mode == Mode::List,
        a.selected + 1 < a.lessons.len() ==> key_state(a, Key::Tab).selected == a.selected + 1,
        a.selected > 0 ==> key_state(a, Key::BackTab).selected == a.selected - 1,
{
    let l = AppView { mode: Mode::List, ..a };
    if a.selected + 1 < a.lessons.len() {
        lemma_next_opens_and_reads_short(l);
    } else {
        lemma_auto_extends(AppView { selected: a.selected + 1, scroll: 0, ..l });
    }
    if a.selected > 0 {
        lemma_previous_opens_and_reads_short(l);
    }
}

/// With no lesson before the selected one, moving back changes nothing; with none after it,
/// moving on changes nothing.
pub proof fn lemma_moves_stop_at_ends(a: AppView)
    requires
        selection_valid(a),
    ensures
        a.selected == 0 ==> previous_state(a) == a,
        a.selected + 1 >= a.lessons.len() ==> next_state(a) == a,
{
}

/// Quitting stops the reader and records the selected lesson as the last one open, changing
/// nothing else.
pub proof fn lemma_quit_records_selection(a: AppView)
    ensures
        !quit_state(a).running,
        quit_state(a).progress.last_index == a.selected,
        quit_state(a).progress.completed == a.progress.completed,
        quit_state(a).selected == a.selected,
        quit_state(a).lessons == a.lessons,
{
}

/// Enter or Space switches pane: to the text from the list and back.
pub proof fn lemma_enter_switches_pane(a: AppView)
    ensures
        key_state(a, Key::Enter).mode != a.mode,
        key_state(a, Key::Enter).selected == a.selected,
{
}

impl App {
    /// The reader at start-up, given the lessons and the progress that were loaded.
    pub fn new(lessons: Vec<Lesson>, progress: Progress) -> (app: App)
        ensures
            app@ == start_state(lessons@, progress@),
            selection_valid(app@),
    {
        let last = lessons.len().saturating_sub(1);
        let start_index = if progress.last_index < last { progress.last_index } else { last };
        App { running: true, mode: Mode::List, lessons, selected_lesson_index: start_index, progress, scroll_offset: 0 }
    }

    /// Called on every turn of the event loop; does nothing.
    pub fn tick(&self) {
    }

    /// Stops the reader and remembers the open lesson in the progress (which the caller
    /// then saves).
    pub fn quit(&mut self)
        ensures
            final(self)@ == quit_state(old(self)@),
    {
        self.running = false;
        self.progress.last_index = self.selected_lesson_index;
    }

    /// Moves to the next lesson, if there is one, back to its top.
    pub fn next(&mut self)
        ensures
            final(self)@ == next_state(old(self)@),
    {
        if self.lessons.len() == 0 {
            return;
        }
        if self.selected_lesson_index < self.lessons.len() - 1 {
            self.selected_lesson_index += 1;
            self.scroll_offset = 0;
            self.check_auto_complete();
        }
    }

    /// Moves to the previous lesson, if there is one, back to its top.
    pub fn previous(&mut self)
        ensures
            final(self)@ == previous_state(old(self)@),
    {
        if self.lessons.len() == 0 {
            return;
        }
        if self.selected_lesson_index > 0 {
            self.selected_lesson_index -= 1;
            self.scroll_offset = 0;
            self.check_auto_complete();
        }
    }

    /// Switches between the list and the text.
    pub fn toggle_mode(&mut self)
        ensures
            final(self)@ == toggle_state(old(self)@),
    {
        self.mode = match self.mode {
            Mode::List => Mode::Content,
            Mode::Content => Mode::List,
        };
    }

    /// Scrolls the text down a line; near the end the lesson counts as completed.
    pub fn scroll_down(&mut self)
        ensures
            final(self)@ == scroll_down_state(old(self)@),
    {
        if self.mode == Mode::Content {
            self.scroll_offset = self.scroll_offset.saturating_add(1);
            if self.selected_lesson_index < self.lessons.len() {
                let n = self.lessons[self.selected_lesson_index].text_lines.len();
                if self.scroll_offset as usize + 20 >= n {
                    self.mark_completed();
                }
            }
        }
    }

    /// Scrolls the text up a line.
    pub fn scroll_up(&mut self)
        ensures
            final(self)@ == scroll_up_state(old(self)@),
    {
        if self.mode == Mode::Content {
            self.scroll_offset = self.scroll_offset.saturating_sub(1);
        }
    }

    /// Marks the open lesson completed, once.
    pub fn mark_completed(&mut self)
        requires
            selection_in_range(old(self)@),
        ensures
            final(self)@ == mark_state(old(self)@),
    {
        if self.lessons.len() == 0 {
            return;
        }
        let done = self.progress.is_completed(&self.lessons[self.selected_lesson_index].path);
        if !done {
            let p = self.lessons[self.selected_lesson_index].path.clone();
            proof {
                assert(path_views(self.progress.completed_files@.push(p))
                    =~= path_views(self.progress.completed_files@).push(p@));
            }
            self.progress.completed_files.push(p);
        }
    }

    /// A lesson shorter than thirty lines counts as completed once opened.
    fn check_auto_complete(&mut self)
        ensures
            final(self)@ == auto_complete_state(old(self)@),
    {
        if self.selected_lesson_index < self.lessons.len() {
            if self.lessons[self.selected_lesson_index].text_lines.len() < 30 {
                self.mark_completed();
            }
        }
    }

    /// Acts on a key press: `q` or Esc quits, Tab and Shift-Tab move between lessons in the
    /// list, Up/Down (or `k`/`j`) move in the list or scroll the text, Enter or Space switch
    /// panes, `c` marks the lesson completed. Returns whether the reader quit, after which the
    /// progress is to be saved.
    pub fn handle_key(&mut self, key: Key) -> (quit: bool)
        requires
            selection_in_range(old(self)@),
        ensures
            final(self)@ == key_state(old(self)@, key),
            quit == is_quit_key(key),
            selection_valid(old(self)@) ==> selection_valid(final(self)@),
    {
        proof {
            if selection_valid(self@) {
                lemma_selection_stays_valid(self@, key);
            }
        }
        match key {
            Key::Char('q') | Key::Esc => {
                self.quit();
                return true;
            },
            Key::Tab => {
                self.mode = Mode::List;
                self.next();
            },
            Key::BackTab => {
                self.mode = Mode::List;
                self.previous();
            },
            Key::Up | Key::Char('k') => match self.mode {
                Mode::List => self.previous(),
                Mode::Content => self.scroll_up(),
            },
            Key::Down | Key::Char('j') => match self.mode {
                Mode::List => self.next(),
                Mode::Content => self.scroll_down(),
            },
            Key::Enter | Key::Char(' ') => self.toggle_mode(),
            Key::Char('c') => self.mark_completed(),
            _ => {},
        }
        false
    }
}

} // verus!
