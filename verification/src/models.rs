use vstd::prelude::*;

use crate::style::Line;

verus! {

/// What the reader has done: the lessons marked completed, by path, and the lesson that was
/// open last.
#[derive(Debug, Clone)]
pub struct Progress {
    pub completed_files: Vec<String>,
    pub last_index: usize,
}

/// The paths of a list of files.
pub open spec fn path_views(files: Seq<String>) -> Seq<Seq<char>> {
    files.map_values(|f: String| f@)
}

/// The mathematical value of a [`Progress`].
pub struct ProgressView {
    pub completed: Seq<Seq<char>>,
    pub last_index: nat,
}

impl View for Progress {
    type V = ProgressView;

    open spec fn view(&self) -> ProgressView {
        ProgressView { completed: path_views(self.completed_files@), last_index: self.last_index as nat }
    }
}

impl Default for Progress {
    /// No lesson completed, the first lesson open.
    fn default() -> (p: Progress)
        ensures
            p@.completed.len() == 0,
            p@.last_index == 0,
    {
        Progress { completed_files: Vec::new(), last_index: 0 }
    }
}

impl Progress {
    /// Whether the lesson at `path` is marked completed.
    pub fn is_completed(&self, path: &String) -> (b: bool)
        ensures
            b == self@.completed.contains(path@),
    {
        let n = self.completed_files.len();
        let mut k: usize = 0;
        while k < n
            invariant
                k <= n == self.completed_files@.len(),
                forall|j: int| 0 <= j < k ==> self.completed_files@[j]@ != path@,
            decreases n - k,
        {
            if self.completed_files[k] == *path {
                proof {
                    assert(self@.completed[k as int] == path@);
                }
                return true;
            }
            k = k + 1;
        }
        proof {
            if self@.completed.contains(path@) {
                let j = choose|j: int| 0 <= j < self@.completed.len() && self@.completed[j] == path@;
                assert(self.completed_files@[j]@ == path@);
            }
        }
        false
    }
}

/// A lesson: the Markdown file it comes from, its title, its text, and that text drawn as
/// lines.
#[derive(Debug, Clone)]
pub struct Lesson {
    pub path: String,
    pub title: String,
    pub content: String,
    pub text_lines: Vec<Line>,
}

} // verus!
