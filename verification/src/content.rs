use vstd::prelude::*;

use crate::markdown::parse_to_lines;
use crate::models::{path_views, Lesson};
use crate::events::commonmark_events;
use crate::render_spec::render_lines;
use crate::style::line_views;
use crate::text::{find_from, occurs_at, 
    chars_of, ends_with, find, find_chars, is_space, lemma_trim_clean, lines_of, split_lines,
    starts_with, string_from_chars, trim, trim_chars, views,
};

verus! {

/// The title that the first of `lines` to begin with `# ` gives: the rest of it, trimmed.
pub open spec fn title_in(lines: Seq<Seq<char>>) -> Option<Seq<char>>
    decreases lines.len(),
{
    if lines.len() == 0 {
        None
    } else if starts_with(lines[0], seq!['#', ' ']) {
        Some(trim(lines[0].skip(2)))
    } else {
        title_in(lines.drop_first())
    }
}

/// The title of a Markdown text: from its first line that begins with `# `.
pub open spec fn title_of(content: Seq<char>) -> Option<Seq<char>> {
    title_in(lines_of(content))
}

/// Whether `line` begins with `# `.
fn is_title_line(line: &Vec<char>) -> (b: bool)
    ensures
        b == starts_with(line@, seq!['#', ' ']),
{
    let b = line.len() >= 2 && line[0] == '#' && line[1] == ' ';
    proof {
        if line@.len() >= 2 {
            assert(b == (line@.subrange(0, 2) =~= seq!['#', ' ']));
        }
    }
    b
}

/// The characters of `v` from index `from` on.
fn chars_from(v: &Vec<char>, from: usize) -> (r: Vec<char>)
    requires
        from <= v@.len(),
    ensures
        r@ == v@.skip(from as int),
{
    let mut r: Vec<char> = Vec::new();
    let mut k = from;
    while k < v.len()
        invariant
            from <= k <= v@.len(),
            r@ == v@.subrange(from as int, k as int),
        decreases v@.len() - k,
    {
        r.push(v[k]);
        k = k + 1;
    }
    r
}

/// The characters of `v` before index `to`.
fn chars_to(v: &Vec<char>, to: usize) -> (r: Vec<char>)
    requires
        to <= v@.len(),
    ensures
        r@ == v@.take(to as int),
{
    let mut r: Vec<char> = Vec::new();
    let mut k: usize = 0;
    while k < to
        invariant
            k <= to <= v@.len(),
            r@ == v@.take(k as int),
        decreases to - k,
    {
        r.push(v[k]);
        k = k + 1;
    }
    r
}

/// The title of a lesson: the text after `# ` on its first line that begins so, trimmed.
pub fn extract_title(content: &str) -> (r: Option<String>)
    ensures
        match r {
            Some(t) => title_of(content@) == Some(t@),
            None => title_of(content@) is None,
        },
{
    let lines = split_lines(&chars_of(content));
    let ghost lv = views(lines@);
    proof {
        assert(lv.skip(0) == lv);
    }
    let n = lines.len();
    let mut k: usize = 0;
    while k < n
        invariant
            k <= n == lines@.len(),
            lv == views(lines@),
            lv == lines_of(content@),
            lv.len() == n,
            title_in(lv) == title_in(lv.skip(k as int)),
        decreases n - k,
    {
        proof {
            assert(lv.skip(k as int)[0] == lines@[k as int]@);
            assert(lv.skip(k as int).drop_first() == lv.skip(k + 1));
        }
        if is_title_line(&lines[k]) {
            let rest = chars_from(&lines[k], 2);
            let t = trim_chars(&rest);
            proof {
                assert(title_in(lv.skip(k as int)) == Some(trim(lines@[k as int]@.skip(2))));
            }
            return Some(string_from_chars(&t));
        }
        k = k + 1;
    }
    None
}

/// The path that a line of a table of contents links to, if it links to a Markdown file:
/// what stands between the first `](` and the next `)`, when it ends with `.md`.
pub open spec fn link_of(line: Seq<char>) -> Option<Seq<char>> {
    match find(line, seq![']', '(']) {
        Some(s) => {
            let rest = line.skip(s + 2);
            match find(rest, seq![')']) {
                Some(e) => if ends_with(rest.take(e), seq!['.', 'm', 'd']) {
                    Some(rest.take(e))
                } else {
                    None
                },
                None => None,
            }
        },
        None => None,
    }
}

/// The Markdown files that `lines` link to, in order.
pub open spec fn links_in(lines: Seq<Seq<char>>) -> Seq<Seq<char>>
    decreases lines.len(),
{
    if lines.len() == 0 {
        seq![]
    } else {
        let rest = links_in(lines.drop_last());
        match link_of(lines.last()) {
            Some(p) => rest.push(p),
            None => rest,
        }
    }
}

/// Whether `v` ends with `.md`.
fn ends_with_md(v: &Vec<char>) -> (b: bool)
    ensures
        b == ends_with(v@, seq!['.', 'm', 'd']),
{
    let n = v.len();
    let b = n >= 3 && v[n - 3] == '.' && v[n - 2] == 'm' && v[n - 1] == 'd';
    proof {
        if n >= 3 {
            assert(b == (v@.subrange(n - 3, n as int) =~= seq!['.', 'm', 'd']));
        }
    }
    b
}

/// The Markdown file that a line of a table of contents links to.
fn line_link(line: &Vec<char>) -> (r: Option<Vec<char>>)
    ensures
        match r {
            Some(p) => link_of(line@) == Some(p@),
            None => link_of(line@) is None,
        },
{
    let mut open: Vec<char> = Vec::new();
    open.push(']');
    open.push('(');
    let mut close: Vec<char> = Vec::new();
    close.push(')');
    proof {
        assert(open@ =~= seq![']', '(']);
        assert(close@ =~= seq![')']);
    }
    let len = line.len();
    let found = find_chars(line, &open, 0);
    match found {
        Some(s) => {
            assert(s + 2 <= len);
            let rest = chars_from(line, s + 2);
            match find_chars(&rest, &close, 0) {
                Some(e) => {
                    let md = chars_to(&rest, e);
                    if ends_with_md(&md) {
                        Some(md)
                    } else {
                        None
                    }
                },
                None => None,
            }
        },
        None => None,
    }
}

/// The Markdown files that a table of contents (`SUMMARY.md`) links to, in order: for each
/// line, the target of its first `](...)` link when that ends with `.md`.
pub fn summary_links(summary: &str) -> (r: Vec<String>)
    ensures
        path_views(r@) == links_in(lines_of(summary@)),
{
    let lines = split_lines(&chars_of(summary));
    let ghost lv = views(lines@);
    let mut out: Vec<String> = Vec::new();
    let n = lines.len();
    let mut k: usize = 0;
    while k < n
        invariant
            k <= n == lines@.len(),
            lv == views(lines@),
            lv == lines_of(summary@),
            path_views(out@) == links_in(lv.take(k as int)),
        decreases n - k,
    {
        proof {
            assert(lv.take(k + 1).drop_last() == lv.take(k as int));
            assert(lv.take(k + 1).last() == lines@[k as int]@);
        }
        match line_link(&lines[k]) {
            Some(p) => {
                let s = string_from_chars(&p);
                proof {
                    assert(path_views(out@.push(s)) =~= path_views(out@).push(s@));
                }
                out.push(s);
            },
            None => {},
        }
        k = k + 1;
    }
    proof {
        assert(lv.take(n as int) == lv);
    }
    out
}

/// A lesson from its file: the title is the one its text gives, else the file's stem; the
/// text is drawn as lines.
pub fn make_lesson(path: String, file_stem: String, content: String) -> (l: Lesson)
    ensures
        l.path@ == path@,
        l.content@ == content@,
        l.title@ == (match title_of(content@) {
            Some(t) => t,
            None => file_stem@,
        }),
        line_views(l.text_lines@) == render_lines(
            commonmark_events(content@),
        ),
{
    let title = match extract_title(content.as_str()) {
        Some(t) => t,
        None => file_stem,
    };
    let text_lines = parse_to_lines(content.as_str());
    Lesson { path, title, content, text_lines }
}


/// A title never begins or ends with white space.
pub proof fn lemma_title_trimmed(content: Seq<char>)
    ensures
        title_of(content) matches Some(t) ==> (t.len() > 0 ==> !is_space(t[0]) && !is_space(t.last())),
{
    lemma_title_in_trimmed(lines_of(content));
}

proof fn lemma_title_in_trimmed(lines: Seq<Seq<char>>)
    ensures
        title_in(lines) matches Some(t) ==> (t.len() > 0 ==> !is_space(t[0]) && !is_space(t.last())),
    decreases lines.len(),
{
    if lines.len() > 0 {
        if starts_with(lines[0], seq!['#', ' ']) {
            lemma_trim_clean(lines[0].skip(2));
        } else {
            lemma_title_in_trimmed(lines.drop_first());
        }
    }
}

/// Every path that a table of contents yields names a Markdown file: it ends with `.md`.
pub proof fn lemma_links_are_markdown(lines: Seq<Seq<char>>)
    ensures
        forall|i: int| 0 <= i < links_in(lines).len() ==> ends_with(
            #[trigger] links_in(lines)[i],
            seq!['.', 'm', 'd'],
        ),
    decreases lines.len(),
{
    if lines.len() > 0 {
        lemma_links_are_markdown(lines.drop_last());
        let rest = links_in(lines.drop_last());
        match link_of(lines.last()) {
            Some(p) => {
                assert forall|i: int| 0 <= i < rest.push(p).len() implies ends_with(
                    #[trigger] rest.push(p)[i],
                    seq!['.', 'm', 'd'],
                ) by {
                    if i < rest.len() {
                        assert(rest.push(p)[i] == rest[i]);
                    }
                }
            },
            None => {},
        }
    }
}


proof fn lemma_title_in_first(lines: Seq<Seq<char>>, i: int)
    requires
        0 <= i < lines.len(),
        starts_with(lines[i], seq!['#', ' ']),
        forall|j: int| 0 <= j < i ==> !starts_with(#[trigger] lines[j], seq!['#', ' ']),
    ensures
        title_in(lines) == Some(trim(lines[i].skip(2))),
    decreases i,
{
    if i > 0 {
        assert forall|j: int| 0 <= j < i - 1 implies !starts_with(
            #[trigger] lines.drop_first()[j],
            seq!['#', ' '],
        ) by {
            assert(lines.drop_first()[j] == lines[j + 1]);
        }
        assert(!starts_with(lines[0], seq!['#', ' ']));
        lemma_title_in_first(lines.drop_first(), i - 1);
    }
}

proof fn lemma_title_in_none(lines: Seq<Seq<char>>)
    requires
        forall|j: int| 0 <= j < lines.len() ==> !starts_with(#[trigger] lines[j], seq!['#', ' ']),
    ensures
        title_in(lines) is None,
    decreases lines.len(),
{
    if lines.len() > 0 {
        assert(!starts_with(lines[0], seq!['#', ' ']));
        assert forall|j: int| 0 <= j < lines.drop_first().len() implies !starts_with(
            #[trigger] lines.drop_first()[j],
            seq!['#', ' '],
        ) by {
            assert(lines.drop_first()[j] == lines[j + 1]);
        }
        lemma_title_in_none(lines.drop_first());
    }
}

/// The title comes from the first line that begins with `# `: if line `i` of the text is
/// the first such line, the title is the rest of it, trimmed, whatever lines follow.
pub proof fn lemma_title_from_first_heading_line(content: Seq<char>, i: int)
    requires
        0 <= i < lines_of(content).len(),
        starts_with(lines_of(content)[i], seq!['#', ' ']),
        forall|j: int| 0 <= j < i ==> !starts_with(#[trigger] lines_of(content)[j], seq!['#', ' ']),
    ensures
        title_of(content) == Some(trim(lines_of(content)[i].skip(2))),
{
    lemma_title_in_first(lines_of(content), i);
}

/// A text with no line beginning with `# ` has no title.
pub proof fn lemma_no_heading_line_no_title(content: Seq<char>)
    requires
        forall|j: int| 0 <= j < lines_of(content).len() ==> !starts_with(
            #[trigger] lines_of(content)[j],
            seq!['#', ' '],
        ),
    ensures
        title_of(content) is None,
{
    lemma_title_in_none(lines_of(content));
}


proof fn lemma_find_first_at(s: Seq<char>, p: Seq<char>, i: int, k: int)
    requires
        0 <= i <= k,
        occurs_at(s, p, k),
        forall|j: int| i <= j < k ==> !occurs_at(s, p, j),
    ensures
        find_from(s, p, i) == Some(k),
    decreases k - i,
{
    if i < k {
        lemma_find_first_at(s, p, i + 1, k);
    }
}

/// A line that reads `head`, `](`, a path `p` ending in `.md` and holding no `)`, then `)`
/// and anything, links to `p` when `head` holds no `](`: whatever else `head` holds,
/// parentheses included, the target is the text between the first `](` and the next `)`.
pub proof fn lemma_link_target(head: Seq<char>, p: Seq<char>, rest: Seq<char>)
    requires
        forall|j: int| !occurs_at(head, seq![']', '('], j),
        forall|j: int| 0 <= j < p.len() ==> #[trigger] p[j] != ')',
        ends_with(p, seq!['.', 'm', 'd']),
    ensures
        link_of(head + seq![']', '('] + p + seq![')'] + rest) == Some(p),
{
    let open = seq![']', '('];
    let close = seq![')'];
    let line = head + open + p + close + rest;
    let h = head.len() as int;
    assert(line.subrange(h, h + 2) =~= open);
    assert forall|j: int| 0 <= j < h implies !occurs_at(line, open, j) by {
        if occurs_at(line, open, j) {
            if j + 2 <= h {
                assert(head.subrange(j, j + 2) =~= line.subrange(j, j + 2));
                assert(occurs_at(head, open, j));
            } else {
                assert(line.subrange(j, j + 2)[1] == line[j + 1]);
                assert(line[h] == ']');
            }
        }
    }
    lemma_find_first_at(line, open, 0, h);
    let after = line.skip(h + 2);
    assert(after =~= p + close + rest);
    let q = p.len() as int;
    assert(after.subrange(q, q + 1) =~= close);
    assert forall|j: int| 0 <= j < q implies !occurs_at(after, close, j) by {
        if occurs_at(after, close, j) {
            assert(after.subrange(j, j + 1)[0] == after[j]);
            assert(after[j] == p[j]);
        }
    }
    lemma_find_first_at(after, close, 0, q);
    assert(after.take(q) =~= p);
}

} // verus!
