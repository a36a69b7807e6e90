//! The git tab: the report of the library's status and log, the branch named
//! in the tab's header, and how each line of the report is highlighted.
use vstd::prelude::*;
use crate::app::{App, app_wf};
use crate::text::{
    chars_of, concat, find_chars, find_first, lines, lines_of, starts_with_char,
    str_starts_with, string_of_range, trim, trim_left, trim_start, trimmed, views,
};
use crate::index::{occurs_in, str_contains};

verus! {

/// The heading of the status part of the report.
pub open spec fn status_heading() -> Seq<char> {
    "── git status ──────────────────────────────────"@
}

/// The heading of the log part of the report.
pub open spec fn log_heading() -> Seq<char> {
    "── git log ─────────────────────────────────────"@
}

/// Each line indented by two spaces.
pub open spec fn indented(ls: Seq<Seq<char>>) -> Seq<Seq<char>> {
    ls.map_values(|l: Seq<char>| "  "@ + l)
}

/// A result of strings taken by its views.
pub open spec fn result_view(r: Result<String, String>) -> Result<Seq<char>, Seq<char>> {
    match r {
        Ok(s) => Ok(s@),
        Err(e) => Err(e@),
    }
}

/// The status part: the output of `git status --short`, or a note that
/// nothing is pending, or the error that kept git from running.
pub open spec fn status_section(status: Result<Seq<char>, Seq<char>>) -> Seq<Seq<char>> {
    match status {
        Ok(out) => if lines_of(out).len() == 0 {
            seq!["  sin cambios pendientes"@]
        } else {
            indented(lines_of(out))
        },
        Err(e) => seq!["  error: "@ + e],
    }
}

/// The log part: the output of `git log`, or a note that there are no
/// commits yet, or the error that kept git from running.
pub open spec fn log_section(log: Result<Seq<char>, Seq<char>>) -> Seq<Seq<char>> {
    match log {
        Ok(out) => if trimmed(out).len() == 0 {
            seq!["  sin commits todavía"@]
        } else {
            indented(lines_of(out))
        },
        Err(e) => seq!["  error: "@ + e],
    }
}

/// The report of the git tab.
pub open spec fn git_report(status: Result<Seq<char>, Seq<char>>, log: Result<Seq<char>, Seq<char>>) -> Seq<
    Seq<char>,
> {
    seq![status_heading()] + status_section(status) + seq![seq![], log_heading()] + log_section(log)
}

/// The lines of `out`, each indented by two spaces.
fn indent_lines(out: &str) -> (r: Vec<String>)
    ensures
        views(r@) == indented(lines_of(out@)),
{
    let ls = lines(out);
    let mut r: Vec<String> = Vec::new();
    let n = ls.len();
    for i in 0..n
        invariant
            n == ls.len(),
            views(ls@) == lines_of(out@),
            views(r@) == indented(lines_of(out@)).take(i as int),
    {
        let ghost before = views(r@);
        let line = concat("  ", ls[i].as_str());
        assert(ls@[i as int]@ == lines_of(out@)[i as int]);
        assert(line@ == indented(lines_of(out@))[i as int]);
        r.push(line);
        assert(views(r@) =~= before.push(line@));
        assert(views(r@) =~= indented(lines_of(out@)).take(i + 1));
    }
    assert(indented(lines_of(out@)).take(n as int) =~= indented(lines_of(out@)));
    r
}

/// Appends `b` to `a`.
fn append_lines(a: &mut Vec<String>, b: Vec<String>)
    ensures
        views(final(a)@) == views(old(a)@) + views(b@),
{
    let mut b = b;
    let ghost a0 = views(a@);
    let ghost b0 = views(b@);
    a.append(&mut b);
    assert(views(a@) =~= a0 + b0);
}

impl App {
    /// Shows the report of the library's git status (the output of
    /// `git status --short`, or why it could not run) and log (the output of
    /// `git log`, or why it could not run), scrolled to the top.
    pub fn load_git_info(&mut self, status: Result<String, String>, log: Result<String, String>)
        requires
            app_wf(*old(self)),
        ensures
            app_wf(*final(self)),
            *final(self) == (App { git_lines: final(self).git_lines, git_scroll: 0, ..*old(self) }),
            views(final(self).git_lines@) == git_report(result_view(status), result_view(log)),
    {
        let mut out: Vec<String> = Vec::new();
        out.push(String::from_str("── git status ──────────────────────────────────"));
        let mut part = match &status {
            Ok(s) => {
                let ls = indent_lines(s.as_str());
                if ls.len() == 0 {
                    let mut one = Vec::new();
                    one.push(String::from_str("  sin cambios pendientes"));
                    assert(views(one@) =~= seq!["  sin cambios pendientes"@]);
                    one
                } else {
                    ls
                }
            },
            Err(e) => {
                let mut one = Vec::new();
                one.push(concat("  error: ", e.as_str()));
                assert(views(one@) =~= seq!["  error: "@ + e@]);
                one
            },
        };
        assert(views(part@) == status_section(result_view(status)));
        let ghost head = views(out@);
        assert(head =~= seq![status_heading()]);
        append_lines(&mut out, part);
        out.push(String::new());
        out.push(String::from_str("── git log ─────────────────────────────────────"));
        let ghost mid = views(out@);
        assert(mid =~= seq![status_heading()] + status_section(result_view(status)) + seq![seq![], log_heading()]);
        let tail = match &log {
            Ok(s) => {
                let t = trim(s.as_str());
                if t.as_str().unicode_len() == 0 {
                    let mut one = Vec::new();
                    one.push(String::from_str("  sin commits todavía"));
                    assert(views(one@) =~= seq!["  sin commits todavía"@]);
                    one
                } else {
                    indent_lines(s.as_str())
                }
            },
            Err(e) => {
                let mut one = Vec::new();
                one.push(concat("  error: ", e.as_str()));
                assert(views(one@) =~= seq!["  error: "@ + e@]);
                one
            },
        };
        assert(views(tail@) == log_section(result_view(log)));
        append_lines(&mut out, tail);
        assert(views(out@) =~= git_report(result_view(status), result_view(log)));
        self.git_lines = out;
        self.git_scroll = 0;
    }
}

/// What `git log --decorate` writes before the current branch.
pub open spec fn head_marker() -> Seq<char> {
    "HEAD ->"@
}

/// `s` up to the first `,` or `)`.
pub open spec fn before_delimiter(s: Seq<char>) -> Seq<char> {
    if exists|i: int| 0 <= i < s.len() && (s[i] == ',' || s[i] == ')') {
        let i = choose|i: int|
            0 <= i < s.len() && (s[i] == ',' || s[i] == ')') && forall|j: int|
                0 <= j < i ==> s[j] != ',' && s[j] != ')';
        s.take(i)
    } else {
        s
    }
}

/// The part of `s` between its first and second occurrence of `sep` (or its
/// end), `s` holding `sep` (std's `split(sep).nth(1)`).
pub open spec fn second_piece(s: Seq<char>, sep: Seq<char>) -> Seq<char> {
    let after = s.skip(find_first(s, sep)->0 + sep.len());
    match find_first(after, sep) {
        Some(j) => after.take(j),
        None => after,
    }
}

/// The branch named on a log line that marks `HEAD`.
pub open spec fn branch_on_line(l: Seq<char>) -> Seq<char> {
    trimmed(before_delimiter(second_piece(l, head_marker())))
}

/// `k` is the first line that marks `HEAD`.
pub open spec fn is_first_head_line(ls: Seq<Seq<char>>, k: int) -> bool {
    0 <= k < ls.len() && occurs_in(head_marker(), ls[k]) && forall|j: int|
        0 <= j < k ==> !occurs_in(head_marker(), #[trigger] ls[j])
}

/// The branch found in the git report: on its first line that marks
/// `HEAD`, or `main` when none does.
pub open spec fn branch_in_report(ls: Seq<Seq<char>>) -> Seq<char> {
    if exists|k: int| 0 <= k < ls.len() && occurs_in(head_marker(), #[trigger] ls[k]) {
        branch_on_line(ls[choose|k: int| is_first_head_line(ls, k)])
    } else {
        "main"@
    }
}

/// The branch shown in the git tab: what `git branch --show-current` printed,
/// trimmed, when it printed something; else the branch found in the report.
pub open spec fn branch_of(current: Option<Seq<char>>, ls: Seq<Seq<char>>) -> Seq<char> {
    match current {
        Some(c) => if trimmed(c).len() > 0 {
            trimmed(c)
        } else {
            branch_in_report(ls)
        },
        None => branch_in_report(ls),
    }
}

/// `s` up to its first `,` or `)`.
fn cut_at_delimiter(v: &Vec<char>) -> (r: String)
    ensures
        r@ == before_delimiter(v@),
{
    let mut i: usize = 0;
    while i < v.len() && v[i] != ',' && v[i] != ')'
        invariant
            i <= v.len(),
            forall|j: int| 0 <= j < i ==> v@[j] != ',' && v@[j] != ')',
        decreases v.len() - i,
    {
        i = i + 1;
    }
    if i < v.len() {
        assert(0 <= i < v@.len() && (v@[i as int] == ',' || v@[i as int] == ')'));
        proof {
            let c = choose|x: int|
                0 <= x < v@.len() && (v@[x] == ',' || v@[x] == ')') && forall|j: int|
                    0 <= j < x ==> v@[j] != ',' && v@[j] != ')';
            if c < i {
                assert(v@[c] != ',' && v@[c] != ')');
            }
            if i < c {
                assert(v@[i as int] != ',' && v@[i as int] != ')');
            }
        }
    } else {
        assert(v@.take(i as int) =~= v@);
    }
    string_of_range(v, 0, i)
}

/// The branch named on the line `l`, which marks `HEAD`.
fn branch_from_line(l: &str) -> (r: String)
    requires
        occurs_in(head_marker(), l@),
    ensures
        r@ == branch_on_line(l@),
{
    let v = chars_of(l);
    let marker = chars_of("HEAD ->");
    proof {
        reveal_strlit("HEAD ->");
        let i = choose|i: int| 0 <= i <= l@.len() - head_marker().len() && #[trigger] l@.subrange(i, i + head_marker().len()) == head_marker();
        assert(crate::text::matches_at(l@, head_marker(), i));
    }
    let found = find_chars(&v, &marker);
    if found.is_none() {
        return String::new();
    }
    let start = found.unwrap();
    let mlen = marker.len();
    let vlen = v.len();
    let lo: usize = start + mlen;
    let after = string_of_range(&v, lo, vlen);
    let av = chars_of(after.as_str());
    assert(after@ =~= l@.skip(start + head_marker().len()));
    let piece = match find_chars(&av, &marker) {
        Some(j) => string_of_range(&av, 0, j),
        None => after,
    };
    let pv = chars_of(piece.as_str());
    let cut = cut_at_delimiter(&pv);
    trim(cut.as_str())
}

/// The branch to show in the git tab, from what `git branch --show-current`
/// printed (`None` when it could not run) and the lines of the git report.
pub fn get_branch(current: Option<String>, git_lines: &Vec<String>) -> (r: String)
    ensures
        r@ == branch_of(
            match current {
                Some(c) => Some(c@),
                None => None,
            },
            views(git_lines@),
        ),
{
    if let Some(c) = &current {
        let t = trim(c.as_str());
        if t.as_str().unicode_len() > 0 {
            return t;
        }
    }
    let ghost ls = views(git_lines@);
    let ghost cur = match current {
        Some(c) => Some(c@),
        None => None,
    };
    assert(branch_of(cur, ls) == branch_in_report(ls));
    let n = git_lines.len();
    for k in 0..n
        invariant
            n == git_lines@.len(),
            ls == views(git_lines@),
            branch_of(cur, ls) == branch_in_report(ls),
            cur == (match current {
                Some(c) => Some(c@),
                None => None,
            }),
            forall|j: int| 0 <= j < k ==> !occurs_in(head_marker(), #[trigger] ls[j]),
    {
        proof {
            reveal_strlit("HEAD ->");
        }
        if str_contains(git_lines[k].as_str(), "HEAD ->") {
            assert(ls[k as int] == git_lines@[k as int]@);
            assert(occurs_in(head_marker(), ls[k as int]));
            assert(is_first_head_line(ls, k as int));
            proof {
                let c = choose|x: int| is_first_head_line(ls, x);
                if c < k {
                    assert(!occurs_in(head_marker(), ls[c]));
                }
                if k < c {
                    assert(!occurs_in(head_marker(), ls[k as int]));
                }
            }
            assert(branch_in_report(ls) == branch_on_line(ls[k as int]));
            return branch_from_line(git_lines[k].as_str());
        }
    }
    String::from_str("main")
}

/// How a line of the git report is highlighted.
#[derive(Clone, Copy, PartialEq, Eq, Structural, Debug)]
pub enum GitLineStyle {
    /// A section heading.
    Heading,
    /// A modified file.
    Modified,
    /// A file git does not track.
    Untracked,
    /// A file added to the index.
    Added,
    Plain,
}

/// The highlight of a report line: headings, then modified, untracked and
/// added files by their status letter.
pub open spec fn git_line_style_of(l: Seq<char>) -> GitLineStyle {
    let t = trim_start(l);
    if "──"@.is_prefix_of(l) {
        GitLineStyle::Heading
    } else if occurs_in("modified"@, l) || (t.len() > 0 && t[0] == 'M') {
        GitLineStyle::Modified
    } else if t.len() > 0 && t[0] == '?' {
        GitLineStyle::Untracked
    } else if t.len() > 0 && t[0] == 'A' {
        GitLineStyle::Added
    } else {
        GitLineStyle::Plain
    }
}

/// The highlight of a line of the git report.
pub fn git_line_style(l: &str) -> (r: GitLineStyle)
    ensures
        r == git_line_style_of(l@),
{
    let t = trim_left(l);
    if str_starts_with(l, "──") {
        GitLineStyle::Heading
    } else if str_contains(l, "modified") || starts_with_char(t.as_str(), 'M') {
        GitLineStyle::Modified
    } else if starts_with_char(t.as_str(), '?') {
        GitLineStyle::Untracked
    } else if starts_with_char(t.as_str(), 'A') {
        GitLineStyle::Added
    } else {
        GitLineStyle::Plain
    }
}

} // verus!
