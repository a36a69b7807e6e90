//! The preview under the file list: a folder's visible items with their
//! icons, or a file's lines with the summary of its last commit.
use vstd::prelude::*;
use crate::app::{App, app_wf};
use crate::icons::{icon_for, icon_of};
use crate::index::is_hidden;
use crate::sort::{SortOrder, is_rearrangement, sort_by, sorted_by};
use crate::text::{
    concat, lemma_lex_total, lemma_lex_trans, lex_le, lines, lines_of, starts_with_char, str_le, trim, trimmed,
    views,
};

verus! {

/// Listing items by name alone.
pub struct ByName;

impl SortOrder<(String, bool)> for ByName {
    open spec fn le(a: (String, bool), b: (String, bool)) -> bool {
        lex_le(a.0@, b.0@)
    }

    proof fn lemma_total(a: (String, bool), b: (String, bool)) {
        lemma_lex_total(a.0@, b.0@);
    }

    proof fn lemma_trans(a: (String, bool), b: (String, bool), c: (String, bool)) {
        lemma_lex_trans(a.0@, b.0@, c.0@);
    }

    fn le_exec(a: &(String, bool), b: &(String, bool)) -> (r: bool) {
        str_le(a.0.as_str(), b.0.as_str())
    }
}

/// The preview line of a listed item: its icon, then its name.
pub open spec fn preview_item(e: (String, bool)) -> Seq<char> {
    icon_of(e.0@, e.1).0 + e.0@
}

/// The preview lines of the items `sorted`: the visible ones, each with its icon.
pub open spec fn preview_of_sorted(sorted: Seq<(String, bool)>) -> Seq<Seq<char>> {
    sorted.filter(|e: (String, bool)| !is_hidden(e.0@)).map_values(|e: (String, bool)| preview_item(e))
}

/// `lines` previews a folder whose listing is `items`: its visible items in
/// order of name, each with its icon.
pub open spec fn previews_listing(lines: Seq<Seq<char>>, items: Seq<(String, bool)>) -> bool {
    exists|sorted: Seq<(String, bool)>|
        is_rearrangement(sorted, items) && sorted_by::<(String, bool), ByName>(sorted) && (forall|i: int, j: int|
            0 <= i < j < sorted.len() ==> lex_le(sorted[i].0@, sorted[j].0@)) && lines == preview_of_sorted(sorted)
}

/// The preview lines of a folder whose listing (names, and whether each is
/// a folder) is `items`.
pub fn dir_preview(items: Vec<(String, bool)>) -> (r: Vec<String>)
    ensures
        previews_listing(views(r@), items@),
{
    let ghost all = items@;
    let sorted = sort_by::<(String, bool), ByName>(items);
    let ghost s = sorted@;
    let ghost f = |e: (String, bool)| !is_hidden(e.0@);
    let ghost g = |e: (String, bool)| preview_item(e);
    let mut out: Vec<String> = Vec::new();
    let n = sorted.len();
    for i in 0..n
        invariant
            n == s.len(),
            s == sorted@,
            f == (|e: (String, bool)| !is_hidden(e.0@)),
            g == (|e: (String, bool)| preview_item(e)),
            views(out@) == s.take(i as int).filter(f).map_values(g),
    {
        let ghost before = views(out@);
        proof {
            assert(s.take(i + 1).drop_last() =~= s.take(i as int));
            reveal_with_fuel(Seq::filter, 1);
        }
        let hidden = starts_with_char(sorted[i].0.as_str(), '.');
        if !hidden {
            let (icon, _) = icon_for(sorted[i].0.as_str(), sorted[i].1);
            let line = concat(icon, sorted[i].0.as_str());
            assert(line@ == g(s[i as int]));
            out.push(line);
            assert(views(out@) =~= before.push(line@));
            assert(s.take(i + 1).filter(f) =~= s.take(i as int).filter(f).push(s[i as int]));
            assert(s.take(i as int).filter(f).push(s[i as int]).map_values(g) =~= s.take(i as int).filter(
                f,
            ).map_values(g).push(g(s[i as int])));
            assert(views(out@) =~= s.take(i + 1).filter(f).map_values(g));
        } else {
            assert(s.take(i + 1).filter(f) =~= s.take(i as int).filter(f));
            assert(views(out@) =~= s.take(i + 1).filter(f).map_values(g));
        }
    }
    assert(s.take(n as int) =~= s);
    assert(views(out@) == preview_of_sorted(s));
    assert forall|i: int, j: int| 0 <= i < j < s.len() implies lex_le(s[i].0@, s[j].0@) by {
        assert(ByName::le(s[i], s[j]));
    }
    out
}

impl App {
    /// Shows the preview of a folder: its visible items by name with their
    /// icons, or nothing when it could not be listed (`None`).
    pub fn show_dir_preview(&mut self, listing: Option<Vec<(String, bool)>>)
        requires
            app_wf(*old(self)),
        ensures
            app_wf(*final(self)),
            *final(self) == (App {
                preview_lines: final(self).preview_lines,
                preview_git_info: final(self).preview_git_info,
                ..*old(self)
            }),
            final(self).preview_git_info@.len() == 0,
            match listing {
                Some(items) => previews_listing(views(final(self).preview_lines@), items@),
                None => final(self).preview_lines@.len() == 0,
            },
    {
        self.preview_git_info = String::new();
        self.preview_lines = match listing {
            Some(items) => dir_preview(items),
            None => Vec::new(),
        };
    }

    /// Shows the preview of a file: the lines of its text (none when it could
    /// not be read), and the summary of its last commit that `git log`
    /// printed, trimmed (nothing when git could not run).
    pub fn show_file_preview(&mut self, text: Option<String>, last_commit: Option<String>)
        requires
            app_wf(*old(self)),
        ensures
            app_wf(*final(self)),
            *final(self) == (App {
                preview_lines: final(self).preview_lines,
                preview_git_info: final(self).preview_git_info,
                ..*old(self)
            }),
            views(final(self).preview_lines@) == match text {
                Some(t) => lines_of(t@),
                None => seq![],
            },
            final(self).preview_git_info@ == match last_commit {
                Some(c) => trimmed(c@),
                None => seq![],
            },
    {
        self.preview_lines = match &text {
            Some(t) => lines(t.as_str()),
            None => Vec::new(),
        };
        assert(text is None ==> views(self.preview_lines@) =~= seq![]);
        self.preview_git_info = match &last_commit {
            Some(c) => trim(c.as_str()),
            None => String::new(),
        };
    }
}

} // verus!
