//! The sidebar: sections of plugins, tags and git, each with a header that
//! collapses it, and the rows the cursor moves over.
use vstd::prelude::*;
use crate::app::{App, SidebarRow, app_wf, sat_pred};

verus! {

/// How many lines the body of a section takes: none when collapsed, one
/// placeholder when it has no rows, else one per row.
pub open spec fn body_len(collapsed: bool, n: nat) -> nat {
    if collapsed {
        0
    } else if n == 0 {
        1
    } else {
        n
    }
}

/// The number of plugin rows shown: none when the section is collapsed.
pub open spec fn shown_rows(collapsed: bool, n: nat) -> int {
    if collapsed {
        0
    } else {
        n as int
    }
}

/// The number of navigable rows of the sidebar.
pub open spec fn rows_len(np: nat, nt: nat, c: Seq<bool>) -> nat {
    (3 + shown_rows(c[0], np) + shown_rows(c[1], nt) + if c[2] {
        0int
    } else {
        1int
    }) as nat
}

/// Row `i` of the sidebar: the plugin header, the plugins (unless
/// collapsed), the tag header, the tags, the git header, the branch.
pub open spec fn row_at(np: nat, nt: nat, c: Seq<bool>, i: int) -> SidebarRow {
    let p0 = shown_rows(c[0], np);
    let t0 = shown_rows(c[1], nt);
    if i == 0 {
        SidebarRow::Header(0)
    } else if i <= p0 {
        SidebarRow::Plugin
    } else if i == p0 + 1 {
        SidebarRow::Header(1)
    } else if i <= p0 + 1 + t0 {
        SidebarRow::Tag
    } else if i == p0 + 2 + t0 {
        SidebarRow::Header(2)
    } else {
        SidebarRow::GitBranch
    }
}

/// The line on which row `i` is drawn: the sections follow one another with
/// a blank line between them, and an empty expanded section shows one
/// placeholder line.
pub open spec fn para_at(np: nat, nt: nat, c: Seq<bool>, i: int) -> int {
    let p0 = shown_rows(c[0], np);
    let t0 = shown_rows(c[1], nt);
    let b0 = body_len(c[0], np) as int;
    let b1 = body_len(c[1], nt) as int;
    if i == 0 {
        0
    } else if i <= p0 {
        i
    } else if i == p0 + 1 {
        2 + b0
    } else if i <= p0 + 1 + t0 {
        3 + b0 + (i - p0 - 2)
    } else if i == p0 + 2 + t0 {
        4 + b0 + b1
    } else {
        5 + b0 + b1
    }
}

/// The navigable rows of the sidebar for `np` plugins and `nt` tags, with
/// the sections collapsed as `c` says.
pub open spec fn sidebar_rows(np: nat, nt: nat, c: Seq<bool>) -> Seq<SidebarRow> {
    Seq::new(rows_len(np, nt, c), |i: int| row_at(np, nt, c, i))
}

/// The line on which each navigable row is drawn.
pub open spec fn sidebar_para(np: nat, nt: nat, c: Seq<bool>) -> Seq<int> {
    Seq::new(rows_len(np, nt, c), |i: int| para_at(np, nt, c, i))
}

/// The rows of the sidebar of `a`.
pub open spec fn rows_of(a: App) -> Seq<SidebarRow> {
    sidebar_rows(a.plugins@.len(), a.tags@.len(), a.sidebar_collapsed@)
}

/// The lines of the rows of the sidebar of `a`.
pub open spec fn para_of(a: App) -> Seq<int> {
    sidebar_para(a.plugins@.len(), a.tags@.len(), a.sidebar_collapsed@)
}

/// A line of the drawn sidebar.
#[derive(Clone, Copy, PartialEq, Eq, Structural, Debug)]
pub enum SidebarLine {
    /// The header of a section, with its collapse marker.
    Header { section: usize, collapsed: bool, selected: bool },
    /// "sin plugins" (section 0) or "sin tags" (section 1).
    Empty { section: usize },
    /// The plugin at this position of the plugin list.
    Plugin { index: usize, selected: bool },
    /// The tag at this position of the tag list.
    Tag { index: usize, selected: bool },
    /// The branch of the git section.
    Branch { selected: bool },
    /// The blank line between sections.
    Blank,
}

/// The scroll position that brings `line` into a view of `visible` lines
/// scrolled to `scroll`.
pub open spec fn scroll_for(line: int, scroll: int, visible: int) -> int {
    if line < scroll {
        line
    } else if line >= scroll + visible {
        sat_pred(line - (visible - 1) + 1)
    } else {
        scroll
    }
}

/// Scrolling the sidebar to keep the cursor's line in view.
pub open spec fn scroll_to_cursor_post(pre: App, post: App) -> bool {
    let para = para_of(pre);
    if pre.sidebar_cursor < para.len() && pre.sidebar_height > 0 {
        post == (App {
            sidebar_scroll: scroll_for(
                para[pre.sidebar_cursor as int],
                pre.sidebar_scroll as int,
                pre.sidebar_height as int,
            ) as usize,
            ..pre
        })
    } else {
        post == pre
    }
}

/// What moving the sidebar cursor does: one row up or down, within the rows,
/// keeping the row in view.
pub open spec fn sidebar_move_post(pre: App, post: App, down: bool) -> bool {
    let n = rows_of(pre).len();
    if down && pre.sidebar_cursor < sat_pred(n as int) {
        scroll_to_cursor_post(App { sidebar_cursor: (pre.sidebar_cursor + 1) as usize, ..pre }, post)
    } else if !down && pre.sidebar_cursor > 0 {
        scroll_to_cursor_post(App { sidebar_cursor: (pre.sidebar_cursor - 1) as usize, ..pre }, post)
    } else {
        post == pre
    }
}

/// What Enter on a section header does: the section collapses or expands,
/// and the cursor stays within the rows left.
pub open spec fn toggle_section_post(pre: App, post: App) -> bool {
    let rows = rows_of(pre);
    if pre.sidebar_cursor < rows.len() && rows[pre.sidebar_cursor as int] is Header {
        let s = rows[pre.sidebar_cursor as int]->Header_0;
        let toggled = App {
            sidebar_collapsed: post.sidebar_collapsed,
            ..pre
        };
        let n = rows_of(toggled).len();
        &&& post.sidebar_collapsed@ == pre.sidebar_collapsed@.update(s as int, !pre.sidebar_collapsed@[s as int])
        &&& scroll_to_cursor_post(
            App {
                sidebar_cursor: if pre.sidebar_cursor >= n {
                    sat_pred(n as int) as usize
                } else {
                    pre.sidebar_cursor
                },
                ..toggled
            },
            post,
        )
    } else {
        post == pre
    }
}

/// `line` is where row `i` of `rows` is drawn, given whether the sidebar has
/// the focus and where its cursor is.
pub open spec fn draws_row(line: SidebarLine, row: SidebarRow, i: int, focused: bool, cursor: int) -> bool {
    let sel = focused && i == cursor;
    match row {
        SidebarRow::Header(s) => line matches SidebarLine::Header { section, selected, .. } && section == s
            && selected == sel,
        SidebarRow::Plugin => line matches SidebarLine::Plugin { selected, .. } && selected == sel,
        SidebarRow::Tag => line matches SidebarLine::Tag { selected, .. } && selected == sel,
        SidebarRow::GitBranch => line matches SidebarLine::Branch { selected } && selected == sel,
    }
}

impl App {
    /// The navigable rows of the sidebar, in order, without the collapsed ones.
    pub fn sidebar_items(&self) -> (r: Vec<SidebarRow>)
        requires
            app_wf(*self),
        ensures
            r@ == rows_of(*self),
    {
        let ghost np = self.plugins@.len();
        let ghost nt = self.tags@.len();
        let ghost c = self.sidebar_collapsed@;
        let mut items: Vec<SidebarRow> = Vec::new();
        items.push(SidebarRow::Header(0));
        if !self.sidebar_collapsed[0] {
            let n = self.plugins.len();
            for i in 0..n
                invariant
                    n == np,
                    c == self.sidebar_collapsed@,
                    !c[0],
                    items@.len() == i + 1,
                    forall|j: int| 0 <= j < items@.len() ==> #[trigger] items@[j] == row_at(np, nt, c, j),
            {
                items.push(SidebarRow::Plugin);
            }
        }
        items.push(SidebarRow::Header(1));
        if !self.sidebar_collapsed[1] {
            let n = self.tags.len();
            let ghost base = items@.len();
            for i in 0..n
                invariant
                    n == nt,
                    c == self.sidebar_collapsed@,
                    !c[1],
                    base == 2 + shown_rows(c[0], np),
                    items@.len() == base + i,
                    forall|j: int| 0 <= j < items@.len() ==> #[trigger] items@[j] == row_at(np, nt, c, j),
            {
                items.push(SidebarRow::Tag);
            }
        }
        items.push(SidebarRow::Header(2));
        if !self.sidebar_collapsed[2] {
            items.push(SidebarRow::GitBranch);
        }
        assert(items@ =~= rows_of(*self));
        items
    }

    /// For each navigable row of the sidebar, the line where it is drawn.
    pub fn sidebar_para_lines(&self) -> (r: Vec<usize>)
        requires
            app_wf(*self),
        ensures
            r@.len() == rows_of(*self).len(),
            forall|i: int| 0 <= i < r@.len() ==> r@[i] as int == #[trigger] para_of(*self)[i],
            r@[0] == 0,
            forall|i: int, j: int| 0 <= i < j < r@.len() ==> r@[i] < r@[j],
    {
        let items = self.sidebar_items();
        let np = self.plugins.len();
        let nt = self.tags.len();
        let ghost c = self.sidebar_collapsed@;
        let mut line: usize = 0;
        let mut result: Vec<usize> = Vec::new();
        let n = items.len();
        for k in 0..n
            invariant
                n == items.len(),
                n == rows_len(np as nat, nt as nat, c),
                forall|j: int| 0 <= j < n ==> #[trigger] items@[j] == row_at(np as nat, nt as nat, c, j),
                np == self.plugins@.len(),
                nt == self.tags@.len(),
                c == self.sidebar_collapsed@,
                c.len() == 3,
                np + nt + 16 <= usize::MAX,
                result@.len() == k,
                forall|i: int| 0 <= i < k ==> result@[i] as int == #[trigger] para_at(np as nat, nt as nat, c, i),
                line as int == next_line(np as nat, nt as nat, c, k as int),
        {
            proof {
                lemma_para_step(np as nat, nt as nat, c, k as int);
            }
            match &items[k] {
                SidebarRow::Header(s) => {
                    if *s > 0 {
                        line = line + 1;
                    }
                },
                _ => {},
            }
            result.push(line);
            line = line + 1;
            match &items[k] {
                SidebarRow::Header(s) => {
                    let empty = if *s == 0 {
                        self.plugins.len() == 0
                    } else if *s == 1 {
                        self.tags.len() == 0
                    } else {
                        false
                    };
                    if *s < 3 && !self.sidebar_collapsed[*s] && empty {
                        line = line + 1;
                    }
                },
                _ => {},
            }
        }
        assert(result@.len() == rows_of(*self).len());
        assert(result@[0] == 0 && forall|i: int, j: int| 0 <= i < j < result@.len() ==> result@[i] < result@[j])
            by {
            crate::laws::law_sidebar_layout(*self);
            assert(result@[0] as int == para_of(*self)[0]);
            assert forall|i: int, j: int| 0 <= i < j < result@.len() implies result@[i] < result@[j] by {
                assert(result@[i] as int == para_of(*self)[i]);
                assert(result@[j] as int == para_of(*self)[j]);
            }
        }
        result
    }
}

/// The line that follows the row before row `k`, with the placeholder line
/// of an empty expanded section counted.
pub open spec fn next_line(np: nat, nt: nat, c: Seq<bool>, k: int) -> int {
    if k == 0 {
        0
    } else {
        let prev = row_at(np, nt, c, k - 1);
        para_at(np, nt, c, k - 1) + 1 + (if prev == SidebarRow::Header(0) && !c[0] && np == 0 {
            1int
        } else if prev == SidebarRow::Header(1) && !c[1] && nt == 0 {
            1int
        } else {
            0int
        })
    }
}

/// How the line of each row follows from the line of the row before it.
proof fn lemma_para_step(np: nat, nt: nat, c: Seq<bool>, k: int)
    requires
        0 <= k < rows_len(np, nt, c),
        np + nt + 16 <= usize::MAX,
    ensures
        para_at(np, nt, c, k) == next_line(np, nt, c, k) + (if row_at(np, nt, c, k) matches SidebarRow::Header(s) && s > 0 {
            1int
        } else {
            0int
        }),
        row_at(np, nt, c, k) matches SidebarRow::Header(s) ==> s < 3,
        next_line(np, nt, c, k + 1) == para_at(np, nt, c, k) + 1 + (if row_at(np, nt, c, k) == SidebarRow::Header(0) && !c[0] && np == 0 {
            1int
        } else if row_at(np, nt, c, k) == SidebarRow::Header(1) && !c[1] && nt == 0 {
            1int
        } else {
            0int
        }),
        0 <= para_at(np, nt, c, k) <= np + nt + 8,
{
}

impl App {
    /// Scrolls the sidebar so that the cursor's line is in view.
    fn scroll_to_cursor(&mut self)
        requires
            app_wf(*old(self)),
        ensures
            app_wf(*final(self)),
            scroll_to_cursor_post(*old(self), *final(self)),
    {
        let para_lines = self.sidebar_para_lines();
        if self.sidebar_cursor >= para_lines.len() {
            return;
        }
        let line = para_lines[self.sidebar_cursor];
        let visible = self.sidebar_height as usize;
        if visible == 0 {
            return;
        }
        if line < self.sidebar_scroll {
            self.sidebar_scroll = line;
        } else if line - self.sidebar_scroll >= visible {
            self.sidebar_scroll = if line >= visible - 1 {
                line - (visible - 1)
            } else {
                0
            };
        }
    }

    /// Up in the sidebar.
    pub fn sidebar_nav_up(&mut self)
        requires
            app_wf(*old(self)),
        ensures
            app_wf(*final(self)),
            sidebar_move_post(*old(self), *final(self), false),
    {
        if self.sidebar_cursor > 0 {
            self.sidebar_cursor = self.sidebar_cursor - 1;
            self.scroll_to_cursor();
        }
    }

    /// Down in the sidebar.
    pub fn sidebar_nav_down(&mut self)
        requires
            app_wf(*old(self)),
        ensures
            app_wf(*final(self)),
            sidebar_move_post(*old(self), *final(self), true),
    {
        let n = self.sidebar_items().len();
        let max = if n > 0 {
            n - 1
        } else {
            0
        };
        if self.sidebar_cursor < max {
            self.sidebar_cursor = self.sidebar_cursor + 1;
            self.scroll_to_cursor();
        }
    }

    /// Enter in the sidebar: collapses or expands the section whose header
    /// is under the cursor.
    pub fn sidebar_toggle_section(&mut self)
        requires
            app_wf(*old(self)),
        ensures
            app_wf(*final(self)),
            toggle_section_post(*old(self), *final(self)),
    {
        let items = self.sidebar_items();
        if self.sidebar_cursor >= items.len() {
            return;
        }
        let section = match &items[self.sidebar_cursor] {
            SidebarRow::Header(s) => *s,
            _ => {
                return;
            },
        };
        proof {
            assert(items@[self.sidebar_cursor as int] == row_at(
                self.plugins@.len(),
                self.tags@.len(),
                self.sidebar_collapsed@,
                self.sidebar_cursor as int,
            ));
            assert(section < 3);
        }
        let flipped = !self.sidebar_collapsed[section];
        self.sidebar_collapsed[section] = flipped;
        let total = self.sidebar_items().len();
        if self.sidebar_cursor >= total {
            self.sidebar_cursor = if total > 0 {
                total - 1
            } else {
                0
            };
        }
        self.scroll_to_cursor();
    }

    /// The lines of the drawn sidebar, marking the row under the cursor when
    /// the sidebar has the focus.
    pub fn sidebar_lines(&self) -> (r: Vec<SidebarLine>)
        requires
            app_wf(*self),
        ensures
            r@ == drawn_sidebar(*self),
            forall|j: int|
                0 <= j < r@.len() ==> ((exists|i: int| 0 <= i < rows_of(*self).len() && para_of(*self)[i] == j)
                    <==> !(#[trigger] r@[j] is Blank || r@[j] is Empty)),
    {
        let ghost a = *self;
        let focused = self.sidebar_focused;
        let cursor = self.sidebar_cursor;
        let c0 = self.sidebar_collapsed[0];
        let c1 = self.sidebar_collapsed[1];
        let c2 = self.sidebar_collapsed[2];
        let np = self.plugins.len();
        let nt = self.tags.len();
        let mut idx: usize = 0;
        let mut lines: Vec<SidebarLine> = Vec::new();
        lines.push(SidebarLine::Header { section: 0, collapsed: c0, selected: focused && idx == cursor });
        idx = idx + 1;
        if !c0 {
            if np == 0 {
                lines.push(SidebarLine::Empty { section: 0 });
            } else {
                for i in 0..np
                    invariant
                        np == a.plugins@.len(),
                        np > 0,
                        !a.sidebar_collapsed@[0],
                        a == *self,
                        app_wf(a),
                        focused == a.sidebar_focused,
                        cursor == a.sidebar_cursor,
                        idx == i + 1,
                        lines@.len() == i + 1,
                        forall|j: int| 0 <= j < lines@.len() ==> #[trigger] lines@[j] == line_at(a, j),
                {
                    lines.push(SidebarLine::Plugin { index: i, selected: focused && idx == cursor });
                    idx = idx + 1;
                }
            }
        }
        lines.push(SidebarLine::Blank);
        lines.push(SidebarLine::Header { section: 1, collapsed: c1, selected: focused && idx == cursor });
        idx = idx + 1;
        if !c1 {
            if nt == 0 {
                lines.push(SidebarLine::Empty { section: 1 });
            } else {
                let ghost base = lines@.len();
                let ghost base_idx = idx;
                for i in 0..nt
                    invariant
                        nt == a.tags@.len(),
                        nt > 0,
                        !a.sidebar_collapsed@[1],
                        a == *self,
                        app_wf(a),
                        focused == a.sidebar_focused,
                        cursor == a.sidebar_cursor,
                        base == 3 + body_len(a.sidebar_collapsed@[0], a.plugins@.len()),
                        base_idx == rows_before_tags(a),
                        idx == base_idx + i,
                        lines@.len() == base + i,
                        forall|j: int| 0 <= j < lines@.len() ==> #[trigger] lines@[j] == line_at(a, j),
                {
                    lines.push(SidebarLine::Tag { index: i, selected: focused && idx == cursor });
                    idx = idx + 1;
                }
            }
        }
        lines.push(SidebarLine::Blank);
        lines.push(SidebarLine::Header { section: 2, collapsed: c2, selected: focused && idx == cursor });
        idx = idx + 1;
        if !c2 {
            lines.push(SidebarLine::Branch { selected: focused && idx == cursor });
        }
        assert(lines@ =~= drawn_sidebar(a));
        assert(forall|j: int|
            0 <= j < lines@.len() ==> ((exists|i: int| 0 <= i < rows_of(a).len() && para_of(a)[i] == j) <==> !(
            #[trigger] lines@[j] is Blank || lines@[j] is Empty))) by {
            crate::laws::law_sidebar_layout(a);
        }
        lines
    }

    /// Keeps the sidebar scroll within `total` lines shown `visible` at a time.
    pub fn clamp_sidebar_scroll(&mut self, total: usize, visible: usize)
        requires
            app_wf(*old(self)),
        ensures
            app_wf(*final(self)),
            *final(self) == (App {
                sidebar_scroll: if old(self).sidebar_scroll > sat_pred(total - visible + 1) {
                    sat_pred(total - visible + 1) as usize
                } else {
                    old(self).sidebar_scroll
                },
                ..*old(self)
            }),
    {
        let max_scroll = if total > visible {
            total - visible
        } else {
            0
        };
        if self.sidebar_scroll > max_scroll {
            self.sidebar_scroll = max_scroll;
        }
    }
}

/// The number of navigable rows before the tag rows.
pub open spec fn rows_before_tags(a: App) -> int {
    2 + if a.sidebar_collapsed@[0] {
        0int
    } else {
        a.plugins@.len() as int
    }
}

/// Whether the row at position `r` is marked: the sidebar has the focus and
/// its cursor is on that row.
pub open spec fn marked(a: App, r: int) -> bool {
    a.sidebar_focused && a.sidebar_cursor == r
}

/// The number of lines of the drawn sidebar.
pub open spec fn drawn_len(a: App) -> nat {
    let c = a.sidebar_collapsed@;
    5 + body_len(c[0], a.plugins@.len()) + body_len(c[1], a.tags@.len()) + if c[2] {
        0nat
    } else {
        1nat
    }
}

/// Line `j` of the drawn sidebar: each section's header, then its body (its
/// rows, or a placeholder when it has none, or nothing when collapsed), with
/// a blank line between sections.
pub open spec fn line_at(a: App, j: int) -> SidebarLine {
    let c = a.sidebar_collapsed@;
    let np = a.plugins@.len();
    let nt = a.tags@.len();
    let b0 = body_len(c[0], np) as int;
    let b1 = body_len(c[1], nt) as int;
    let p0 = shown_rows(c[0], np);
    let t0 = shown_rows(c[1], nt);
    if j == 0 {
        SidebarLine::Header { section: 0, collapsed: c[0], selected: marked(a, 0) }
    } else if j <= b0 {
        if np == 0 {
            SidebarLine::Empty { section: 0 }
        } else {
            SidebarLine::Plugin { index: (j - 1) as usize, selected: marked(a, j) }
        }
    } else if j == b0 + 1 {
        SidebarLine::Blank
    } else if j == b0 + 2 {
        SidebarLine::Header { section: 1, collapsed: c[1], selected: marked(a, p0 + 1) }
    } else if j <= b0 + 2 + b1 {
        if nt == 0 {
            SidebarLine::Empty { section: 1 }
        } else {
            SidebarLine::Tag { index: (j - b0 - 3) as usize, selected: marked(a, p0 + 2 + (j - b0 - 3)) }
        }
    } else if j == b0 + b1 + 3 {
        SidebarLine::Blank
    } else if j == b0 + b1 + 4 {
        SidebarLine::Header { section: 2, collapsed: c[2], selected: marked(a, p0 + t0 + 2) }
    } else {
        SidebarLine::Branch { selected: marked(a, p0 + t0 + 3) }
    }
}

/// The drawn sidebar of `a`, line by line.
pub open spec fn drawn_sidebar(a: App) -> Seq<SidebarLine> {
    Seq::new(drawn_len(a), |j: int| line_at(a, j))
}

/// Each navigable row of the sidebar is drawn on the line that
/// `sidebar_para_lines` gives for it, and shows the cursor exactly when the
/// sidebar has the focus and the cursor is on that row.
pub proof fn lemma_rows_drawn_at_para_lines(a: App)
    requires
        app_wf(a),
    ensures
        forall|i: int| 0 <= i < rows_of(a).len() ==> 0 <= #[trigger] para_of(a)[i] < drawn_sidebar(a).len()
            && draws_row(
            drawn_sidebar(a)[para_of(a)[i]],
            rows_of(a)[i],
            i,
            a.sidebar_focused,
            a.sidebar_cursor as int,
        ),
{
    let np = a.plugins@.len();
    let nt = a.tags@.len();
    let c = a.sidebar_collapsed@;
    assert forall|i: int| 0 <= i < rows_of(a).len() implies 0 <= #[trigger] para_of(a)[i] < drawn_sidebar(
        a,
    ).len() && draws_row(
        drawn_sidebar(a)[para_of(a)[i]],
        rows_of(a)[i],
        i,
        a.sidebar_focused,
        a.sidebar_cursor as int,
    ) by {
        assert(rows_of(a)[i] == row_at(np, nt, c, i));
        assert(para_of(a)[i] == para_at(np, nt, c, i));
        let j = para_at(np, nt, c, i);
        assert(drawn_sidebar(a)[j] == line_at(a, j));
    }
}

} // verus!
