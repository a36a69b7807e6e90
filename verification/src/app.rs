//! The state of the terminal interface and how the library tab moves through
//! the library. Whatever needs the file system, git or the terminal is not
//! done here: a transition that needs it returns an [`Effect`] naming the work,
//! and the caller hands the outcome back through the matching method.
use vstd::prelude::*;
use crate::index::{EntryMeta, PluginInfo};
use crate::text::{join_slash, views};

verus! {

/// A rectangle of terminal cells.
#[derive(Clone, Copy, PartialEq, Eq, Structural, Debug)]
pub struct Rect {
    pub x: u16,
    pub y: u16,
    pub width: u16,
    pub height: u16,
}

/// An open dialog.
#[allow(inconsistent_fields)]
pub enum Modal {
    /// Metadata form: file, description, tags (comma separated).
    Add { fields: [String; 3], focused: usize },
    /// Metadata of one file, label and value per line.
    Show { lines: Vec<(String, String)>, scroll: u16 },
    /// Confirmation before removing a key from the index.
    Remove { key: String },
    /// The entries of the index.
    List { entries: Vec<(String, EntryMeta)>, cursor: usize },
    /// The output of an operation.
    Output { title: String, lines: Vec<String>, scroll: u16 },
    /// Copying a library file or folder to a destination path.
    Use { key: String, dest: String, is_dir: bool },
}

/// One line of the editable file list.
pub struct EditItem {
    /// The name the item had; `None` for a line added while editing.
    pub original: Option<String>,
    pub current: String,
    pub is_dir: bool,
}

/// The editable file list of insert mode, with the line and column of the cursor.
pub struct EditBuffer {
    pub items: Vec<EditItem>,
    pub cursor: usize,
    pub col: usize,
}

/// What the keyboard does.
pub enum Mode {
    Normal,
    Insert(EditBuffer),
    Command(String),
}

/// A navigable row of the sidebar.
#[derive(Clone, Copy, PartialEq, Eq, Structural, Debug)]
pub enum SidebarRow {
    /// The header of section 0 (plugins), 1 (tags) or 2 (git).
    Header(usize),
    Plugin,
    Tag,
    GitBranch,
}

/// A change to the library's files that insert mode asks for.
pub enum FsOp {
    /// Rename the path `from` to `to`.
    Rename { from: String, to: String },
    /// Create the directory `path` and its parents.
    CreateDir { path: String },
    /// Create the parents of `path`, then an empty file at `path`.
    CreateFile { path: String },
}

/// Work that a transition leaves to the caller, which does it and hands the
/// outcome back.
pub enum Effect {
    /// Nothing to do.
    Idle,
    /// Show the preview of the selected entry: `load_preview`, then, for the
    /// entry it names, `show_dir_preview` or `show_file_preview`.
    Preview,
    /// List the current directory again, then `reload`.
    Reload,
    /// List the current directory and count the tags again, then `reload_all`.
    ReloadAll,
    /// Read the library's git status and log, then `load_git_info`.
    GitInfo,
    /// Run this `basalto` command in the terminal, then reload everything.
    Shell(String),
    /// Read the index, then `open_show_modal` for this key.
    ShowEntry(String),
    /// Read the index, then `open_list_modal`.
    ListEntries,
    /// Run `git push` in the library, then `open_push_modal`.
    Push,
    /// See whether this key is a directory of the library, then `open_use_modal`.
    OfferUse(String),
    /// List the directory `dir`, then `apply_tab_complete` with `dir` and `prefix`.
    ListForCompletion { dir: String, prefix: String },
    /// Copy `src` to `dst` recursively, then `finish_use`.
    Copy { key: String, src: String, dst: String },
    /// Add an entry to the index, then reload everything.
    AddEntry { key: String, desc: String, tags: Vec<String> },
    /// Remove a key from the index, then reload everything.
    RemoveEntry(String),
    /// Apply these changes to the files in order, ignoring failures, then reload.
    ApplyEdits(Vec<FsOp>),
    /// Delete these names (files or whole folders) from `dir`, then reload.
    Delete { dir: String, names: Vec<String> },
}

/// The state of the terminal interface.
pub struct App {
    // library tab
    pub entries: Vec<(String, EntryMeta)>,
    pub selected: usize,
    pub preview_lines: Vec<String>,
    pub preview_git_info: String,
    pub list_area: Rect,
    pub current_path: String,
    /// The directories left to enter the current one, each with the entry then selected.
    pub path_stack: Vec<(String, usize)>,
    pub lib_path: String,
    pub active_library: String,
    pub mode: Mode,
    // pending deletions (dd)
    pub d_pressed: bool,
    pub pending_deletions: Vec<String>,
    pub launch_dir: String,
    pub should_quit: bool,
    pub show_help: bool,
    pub help_scroll: u16,
    pub modal: Option<Modal>,
    pub pending_open: Option<String>,
    // global
    pub tab: usize,
    pub tags: Vec<(String, usize)>,
    pub plugins: Vec<PluginInfo>,
    // sidebar
    pub sidebar_focused: bool,
    pub sidebar_cursor: usize,
    pub sidebar_collapsed: [bool; 3],
    pub sidebar_scroll: usize,
    pub sidebar_height: u16,
    // git tab
    pub git_lines: Vec<String>,
    pub git_scroll: u16,
    // plugins tab
    pub plugins_cursor: usize,
}

/// `n - 1`, or 0 when `n` is 0.
pub open spec fn sat_pred(n: int) -> int {
    if n > 0 {
        n - 1
    } else {
        0
    }
}

/// The path of `name` inside `dir`, `dir` being the library's root when empty.
pub open spec fn child_path(dir: Seq<char>, name: Seq<char>) -> Seq<char> {
    if dir.len() == 0 {
        name
    } else {
        dir + seq!['/'] + name
    }
}

/// The `..` entry that leads back to the parent directory.
pub open spec fn is_parent_name(name: Seq<char>) -> bool {
    name == ".."@
}

/// The name and metadata of the selected entry, if any.
pub open spec fn selected_entry(a: App) -> Option<(String, EntryMeta)> {
    if a.selected < a.entries@.len() {
        Some(a.entries@[a.selected as int])
    } else {
        None
    }
}

/// What moving the cursor of the library tab one entry down does.
pub open spec fn move_down_post(pre: App, post: App, eff: Effect) -> bool {
    if pre.entries@.len() > 0 && pre.selected < pre.entries@.len() - 1 {
        post == (App { selected: (pre.selected + 1) as usize, ..pre }) && eff is Preview
    } else {
        post == pre && eff is Idle
    }
}

/// What moving the cursor of the library tab one entry up does.
pub open spec fn move_up_post(pre: App, post: App, eff: Effect) -> bool {
    if pre.selected > 0 {
        post == (App { selected: (pre.selected - 1) as usize, ..pre }) && eff is Preview
    } else {
        post == pre && eff is Idle
    }
}

/// What "down" does on the active tab: scroll the git tab, move the plugin
/// cursor, or move the library cursor.
pub open spec fn nav_down_post(pre: App, post: App, eff: Effect) -> bool {
    if pre.tab == 1 {
        let max = sat_pred(pre.git_lines@.len() as int) as u16;
        eff is Idle && if pre.git_scroll < max {
            post == (App { git_scroll: (pre.git_scroll + 1) as u16, ..pre })
        } else {
            post == pre
        }
    } else if pre.tab == 2 {
        eff is Idle && if pre.plugins_cursor < sat_pred(pre.plugins@.len() as int) {
            post == (App { plugins_cursor: (pre.plugins_cursor + 1) as usize, ..pre })
        } else {
            post == pre
        }
    } else {
        move_down_post(pre, post, eff)
    }
}

/// What "up" does on the active tab.
pub open spec fn nav_up_post(pre: App, post: App, eff: Effect) -> bool {
    if pre.tab == 1 {
        eff is Idle && post == (App { git_scroll: sat_pred(pre.git_scroll as int) as u16, ..pre })
    } else if pre.tab == 2 {
        eff is Idle && if pre.plugins_cursor > 0 {
            post == (App { plugins_cursor: (pre.plugins_cursor - 1) as usize, ..pre })
        } else {
            post == pre
        }
    } else {
        move_up_post(pre, post, eff)
    }
}

/// What leaving the current directory does: back to the directory it was
/// entered from, with the entry then selected, or nothing at the root.
pub open spec fn navigate_up_post(pre: App, post: App, eff: Effect) -> bool {
    if pre.path_stack@.len() > 0 {
        let top = pre.path_stack@.last();
        &&& post == (App {
            current_path: top.0,
            selected: top.1,
            path_stack: post.path_stack,
            ..pre
        })
        &&& post.path_stack@ == pre.path_stack@.drop_last()
        &&& eff is Reload
    } else {
        post == pre && eff is Idle
    }
}

/// What Enter does on the selected entry: `..` leaves the directory, a
/// directory is entered, a file is marked to be opened in the editor.
pub open spec fn enter_selected_post(pre: App, post: App, eff: Effect) -> bool {
    match selected_entry(pre) {
        None => post == pre && eff is Idle,
        Some(e) => if is_parent_name(e.0@) {
            navigate_up_post(pre, post, eff)
        } else if e.1.is_dir {
            &&& post == (App {
                current_path: post.current_path,
                path_stack: post.path_stack,
                selected: 0,
                ..pre
            })
            &&& post.current_path@ == child_path(pre.current_path@, e.0@)
            &&& post.path_stack@ == pre.path_stack@.push((pre.current_path, pre.selected))
            &&& eff is Reload
        } else {
            &&& post == (App { pending_open: post.pending_open, ..pre })
            &&& post.pending_open matches Some(p) && p@ == pre.lib_path@ + seq!['/'] + child_path(
                pre.current_path@,
                e.0@,
            )
            &&& eff is Idle
        },
    }
}

/// The row of the file list under the terminal cell `(x, y)`, if the cell lies
/// in the list's area; the list scrolls to keep the selected entry in view.
pub open spec fn clicked_row(area: Rect, selected: int, x: int, y: int) -> Option<int> {
    if area == (Rect { x: 0, y: 0, width: 0, height: 0 }) || x < area.x || x >= area.x + area.width || y
        < area.y || y >= area.y + area.height {
        None
    } else {
        let height = area.height as int;
        let scroll = if selected >= height {
            selected - height + 1
        } else {
            0
        };
        Some(scroll + (y - area.y))
    }
}

/// The bounds of `area` that a click at `(x, y)` is compared with are
/// representable: the right edge once the click is at or right of the left
/// edge, the bottom edge once it is also left of the right edge and at or
/// below the top edge.
pub open spec fn click_in_range(area: Rect, x: u16, y: u16) -> bool {
    area != (Rect { x: 0, y: 0, width: 0, height: 0 }) ==> {
        &&& x >= area.x ==> area.x + area.width <= u16::MAX
        &&& (x >= area.x && x < area.x + area.width && y >= area.y) ==> area.y + area.height <= u16::MAX
    }
}

/// What a click at `(x, y)` does: select the entry under it.
pub open spec fn handle_click_post(pre: App, post: App, eff: Effect, x: u16, y: u16) -> bool {
    match clicked_row(pre.list_area, pre.selected as int, x as int, y as int) {
        Some(row) => if row < pre.entries@.len() {
            post == (App { selected: row as usize, ..pre }) && eff is Preview
        } else {
            post == pre && eff is Idle
        },
        None => post == pre && eff is Idle,
    }
}


/// The index key of the selected entry on the library tab: empty on other
/// tabs, when no entry is selected, or on `..`.
pub open spec fn selected_key_of(a: App) -> Seq<char> {
    if a.tab != 0 {
        seq![]
    } else {
        match selected_entry(a) {
            Some(e) => if is_parent_name(e.0@) {
                seq![]
            } else {
                child_path(a.current_path@, e.0@)
            },
            None => seq![],
        }
    }
}

/// The invariant of the interface state that its transitions keep: the tab
/// is one of the three, the metadata form focuses one of its three fields,
/// and the cursor of insert mode stands on a line, inside its name.
pub open spec fn app_wf(a: App) -> bool {
    &&& a.tab < 3
    &&& a.plugins@.len() + a.tags@.len() + 16 <= usize::MAX
    &&& (a.modal matches Some(Modal::Add { focused, .. }) ==> focused < 3)
    &&& (a.mode matches Mode::Insert(buf) ==> buffer_wf(buf))
}

/// The cursor of an edit buffer stands on a line (or at 0 when there are
/// none), no further right than the end of the line's name.
pub open spec fn buffer_wf(buf: EditBuffer) -> bool {
    if buf.items@.len() == 0 {
        buf.cursor == 0 && buf.col == 0
    } else {
        buf.cursor < buf.items@.len() && buf.col <= buf.items@[buf.cursor as int].current@.len()
    }
}

/// `selected` kept inside a list of `n` entries.
pub open spec fn clamp_selected(selected: usize, n: nat) -> usize {
    if selected >= n {
        sat_pred(n as int) as usize
    } else {
        selected
    }
}

/// The names pending deletion after toggling `name`: removed if pending,
/// added at the end otherwise.
pub open spec fn toggled(pending: Seq<Seq<char>>, name: Seq<char>) -> Seq<Seq<char>> {
    match pending.index_of_first(name) {
        Some(i) => pending.remove(i),
        None => pending.push(name),
    }
}

/// What `dd` does: toggle the selected entry (not `..`) for deletion.
pub open spec fn toggle_delete_post(pre: App, post: App) -> bool {
    match selected_entry(pre) {
        Some(e) => if is_parent_name(e.0@) {
            post == pre
        } else {
            post == (App { pending_deletions: post.pending_deletions, ..pre })
                && views(post.pending_deletions@) == toggled(views(pre.pending_deletions@), e.0@)
        },
        None => post == pre,
    }
}

/// The tab after `tab`, and whether the git tab needs its content loaded.
pub open spec fn tab_switch_post(pre: App, post: App, eff: Effect, new_tab: usize) -> bool {
    &&& post == (App { tab: new_tab, ..pre })
    &&& if new_tab == 1 && pre.git_lines@.len() == 0 {
        eff is GitInfo
    } else {
        eff is Idle
    }
}

/// The preview of the `..` entry: where it leads back to.
pub open spec fn parent_preview(stack: Seq<(String, usize)>) -> Seq<char> {
    "← volver a: /"@ + if stack.len() > 0 {
        stack.last().0@
    } else {
        "biblioteca"@
    }
}

/// An entry whose contents the caller reads for the preview.
pub struct PreviewTarget {
    /// The entry's path.
    pub full: String,
    /// The entry's path inside the library, for `git log`.
    pub rel: String,
    /// Known to be a directory; otherwise the caller asks the file system.
    pub is_dir: bool,
}

impl App {
    /// A new interface on the library `lib_path`, showing the library's root
    /// directory `entries`; the caller shows the preview next.
    pub fn new(
        active_library: String,
        lib_path: String,
        tags: Vec<(String, usize)>,
        plugins: Vec<PluginInfo>,
        entries: Vec<(String, EntryMeta)>,
        launch_dir: String,
    ) -> (a: App)
        requires
            plugins@.len() + tags@.len() + 16 <= usize::MAX,
        ensures
            app_wf(a),
            a.active_library == active_library,
            a.lib_path == lib_path,
            a.tags == tags,
            a.plugins == plugins,
            a.entries == entries,
            a.launch_dir == launch_dir,
            a.selected == 0,
            a.preview_lines@.len() == 0,
            a.preview_git_info@.len() == 0,
            a.list_area == (Rect { x: 0, y: 0, width: 0, height: 0 }),
            a.current_path@.len() == 0,
            a.path_stack@.len() == 0,
            a.mode is Normal,
            !a.d_pressed,
            a.pending_deletions@.len() == 0,
            !a.should_quit,
            !a.show_help,
            a.help_scroll == 0,
            a.modal is None,
            a.pending_open is None,
            a.tab == 0,
            !a.sidebar_focused,
            a.sidebar_cursor == 0,
            a.sidebar_collapsed@ == seq![false, false, false],
            a.sidebar_scroll == 0,
            a.sidebar_height == 0,
            a.git_lines@.len() == 0,
            a.git_scroll == 0,
            a.plugins_cursor == 0,
    {
        let a = App {
            entries,
            selected: 0,
            preview_lines: Vec::new(),
            preview_git_info: String::new(),
            list_area: Rect { x: 0, y: 0, width: 0, height: 0 },
            current_path: String::new(),
            path_stack: Vec::new(),
            lib_path,
            active_library,
            mode: Mode::Normal,
            d_pressed: false,
            pending_deletions: Vec::new(),
            launch_dir,
            should_quit: false,
            show_help: false,
            help_scroll: 0,
            modal: None,
            pending_open: None,
            tab: 0,
            tags,
            plugins,
            sidebar_focused: false,
            sidebar_cursor: 0,
            sidebar_collapsed: [false, false, false],
            sidebar_scroll: 0,
            sidebar_height: 0,
            git_lines: Vec::new(),
            git_scroll: 0,
            plugins_cursor: 0,
        };
        assert(a.sidebar_collapsed@ =~= seq![false, false, false]);
        a
    }

    /// "Down" on the active tab.
    pub fn nav_down(&mut self) -> (eff: Effect)
        ensures
            nav_down_post(*old(self), *final(self), eff),
    {
        if self.tab == 1 {
            let n = self.git_lines.len();
            let m = if n > 0 {
                n - 1
            } else {
                0
            };
            let max = #[verifier::truncate] (m as u16);
            if self.git_scroll < max {
                self.git_scroll = self.git_scroll + 1;
            }
            Effect::Idle
        } else if self.tab == 2 {
            let n = self.plugins.len();
            let m = if n > 0 {
                n - 1
            } else {
                0
            };
            if self.plugins_cursor < m {
                self.plugins_cursor = self.plugins_cursor + 1;
            }
            Effect::Idle
        } else {
            self.move_down()
        }
    }

    /// "Up" on the active tab.
    pub fn nav_up(&mut self) -> (eff: Effect)
        ensures
            nav_up_post(*old(self), *final(self), eff),
    {
        if self.tab == 1 {
            if self.git_scroll > 0 {
                self.git_scroll = self.git_scroll - 1;
            }
            Effect::Idle
        } else if self.tab == 2 {
            if self.plugins_cursor > 0 {
                self.plugins_cursor = self.plugins_cursor - 1;
            }
            Effect::Idle
        } else {
            self.move_up()
        }
    }

    /// Enter on the library tab.
    pub fn nav_enter(&mut self) -> (eff: Effect)
        ensures
            enter_selected_post(*old(self), *final(self), eff),
    {
        self.enter_selected()
    }

    fn move_down(&mut self) -> (eff: Effect)
        ensures
            move_down_post(*old(self), *final(self), eff),
    {
        if self.entries.len() > 0 && self.selected < self.entries.len() - 1 {
            self.selected = self.selected + 1;
            Effect::Preview
        } else {
            Effect::Idle
        }
    }

    fn move_up(&mut self) -> (eff: Effect)
        ensures
            move_up_post(*old(self), *final(self), eff),
    {
        if self.selected > 0 {
            self.selected = self.selected - 1;
            Effect::Preview
        } else {
            Effect::Idle
        }
    }

    /// The path of `name` in the current directory, inside the library.
    pub fn full_path(&self, name: &str) -> (r: String)
        ensures
            r@ == self.lib_path@ + seq!['/'] + child_path(self.current_path@, name@),
    {
        if self.current_path.as_str().unicode_len() == 0 {
            join_slash(self.lib_path.as_str(), name)
        } else {
            let r = join_slash(join_slash(self.lib_path.as_str(), self.current_path.as_str()).as_str(), name);
            assert(r@ =~= self.lib_path@ + seq!['/'] + child_path(self.current_path@, name@));
            r
        }
    }

    /// The path of the current directory, inside the library.
    pub fn current_dir_path(&self) -> (r: String)
        ensures
            r@ == (if self.current_path@.len() == 0 {
                self.lib_path@
            } else {
                self.lib_path@ + seq!['/'] + self.current_path@
            }),
    {
        if self.current_path.as_str().unicode_len() == 0 {
            self.lib_path.clone()
        } else {
            join_slash(self.lib_path.as_str(), self.current_path.as_str())
        }
    }

    /// The index key of `name` in the current directory.
    pub fn key_of(&self, name: &str) -> (r: String)
        ensures
            r@ == child_path(self.current_path@, name@),
    {
        if self.current_path.as_str().unicode_len() == 0 {
            String::from_str(name)
        } else {
            join_slash(self.current_path.as_str(), name)
        }
    }

    /// Enter on the selected entry.
    pub fn enter_selected(&mut self) -> (eff: Effect)
        ensures
            enter_selected_post(*old(self), *final(self), eff),
    {
        if self.selected >= self.entries.len() {
            return Effect::Idle;
        }
        let name = self.entries[self.selected].0.clone();
        let is_dir = self.entries[self.selected].1.is_dir;
        if name == String::from_str("..") {
            return self.navigate_up();
        }
        if is_dir {
            let new_path = self.key_of(name.as_str());
            let prev = self.current_path.clone();
            self.path_stack.push((prev, self.selected));
            self.current_path = new_path;
            self.selected = 0;
            Effect::Reload
        } else {
            let p = self.full_path(name.as_str());
            self.pending_open = Some(p);
            Effect::Idle
        }
    }

    /// Back to the directory the current one was entered from.
    pub fn navigate_up(&mut self) -> (eff: Effect)
        ensures
            navigate_up_post(*old(self), *final(self), eff),
    {
        if self.path_stack.len() == 0 {
            return Effect::Idle;
        }
        match self.path_stack.pop() {
            Some((prev_path, prev_idx)) => {
                self.current_path = prev_path;
                self.selected = prev_idx;
                Effect::Reload
            },
            None => Effect::Idle,
        }
    }

    /// A left click at the terminal cell `(x, y)`.
    pub fn handle_click(&mut self, x: u16, y: u16) -> (eff: Effect)
        requires
            click_in_range(old(self).list_area, x, y),
        ensures
            handle_click_post(*old(self), *final(self), eff, x, y),
    {
        let a = self.list_area;
        if a == (Rect { x: 0, y: 0, width: 0, height: 0 }) {
            return Effect::Idle;
        }
        if x < a.x || x >= a.x + a.width || y < a.y || y >= a.y + a.height {
            return Effect::Idle;
        }
        let height = a.height as usize;
        let scroll = if self.selected >= height {
            self.selected - height + 1
        } else {
            0
        };
        let clicked = scroll + (y - a.y) as usize;
        if clicked < self.entries.len() {
            self.selected = clicked;
            Effect::Preview
        } else {
            Effect::Idle
        }
    }

    /// Takes the listing of the current directory after a reload: keeps the
    /// selection inside it and drops the pending deletions.
    pub fn reload(&mut self, entries: Vec<(String, EntryMeta)>) -> (eff: Effect)
        requires
            app_wf(*old(self)),
        ensures
            app_wf(*final(self)),
            *final(self) == (App {
                entries,
                selected: clamp_selected(old(self).selected, entries@.len()),
                pending_deletions: final(self).pending_deletions,
                ..*old(self)
            }),
            final(self).pending_deletions@.len() == 0,
            eff is Preview,
    {
        self.entries = entries;
        if self.selected >= self.entries.len() {
            let n = self.entries.len();
            self.selected = if n > 0 {
                n - 1
            } else {
                0
            };
        }
        self.pending_deletions.clear();
        Effect::Preview
    }

    /// Takes the listing of the current directory and the tag counts after a
    /// reload of everything, keeping the selection inside the listing.
    pub fn reload_all(&mut self, entries: Vec<(String, EntryMeta)>, tags: Vec<(String, usize)>) -> (eff: Effect)
        requires
            app_wf(*old(self)),
            old(self).plugins@.len() + tags@.len() + 16 <= usize::MAX,
        ensures
            app_wf(*final(self)),
            *final(self) == (App {
                entries,
                tags,
                selected: clamp_selected(old(self).selected, entries@.len()),
                ..*old(self)
            }),
            eff is Preview,
    {
        self.entries = entries;
        self.tags = tags;
        if self.selected >= self.entries.len() {
            let n = self.entries.len();
            self.selected = if n > 0 {
                n - 1
            } else {
                0
            };
        }
        Effect::Preview
    }

    /// Shows the preview of the selected entry: nothing when there is none,
    /// where `..` leads back to, or else the entry that the caller reads.
    pub fn load_preview(&mut self) -> (r: Option<PreviewTarget>)
        requires
            app_wf(*old(self)),
        ensures
            app_wf(*final(self)),
            match selected_entry(*old(self)) {
                None => r is None && *final(self) == (App {
                    preview_lines: final(self).preview_lines,
                    preview_git_info: final(self).preview_git_info,
                    ..*old(self)
                }) && final(self).preview_lines@.len() == 0 && final(self).preview_git_info@.len() == 0,
                Some(e) => if is_parent_name(e.0@) {
                    r is None && *final(self) == (App {
                        preview_lines: final(self).preview_lines,
                        preview_git_info: final(self).preview_git_info,
                        ..*old(self)
                    }) && views(final(self).preview_lines@) == seq![parent_preview(old(self).path_stack@)]
                        && final(self).preview_git_info@.len() == 0
                } else {
                    &&& *final(self) == *old(self)
                    &&& r matches Some(t)
                    &&& t.full@ == old(self).lib_path@ + seq!['/'] + child_path(old(self).current_path@, e.0@)
                    &&& t.rel@ == child_path(old(self).current_path@, e.0@)
                    &&& t.is_dir == e.1.is_dir
                },
            },
    {
        if self.selected >= self.entries.len() {
            self.preview_lines = Vec::new();
            self.preview_git_info = String::new();
            return None;
        }
        let name = self.entries[self.selected].0.clone();
        if name == String::from_str("..") {
            let mut text = String::from_str("← volver a: /");
            let n = self.path_stack.len();
            if n > 0 {
                text.append(self.path_stack[n - 1].0.as_str());
            } else {
                text.append("biblioteca");
            }
            let mut lines = Vec::new();
            lines.push(text);
            assert(views(lines@) =~= seq![parent_preview(self.path_stack@)]);
            self.preview_lines = lines;
            self.preview_git_info = String::new();
            return None;
        }
        Some(PreviewTarget {
            full: self.full_path(name.as_str()),
            rel: self.key_of(name.as_str()),
            is_dir: self.entries[self.selected].1.is_dir,
        })
    }

    /// The index key of the selected entry on the library tab; empty on
    /// other tabs, with no entry selected, or on `..`.
    pub fn selected_key(&self) -> (r: String)
        ensures
            r@ == selected_key_of(*self),
    {
        if self.tab != 0 || self.selected >= self.entries.len() {
            return String::new();
        }
        let name = &self.entries[self.selected].0;
        if *name == String::from_str("..") {
            return String::new();
        }
        self.key_of(name.as_str())
    }

    /// Opens or closes the help; closing it scrolls it back to the top.
    pub fn toggle_help(&mut self)
        requires
            app_wf(*old(self)),
        ensures
            app_wf(*final(self)),
            toggle_help_post(*old(self), *final(self)),
    {
        self.show_help = !self.show_help;
        if !self.show_help {
            self.help_scroll = 0;
        }
    }

    /// Marks the selected entry for deletion, or unmarks it.
    pub fn toggle_delete(&mut self)
        requires
            app_wf(*old(self)),
        ensures
            app_wf(*final(self)),
            toggle_delete_post(*old(self), *final(self)),
    {
        if self.selected >= self.entries.len() {
            return;
        }
        let name = self.entries[self.selected].0.clone();
        if name == String::from_str("..") {
            return;
        }
        let n = self.pending_deletions.len();
        let mut pos: usize = 0;
        while pos < n && !(self.pending_deletions[pos] == name)
            invariant
                n == self.pending_deletions.len(),
                pos <= n,
                forall|j: int| 0 <= j < pos ==> self.pending_deletions@[j]@ != name@,
            decreases n - pos,
        {
            pos = pos + 1;
        }
        let ghost pv = views(self.pending_deletions@);
        if pos < n {
            proof {
                assert(pv[pos as int] == name@);
                pv.index_of_first_ensures(name@);
                let i = pv.index_of_first(name@)->0;
                assert(i == pos) by {
                    if i < pos {
                        assert(pv[i] == self.pending_deletions@[i]@);
                    } else if i > pos {
                        assert(pv[pos as int] == name@);
                    }
                }
            }
            self.pending_deletions.remove(pos);
            assert(views(self.pending_deletions@) =~= pv.remove(pos as int));
        } else {
            assert(!pv.contains(name@)) by {
                if pv.contains(name@) {
                    let i = choose|i: int| 0 <= i < pv.len() && pv[i] == name@;
                    assert(self.pending_deletions@[i]@ == name@);
                }
            }
            proof {
                pv.index_of_first_ensures(name@);
            }
            self.pending_deletions.push(name);
            assert(views(self.pending_deletions@) =~= pv.push(name@));
        }
    }

    /// Takes the pending deletions away for the caller to carry out in the
    /// current directory; nothing when none is pending.
    pub fn commit_deletions(&mut self) -> (eff: Effect)
        requires
            app_wf(*old(self)),
        ensures
            app_wf(*final(self)),
            commit_deletions_post(*old(self), *final(self), eff),
    {
        if self.pending_deletions.len() == 0 {
            return Effect::Idle;
        }
        let dir = self.current_dir_path();
        let mut names: Vec<String> = Vec::new();
        std::mem::swap(&mut names, &mut self.pending_deletions);
        Effect::Delete { dir, names }
    }

    /// Forgets the pending deletions.
    pub fn cancel_deletions(&mut self)
        requires
            app_wf(*old(self)),
        ensures
            app_wf(*final(self)),
            cancel_deletions_post(*old(self), *final(self)),
    {
        self.pending_deletions.clear();
    }

    /// Moves the keyboard focus to or from the sidebar.
    pub fn toggle_sidebar_focus(&mut self)
        requires
            app_wf(*old(self)),
        ensures
            app_wf(*final(self)),
            toggle_sidebar_focus_post(*old(self), *final(self)),
    {
        self.sidebar_focused = !self.sidebar_focused;
    }

    /// The next tab, in a cycle of three.
    pub fn next_tab(&mut self) -> (eff: Effect)
        requires
            app_wf(*old(self)),
        ensures
            app_wf(*final(self)),
            tab_switch_post(*old(self), *final(self), eff, ((old(self).tab + 1) % 3) as usize),
    {
        self.tab = (self.tab + 1) % 3;
        if self.tab == 1 && self.git_lines.len() == 0 {
            Effect::GitInfo
        } else {
            Effect::Idle
        }
    }

    /// The previous tab, in a cycle of three.
    pub fn prev_tab(&mut self) -> (eff: Effect)
        requires
            app_wf(*old(self)),
        ensures
            app_wf(*final(self)),
            tab_switch_post(*old(self), *final(self), eff, ((old(self).tab + 2) % 3) as usize),
    {
        self.tab = (self.tab + 2) % 3;
        if self.tab == 1 && self.git_lines.len() == 0 {
            Effect::GitInfo
        } else {
            Effect::Idle
        }
    }

}

/// Showing or hiding the help; hiding it scrolls it back to the top.
pub open spec fn toggle_help_post(pre: App, post: App) -> bool {
    &&& post == (App {
            show_help: !pre.show_help,
            help_scroll: if pre.show_help {
                0
            } else {
                pre.help_scroll
            },
            ..pre
        })
}

/// Deleting what is marked: nothing when nothing is, else the marked names
/// of the current directory go to the caller to delete, and the marks are cleared.
pub open spec fn commit_deletions_post(pre: App, post: App, eff: Effect) -> bool {
    &&& pre.pending_deletions@.len() == 0 ==> post == pre && eff is Idle
    &&& pre.pending_deletions@.len() > 0 ==> {
            &&& post == (App { pending_deletions: post.pending_deletions, ..pre })
            &&& post.pending_deletions@.len() == 0
            &&& eff matches Effect::Delete { dir, names } && names@ == pre.pending_deletions@
                && dir@ == (if pre.current_path@.len() == 0 {
                pre.lib_path@
            } else {
                pre.lib_path@ + seq!['/'] + pre.current_path@
            })
        }
}

/// Unmarking every entry marked for deletion.
pub open spec fn cancel_deletions_post(pre: App, post: App) -> bool {
    &&& post == (App { pending_deletions: post.pending_deletions, ..pre })
    &&& post.pending_deletions@.len() == 0
}

/// Moving the focus between the sidebar and the tabs.
pub open spec fn toggle_sidebar_focus_post(pre: App, post: App) -> bool {
    &&& post == (App { sidebar_focused: !pre.sidebar_focused, ..pre })
}

} // verus!
