//! Insert mode: the file list of the current directory becomes an editable
//! buffer of names; saving turns the edits into renames and creations.
use vstd::prelude::*;
use crate::app::{
    App, EditBuffer, EditItem, Effect, FsOp, Modal, Mode, app_wf, buffer_wf, child_path, is_parent_name,
    sat_pred,
};
use crate::index::EntryMeta;
use crate::text::{chars_of, ends_with_char, join_slash, string_from_chars, strip_trailing, trim_end_char};

verus! {

/// `post` is `pre` with only its mode changed to `Insert(buf)` for some buffer.
pub open spec fn only_mode_changed(pre: App, post: App) -> bool {
    post == (App { mode: post.mode, ..pre })
}

/// The edit buffer of an app in insert mode.
pub open spec fn insert_buffer(a: App) -> EditBuffer
    recommends
        a.mode is Insert,
{
    a.mode->Insert_0
}

/// The entries that insert mode edits: all but `..`.
pub open spec fn editable(entries: Seq<(String, EntryMeta)>) -> Seq<(String, EntryMeta)> {
    entries.filter(|e: (String, EntryMeta)| !is_parent_name(e.0@))
}

/// `items` is the editable list of `entries`: each entry but `..`, in order,
/// with its name as original and current text.
pub open spec fn edits_entries(items: Seq<EditItem>, entries: Seq<(String, EntryMeta)>) -> bool {
    let es = editable(entries);
    &&& items.len() == es.len()
    &&& forall|i: int| 0 <= i < items.len() ==> {
        &&& (#[trigger] items[i]).original == Some(es[i].0)
        &&& items[i].current == es[i].0
        &&& items[i].is_dir == es[i].1.is_dir
    }
}

/// `n` kept no larger than `max`.
pub open spec fn min_usize(n: int, max: int) -> int {
    if n < max {
        n
    } else {
        max
    }
}

/// The effect of `i` in normal mode on the library tab: the list becomes an
/// edit buffer with the cursor on the selected entry, at the end of its name.
pub open spec fn enter_insert_post(pre: App, post: App) -> bool {
    if pre.tab != 0 {
        post == pre
    } else {
        let has_parent = pre.entries@.len() > 0 && is_parent_name(pre.entries@[0].0@);
        let buf = insert_buffer(post);
        let start = if has_parent {
            sat_pred(pre.selected as int)
        } else {
            pre.selected as int
        };
        &&& only_mode_changed(pre, post)
        &&& post.mode is Insert
        &&& edits_entries(buf.items@, pre.entries@)
        &&& buf.cursor == min_usize(start, sat_pred(buf.items@.len() as int))
        &&& buf.col == (if buf.cursor < buf.items@.len() {
            buf.items@[buf.cursor as int].current@.len()
        } else {
            0
        })
    }
}

/// What typing `c` does in insert mode: the character goes in at the cursor,
/// which moves past it.
pub open spec fn insert_push_post(pre: App, post: App, c: char) -> bool {
    match pre.mode {
        Mode::Insert(b) => if b.items@.len() == 0 {
            post == pre
        } else {
            let cur = b.items@[b.cursor as int].current@;
            let nb = insert_buffer(post);
            &&& only_mode_changed(pre, post)
            &&& post.mode is Insert
            &&& nb.items@.len() == b.items@.len()
            &&& nb.cursor == b.cursor
            &&& nb.col == b.col + 1
            &&& forall|i: int| 0 <= i < b.items@.len() && i != b.cursor ==> #[trigger] nb.items@[i] == b.items@[i]
            &&& nb.items@[b.cursor as int].original == b.items@[b.cursor as int].original
            &&& nb.items@[b.cursor as int].is_dir == b.items@[b.cursor as int].is_dir
            &&& nb.items@[b.cursor as int].current@ == cur.take(b.col as int) + seq![c] + cur.skip(b.col as int)
        },
        _ => post == pre,
    }
}

/// What Backspace does in insert mode: delete the character before the
/// cursor; at the start of a line added while editing, drop the line.
pub open spec fn insert_pop_post(pre: App, post: App) -> bool {
    match pre.mode {
        Mode::Insert(b) => if b.items@.len() == 0 {
            post == pre
        } else {
            let cur = b.items@[b.cursor as int].current@;
            let nb = insert_buffer(post);
            if b.col > 0 {
                &&& only_mode_changed(pre, post)
                &&& post.mode is Insert
                &&& nb.items@.len() == b.items@.len()
                &&& nb.cursor == b.cursor
                &&& nb.col == b.col - 1
                &&& forall|i: int| 0 <= i < b.items@.len() && i != b.cursor ==> #[trigger] nb.items@[i] == b.items@[i]
                &&& nb.items@[b.cursor as int].original == b.items@[b.cursor as int].original
                &&& nb.items@[b.cursor as int].is_dir == b.items@[b.cursor as int].is_dir
                &&& nb.items@[b.cursor as int].current@ == cur.remove(b.col - 1)
            } else if b.items@[b.cursor as int].original is None && cur.len() == 0 {
                let cursor = sat_pred(b.cursor as int);
                &&& only_mode_changed(pre, post)
                &&& post.mode is Insert
                &&& nb.items@ == b.items@.remove(b.cursor as int)
                &&& nb.cursor == cursor
                &&& nb.col == (if cursor < nb.items@.len() {
                    nb.items@[cursor].current@.len()
                } else {
                    0
                })
            } else {
                post == pre
            }
        },
        _ => post == pre,
    }
}

/// Moving the cursor of insert mode to another line puts it at the end of
/// that line's name.
pub open spec fn insert_move_post(pre: App, post: App, down: bool) -> bool {
    match pre.mode {
        Mode::Insert(b) => {
            let target = if down {
                b.cursor + 1
            } else {
                b.cursor - 1
            };
            if (down && b.cursor + 1 < b.items@.len()) || (!down && b.cursor > 0) {
                only_mode_changed(pre, post) && post.mode == Mode::Insert(
                    EditBuffer {
                        cursor: target as usize,
                        col: b.items@[target].current@.len() as usize,
                        ..b
                    },
                )
            } else {
                post == pre
            }
        },
        _ => post == pre,
    }
}

/// Where Enter in insert mode opens the new line: below the cursor's line,
/// or first in an empty buffer.
pub open spec fn new_line_index(b: EditBuffer) -> int {
    if b.items@.len() == 0 {
        0
    } else {
        b.cursor + 1
    }
}

/// Enter in insert mode: a new empty line below the cursor (the first line
/// of an empty buffer), which the cursor moves to.
pub open spec fn insert_newline_post(pre: App, post: App) -> bool {
    match pre.mode {
        Mode::Insert(b) => {
            let nb = insert_buffer(post);
            let k = new_line_index(b);
            &&& only_mode_changed(pre, post)
            &&& post.mode is Insert
            &&& nb.items@.len() == b.items@.len() + 1
            &&& forall|i: int| 0 <= i < k ==> #[trigger] nb.items@[i] == b.items@[i]
            &&& forall|i: int| k < i < nb.items@.len() ==> #[trigger] nb.items@[i] == b.items@[i - 1]
            &&& nb.items@[k].original is None
            &&& nb.items@[k].current@.len() == 0
            &&& !nb.items@[k].is_dir
            &&& nb.cursor == k
            &&& nb.col == 0
        },
        _ => post == pre,
    }
}

/// Left and right within the name under the cursor.
pub open spec fn insert_col_post(pre: App, post: App, right: bool) -> bool {
    match pre.mode {
        Mode::Insert(b) => {
            let max = if b.cursor < b.items@.len() {
                b.items@[b.cursor as int].current@.len()
            } else {
                0
            };
            let col = if right {
                if b.col < max {
                    b.col + 1
                } else {
                    b.col as int
                }
            } else {
                sat_pred(b.col as int)
            };
            only_mode_changed(pre, post) && post.mode == Mode::Insert(EditBuffer { col: col as usize, ..b })
        },
        _ => post == pre,
    }
}

/// A file-system change as values.
pub enum FsOpView {
    Rename(Seq<char>, Seq<char>),
    CreateDir(Seq<char>),
    CreateFile(Seq<char>),
}

/// The values of a file-system change.
pub open spec fn op_view(op: FsOp) -> FsOpView {
    match op {
        FsOp::Rename { from, to } => FsOpView::Rename(from@, to@),
        FsOp::CreateDir { path } => FsOpView::CreateDir(path@),
        FsOp::CreateFile { path } => FsOpView::CreateFile(path@),
    }
}

/// The change that saving asks for one line of the buffer, in the directory
/// `dir`: a renamed name is renamed, a new name ending in `/` is a folder to
/// create, another new name a file; empty and unchanged lines ask nothing.
pub open spec fn item_op(dir: Seq<char>, it: EditItem) -> Option<FsOpView> {
    match it.original {
        Some(orig) => if orig@ != it.current@ && it.current@.len() > 0 {
            Some(FsOpView::Rename(dir + seq!['/'] + orig@, dir + seq!['/'] + it.current@))
        } else {
            None
        },
        None => if it.current@.len() > 0 {
            let target = dir + seq!['/'] + it.current@;
            if it.current@.last() == '/' {
                Some(FsOpView::CreateDir(target))
            } else {
                Some(FsOpView::CreateFile(target))
            }
        } else {
            None
        },
    }
}

/// The changes that saving asks for, line by line.
pub open spec fn edit_ops(dir: Seq<char>, items: Seq<EditItem>) -> Seq<FsOpView>
    decreases items.len(),
{
    if items.len() == 0 {
        seq![]
    } else {
        let rest = edit_ops(dir, items.drop_last());
        match item_op(dir, items.last()) {
            Some(op) => rest.push(op),
            None => rest,
        }
    }
}

/// Each change that saving asks for is the change of one line of the buffer.
pub proof fn lemma_edit_ops_from_lines(dir: Seq<char>, items: Seq<EditItem>)
    ensures
        forall|k: int|
            0 <= k < edit_ops(dir, items).len() ==> exists|i: int|
                0 <= i < items.len() && item_op(dir, items[i]) == Some(#[trigger] edit_ops(dir, items)[k]),
    decreases items.len(),
{
    if items.len() > 0 {
        let init = items.drop_last();
        lemma_edit_ops_from_lines(dir, init);
        let rest = edit_ops(dir, init);
        assert forall|k: int| 0 <= k < edit_ops(dir, items).len() implies exists|i: int|
            0 <= i < items.len() && item_op(dir, items[i]) == Some(#[trigger] edit_ops(dir, items)[k]) by {
            if k < rest.len() {
                let i = choose|i: int| 0 <= i < init.len() && item_op(dir, init[i]) == Some(rest[k]);
                assert(items[i] == init[i]);
                assert(edit_ops(dir, items)[k] == rest[k]);
            } else {
                assert(item_op(dir, items[items.len() - 1]) == Some(edit_ops(dir, items)[k]));
            }
        }
    }
}

/// A line added while editing that names something.
pub open spec fn is_new_name(it: EditItem) -> bool {
    it.original is None && it.current@.len() > 0
}

/// What saving in insert mode does: back to normal mode with the changes for
/// the caller to make; the first new name gets the metadata form, focused on
/// its description.
pub open spec fn confirm_insert_post(pre: App, post: App, eff: Effect) -> bool {
    match pre.mode {
        Mode::Insert(b) => {
            let dir = if pre.current_path@.len() == 0 {
                pre.lib_path@
            } else {
                pre.lib_path@ + seq!['/'] + pre.current_path@
            };
            let news = b.items@.filter(|it: EditItem| is_new_name(it));
            &&& post == (App { mode: Mode::Normal, modal: post.modal, ..pre })
            &&& eff matches Effect::ApplyEdits(ops) && ops@.map_values(|op: FsOp| op_view(op)) == edit_ops(
                dir,
                b.items@,
            )
            &&& if news.len() > 0 {
                post.modal matches Some(Modal::Add { fields, focused }) && focused == 1 && fields@[0]@
                    == child_path(pre.current_path@, strip_trailing(news[0].current@, '/'))
                    && fields@[1]@.len() == 0 && fields@[2]@.len() == 0
            } else {
                post.modal == pre.modal
            }
        },
        _ => post == pre && eff is Idle,
    }
}

impl App {
    /// Insert mode on the library tab: the names of the current directory
    /// (without `..`) become editable, the cursor on the selected one.
    pub fn enter_insert(&mut self)
        requires
            app_wf(*old(self)),
        ensures
            app_wf(*final(self)),
            enter_insert_post(*old(self), *final(self)),
    {
        if self.tab != 0 {
            return;
        }
        let has_parent = self.entries.len() > 0 && self.entries[0].0 == String::from_str("..");
        let mut items: Vec<EditItem> = Vec::new();
        let n = self.entries.len();
        let ghost es = self.entries@;
        let ghost f = |e: (String, EntryMeta)| !is_parent_name(e.0@);
        for i in 0..n
            invariant
                n == self.entries.len(),
                es == self.entries@,
                f == (|e: (String, EntryMeta)| !is_parent_name(e.0@)),
                edits_entries(items@, es.take(i as int)),
        {
            let name = &self.entries[i].0;
            let parent = *name == String::from_str("..");
            proof {
                assert(es.take(i + 1).drop_last() =~= es.take(i as int));
                reveal_with_fuel(Seq::filter, 1);
                assert(es.take(i + 1).last() == es[i as int]);
                assert(editable(es.take(i + 1)) == if f(es[i as int]) {
                    editable(es.take(i as int)).push(es[i as int])
                } else {
                    editable(es.take(i as int))
                });
                assert(f(es[i as int]) == !parent);
            }
            if !parent {
                let ghost before = items@;
                items.push(
                    EditItem {
                        original: Some(name.clone()),
                        current: name.clone(),
                        is_dir: self.entries[i].1.is_dir,
                    },
                );
                proof {
                    let es2 = editable(es.take(i + 1));
                    assert forall|j: int| 0 <= j < items@.len() implies {
                        &&& (#[trigger] items@[j]).original == Some(es2[j].0)
                        &&& items@[j].current == es2[j].0
                        &&& items@[j].is_dir == es2[j].1.is_dir
                    } by {
                        if j < before.len() {
                            assert(items@[j] == before[j]);
                        }
                    }
                }
            }
        }
        assert(es.take(n as int) =~= es);
        let start = if has_parent {
            if self.selected > 0 {
                self.selected - 1
            } else {
                0
            }
        } else {
            self.selected
        };
        let last = if items.len() > 0 {
            items.len() - 1
        } else {
            0
        };
        let cursor = if start < last {
            start
        } else {
            last
        };
        let col = if cursor < items.len() {
            chars_of(items[cursor].current.as_str()).len()
        } else {
            0
        };
        self.mode = Mode::Insert(EditBuffer { items, cursor, col });
    }

    /// Command mode, with an empty command.
    pub fn enter_command(&mut self)
        requires
            app_wf(*old(self)),
        ensures
            app_wf(*final(self)),
            enter_command_post(*old(self), *final(self)),
    {
        self.mode = Mode::Command(String::new());
    }

    /// Back to normal mode, dropping what insert or command mode held.
    pub fn mode_cancel(&mut self)
        requires
            app_wf(*old(self)),
        ensures
            app_wf(*final(self)),
            mode_cancel_post(*old(self), *final(self)),
    {
        self.mode = Mode::Normal;
    }

    /// Types `c` at the cursor of insert mode.
    pub fn insert_push(&mut self, c: char)
        requires
            app_wf(*old(self)),
        ensures
            app_wf(*final(self)),
            insert_push_post(*old(self), *final(self), c),
    {
        if let Mode::Insert(buf) = &mut self.mode {
            if buf.cursor < buf.items.len() {
                let cur = buf.cursor;
                let mut chars = chars_of(buf.items[cur].current.as_str());
                let col = if buf.col < chars.len() {
                    buf.col
                } else {
                    chars.len()
                };
                let ghost before = chars@;
                chars.insert(col, c);
                assert(col < chars.len());
                assert(chars@ =~= before.take(col as int) + seq![c] + before.skip(col as int));
                let text = string_from_chars(chars.as_slice());
                buf.items[cur].current = text;
                buf.col = col + 1;
            }
        }
    }

    /// Backspace in insert mode.
    pub fn insert_pop(&mut self)
        requires
            app_wf(*old(self)),
        ensures
            app_wf(*final(self)),
            insert_pop_post(*old(self), *final(self)),
    {
        if let Mode::Insert(buf) = &mut self.mode {
            if buf.cursor < buf.items.len() {
                let cur = buf.cursor;
                if buf.col > 0 {
                    let mut chars = chars_of(buf.items[cur].current.as_str());
                    chars.remove(buf.col - 1);
                    let text = string_from_chars(chars.as_slice());
                    buf.items[cur].current = text;
                    buf.col = buf.col - 1;
                } else if buf.items[cur].original.is_none() && buf.items[cur].current.as_str().unicode_len() == 0 {
                    buf.items.remove(cur);
                    if buf.cursor > 0 {
                        buf.cursor = buf.cursor - 1;
                    }
                    buf.col = if buf.cursor < buf.items.len() {
                        chars_of(buf.items[buf.cursor].current.as_str()).len()
                    } else {
                        0
                    };
                }
            }
        }
    }

    /// Down in insert mode.
    pub fn insert_nav_down(&mut self)
        requires
            app_wf(*old(self)),
        ensures
            app_wf(*final(self)),
            insert_move_post(*old(self), *final(self), true),
    {
        if let Mode::Insert(buf) = &mut self.mode {
            assert(buf.cursor <= buf.items.len());
            if buf.cursor + 1 < buf.items.len() {
                buf.cursor = buf.cursor + 1;
                buf.col = chars_of(buf.items[buf.cursor].current.as_str()).len();
            }
        }
    }

    /// Up in insert mode.
    pub fn insert_nav_up(&mut self)
        requires
            app_wf(*old(self)),
        ensures
            app_wf(*final(self)),
            insert_move_post(*old(self), *final(self), false),
    {
        if let Mode::Insert(buf) = &mut self.mode {
            if buf.cursor > 0 {
                buf.cursor = buf.cursor - 1;
                buf.col = chars_of(buf.items[buf.cursor].current.as_str()).len();
            }
        }
    }

    /// Enter in insert mode: a new empty line below the cursor, or the first
    /// line of an empty buffer.
    pub fn insert_newline(&mut self)
        requires
            app_wf(*old(self)),
        ensures
            app_wf(*final(self)),
            insert_newline_post(*old(self), *final(self)),
    {
        if let Mode::Insert(buf) = &mut self.mode {
            let new_idx = if buf.items.len() == 0 {
                0
            } else {
                buf.cursor + 1
            };
            buf.items.insert(new_idx, EditItem { original: None, current: String::new(), is_dir: false });
            buf.cursor = new_idx;
            buf.col = 0;
        }
    }

    /// Left in insert mode.
    pub fn insert_col_left(&mut self)
        requires
            app_wf(*old(self)),
        ensures
            app_wf(*final(self)),
            insert_col_post(*old(self), *final(self), false),
    {
        if let Mode::Insert(buf) = &mut self.mode {
            if buf.col > 0 {
                buf.col = buf.col - 1;
            }
        }
    }

    /// Right in insert mode.
    pub fn insert_col_right(&mut self)
        requires
            app_wf(*old(self)),
        ensures
            app_wf(*final(self)),
            insert_col_post(*old(self), *final(self), true),
    {
        if let Mode::Insert(buf) = &mut self.mode {
            let max = if buf.cursor < buf.items.len() {
                chars_of(buf.items[buf.cursor].current.as_str()).len()
            } else {
                0
            };
            if buf.col < max {
                buf.col = buf.col + 1;
            }
        }
    }

    /// Ctrl+S in insert mode: back to normal mode, with the renames and
    /// creations for the caller to make (`Effect::ApplyEdits`); outside
    /// insert mode nothing happens (`Effect::Idle`).
    pub fn confirm_insert(&mut self) -> (eff: Effect)
        requires
            app_wf(*old(self)),
        ensures
            app_wf(*final(self)),
            confirm_insert_post(*old(self), *final(self), eff),
    {
        let dir = self.current_dir_path();
        let ghost pre = *self;
        let mut ops: Vec<FsOp> = Vec::new();
        let mut first_new: Option<String> = None;
        match &self.mode {
            Mode::Insert(buf) => {
                let n = buf.items.len();
                let ghost items = buf.items@;
                let ghost isnew = |it: EditItem| is_new_name(it);
                for i in 0..n
                    invariant
                        n == items.len(),
                        items == buf.items@,
                        isnew == (|it: EditItem| is_new_name(it)),
                        ops@.map_values(|op: FsOp| op_view(op)) == edit_ops(dir@, items.take(i as int)),
                        match first_new {
                            Some(k) => items.take(i as int).filter(isnew).len() > 0 && k@ == child_path(
                                self.current_path@,
                                strip_trailing(items.take(i as int).filter(isnew)[0].current@, '/'),
                            ),
                            None => items.take(i as int).filter(isnew).len() == 0,
                        },
                {
                    let it = &buf.items[i];
                    let ghost before = ops@.map_values(|op: FsOp| op_view(op));
                    proof {
                        assert(items.take(i + 1).drop_last() =~= items.take(i as int));
                        assert(items.take(i + 1).last() == items[i as int]);
                        reveal_with_fuel(Seq::filter, 1);
                        assert(items.take(i + 1).filter(isnew) == if isnew(items[i as int]) {
                            items.take(i as int).filter(isnew).push(items[i as int])
                        } else {
                            items.take(i as int).filter(isnew)
                        });
                    }
                    let cur_len = it.current.as_str().unicode_len();
                    match &it.original {
                        Some(orig) => {
                            if !(*orig == it.current) && cur_len > 0 {
                                ops.push(
                                    FsOp::Rename {
                                        from: join_slash(dir.as_str(), orig.as_str()),
                                        to: join_slash(dir.as_str(), it.current.as_str()),
                                    },
                                );
                            }
                        },
                        None => {
                            if cur_len > 0 {
                                let target = join_slash(dir.as_str(), it.current.as_str());
                                if ends_with_char(it.current.as_str(), '/') {
                                    ops.push(FsOp::CreateDir { path: target });
                                } else {
                                    ops.push(FsOp::CreateFile { path: target });
                                }
                                if first_new.is_none() {
                                    let name = trim_end_char(it.current.as_str(), '/');
                                    first_new = Some(self.key_of(name.as_str()));
                                }
                            }
                        },
                    }
                    assert(ops@.map_values(|op: FsOp| op_view(op)) =~= edit_ops(dir@, items.take(i + 1)));
                }
                assert(items.take(n as int) =~= items);
            },
            _ => {
                return Effect::Idle;
            },
        }
        self.mode = Mode::Normal;
        match first_new {
            Some(key) => {
                let fields = [key, String::new(), String::new()];
                assert(fields@[1]@.len() == 0 && fields@[2]@.len() == 0);
                self.modal = Some(Modal::Add { fields, focused: 1 });
            },
            None => {},
        }
        Effect::ApplyEdits(ops)
    }

}

/// Entering command mode with an empty command.
pub open spec fn enter_command_post(pre: App, post: App) -> bool {
    &&& only_mode_changed(pre, post)
    &&& post.mode matches Mode::Command(s) && s@.len() == 0
}

/// Back to normal mode.
pub open spec fn mode_cancel_post(pre: App, post: App) -> bool {
    &&& post == (App { mode: Mode::Normal, ..pre })
}

} // verus!
