//! Properties that span more than one transition of the interface or of
//! the index: what one operation undoes of another, and what a sequence of
//! them comes back to.
use vstd::prelude::*;
use crate::app::{
    App, EditBuffer, Effect, FsOp, child_path, Modal, Mode, Rect, app_wf, buffer_wf, enter_selected_post, handle_click_post, is_parent_name,
    move_down_post, move_up_post, nav_down_post, nav_up_post, navigate_up_post, selected_entry, tab_switch_post, toggle_delete_post, toggle_sidebar_focus_post, toggled,
};
use crate::command::{
    abbreviate_home, expand_home,
    mode_pop_post, mode_push_post, modal_add_pop_post, modal_add_push_post, modal_use_pop_post,
    modal_use_push_post,
};
use crate::edit::{
    FsOpView, confirm_insert_post, insert_buffer, insert_pop_post, insert_push_post, item_op, lemma_edit_ops_from_lines,
    op_view, only_mode_changed,
};
use crate::index::MetaView;
use crate::keys::{KeyCode, KeyPress, command_key_post, insert_key_post, normal_key_post};
use crate::sidebar::{
    SidebarLine, body_len, drawn_sidebar, line_at, para_at, para_of, row_at, rows_of, shown_rows,
    sidebar_move_post, toggle_section_post,
};
use crate::text::views;
use crate::view::{FileRow, is_file_row, scroll_for_row, shows_file_rows};

verus! {

/// Typing a character in insert mode and deleting it with Backspace gives
/// back the line as it was, with the cursor where it was.
pub proof fn law_insert_type_then_delete(a: App, b: App, c: App, ch: char)
    requires
        app_wf(a),
        a.mode matches Mode::Insert(buf) && buf.items@.len() > 0,
        insert_push_post(a, b, ch),
        insert_pop_post(b, c),
    ensures
        only_mode_changed(a, c),
        c.mode is Insert,
        insert_buffer(c).cursor == insert_buffer(a).cursor,
        insert_buffer(c).col == insert_buffer(a).col,
        insert_buffer(c).items@.len() == insert_buffer(a).items@.len(),
        forall|i: int|
            0 <= i < insert_buffer(a).items@.len() && i != insert_buffer(a).cursor ==> #[trigger] insert_buffer(
                c,
            ).items@[i] == insert_buffer(a).items@[i],
        insert_buffer(c).items@[insert_buffer(a).cursor as int].current@ == insert_buffer(a).items@[insert_buffer(
            a,
        ).cursor as int].current@,
        insert_buffer(c).items@[insert_buffer(a).cursor as int].original == insert_buffer(a).items@[insert_buffer(
            a,
        ).cursor as int].original,
{
    let ba = insert_buffer(a);
    let bb = insert_buffer(b);
    let k = ba.cursor as int;
    let cur = ba.items@[k].current@;
    assert(buffer_wf(ba));
    let typed = cur.take(ba.col as int) + seq![ch] + cur.skip(ba.col as int);
    assert(bb.items@[k].current@ == typed);
    assert(typed.remove(ba.col as int) =~= cur);
}

/// Typing a character of a command and deleting it gives back the command.
pub proof fn law_command_type_then_delete(a: App, b: App, c: App, ch: char)
    requires
        a.mode is Command,
        mode_push_post(a, b, ch),
        mode_pop_post(b, c),
    ensures
        only_mode_changed(a, c),
        c.mode matches Mode::Command(t) && t@ == a.mode->Command_0@,
{
    let s = a.mode->Command_0@;
    assert(s.push(ch).drop_last() =~= s);
}

/// Typing a character in a field of the metadata form and deleting it gives
/// back the form as it was.
pub proof fn law_form_type_then_delete(a: App, b: App, c: App, ch: char)
    requires
        app_wf(a),
        a.modal is Some && a.modal->0 is Add,
        modal_add_push_post(a, b, ch),
        modal_add_pop_post(b, c),
    ensures
        c == (App { modal: c.modal, ..a }),
        c.modal matches Some(Modal::Add { fields, focused }) && a.modal matches Some(
            Modal::Add { fields: f0, focused: k0 },
        ) && focused == k0 && forall|j: int| 0 <= j < 3 ==> #[trigger] fields@[j]@ == f0@[j]@,
{
    let f0 = a.modal->0->Add_fields;
    let k = a.modal->0->Add_focused as int;
    assert(f0@[k]@.push(ch).drop_last() =~= f0@[k]@);
}

/// Typing a character of the copy destination and deleting it gives back the
/// destination.
pub proof fn law_destination_type_then_delete(a: App, b: App, c: App, ch: char)
    requires
        a.modal is Some && a.modal->0 is Use,
        modal_use_push_post(a, b, ch),
        modal_use_pop_post(b, c),
    ensures
        c == (App { modal: c.modal, ..a }),
        c.modal matches Some(Modal::Use { key, dest, is_dir }) && a.modal matches Some(
            Modal::Use { key: k0, dest: d0, is_dir: i0 },
        ) && key == k0 && is_dir == i0 && dest@ == d0@,
{
    let d0 = a.modal->0->Use_dest@;
    assert(d0.push(ch).drop_last() =~= d0);
}

/// The next tab and then the tab before it is the tab one started on, with
/// nothing else changed.
pub proof fn law_next_then_prev_tab(a: App, b: App, c: App, e1: Effect, e2: Effect)
    requires
        app_wf(a),
        tab_switch_post(a, b, e1, ((a.tab + 1) % 3) as usize),
        tab_switch_post(b, c, e2, ((b.tab + 2) % 3) as usize),
    ensures
        c == a,
{
}

/// Three steps to the next tab come back to the tab one started on.
pub proof fn law_three_tabs_cycle(a: App, b: App, c: App, d: App, e1: Effect, e2: Effect, e3: Effect)
    requires
        app_wf(a),
        tab_switch_post(a, b, e1, ((a.tab + 1) % 3) as usize),
        tab_switch_post(b, c, e2, ((b.tab + 1) % 3) as usize),
        tab_switch_post(c, d, e3, ((c.tab + 1) % 3) as usize),
    ensures
        d == a,
{
}

/// Moving the focus to the sidebar and back changes nothing.
pub proof fn law_focus_toggle_twice(a: App, b: App, c: App)
    requires
        toggle_sidebar_focus_post(a, b),
        toggle_sidebar_focus_post(b, c),
    ensures
        c == a,
{
}

/// Marking an entry for deletion and unmarking it gives back the pending
/// deletions as they were.
pub proof fn law_mark_then_unmark(a: App, b: App, c: App)
    requires
        toggle_delete_post(a, b),
        toggle_delete_post(b, c),
        selected_entry(a) matches Some(e) && !views(a.pending_deletions@).contains(e.0@),
    ensures
        c == (App { pending_deletions: c.pending_deletions, ..a }),
        views(c.pending_deletions@) == views(a.pending_deletions@),
{
    let e = selected_entry(a)->0;
    if !is_parent_name(e.0@) {
        let p = views(a.pending_deletions@);
        let q = p.push(e.0@);
        assert(p.index_of_first(e.0@) is None) by {
            p.index_of_first_ensures(e.0@);
        }
        q.index_of_first_ensures(e.0@);
        assert(q[p.len() as int] == e.0@);
        let i = q.index_of_first(e.0@)->0;
        assert(i == p.len()) by {
            if i < p.len() {
                assert(q[i] == p[i]);
            }
        }
        assert(q.remove(p.len() as int) =~= p);
    }
}

/// Pressing `d` twice in normal mode (with no help shown and no `d`
/// pending) marks or unmarks the selected entry, and leaves no `d` pending.
pub proof fn law_dd_toggles_deletion(a: App, b: App, c: App, e1: Effect, e2: Effect)
    requires
        !a.show_help,
        !a.d_pressed,
        normal_key_post(a, b, e1, KeyPress { code: KeyCode::Char('d'), ctrl: false }),
        normal_key_post(b, c, e2, KeyPress { code: KeyCode::Char('d'), ctrl: false }),
    ensures
        toggle_delete_post(a, c),
        !c.d_pressed,
        e1 is Idle && e2 is Idle,
{
}

/// Entering a folder and going back up returns to the folder one was in,
/// with the same entry selected, and reloads its listing.
pub proof fn law_enter_then_leave(a: App, b: App, c: App, e1: Effect, e2: Effect)
    requires
        selected_entry(a) matches Some(e) && !is_parent_name(e.0@) && e.1.is_dir,
        enter_selected_post(a, b, e1),
        navigate_up_post(b, c, e2),
    ensures
        c == (App { path_stack: c.path_stack, ..a }),
        c.path_stack@ == a.path_stack@,
        e2 is Reload,
{
    assert(b.path_stack@.drop_last() =~= a.path_stack@);
}

/// Moving the sidebar cursor keeps it on a row.
pub proof fn law_sidebar_move_stays_on_rows(a: App, b: App, down: bool)
    requires
        app_wf(a),
        a.sidebar_cursor < rows_of(a).len(),
        sidebar_move_post(a, b, down),
    ensures
        b.sidebar_cursor < rows_of(b).len(),
{
}

/// Collapsing or expanding a section keeps the sidebar cursor on a row.
pub proof fn law_sidebar_toggle_stays_on_rows(a: App, b: App)
    requires
        app_wf(a),
        a.sidebar_cursor < rows_of(a).len(),
        toggle_section_post(a, b),
    ensures
        b.sidebar_cursor < rows_of(b).len(),
        b.sidebar_collapsed@.len() == 3,
{
}

/// Adding an entry to the index and removing it leaves the index without
/// that key and with every other entry as it was.
pub proof fn law_add_then_remove(
    before: Map<Seq<char>, MetaView>,
    added: Map<Seq<char>, MetaView>,
    after: Map<Seq<char>, MetaView>,
    key: Seq<char>,
)
    requires
        added.dom() == before.dom().insert(key),
        forall|k: Seq<char>| k != key ==> #[trigger] added.contains_key(k) ==> added[k] == before[k],
        after == added.remove(key),
    ensures
        after == before.remove(key),
{
    assert(after =~= before.remove(key));
}

/// On the library tab, moving down and then up comes back to the entry one
/// started on, when there was an entry below it.
pub proof fn law_down_then_up(a: App, b: App, c: App, e1: Effect, e2: Effect)
    requires
        a.tab == 0,
        a.selected + 1 < a.entries@.len(),
        nav_down_post(a, b, e1),
        nav_up_post(b, c, e2),
    ensures
        c == a,
        e1 is Preview && e2 is Preview,
{
    assert(a.entries@.len() == a.entries.len());
    assert(move_down_post(a, b, e1));
}

/// In insert mode nothing but the edit buffer changes, and nothing is asked
/// of the caller, until Ctrl+S saves; Esc leaves with nothing saved.
pub proof fn law_insert_edits_only_the_buffer(a: App, b: App, e: Effect, key: KeyPress)
    requires
        a.mode is Insert,
        !(key.code == KeyCode::Char('s') && key.ctrl),
        insert_key_post(a, b, e, key),
    ensures
        b == (App { mode: b.mode, ..a }),
        e is Idle,
        key.code == KeyCode::Esc ==> b.mode is Normal,
        key.code != KeyCode::Esc ==> b.mode is Insert,
{
}

/// In command mode nothing but the command line changes, and nothing is
/// asked of the caller, until Enter; Esc leaves without running it.
pub proof fn law_command_waits_for_enter(a: App, b: App, e: Effect, key: KeyPress)
    requires
        a.mode is Command,
        key.code != KeyCode::Enter,
        command_key_post(a, b, e, key),
    ensures
        b == (App { mode: b.mode, ..a }),
        e is Idle,
        key.code == KeyCode::Esc ==> b.mode is Normal,
        key.code != KeyCode::Esc ==> b.mode is Command,
{
}

/// Enter twice on a section header of the sidebar collapses it and expands
/// it again: the sections are as they were, and the cursor stays on the header.
pub proof fn law_toggle_section_twice(a: App, b: App, c: App)
    requires
        app_wf(a),
        a.sidebar_cursor < rows_of(a).len(),
        rows_of(a)[a.sidebar_cursor as int] is Header,
        toggle_section_post(a, b),
        toggle_section_post(b, c),
    ensures
        c.sidebar_collapsed@ == a.sidebar_collapsed@,
        b.sidebar_cursor == a.sidebar_cursor,
        c.sidebar_cursor == a.sidebar_cursor,
{
    let s = rows_of(a)[a.sidebar_cursor as int]->Header_0;
    let np = a.plugins@.len();
    let nt = a.tags@.len();
    let i = a.sidebar_cursor as int;
    assert(rows_of(a)[i] == row_at(np, nt, a.sidebar_collapsed@, i));
    assert(rows_of(b)[i] == row_at(np, nt, b.sidebar_collapsed@, i));
    assert(c.sidebar_collapsed@ =~= a.sidebar_collapsed@);
}

/// The selected entry of the library tab is among the rows the file list
/// draws, marked as selected, whatever the height of the list.
pub proof fn law_selected_entry_drawn(a: App, rows: Seq<FileRow>, height: nat, width: nat)
    requires
        height > 0,
        a.selected < a.entries@.len(),
        shows_file_rows(rows, a, height, width),
    ensures
        exists|k: int| 0 <= k < rows.len() && (#[trigger] rows[k]).index == a.selected && rows[k].selected,
{
    let first = scroll_for_row(a.selected as int, height as int);
    let k = a.selected - first;
    assert(is_file_row(rows[k], a, first + k, width));
}

/// After the file list is laid out in `area` (`lay_out_file_list`: only the
/// list area changes), a click on the first column of its `k`-th drawn row
/// selects the entry drawn on that row, which is entry `scroll + k`.
pub proof fn law_click_selects_drawn_row(
    a: App,
    area: Rect,
    b: App,
    rows: Seq<FileRow>,
    k: int,
    c: App,
    e: Effect,
)
    requires
        area.width > 0,
        area.height > 0,
        area.y + area.height <= u16::MAX,
        b == (App { list_area: area, ..a }),
        shows_file_rows(rows, b, area.height as nat, area.width as nat),
        0 <= k < rows.len(),
        handle_click_post(b, c, e, area.x, (area.y + k) as u16),
    ensures
        rows[k].index == scroll_for_row(a.selected as int, area.height as int) + k,
        c == (App { selected: rows[k].index, ..b }),
        e is Preview,
{
    let first = scroll_for_row(a.selected as int, area.height as int);
    assert(is_file_row(rows[k], b, first + k, area.width as nat));
}

/// The layout of the drawn sidebar: the lines that `sidebar_para_lines`
/// gives for the navigable rows (`para_of`) start at the top and strictly
/// increase, and of the lines that `sidebar_lines` draws (`drawn_sidebar`)
/// those without a row are exactly the blank separators before the tag and
/// git sections and the `sin plugins`/`sin tags` placeholders of expanded
/// sections that have nothing to list.
pub proof fn law_sidebar_layout(a: App)
    requires
        app_wf(a),
    ensures
        para_of(a)[0] == 0,
        forall|i: int, j: int| 0 <= i < j < rows_of(a).len() ==> para_of(a)[i] < para_of(a)[j],
        forall|j: int|
            0 <= j < drawn_sidebar(a).len() ==> ((exists|i: int| 0 <= i < rows_of(a).len() && para_of(a)[i] == j)
                <==> !(#[trigger] drawn_sidebar(a)[j] is Blank || drawn_sidebar(a)[j] is Empty)),
        forall|j: int|
            0 <= j < drawn_sidebar(a).len() && #[trigger] drawn_sidebar(a)[j] is Blank ==> j + 1 < drawn_sidebar(
                a,
            ).len() && (drawn_sidebar(a)[j + 1] matches SidebarLine::Header { section, .. } && (section == 1
                || section == 2)),
        forall|j: int|
            0 <= j < drawn_sidebar(a).len() && (#[trigger] drawn_sidebar(a)[j] matches SidebarLine::Header {
                section,
                ..
            } && section > 0) ==> j > 0 && drawn_sidebar(a)[j - 1] is Blank,
        forall|j: int|
            0 <= j < drawn_sidebar(a).len() && #[trigger] drawn_sidebar(a)[j] is Empty ==> j > 0 && (drawn_sidebar(
                a,
            )[j - 1] matches SidebarLine::Header { section, collapsed, .. } && !collapsed && section
                == drawn_sidebar(a)[j]->Empty_section && (if section == 0 {
                a.plugins@.len() == 0
            } else {
                section == 1 && a.tags@.len() == 0
            })),
        forall|j: int|
            0 <= j < drawn_sidebar(a).len() && (#[trigger] drawn_sidebar(a)[j] matches SidebarLine::Header {
                section,
                collapsed,
                ..
            } && !collapsed && ((section == 0 && a.plugins@.len() == 0) || (section == 1 && a.tags@.len()
                == 0))) ==> j + 1 < drawn_sidebar(a).len() && drawn_sidebar(a)[j + 1] == (SidebarLine::Empty {
                section: drawn_sidebar(a)[j]->Header_section,
            }),
{
    let np = a.plugins@.len();
    let nt = a.tags@.len();
    let c = a.sidebar_collapsed@;
    let b0 = body_len(c[0], np) as int;
    let b1 = body_len(c[1], nt) as int;
    let p0 = shown_rows(c[0], np);
    let t0 = shown_rows(c[1], nt);
    let n = rows_of(a).len();
    let d = drawn_sidebar(a);
    assert forall|i: int, j: int| 0 <= i < j < n implies para_of(a)[i] < para_of(a)[j] by {
        assert(para_of(a)[i] == para_at(np, nt, c, i));
        assert(para_of(a)[j] == para_at(np, nt, c, j));
    }
    assert forall|j: int| 0 <= j < d.len() implies ((exists|i: int| 0 <= i < n && para_of(a)[i] == j) <==> !(
    #[trigger] d[j] is Blank || d[j] is Empty)) by {
        assert(d[j] == line_at(a, j));
        if exists|i: int| 0 <= i < n && para_of(a)[i] == j {
            let i = choose|i: int| 0 <= i < n && para_of(a)[i] == j;
            assert(para_of(a)[i] == para_at(np, nt, c, i));
        } else if !(d[j] is Blank || d[j] is Empty) {
            let i = if j == 0 {
                0
            } else if j <= b0 {
                j
            } else if j == b0 + 2 {
                p0 + 1
            } else if j <= b0 + 2 + b1 {
                p0 + 2 + (j - b0 - 3)
            } else if j == b0 + b1 + 4 {
                p0 + t0 + 2
            } else {
                p0 + t0 + 3
            };
            assert(para_of(a)[i] == para_at(np, nt, c, i));
            assert(0 <= i < n && para_of(a)[i] == j);
        }
    }
    assert forall|j: int| 0 <= j < d.len() && #[trigger] d[j] is Blank implies j + 1 < d.len() && (d[j
        + 1] matches SidebarLine::Header { section, .. } && (section == 1 || section == 2)) by {
        assert(d[j] == line_at(a, j));
        assert(d[j + 1] == line_at(a, j + 1));
    }
    assert forall|j: int|
        0 <= j < d.len() && (#[trigger] d[j] matches SidebarLine::Header { section, .. } && section
            > 0) implies j > 0 && d[j - 1] is Blank by {
        assert(d[j] == line_at(a, j));
        assert(d[j - 1] == line_at(a, j - 1));
    }
    assert forall|j: int| 0 <= j < d.len() && #[trigger] d[j] is Empty implies j > 0 && (d[j
        - 1] matches SidebarLine::Header { section, collapsed, .. } && !collapsed && section
        == d[j]->Empty_section && (if section == 0 {
        np == 0
    } else {
        section == 1 && nt == 0
    })) by {
        assert(d[j] == line_at(a, j));
        assert(d[j - 1] == line_at(a, j - 1));
    }
    assert forall|j: int|
        0 <= j < d.len() && (#[trigger] d[j] matches SidebarLine::Header { section, collapsed, .. }
            && !collapsed && ((section == 0 && np == 0) || (section == 1 && nt == 0))) implies j + 1 < d.len()
        && d[j + 1] == (SidebarLine::Empty { section: d[j]->Header_section }) by {
        assert(d[j] == line_at(a, j));
        assert(d[j + 1] == line_at(a, j + 1));
    }
}

/// `op` renames or creates, inside the library, the entry of one line of the
/// buffer of `a` in its current folder: the path of an entry is the library
/// followed by `/` and the entry's index key.
pub open spec fn changes_line_in_folder(a: App, op: FsOpView) -> bool {
    let items = insert_buffer(a).items@;
    exists|i: int|
        0 <= i < items.len() && match op {
            FsOpView::Rename(from, to) => items[i].original matches Some(o) && from == a.lib_path@ + seq!['/']
                + child_path(a.current_path@, o@) && to == a.lib_path@ + seq!['/'] + child_path(
                a.current_path@,
                #[trigger] items[i].current@,
            ),
            FsOpView::CreateDir(path) => items[i].original is None && path == a.lib_path@ + seq!['/'] + child_path(
                a.current_path@,
                items[i].current@,
            ),
            FsOpView::CreateFile(path) => items[i].original is None && path == a.lib_path@ + seq!['/']
                + child_path(a.current_path@, items[i].current@),
        }
}

/// Saving in insert mode changes nothing outside the current folder: every
/// rename and creation it asks for is that of a line of the buffer, at the
/// library path of the line's index key in the current folder.
pub proof fn law_saved_edits_in_current_folder(a: App, b: App, e: Effect)
    requires
        a.mode is Insert,
        confirm_insert_post(a, b, e),
    ensures
        e is ApplyEdits,
        forall|k: int|
            0 <= k < e->ApplyEdits_0@.len() ==> changes_line_in_folder(a, op_view(#[trigger] e->ApplyEdits_0@[k])),
{
    let items = insert_buffer(a).items@;
    let dir = if a.current_path@.len() == 0 {
        a.lib_path@
    } else {
        a.lib_path@ + seq!['/'] + a.current_path@
    };
    let ops = e->ApplyEdits_0@;
    let views = ops.map_values(|op: FsOp| op_view(op));
    lemma_edit_ops_from_lines(dir, items);
    assert forall|n: Seq<char>| #[trigger] (dir + seq!['/'] + n) == a.lib_path@ + seq!['/'] + child_path(
        a.current_path@,
        n,
    ) by {
        if a.current_path@.len() > 0 {
            assert(dir + seq!['/'] + n =~= a.lib_path@ + seq!['/'] + (a.current_path@ + seq!['/'] + n));
        }
    }
    assert forall|k: int| 0 <= k < ops.len() implies changes_line_in_folder(a, op_view(#[trigger] ops[k])) by {
        assert(views[k] == op_view(ops[k]));
        let i = choose|i: int| 0 <= i < items.len() && item_op(dir, items[i]) == Some(views[k]);
        assert(0 <= i < items.len() && item_op(dir, items[i]) == Some(views[k]));
        let it = items[i];
        if let Some(o) = it.original {
            assert(dir + seq!['/'] + o@ == a.lib_path@ + seq!['/'] + child_path(a.current_path@, o@));
        }
        assert(dir + seq!['/'] + it.current@ == a.lib_path@ + seq!['/'] + child_path(a.current_path@, it.current@));
    }
}

/// A completed destination shown with `~` for the home directory names the
/// same path: expanding its leading `~/` gives the path back.
pub proof fn law_abbreviation_expands_back(p: Seq<char>, home: Seq<char>)
    requires
        home.len() > 0,
        home.push('/').is_prefix_of(p),
    ensures
        expand_home(abbreviate_home(p, Some(home)), Some(home)) == p,
{
    let a = abbreviate_home(p, Some(home));
    assert(a == seq!['~'] + p.skip(home.len() as int));
    let hl = home.len() as int;
    assert(home.push('/')[hl] == '/');
    assert(p[hl] == home.push('/')[hl]);
    assert forall|i: int| 0 <= i < hl implies p[i] == home[i] by {
        assert(p[i] == home.push('/')[i]);
    }
    reveal_strlit("~/");
    assert("~/"@ =~= seq!['~', '/']);
    assert(a[1] == p[hl]);
    assert("~/"@.is_prefix_of(a));
    assert(a.skip(2) =~= p.skip(hl + 1));
    assert(home + seq!['/'] + a.skip(2) =~= p);
}

} // verus!
