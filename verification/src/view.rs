//! What the screen shows, computed from the interface state: popup
//! geometry, scrolling, the cells of the file list, labels and highlights.
//! Drawing itself is the terminal's business.
use vstd::prelude::*;
use crate::app::{App, EditBuffer, Rect};
use crate::icons::{Color, icon_for, icon_of};
use crate::text::{
    chars_of, concat, decimal, ends_with_char, is_whitespace, is_ws, join, join_seq, push_char, str_starts_with,
    string_of_range, to_decimal, trim, trimmed, truncate, truncated, views,
};

verus! {

// ─── Geometry and scrolling ──────────────────────────────────────────────────

/// `a - b`, or 0 when `b` is larger.
pub open spec fn sat_sub(a: int, b: int) -> int {
    if a > b {
        a - b
    } else {
        0
    }
}

/// The smaller of `a` and `b`.
pub open spec fn min_of(a: int, b: int) -> int {
    if a < b {
        a
    } else {
        b
    }
}

/// A popup of at most `max_w` by `max_h` cells, centred in `area` with a
/// margin of two columns and one row on each side where the area is small.
pub open spec fn centered_rect(area: Rect, max_w: u16, max_h: u16) -> Rect {
    let w = min_of(max_w as int, sat_sub(area.width as int, 4));
    let h = min_of(max_h as int, sat_sub(area.height as int, 2));
    Rect {
        x: (sat_sub(area.width as int, w) / 2) as u16,
        y: (sat_sub(area.height as int, h) / 2) as u16,
        width: w as u16,
        height: h as u16,
    }
}

/// The popup rectangle for at most `max_w` by `max_h` cells in `area`.
pub fn centered(area: Rect, max_w: u16, max_h: u16) -> (r: Rect)
    ensures
        r == centered_rect(area, max_w, max_h),
{
    let aw = if area.width > 4 {
        area.width - 4
    } else {
        0
    };
    let ah = if area.height > 2 {
        area.height - 2
    } else {
        0
    };
    let w = if max_w < aw {
        max_w
    } else {
        aw
    };
    let h = if max_h < ah {
        max_h
    } else {
        ah
    };
    let x = if area.width > w {
        (area.width - w) / 2
    } else {
        0
    };
    let y = if area.height > h {
        (area.height - h) / 2
    } else {
        0
    };
    Rect { x, y, width: w, height: h }
}

/// The first row shown of a list of `height` rows that keeps row `selected`
/// in view.
pub open spec fn scroll_for_row(selected: int, height: int) -> int {
    if selected >= height {
        selected - height + 1
    } else {
        0
    }
}

/// The first row shown of a list of `height` rows whose row `selected` is
/// marked.
pub fn list_scroll(selected: usize, height: usize) -> (r: usize)
    requires
        height > 0 || selected < usize::MAX,
    ensures
        r == scroll_for_row(selected as int, height as int),
{
    if selected >= height {
        selected - height + 1
    } else {
        0
    }
}

/// The first line shown of the entry list dialog, `height` lines high, whose
/// cursor is on entry `cursor`.
pub open spec fn list_dialog_scroll_of(cursor: int, height: int) -> int {
    if cursor >= sat_sub(height, 2) {
        sat_sub(cursor, sat_sub(height, 3))
    } else {
        0
    }
}

/// The first line shown of the entry list dialog.
pub fn list_dialog_scroll(cursor: usize, height: usize) -> (r: usize)
    ensures
        r == list_dialog_scroll_of(cursor as int, height as int),
{
    let h2 = if height > 2 {
        height - 2
    } else {
        0
    };
    let h3 = if height > 3 {
        height - 3
    } else {
        0
    };
    if cursor >= h2 {
        if cursor > h3 {
            cursor - h3
        } else {
            0
        }
    } else {
        0
    }
}

/// `scroll` kept so that a text of `total` lines shown `visible` at a time
/// does not scroll past its end.
pub fn clamp_scroll(scroll: u16, total: u16, visible: u16) -> (r: u16)
    ensures
        r == min_of(scroll as int, sat_sub(total as int, visible as int)),
{
    let max = if total > visible {
        total - visible
    } else {
        0
    };
    if scroll < max {
        scroll
    } else {
        max
    }
}

// ─── Padding ─────────────────────────────────────────────────────────────────

/// `n` spaces.
pub open spec fn spaces(n: nat) -> Seq<char> {
    Seq::new(n, |i: int| ' ')
}

/// `s` followed by spaces up to `w` characters (std's `{:<w$}`).
pub open spec fn padded_right(s: Seq<char>, w: nat) -> Seq<char> {
    if s.len() >= w {
        s
    } else {
        s + spaces((w - s.len()) as nat)
    }
}

/// `s` preceded by spaces up to `w` characters (std's `{:>w$}`).
pub open spec fn padded_left(s: Seq<char>, w: nat) -> Seq<char> {
    if s.len() >= w {
        s
    } else {
        spaces((w - s.len()) as nat) + s
    }
}

/// `n` spaces.
fn space_string(n: usize) -> (r: String)
    ensures
        r@ == spaces(n as nat),
{
    let mut r = String::new();
    for i in 0..n
        invariant
            r@ == spaces(i as nat),
    {
        push_char(&mut r, ' ');
        assert(r@ =~= spaces((i + 1) as nat));
    }
    r
}

/// `s` padded with spaces on the right to `w` characters.
pub fn pad_right(s: &str, w: usize) -> (r: String)
    ensures
        r@ == padded_right(s@, w as nat),
{
    let n = s.unicode_len();
    if n >= w {
        String::from_str(s)
    } else {
        let sp = space_string(w - n);
        concat(s, sp.as_str())
    }
}

/// `s` padded with spaces on the left to `w` characters.
pub fn pad_left(s: &str, w: usize) -> (r: String)
    ensures
        r@ == padded_left(s@, w as nat),
{
    let n = s.unicode_len();
    if n >= w {
        String::from_str(s)
    } else {
        let sp = space_string(w - n);
        concat(sp.as_str(), s)
    }
}

// ─── The file list ───────────────────────────────────────────────────────────

/// The width of the tag column of the file list.
pub open spec fn tags_width() -> nat {
    18
}

/// The width left for descriptions in a file list `width` cells wide, after
/// the marker, number, name and tag columns and their gaps.
pub fn description_width(width: usize) -> (r: usize)
    ensures
        r == sat_sub(width as int, 52),
{
    if width > 52 {
        width - 52
    } else {
        0
    }
}

/// The number shown before entry `i` (counted from 1), right-aligned in
/// three columns, then a space.
pub fn row_number(i: usize) -> (r: String)
    requires
        i < usize::MAX,
    ensures
        r@ == padded_left(decimal((i + 1) as nat), 3) + seq![' '],
{
    let n = to_decimal((i + 1) as u64);
    let mut r = pad_left(n.as_str(), 3);
    push_char(&mut r, ' ');
    r
}

/// The name cell of the file list: the name cut to fit two columns less
/// than the name column, padded to that width, then two spaces.
pub fn name_cell(name: &str) -> (r: String)
    ensures
        r@ == padded_right(truncated(name@, 22), 22) + "  "@,
{
    let t = truncate(name, 22);
    let p = pad_right(t.as_str(), 22);
    concat(p.as_str(), "  ")
}

/// The description cell of the file list, `width` wide, then two spaces.
pub fn description_cell(desc: &str, width: usize) -> (r: String)
    ensures
        r@ == padded_right(truncated(desc@, width as nat), width as nat) + "  "@,
{
    let t = truncate(desc, width);
    let p = pad_right(t.as_str(), width);
    concat(p.as_str(), "  ")
}

/// The tags of an entry as shown: each after a `#`, separated by spaces.
pub open spec fn tags_text(tags: Seq<Seq<char>>) -> Seq<char> {
    join_seq(tags.map_values(|t: Seq<char>| seq!['#'] + t), " "@)
}

/// The tags as shown: `#a #b`.
pub fn tags_label(tags: &Vec<String>) -> (r: String)
    ensures
        r@ == tags_text(views(tags@)),
{
    let mut marked: Vec<String> = Vec::new();
    let n = tags.len();
    for i in 0..n
        invariant
            n == tags@.len(),
            views(marked@) == views(tags@).take(i as int).map_values(|t: Seq<char>| seq!['#'] + t),
    {
        let ghost before = views(marked@);
        let m = concat("#", tags[i].as_str());
        proof {
            reveal_strlit("#");
        }
        assert("#"@ =~= seq!['#']);
        assert(m@ == seq!['#'] + views(tags@)[i as int]);
        marked.push(m);
        assert(views(marked@) =~= before.push(seq!['#'] + views(tags@)[i as int]));
        assert(views(marked@) =~= views(tags@).take(i + 1).map_values(|t: Seq<char>| seq!['#'] + t));
    }
    assert(views(tags@).take(n as int) =~= views(tags@));
    join(&marked, " ")
}

/// The tag cell of the file list: the tags cut to `max` characters.
pub fn tags_cell(tags: &Vec<String>, max: usize) -> (r: String)
    ensures
        r@ == truncated(tags_text(views(tags@)), max as nat),
{
    let l = tags_label(tags);
    truncate(l.as_str(), max)
}

/// The marker before a row of the file list.
#[derive(Clone, Copy, PartialEq, Eq, Structural, Debug)]
pub enum RowMark {
    /// Marked for deletion.
    Deleted,
    /// Under the cursor.
    Selected,
    Plain,
}

/// How the name of a row of the file list is drawn.
#[derive(Clone, Copy, PartialEq, Eq, Structural, Debug)]
pub enum NameStyle {
    /// Marked for deletion: struck through.
    Deleted,
    /// The `..` entry: dim.
    Parent,
    /// A folder, bold under the cursor.
    Folder { selected: bool },
    /// A file under the cursor.
    SelectedFile,
    File,
}

/// The marker and name style of a row: deletion first, then the cursor for
/// the marker; deletion, `..`, folders, then the cursor for the name.
pub open spec fn row_style_of(deleted: bool, selected: bool, parent: bool, is_dir: bool) -> (RowMark, NameStyle) {
    (
        if deleted {
            RowMark::Deleted
        } else if selected {
            RowMark::Selected
        } else {
            RowMark::Plain
        },
        if deleted {
            NameStyle::Deleted
        } else if parent {
            NameStyle::Parent
        } else if is_dir {
            NameStyle::Folder { selected }
        } else if selected {
            NameStyle::SelectedFile
        } else {
            NameStyle::File
        },
    )
}

/// The marker and name style of a row of the file list.
pub fn row_style(deleted: bool, selected: bool, parent: bool, is_dir: bool) -> (r: (RowMark, NameStyle))
    ensures
        r == row_style_of(deleted, selected, parent, is_dir),
{
    let mark = if deleted {
        RowMark::Deleted
    } else if selected {
        RowMark::Selected
    } else {
        RowMark::Plain
    };
    let style = if deleted {
        NameStyle::Deleted
    } else if parent {
        NameStyle::Parent
    } else if is_dir {
        NameStyle::Folder { selected }
    } else if selected {
        NameStyle::SelectedFile
    } else {
        NameStyle::File
    };
    (mark, style)
}

/// Whether `name` is among the names pending deletion.
pub fn is_pending(pending: &Vec<String>, name: &str) -> (r: bool)
    ensures
        r == views(pending@).contains(name@),
{
    let target = String::from_str(name);
    let n = pending.len();
    for i in 0..n
        invariant
            n == pending@.len(),
            target@ == name@,
            forall|j: int| 0 <= j < i ==> views(pending@)[j] != name@,
    {
        if pending[i] == target {
            assert(views(pending@)[i as int] == name@);
            return true;
        }
    }
    false
}

// ─── Insert mode ─────────────────────────────────────────────────────────────

/// The line under the cursor of insert mode cut at column `col` (kept within
/// the name): the text before the cursor, the character under it (a space
/// at the end), and the text after it.
pub open spec fn cursor_split_of(name: Seq<char>, col: int) -> (Seq<char>, Seq<char>, Seq<char>) {
    let c = min_of(col, name.len() as int);
    if c < name.len() {
        (name.take(c), seq![name[c]], name.skip(c + 1))
    } else {
        (name, seq![' '], seq![])
    }
}

/// The line under the cursor, cut around the cursor.
pub fn cursor_split(name: &str, col: usize) -> (r: (String, String, String))
    ensures
        (r.0@, r.1@, r.2@) == cursor_split_of(name@, col as int),
{
    let v = chars_of(name);
    let c = if col < v.len() {
        col
    } else {
        v.len()
    };
    if c < v.len() {
        let before = string_of_range(&v, 0, c);
        let at = string_of_range(&v, c, c + 1);
        let after = string_of_range(&v, c + 1, v.len());
        assert(before@ =~= name@.take(c as int));
        assert(at@ =~= seq![name@[c as int]]);
        assert(after@ =~= name@.skip(c + 1));
        (before, at, after)
    } else {
        let before = string_of_range(&v, 0, v.len());
        assert(before@ =~= name@);
        let mut at = String::new();
        push_char(&mut at, ' ');
        (before, at, String::new())
    }
}

/// The icon of a line of insert mode: none for an empty line, else that of
/// the name (a folder when it ends in `/`), green for a line added while editing.
pub open spec fn edit_icon_of(current: Seq<char>, is_dir: bool, is_new: bool) -> (Seq<char>, Color) {
    if current.len() == 0 {
        (" "@, Color::Green)
    } else {
        let icon = icon_of(current, (current.last() == '/') || is_dir);
        (icon.0, if is_new {
            Color::Green
        } else {
            icon.1
        })
    }
}

/// The icon of a line of insert mode.
pub fn edit_icon(current: &str, is_dir: bool, is_new: bool) -> (r: (&'static str, Color))
    ensures
        (r.0@, r.1) == edit_icon_of(current@, is_dir, is_new),
{
    if current.unicode_len() == 0 {
        return (" ", Color::Green);
    }
    let dir = ends_with_char(current, '/') || is_dir;
    let (icon, color) = icon_for(current, dir);
    (icon, if is_new {
        Color::Green
    } else {
        color
    })
}

// ─── Rows of the file list ───────────────────────────────────────────────────

/// A row of the file list in normal mode, ready to draw.
pub struct FileRow {
    /// The entry's position in the list.
    pub index: usize,
    pub mark: RowMark,
    /// The entry's number; none for `..`.
    pub number: Option<String>,
    pub icon: String,
    pub icon_color: Color,
    /// Under the cursor.
    pub selected: bool,
    pub name: String,
    pub name_style: NameStyle,
    pub description: String,
    pub tags: String,
}

/// `r` is the row of entry `i` of the file list of `a`, `width` cells wide.
pub open spec fn is_file_row(r: FileRow, a: App, i: int, width: nat) -> bool {
    let e = a.entries@[i];
    let name = e.0@;
    let selected = i == a.selected;
    let parent = name == ".."@;
    let deleted = views(a.pending_deletions@).contains(name);
    let dw = sat_sub(width as int, 52) as nat;
    &&& r.index == i
    &&& (r.mark, r.name_style) == row_style_of(deleted, selected, parent, e.1.is_dir)
    &&& r.selected == selected
    &&& if parent {
        r.number is None
    } else {
        r.number matches Some(n) && n@ == padded_left(decimal((i + 1) as nat), 3) + seq![' ']
    }
    &&& (r.icon@, r.icon_color) == icon_of(name, e.1.is_dir)
    &&& r.name@ == padded_right(truncated(name, 22), 22) + "  "@
    &&& r.description@ == padded_right(truncated(e.1.description@, dw), dw) + "  "@
    &&& r.tags@ == truncated(tags_text(views(e.1.tags@)), tags_width())
}

/// The rows of the file list of `a` shown in `height` rows `width` cells
/// wide: from the first row that keeps the selected entry in view, as many
/// as fit.
pub open spec fn shows_file_rows(rows: Seq<FileRow>, a: App, height: nat, width: nat) -> bool {
    let first = scroll_for_row(a.selected as int, height as int);
    &&& rows.len() == min_of(height as int, sat_sub(a.entries@.len() as int, first))
    &&& forall|k: int| 0 <= k < rows.len() ==> is_file_row(#[trigger] rows[k], a, first + k, width)
}

/// The row of entry `i` of the file list.
fn file_row(a: &App, i: usize, width: usize) -> (r: FileRow)
    requires
        i < a.entries@.len(),
    ensures
        is_file_row(r, *a, i as int, width as nat),
{
    let n = a.entries.len();
    assert(i < n);
    let name = a.entries[i].0.as_str();
    let meta = &a.entries[i].1;
    let selected = i == a.selected;
    let parent = String::from_str(name) == String::from_str("..");
    let deleted = is_pending(&a.pending_deletions, name);
    let (mark, name_style) = row_style(deleted, selected, parent, meta.is_dir);
    let number = if parent {
        None
    } else {
        Some(row_number(i))
    };
    let (icon, icon_color) = icon_for(name, meta.is_dir);
    let dw = description_width(width);
    FileRow {
        index: i,
        mark,
        number,
        icon: String::from_str(icon),
        icon_color,
        selected,
        name: name_cell(name),
        name_style,
        description: description_cell(meta.description.as_str(), dw),
        tags: tags_cell(&meta.tags, 18),
    }
}

/// The rows of the file list shown in `height` rows, `width` cells wide.
pub fn file_list_rows(a: &App, height: usize, width: usize) -> (r: Vec<FileRow>)
    requires
        height > 0 || a.selected < usize::MAX,
    ensures
        shows_file_rows(r@, *a, height as nat, width as nat),
{
    let first = list_scroll(a.selected, height);
    let n = a.entries.len();
    let mut rows: Vec<FileRow> = Vec::new();
    let mut i = first;
    while i < n && rows.len() < height
        invariant
            n == a.entries@.len(),
            first == scroll_for_row(a.selected as int, height as int),
            first <= i,
            i == first || i <= n,
            rows@.len() == i - first,
            rows@.len() <= height,
            forall|k: int| 0 <= k < rows@.len() ==> is_file_row(#[trigger] rows@[k], *a, first + k, width as nat),
        decreases n - i,
    {
        rows.push(file_row(a, i, width));
        i = i + 1;
    }
    assert(rows@.len() == min_of(height as int, sat_sub(n as int, first as int)));
    rows
}

impl App {
    /// Lays the file list out in `area`: the area is kept for later clicks,
    /// and the rows drawn in it are those that keep the selected entry in view.
    pub fn lay_out_file_list(&mut self, area: Rect) -> (r: Vec<FileRow>)
        requires
            area.height > 0 || old(self).selected < usize::MAX,
        ensures
            *final(self) == (App { list_area: area, ..*old(self) }),
            shows_file_rows(r@, *final(self), area.height as nat, area.width as nat),
    {
        self.list_area = area;
        file_list_rows(self, area.height as usize, area.width as usize)
    }
}

/// How the name on a line of insert mode is drawn: cut around the cursor on
/// the cursor's line, whole on the others.
pub enum EditName {
    AtCursor { before: String, at: String, after: String },
    Whole(String),
}

/// A line of insert mode, ready to draw.
pub struct EditRow {
    /// The line's position in the buffer.
    pub index: usize,
    /// Under the cursor.
    pub selected: bool,
    pub number: String,
    pub icon: String,
    pub icon_color: Color,
    /// Added while editing.
    pub is_new: bool,
    /// A folder: marked so or named with a final `/`.
    pub is_dir: bool,
    pub name: EditName,
}

/// `r` is line `i` of the edit buffer `buf`.
pub open spec fn is_edit_row(r: EditRow, buf: EditBuffer, i: int) -> bool {
    let it = buf.items@[i];
    let cur = it.current@;
    let selected = i == buf.cursor;
    let is_new = it.original is None;
    let is_dir = (cur.len() > 0 && cur.last() == '/') || it.is_dir;
    &&& r.index == i
    &&& r.selected == selected
    &&& r.number@ == padded_left(decimal((i + 1) as nat), 3) + seq![' ']
    &&& (r.icon@, r.icon_color) == edit_icon_of(cur, it.is_dir, is_new)
    &&& r.is_new == is_new
    &&& r.is_dir == is_dir
    &&& if selected {
        r.name matches EditName::AtCursor { before, at, after } && (before@, at@, after@) == cursor_split_of(
            cur,
            buf.col as int,
        )
    } else {
        r.name matches EditName::Whole(n) && n@ == cur
    }
}

/// The lines of insert mode shown in `height` rows: from the first that
/// keeps the cursor's line in view, as many as fit.
pub open spec fn shows_edit_rows(rows: Seq<EditRow>, buf: EditBuffer, height: nat) -> bool {
    let first = scroll_for_row(buf.cursor as int, height as int);
    &&& rows.len() == min_of(height as int, sat_sub(buf.items@.len() as int, first))
    &&& forall|k: int| 0 <= k < rows.len() ==> is_edit_row(#[trigger] rows[k], buf, first + k)
}

/// The lines of insert mode shown in `height` rows.
pub fn edit_rows(buf: &EditBuffer, height: usize) -> (r: Vec<EditRow>)
    requires
        height > 0 || buf.cursor < usize::MAX,
    ensures
        shows_edit_rows(r@, *buf, height as nat),
{
    let first = list_scroll(buf.cursor, height);
    let n = buf.items.len();
    let mut rows: Vec<EditRow> = Vec::new();
    let mut i = first;
    while i < n && rows.len() < height
        invariant
            n == buf.items@.len(),
            first == scroll_for_row(buf.cursor as int, height as int),
            first <= i,
            i == first || i <= n,
            rows@.len() == i - first,
            rows@.len() <= height,
            forall|k: int| 0 <= k < rows@.len() ==> is_edit_row(#[trigger] rows@[k], *buf, first + k),
        decreases n - i,
    {
        let it = &buf.items[i];
        let cur = it.current.as_str();
        let selected = i == buf.cursor;
        let is_new = it.original.is_none();
        let is_dir = ends_with_char(cur, '/') || it.is_dir;
        let (icon, icon_color) = edit_icon(cur, it.is_dir, is_new);
        let name = if selected {
            let (before, at, after) = cursor_split(cur, buf.col);
            EditName::AtCursor { before, at, after }
        } else {
            EditName::Whole(String::from_str(cur))
        };
        rows.push(
            EditRow {
                index: i,
                selected,
                number: row_number(i),
                icon: String::from_str(icon),
                icon_color,
                is_new,
                is_dir,
                name,
            },
        );
        i = i + 1;
    }
    assert(rows@.len() == min_of(height as int, sat_sub(n as int, first as int)));
    rows
}

/// What the status bar says in normal mode after the position.
pub enum StatusNotice {
    /// Entries are pending deletion: this notice.
    Pending(String),
    /// A first `d` was typed.
    AwaitingSecondD,
    /// The branch and the program's version.
    Default,
}

/// The notice of the status bar in normal mode: pending deletions first,
/// then a first `d`.
pub fn status_notice(a: &App) -> (r: StatusNotice)
    ensures
        a.pending_deletions@.len() > 0 ==> (r matches StatusNotice::Pending(t) && t@ == pending_text(
            a.pending_deletions@.len(),
        )),
        a.pending_deletions@.len() == 0 && a.d_pressed ==> r is AwaitingSecondD,
        a.pending_deletions@.len() == 0 && !a.d_pressed ==> r is Default,
{
    let n = a.pending_deletions.len();
    if n > 0 {
        StatusNotice::Pending(pending_label(n))
    } else if a.d_pressed {
        StatusNotice::AwaitingSecondD
    } else {
        StatusNotice::Default
    }
}

// ─── Status bar ──────────────────────────────────────────────────────────────

/// The position shown in the status bar: the selected entry, counted from
/// 1 (0 when there are none), of all entries.
pub open spec fn position_text(selected: nat, total: nat) -> Seq<char> {
    "biblioteca · "@ + decimal(
        if total == 0 {
            0
        } else {
            selected + 1
        },
    ) + "/"@ + decimal(total)
}

/// The position shown in the status bar.
pub fn position_label(selected: usize, total: usize) -> (r: String)
    requires
        total == 0 || selected < usize::MAX,
    ensures
        r@ == position_text(selected as nat, total as nat),
{
    let current: u64 = if total == 0 {
        0
    } else {
        (selected + 1) as u64
    };
    let a = concat("biblioteca · ", to_decimal(current).as_str());
    let b = concat(a.as_str(), "/");
    concat(b.as_str(), to_decimal(total as u64).as_str())
}

/// The notice of `n` entries pending deletion, with the keys that settle them.
pub open spec fn pending_text(n: nat) -> Seq<char> {
    "   ✗ "@ + decimal(n) + " pendiente"@ + (if n == 1 {
        seq![]
    } else {
        "s"@
    }) + "  ^s confirmar  esc cancelar"@
}

/// The notice of `n` entries pending deletion.
pub fn pending_label(n: usize) -> (r: String)
    ensures
        r@ == pending_text(n as nat),
{
    let a = concat("   ✗ ", to_decimal(n as u64).as_str());
    let b = concat(a.as_str(), " pendiente");
    let c = if n == 1 {
        assert(b@ =~= b@ + Seq::<char>::empty());
        b
    } else {
        concat(b.as_str(), "s")
    };
    concat(c.as_str(), "  ^s confirmar  esc cancelar")
}

// ─── Titles and dialogs ──────────────────────────────────────────────────────

/// The path shown in the title bar for the directory `current` of the library.
pub open spec fn title_text(current: Seq<char>) -> Seq<char> {
    if current.len() == 0 {
        "~/biblioteca"@
    } else {
        "~/biblioteca/"@ + current
    }
}

/// The path shown in the title bar.
pub fn title_path(current: &str) -> (r: String)
    ensures
        r@ == title_text(current@),
{
    if current.unicode_len() == 0 {
        String::from_str("~/biblioteca")
    } else {
        concat("~/biblioteca/", current)
    }
}

/// How a line of an output dialog is highlighted.
#[derive(Clone, Copy, PartialEq, Eq, Structural, Debug)]
pub enum OutputStyle {
    Success,
    Failure,
    Plain,
}

/// The highlight of an output line: a check mark is success, a cross or a
/// leading `error` is failure.
pub open spec fn output_style_of(l: Seq<char>) -> OutputStyle {
    if l.len() > 0 && l[0] == '✓' {
        OutputStyle::Success
    } else if l.len() > 0 && l[0] == '✗' {
        OutputStyle::Failure
    } else if "error"@.is_prefix_of(l) {
        OutputStyle::Failure
    } else {
        OutputStyle::Plain
    }
}

/// The highlight of a line of an output dialog.
pub fn output_style(l: &str) -> (r: OutputStyle)
    ensures
        r == output_style_of(l@),
{
    if crate::text::starts_with_char(l, '✓') {
        OutputStyle::Success
    } else if crate::text::starts_with_char(l, '✗') {
        OutputStyle::Failure
    } else if str_starts_with(l, "error") {
        OutputStyle::Failure
    } else {
        OutputStyle::Plain
    }
}

// ─── Plugins ─────────────────────────────────────────────────────────────────

/// A plugin's name as listed: without the `basalto-` prefix.
pub open spec fn plugin_display_of(name: Seq<char>) -> Seq<char> {
    if "basalto-"@.is_prefix_of(name) {
        name.skip(8)
    } else {
        name
    }
}

/// A plugin's name without the `basalto-` prefix.
pub fn plugin_display_name(name: &str) -> (r: String)
    ensures
        r@ == plugin_display_of(name@),
{
    proof {
        reveal_strlit("basalto-");
    }
    if str_starts_with(name, "basalto-") {
        let v = chars_of(name);
        let r = string_of_range(&v, 8, v.len());
        assert(r@ =~= name@.skip(8));
        r
    } else {
        String::from_str(name)
    }
}

/// Where a plugin's program lies: what `which` printed for it, trimmed
/// (`found`, `None` when it did not find it), else where cargo installs it
/// under the home directory, else nothing.
pub open spec fn plugin_path_of(found: Option<Seq<char>>, home: Option<Seq<char>>, name: Seq<char>) -> Seq<char> {
    match found {
        Some(f) => trimmed(f),
        None => match home {
            Some(h) => h + "/.cargo/bin/"@ + name,
            None => seq![],
        },
    }
}

/// Where a plugin's program lies.
pub fn plugin_path(found: Option<String>, home: Option<String>, name: &str) -> (r: String)
    ensures
        r@ == plugin_path_of(crate::text::opt_view(found), crate::text::opt_view(home), name@),
{
    match found {
        Some(f) => trim(f.as_str()),
        None => match home {
            Some(h) => {
                let a = concat(h.as_str(), "/.cargo/bin/");
                concat(a.as_str(), name)
            },
            None => String::new(),
        },
    }
}

/// The width left for the path column of the plugin tab, `width` cells wide.
pub fn plugin_path_width(width: usize) -> (r: usize)
    ensures
        r == sat_sub(width as int, 42),
{
    if width > 42 {
        width - 42
    } else {
        0
    }
}

/// The cells of a row of the plugin tab: the name without its `basalto-`
/// prefix cut and padded to 24, the state (`activo` or `inactivo`) padded
/// to 10 after two spaces, and the program's path cut to `path_width` after
/// two spaces.
pub fn plugin_row(name: &str, enabled: bool, path: &str, path_width: usize) -> (r: (String, String, String))
    ensures
        r.0@ == padded_right(truncated(plugin_display_of(name@), 24), 24),
        r.1@ == "  "@ + padded_right(
            if enabled {
                "activo"@
            } else {
                "inactivo"@
            },
            10,
        ),
        r.2@ == "  "@ + truncated(path@, path_width as nat),
{
    let display = plugin_display_name(name);
    let cut = truncate(display.as_str(), 24);
    let name_cell = pad_right(cut.as_str(), 24);
    let state = if enabled {
        "activo"
    } else {
        "inactivo"
    };
    let padded = pad_right(state, 10);
    let state_cell = concat("  ", padded.as_str());
    let p = truncate(path, path_width);
    let path_cell = concat("  ", p.as_str());
    (name_cell, state_cell, path_cell)
}

// ─── The entry list dialog ───────────────────────────────────────────────────

/// The cells of an entry of the list dialog: its key cut to 30, its
/// description cut to 22, its tags cut to 14.
pub fn list_dialog_cells(key: &str, desc: &str, tags: &Vec<String>) -> (r: (String, String, String))
    ensures
        r.0@ == truncated(key@, 30),
        r.1@ == truncated(desc@, 22),
        r.2@ == truncated(tags_text(views(tags@)), 14),
{
    (truncate(key, 30), truncate(desc, 22), tags_cell(tags, 14))
}

// ─── Preview ─────────────────────────────────────────────────────────────────

/// The body of the preview: `(archivo vacío)` when there is nothing, else
/// the first `visible` lines, each cut to `width` after a space.
pub open spec fn preview_body_of(lines: Seq<Seq<char>>, visible: nat, width: nat) -> Seq<Seq<char>> {
    if lines.len() == 0 {
        seq!["  (archivo vacío)"@]
    } else {
        lines.take(min_of(visible as int, lines.len() as int)).map_values(
            |l: Seq<char>| seq![' '] + truncated(l, width),
        )
    }
}

/// The body of the preview.
pub fn preview_body(lines: &Vec<String>, visible: usize, width: usize) -> (r: Vec<String>)
    ensures
        views(r@) == preview_body_of(views(lines@), visible as nat, width as nat),
{
    let mut r: Vec<String> = Vec::new();
    if lines.len() == 0 {
        r.push(String::from_str("  (archivo vacío)"));
        assert(views(r@) =~= seq!["  (archivo vacío)"@]);
        return r;
    }
    let n = if visible < lines.len() {
        visible
    } else {
        lines.len()
    };
    let ghost f = |l: Seq<char>| seq![' '] + truncated(l, width as nat);
    for i in 0..n
        invariant
            n <= lines@.len(),
            f == (|l: Seq<char>| seq![' '] + truncated(l, width as nat)),
            views(r@) == views(lines@).take(i as int).map_values(f),
    {
        let ghost before = views(r@);
        let t = truncate(lines[i].as_str(), width);
        let mut l = String::new();
        push_char(&mut l, ' ');
        l.append(t.as_str());
        assert(l@ =~= f(views(lines@)[i as int]));
        r.push(l);
        assert(views(r@) =~= before.push(f(views(lines@)[i as int])));
        assert(views(r@) =~= views(lines@).take(i + 1).map_values(f));
    }
    r
}

/// The text after the name in the preview's heading: the summary of the
/// last commit after two spaces, or nothing.
pub fn preview_commit_suffix(info: &str) -> (r: String)
    ensures
        r@ == (if info@.len() == 0 {
            seq![]
        } else {
            "  "@ + info@
        }),
{
    if info.unicode_len() == 0 {
        String::new()
    } else {
        concat("  ", info)
    }
}

// ─── Editor and shell commands ───────────────────────────────────────────────

/// Editors that open a window of their own and return at once, so that the
/// terminal interface cannot wait for them.
pub open spec fn gui_editors() -> Seq<Seq<char>> {
    seq![
        "code"@,
        "code-insiders"@,
        "subl"@,
        "subl3"@,
        "atom"@,
        "gedit"@,
        "kate"@,
        "mousepad"@,
        "xed"@,
        "notepad"@,
    ]
}

/// The program named by an editor setting: its last `/`-separated part, trimmed.
pub open spec fn editor_program_of(setting: Seq<char>) -> Seq<char> {
    trimmed(crate::text::split_on(setting, '/').last())
}

/// An editor setting names a program that runs in the terminal.
pub open spec fn is_terminal_editor(setting: Seq<char>) -> bool {
    editor_program_of(setting).len() > 0 && !gui_editors().contains(editor_program_of(setting))
}

/// Whether the editor setting (from `BASALTO_EDITOR`, `EDITOR` or `VISUAL`)
/// names a program that runs in the terminal.
pub fn terminal_editor_setting(setting: &str) -> (r: bool)
    ensures
        r == is_terminal_editor(setting@),
{
    let parts = crate::text::split_str(setting, '/');
    proof {
        crate::text::lemma_split_nonempty(setting@, '/');
    }
    let last = &parts[parts.len() - 1];
    assert(last@ == crate::text::split_on(setting@, '/').last());
    let bin = trim(last.as_str());
    if bin.as_str().unicode_len() == 0 {
        return false;
    }
    let gui = editor_blocklist();
    let n = gui.len();
    for i in 0..n
        invariant
            n == gui@.len(),
            views(gui@) == gui_editors(),
            bin@ == editor_program_of(setting@),
            forall|j: int| 0 <= j < i ==> gui_editors()[j] != bin@,
    {
        if gui[i] == bin {
            assert(gui_editors()[i as int] == bin@);
            return false;
        }
    }
    assert(!gui_editors().contains(bin@)) by {
        if gui_editors().contains(bin@) {
            let j = choose|j: int| 0 <= j < gui_editors().len() && gui_editors()[j] == bin@;
            assert(gui_editors()[j] != bin@);
        }
    }
    true
}

/// The editors that open a window of their own.
fn editor_blocklist() -> (r: Vec<String>)
    ensures
        views(r@) == gui_editors(),
{
    let mut r = Vec::new();
    r.push(String::from_str("code"));
    r.push(String::from_str("code-insiders"));
    r.push(String::from_str("subl"));
    r.push(String::from_str("subl3"));
    r.push(String::from_str("atom"));
    r.push(String::from_str("gedit"));
    r.push(String::from_str("kate"));
    r.push(String::from_str("mousepad"));
    r.push(String::from_str("xed"));
    r.push(String::from_str("notepad"));
    assert(views(r@) =~= gui_editors());
    r
}

/// The terminal editors looked for, in order of preference, when the
/// setting names none.
pub fn editor_candidates() -> (r: Vec<String>)
    ensures
        views(r@) == editor_candidate_names(),
{
    let mut r = Vec::new();
    r.push(String::from_str("nvim"));
    r.push(String::from_str("vim"));
    r.push(String::from_str("nano"));
    r.push(String::from_str("vi"));
    assert(views(r@) =~= editor_candidate_names());
    r
}

/// The terminal editors looked for when the setting names none, in order of
/// preference.
pub open spec fn editor_candidate_names() -> Seq<Seq<char>> {
    seq!["nvim"@, "vim"@, "nano"@, "vi"@]
}

/// The next step of choosing the editor: use this program, or ask whether
/// this candidate is installed and come back with the answer.
pub enum EditorStep {
    Use(String),
    Ask(String),
}

/// The step after `asked` candidates were asked about, `found` telling
/// whether the last one asked is installed: the setting when it names a
/// terminal editor; else the first candidate found installed; else the next
/// candidate to ask about; else, when none is installed, the setting anyway.
pub open spec fn editor_step_of(setting: Seq<char>, asked: nat, found: bool) -> (bool, Seq<char>) {
    if asked == 0 {
        if is_terminal_editor(setting) {
            (true, setting)
        } else {
            (false, editor_candidate_names()[0])
        }
    } else if found {
        (true, editor_candidate_names()[asked - 1])
    } else if asked < 4 {
        (false, editor_candidate_names()[asked as int])
    } else {
        (true, setting)
    }
}

/// The next step of choosing the editor to open files with, from the
/// editor setting, how many candidates were asked about, and whether the
/// last one is installed.
pub fn editor_step(setting: &str, asked: usize, found: bool) -> (r: EditorStep)
    requires
        asked <= 4,
    ensures
        match r {
            EditorStep::Use(e) => editor_step_of(setting@, asked as nat, found) == (true, e@),
            EditorStep::Ask(c) => editor_step_of(setting@, asked as nat, found) == (false, c@),
        },
{
    let names = editor_candidates();
    assert(views(names@) == editor_candidate_names());
    assert(names@.len() == views(names@).len());
    assert(names@.len() == 4);
    if asked == 0 {
        if terminal_editor_setting(setting) {
            EditorStep::Use(String::from_str(setting))
        } else {
            EditorStep::Ask(names[0].clone())
        }
    } else if found {
        EditorStep::Use(names[asked - 1].clone())
    } else if asked < 4 {
        EditorStep::Ask(names[asked].clone())
    } else {
        EditorStep::Use(String::from_str(setting))
    }
}

/// The words of `s`: its runs of characters other than white space, in
/// order (std's `str::split_whitespace`).
pub open spec fn words_of(s: Seq<char>) -> Seq<Seq<char>>
    decreases s.len(),
{
    if s.len() == 0 {
        seq![]
    } else if is_ws(s.last()) {
        words_of(s.drop_last())
    } else if s.len() >= 2 && !is_ws(s[s.len() - 2]) {
        let w = words_of(s.drop_last());
        w.update(w.len() - 1, w.last().push(s.last()))
    } else {
        words_of(s.drop_last()).push(seq![s.last()])
    }
}

/// A text that ends in a character other than white space has a word.
proof fn lemma_words_nonempty(s: Seq<char>)
    requires
        s.len() > 0,
        !is_ws(s.last()),
    ensures
        words_of(s).len() > 0,
    decreases s.len(),
{
    if s.len() >= 2 && !is_ws(s[s.len() - 2]) {
        lemma_words_nonempty(s.drop_last());
    }
}

/// The words of a shell command line: the program, then its arguments.
pub fn command_words(cmd: &str) -> (r: Vec<String>)
    ensures
        views(r@) == words_of(cmd@),
{
    let v = chars_of(cmd);
    let mut words: Vec<String> = Vec::new();
    let mut cur = String::new();
    let n = v.len();
    for i in 0..n
        invariant
            n == v@.len(),
            v@ == cmd@,
            cur@.len() > 0 ==> views(words@).push(cur@) == words_of(cmd@.take(i as int)),
            cur@.len() > 0 ==> i > 0 && !is_ws(cmd@[i - 1]),
            cur@.len() == 0 ==> views(words@) == words_of(cmd@.take(i as int)),
            cur@.len() == 0 ==> (i == 0 || is_ws(cmd@[i - 1])),
    {
        let c = v[i];
        let ghost pre = cmd@.take(i as int);
        assert(cmd@.take(i + 1).drop_last() =~= pre);
        if is_whitespace(c) {
            if cur.as_str().unicode_len() > 0 {
                let ghost wb = views(words@);
                words.push(cur);
                cur = String::new();
                assert(views(words@) =~= wb.push(words@.last()@));
            }
        } else {
            let ghost cb = cur@;
            let ghost wb = views(words@);
            if cur.as_str().unicode_len() > 0 {
                proof {
                    lemma_words_nonempty(pre);
                    let s1 = cmd@.take(i + 1);
                    assert(s1[s1.len() - 2] == cmd@[i - 1]);
                    assert(s1.last() == c);
                    let w = words_of(pre);
                    assert(wb.push(cb) == w);
                    assert(w.update(w.len() - 1, w.last().push(c)) =~= wb.push(cb.push(c)));
                }
            } else {
                assert(pre.len() == 0 || is_ws(pre.last()));
                assert(words_of(cmd@.take(i + 1)) == words_of(pre).push(seq![c]));
                assert(cb.push(c) =~= seq![c]);
            }
            push_char(&mut cur, c);
            assert(views(words@) == wb);
            assert(wb.push(cb.push(c)) == words_of(cmd@.take(i + 1)));
        }
    }
    assert(cmd@.take(n as int) =~= cmd@);
    if cur.as_str().unicode_len() > 0 {
        let ghost wb = views(words@);
        words.push(cur);
        assert(views(words@) =~= wb.push(words@.last()@));
    }
    words
}

} // verus!
