//! What each key does: an open dialog takes the keys first, then the mode
//! decides (normal, insert or command). A mouse event acts only in normal
//! mode with no dialog open.
use vstd::prelude::*;
use crate::app::{
    App, Effect, Mode, Modal, app_wf, commit_deletions_post, cancel_deletions_post, enter_selected_post,
    click_in_range, handle_click_post, nav_down_post, nav_up_post, navigate_up_post, sat_pred, selected_key_of, tab_switch_post,
    toggle_delete_post, toggle_help_post, toggle_sidebar_focus_post,
};
use crate::command::{
    close_modal_post, mode_pop_post, mode_push_post, modal_add_enter_post, modal_add_pop_post,
    modal_add_push_post, modal_add_tab_post, modal_confirm_remove_post, modal_confirm_use_post,
    modal_scroll_down_post, modal_scroll_up_post, modal_use_pop_post, modal_use_push_post,
    modal_use_tab_complete_post, sat_add_u16, take_command_post,
};
use crate::edit::{
    confirm_insert_post, enter_command_post, enter_insert_post, insert_col_post, insert_move_post,
    insert_newline_post, insert_pop_post, insert_push_post, mode_cancel_post,
};
use crate::sidebar::{sidebar_move_post, toggle_section_post};

verus! {

/// A key as the terminal reports it.
#[derive(Clone, Copy, PartialEq, Eq, Structural, Debug)]
pub enum KeyCode {
    Char(char),
    Enter,
    Esc,
    Backspace,
    Tab,
    BackTab,
    Up,
    Down,
    Left,
    Right,
    /// Any key the interface does not use.
    Other,
}

/// A key press: the key, and whether Ctrl was held.
#[derive(Clone, Copy, PartialEq, Eq, Structural, Debug)]
pub struct KeyPress {
    pub code: KeyCode,
    pub ctrl: bool,
}

/// A mouse event.
#[derive(Clone, Copy, PartialEq, Eq, Structural, Debug)]
pub enum MouseAction {
    /// The left button pressed on the cell at `column`, `row`.
    Click { column: u16, row: u16 },
    ScrollDown,
    ScrollUp,
    /// Any other mouse event.
    Other,
}

/// `j` or the down arrow.
pub open spec fn is_down(code: KeyCode) -> bool {
    code == KeyCode::Char('j') || code == KeyCode::Down
}

/// `k` or the up arrow.
pub open spec fn is_up(code: KeyCode) -> bool {
    code == KeyCode::Char('k') || code == KeyCode::Up
}

/// `h`, `j`, `k`, `l` or an arrow.
pub open spec fn is_direction(code: KeyCode) -> bool {
    is_down(code) || is_up(code) || code == KeyCode::Char('h') || code == KeyCode::Char('l') || code
        == KeyCode::Left || code == KeyCode::Right
}

/// A key while the help is shown: `j`/`k` scroll it, any other key closes it.
pub open spec fn help_key_post(pre: App, post: App, code: KeyCode) -> bool {
    if is_down(code) {
        post == (App { help_scroll: sat_add_u16(pre.help_scroll), ..pre })
    } else if is_up(code) {
        post == (App { help_scroll: sat_pred(pre.help_scroll as int) as u16, ..pre })
    } else {
        post == (App { show_help: false, help_scroll: 0, ..pre })
    }
}

/// A key in normal mode with no dialog open.
pub open spec fn normal_key_post(pre: App, post: App, eff: Effect, key: KeyPress) -> bool {
    let code = key.code;
    let mid = App { d_pressed: false, ..pre };
    let focused = pre.sidebar_focused;
    if pre.show_help {
        eff is Idle && help_key_post(pre, post, code)
    } else if code == KeyCode::Char('d') && !key.ctrl {
        eff is Idle && if pre.d_pressed {
            toggle_delete_post(mid, post)
        } else {
            post == (App { d_pressed: true, ..pre })
        }
    } else if code == KeyCode::Char('q') {
        eff is Idle && post == (App { should_quit: true, ..mid })
    } else if code == KeyCode::Char('?') {
        eff is Idle && toggle_help_post(mid, post)
    } else if code == KeyCode::Char('i') {
        eff is Idle && enter_insert_post(mid, post)
    } else if code == KeyCode::Char(':') {
        eff is Idle && enter_command_post(mid, post)
    } else if code == KeyCode::Char('s') && key.ctrl {
        commit_deletions_post(mid, post, eff)
    } else if code == KeyCode::Esc {
        eff is Idle && cancel_deletions_post(mid, post)
    } else if code == KeyCode::Backspace || code == KeyCode::Char('-') {
        navigate_up_post(mid, post, eff)
    } else if code == KeyCode::Enter {
        if focused {
            eff is Idle && toggle_section_post(mid, post)
        } else {
            enter_selected_post(mid, post, eff)
        }
    } else if is_direction(code) && key.ctrl {
        eff is Idle && toggle_sidebar_focus_post(mid, post)
    } else if is_down(code) {
        if focused {
            eff is Idle && sidebar_move_post(mid, post, true)
        } else {
            nav_down_post(mid, post, eff)
        }
    } else if is_up(code) {
        if focused {
            eff is Idle && sidebar_move_post(mid, post, false)
        } else {
            nav_up_post(mid, post, eff)
        }
    } else if (code == KeyCode::Char('l') || code == KeyCode::Right) && !focused {
        tab_switch_post(mid, post, eff, ((pre.tab + 1) % 3) as usize)
    } else if (code == KeyCode::Char('h') || code == KeyCode::Left) && !focused {
        tab_switch_post(mid, post, eff, ((pre.tab + 2) % 3) as usize)
    } else if code == KeyCode::Char('u') && pre.tab == 0 {
        post == mid && if selected_key_of(mid).len() > 0 {
            eff matches Effect::OfferUse(k) && k@ == selected_key_of(mid)
        } else {
            eff is Idle
        }
    } else if code == KeyCode::Char('r') && pre.tab == 1 {
        post == mid && eff is GitInfo
    } else {
        post == mid && eff is Idle
    }
}

/// A key in insert mode.
pub open spec fn insert_key_post(pre: App, post: App, eff: Effect, key: KeyPress) -> bool {
    let code = key.code;
    if code == KeyCode::Esc {
        eff is Idle && mode_cancel_post(pre, post)
    } else if code == KeyCode::Backspace {
        eff is Idle && insert_pop_post(pre, post)
    } else if code == KeyCode::Enter {
        eff is Idle && insert_newline_post(pre, post)
    } else if code == KeyCode::Char('s') && key.ctrl {
        confirm_insert_post(pre, post, eff)
    } else if is_up(code) {
        eff is Idle && insert_move_post(pre, post, false)
    } else if is_down(code) {
        eff is Idle && insert_move_post(pre, post, true)
    } else if code == KeyCode::Left {
        eff is Idle && insert_col_post(pre, post, false)
    } else if code == KeyCode::Right {
        eff is Idle && insert_col_post(pre, post, true)
    } else {
        eff is Idle && match code {
            KeyCode::Char(c) => insert_push_post(pre, post, c),
            _ => post == pre,
        }
    }
}

/// A key in command mode.
pub open spec fn command_key_post(pre: App, post: App, eff: Effect, key: KeyPress) -> bool {
    match key.code {
        KeyCode::Esc => eff is Idle && mode_cancel_post(pre, post),
        KeyCode::Backspace => eff is Idle && mode_pop_post(pre, post),
        KeyCode::Enter => take_command_post(pre, post, eff),
        KeyCode::Char(c) => eff is Idle && mode_push_post(pre, post, c),
        _ => eff is Idle && post == pre,
    }
}

/// A key while a dialog is open (Ctrl is not looked at).
pub open spec fn modal_key_post(pre: App, post: App, eff: Effect, code: KeyCode) -> bool {
    match pre.modal {
        Some(Modal::Add { .. }) => match code {
            KeyCode::Esc => eff is Idle && close_modal_post(pre, post),
            KeyCode::Backspace => eff is Idle && modal_add_pop_post(pre, post),
            KeyCode::Tab => eff is Idle && modal_add_tab_post(pre, post, true),
            KeyCode::BackTab => eff is Idle && modal_add_tab_post(pre, post, false),
            KeyCode::Enter => modal_add_enter_post(pre, post, eff),
            KeyCode::Char(c) => eff is Idle && modal_add_push_post(pre, post, c),
            _ => eff is Idle && post == pre,
        },
        Some(Modal::Remove { .. }) => if code == KeyCode::Esc || code == KeyCode::Char('n') {
            eff is Idle && close_modal_post(pre, post)
        } else if code == KeyCode::Char('y') || code == KeyCode::Enter {
            modal_confirm_remove_post(pre, post, eff)
        } else {
            eff is Idle && post == pre
        },
        Some(Modal::Use { .. }) => match code {
            KeyCode::Esc => eff is Idle && close_modal_post(pre, post),
            KeyCode::Backspace => eff is Idle && modal_use_pop_post(pre, post),
            KeyCode::Tab => modal_use_tab_complete_post(pre, post, eff),
            KeyCode::Enter => modal_confirm_use_post(pre, post, eff),
            KeyCode::Char(c) => eff is Idle && modal_use_push_post(pre, post, c),
            _ => eff is Idle && post == pre,
        },
        Some(_) => eff is Idle && if code == KeyCode::Esc || code == KeyCode::Char('q') {
            close_modal_post(pre, post)
        } else if is_down(code) {
            modal_scroll_down_post(pre, post)
        } else if is_up(code) {
            modal_scroll_up_post(pre, post)
        } else {
            post == pre
        },
        None => eff is Idle && post == pre,
    }
}

/// A key press: the open dialog takes it, else the mode decides.
pub open spec fn key_post(pre: App, post: App, eff: Effect, key: KeyPress) -> bool {
    if pre.modal is Some {
        modal_key_post(pre, post, eff, key.code)
    } else {
        match pre.mode {
            Mode::Insert(_) => insert_key_post(pre, post, eff, key),
            Mode::Command(_) => command_key_post(pre, post, eff, key),
            Mode::Normal => normal_key_post(pre, post, eff, key),
        }
    }
}

/// A mouse event: in normal mode with no dialog open, a click selects the
/// entry under it and the wheel moves on the active tab; otherwise nothing.
pub open spec fn mouse_post(pre: App, post: App, eff: Effect, m: MouseAction) -> bool {
    if pre.mode is Normal && pre.modal is None {
        match m {
            MouseAction::Click { column, row } => handle_click_post(pre, post, eff, column, row),
            MouseAction::ScrollDown => nav_down_post(pre, post, eff),
            MouseAction::ScrollUp => nav_up_post(pre, post, eff),
            MouseAction::Other => post == pre && eff is Idle,
        }
    } else {
        post == pre && eff is Idle
    }
}

/// Whether `code` is `h`, `j`, `k`, `l` or an arrow.
fn direction_key(code: KeyCode) -> (r: bool)
    ensures
        r == is_direction(code),
{
    match code {
        KeyCode::Up | KeyCode::Down | KeyCode::Left | KeyCode::Right => true,
        KeyCode::Char(c) => c == 'h' || c == 'j' || c == 'k' || c == 'l',
        _ => false,
    }
}

impl App {
    /// A key in normal mode: `dd` marks or unmarks the selected entry for
    /// deletion, `q` quits, `?` shows the help, `i` and `:` enter insert and
    /// command mode, Ctrl+S deletes what is marked, Esc unmarks it all,
    /// Backspace and `-` go up a directory, Enter opens, Ctrl with a
    /// direction moves the focus between sidebar and tabs, `j`/`k` move,
    /// `h`/`l` change tab, `u` offers to copy the selected entry, `r`
    /// reloads the git tab.
    pub fn handle_normal(&mut self, key: KeyPress) -> (eff: Effect)
        requires
            app_wf(*old(self)),
        ensures
            app_wf(*final(self)),
            normal_key_post(*old(self), *final(self), eff, key),
    {
        let code = key.code;
        if self.show_help {
            match code {
                KeyCode::Char('j') | KeyCode::Down => {
                    if self.help_scroll < u16::MAX {
                        self.help_scroll = self.help_scroll + 1;
                    }
                },
                KeyCode::Char('k') | KeyCode::Up => {
                    if self.help_scroll > 0 {
                        self.help_scroll = self.help_scroll - 1;
                    }
                },
                _ => {
                    self.show_help = false;
                    self.help_scroll = 0;
                },
            }
            return Effect::Idle;
        }
        if code == KeyCode::Char('d') && !key.ctrl {
            if self.d_pressed {
                self.d_pressed = false;
                self.toggle_delete();
            } else {
                self.d_pressed = true;
            }
            return Effect::Idle;
        }
        self.d_pressed = false;
        let focused = self.sidebar_focused;
        if code == KeyCode::Char('s') && key.ctrl {
            return self.commit_deletions();
        }
        if key.ctrl && direction_key(code) {
            self.toggle_sidebar_focus();
            return Effect::Idle;
        }
        match code {
            KeyCode::Char('q') => {
                self.should_quit = true;
                Effect::Idle
            },
            KeyCode::Char('?') => {
                self.toggle_help();
                Effect::Idle
            },
            KeyCode::Char('i') => {
                self.enter_insert();
                Effect::Idle
            },
            KeyCode::Char(':') => {
                self.enter_command();
                Effect::Idle
            },
            KeyCode::Esc => {
                self.cancel_deletions();
                Effect::Idle
            },
            KeyCode::Backspace | KeyCode::Char('-') => self.navigate_up(),
            KeyCode::Enter => {
                if focused {
                    self.sidebar_toggle_section();
                    Effect::Idle
                } else {
                    self.nav_enter()
                }
            },
            KeyCode::Char('j') | KeyCode::Down => {
                if focused {
                    self.sidebar_nav_down();
                    Effect::Idle
                } else {
                    self.nav_down()
                }
            },
            KeyCode::Char('k') | KeyCode::Up => {
                if focused {
                    self.sidebar_nav_up();
                    Effect::Idle
                } else {
                    self.nav_up()
                }
            },
            KeyCode::Char('l') | KeyCode::Right => {
                if focused {
                    Effect::Idle
                } else {
                    self.next_tab()
                }
            },
            KeyCode::Char('h') | KeyCode::Left => {
                if focused {
                    Effect::Idle
                } else {
                    self.prev_tab()
                }
            },
            KeyCode::Char('u') => {
                if self.tab != 0 {
                    return Effect::Idle;
                }
                let k = self.selected_key();
                if k.as_str().unicode_len() > 0 {
                    Effect::OfferUse(k)
                } else {
                    Effect::Idle
                }
            },
            KeyCode::Char('r') => {
                if self.tab == 1 {
                    Effect::GitInfo
                } else {
                    Effect::Idle
                }
            },
            _ => Effect::Idle,
        }
    }
}

impl App {
    /// A key in insert mode: Esc leaves it, Backspace deletes, Enter opens a
    /// new line below, Ctrl+S applies the edits, `j`/`k` and the arrows move,
    /// any other character is typed.
    pub fn handle_insert(&mut self, key: KeyPress) -> (eff: Effect)
        requires
            app_wf(*old(self)),
        ensures
            app_wf(*final(self)),
            insert_key_post(*old(self), *final(self), eff, key),
    {
        match key.code {
            KeyCode::Esc => {
                self.mode_cancel();
                Effect::Idle
            },
            KeyCode::Backspace => {
                self.insert_pop();
                Effect::Idle
            },
            KeyCode::Enter => {
                self.insert_newline();
                Effect::Idle
            },
            KeyCode::Up | KeyCode::Char('k') => {
                self.insert_nav_up();
                Effect::Idle
            },
            KeyCode::Down | KeyCode::Char('j') => {
                self.insert_nav_down();
                Effect::Idle
            },
            KeyCode::Left => {
                self.insert_col_left();
                Effect::Idle
            },
            KeyCode::Right => {
                self.insert_col_right();
                Effect::Idle
            },
            KeyCode::Char(c) => {
                if c == 's' && key.ctrl {
                    self.confirm_insert()
                } else {
                    self.insert_push(c);
                    Effect::Idle
                }
            },
            _ => Effect::Idle,
        }
    }

    /// A key in command mode: Esc leaves it, Backspace deletes, Enter runs
    /// the command, any other character is typed.
    pub fn handle_command(&mut self, key: KeyPress) -> (eff: Effect)
        requires
            app_wf(*old(self)),
        ensures
            app_wf(*final(self)),
            command_key_post(*old(self), *final(self), eff, key),
    {
        match key.code {
            KeyCode::Esc => {
                self.mode_cancel();
                Effect::Idle
            },
            KeyCode::Backspace => {
                self.mode_pop();
                Effect::Idle
            },
            KeyCode::Enter => self.take_command(),
            KeyCode::Char(c) => {
                self.mode_push(c);
                Effect::Idle
            },
            _ => Effect::Idle,
        }
    }

    /// A key in the metadata form.
    fn handle_modal_add(&mut self, code: KeyCode) -> (eff: Effect)
        requires
            app_wf(*old(self)),
            old(self).modal matches Some(Modal::Add { .. }),
        ensures
            app_wf(*final(self)),
            modal_key_post(*old(self), *final(self), eff, code),
    {
        match code {
            KeyCode::Esc => {
                self.close_modal();
                Effect::Idle
            },
            KeyCode::Backspace => {
                self.modal_add_pop();
                Effect::Idle
            },
            KeyCode::Tab => {
                self.modal_add_tab(true);
                Effect::Idle
            },
            KeyCode::BackTab => {
                self.modal_add_tab(false);
                Effect::Idle
            },
            KeyCode::Enter => self.modal_add_enter(),
            KeyCode::Char(c) => {
                self.modal_add_push(c);
                Effect::Idle
            },
            _ => Effect::Idle,
        }
    }

    /// A key in the copy dialog.
    fn handle_modal_use(&mut self, code: KeyCode) -> (eff: Effect)
        requires
            app_wf(*old(self)),
            old(self).modal matches Some(Modal::Use { .. }),
        ensures
            app_wf(*final(self)),
            modal_key_post(*old(self), *final(self), eff, code),
    {
        match code {
            KeyCode::Esc => {
                self.close_modal();
                Effect::Idle
            },
            KeyCode::Backspace => {
                self.modal_use_pop();
                Effect::Idle
            },
            KeyCode::Tab => self.modal_use_tab_complete(),
            KeyCode::Enter => self.modal_confirm_use(),
            KeyCode::Char(c) => {
                self.modal_use_push(c);
                Effect::Idle
            },
            _ => Effect::Idle,
        }
    }

    /// A key in the removal confirmation.
    fn handle_modal_remove(&mut self, code: KeyCode) -> (eff: Effect)
        requires
            app_wf(*old(self)),
            old(self).modal matches Some(Modal::Remove { .. }),
        ensures
            app_wf(*final(self)),
            modal_key_post(*old(self), *final(self), eff, code),
    {
        match code {
            KeyCode::Esc | KeyCode::Char('n') => {
                self.close_modal();
                Effect::Idle
            },
            KeyCode::Char('y') | KeyCode::Enter => self.modal_confirm_remove(),
            _ => Effect::Idle,
        }
    }

    /// A key while a dialog is open: the form, the copy dialog and the
    /// removal confirmation take their own keys; the other dialogs scroll
    /// with `j`/`k` and close with Esc or `q`.
    pub fn handle_modal(&mut self, code: KeyCode) -> (eff: Effect)
        requires
            app_wf(*old(self)),
        ensures
            app_wf(*final(self)),
            modal_key_post(*old(self), *final(self), eff, code),
    {
        match &self.modal {
            Some(Modal::Add { .. }) => self.handle_modal_add(code),
            Some(Modal::Remove { .. }) => self.handle_modal_remove(code),
            Some(Modal::Use { .. }) => self.handle_modal_use(code),
            Some(_) => {
                match code {
                    KeyCode::Esc | KeyCode::Char('q') => self.close_modal(),
                    KeyCode::Char('j') | KeyCode::Down => self.modal_scroll_down(),
                    KeyCode::Char('k') | KeyCode::Up => self.modal_scroll_up(),
                    _ => {},
                }
                Effect::Idle
            },
            None => Effect::Idle,
        }
    }

    /// A key press: an open dialog takes it first, else the mode decides.
    pub fn handle_key(&mut self, key: KeyPress) -> (eff: Effect)
        requires
            app_wf(*old(self)),
        ensures
            app_wf(*final(self)),
            key_post(*old(self), *final(self), eff, key),
    {
        if self.modal.is_some() {
            return self.handle_modal(key.code);
        }
        match &self.mode {
            Mode::Insert(_) => self.handle_insert(key),
            Mode::Command(_) => self.handle_command(key),
            Mode::Normal => self.handle_normal(key),
        }
    }

    /// A mouse event: in normal mode with no dialog open, a click selects the
    /// entry under it and the wheel moves on the active tab.
    pub fn handle_mouse(&mut self, m: MouseAction) -> (eff: Effect)
        requires
            old(self).mode is Normal && old(self).modal is None ==> (m matches MouseAction::Click { column, row }
                ==> click_in_range(old(self).list_area, column, row)),
        ensures
            mouse_post(*old(self), *final(self), eff, m),
    {
        let normal = match &self.mode {
            Mode::Normal => true,
            _ => false,
        };
        if !normal || self.modal.is_some() {
            return Effect::Idle;
        }
        match m {
            MouseAction::Click { column, row } => self.handle_click(column, row),
            MouseAction::ScrollDown => self.nav_down(),
            MouseAction::ScrollUp => self.nav_up(),
            MouseAction::Other => Effect::Idle,
        }
    }
}

} // verus!
