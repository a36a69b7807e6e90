//! Command mode (`:`) and the dialogs: the metadata form, the metadata view,
//! the index list, removal, push output, and copying a library file or folder
//! to a destination.
use vstd::prelude::*;
use crate::app::{App, Effect, Modal, Mode, app_wf, selected_key_of};
use crate::edit::only_mode_changed;
use crate::index::{EntryMeta, MetaView, is_hidden};
use crate::paths::{file_name_of, home_dir, parent_of, path_file_name, path_parent};
use crate::text::{
    chars_of, common_prefix, concat, decimal, has_prefix, is_longest_common_prefix, join, join_seq,
    join_slash, lowercase, pop_char, push_char, split_first, split_on, split_once_char, split_str,
    str_starts_with, string_from_chars, string_of_range, strip_trailing, to_decimal, to_lowercase, trim,
    trim_end_char, trimmed, views, opt_view,
};

verus! {

// ─── Command mode ────────────────────────────────────────────────────────────

/// Typing `c` in command mode appends it to the command.
pub open spec fn mode_push_post(pre: App, post: App, c: char) -> bool {
    match pre.mode {
        Mode::Command(s) => only_mode_changed(pre, post) && (post.mode matches Mode::Command(t) && t@
            == s@.push(c)),
        _ => post == pre,
    }
}

/// Backspace in command mode removes the command's last character.
pub open spec fn mode_pop_post(pre: App, post: App) -> bool {
    match pre.mode {
        Mode::Command(s) => only_mode_changed(pre, post) && (post.mode matches Mode::Command(t) && t@ == (
        if s@.len() > 0 {
            s@.drop_last()
        } else {
            s@
        })),
        _ => post == pre,
    }
}

/// The key a command acts on: its argument, or the selected entry's key.
pub open spec fn command_key(a: App, arg: Seq<char>) -> Seq<char> {
    if arg.len() == 0 {
        selected_key_of(a)
    } else {
        arg
    }
}

/// What `:add` does: the metadata form for the argument, or for the selected
/// entry, focused on the file field.
pub open spec fn open_add_post(pre: App, post: App, arg: Seq<char>) -> bool {
    &&& post == (App { modal: post.modal, ..pre })
    &&& post.modal matches Some(Modal::Add { fields, focused }) && focused == 0 && fields@[0]@
        == command_key(pre, arg) && fields@[1]@.len() == 0 && fields@[2]@.len() == 0
}

/// What a command does, by its lower-cased verb and its argument.
pub open spec fn verb_post(pre: App, post: App, eff: Effect, verb: Seq<char>, arg: Seq<char>) -> bool {
    let key = command_key(pre, arg);
    if verb == "help"@ || verb == "?"@ {
        post == (App { show_help: true, ..pre }) && eff is Idle
    } else if verb == "add"@ {
        open_add_post(pre, post, arg) && eff is Idle
    } else if verb == "show"@ {
        post == pre && if key.len() > 0 {
            eff matches Effect::ShowEntry(k) && k@ == key
        } else {
            eff is Idle
        }
    } else if verb == "remove"@ || verb == "rm"@ {
        eff is Idle && if key.len() > 0 {
            post == (App { modal: post.modal, ..pre }) && (post.modal matches Some(Modal::Remove { key: k })
                && k@ == key)
        } else {
            post == pre
        }
    } else if verb == "list"@ {
        post == pre && eff is ListEntries
    } else if verb == "push"@ {
        post == pre && eff is Push
    } else if verb == "use"@ {
        post == pre && if key.len() > 0 {
            eff matches Effect::OfferUse(k) && k@ == key
        } else {
            eff is Idle
        }
    } else {
        post == pre && (eff matches Effect::Shell(c) && c@ == "basalto "@ + verb + (if arg.len() == 0 {
            seq![]
        } else {
            seq![' '] + arg
        }))
    }
}

/// What Enter does in command mode: back to normal mode, then the command
/// runs: its verb is the first word, lower-cased, its argument the rest, trimmed.
pub open spec fn take_command_post(pre: App, post: App, eff: Effect) -> bool {
    match pre.mode {
        Mode::Command(s) => {
            let mid = App { mode: Mode::Normal, ..pre };
            let cmd = trimmed(s@);
            if cmd.len() == 0 {
                post == mid && eff is Idle
            } else {
                let (first, rest) = split_first(cmd, ' ');
                let arg = match rest {
                    Some(r) => trimmed(r),
                    None => seq![],
                };
                verb_post(mid, post, eff, lowercase(first), arg)
            }
        },
        _ => post == pre && eff is Idle,
    }
}

// ─── Dialog contents ─────────────────────────────────────────────────────────

/// The metadata shown for `key`: that of the first entry of `all` with this
/// key, or nothing.
pub open spec fn shown_meta(all: Seq<(String, EntryMeta)>, key: Seq<char>) -> MetaView {
    match all.map_values(|e: (String, EntryMeta)| e.0@).index_of_first(key) {
        Some(i) => all[i].1@,
        None => MetaView { description: seq![], tags: seq![], is_dir: false, usos: 0, agregado: seq![] },
    }
}

/// The lines of the metadata view of `key`.
pub open spec fn show_lines(all: Seq<(String, EntryMeta)>, key: Seq<char>) -> Seq<(Seq<char>, Seq<char>)> {
    let m = shown_meta(all, key);
    seq![
        ("Archivo"@, key),
        ("Descripción"@, m.description),
        ("Tags"@, join_seq(m.tags, ", "@)),
        ("Usos"@, decimal(m.usos as nat)),
        ("Agregado"@, m.agregado),
    ]
}

/// The values of a list of label and value pairs.
pub open spec fn pair_views(s: Seq<(String, String)>) -> Seq<(Seq<char>, Seq<char>)> {
    s.map_values(|p: (String, String)| (p.0@, p.1@))
}

/// The tags typed in the metadata form: split at commas, trimmed, empty ones dropped.
pub open spec fn parse_tags(field: Seq<char>) -> Seq<Seq<char>> {
    split_on(field, ',').map_values(|t: Seq<char>| trimmed(t)).filter(|t: Seq<char>| t.len() > 0)
}

/// `s` without every leading `./`.
pub open spec fn strip_dot_slash(s: Seq<char>) -> Seq<char>
    decreases s.len(),
{
    if s.len() >= 2 && s[0] == '.' && s[1] == '/' {
        strip_dot_slash(s.skip(2))
    } else {
        s
    }
}

/// The destination first offered for copying `key`: the key's last path
/// component in the home directory (`~` when it is unknown).
pub open spec fn default_destination(key: Seq<char>, home: Option<Seq<char>>) -> Seq<char> {
    destination_with_name(key, home, file_name_of(key))
}

/// The destination first offered for copying `key`, given its last path
/// component `name` (the whole key when there is none).
pub open spec fn destination_with_name(key: Seq<char>, home: Option<Seq<char>>, name: Option<Seq<char>>) -> Seq<
    char,
> {
    (match home {
        Some(h) => h,
        None => "~"@,
    }) + seq!['/'] + (match name {
        Some(n) => n,
        None => key,
    })
}

/// The destination first offered for copying `key`: its last path component
/// `name` (the whole key when there is none) in the home directory (`~` when
/// it is unknown).
pub fn default_destination_for(key: &str, home: Option<String>, name: Option<String>) -> (r: String)
    ensures
        r@ == destination_with_name(key@, opt_view(home), opt_view(name)),
{
    let basename = match name {
        Some(n) => n,
        None => String::from_str(key),
    };
    let h = match home {
        Some(h) => h,
        None => String::from_str("~"),
    };
    join_slash(h.as_str(), basename.as_str())
}

/// A destination as typed, with a leading `~/` standing for the home directory.
pub open spec fn expand_home(dest: Seq<char>, home: Option<Seq<char>>) -> Seq<char> {
    if "~/"@.is_prefix_of(dest) {
        (match home {
            Some(h) => h,
            None => seq![],
        }) + seq!['/'] + dest.skip(2)
    } else {
        dest
    }
}

/// Where a copy goes: the destination typed, trimmed and with `~/` expanded,
/// taken from the launch directory unless it is absolute.
pub open spec fn use_destination(dest: Seq<char>, home: Option<Seq<char>>, launch_dir: Seq<char>) -> Seq<char> {
    let expanded = expand_home(trimmed(dest), home);
    if expanded.len() > 0 && expanded[0] == '/' {
        expanded
    } else {
        launch_dir + seq!['/'] + strip_dot_slash(expanded)
    }
}

/// The directory to list and the name prefix to complete for the destination `dest`.
pub open spec fn completion_query(dest: Seq<char>, home: Option<Seq<char>>) -> (Seq<char>, Seq<char>) {
    let expanded = expand_home(dest, home);
    if expanded.len() > 0 && expanded.last() == '/' {
        (expanded, seq![])
    } else {
        completion_parts(parent_of(expanded), file_name_of(expanded))
    }
}

/// The directory to list and the prefix to complete, from the parent
/// (`.` when there is none or it is empty) and the last component (nothing
/// when there is none) of the destination typed.
pub open spec fn completion_parts(parent: Option<Seq<char>>, name: Option<Seq<char>>) -> (Seq<char>, Seq<char>) {
    let dir = match parent {
        Some(d) => if d.len() == 0 {
            "."@
        } else {
            d
        },
        None => "."@,
    };
    let pfx = match name {
        Some(n) => n,
        None => seq![],
    };
    (dir, pfx)
}

/// The listing items that complete `prefix`: not hidden, and starting with
/// it when both are lower-cased.
pub open spec fn completion_matches(listing: Seq<(String, bool)>, prefix: Seq<char>) -> Seq<(String, bool)> {
    listing.filter(
        |e: (String, bool)| !is_hidden(e.0@) && lowercase(prefix).is_prefix_of(lowercase(e.0@)),
    )
}

/// `p` shown with the home directory `home` written as `~`, when `p` lies
/// inside it (starts with the home directory and a `/`), so that expanding a
/// leading `~/` gives `p` back.
pub open spec fn abbreviate_home(p: Seq<char>, home: Option<Seq<char>>) -> Seq<char> {
    match home {
        Some(h) => if h.len() > 0 && h.push('/').is_prefix_of(p) {
            seq!['~'] + p.skip(h.len() as int)
        } else {
            p
        },
        None => p,
    }
}

/// `completed` is the completion of `prefix` in `dir` among `listing`: the
/// single match, with `/` for a folder, or the longest common prefix of the
/// matches.
pub open spec fn is_completion(
    completed: Seq<char>,
    dir: Seq<char>,
    matches: Seq<(String, bool)>,
) -> bool {
    let base = strip_trailing(dir, '/') + seq!['/'];
    if matches.len() == 1 {
        completed == base + matches[0].0@ + (if matches[0].1 {
            seq!['/']
        } else {
            seq![]
        })
    } else {
        exists|p: Seq<char>| completed == base + p && is_longest_common_prefix(
            p,
            matches.map_values(|e: (String, bool)| e.0@),
        )
    }
}

impl App {
    /// Types `c` in command mode.
    pub fn mode_push(&mut self, c: char)
        requires
            app_wf(*old(self)),
        ensures
            app_wf(*final(self)),
            mode_push_post(*old(self), *final(self), c),
    {
        if let Mode::Command(s) = &mut self.mode {
            push_char(s, c);
        }
    }

    /// Backspace in command mode.
    pub fn mode_pop(&mut self)
        requires
            app_wf(*old(self)),
        ensures
            app_wf(*final(self)),
            mode_pop_post(*old(self), *final(self)),
    {
        if let Mode::Command(s) = &mut self.mode {
            pop_char(s);
        }
    }

    /// Enter in command mode: runs the command typed.
    pub fn take_command(&mut self) -> (eff: Effect)
        requires
            app_wf(*old(self)),
        ensures
            app_wf(*final(self)),
            take_command_post(*old(self), *final(self), eff),
    {
        let cmd = match &self.mode {
            Mode::Command(s) => trim(s.as_str()),
            _ => {
                return Effect::Idle;
            },
        };
        self.mode = Mode::Normal;
        if cmd.as_str().unicode_len() == 0 {
            return Effect::Idle;
        }
        let (first, rest) = split_once_char(cmd.as_str(), ' ');
        let verb = to_lowercase(first.as_str());
        let arg = match rest {
            Some(r) => trim(r.as_str()),
            None => String::new(),
        };
        self.run_command_verb(verb.as_str(), arg)
    }

    /// Runs the command with the lower-cased verb `verb` and the argument `arg`.
    pub fn run_command_verb(&mut self, verb: &str, arg: String) -> (eff: Effect)
        requires
            app_wf(*old(self)),
        ensures
            app_wf(*final(self)),
            verb_post(*old(self), *final(self), eff, verb@, arg@),
    {
        let v = String::from_str(verb);
        let key = if arg.as_str().unicode_len() == 0 {
            self.selected_key()
        } else {
            arg.clone()
        };
        if v == String::from_str("help") || v == String::from_str("?") {
            self.show_help = true;
            Effect::Idle
        } else if v == String::from_str("add") {
            self.open_add_modal(arg.as_str());
            Effect::Idle
        } else if v == String::from_str("show") {
            if key.as_str().unicode_len() != 0 {
                Effect::ShowEntry(key)
            } else {
                Effect::Idle
            }
        } else if v == String::from_str("remove") || v == String::from_str("rm") {
            if key.as_str().unicode_len() != 0 {
                self.modal = Some(Modal::Remove { key });
            }
            Effect::Idle
        } else if v == String::from_str("list") {
            Effect::ListEntries
        } else if v == String::from_str("push") {
            Effect::Push
        } else if v == String::from_str("use") {
            if key.as_str().unicode_len() != 0 {
                Effect::OfferUse(key)
            } else {
                Effect::Idle
            }
        } else {
            let mut full = concat("basalto ", verb);
            if arg.as_str().unicode_len() != 0 {
                push_char(&mut full, ' ');
                full.append(arg.as_str());
            }
            assert(full@ =~= "basalto "@ + verb@ + (if arg@.len() == 0 {
                seq![]
            } else {
                seq![' '] + arg@
            }));
            Effect::Shell(full)
        }
    }

    /// The metadata form for `arg`, or for the selected entry when `arg` is empty.
    pub fn open_add_modal(&mut self, arg: &str)
        requires
            app_wf(*old(self)),
        ensures
            app_wf(*final(self)),
            open_add_post(*old(self), *final(self), arg@),
    {
        let nombre = if arg.unicode_len() != 0 {
            String::from_str(arg)
        } else {
            self.selected_key()
        };
        let fields = [nombre, String::new(), String::new()];
        self.modal = Some(Modal::Add { fields, focused: 0 });
    }

    /// The metadata view of `key`, given the entries of the index.
    pub fn open_show_modal(&mut self, key: &str, all: &Vec<(String, EntryMeta)>)
        requires
            app_wf(*old(self)),
        ensures
            app_wf(*final(self)),
            *final(self) == (App { modal: final(self).modal, ..*old(self) }),
            final(self).modal matches Some(Modal::Show { lines, scroll }) && scroll == 0 && pair_views(lines@)
                == show_lines(all@, key@),
    {
        let ghost keys = all@.map_values(|e: (String, EntryMeta)| e.0@);
        let n = all.len();
        let mut i: usize = 0;
        while i < n && !(all[i].0 == String::from_str(key))
            invariant
                n == all.len(),
                i <= n,
                keys == all@.map_values(|e: (String, EntryMeta)| e.0@),
                forall|j: int| 0 <= j < i ==> keys[j] != key@,
            decreases n - i,
        {
            i = i + 1;
        }
        proof {
            keys.index_of_first_ensures(key@);
        }
        let meta = if i < n {
            proof {
                assert(keys[i as int] == key@);
                let f = keys.index_of_first(key@)->0;
                assert(f == i) by {
                    if f < i {
                        assert(keys[f] != key@);
                    } else if f > i {
                        assert(keys[i as int] == key@);
                    }
                }
            }
            all[i].1.duplicate()
        } else {
            proof {
                assert(!keys.contains(key@)) by {
                    if keys.contains(key@) {
                        let j = choose|j: int| 0 <= j < keys.len() && keys[j] == key@;
                        assert(keys[j] != key@);
                    }
                }
            }
            EntryMeta::blank()
        };
        let ghost m = shown_meta(all@, key@);
        assert(meta@ =~= m);
        let mut lines: Vec<(String, String)> = Vec::new();
        lines.push((String::from_str("Archivo"), String::from_str(key)));
        lines.push((String::from_str("Descripción"), meta.description.clone()));
        lines.push((String::from_str("Tags"), join(&meta.tags, ", ")));
        lines.push((String::from_str("Usos"), to_decimal(meta.usos as u64)));
        lines.push((String::from_str("Agregado"), meta.agregado.clone()));
        assert(pair_views(lines@) =~= show_lines(all@, key@));
        self.modal = Some(Modal::Show { lines, scroll: 0 });
    }

    /// The list of the index's entries, cursor on the first.
    pub fn open_list_modal(&mut self, entries: Vec<(String, EntryMeta)>)
        requires
            app_wf(*old(self)),
        ensures
            app_wf(*final(self)),
            *final(self) == (App { modal: Some(Modal::List { entries, cursor: 0 }), ..*old(self) }),
    {
        self.modal = Some(Modal::List { entries, cursor: 0 });
    }

    /// The output of `git push`.
    pub fn open_push_modal(&mut self, lines: Vec<String>)
        requires
            app_wf(*old(self)),
        ensures
            app_wf(*final(self)),
            *final(self) == (App { modal: final(self).modal, ..*old(self) }),
            final(self).modal matches Some(Modal::Output { title, lines: l, scroll }) && title@ == "git push"@
                && l == lines && scroll == 0,
    {
        self.modal = Some(Modal::Output { title: String::from_str("git push"), lines, scroll: 0 });
    }

    /// Closes the dialog.
    pub fn close_modal(&mut self)
        requires
            app_wf(*old(self)),
        ensures
            app_wf(*final(self)),
            close_modal_post(*old(self), *final(self)),
    {
        self.modal = None;
    }

    /// Types `c` in the focused field of the metadata form.
    pub fn modal_add_push(&mut self, c: char)
        requires
            app_wf(*old(self)),
        ensures
            app_wf(*final(self)),
            modal_add_push_post(*old(self), *final(self), c),
    {
        if let Some(Modal::Add { fields, focused }) = &mut self.modal {
            let k = *focused;
            push_char(&mut fields[k], c);
        }
    }

    /// Backspace in the focused field of the metadata form.
    pub fn modal_add_pop(&mut self)
        requires
            app_wf(*old(self)),
        ensures
            app_wf(*final(self)),
            modal_add_pop_post(*old(self), *final(self)),
    {
        if let Some(Modal::Add { fields, focused }) = &mut self.modal {
            let k = *focused;
            pop_char(&mut fields[k]);
        }
    }

    /// Tab (forward) or Shift+Tab (backward) among the fields of the metadata form.
    pub fn modal_add_tab(&mut self, forward: bool)
        requires
            app_wf(*old(self)),
        ensures
            app_wf(*final(self)),
            modal_add_tab_post(*old(self), *final(self), forward),
    {
        if let Some(Modal::Add { focused, .. }) = &mut self.modal {
            if forward && *focused < 2 {
                *focused = *focused + 1;
            } else if !forward && *focused > 0 {
                *focused = *focused - 1;
            }
        }
    }

    /// Enter in the metadata form: the next field, or, from the last one, saving.
    pub fn modal_add_enter(&mut self) -> (eff: Effect)
        requires
            app_wf(*old(self)),
        ensures
            app_wf(*final(self)),
            modal_add_enter_post(*old(self), *final(self), eff),
    {
        if let Some(Modal::Add { focused, .. }) = &mut self.modal {
            if *focused < 2 {
                *focused = *focused + 1;
                return Effect::Idle;
            }
        }
        self.modal_confirm_add()
    }

    /// Saves the metadata form: the file's key, description and tags go to
    /// the caller to write in the index, and the form closes; with an empty
    /// key nothing happens.
    pub fn modal_confirm_add(&mut self) -> (eff: Effect)
        requires
            app_wf(*old(self)),
        ensures
            app_wf(*final(self)),
            confirm_add_post(*old(self), *final(self), eff),
    {
        let (key, desc, tags) = match &self.modal {
            Some(Modal::Add { fields, .. }) => {
                let key = trim(fields[0].as_str());
                let desc = trim(fields[1].as_str());
                let tags = parse_tags_field(fields[2].as_str());
                (key, desc, tags)
            },
            _ => {
                return Effect::Idle;
            },
        };
        if key.as_str().unicode_len() == 0 {
            return Effect::Idle;
        }
        self.modal = None;
        Effect::AddEntry { key, desc, tags }
    }

    /// Confirms removal: the key goes to the caller to remove from the index,
    /// and the dialog closes.
    pub fn modal_confirm_remove(&mut self) -> (eff: Effect)
        requires
            app_wf(*old(self)),
        ensures
            app_wf(*final(self)),
            modal_confirm_remove_post(*old(self), *final(self), eff),
    {
        let key = match &self.modal {
            Some(Modal::Remove { key }) => key.clone(),
            _ => {
                return Effect::Idle;
            },
        };
        self.modal = None;
        Effect::RemoveEntry(key)
    }

    /// The copy dialog for `key` (a folder when `is_dir`), with the home
    /// directory (`home`) and the key's last path component as destination.
    pub fn open_use_modal_at(&mut self, key: &str, is_dir: bool, home: Option<String>)
        requires
            app_wf(*old(self)),
        ensures
            app_wf(*final(self)),
            key@.len() == 0 ==> *final(self) == *old(self),
            key@.len() > 0 ==> {
                &&& *final(self) == (App { modal: final(self).modal, ..*old(self) })
                &&& final(self).modal matches Some(Modal::Use { key: k, dest, is_dir: d }) && k@ == key@ && d
                    == is_dir && dest@ == default_destination(key@, opt_view(home))
            },
    {
        if key.unicode_len() == 0 {
            return;
        }
        let dest = default_destination_for(key, home, path_file_name(key));
        self.modal = Some(Modal::Use { key: String::from_str(key), dest, is_dir });
    }

    /// The copy dialog for `key`, destined for the home directory.
    pub fn open_use_modal(&mut self, key: &str, is_dir: bool)
        requires
            app_wf(*old(self)),
        ensures
            app_wf(*final(self)),
            key@.len() == 0 ==> *final(self) == *old(self),
            key@.len() > 0 ==> {
                &&& *final(self) == (App { modal: final(self).modal, ..*old(self) })
                &&& final(self).modal matches Some(Modal::Use { key: k, dest, is_dir: d }) && k@ == key@ && d
                    == is_dir && exists|home: Option<Seq<char>>| dest@ == default_destination(key@, home)
            },
    {
        let home = home_dir();
        self.open_use_modal_at(key, is_dir, home);
    }

    /// Types `c` at the end of the copy destination.
    pub fn modal_use_push(&mut self, c: char)
        requires
            app_wf(*old(self)),
        ensures
            app_wf(*final(self)),
            modal_use_push_post(*old(self), *final(self), c),
    {
        if let Some(Modal::Use { dest, .. }) = &mut self.modal {
            push_char(dest, c);
        }
    }

    /// Backspace in the copy destination.
    pub fn modal_use_pop(&mut self)
        requires
            app_wf(*old(self)),
        ensures
            app_wf(*final(self)),
            modal_use_pop_post(*old(self), *final(self)),
    {
        if let Some(Modal::Use { dest, .. }) = &mut self.modal {
            pop_char(dest);
        }
    }

    /// Tab in the copy dialog: the directory to list and the prefix to
    /// complete, for the caller to list and hand to `apply_tab_complete`.
    pub fn modal_use_tab_complete(&mut self) -> (eff: Effect)
        requires
            app_wf(*old(self)),
        ensures
            app_wf(*final(self)),
            modal_use_tab_complete_post(*old(self), *final(self), eff),
    {
        let home = home_dir();
        match &self.modal {
            Some(Modal::Use { dest, .. }) => {
                let (dir, prefix) = completion_for(dest.as_str(), home);
                Effect::ListForCompletion { dir, prefix }
            },
            _ => Effect::Idle,
        }
    }

    /// Completes the copy destination from the listing of the directory `dir`
    /// (names, and whether each is a folder); the home directory is written
    /// as `~` in the result.
    pub fn apply_tab_complete(&mut self, dir: &str, prefix: &str, listing: Vec<(String, bool)>)
        requires
            app_wf(*old(self)),
        ensures
            app_wf(*final(self)),
            (old(self).modal matches Some(Modal::Use { .. })) && completion_matches(listing@, prefix@).len() > 0 ==> {
                &&& *final(self) == (App { modal: final(self).modal, ..*old(self) })
                &&& final(self).modal matches Some(Modal::Use { key: k, dest: d, is_dir: i }) && old(
                    self,
                ).modal matches Some(Modal::Use { key: k0, is_dir: i0, .. }) && k == k0 && i == i0
                    && exists|home: Option<Seq<char>>, completed: Seq<char>|
                    is_completion(completed, dir@, completion_matches(listing@, prefix@)) && d@
                        == abbreviate_home(completed, home)
            },
            !((old(self).modal matches Some(Modal::Use { .. })) && completion_matches(listing@, prefix@).len() > 0) ==> *final(self)
                == *old(self),
    {
        let home = home_dir();
        let ghost hv = opt_view(home);
        match &self.modal {
            Some(Modal::Use { .. }) => {},
            _ => {
                return;
            },
        }
        match complete_destination(dir, prefix, &listing, home) {
            Some(new_dest) => {
                let ghost nd = new_dest@;
                if let Some(Modal::Use { dest, .. }) = &mut self.modal {
                    *dest = new_dest;
                }
                proof {
                    let completed = choose|completed: Seq<char>| is_completion(
                        completed,
                        dir@,
                        completion_matches(listing@, prefix@),
                    ) && nd == abbreviate_home(completed, hv);
                }
            },
            None => {},
        }
    }

    /// Enter in the copy dialog: the copy for the caller to make, from the
    /// library to the destination typed.
    pub fn modal_confirm_use(&mut self) -> (eff: Effect)
        requires
            app_wf(*old(self)),
        ensures
            app_wf(*final(self)),
            modal_confirm_use_post(*old(self), *final(self), eff),
    {
        let home = home_dir();
        let ghost hv = opt_view(home);
        match &self.modal {
            Some(Modal::Use { key, dest, .. }) => {
                let src = join_slash(self.lib_path.as_str(), key.as_str());
                let dst = destination_for(dest.as_str(), home, self.launch_dir.as_str());
                assert(dst@ == use_destination(dest@, hv, self.launch_dir@));
                Effect::Copy { key: key.clone(), src, dst }
            },
            _ => Effect::Idle,
        }
    }

    /// Shows how the copy of `key` to `dst` went: on success the number of
    /// files copied (and the caller counts a use of `key`), otherwise the error.
    pub fn finish_use(&mut self, key: &str, dst: &str, copied: Result<usize, String>)
        requires
            app_wf(*old(self)),
        ensures
            app_wf(*final(self)),
            *final(self) == (App { modal: final(self).modal, ..*old(self) }),
            final(self).modal matches Some(Modal::Output { title, lines, scroll }) && scroll == 0 && match copied {
                Ok(n) => title@ == "✓ copiado"@ && views(lines@) == seq![
                    "desde:  "@ + key@,
                    "hacia:  "@ + dst@,
                    copied_summary(n as nat),
                ],
                Err(e) => title@ == "✗ error al copiar"@ && views(lines@) == seq![e@],
            },
    {
        match copied {
            Ok(n) => {
                let summary = if n == 1 {
                    String::from_str("1 archivo copiado")
                } else {
                    let mut s = to_decimal(n as u64);
                    s.append(" archivos copiados");
                    s
                };
                let mut lines: Vec<String> = Vec::new();
                lines.push(concat("desde:  ", key));
                lines.push(concat("hacia:  ", dst));
                lines.push(summary);
                assert(views(lines@) =~= seq!["desde:  "@ + key@, "hacia:  "@ + dst@, copied_summary(n as nat)]);
                self.modal = Some(
                    Modal::Output { title: String::from_str("✓ copiado"), lines, scroll: 0 },
                );
            },
            Err(e) => {
                let mut lines: Vec<String> = Vec::new();
                let ghost ev = e@;
                lines.push(e);
                assert(views(lines@) =~= seq![ev]);
                self.modal = Some(
                    Modal::Output { title: String::from_str("✗ error al copiar"), lines, scroll: 0 },
                );
            },
        }
    }

    /// Down in a dialog: scrolls the metadata view and the output, moves the
    /// cursor of the index list.
    pub fn modal_scroll_down(&mut self)
        requires
            app_wf(*old(self)),
        ensures
            app_wf(*final(self)),
            modal_scroll_down_post(*old(self), *final(self)),
    {
        match &mut self.modal {
            Some(Modal::Show { scroll, .. }) => {
                *scroll = if *scroll < u16::MAX {
                    *scroll + 1
                } else {
                    *scroll
                };
            },
            Some(Modal::Output { scroll, .. }) => {
                *scroll = if *scroll < u16::MAX {
                    *scroll + 1
                } else {
                    *scroll
                };
            },
            Some(Modal::List { cursor, entries }) => {
                if *cursor < entries.len() && *cursor + 1 < entries.len() {
                    *cursor = *cursor + 1;
                }
            },
            _ => {},
        }
    }

    /// Up in a dialog.
    pub fn modal_scroll_up(&mut self)
        requires
            app_wf(*old(self)),
        ensures
            app_wf(*final(self)),
            modal_scroll_up_post(*old(self), *final(self)),
    {
        match &mut self.modal {
            Some(Modal::Show { scroll, .. }) => {
                if *scroll > 0 {
                    *scroll = *scroll - 1;
                }
            },
            Some(Modal::Output { scroll, .. }) => {
                if *scroll > 0 {
                    *scroll = *scroll - 1;
                }
            },
            Some(Modal::List { cursor, .. }) => {
                if *cursor > 0 {
                    *cursor = *cursor - 1;
                }
            },
            _ => {},
        }
    }
}

/// `n + 1`, staying at the largest `u16`.
pub open spec fn sat_add_u16(n: u16) -> u16 {
    if n < u16::MAX {
        (n + 1) as u16
    } else {
        n
    }
}

/// The summary of a copy of `n` files.
pub open spec fn copied_summary(n: nat) -> Seq<char> {
    if n == 1 {
        "1 archivo copiado"@
    } else {
        decimal(n) + " archivos copiados"@
    }
}

/// What saving the metadata form does.
pub open spec fn confirm_add_post(pre: App, post: App, eff: Effect) -> bool {
    match pre.modal {
        Some(Modal::Add { fields, .. }) => {
            let key = trimmed(fields@[0]@);
            if key.len() == 0 {
                post == pre && eff is Idle
            } else {
                post == (App { modal: None, ..pre }) && (eff matches Effect::AddEntry { key: k, desc, tags }
                    && k@ == key && desc@ == trimmed(fields@[1]@) && views(tags@) == parse_tags(fields@[2]@))
            }
        },
        _ => post == pre && eff is Idle,
    }
}

/// The tags typed in the metadata form.
pub fn parse_tags_field(field: &str) -> (r: Vec<String>)
    ensures
        views(r@) == parse_tags(field@),
{
    let pieces = split_str(field, ',');
    let ghost ps = views(pieces@);
    let ghost trimmed_all = ps.map_values(|t: Seq<char>| trimmed(t));
    let ghost f = |t: Seq<char>| t.len() > 0;
    let mut r: Vec<String> = Vec::new();
    let n = pieces.len();
    for i in 0..n
        invariant
            n == pieces.len(),
            ps == views(pieces@),
            trimmed_all == ps.map_values(|t: Seq<char>| trimmed(t)),
            f == (|t: Seq<char>| t.len() > 0),
            views(r@) == trimmed_all.take(i as int).filter(f),
    {
        let t = trim(pieces[i].as_str());
        let ghost before = views(r@);
        proof {
            assert(trimmed_all.take(i + 1).drop_last() =~= trimmed_all.take(i as int));
            assert(trimmed_all.take(i + 1).last() == t@);
            reveal_with_fuel(Seq::filter, 1);
        }
        if t.as_str().unicode_len() > 0 {
            r.push(t);
            assert(views(r@) =~= before.push(trimmed_all[i as int]));
        }
    }
    assert(trimmed_all.take(n as int) =~= trimmed_all);
    r
}

/// `dest` with a leading `~/` standing for `home`.
fn expanded_dest(dest: &str, home: &Option<String>) -> (r: String)
    ensures
        r@ == expand_home(
            dest@,
            opt_view(*home),
        ),
{
    if str_starts_with(dest, "~/") {
        proof {
            reveal_strlit("~/");
        }
        let v = chars_of(dest);
        let rest = string_of_range(&v, 2, v.len());
        let h = match home {
            Some(h) => h.clone(),
            None => String::new(),
        };
        let r = join_slash(h.as_str(), rest.as_str());
        assert(rest@ =~= dest@.skip(2));
        r
    } else {
        String::from_str(dest)
    }
}

/// The directory to list and the prefix to complete for the destination `dest`.
pub fn completion_for(dest: &str, home: Option<String>) -> (r: (String, String))
    ensures
        (r.0@, r.1@) == completion_query(
            dest@,
            opt_view(home),
        ),
{
    let expanded = expanded_dest(dest, &home);
    let v = chars_of(expanded.as_str());
    if v.len() > 0 && v[v.len() - 1] == '/' {
        return (expanded, String::new());
    }
    completion_from_parts(path_parent(expanded.as_str()), path_file_name(expanded.as_str()))
}

/// The directory to list and the prefix to complete, from the parent and
/// the last component of the destination typed.
pub fn completion_from_parts(parent: Option<String>, name: Option<String>) -> (r: (String, String))
    ensures
        (r.0@, r.1@) == completion_parts(opt_view(parent), opt_view(name)),
{
    let dir = match parent {
        Some(d) => if d.as_str().unicode_len() == 0 {
            String::from_str(".")
        } else {
            d
        },
        None => String::from_str("."),
    };
    let pfx = match name {
        Some(n) => n,
        None => String::new(),
    };
    (dir, pfx)
}

/// The listing items that complete a prefix, given the prefix lower-cased
/// (`lp`) and each item's name lower-cased (`ln`): the visible items whose
/// lower-cased name starts with `lp`, in order.
pub open spec fn lowered_matches(listing: Seq<(String, bool)>, lp: Seq<char>, ln: Seq<Seq<char>>) -> Seq<
    (String, bool),
>
    decreases listing.len(),
{
    if listing.len() == 0 {
        seq![]
    } else {
        let rest = lowered_matches(listing.drop_last(), lp, ln.drop_last());
        let e = listing.last();
        if !is_hidden(e.0@) && lp.is_prefix_of(ln.last()) {
            rest.push(e)
        } else {
            rest
        }
    }
}

/// With the prefix and the names lower-cased as std does, the items
/// selected by the lower-cased values are the completion matches.
pub proof fn lemma_lowered_matches(listing: Seq<(String, bool)>, prefix: Seq<char>, ln: Seq<Seq<char>>)
    requires
        ln.len() == listing.len(),
        forall|i: int| 0 <= i < listing.len() ==> #[trigger] ln[i] == lowercase(listing[i].0@),
    ensures
        lowered_matches(listing, lowercase(prefix), ln) == completion_matches(listing, prefix),
    decreases listing.len(),
{
    reveal_with_fuel(Seq::filter, 1);
    if listing.len() > 0 {
        let l2 = listing.drop_last();
        let n2 = ln.drop_last();
        assert forall|i: int| 0 <= i < l2.len() implies #[trigger] n2[i] == lowercase(l2[i].0@) by {
            assert(ln[i] == lowercase(listing[i].0@));
        }
        lemma_lowered_matches(l2, prefix, n2);
        assert(ln.last() == lowercase(listing.last().0@));
    }
}

/// The listing items that complete a prefix, given the prefix lower-cased
/// and each item's name lower-cased.
pub fn completion_candidates(listing: &Vec<(String, bool)>, lowered_prefix: &str, lowered_names: &Vec<String>) -> (r:
    Vec<(String, bool)>)
    requires
        lowered_names@.len() == listing@.len(),
    ensures
        r@ == lowered_matches(listing@, lowered_prefix@, views(lowered_names@)),
{
    let lpv = chars_of(lowered_prefix);
    let mut matches: Vec<(String, bool)> = Vec::new();
    let ghost ln = views(lowered_names@);
    let n = listing.len();
    for i in 0..n
        invariant
            n == listing@.len(),
            lowered_names@.len() == n,
            ln == views(lowered_names@),
            lpv@ == lowered_prefix@,
            matches@ == lowered_matches(listing@.take(i as int), lowered_prefix@, ln.take(i as int)),
    {
        let e = (listing[i].0.clone(), listing[i].1);
        let hidden = crate::text::starts_with_char(e.0.as_str(), '.');
        let lnv = chars_of(lowered_names[i].as_str());
        let ok = !hidden && has_prefix(&lnv, &lpv);
        proof {
            assert(e == listing@[i as int]);
            assert(listing@.take(i + 1).drop_last() =~= listing@.take(i as int));
            assert(ln.take(i + 1).drop_last() =~= ln.take(i as int));
            assert(ln.take(i + 1).last() == lowered_names@[i as int]@);
        }
        if ok {
            matches.push(e);
        }
    }
    assert(listing@.take(n as int) =~= listing@);
    assert(ln.take(n as int) =~= ln);
    matches
}

/// The completion of a destination among the matching items `matches` of
/// the folder `dir`: none without a match; the single match, with `/` for a
/// folder; or the longest common prefix of the matches; shown with `~` for
/// the home directory `home` when it lies inside it.
pub fn complete_from_matches(dir: &str, matches: &Vec<(String, bool)>, home: Option<String>) -> (r: Option<String>)
    ensures
        matches@.len() == 0 <==> r is None,
        r matches Some(d) ==> exists|completed: Seq<char>|
            is_completion(completed, dir@, matches@) && d@ == abbreviate_home(completed, opt_view(home)),
{
    if matches.len() == 0 {
        return None;
    }
    let base = trim_end_char(dir, '/');
    let ghost mut lcp: Seq<char> = seq![];
    let completed = if matches.len() == 1 {
        let mut c = join_slash(base.as_str(), matches[0].0.as_str());
        if matches[0].1 {
            push_char(&mut c, '/');
        }
        assert(c@ =~= strip_trailing(dir@, '/') + seq!['/'] + matches@[0].0@ + (if matches@[0].1 {
            seq!['/']
        } else {
            seq![]
        }));
        c
    } else {
        let mut names: Vec<String> = Vec::new();
        let m = matches.len();
        for k in 0..m
            invariant
                m == matches.len(),
                views(names@) == matches@.take(k as int).map_values(|e: (String, bool)| e.0@),
        {
            let ghost before = views(names@);
            names.push(matches[k].0.clone());
            assert(views(names@) =~= before.push(matches@[k as int].0@));
            assert(matches@.take(k + 1) =~= matches@.take(k as int).push(matches@[k as int]));
            assert(views(names@) =~= matches@.take(k + 1).map_values(|e: (String, bool)| e.0@));
        }
        assert(matches@.take(m as int) =~= matches@);
        let p = common_prefix(&names);
        let c = join_slash(base.as_str(), p.as_str());
        assert(c@ =~= strip_trailing(dir@, '/') + seq!['/'] + p@);
        proof {
            lcp = p@;
        }
        c
    };
    assert(is_completion(completed@, dir@, matches@));
    let ghost cv = completed@;
    let hv = match &home {
        Some(h) => chars_of(h.as_str()),
        None => Vec::new(),
    };
    let mut hs = hv.clone();
    hs.push('/');
    assert(hs@ =~= hv@.push('/'));
    let cvv = chars_of(completed.as_str());
    let r = if hv.len() > 0 && has_prefix(&cvv, &hs) {
        let mut s = String::new();
        push_char(&mut s, '~');
        let rest = string_of_range(&cvv, hv.len(), cvv.len());
        s.append(rest.as_str());
        assert(s@ =~= seq!['~'] + cv.skip(hv@.len() as int));
        s
    } else {
        completed
    };
    assert(r@ == abbreviate_home(cv, opt_view(home)));
    Some(r)
}

/// Completes the destination being typed: `prefix` is completed among the
/// items of the folder `dir` (its listing), comparing without case.
pub fn complete_destination(dir: &str, prefix: &str, listing: &Vec<(String, bool)>, home: Option<String>) -> (r:
    Option<String>)
    ensures
        completion_matches(listing@, prefix@).len() == 0 <==> r is None,
        r matches Some(d) ==> exists|completed: Seq<char>| is_completion(
            completed,
            dir@,
            completion_matches(listing@, prefix@),
        ) && d@ == abbreviate_home(
            completed,
            opt_view(home),
        ),
{
    let lp = to_lowercase(prefix);
    let mut lowered: Vec<String> = Vec::new();
    let n = listing.len();
    for i in 0..n
        invariant
            n == listing@.len(),
            lowered@.len() == i,
            forall|j: int| 0 <= j < i ==> #[trigger] lowered@[j]@ == lowercase(listing@[j].0@),
    {
        lowered.push(to_lowercase(listing[i].0.as_str()));
    }
    let matches = completion_candidates(listing, lp.as_str(), &lowered);
    proof {
        let ln = views(lowered@);
        assert forall|i: int| 0 <= i < listing@.len() implies #[trigger] ln[i] == lowercase(listing@[i].0@) by {
            assert(ln[i] == lowered@[i]@);
        }
        lemma_lowered_matches(listing@, prefix@, ln);
    }
    complete_from_matches(dir, &matches, home)
}

/// Where a copy to the typed destination `dest` goes.
pub fn destination_for(dest: &str, home: Option<String>, launch_dir: &str) -> (r: String)
    ensures
        r@ == use_destination(
            dest@,
            opt_view(home),
            launch_dir@,
        ),
{
    let d = trim(dest);
    let expanded = expanded_dest(d.as_str(), &home);
    let v = chars_of(expanded.as_str());
    if v.len() > 0 && v[0] == '/' {
        return expanded;
    }
    let mut i: usize = 0;
    assert(v@.skip(0) =~= v@);
    while i < v.len() && i + 1 < v.len() && v[i] == '.' && v[i + 1] == '/'
        invariant
            i <= v.len(),
            strip_dot_slash(v@.skip(i as int)) == strip_dot_slash(v@),
        decreases v.len() - i,
    {
        assert(v@.skip(i as int).skip(2) =~= v@.skip(i + 2));
        i = i + 2;
    }
    let rest = string_of_range(&v, i, v.len());
    assert(rest@ =~= v@.skip(i as int));
    join_slash(launch_dir, rest.as_str())
}

/// Closing the open dialog.
pub open spec fn close_modal_post(pre: App, post: App) -> bool {
    &&& post == (App { modal: None, ..pre })
}

/// Typing a character in the focused field of the metadata form.
pub open spec fn modal_add_push_post(pre: App, post: App, c: char) -> bool {
    &&& match pre.modal {
            Some(Modal::Add { fields: f0, focused: k }) => post == (App {
                modal: post.modal,
                ..pre
            }) && (post.modal matches Some(Modal::Add { fields: f1, focused: k1 }) && k1 == k
                && f1@[k as int]@ == f0@[k as int]@.push(c) && forall|j: int|
                0 <= j < 3 && j != k ==> f1@[j] == f0@[j]),
            _ => post == pre,
        }
}

/// Backspace in the focused field of the metadata form.
pub open spec fn modal_add_pop_post(pre: App, post: App) -> bool {
    &&& match pre.modal {
            Some(Modal::Add { fields: f0, focused: k }) => post == (App {
                modal: post.modal,
                ..pre
            }) && (post.modal matches Some(Modal::Add { fields: f1, focused: k1 }) && k1 == k
                && f1@[k as int]@ == (if f0@[k as int]@.len() > 0 {
                f0@[k as int]@.drop_last()
            } else {
                f0@[k as int]@
            }) && forall|j: int| 0 <= j < 3 && j != k ==> f1@[j] == f0@[j]),
            _ => post == pre,
        }
}

/// Tab and Shift+Tab among the three fields of the metadata form, stopping
/// at the first and the last.
pub open spec fn modal_add_tab_post(pre: App, post: App, forward: bool) -> bool {
    &&& match pre.modal {
            Some(Modal::Add { fields, focused }) => post == (App {
                modal: Some(
                    Modal::Add {
                        fields,
                        focused: if forward && focused < 2 {
                            (focused + 1) as usize
                        } else if !forward && focused > 0 {
                            (focused - 1) as usize
                        } else {
                            focused
                        },
                    },
                ),
                ..pre
            }),
            _ => post == pre,
        }
}

/// Enter in the metadata form: the next field, or saving from the last.
pub open spec fn modal_add_enter_post(pre: App, post: App, eff: Effect) -> bool {
    &&& match pre.modal {
            Some(Modal::Add { fields, focused }) => if focused < 2 {
                post == (App {
                    modal: Some(Modal::Add { fields, focused: (focused + 1) as usize }),
                    ..pre
                }) && eff is Idle
            } else {
                confirm_add_post(pre, post, eff)
            },
            _ => post == pre && eff is Idle,
        }
}

/// Confirming the removal of a key from the index.
pub open spec fn modal_confirm_remove_post(pre: App, post: App, eff: Effect) -> bool {
    &&& match pre.modal {
            Some(Modal::Remove { key }) => post == (App { modal: None, ..pre })
                && eff == Effect::RemoveEntry(key),
            _ => post == pre && eff is Idle,
        }
}

/// Typing a character of the copy destination.
pub open spec fn modal_use_push_post(pre: App, post: App, c: char) -> bool {
    &&& match pre.modal {
            Some(Modal::Use { key, dest, is_dir }) => post == (App {
                modal: post.modal,
                ..pre
            }) && (post.modal matches Some(Modal::Use { key: k, dest: d, is_dir: i }) && k == key
                && i == is_dir && d@ == dest@.push(c)),
            _ => post == pre,
        }
}

/// Backspace in the copy destination.
pub open spec fn modal_use_pop_post(pre: App, post: App) -> bool {
    &&& match pre.modal {
            Some(Modal::Use { key, dest, is_dir }) => post == (App {
                modal: post.modal,
                ..pre
            }) && (post.modal matches Some(Modal::Use { key: k, dest: d, is_dir: i }) && k == key
                && i == is_dir && d@ == (if dest@.len() > 0 {
                dest@.drop_last()
            } else {
                dest@
            })),
            _ => post == pre,
        }
}

/// Tab in the copy dialog: a request to list the folder of the destination
/// typed so far, to complete the name being typed (with `~/` standing for the
/// home directory).
pub open spec fn modal_use_tab_complete_post(pre: App, post: App, eff: Effect) -> bool {
    &&& post == pre
    &&& match pre.modal {
        Some(Modal::Use { dest, .. }) => eff matches Effect::ListForCompletion { dir, prefix } && exists|
            home: Option<Seq<char>>,
        | (dir@, prefix@) == completion_query(dest@, home),
        _ => eff is Idle,
    }
}

/// Enter in the copy dialog: the copy of the library entry to the
/// destination, taken from the launch directory unless absolute and with `~/`
/// standing for the home directory.
pub open spec fn modal_confirm_use_post(pre: App, post: App, eff: Effect) -> bool {
    &&& post == pre
    &&& match pre.modal {
            Some(Modal::Use { key, dest, .. }) => eff matches Effect::Copy { key: k, src, dst } && k@
                == key@ && src@ == pre.lib_path@ + seq!['/'] + key@ && exists|home: Option<Seq<char>>|
                dst@ == use_destination(dest@, home, pre.launch_dir@),
            _ => eff is Idle,
        }
}

/// Down in a dialog: scrolls the metadata and output views, moves the
/// cursor of the entry list.
pub open spec fn modal_scroll_down_post(pre: App, post: App) -> bool {
    &&& match pre.modal {
            Some(Modal::Show { lines, scroll }) => post == (App {
                modal: Some(Modal::Show { lines, scroll: sat_add_u16(scroll) }),
                ..pre
            }),
            Some(Modal::Output { title, lines, scroll }) => post == (App {
                modal: Some(Modal::Output { title, lines, scroll: sat_add_u16(scroll) }),
                ..pre
            }),
            Some(Modal::List { entries, cursor }) => post == (App {
                modal: Some(
                    Modal::List {
                        entries,
                        cursor: if cursor + 1 < entries@.len() {
                            (cursor + 1) as usize
                        } else {
                            cursor
                        },
                    },
                ),
                ..pre
            }),
            _ => post == pre,
        }
}

/// Up in a dialog: scrolls the metadata and output views back, moves the
/// cursor of the entry list.
pub open spec fn modal_scroll_up_post(pre: App, post: App) -> bool {
    &&& match pre.modal {
            Some(Modal::Show { lines, scroll }) => post == (App {
                modal: Some(Modal::Show { lines, scroll: crate::app::sat_pred(scroll as int) as u16 }),
                ..pre
            }),
            Some(Modal::Output { title, lines, scroll }) => post == (App {
                modal: Some(
                    Modal::Output { title, lines, scroll: crate::app::sat_pred(scroll as int) as u16 },
                ),
                ..pre
            }),
            Some(Modal::List { entries, cursor }) => post == (App {
                modal: Some(Modal::List { entries, cursor: crate::app::sat_pred(cursor as int) as usize }),
                ..pre
            }),
            _ => post == pre,
        }
}

} // verus!
