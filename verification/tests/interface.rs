use basalto_tui::app::{App, Effect, FsOp, Modal, Mode, Rect, SidebarRow};
use basalto_tui::index::{EntryMeta, PluginInfo};
use basalto_tui::keys::{KeyCode, KeyPress, MouseAction};
use basalto_tui::sidebar::SidebarLine;
use basalto_tui::view::file_list_rows;

fn s(x: &str) -> String {
    x.to_string()
}

fn meta(is_dir: bool, desc: &str) -> EntryMeta {
    let mut m = EntryMeta::blank();
    m.is_dir = is_dir;
    m.description = desc.to_string();
    m
}

fn sample_app() -> App {
    let entries = vec![
        (s("web"), meta(true, "")),
        (s("a.rs"), meta(false, "codigo")),
        (s("b.md"), meta(false, "")),
    ];
    let plugins = vec![PluginInfo { name: s("basalto-sync"), enabled: true }];
    let tags = vec![(s("web"), 2), (s("rust"), 1)];
    App::new(s("main"), s("/lib"), tags, plugins, entries, s("/home/u/proyecto"))
}

fn key(c: char) -> KeyPress {
    KeyPress { code: KeyCode::Char(c), ctrl: false }
}

fn ctrl(c: char) -> KeyPress {
    KeyPress { code: KeyCode::Char(c), ctrl: true }
}

fn code(k: KeyCode) -> KeyPress {
    KeyPress { code: k, ctrl: false }
}

fn type_text(app: &mut App, text: &str) {
    for c in text.chars() {
        app.handle_key(key(c));
    }
}

fn command_text(app: &App) -> Option<String> {
    match &app.mode {
        Mode::Command(t) => Some(t.clone()),
        _ => None,
    }
}

// ─── library tab ─────────────────────────────────────────────────────────────

#[test]
fn new_app_starts_at_root() {
    let app = sample_app();
    assert_eq!(app.selected, 0);
    assert_eq!(app.tab, 0);
    assert!(matches!(app.mode, Mode::Normal));
    assert!(app.modal.is_none());
    assert_eq!(app.sidebar_collapsed, [false, false, false]);
}

#[test]
fn moving_down_and_up() {
    let mut app = sample_app();
    assert!(matches!(app.handle_key(key('j')), Effect::Preview));
    assert_eq!(app.selected, 1);
    app.handle_key(code(KeyCode::Down));
    assert_eq!(app.selected, 2);
    assert!(matches!(app.handle_key(key('j')), Effect::Idle));
    assert_eq!(app.selected, 2);
    assert!(matches!(app.handle_key(key('k')), Effect::Preview));
    assert_eq!(app.selected, 1);
}

#[test]
fn entering_a_folder_and_leaving_it() {
    let mut app = sample_app();
    app.selected = 0;
    assert!(matches!(app.handle_key(code(KeyCode::Enter)), Effect::Reload));
    assert_eq!(app.current_path, "web");
    assert_eq!(app.selected, 0);
    assert_eq!(app.path_stack.len(), 1);
    app.reload(vec![(s(".."), meta(true, "")), (s("index.html"), meta(false, ""))]);
    app.selected = 1;
    assert_eq!(app.selected_key(), "web/index.html");
    assert!(matches!(app.handle_key(key('-')), Effect::Reload));
    assert_eq!(app.current_path, "");
    assert_eq!(app.selected, 0);
    assert!(app.path_stack.is_empty());
    assert!(matches!(app.handle_key(code(KeyCode::Backspace)), Effect::Idle));
}

#[test]
fn enter_on_a_file_opens_it() {
    let mut app = sample_app();
    app.selected = 1;
    assert!(matches!(app.handle_key(code(KeyCode::Enter)), Effect::Idle));
    assert_eq!(app.pending_open.as_deref(), Some("/lib/a.rs"));
}

#[test]
fn dd_marks_and_unmarks() {
    let mut app = sample_app();
    app.selected = 1;
    app.handle_key(key('d'));
    assert!(app.d_pressed);
    assert!(app.pending_deletions.is_empty());
    app.handle_key(key('d'));
    assert!(!app.d_pressed);
    assert_eq!(app.pending_deletions, vec![s("a.rs")]);
    app.handle_key(key('d'));
    app.handle_key(key('d'));
    assert!(app.pending_deletions.is_empty());
}

#[test]
fn d_then_other_key_forgets_d() {
    let mut app = sample_app();
    app.handle_key(key('d'));
    app.handle_key(key('j'));
    assert!(!app.d_pressed);
    app.handle_key(key('d'));
    assert!(app.pending_deletions.is_empty());
}

#[test]
fn ctrl_s_deletes_the_marked() {
    let mut app = sample_app();
    app.selected = 2;
    app.handle_key(key('d'));
    app.handle_key(key('d'));
    match app.handle_key(ctrl('s')) {
        Effect::Delete { dir, names } => {
            assert_eq!(dir, "/lib");
            assert_eq!(names, vec![s("b.md")]);
        },
        _ => panic!("expected a deletion"),
    }
    assert!(app.pending_deletions.is_empty());
    assert!(matches!(app.handle_key(ctrl('s')), Effect::Idle));
}

#[test]
fn escape_cancels_deletions() {
    let mut app = sample_app();
    app.handle_key(key('d'));
    app.handle_key(key('d'));
    app.handle_key(code(KeyCode::Esc));
    assert!(app.pending_deletions.is_empty());
}

#[test]
fn tabs_cycle_and_load_git() {
    let mut app = sample_app();
    assert!(matches!(app.handle_key(key('l')), Effect::GitInfo));
    assert_eq!(app.tab, 1);
    assert!(matches!(app.handle_key(key('r')), Effect::GitInfo));
    assert!(matches!(app.handle_key(key('l')), Effect::Idle));
    assert_eq!(app.tab, 2);
    app.handle_key(key('l'));
    assert_eq!(app.tab, 0);
    app.handle_key(code(KeyCode::Left));
    assert_eq!(app.tab, 2);
    app.handle_key(key('h'));
    assert_eq!(app.tab, 1);
}

#[test]
fn help_scrolls_and_closes() {
    let mut app = sample_app();
    app.handle_key(key('?'));
    assert!(app.show_help);
    app.handle_key(key('j'));
    app.handle_key(key('j'));
    app.handle_key(key('k'));
    assert_eq!(app.help_scroll, 1);
    assert_eq!(app.selected, 0);
    app.handle_key(key('x'));
    assert!(!app.show_help);
    assert_eq!(app.help_scroll, 0);
}

#[test]
fn quit_key() {
    let mut app = sample_app();
    app.handle_key(key('q'));
    assert!(app.should_quit);
}

#[test]
fn u_offers_to_copy_selected() {
    let mut app = sample_app();
    match app.handle_key(key('u')) {
        Effect::OfferUse(k) => assert_eq!(k, "web"),
        _ => panic!("expected an offer"),
    }
    app.open_use_modal_at("web", true, Some(s("/home/u")));
    match &app.modal {
        Some(Modal::Use { key, dest, is_dir }) => {
            assert_eq!(key, "web");
            assert_eq!(dest, "/home/u/web");
            assert!(*is_dir);
        },
        _ => panic!("expected the copy dialog"),
    }
    app.handle_key(code(KeyCode::Backspace));
    type_text(&mut app, "2");
    match app.handle_key(code(KeyCode::Enter)) {
        Effect::Copy { key, src, dst } => {
            assert_eq!(key, "web");
            assert_eq!(src, "/lib/web");
            assert_eq!(dst, "/home/u/we2");
        },
        _ => panic!("expected a copy"),
    }
    app.finish_use("web", "/home/u/we2", Ok(3));
    match &app.modal {
        Some(Modal::Output { title, lines, scroll }) => {
            assert_eq!(title, "✓ copiado");
            assert_eq!(lines, &vec![s("desde:  web"), s("hacia:  /home/u/we2"), s("3 archivos copiados")]);
            assert_eq!(*scroll, 0);
        },
        _ => panic!("expected the report"),
    }
    app.handle_key(key('j'));
    app.handle_key(key('q'));
    assert!(app.modal.is_none());
}

#[test]
fn copy_to_a_relative_destination() {
    let mut app = sample_app();
    app.open_use_modal_at("a.rs", false, None);
    match &app.modal {
        Some(Modal::Use { dest, .. }) => assert_eq!(dest, "~/a.rs"),
        _ => panic!("expected the copy dialog"),
    }
    app.modal = Some(Modal::Use { key: s("a.rs"), dest: s("./src/"), is_dir: false });
    match app.handle_key(code(KeyCode::Enter)) {
        Effect::Copy { dst, .. } => assert_eq!(dst, "/home/u/proyecto/src/"),
        _ => panic!("expected a copy"),
    }
}

#[test]
fn finish_use_reports_error() {
    let mut app = sample_app();
    app.finish_use("a.rs", "/x", Err(s("permiso denegado")));
    match &app.modal {
        Some(Modal::Output { title, lines, .. }) => {
            assert_eq!(title, "✗ error al copiar");
            assert_eq!(lines, &vec![s("permiso denegado")]);
        },
        _ => panic!("expected the report"),
    }
    app.finish_use("a.rs", "/x", Ok(1));
    match &app.modal {
        Some(Modal::Output { lines, .. }) => assert_eq!(lines[2], "1 archivo copiado"),
        _ => panic!("expected the report"),
    }
}

#[test]
fn tab_completion_of_destination() {
    let mut app = sample_app();
    app.modal = Some(Modal::Use { key: s("a.rs"), dest: s("/home/u/pro"), is_dir: false });
    match app.handle_key(code(KeyCode::Tab)) {
        Effect::ListForCompletion { dir, prefix } => {
            assert_eq!(dir, "/home/u");
            assert_eq!(prefix, "pro");
            let listing = vec![(s("proyecto"), true), (s("otro"), true), (s(".profile"), false)];
            app.apply_tab_complete(&dir, &prefix, listing);
        },
        _ => panic!("expected a listing request"),
    }
    match &app.modal {
        Some(Modal::Use { dest, .. }) => assert!(dest == "/home/u/proyecto/" || dest == "~/proyecto/"),
        _ => panic!("expected the copy dialog"),
    }
}

// ─── insert mode ─────────────────────────────────────────────────────────────

#[test]
fn insert_mode_edits_and_saves() {
    let mut app = sample_app();
    app.selected = 1;
    app.handle_key(key('i'));
    match &app.mode {
        Mode::Insert(buf) => {
            assert_eq!(buf.items.len(), 3);
            assert_eq!(buf.cursor, 1);
            assert_eq!(buf.col, 4);
        },
        _ => panic!("expected insert mode"),
    }
    type_text(&mut app, "x");
    app.handle_key(code(KeyCode::Backspace));
    app.handle_key(code(KeyCode::Left));
    app.handle_key(code(KeyCode::Left));
    app.handle_key(code(KeyCode::Left));
    type_text(&mut app, "b");
    app.handle_key(code(KeyCode::Enter));
    type_text(&mut app, "nuevo/");
    match &app.mode {
        Mode::Insert(buf) => {
            assert_eq!(buf.items[1].current, "ab.rs");
            assert_eq!(buf.items[2].current, "nuevo/");
            assert!(buf.items[2].original.is_none());
            assert_eq!(buf.cursor, 2);
        },
        _ => panic!("expected insert mode"),
    }
    match app.handle_key(ctrl('s')) {
        Effect::ApplyEdits(ops) => {
            assert_eq!(ops.len(), 2);
            assert!(matches!(&ops[0], FsOp::Rename { from, to } if from == "/lib/a.rs" && to == "/lib/ab.rs"));
            assert!(matches!(&ops[1], FsOp::CreateDir { path } if path == "/lib/nuevo/"));
        },
        _ => panic!("expected edits"),
    }
    assert!(matches!(app.mode, Mode::Normal));
    match &app.modal {
        Some(Modal::Add { fields, focused }) => {
            assert_eq!(fields[0], "nuevo");
            assert_eq!(*focused, 1);
        },
        _ => panic!("expected the metadata form"),
    }
}

#[test]
fn insert_escape_discards() {
    let mut app = sample_app();
    app.handle_key(key('i'));
    type_text(&mut app, "zz");
    app.handle_key(code(KeyCode::Esc));
    assert!(matches!(app.mode, Mode::Normal));
    assert_eq!(app.entries[0].0, "web");
}

#[test]
fn insert_backspace_drops_an_empty_new_line() {
    let mut app = sample_app();
    app.handle_key(key('i'));
    app.handle_key(code(KeyCode::Enter));
    match &app.mode {
        Mode::Insert(buf) => assert_eq!(buf.items.len(), 4),
        _ => panic!("expected insert mode"),
    }
    app.handle_key(code(KeyCode::Backspace));
    match &app.mode {
        Mode::Insert(buf) => {
            assert_eq!(buf.items.len(), 3);
            assert_eq!(buf.cursor, 0);
            assert_eq!(buf.col, 3);
        },
        _ => panic!("expected insert mode"),
    }
}

#[test]
fn insert_new_file_is_created() {
    let mut app = sample_app();
    app.selected = 2;
    app.handle_key(key('i'));
    app.handle_key(code(KeyCode::Enter));
    type_text(&mut app, "c.txt");
    match app.handle_key(ctrl('s')) {
        Effect::ApplyEdits(ops) => {
            assert_eq!(ops.len(), 1);
            assert!(matches!(&ops[0], FsOp::CreateFile { path } if path == "/lib/c.txt"));
        },
        _ => panic!("expected edits"),
    }
}

// ─── command mode ────────────────────────────────────────────────────────────

#[test]
fn command_typing_and_list() {
    let mut app = sample_app();
    app.handle_key(key(':'));
    type_text(&mut app, "lisx");
    app.handle_key(code(KeyCode::Backspace));
    type_text(&mut app, "t");
    assert_eq!(command_text(&app), Some(s("list")));
    assert!(matches!(app.handle_key(code(KeyCode::Enter)), Effect::ListEntries));
    assert!(matches!(app.mode, Mode::Normal));
}

#[test]
fn command_escape() {
    let mut app = sample_app();
    app.handle_key(key(':'));
    type_text(&mut app, "push");
    app.handle_key(code(KeyCode::Esc));
    assert!(matches!(app.mode, Mode::Normal));
}

#[test]
fn command_verbs() {
    let mut app = sample_app();
    app.handle_key(key(':'));
    type_text(&mut app, "PUSH");
    assert!(matches!(app.handle_key(code(KeyCode::Enter)), Effect::Push));

    app.handle_key(key(':'));
    type_text(&mut app, "sync --all");
    match app.handle_key(code(KeyCode::Enter)) {
        Effect::Shell(cmd) => assert_eq!(cmd, "basalto sync --all"),
        _ => panic!("expected a shell command"),
    }

    app.selected = 1;
    app.handle_key(key(':'));
    type_text(&mut app, "show");
    match app.handle_key(code(KeyCode::Enter)) {
        Effect::ShowEntry(k) => assert_eq!(k, "a.rs"),
        _ => panic!("expected show"),
    }

    app.handle_key(key(':'));
    type_text(&mut app, "  ");
    assert!(matches!(app.handle_key(code(KeyCode::Enter)), Effect::Idle));

    app.handle_key(key(':'));
    type_text(&mut app, "help");
    app.handle_key(code(KeyCode::Enter));
    assert!(app.show_help);
}

#[test]
fn add_form_saves_an_entry() {
    let mut app = sample_app();
    app.handle_key(key(':'));
    type_text(&mut app, "add notas/x.md");
    app.handle_key(code(KeyCode::Enter));
    match &app.modal {
        Some(Modal::Add { fields, focused }) => {
            assert_eq!(fields[0], "notas/x.md");
            assert_eq!(*focused, 0);
        },
        _ => panic!("expected the form"),
    }
    app.handle_key(code(KeyCode::Tab));
    type_text(&mut app, " una nota ");
    app.handle_key(code(KeyCode::Enter));
    type_text(&mut app, "a, ,b ,");
    app.handle_key(code(KeyCode::BackTab));
    app.handle_key(code(KeyCode::Tab));
    match app.handle_key(code(KeyCode::Enter)) {
        Effect::AddEntry { key, desc, tags } => {
            assert_eq!(key, "notas/x.md");
            assert_eq!(desc, "una nota");
            assert_eq!(tags, vec![s("a"), s("b")]);
        },
        _ => panic!("expected an entry"),
    }
    assert!(app.modal.is_none());
}

#[test]
fn remove_dialog() {
    let mut app = sample_app();
    app.selected = 2;
    app.handle_key(key(':'));
    type_text(&mut app, "rm");
    app.handle_key(code(KeyCode::Enter));
    assert!(matches!(&app.modal, Some(Modal::Remove { key }) if key == "b.md"));
    app.handle_key(key('n'));
    assert!(app.modal.is_none());
    app.handle_key(key(':'));
    type_text(&mut app, "remove a.rs");
    app.handle_key(code(KeyCode::Enter));
    match app.handle_key(key('y')) {
        Effect::RemoveEntry(k) => assert_eq!(k, "a.rs"),
        _ => panic!("expected a removal"),
    }
}

#[test]
fn show_dialog_lines() {
    let mut app = sample_app();
    let all = vec![(s("a.rs"), meta(false, "codigo"))];
    app.open_show_modal("a.rs", &all);
    match &app.modal {
        Some(Modal::Show { lines, scroll }) => {
            assert_eq!(lines[0], (s("Archivo"), s("a.rs")));
            assert_eq!(lines[1], (s("Descripción"), s("codigo")));
            assert_eq!(lines[3], (s("Usos"), s("0")));
            assert_eq!(*scroll, 0);
        },
        _ => panic!("expected the metadata view"),
    }
    app.handle_key(key('j'));
    assert!(matches!(&app.modal, Some(Modal::Show { scroll: 1, .. })));
    app.handle_key(code(KeyCode::Esc));
    assert!(app.modal.is_none());
}

#[test]
fn list_dialog_cursor() {
    let mut app = sample_app();
    app.open_list_modal(vec![(s("a"), meta(false, "")), (s("b"), meta(false, ""))]);
    app.handle_key(key('j'));
    app.handle_key(key('j'));
    assert!(matches!(&app.modal, Some(Modal::List { cursor: 1, .. })));
    app.handle_key(key('k'));
    app.handle_key(key('k'));
    assert!(matches!(&app.modal, Some(Modal::List { cursor: 0, .. })));
}

#[test]
fn push_dialog() {
    let mut app = sample_app();
    app.open_push_modal(vec![s("✓ push exitoso")]);
    assert!(matches!(&app.modal, Some(Modal::Output { title, .. }) if title == "git push"));
}

// ─── mouse ───────────────────────────────────────────────────────────────────

#[test]
fn click_and_wheel() {
    let mut app = sample_app();
    assert!(matches!(app.handle_mouse(MouseAction::Click { column: 5, row: 5 }), Effect::Idle));
    app.list_area = Rect { x: 2, y: 4, width: 40, height: 10 };
    assert!(matches!(app.handle_mouse(MouseAction::Click { column: 5, row: 6 }), Effect::Preview));
    assert_eq!(app.selected, 2);
    app.handle_mouse(MouseAction::Click { column: 5, row: 9 });
    assert_eq!(app.selected, 2);
    app.handle_mouse(MouseAction::ScrollUp);
    assert_eq!(app.selected, 1);
    app.handle_key(key('i'));
    app.handle_mouse(MouseAction::ScrollUp);
    assert_eq!(app.selected, 1);
}

// ─── sidebar ─────────────────────────────────────────────────────────────────

#[test]
fn sidebar_rows_and_lines() {
    let mut app = sample_app();
    let rows = app.sidebar_items();
    assert_eq!(
        rows,
        vec![
            SidebarRow::Header(0),
            SidebarRow::Plugin,
            SidebarRow::Header(1),
            SidebarRow::Tag,
            SidebarRow::Tag,
            SidebarRow::Header(2),
            SidebarRow::GitBranch,
        ]
    );
    assert_eq!(app.sidebar_para_lines(), vec![0, 1, 3, 4, 5, 7, 8]);
    app.handle_key(ctrl('j'));
    assert!(app.sidebar_focused);
    let lines = app.sidebar_lines();
    assert_eq!(lines.len(), 9);
    assert!(matches!(lines[0], SidebarLine::Header { section: 0, collapsed: false, selected: true }));
    assert!(matches!(lines[2], SidebarLine::Blank));
    assert!(matches!(lines[5], SidebarLine::Tag { index: 1, selected: false }));
    assert!(matches!(lines[8], SidebarLine::Branch { selected: false }));
}

#[test]
fn sidebar_navigation_and_collapse() {
    let mut app = sample_app();
    app.sidebar_height = 3;
    app.handle_key(ctrl('l'));
    app.handle_key(key('j'));
    app.handle_key(key('j'));
    assert_eq!(app.sidebar_cursor, 2);
    assert_eq!(app.sidebar_scroll, 1);
    app.handle_key(code(KeyCode::Enter));
    assert_eq!(app.sidebar_collapsed, [false, true, false]);
    assert_eq!(app.sidebar_items().len(), 5);
    for _ in 0..10 {
        app.handle_key(key('j'));
    }
    assert_eq!(app.sidebar_cursor, 4);
    app.handle_key(key('k'));
    app.handle_key(key('k'));
    app.handle_key(key('k'));
    app.handle_key(key('k'));
    assert_eq!(app.sidebar_cursor, 0);
    app.handle_key(code(KeyCode::Enter));
    assert_eq!(app.sidebar_collapsed, [true, true, false]);
    let lines = app.sidebar_lines();
    assert_eq!(lines.len(), 6);
    assert!(matches!(lines[1], SidebarLine::Blank));
    app.handle_key(ctrl('k'));
    assert!(!app.sidebar_focused);
}

#[test]
fn sidebar_empty_sections() {
    let app = App::new(s("main"), s("/lib"), Vec::new(), Vec::new(), Vec::new(), s("/"));
    assert_eq!(app.sidebar_para_lines(), vec![0, 3, 6, 7]);
    let lines = app.sidebar_lines();
    assert!(matches!(lines[1], SidebarLine::Empty { section: 0 }));
    assert!(matches!(lines[4], SidebarLine::Empty { section: 1 }));
}

#[test]
fn sidebar_scroll_clamp() {
    let mut app = sample_app();
    app.sidebar_scroll = 7;
    app.clamp_sidebar_scroll(9, 5);
    assert_eq!(app.sidebar_scroll, 4);
    app.clamp_sidebar_scroll(3, 5);
    assert_eq!(app.sidebar_scroll, 0);
}

// ─── reloading and previews ──────────────────────────────────────────────────

#[test]
fn reload_keeps_selection_in_range() {
    let mut app = sample_app();
    app.selected = 2;
    app.handle_key(key('d'));
    app.handle_key(key('d'));
    assert!(matches!(app.reload(vec![(s("x"), meta(false, ""))]), Effect::Preview));
    assert_eq!(app.selected, 0);
    assert!(app.pending_deletions.is_empty());
    app.reload_all(Vec::new(), vec![(s("t"), 1)]);
    assert_eq!(app.selected, 0);
    assert_eq!(app.tags.len(), 1);
}

#[test]
fn preview_targets() {
    let mut app = sample_app();
    app.selected = 1;
    let t = app.load_preview().unwrap();
    assert_eq!(t.full, "/lib/a.rs");
    assert_eq!(t.rel, "a.rs");
    assert!(!t.is_dir);
    app.show_file_preview(Some(s("uno\ndos\n")), Some(s("abc123 · hace 2 días\n")));
    assert_eq!(app.preview_lines, vec![s("uno"), s("dos")]);
    assert_eq!(app.preview_git_info, "abc123 · hace 2 días");
    app.show_dir_preview(Some(vec![(s("b.txt"), false), (s(".x"), false), (s("a"), true)]));
    assert_eq!(app.preview_lines, vec![s("\u{f07b} a"), s("\u{f15c} b.txt")]);
    assert_eq!(app.preview_git_info, "");

    app.reload(vec![(s(".."), meta(true, "")), (s("f"), meta(false, ""))]);
    app.selected = 0;
    assert!(app.load_preview().is_none());
    assert_eq!(app.preview_lines, vec![s("← volver a: /biblioteca")]);

    app.reload(Vec::new());
    assert!(app.load_preview().is_none());
    assert!(app.preview_lines.is_empty());
}

#[test]
fn git_tab_report() {
    let mut app = sample_app();
    app.load_git_info(Ok(s(" M a.rs\n?? b.md\n")), Ok(s("* abc (HEAD -> dev, origin/dev) x\n")));
    assert_eq!(
        app.git_lines,
        vec![
            s("── git status ──────────────────────────────────"),
            s("   M a.rs"),
            s("  ?? b.md"),
            s(""),
            s("── git log ─────────────────────────────────────"),
            s("  * abc (HEAD -> dev, origin/dev) x"),
        ]
    );
    app.handle_key(key('l'));
    app.handle_key(key('j'));
    assert_eq!(app.git_scroll, 1);
    app.load_git_info(Ok(s("")), Err(s("no git")));
    assert_eq!(app.git_lines[1], "  sin cambios pendientes");
    assert_eq!(app.git_lines[4], "  error: no git");
    assert_eq!(app.git_scroll, 0);
    app.load_git_info(Err(s("x")), Ok(s("  \n")));
    assert_eq!(app.git_lines[1], "  error: x");
    assert_eq!(app.git_lines[4], "  sin commits todavía");
}

#[test]
fn sidebar_toggle_twice_restores() {
    let mut app = sample_app();
    app.handle_key(ctrl('j'));
    app.handle_key(key('j'));
    app.handle_key(key('j'));
    assert_eq!(app.sidebar_items()[app.sidebar_cursor], SidebarRow::Header(1));
    app.handle_key(code(KeyCode::Enter));
    app.handle_key(code(KeyCode::Enter));
    assert_eq!(app.sidebar_collapsed, [false, false, false]);
    assert_eq!(app.sidebar_cursor, 2);
}

#[test]
fn down_then_up_returns() {
    let mut app = sample_app();
    let before = app.selected;
    app.nav_down();
    app.nav_up();
    assert_eq!(app.selected, before);
}

#[test]
fn next_then_prev_tab_returns() {
    let mut app = sample_app();
    app.next_tab();
    app.prev_tab();
    assert_eq!(app.tab, 0);
    for _ in 0..3 {
        app.next_tab();
    }
    assert_eq!(app.tab, 0);
}

#[test]
fn sidebar_lines_without_rows_are_separators_or_placeholders() {
    let mut app = App::new(s("main"), s("/lib"), vec![(s("t"), 1)], Vec::new(), Vec::new(), s("/"));
    for collapsed in [[false, false, false], [true, false, true], [false, true, false]] {
        app.sidebar_collapsed = collapsed;
        let para = app.sidebar_para_lines();
        let lines = app.sidebar_lines();
        assert_eq!(para[0], 0);
        assert!(para.windows(2).all(|w| w[0] < w[1]));
        for (j, l) in lines.iter().enumerate() {
            let has_row = para.contains(&j);
            assert_eq!(has_row, !matches!(l, SidebarLine::Blank | SidebarLine::Empty { .. }));
        }
    }
}

#[test]
fn click_selects_the_drawn_row() {
    let entries: Vec<(String, EntryMeta)> = (0..10).map(|i| (format!("f{}", i), meta(false, ""))).collect();
    let mut app = App::new(s("main"), s("/lib"), Vec::new(), Vec::new(), entries, s("/"));
    app.selected = 7;
    app.list_area = Rect { x: 3, y: 2, width: 30, height: 4 };
    let rows = file_list_rows(&app, 4, 30);
    assert_eq!(rows.iter().map(|r| r.index).collect::<Vec<_>>(), vec![4, 5, 6, 7]);
    assert!(rows[3].selected);
    assert!(matches!(app.handle_click(3, 3), Effect::Preview));
    assert_eq!(app.selected, 5);
}

#[test]
fn enter_in_an_empty_folder_adds_a_line() {
    let mut app = App::new(s("main"), s("/lib"), Vec::new(), Vec::new(), Vec::new(), s("/"));
    app.handle_key(key('i'));
    app.handle_key(code(KeyCode::Enter));
    match &app.mode {
        Mode::Insert(buf) => {
            assert_eq!(buf.items.len(), 1);
            assert!(buf.items[0].original.is_none());
            assert_eq!(buf.cursor, 0);
            assert_eq!(buf.col, 0);
        },
        _ => panic!("expected insert mode"),
    }
    type_text(&mut app, "x.md");
    match app.handle_key(ctrl('s')) {
        Effect::ApplyEdits(ops) => assert!(matches!(&ops[0], FsOp::CreateFile { path } if path == "/lib/x.md")),
        _ => panic!("expected edits"),
    }
}

#[test]
fn backspace_at_start_of_named_new_line_keeps_it() {
    let mut app = sample_app();
    app.handle_key(key('i'));
    app.handle_key(code(KeyCode::Enter));
    type_text(&mut app, "ab");
    app.handle_key(code(KeyCode::Left));
    app.handle_key(code(KeyCode::Left));
    app.handle_key(code(KeyCode::Backspace));
    match &app.mode {
        Mode::Insert(buf) => {
            assert_eq!(buf.items.len(), 4);
            assert_eq!(buf.items[1].current, "ab");
            assert_eq!(buf.cursor, 1);
            assert_eq!(buf.col, 0);
        },
        _ => panic!("expected insert mode"),
    }
}

#[test]
fn laying_out_the_list_keeps_its_area() {
    let entries: Vec<(String, EntryMeta)> = (0..6).map(|i| (format!("f{}", i), meta(false, ""))).collect();
    let mut app = App::new(s("main"), s("/lib"), Vec::new(), Vec::new(), entries, s("/"));
    app.selected = 5;
    let area = Rect { x: 1, y: 1, width: 20, height: 3 };
    let rows = app.lay_out_file_list(area);
    assert_eq!(app.list_area, area);
    assert_eq!(rows.iter().map(|r| r.index).collect::<Vec<_>>(), vec![3, 4, 5]);
    app.handle_click(1, 2);
    assert_eq!(app.selected, 4);
}
