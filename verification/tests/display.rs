use basalto_tui::app::Rect;
use basalto_tui::command::{
    complete_destination, complete_from_matches, completion_candidates, completion_for, completion_from_parts,
    default_destination_for, destination_for, parse_tags_field,
};
use basalto_tui::git::{GitLineStyle, get_branch, git_line_style};
use basalto_tui::icons::{Color, icon_for};
use basalto_tui::paths::{file_name_extension, path_extension, plugin_file_name, plugin_name_of_file_name};
use basalto_tui::preview::dir_preview;
use basalto_tui::view::{EditorStep, editor_step};
use basalto_tui::view::{
    NameStyle, OutputStyle, RowMark, centered, clamp_scroll, command_words, cursor_split, description_cell,
    description_width, edit_icon, editor_candidates, is_pending, list_dialog_scroll, list_scroll, name_cell,
    output_style, pad_left, pad_right, pending_label, plugin_display_name, plugin_path, plugin_path_width,
    position_label, preview_body, preview_commit_suffix, row_number, row_style, tags_cell, tags_label,
    terminal_editor_setting, title_path,
};

fn s(x: &str) -> String {
    x.to_string()
}

fn strings(xs: &[&str]) -> Vec<String> {
    xs.iter().map(|x| x.to_string()).collect()
}

// ─── icons and paths ─────────────────────────────────────────────────────────

#[test]
fn icons_by_kind_and_extension() {
    assert_eq!(icon_for("src", true), ("\u{f07b} ", Color::Yellow));
    assert_eq!(icon_for("..", true), ("\u{f07b} ", Color::DarkGray));
    assert_eq!(icon_for("main.rs", false), ("\u{e7a8} ", Color::Red));
    assert_eq!(icon_for("MAIN.RS", false), ("\u{e7a8} ", Color::Red));
    assert_eq!(icon_for("foto.JPeG", false), ("\u{f1c5} ", Color::Magenta));
    assert_eq!(icon_for("a.tar.gz", false), ("\u{f1c6} ", Color::Yellow));
    assert_eq!(icon_for("Makefile", false), ("\u{f15b} ", Color::Gray));
    assert_eq!(icon_for(".bashrc", false), ("\u{f15b} ", Color::Gray));
    assert_eq!(icon_for("x.unknown", false), ("\u{f15b} ", Color::Gray));
    assert_eq!(icon_for("run.sh", false), ("\u{e795} ", Color::Green));
    assert_eq!(icon_for("Dockerfile", false), ("\u{f15b} ", Color::Gray));
    assert_eq!(icon_for("x.dockerfile", false), ("\u{e650} ", Color::Cyan));
}

#[test]
fn path_parts() {
    assert_eq!(path_extension("a.tar.gz"), Some(s("gz")));
    assert_eq!(path_extension(".bashrc"), None);
    assert_eq!(path_extension("dir/.x.toml"), Some(s("toml")));
    assert_eq!(path_extension("noext"), None);
    assert_eq!(path_extension("trail."), Some(s("")));
    assert_eq!(plugin_file_name("/h/.basalto/plugins/basalto-sync.toml"), Some(s("basalto-sync")));
    assert_eq!(plugin_file_name("/h/plugins/a.b.toml"), Some(s("a.b")));
    assert_eq!(plugin_file_name("/h/plugins/notes.txt"), None);
    assert_eq!(plugin_file_name("/h/plugins/.toml"), None);
    assert_eq!(plugin_file_name("/h/plugins/x.TOML"), None);
    assert_eq!(completion_for("/home/u/pro", None), (s("/home/u"), s("pro")));
    assert_eq!(completion_for("pro", None), (s("."), s("pro")));
    assert_eq!(completion_for("/", None), (s("/"), s("")));
}

// ─── geometry ────────────────────────────────────────────────────────────────

#[test]
fn centered_popups() {
    let area = Rect { x: 0, y: 0, width: 100, height: 40 };
    assert_eq!(centered(area, 62, 3), Rect { x: 19, y: 18, width: 62, height: 3 });
    let small = Rect { x: 0, y: 0, width: 30, height: 5 };
    assert_eq!(centered(small, 62, 9), Rect { x: 2, y: 1, width: 26, height: 3 });
    let tiny = Rect { x: 0, y: 0, width: 2, height: 1 };
    assert_eq!(centered(tiny, 10, 10), Rect { x: 1, y: 0, width: 0, height: 0 });
}

#[test]
fn scrolling() {
    assert_eq!(list_scroll(3, 10), 0);
    assert_eq!(list_scroll(10, 10), 1);
    assert_eq!(list_scroll(25, 10), 16);
    assert_eq!(list_dialog_scroll(0, 18), 0);
    assert_eq!(list_dialog_scroll(16, 18), 1);
    assert_eq!(list_dialog_scroll(3, 2), 3);
    assert_eq!(clamp_scroll(50, 39, 34), 5);
    assert_eq!(clamp_scroll(2, 39, 34), 2);
    assert_eq!(clamp_scroll(2, 10, 34), 0);
}

// ─── cells and labels ────────────────────────────────────────────────────────

#[test]
fn padding() {
    assert_eq!(pad_right("ab", 4), "ab  ");
    assert_eq!(pad_right("abcde", 4), "abcde");
    assert_eq!(pad_left("7", 3), "  7");
    assert_eq!(row_number(0), "  1 ");
    assert_eq!(row_number(1233), "1234 ");
}

#[test]
fn file_list_cells() {
    assert_eq!(description_width(100), 48);
    assert_eq!(description_width(40), 0);
    assert_eq!(name_cell("a.rs"), format!("{:<22}  ", "a.rs"));
    assert_eq!(name_cell("un_nombre_muy_largo_de_archivo.txt"), "un_nombre_muy_largo_d…  ");
    assert_eq!(description_cell("hola", 6), "hola    ");
    assert_eq!(description_cell("hola", 0), "  ");
    let tags = strings(&["web", "html"]);
    assert_eq!(tags_label(&tags), "#web #html");
    assert_eq!(tags_label(&Vec::new()), "");
    assert_eq!(tags_cell(&tags, 6), "#web …");
}

#[test]
fn row_styles() {
    assert_eq!(row_style(true, true, false, false), (RowMark::Deleted, NameStyle::Deleted));
    assert_eq!(row_style(false, true, true, true), (RowMark::Selected, NameStyle::Parent));
    assert_eq!(row_style(false, false, false, true), (RowMark::Plain, NameStyle::Folder { selected: false }));
    assert_eq!(row_style(false, true, false, false), (RowMark::Selected, NameStyle::SelectedFile));
    assert_eq!(row_style(false, false, false, false), (RowMark::Plain, NameStyle::File));
    let pending = strings(&["a.rs"]);
    assert!(is_pending(&pending, "a.rs"));
    assert!(!is_pending(&pending, "b.rs"));
}

#[test]
fn insert_line_pieces() {
    assert_eq!(cursor_split("hola", 1), (s("h"), s("o"), s("la")));
    assert_eq!(cursor_split("hola", 4), (s("hola"), s(" "), s("")));
    assert_eq!(cursor_split("hola", 9), (s("hola"), s(" "), s("")));
    assert_eq!(edit_icon("", false, true), (" ", Color::Green));
    assert_eq!(edit_icon("nuevo/", false, false), ("\u{f07b} ", Color::Yellow));
    assert_eq!(edit_icon("a.rs", false, true), ("\u{e7a8} ", Color::Green));
}

#[test]
fn status_labels() {
    assert_eq!(position_label(0, 0), "biblioteca · 0/0");
    assert_eq!(position_label(4, 12), "biblioteca · 5/12");
    assert_eq!(pending_label(1), "   ✗ 1 pendiente  ^s confirmar  esc cancelar");
    assert_eq!(pending_label(3), "   ✗ 3 pendientes  ^s confirmar  esc cancelar");
    assert_eq!(title_path(""), "~/biblioteca");
    assert_eq!(title_path("web/css"), "~/biblioteca/web/css");
}

#[test]
fn output_highlight() {
    assert_eq!(output_style("✓ push exitoso"), OutputStyle::Success);
    assert_eq!(output_style("✗ push falló"), OutputStyle::Failure);
    assert_eq!(output_style("error: x"), OutputStyle::Failure);
    assert_eq!(output_style(" error"), OutputStyle::Plain);
}

#[test]
fn plugin_labels() {
    assert_eq!(plugin_display_name("basalto-sync"), "sync");
    assert_eq!(plugin_display_name("otro"), "otro");
    assert_eq!(plugin_path(Some(s("/usr/bin/basalto-sync\n")), None, "basalto-sync"), "/usr/bin/basalto-sync");
    assert_eq!(plugin_path(None, Some(s("/home/u")), "basalto-ai"), "/home/u/.cargo/bin/basalto-ai");
    assert_eq!(plugin_path(None, None, "basalto-ai"), "");
    assert_eq!(plugin_path_width(80), 38);
    assert_eq!(plugin_path_width(10), 0);
}

#[test]
fn preview_pieces() {
    let body = preview_body(&strings(&["uno", "dos", "tres"]), 2, 10);
    assert_eq!(body, strings(&[" uno", " dos"]));
    let body = preview_body(&strings(&["abcdef"]), 5, 4);
    assert_eq!(body, strings(&[" abc…"]));
    assert_eq!(preview_body(&Vec::new(), 5, 4), strings(&["  (archivo vacío)"]));
    assert_eq!(preview_commit_suffix(""), "");
    assert_eq!(preview_commit_suffix("abc"), "  abc");
    let lines = dir_preview(vec![(s("z.md"), false), (s("A"), true), (s(".git"), true)]);
    assert_eq!(lines, strings(&["\u{f07b} A", "\u{e609} z.md"]));
}

// ─── git tab ─────────────────────────────────────────────────────────────────

#[test]
fn branch_of_the_library() {
    let report = strings(&["── git log ──", "  * abc (HEAD -> dev, origin/dev) x", "  * def (HEAD -> old) y"]);
    assert_eq!(get_branch(Some(s("feature\n")), &report), "feature");
    assert_eq!(get_branch(Some(s("  ")), &report), "dev");
    assert_eq!(get_branch(None, &report), "dev");
    assert_eq!(get_branch(None, &strings(&["* abc (HEAD -> topic)"])), "topic");
    assert_eq!(get_branch(None, &strings(&["* abc x"])), "main");
    assert_eq!(get_branch(None, &Vec::new()), "main");
}

#[test]
fn git_line_highlight() {
    assert_eq!(git_line_style("── git status ──"), GitLineStyle::Heading);
    assert_eq!(git_line_style("   M a.rs"), GitLineStyle::Modified);
    assert_eq!(git_line_style("  modified: x"), GitLineStyle::Modified);
    assert_eq!(git_line_style("  ?? b.md"), GitLineStyle::Untracked);
    assert_eq!(git_line_style("  A  c.md"), GitLineStyle::Added);
    assert_eq!(git_line_style("  * abc"), GitLineStyle::Plain);
}

// ─── editor and shell commands ───────────────────────────────────────────────

#[test]
fn editor_settings() {
    assert!(terminal_editor_setting("nvim"));
    assert!(terminal_editor_setting("/usr/bin/vim "));
    assert!(!terminal_editor_setting("code"));
    assert!(!terminal_editor_setting("/usr/local/bin/subl"));
    assert!(!terminal_editor_setting(""));
    assert!(!terminal_editor_setting("/usr/bin/"));
    assert_eq!(editor_candidates(), strings(&["nvim", "vim", "nano", "vi"]));
}

#[test]
fn shell_words() {
    assert_eq!(command_words("basalto  sync --all "), strings(&["basalto", "sync", "--all"]));
    assert_eq!(command_words("   "), Vec::<String>::new());
    assert_eq!(command_words("a\tb\nc"), strings(&["a", "b", "c"]));
}

// ─── metadata form and copy destinations ─────────────────────────────────────

#[test]
fn tags_field() {
    assert_eq!(parse_tags_field(" web , ,css,"), strings(&["web", "css"]));
    assert_eq!(parse_tags_field(""), Vec::<String>::new());
}

#[test]
fn destinations() {
    assert_eq!(destination_for("~/x", Some(s("/home/u")), "/p"), "/home/u/x");
    assert_eq!(destination_for(" ./a/b ", Some(s("/home/u")), "/p"), "/p/a/b");
    assert_eq!(destination_for("/abs", None, "/p"), "/abs");
    assert_eq!(completion_for("~/pro", Some(s("/home/u"))), (s("/home/u"), s("pro")));
    assert_eq!(completion_for("src/", None), (s("src/"), s("")));
    assert_eq!(completion_for("x", None), (s("."), s("x")));
}

#[test]
fn completing_destinations() {
    let listing = vec![(s("proyecto"), true), (s("prueba.txt"), false), (s(".pr"), false)];
    assert_eq!(
        complete_destination("/home/u", "pro", &listing, Some(s("/home/u"))),
        Some(s("~/proyecto/"))
    );
    assert_eq!(complete_destination("/home/u/", "pr", &listing, None), Some(s("/home/u/pr")));
    assert_eq!(complete_destination("/x", "PRUE", &listing, None), Some(s("/x/prueba.txt")));
    assert_eq!(complete_destination("/x", "q", &listing, None), None);
}

#[test]
fn editor_choice_steps() {
    assert!(matches!(editor_step("nvim", 0, false), EditorStep::Use(e) if e == "nvim"));
    assert!(matches!(editor_step("code", 0, false), EditorStep::Ask(c) if c == "nvim"));
    assert!(matches!(editor_step("code", 1, false), EditorStep::Ask(c) if c == "vim"));
    assert!(matches!(editor_step("code", 3, true), EditorStep::Use(e) if e == "nano"));
    assert!(matches!(editor_step("code", 4, false), EditorStep::Use(e) if e == "code"));
    assert!(matches!(editor_step("", 4, true), EditorStep::Use(e) if e == "vi"));
}

#[test]
fn home_abbreviation_needs_a_separator() {
    let listing = vec![(s("x"), false)];
    assert_eq!(complete_destination("/home/user2", "x", &listing, Some(s("/home/u"))), Some(s("/home/user2/x")));
    assert_eq!(complete_destination("/home/u", "x", &listing, Some(s("/home/u"))), Some(s("~/x")));
}

#[test]
fn file_name_parts() {
    assert_eq!(file_name_extension("a.tar.gz"), Some(s("gz")));
    assert_eq!(file_name_extension(".bashrc"), None);
    assert_eq!(plugin_name_of_file_name("basalto-ai.toml"), Some(s("basalto-ai")));
    assert_eq!(plugin_name_of_file_name("x.md"), None);
}

#[test]
fn completion_pieces() {
    let listing = vec![(s("Proyecto"), true), (s("otro"), false), (s(".pro"), false)];
    let lowered = strings(&["proyecto", "otro", ".pro"]);
    let m = completion_candidates(&listing, "pro", &lowered);
    assert_eq!(m, vec![(s("Proyecto"), true)]);
    assert_eq!(complete_from_matches("/x/", &m, None), Some(s("/x/Proyecto/")));
    assert_eq!(complete_from_matches("/x", &Vec::new(), None), None);
    assert_eq!(completion_from_parts(Some(s("")), Some(s("a"))), (s("."), s("a")));
    assert_eq!(completion_from_parts(None, None), (s("."), s("")));
    assert_eq!(default_destination_for("web/css", Some(s("/h")), Some(s("css"))), "/h/css");
    assert_eq!(default_destination_for("web", None, None), "~/web");
}
