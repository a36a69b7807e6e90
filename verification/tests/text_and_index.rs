use basalto_tui::date::date_from_unix_secs;
use basalto_tui::index::{
    Config, EntryMeta, LibrariesConfig, LibraryIndex, PluginInfo, active_library, add_entry,
    default_true, increment_usos, index_path, lib_path, load_all_entries, load_all_tags, load_dir,
    load_plugins, plugin_list, push_error_lines, push_output_lines, remove_entry, run_push,
    tui_configured,
};
use basalto_tui::text::{
    common_prefix, find_chars, join, lines, split_once_char, to_decimal, trim, trim_left,
    truncate,
};

fn s(x: &str) -> String {
    x.to_string()
}

fn strings(xs: &[&str]) -> Vec<String> {
    xs.iter().map(|x| x.to_string()).collect()
}

// ─── text ────────────────────────────────────────────────────────────────────

#[test]
fn truncate_cuts_with_ellipsis() {
    assert_eq!(truncate("hello", 3), "he…");
    assert_eq!(truncate("hello", 5), "hello");
    assert_eq!(truncate("hello", 0), "");
    assert_eq!(truncate("añoñoño", 4), "año…");
}

#[test]
fn truncate_fits_in_max() {
    for max in 0..8 {
        assert!(truncate("biblioteca", max).chars().count() <= max);
    }
}

#[test]
fn common_prefix_of_names() {
    assert_eq!(common_prefix(&strings(&["config.toml", "config.yaml"])), "config.");
    assert_eq!(common_prefix(&strings(&["abc"])), "abc");
    assert_eq!(common_prefix(&strings(&["abc", "xyz"])), "");
    assert_eq!(common_prefix(&Vec::new()), "");
}

#[test]
fn lines_like_std() {
    assert_eq!(lines("a\r\nb\n"), strings(&["a", "b"]));
    assert_eq!(lines(""), Vec::<String>::new());
    assert_eq!(lines("x\n\ny"), strings(&["x", "", "y"]));
    assert_eq!(lines("a\r"), strings(&["a\r"]));
}

#[test]
fn trimming() {
    assert_eq!(trim("  x y \t"), "x y");
    assert_eq!(trim_left("  x "), "x ");
    assert_eq!(trim("   "), "");
}

#[test]
fn split_once_and_join() {
    assert_eq!(split_once_char("add foo bar", ' '), (s("add"), Some(s("foo bar"))));
    assert_eq!(split_once_char("list", ' '), (s("list"), None));
    assert_eq!(join(&strings(&["a", "b", "c"]), ", "), "a, b, c");
}

#[test]
fn decimal_numerals() {
    assert_eq!(to_decimal(0), "0");
    assert_eq!(to_decimal(120), "120");
    assert_eq!(to_decimal(18446744073709551615), "18446744073709551615");
}

#[test]
fn find_first_occurrence() {
    let v: Vec<char> = "a HEAD -> main, HEAD -> x".chars().collect();
    let n: Vec<char> = "HEAD ->".chars().collect();
    assert_eq!(find_chars(&v, &n), Some(2));
    let m: Vec<char> = "zzz".chars().collect();
    assert_eq!(find_chars(&v, &m), None);
}

// ─── dates ───────────────────────────────────────────────────────────────────

#[test]
fn dates_from_unix_time() {
    assert_eq!(date_from_unix_secs(0), "1970-01-01");
    assert_eq!(date_from_unix_secs(86399), "1970-01-01");
    assert_eq!(date_from_unix_secs(951782400), "2000-02-29");
    assert_eq!(date_from_unix_secs(1704067200), "2024-01-01");
    assert_eq!(date_from_unix_secs(1735603200), "2024-12-31");
}

// ─── configuration and plugins ───────────────────────────────────────────────

#[test]
fn active_library_defaults_to_main() {
    assert_eq!(active_library(&Config::empty()), "main");
    let c = Config { libraries: LibrariesConfig { active: s("trabajo") } };
    assert_eq!(active_library(&c), "trabajo");
}

#[test]
fn library_paths() {
    assert_eq!(lib_path("/home/u", "main"), "/home/u/.basalto/cache/libraries/main");
    assert_eq!(index_path("/home/u", "main"), "/home/u/.basalto/main.index.toml");
}

#[test]
fn plugins_sorted_then_tui() {
    let found = vec![
        PluginInfo { name: s("basalto-sync"), enabled: true },
        PluginInfo { name: s("basalto-ai"), enabled: false },
    ];
    let list = plugin_list(found, true);
    let names: Vec<&str> = list.iter().map(|p| p.name.as_str()).collect();
    assert_eq!(names, vec!["basalto-ai", "basalto-sync", "basalto-tui"]);
    assert!(list[2].enabled);
    assert!(default_true());
}

#[test]
fn tui_configuration() {
    assert!(!tui_configured(&Config::empty(), None));
    assert!(tui_configured(&Config::empty(), Some(s("x = 1\n[tui]\n"))));
    assert!(!tui_configured(&Config::empty(), Some(s("[libraries]\n"))));
    let c = Config { libraries: LibrariesConfig { active: s("main") } };
    assert!(tui_configured(&c, None));
}

#[test]
fn load_plugins_needs_config_and_install() {
    let list = load_plugins(Vec::new(), &Config::empty(), Some(s("[tui]")), false);
    assert_eq!(list.len(), 1);
    assert!(!list[0].enabled);
    let list = load_plugins(Vec::new(), &Config::empty(), Some(s("[tui]")), true);
    assert!(list[0].enabled);
}

// ─── the index ───────────────────────────────────────────────────────────────

fn sample_index() -> LibraryIndex {
    let mut idx = LibraryIndex::new();
    add_entry(&mut idx, "web/index.html", "plantilla web", strings(&["web", "html"]));
    add_entry(&mut idx, "notas.md", "notas", strings(&["web"]));
    add_entry(&mut idx, "a.rs", "", Vec::new());
    idx
}

#[test]
fn add_entry_then_get() {
    let idx = sample_index();
    let m = idx.get("notas.md").unwrap();
    assert_eq!(m.description, "notas");
    assert_eq!(m.tags, strings(&["web"]));
    assert_eq!(m.usos, 0);
    assert!(!m.is_dir);
    assert_eq!(m.agregado.len(), 10);
    assert_eq!(&m.agregado[4..5], "-");
    assert!(idx.get("nada").is_none());
}

#[test]
fn add_entry_replaces() {
    let mut idx = sample_index();
    add_entry(&mut idx, "notas.md", "otra", Vec::new());
    assert_eq!(idx.get("notas.md").unwrap().description, "otra");
    assert_eq!(load_all_entries(&idx).len(), 3);
}

#[test]
fn increment_counts_a_use() {
    let mut idx = sample_index();
    increment_usos(&mut idx, "a.rs");
    increment_usos(&mut idx, "a.rs");
    increment_usos(&mut idx, "missing");
    assert_eq!(idx.get("a.rs").unwrap().usos, 2);
    assert_eq!(idx.get("notas.md").unwrap().usos, 0);
}

#[test]
fn remove_entry_removes_only_key() {
    let mut idx = sample_index();
    remove_entry(&mut idx, "notas.md");
    assert!(idx.get("notas.md").is_none());
    assert!(idx.get("a.rs").is_some());
    remove_entry(&mut idx, "notas.md");
    assert_eq!(load_all_entries(&idx).len(), 2);
}

#[test]
fn add_then_remove_leaves_the_rest() {
    let mut idx = sample_index();
    add_entry(&mut idx, "nuevo.txt", "x", Vec::new());
    remove_entry(&mut idx, "nuevo.txt");
    let keys: Vec<String> = load_all_entries(&idx).into_iter().map(|e| e.0).collect();
    assert_eq!(keys, strings(&["a.rs", "notas.md", "web/index.html"]));
}

#[test]
fn entries_in_order_of_key() {
    let idx = sample_index();
    let all = load_all_entries(&idx);
    let keys: Vec<&str> = all.iter().map(|e| e.0.as_str()).collect();
    assert_eq!(keys, vec!["a.rs", "notas.md", "web/index.html"]);
    assert_eq!(all[2].1.description, "plantilla web");
}

#[test]
fn tags_by_count_then_name() {
    let idx = sample_index();
    let tags = load_all_tags(&idx);
    assert_eq!(tags, vec![(s("web"), 2), (s("html"), 1)]);
    assert!(load_all_tags(&LibraryIndex::new()).is_empty());
}

#[test]
fn listing_of_root_and_subfolder() {
    let idx = sample_index();
    let listing = vec![
        (s("notas.md"), false),
        (s(".git"), true),
        (s("web"), true),
        (s("a.rs"), false),
    ];
    let root = load_dir("", Some(listing), &idx);
    let names: Vec<&str> = root.iter().map(|e| e.0.as_str()).collect();
    assert_eq!(names, vec!["web", "a.rs", "notas.md"]);
    assert!(root[0].1.is_dir);
    assert_eq!(root[2].1.description, "notas");

    let sub = load_dir("web", Some(vec![(s("index.html"), false)]), &idx);
    assert_eq!(sub[0].0, "..");
    assert!(sub[0].1.is_dir);
    assert_eq!(sub[1].0, "index.html");
    assert_eq!(sub[1].1.tags, strings(&["web", "html"]));

    assert!(load_dir("web", None, &idx).is_empty());
}

#[test]
fn push_reports() {
    assert_eq!(push_output_lines("", "  \n", true), strings(&["✓ push exitoso"]));
    assert_eq!(push_output_lines("", "", false), strings(&["✗ push falló"]));
    assert_eq!(
        push_output_lines("a\n\n", "To origin\n b\n", true),
        strings(&["a", "To origin", " b"])
    );
    assert_eq!(push_error_lines("no git"), strings(&["error: no git"]));
    assert_eq!(run_push(Err(s("x"))), strings(&["error: x"]));
    assert_eq!(run_push(Ok((s(""), s(""), true))), strings(&["✓ push exitoso"]));
}

#[test]
fn blank_meta() {
    let m = EntryMeta::blank();
    assert!(m.description.is_empty() && m.tags.is_empty() && m.usos == 0);
}
