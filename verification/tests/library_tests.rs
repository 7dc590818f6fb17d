use cargo_tui::runner::RunnerEvent;
use cargo_tui::workspace::{root_step, RootStep};
use cargo_tui::config::KeysTable;
use cargo_tui::app::Focus;
use cargo_tui::ui::{detail_scroll, installed_highlight, search_hit_selected};
use cargo_tui::config::{modifier_bit, named_key, Config, KeyBind, KeyCode, KeyConfig, KeyEvent, ALT, CONTROL, SHIFT};
use cargo_tui::crates_io::{
    crate_detail, crate_infos, crate_url, dependencies_url, download_scale, search_params, DepItem, DownloadScale,
    MetaCrate, Owner, SearchItem,
};
use cargo_tui::runner::strip_ansi;
use cargo_tui::text::{decimal_string, join, signed_decimal_string};
use cargo_tui::ui::{
    cmd_to_list_idx, command_rows, detail_lines, installed_rows, output_line_style, output_scroll, pad_right,
    search_line, search_scroll, wrap_text, DetailStyle, InstalledRow, LineStyle, ListRow,
};
use cargo_tui::workspace::{
    manifest_deps, metadata_run_targets, workspace_info, Dep, DepKind, JsonValue, Manifest, RunKind, TomlItem,
};
use cargo_tui::app::build_run_cmds;
use std::path::PathBuf;

// ── Key bindings ─────────────────────────────────────────────

#[test]
fn parse_plain_and_named_keys() {
    assert_eq!(KeyBind::parse("q"), Ok(KeyBind::char('q')));
    assert_eq!(KeyBind::parse("K"), Ok(KeyBind::char('K')));
    assert_eq!(KeyBind::parse("enter"), Ok(KeyBind::code(KeyCode::Enter)));
    assert_eq!(KeyBind::parse("ESC"), Ok(KeyBind::code(KeyCode::Esc)));
    assert_eq!(KeyBind::parse("space"), Ok(KeyBind::char(' ')));
    assert_eq!(KeyBind::parse("f5"), Ok(KeyBind::code(KeyCode::F(5))));
    assert_eq!(KeyBind::parse("F12"), Ok(KeyBind::code(KeyCode::F(12))));
}

#[test]
fn parse_modifiers() {
    assert_eq!(KeyBind::parse("ctrl+c"), Ok(KeyBind { code: KeyCode::Char('c'), modifiers: CONTROL }));
    assert_eq!(KeyBind::parse("Ctrl+Alt+x"), Ok(KeyBind { code: KeyCode::Char('x'), modifiers: CONTROL | ALT }));
    assert_eq!(KeyBind::parse("shift+tab"), Ok(KeyBind { code: KeyCode::Tab, modifiers: SHIFT }));
}

#[test]
fn parse_errors() {
    assert_eq!(KeyBind::parse("hyper+c"), Err("unknown modifier: hyper".to_string()));
    assert_eq!(KeyBind::parse("Bogus"), Err("unknown key: bogus".to_string()));
    assert_eq!(KeyBind::parse(""), Err("unknown key: ".to_string()));
    assert_eq!(KeyBind::parse("+"), Err("unknown modifier: ".to_string()));
    // The modifier error comes first.
    assert_eq!(KeyBind::parse("meta+bogus"), Err("unknown modifier: meta".to_string()));
}

#[test]
fn modifier_names_ignore_case() {
    for text in ["alt+x", "ALT+x", "Alt+x"] {
        assert_eq!(KeyBind::parse(text), Ok(KeyBind { code: KeyCode::Char('x'), modifiers: ALT }), "{text}");
    }
    // The character after the modifier keeps its case.
    assert_eq!(KeyBind::parse("SHIFT+X"), Ok(KeyBind { code: KeyCode::Char('X'), modifiers: SHIFT }));
}

#[test]
fn key_names_ignore_case() {
    for text in ["enter", "Enter", "ENTER", "eNtEr"] {
        assert_eq!(KeyBind::parse(text), Ok(KeyBind::code(KeyCode::Enter)), "{text}");
    }
    assert_eq!(KeyBind::parse("BoGuS"), KeyBind::parse("bogus"));
}

#[test]
fn lowered_names() {
    assert_eq!(modifier_bit("ctrl"), Some(CONTROL));
    assert_eq!(modifier_bit("alt"), Some(ALT));
    assert_eq!(modifier_bit("shift"), Some(SHIFT));
    // These take names already lowered.
    assert_eq!(modifier_bit("Ctrl"), None);
    assert_eq!(modifier_bit("control"), None);
    assert_eq!(named_key("backspace"), Some(KeyCode::Backspace));
    assert_eq!(named_key("delete"), Some(KeyCode::Delete));
    assert_eq!(named_key("left"), Some(KeyCode::Left));
    assert_eq!(named_key("f10"), Some(KeyCode::F(10)));
    assert_eq!(named_key("space"), Some(KeyCode::Char(' ')));
    assert_eq!(named_key("Enter"), None);
    assert_eq!(named_key("f13"), None);
}

#[test]
fn matching_ignores_shift_for_chars_only() {
    let k = KeyBind::char('K');
    assert!(k.matches(&KeyEvent { code: KeyCode::Char('K'), modifiers: SHIFT }));
    assert!(!k.matches(&KeyEvent { code: KeyCode::Char('K'), modifiers: CONTROL }));
    assert!(!k.matches(&KeyEvent { code: KeyCode::Char('k'), modifiers: 0 }));
    let enter = KeyBind::code(KeyCode::Enter);
    assert!(enter.matches(&KeyEvent { code: KeyCode::Enter, modifiers: 0 }));
    assert!(!enter.matches(&KeyEvent { code: KeyCode::Enter, modifiers: SHIFT }));
}

#[test]
fn default_keys_are_the_documented_ones() {
    let k = KeyConfig::default();
    let expect = [
        ("q", k.quit), ("1", k.tab_1), ("2", k.tab_2), ("3", k.tab_3), ("]", k.tab_next), ("[", k.tab_prev),
        ("j", k.down), ("k", k.up), ("l", k.focus_right), ("h", k.focus_left), ("enter", k.run), ("r", k.rerun),
        ("K", k.kill), ("s", k.pkg_search), ("d", k.pkg_remove), ("tab", k.pkg_toggle), ("p", k.pkg_profile),
    ];
    for (text, bind) in expect {
        assert_eq!(KeyBind::parse(text), Ok(bind), "{text}");
    }
    assert_eq!(KeyBind::default(), KeyBind::char('\0'));
}

#[test]
fn key_table_overrides_and_rejects() {
    let set = vec![("quit".to_string(), Some("x".to_string())), ("other".to_string(), None)];
    let cfg = KeyConfig::from_entries(&set).unwrap();
    assert_eq!(cfg.quit, KeyBind::char('x'));
    assert_eq!(cfg.down, KeyBind::char('j'));
    assert_eq!(KeyConfig::from_entries(&vec![]), Some(KeyConfig::default()));
    assert_eq!(KeyConfig::from_entries(&vec![("quit".to_string(), None)]), None);
    assert_eq!(KeyConfig::from_entries(&vec![("quit".to_string(), Some("bogus".to_string()))]), None);
    let twice = vec![("up".to_string(), Some("w".to_string())), ("up".to_string(), Some("e".to_string()))];
    assert_eq!(KeyConfig::from_entries(&twice), None);
    let bad = vec![("run".to_string(), Some("nope".to_string()))];
    assert_eq!(Config::from_key_entries(&bad).keys, KeyConfig::default());
}

// ── Text ─────────────────────────────────────────────────────

#[test]
fn decimal_rendering() {
    assert_eq!(decimal_string(0), "0");
    assert_eq!(decimal_string(1234567890), "1234567890");
    assert_eq!(decimal_string(u64::MAX), u64::MAX.to_string());
    assert_eq!(signed_decimal_string(-7), "-7");
    assert_eq!(signed_decimal_string(i32::MIN), i32::MIN.to_string());
    assert_eq!(join(&vec!["a".to_string(), "b".to_string()], " "), "a b");
    assert_eq!(join(&vec![], " "), "");
}

// ── Runner ───────────────────────────────────────────────────

#[test]
fn strip_ansi_removes_control_sequences() {
    assert_eq!(strip_ansi("\x1b[1m\x1b[32mCompiling\x1b[0m foo"), "Compiling foo");
    assert_eq!(strip_ansi("plain text"), "plain text");
    assert_eq!(strip_ansi("a\x1b[12"), "a");
    assert_eq!(strip_ansi("a\x1bb"), "a\x1bb");
    assert_eq!(strip_ansi("\x1b[38;5;9mred"), "red");
}

// ── Workspace ────────────────────────────────────────────────

fn s(x: &str) -> String {
    x.to_string()
}

#[test]
fn manifest_deps_are_grouped_and_sorted() {
    let m = Manifest {
        package_name: Some(s("demo")),
        dependencies: Some(vec![
            (s("tokio"), TomlItem::Table(vec![(s("version"), Some(s("1"))), (s("features"), None)])),
            (s("anyhow"), TomlItem::Str(s("1.0"))),
            (s("local"), TomlItem::Table(vec![(s("path"), Some(s("../local")))])),
            (s("weird"), TomlItem::Other),
        ]),
        dev_dependencies: Some(vec![(s("tempfile"), TomlItem::Str(s("3")))]),
        build_dependencies: Some(vec![(s("cc"), TomlItem::Str(s("1")))]),
    };
    let deps = manifest_deps(&m);
    let got: Vec<(DepKind, &str, &str)> = deps.iter().map(|d| (d.kind, d.name.as_str(), d.version.as_str())).collect();
    assert_eq!(
        got,
        vec![
            (DepKind::Normal, "anyhow", "1.0"),
            (DepKind::Normal, "local", "*"),
            (DepKind::Normal, "tokio", "1"),
            (DepKind::Dev, "tempfile", "3"),
            (DepKind::Build, "cc", "1"),
        ]
    );
    let info = workspace_info(&m, s("dir"), PathBuf::from("/x"), vec![]);
    assert_eq!(info.name, "demo");
    let unnamed = Manifest { package_name: None, dependencies: None, dev_dependencies: None, build_dependencies: None };
    assert_eq!(workspace_info(&unnamed, s("dir"), PathBuf::from("/x"), vec![]).name, "dir");
}

#[test]
fn manifest_deps_strictly_ordered_when_names_unique() {
    let m = Manifest {
        package_name: None,
        dependencies: Some(vec![(s("b"), TomlItem::Str(s("1"))), (s("a"), TomlItem::Str(s("1"))), (s("ab"), TomlItem::Str(s("2")))]),
        dev_dependencies: Some(vec![(s("a"), TomlItem::Str(s("3")))]),
        build_dependencies: Some(vec![(s("z"), TomlItem::Str(s("1"))), (s("a"), TomlItem::Str(s("1")))]),
    };
    let deps = manifest_deps(&m);
    let keys: Vec<(DepKind, &str)> = deps.iter().map(|d| (d.kind, d.name.as_str())).collect();
    assert_eq!(keys, vec![
        (DepKind::Normal, "a"), (DepKind::Normal, "ab"), (DepKind::Normal, "b"),
        (DepKind::Dev, "a"), (DepKind::Build, "a"), (DepKind::Build, "z"),
    ]);
}

#[test]
fn dep_kind_sections_and_flags() {
    assert_eq!(DepKind::Normal.section(), "dependencies");
    assert_eq!(DepKind::Dev.section(), "dev-dependencies");
    assert_eq!(DepKind::Build.section(), "build-dependencies");
    assert_eq!(DepKind::Normal.flag(), None);
    assert_eq!(DepKind::Dev.flag(), Some("--dev"));
    assert_eq!(DepKind::Build.flag(), Some("--build"));
}

fn obj(members: Vec<(&str, JsonValue)>) -> JsonValue {
    JsonValue::Object(members.into_iter().map(|(k, v)| (k.to_string(), v)).collect())
}

fn strs(xs: &[&str]) -> JsonValue {
    JsonValue::Array(xs.iter().map(|x| JsonValue::Str(x.to_string())).collect())
}

#[test]
fn metadata_targets_keep_bins_and_examples() {
    let meta = obj(vec![(
        "packages",
        JsonValue::Array(vec![
            obj(vec![
                ("name", JsonValue::Str(s("app"))),
                (
                    "targets",
                    JsonValue::Array(vec![
                        obj(vec![("kind", strs(&["lib"])), ("name", JsonValue::Str(s("app")))]),
                        obj(vec![("kind", strs(&["bin"])), ("name", JsonValue::Str(s("app")))]),
                        obj(vec![("kind", strs(&["example"])), ("name", JsonValue::Str(s("demo")))]),
                        obj(vec![("kind", strs(&["bin"])), ("name", JsonValue::Number)]),
                    ]),
                ),
            ]),
            obj(vec![("targets", JsonValue::Array(vec![obj(vec![("kind", strs(&["bin"])), ("name", JsonValue::Str(s("x")))])]))]),
            obj(vec![("name", JsonValue::Str(s("no-targets")))]),
        ]),
    )]);
    let ts = metadata_run_targets(&meta);
    let got: Vec<(&str, &str, RunKind)> = ts.iter().map(|t| (t.package.as_str(), t.name.as_str(), t.kind)).collect();
    assert_eq!(got, vec![("app", "app", RunKind::Bin), ("app", "demo", RunKind::Example), ("", "x", RunKind::Bin)]);
    assert!(metadata_run_targets(&JsonValue::Null).is_empty());
}

// ── crates.io ────────────────────────────────────────────────

#[test]
fn search_hits_and_detail() {
    let infos = crate_infos(vec![SearchItem { name: s("a"), newest_version: s("1.2.3"), description: None, downloads: 9 }]);
    assert_eq!(infos[0].version, "1.2.3");
    assert_eq!(infos[0].description, "");
    assert_eq!(infos[0].downloads, 9);
    let d = crate_detail(
        MetaCrate { name: s("a"), description: Some(s("An a.")), repository: None, newest_version: s("2.0.0") },
        vec![Owner { name: Some(s("Ann")), login: s("ann") }, Owner { name: None, login: s("bob") }],
        Some(vec![
            DepItem { crate_id: s("x"), req: s("^1"), kind: s("normal") },
            DepItem { crate_id: s("y"), req: s("^2"), kind: s("dev") },
            DepItem { crate_id: s("z"), req: s("^3"), kind: s("") },
        ]),
        "1.2.3",
    );
    assert_eq!(d.version, "1.2.3");
    assert_eq!(d.authors, vec!["Ann", "bob"]);
    let names: Vec<&str> = d.deps.iter().map(|x| x.name.as_str()).collect();
    assert_eq!(names, vec!["x", "z"]);
    assert_eq!(d.repository, "");
    let none = crate_detail(
        MetaCrate { name: s("a"), description: None, repository: Some(s("r")), newest_version: s("1") },
        vec![],
        None,
        "1",
    );
    assert!(none.deps.is_empty());
    assert_eq!(none.repository, "r");
}

#[test]
fn request_addresses() {
    assert_eq!(crate_url("serde"), "https://crates.io/api/v1/crates/serde");
    assert_eq!(dependencies_url("serde", "1.0.0"), "https://crates.io/api/v1/crates/serde/1.0.0/dependencies");
    let p = search_params("rand", 20);
    assert_eq!(p, vec![(s("q"), s("rand")), (s("per_page"), s("20"))]);
}

#[test]
fn download_scales() {
    assert_eq!(download_scale(999), DownloadScale::Units);
    assert_eq!(download_scale(1_000), DownloadScale::Thousands);
    assert_eq!(download_scale(999_999), DownloadScale::Thousands);
    assert_eq!(download_scale(1_000_000), DownloadScale::Millions);
    assert_eq!(download_scale(1_000_000_000), DownloadScale::Billions);
}

// ── Screen ───────────────────────────────────────────────────

#[test]
fn command_rows_and_list_index_agree() {
    let cmds = build_run_cmds(&[]);
    let rows = command_rows(&cmds);
    assert!(matches!(&rows[0], ListRow::Header(h) if h == "BUILD"));
    assert!(matches!(rows[1], ListRow::Command(0)));
    assert!(matches!(rows[4], ListRow::Separator));
    for i in 0..cmds.len() {
        assert!(matches!(rows[cmd_to_list_idx(i, &cmds)], ListRow::Command(j) if j == i));
    }
    assert_eq!(cmd_to_list_idx(0, &cmds), 1);
    assert_eq!(cmd_to_list_idx(3, &cmds), 6);
    assert_eq!(cmd_to_list_idx(99, &cmds), rows.len());
}

#[test]
fn wrapping() {
    assert_eq!(wrap_text("the quick brown fox", 10), vec!["the quick", "brown fox"]);
    assert_eq!(wrap_text("  a  b ", 80), vec!["a b"]);
    // A word longer than the width is cut into pieces of the width.
    assert_eq!(wrap_text("abcdefghijkl x", 5), vec!["abcde", "fghij", "kl x"]);
    assert_eq!(wrap_text("hello", 3), vec!["hel", "lo"]);
    for (text, width) in [("a bb ccc dddd eeeee ffffff", 3), ("supercalifragilistic is long", 4), ("x", 1)] {
        let lines = wrap_text(text, width);
        assert!(lines.iter().all(|l| l.chars().count() <= width), "{text}");
        assert_eq!(lines.concat().replace(' ', ""), text.replace(' ', ""));
    }
    assert_eq!(wrap_text("keep as is", 0), vec!["keep as is"]);
    assert!(wrap_text("   ", 4).is_empty());
    // Width counts characters: "é" is one.
    assert_eq!(wrap_text("éé a", 4), vec!["éé a"]);
    assert_eq!(wrap_text("éé a", 3), vec!["éé", "a"]);
}

#[test]
fn line_styles() {
    assert_eq!(output_line_style("error[E0308]: mismatched"), LineStyle::Error);
    assert_eq!(output_line_style("warning: unused"), LineStyle::Warning);
    assert_eq!(output_line_style("    Finished dev"), LineStyle::Success);
    assert_eq!(output_line_style("  ✓ exit code: 0"), LineStyle::Success);
    assert_eq!(output_line_style("  ✗ exit code: 1"), LineStyle::Plain);
}

#[test]
fn scroll_offsets() {
    assert_eq!(output_scroll(50, 12), 40);
    assert_eq!(output_scroll(5, 12), 0);
    assert_eq!(output_scroll(5, 1), 5);
    assert_eq!(search_scroll(10, 10, true), 5);
    assert_eq!(search_scroll(10, 10, false), 0);
    assert_eq!(search_scroll(2, 10, true), 0);
}

#[test]
fn installed_grouping() {
    let deps = vec![
        Dep { name: s("a"), version: s("1"), kind: DepKind::Normal },
        Dep { name: s("b"), version: s("1"), kind: DepKind::Normal },
        Dep { name: s("c"), version: s("1"), kind: DepKind::Build },
    ];
    let (rows, sel) = installed_rows(&deps, 2);
    assert_eq!(
        rows,
        vec![
            InstalledRow::Header(DepKind::Normal),
            InstalledRow::Crate(0),
            InstalledRow::Crate(1),
            InstalledRow::Header(DepKind::Build),
            InstalledRow::Crate(2),
        ]
    );
    assert_eq!(sel, 4);
    assert_eq!(installed_rows(&deps, 7).1, 0);
}

#[test]
fn padding_and_search_lines() {
    assert_eq!(pad_right("ab", 4), "ab  ");
    assert_eq!(pad_right("abcdef", 4), "abcdef");
    assert_eq!(pad_right("éa", 3), "éa ");
    assert_eq!(search_line("rand", "0.8", "1.2M"), format!("{:<28} {:<14} ↓{}", "rand", "0.8", "1.2M"));
}

#[test]
fn detail_panel() {
    let d = crate_detail(
        MetaCrate { name: s("a"), description: Some(s("one two three")), repository: Some(s("https://x")), newest_version: s("1") },
        vec![Owner { name: None, login: s("bob") }],
        Some(vec![DepItem { crate_id: s("x"), req: s("^1"), kind: s("normal") }]),
        "1.0",
    );
    let lines = detail_lines(&d, 11);
    let text: Vec<&str> = lines.iter().map(|l| l.0.as_str()).collect();
    assert_eq!(
        text,
        vec![
            "# a", "  v1.0", "", "## description", "  one two", "  three", "", "### author(s)", "  bob", "",
            "## dependencies", "  x                    ^1", "", "https://x",
        ]
    );
    assert_eq!(lines[0].1, DetailStyle::Header);
    assert_eq!(lines[13].1, DetailStyle::Muted);
}

#[test]
fn metadata_output_is_parsed() {
    let out = br#"{"packages":[{"name":"w","targets":[
        {"name":"w","kind":["lib"]},
        {"name":"cli","kind":["bin"]},
        {"name":"demo","kind":["example"]}]}],"version":1}"#;
    let ts = cargo_tui::workspace::metadata_output_targets(out);
    let got: Vec<(String, String, RunKind)> = ts.into_iter().map(|t| (t.package, t.name, t.kind)).collect();
    assert_eq!(got, vec![
        ("w".to_string(), "cli".to_string(), RunKind::Bin),
        ("w".to_string(), "demo".to_string(), RunKind::Example),
    ]);
    assert!(cargo_tui::workspace::metadata_output_targets(b"error: not json").is_empty());
    assert!(cargo_tui::workspace::metadata_output_targets(b"").is_empty());
    assert!(cargo_tui::workspace::metadata_output_targets(b"[1, 2]").is_empty());
    assert!(cargo_tui::workspace::parse_json(b"{").is_none());
    assert!(matches!(cargo_tui::workspace::parse_json(b"[true, null, 3, \"x\"]"), Some(JsonValue::Array(v)) if v.len() == 4));
}

#[test]
fn root_walk_steps() {
    let up = Some(PathBuf::from("/a"));
    assert!(matches!(root_step(PathBuf::from("/a/b"), true, up.clone()), RootStep::Found(p) if p == PathBuf::from("/a/b")));
    assert!(matches!(root_step(PathBuf::from("/a/b"), false, up), RootStep::Up(p) if p == PathBuf::from("/a")));
    assert!(matches!(root_step(PathBuf::from("/"), false, None), RootStep::NotFound));
}

#[test]
fn keys_table_fallbacks() {
    let d = KeyConfig::default();
    assert_eq!(Config::from_keys_table(&KeysTable::NoDocument).keys, d);
    assert_eq!(Config::from_keys_table(&KeysTable::Missing).keys, d);
    assert_eq!(Config::from_keys_table(&KeysTable::NotATable).keys, d);
    let t = KeysTable::Table(vec![("quit".to_string(), Some("x".to_string()))]);
    assert_eq!(Config::from_keys_table(&t).keys.quit, KeyBind::char('x'));
    let bad = KeysTable::Table(vec![("quit".to_string(), None), ("up".to_string(), Some("w".to_string()))]);
    assert_eq!(Config::from_keys_table(&bad).keys, d);
}

#[test]
fn pane_and_list_highlights() {
    assert_eq!(detail_scroll(Focus::Right, 4, 2), (4, 2));
    assert_eq!(detail_scroll(Focus::Left, 4, 2), (0, 0));
    assert!(search_hit_selected(true, 3, 3));
    assert!(!search_hit_selected(false, 3, 3));
    assert!(!search_hit_selected(true, 2, 3));
    assert_eq!(installed_highlight(true, 5, 7), Some(7));
    assert_eq!(installed_highlight(false, 5, 7), None);
    assert_eq!(installed_highlight(true, 0, 7), None);
}

#[test]
fn runner_reports() {
    let k = cargo_tui::runner::killed_events();
    assert!(matches!(&k[..], [RunnerEvent::Line(l), RunnerEvent::Exit(130)] if l == "[killed]"));
    let f = cargo_tui::runner::start_failed_events("not found");
    assert!(matches!(&f[..], [RunnerEvent::Line(l), RunnerEvent::Exit(1)] if l == "error: not found"));
    assert_eq!(cargo_tui::runner::exit_code(Some(101)), 101);
    assert_eq!(cargo_tui::runner::exit_code(None), -1);
}

#[test]
fn config_from_file_text() {
    let d = KeyConfig::default();
    assert_eq!(Config::from_file_text(None).keys, d);
    assert_eq!(Config::from_file_text(Some("not = [toml")).keys, d);
    assert_eq!(Config::from_file_text(Some("other = 1")).keys, d);
    assert_eq!(Config::from_file_text(Some("keys = 3")).keys, d);
    let c = Config::from_file_text(Some("[keys]\nquit = \"x\"\nup = \"ctrl+w\"\nunknown = 5\n")).keys;
    assert_eq!(c.quit, KeyBind::char('x'));
    assert_eq!(c.up, KeyBind { code: KeyCode::Char('w'), modifiers: CONTROL });
    assert_eq!(c.down, d.down);
    // A setting that is not a string makes the table unusable.
    assert_eq!(Config::from_file_text(Some("[keys]\nquit = 1\nup = \"w\"\n")).keys, d);
    assert!(cargo_tui::config::parse_toml("a = ").is_none());
    assert!(matches!(cargo_tui::config::parse_toml("a = 1.5\nb = [true]").as_deref(), Some([_, _])));
}
