use cargo_tui::ui::status_text;
use cargo_tui::app::{build_run_cmds, clamp_move, parse_test_line, test_cmds, Action, App, Cmd, Event, Focus, PkgSection, Tab, NO_BIN_SENTINEL};
use cargo_tui::config::{KeyCode, KeyConfig, KeyEvent, CONTROL};
use cargo_tui::crates_io::CrateInfo;
use cargo_tui::runner::RunnerEvent;
use cargo_tui::workspace::{Dep, DepKind, RunKind, RunTarget, WorkspaceInfo};
use std::path::PathBuf;

fn bin(pkg: &str, name: &str) -> RunTarget {
    RunTarget { package: pkg.into(), name: name.into(), kind: RunKind::Bin }
}
fn example(pkg: &str, name: &str) -> RunTarget {
    RunTarget { package: pkg.into(), name: name.into(), kind: RunKind::Example }
}

fn rows(cmds: &[Cmd], section: &str) -> Vec<Vec<String>> {
    cmds.iter().filter(|c| c.section == section).map(|c| c.args.clone()).collect()
}

fn test_app() -> App {
    let info = WorkspaceInfo { name: "t".into(), root: PathBuf::from("."), deps: vec![], targets: vec![] };
    App::new(info, KeyConfig::default())
}

fn key(code: KeyCode) -> Event {
    Event::Key(KeyEvent { code, modifiers: 0 })
}

fn spawned(acts: &[Action]) -> Vec<Vec<String>> {
    acts.iter()
        .filter_map(|a| match a {
            Action::Spawn(args) => Some(args.clone()),
            _ => None,
        })
        .collect()
}

#[test]
fn focus_right_starts_at_tail_and_scroll_clamps() {
    let mut app = test_app();
    app.right_content_lines = 100;
    app.right_view_lines = 10;

    app.focus_right();
    assert_eq!(app.focus, Focus::Right);
    assert_eq!(app.v_scroll, 90); // tail = content - view

    app.scroll_v(1); // already at bottom -> clamped
    assert_eq!(app.v_scroll, 90);
    app.scroll_v(-5);
    assert_eq!(app.v_scroll, 85);
    app.scroll_v(-1000); // clamped at top
    assert_eq!(app.v_scroll, 0);
}

#[test]
fn switch_tab_resets_focus_and_scroll() {
    let mut app = test_app();
    app.focus = Focus::Right;
    app.v_scroll = 42;
    app.h_scroll = 7;
    app.switch_tab(Tab::Test);
    assert_eq!(app.focus, Focus::Left);
    assert_eq!(app.v_scroll, 0);
    assert_eq!(app.h_scroll, 0);
}

#[test]
fn nothing_runnable_shows_placeholder() {
    let run = rows(&build_run_cmds(&[]), "RUN");
    assert_eq!(run.len(), 1);
    assert_eq!(run[0], vec![NO_BIN_SENTINEL.to_string()]);
    // The placeholder must never be a real `cargo run` invocation.
    assert!(!run[0].contains(&"run".to_string()));
}

#[test]
fn single_bin_targets_it_explicitly() {
    let run = rows(&build_run_cmds(&[bin("app", "app")]), "RUN");
    assert_eq!(run, vec![vec!["run", "--bin", "app"], vec!["run", "--release", "--bin", "app"],]);
}

#[test]
fn multiple_bins_get_one_row_each() {
    let run = rows(&build_run_cmds(&[bin("w", "alpha"), bin("w", "beta")]), "RUN");
    assert_eq!(
        run,
        vec![
            vec!["run", "-p", "w", "--bin", "alpha"],
            vec!["run", "-p", "w", "--bin", "beta"],
            vec!["run", "--release", "-p", "w", "--bin", "alpha"],
            vec!["run", "--release", "-p", "w", "--bin", "beta"],
        ]
    );
}

#[test]
fn examples_produce_run_example_rows() {
    let ex = rows(&build_run_cmds(&[example("demo", "main")]), "EXAMPLES");
    assert_eq!(
        ex,
        vec![vec!["run", "-p", "demo", "--example", "main"], vec!["run", "--release", "-p", "demo", "--example", "main"],]
    );
}

#[test]
fn examples_without_bins_do_not_show_placeholder() {
    let cmds = build_run_cmds(&[example("demo", "main")]);
    // No RUN placeholder when there is a runnable example.
    assert!(rows(&cmds, "RUN").is_empty());
    assert_eq!(rows(&cmds, "EXAMPLES").len(), 2);
}

#[test]
fn bins_and_examples_coexist() {
    let cmds = build_run_cmds(&[bin("p", "app"), example("p", "main")]);
    assert_eq!(rows(&cmds, "RUN"), vec![vec!["run", "--bin", "app"], vec!["run", "--release", "--bin", "app"],]);
    assert_eq!(
        rows(&cmds, "EXAMPLES"),
        vec![vec!["run", "-p", "p", "--example", "main"], vec!["run", "--release", "-p", "p", "--example", "main"],]
    );
}

#[test]
fn build_run_list_has_build_and_tool_sections() {
    let cmds = build_run_cmds(&[]);
    assert_eq!(cmds.len(), 11);
    assert_eq!(cmds[0].label, "build");
    assert_eq!(cmds[2].prompt.as_deref(), Some("target"));
    assert_eq!(cmds[3].label, "run (no binary target)");
    assert_eq!(cmds[10].args, vec!["publish"]);
    let labels: Vec<&str> = cmds[4..].iter().map(|c| c.label.as_str()).collect();
    assert_eq!(labels, vec!["fmt", "clippy", "check", "clean", "doc --open", "publish --dry-run", "publish"]);
}

#[test]
fn multiple_bins_have_labels_naming_them() {
    let cmds = build_run_cmds(&[bin("w", "alpha"), bin("w", "beta")]);
    let labels: Vec<&str> = cmds.iter().filter(|c| c.section == "RUN").map(|c| c.label.as_str()).collect();
    assert_eq!(labels, vec!["run alpha", "run beta", "run --release alpha", "run --release beta"]);
}

#[test]
fn test_list_is_fixed() {
    let cmds = test_cmds();
    assert_eq!(cmds.len(), 4);
    assert_eq!(cmds[0].args, vec!["test"]);
    assert_eq!(cmds[2].prompt.as_deref(), Some("filter"));
    assert_eq!(cmds[3].args, vec!["test", "--no-run"]);
}

#[test]
fn next_then_prev_tab_returns() {
    let mut app = test_app();
    app.next_tab();
    assert!(app.tab == Tab::Crate);
    app.prev_tab();
    assert!(app.tab == Tab::BuildRun);
    app.prev_tab();
    assert!(app.tab == Tab::Test);
}

#[test]
fn placeholder_explains_instead_of_running() {
    let mut app = test_app();
    app.br_sel = 3;
    let acts = app.handle(key(KeyCode::Enter));
    assert!(acts.is_empty());
    assert!(!app.running);
    assert_eq!(app.output[0], "  No binary target in this project.");
    assert_eq!(app.output.len(), 3);
}

#[test]
fn running_a_command_spawns_and_rerun_repeats() {
    let mut app = test_app();
    let acts = app.handle(key(KeyCode::Enter));
    assert_eq!(spawned(&acts), vec![vec!["build".to_string()]]);
    assert!(app.running);
    assert_eq!(app.output, vec!["$ cargo build"]);
    // While it runs, re-running first stops the old process.
    let acts = app.handle(key(KeyCode::Char('r')));
    assert!(matches!(acts[0], Action::Kill));
    assert_eq!(spawned(&acts), vec![vec!["build".to_string()]]);
    // The process reports an exit.
    let acts = app.handle(Event::Runner(RunnerEvent::Exit(0)));
    assert!(acts.is_empty());
    assert!(!app.running);
    assert_eq!(app.output.last().unwrap(), "  ✓ exit code: 0");
}

#[test]
fn exit_line_shows_negative_codes() {
    let mut app = test_app();
    app.handle(Event::Runner(RunnerEvent::Exit(-101)));
    assert_eq!(app.output, vec!["".to_string(), "  ✗ exit code: -101".to_string()]);
}

#[test]
fn selection_moves_and_clamps() {
    let mut app = test_app();
    app.handle(key(KeyCode::Char('k')));
    assert_eq!(app.br_sel, 0);
    app.handle(key(KeyCode::Char('j')));
    app.handle(key(KeyCode::Down));
    assert_eq!(app.br_sel, 2);
    for _ in 0..20 {
        app.handle(key(KeyCode::Char('j')));
    }
    assert_eq!(app.br_sel, app.build_run_cmds.len() - 1);
    // The prompting row opens its prompt instead of running.
    let mut app = test_app();
    app.br_sel = 2;
    assert!(app.handle(key(KeyCode::Enter)).is_empty());
    assert!(app.output.is_empty());
    assert_eq!(app.prompt_args, Some(vec!["build".to_string(), "--target".to_string()]));
    assert_eq!(app.prompt_label, "target");
}

#[test]
fn prompt_rows_ask_for_input() {
    let mut app = test_app();
    app.handle(key(KeyCode::Char('3')));
    app.handle(key(KeyCode::Down));
    app.handle(key(KeyCode::Down));
    assert_eq!(app.test_sel, 2);
    assert!(app.handle(key(KeyCode::Enter)).is_empty());
    assert_eq!(app.prompt_label, "filter");
    // Keys now edit the input: 'q' does not quit, Backspace deletes.
    for c in ['p', 'a', 'q', 'x'] {
        app.handle(key(KeyCode::Char(c)));
    }
    app.handle(key(KeyCode::Backspace));
    assert!(!app.quit);
    assert_eq!(app.prompt_text, "paq");
    let acts = app.handle(key(KeyCode::Enter));
    assert_eq!(spawned(&acts), vec![vec!["test", "paq"]]);
    assert!(app.prompt_args.is_none());
    assert_eq!(app.last_args, Some(vec!["test".to_string(), "paq".to_string()]));
    // Esc closes the prompt without running; Enter with no input only closes it.
    let mut app = test_app();
    app.br_sel = 2;
    app.handle(key(KeyCode::Enter));
    assert!(app.handle(key(KeyCode::Esc)).is_empty());
    assert!(app.prompt_args.is_none());
    assert!(!app.quit);
    app.handle(key(KeyCode::Enter));
    assert!(app.handle(key(KeyCode::Enter)).is_empty());
    assert!(app.prompt_args.is_none());
    assert!(!app.running);
}

#[test]
fn arrow_keys_work_beside_remapped_keys() {
    let mut keys = KeyConfig::default();
    keys.down = cargo_tui::config::KeyBind::char('n');
    keys.up = cargo_tui::config::KeyBind::char('e');
    let info = WorkspaceInfo { name: "t".into(), root: PathBuf::from("."), deps: vec![], targets: vec![] };
    let mut app = App::new(info, keys);
    app.handle(key(KeyCode::Down));
    app.handle(key(KeyCode::Char('n')));
    assert_eq!(app.br_sel, 2);
    app.handle(key(KeyCode::Up));
    assert_eq!(app.br_sel, 1);
    app.handle(key(KeyCode::Char('e')));
    assert_eq!(app.br_sel, 0);
    // The old default keys no longer move the selection.
    app.handle(key(KeyCode::Char('j')));
    assert_eq!(app.br_sel, 0);
}

#[test]
fn ctrl_c_quits_when_idle_and_kills_when_running() {
    let mut app = test_app();
    app.handle(key(KeyCode::Enter));
    let acts = app.handle(Event::Key(KeyEvent { code: KeyCode::Char('c'), modifiers: CONTROL }));
    assert!(matches!(acts[..], [Action::Kill]));
    assert!(!app.quit);
    // Asking again does nothing more until the process exits.
    assert!(app.handle(Event::Key(KeyEvent { code: KeyCode::Char('c'), modifiers: CONTROL })).is_empty());
    app.handle(Event::Runner(RunnerEvent::Exit(130)));
    app.handle(Event::Key(KeyEvent { code: KeyCode::Char('c'), modifiers: CONTROL }));
    assert!(app.quit);
}

#[test]
fn esc_and_q_quit() {
    let mut app = test_app();
    app.handle(key(KeyCode::Esc));
    assert!(app.quit);
    let mut app = test_app();
    app.handle(key(KeyCode::Char('q')));
    assert!(app.quit);
}

#[test]
fn test_tab_records_results() {
    let mut app = test_app();
    app.handle(key(KeyCode::Char('3')));
    assert!(app.tab == Tab::Test);
    app.handle(Event::Runner(RunnerEvent::Line("test a::b ... ok".into())));
    app.handle(Event::Runner(RunnerEvent::Line("test c ... FAILED".into())));
    app.handle(Event::Runner(RunnerEvent::Line("running 2 tests".into())));
    assert_eq!(app.test_results.len(), 2);
    assert_eq!(app.test_results[0].name, "a::b");
    assert!(app.test_results[0].ok);
    assert_eq!(app.test_results[1].name, "c");
    assert!(!app.test_results[1].ok);
    assert_eq!(app.output.len(), 3);
}

#[test]
fn build_tab_does_not_record_results() {
    let mut app = test_app();
    app.handle(Event::Runner(RunnerEvent::Line("test a ... ok".into())));
    assert!(app.test_results.is_empty());
    assert_eq!(app.output, vec!["test a ... ok"]);
}

#[test]
fn right_pane_keys_scroll_and_return_focus() {
    let mut app = test_app();
    app.right_content_lines = 30;
    app.right_view_lines = 10;
    app.handle(key(KeyCode::Char('l')));
    assert_eq!(app.focus, Focus::Right);
    assert_eq!(app.v_scroll, 20);
    app.handle(key(KeyCode::Char('k')));
    assert_eq!(app.v_scroll, 19);
    app.handle(key(KeyCode::Char('l')));
    assert_eq!(app.h_scroll, 1);
    app.handle(key(KeyCode::Char('h')));
    assert_eq!(app.h_scroll, 0);
    assert_eq!(app.focus, Focus::Right);
    app.handle(key(KeyCode::Char('h')));
    assert_eq!(app.focus, Focus::Left);
}

fn crate_app() -> App {
    let deps = vec![
        Dep { name: "serde".into(), version: "1".into(), kind: DepKind::Normal },
        Dep { name: "tempfile".into(), version: "3".into(), kind: DepKind::Dev },
    ];
    let info = WorkspaceInfo { name: "t".into(), root: PathBuf::from("."), deps, targets: vec![] };
    let mut app = App::new(info, KeyConfig::default());
    app.handle(key(KeyCode::Char('2')));
    app
}

#[test]
fn crate_tab_remove_uses_section_flag() {
    let mut app = crate_app();
    let acts = app.handle(key(KeyCode::Char('j')));
    assert_eq!(app.pkg_sel_inst, 1);
    assert!(matches!(&acts[..], [Action::FetchDetail { name, version, is_search: false }] if name == "tempfile" && version == "3"));
    let acts = app.handle(key(KeyCode::Char('d')));
    assert_eq!(spawned(&acts), vec![vec!["remove", "--dev", "tempfile"]]);
}

#[test]
fn crate_tab_search_and_add() {
    let mut app = crate_app();
    app.handle(key(KeyCode::Char('s')));
    assert!(app.pkg_search_mode);
    assert!(app.pkg_section == PkgSection::Search);
    for c in "rand".chars() {
        app.handle(key(KeyCode::Char(c)));
    }
    app.handle(key(KeyCode::Char('x')));
    app.handle(key(KeyCode::Backspace));
    assert_eq!(app.pkg_query, "rand");
    let acts = app.handle(key(KeyCode::Enter));
    assert!(matches!(&acts[..], [Action::Search { query, limit: 20 }] if query == "rand"));
    assert!(app.pkg_loading);
    let hits = vec![
        CrateInfo { name: "rand".into(), version: "0.8.5".into(), description: String::new(), downloads: 5 },
        CrateInfo { name: "rand_core".into(), version: "0.6.4".into(), description: String::new(), downloads: 3 },
    ];
    let acts = app.handle(Event::SearchResult(hits));
    assert!(!app.pkg_loading);
    assert!(matches!(&acts[..], [Action::FetchDetail { name, is_search: true, .. }] if name == "rand"));
    let acts = app.handle(key(KeyCode::Down));
    assert_eq!(app.pkg_sel_search, 1);
    assert_eq!(acts.len(), 1);
    app.handle(key(KeyCode::Esc));
    assert!(!app.pkg_search_mode);
    assert!(!app.quit);
    // Cycle the section to build, then add.
    app.handle(key(KeyCode::Char('p')));
    app.handle(key(KeyCode::Char('p')));
    assert!(app.pkg_add_kind == DepKind::Build);
    let acts = app.handle(key(KeyCode::Enter));
    assert_eq!(spawned(&acts), vec![vec!["add", "--build", "rand_core"]]);
}

#[test]
fn empty_query_clears_results() {
    let mut app = crate_app();
    app.pkg_results = vec![CrateInfo::default()];
    app.handle(key(KeyCode::Char('s')));
    let acts = app.handle(key(KeyCode::Enter));
    assert!(acts.is_empty());
    assert!(app.pkg_results.is_empty());
}

#[test]
fn toggle_twice_returns() {
    let mut app = crate_app();
    app.handle(key(KeyCode::Tab));
    assert!(app.pkg_section == PkgSection::Search);
    app.handle(key(KeyCode::Tab));
    assert!(app.pkg_section == PkgSection::Installed);
}

#[test]
fn clamp_move_examples() {
    assert_eq!(clamp_move(0, -1, 5), 0);
    assert_eq!(clamp_move(4, 1, 5), 4);
    assert_eq!(clamp_move(2, 1, 5), 3);
    assert_eq!(clamp_move(7, 1, 0), 0);
}

#[test]
fn test_line_parsing() {
    let r = parse_test_line("test x ... ok").unwrap();
    assert_eq!(r.name, "x");
    assert!(r.ok);
    assert!(parse_test_line("test  ... ok").unwrap().name.is_empty());
    assert!(parse_test_line("test ... ok").is_none());
    assert!(parse_test_line("tests x ... ok").is_none());
    assert!(!parse_test_line("test y ... FAILED").unwrap().ok);
}

#[test]
fn manifest_edit_reloads_installed_list() {
    let mut app = crate_app();
    app.handle(key(KeyCode::Char('j')));
    let acts = app.handle(key(KeyCode::Char('d')));
    assert_eq!(spawned(&acts), vec![vec!["remove", "--dev", "tempfile"]]);
    let acts = app.handle(Event::Runner(RunnerEvent::Exit(0)));
    assert!(matches!(acts[..], [Action::ReloadDeps]));
    let acts = app.set_deps(vec![Dep { name: "serde".into(), version: "1".into(), kind: DepKind::Normal }]);
    assert_eq!(app.pkg_sel_inst, 0);
    assert_eq!(app.pkg_deps.len(), 1);
    assert!(matches!(&acts[..], [Action::FetchDetail { name, is_search: false, .. }] if name == "serde"));
    assert!(app.set_deps(vec![]).is_empty());
    assert_eq!(app.pkg_sel_inst, 0);
}

#[test]
fn other_commands_do_not_reload_installed_list() {
    let mut app = test_app();
    let acts = app.handle(key(KeyCode::Enter));
    assert_eq!(spawned(&acts), vec![vec!["build"]]);
    assert!(app.handle(Event::Runner(RunnerEvent::Exit(0))).is_empty());
    assert!(!app.running);
}

#[test]
fn status_bar_shows_open_prompt() {
    let mut app = test_app();
    assert_eq!(status_text(&app), " [Enter] Run  [r] Re-run  [K] Kill  []/[] Tab  [q] Quit");
    app.br_sel = 2;
    app.handle(key(KeyCode::Enter));
    app.handle(key(KeyCode::Char('x')));
    assert_eq!(status_text(&app), " target: x▌  [Enter] run  [Esc] cancel");
}

#[test]
fn build_run_sections_are_contiguous_runs() {
    let cmds = build_run_cmds(&[bin("w", "a"), example("w", "e"), bin("w", "b")]);
    let secs: Vec<&str> = cmds.iter().map(|c| c.section.as_str()).collect();
    let mut expect = vec!["BUILD"; 3];
    expect.extend(["RUN"; 4]);
    expect.extend(["EXAMPLES"; 2]);
    expect.extend(["TOOLS"; 7]);
    assert_eq!(secs, expect);
    // Every run row names its target, with the package.
    for c in cmds.iter().filter(|c| c.args[0] == "run") {
        let n = c.args.len();
        assert!(c.args[n - 2] == "--bin" || c.args[n - 2] == "--example");
        assert_eq!(c.args[n - 4], "-p");
        assert_eq!(c.args[n - 3], "w");
    }
    assert!(!cmds.iter().any(|c| c.args == vec![NO_BIN_SENTINEL.to_string()]));
    // Rows move down strictly, by one within a section.
    let idx: Vec<usize> = (0..cmds.len()).map(|i| cargo_tui::ui::cmd_to_list_idx(i, &cmds)).collect();
    for i in 1..cmds.len() {
        assert!(idx[i] > idx[i - 1]);
        assert_eq!(idx[i] - idx[i - 1] == 1, cmds[i].section == cmds[i - 1].section);
    }
}

#[test]
fn start_fetches_first_installed_detail() {
    assert!(test_app().initial_actions().is_empty());
    let app = crate_app();
    let acts = app.initial_actions();
    assert!(matches!(&acts[..], [Action::FetchDetail { name, is_search: false, .. }] if *name == app.pkg_deps[0].name));
}
