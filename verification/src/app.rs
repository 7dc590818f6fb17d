//! The application: its command lists, the events it reacts to, the actions it
//! asks for, and the state machine that turns one into the other.

use vstd::prelude::*;
use std::path::PathBuf;
use crate::config::{binding_matches, KeyBind, KeyCode, KeyConfig, KeyEvent};
use crate::crates_io::{CrateDetail, CrateInfo};
use crate::runner::RunnerEvent;
use crate::text::{chars_of, concat, joined, push_str, signed_decimal, signed_decimal_string, string_from_chars, string_of, views};
use crate::workspace::{flag_name, Dep, DepKind, RunKind, RunTarget, WorkspaceInfo};

verus! {

broadcast use vstd::string::group_string_axioms;

// ── Tab / section ─────────────────────────────────────────────

/// The three tabs of the interface.
#[derive(Debug, Clone, Copy, PartialEq, Eq, Structural)]
pub enum Tab {
    BuildRun,
    Crate,
    Test,
}

impl Tab {
    /// The tab's position in the tab bar.
    pub fn index(self) -> (res: usize)
        ensures
            res == match self {
                Tab::BuildRun => 0usize,
                Tab::Crate => 1usize,
                Tab::Test => 2usize,
            },
    {
        match self {
            Tab::BuildRun => 0,
            Tab::Crate => 1,
            Tab::Test => 2,
        }
    }
}

/// The two lists of the Crate tab.
#[derive(Debug, Clone, Copy, PartialEq, Eq, Structural)]
pub enum PkgSection {
    Installed,
    Search,
}

/// Which pane currently has keyboard focus. The right pane (Output on the
/// Build/Run and Test tabs, Description on the Crate tab) can be focused to
/// scroll through its content with hjkl.
#[derive(Debug, Clone, Copy, PartialEq, Eq, Structural)]
pub enum Focus {
    Left,
    Right,
}

// ── Command definitions ───────────────────────────────────────

/// Sentinel first-arg used for the placeholder shown when a project has no
/// runnable binary target. Recognized specially when running a command.
pub const NO_BIN_SENTINEL: &'static str = "__nobin__";

/// A row of a command list.
#[derive(Debug, Clone)]
pub struct Cmd {
    pub label: String,
    pub args: Vec<String>,
    /// If set, prompt the user for additional input before running.
    pub prompt: Option<String>,
    pub section: String,
}

/// A command as text: label, arguments, prompt and section.
pub type CmdView = (Seq<char>, Seq<Seq<char>>, Option<Seq<char>>, Seq<char>);

impl View for Cmd {
    type V = CmdView;

    open spec fn view(&self) -> CmdView {
        (
            self.label@,
            views(self.args@),
            match self.prompt {
                Some(p) => Some(p@),
                None => None,
            },
            self.section@,
        )
    }
}

/// The text of each command.
pub open spec fn cmd_views(cs: Seq<Cmd>) -> Seq<CmdView> {
    cs.map_values(|c: Cmd| c@)
}

/// A command without prompt.
pub open spec fn plain(label: Seq<char>, args: Seq<Seq<char>>, section: Seq<char>) -> CmdView {
    (label, args, None, section)
}

impl Cmd {
    /// A command from its label, arguments, optional prompt and section.
    pub fn new(label: &str, args: &[&str], prompt: Option<&str>, section: &str) -> (res: Self)
        ensures
            res@ == (
                label@,
                args@.map_values(|a: &str| a@),
                match prompt {
                    Some(p) => Some(p@),
                    None => None,
                },
                section@,
            ),
    {
        let mut v: Vec<String> = Vec::new();
        let mut i: usize = 0;
        while i < args.len()
            invariant
                0 <= i <= args@.len(),
                views(v@) == args@.take(i as int).map_values(|a: &str| a@),
            decreases args.len() - i,
        {
            let ghost before = v@;
            v.push(string_of(args[i]));
            assert(views(v@) =~= views(before).push(args@[i as int]@));
            i += 1;
            assert(args@.take(i as int) =~= args@.take(i - 1).push(args@[i - 1]));
        }
        assert(args@.take(args@.len() as int) =~= args@);
        Cmd {
            label: string_of(label),
            args: v,
            prompt: match prompt {
                Some(p) => Some(string_of(p)),
                None => None,
            },
            section: string_of(section),
        }
    }
}

/// A target as text: package, name, kind.
pub type TargetView = (Seq<char>, Seq<char>, RunKind);

/// The targets of one kind, in order.
pub open spec fn of_kind(ts: Seq<TargetView>, k: RunKind) -> Seq<TargetView>
    decreases ts.len(),
{
    if ts.len() == 0 {
        Seq::empty()
    } else if ts.last().2 == k {
        of_kind(ts.drop_last(), k).push(ts.last())
    } else {
        of_kind(ts.drop_last(), k)
    }
}

/// The BUILD rows.
pub open spec fn build_rows() -> Seq<CmdView> {
    seq![
        plain("build"@, seq!["build"@], "BUILD"@),
        plain("build --release"@, seq!["build"@, "--release"@], "BUILD"@),
        ("build --target …"@, seq!["build"@, "--target"@], Some("target"@), "BUILD"@),
    ]
}

/// The RUN rows. No binary: a placeholder that runs nothing, and only when
/// there is no example either. One binary: `run` and `run --release`,
/// targeting it explicitly. Several: one row per binary, then one release row
/// per binary, each naming its package.
pub open spec fn run_rows(bins: Seq<TargetView>, examples: Seq<TargetView>) -> Seq<CmdView> {
    if bins.len() == 0 {
        if examples.len() == 0 {
            seq![plain("run (no binary target)"@, seq!["__nobin__"@], "RUN"@)]
        } else {
            Seq::empty()
        }
    } else if bins.len() == 1 {
        seq![
            plain("run"@, seq!["run"@, "--bin"@, bins[0].1], "RUN"@),
            plain("run --release"@, seq!["run"@, "--release"@, "--bin"@, bins[0].1], "RUN"@),
        ]
    } else {
        bins.map_values(|b: TargetView| bin_row(b)) + bins.map_values(|b: TargetView| bin_release_row(b))
    }
}

/// The row running one of several binaries.
pub open spec fn bin_row(b: TargetView) -> CmdView {
    plain("run "@ + b.1, seq!["run"@, "-p"@, b.0, "--bin"@, b.1], "RUN"@)
}

/// The row running one of several binaries in release mode.
pub open spec fn bin_release_row(b: TargetView) -> CmdView {
    plain("run --release "@ + b.1, seq!["run"@, "--release"@, "-p"@, b.0, "--bin"@, b.1], "RUN"@)
}

/// The row running an example.
pub open spec fn example_row(e: TargetView) -> CmdView {
    plain("run --example "@ + e.1, seq!["run"@, "-p"@, e.0, "--example"@, e.1], "EXAMPLES"@)
}

/// The row running an example in release mode.
pub open spec fn example_release_row(e: TargetView) -> CmdView {
    plain(
        "run --release --example "@ + e.1,
        seq!["run"@, "--release"@, "-p"@, e.0, "--example"@, e.1],
        "EXAMPLES"@,
    )
}

/// The TOOLS rows.
pub open spec fn tool_rows() -> Seq<CmdView> {
    seq![
        plain("fmt"@, seq!["fmt"@], "TOOLS"@),
        plain("clippy"@, seq!["clippy"@], "TOOLS"@),
        plain("check"@, seq!["check"@], "TOOLS"@),
        plain("clean"@, seq!["clean"@], "TOOLS"@),
        plain("doc --open"@, seq!["doc"@, "--open"@], "TOOLS"@),
        plain("publish --dry-run"@, seq!["publish"@, "--dry-run"@], "TOOLS"@),
        plain("publish"@, seq!["publish"@], "TOOLS"@),
    ]
}

/// The Build/Run list for a project with these targets.
pub open spec fn build_run_list(ts: Seq<TargetView>) -> Seq<CmdView> {
    let bins = of_kind(ts, RunKind::Bin);
    let examples = of_kind(ts, RunKind::Example);
    build_rows() + run_rows(bins, examples) + examples.map_values(|e: TargetView| example_row(e))
        + examples.map_values(|e: TargetView| example_release_row(e)) + tool_rows()
}

/// The Test list.
pub open spec fn test_list() -> Seq<CmdView> {
    seq![
        plain("test (all)"@, seq!["test"@], "TEST"@),
        plain("test --release"@, seq!["test"@, "--release"@], "TEST"@),
        ("test <filter>"@, seq!["test"@], Some("filter"@), "TEST"@),
        plain("test --no-run"@, seq!["test"@, "--no-run"@], "TEST"@),
    ]
}

/// The targets as text.
pub open spec fn target_views(ts: Seq<RunTarget>) -> Seq<TargetView> {
    ts.map_values(|t: RunTarget| t@)
}

fn indices_of_kind(targets: &[RunTarget], k: RunKind) -> (res: Vec<usize>)
    ensures
        forall|i: int| 0 <= i < res@.len() ==> res@[i] < targets@.len(),
        res@.map_values(|i: usize| targets@[i as int]@) == of_kind(target_views(targets@), k),
{
    let mut res: Vec<usize> = Vec::new();
    let mut i: usize = 0;
    while i < targets.len()
        invariant
            0 <= i <= targets@.len(),
            forall|j: int| 0 <= j < res@.len() ==> res@[j] < i,
            res@.map_values(|j: usize| targets@[j as int]@) == of_kind(target_views(targets@).take(i as int), k),
        decreases targets.len() - i,
    {
        let ghost ts = target_views(targets@);
        assert(ts.take(i + 1).drop_last() =~= ts.take(i as int));
        assert(ts.take(i + 1).last() == targets@[i as int]@);
        let ghost before = res@;
        if targets[i].kind == k {
            res.push(i);
            assert(res@.map_values(|j: usize| targets@[j as int]@) =~= before.map_values(
                |j: usize| targets@[j as int]@,
            ).push(targets@[i as int]@));
        }
        i += 1;
    }
    assert(target_views(targets@).take(targets@.len() as int) =~= target_views(targets@));
    res
}

/// Build the Build/Run command list, resolving `run` entries against the
/// runnable targets (bins and examples) discovered in the workspace so
/// `cargo run` never fails with "a bin target must be available" or an
/// ambiguous-target error.
pub fn build_run_cmds(targets: &[RunTarget]) -> (res: Vec<Cmd>)
    ensures
        cmd_views(res@) == build_run_list(target_views(targets@)),
{
    let bins = indices_of_kind(targets, RunKind::Bin);
    let examples = indices_of_kind(targets, RunKind::Example);
    let ghost ts = target_views(targets@);
    let ghost bs = of_kind(ts, RunKind::Bin);
    let ghost es = of_kind(ts, RunKind::Example);

    let mut cmds: Vec<Cmd> = Vec::new();
    cmds.push(Cmd::new("build", &["build"], None, "BUILD"));
    cmds.push(Cmd::new("build --release", &["build", "--release"], None, "BUILD"));
    cmds.push(Cmd::new("build --target …", &["build", "--target"], Some("target"), "BUILD"));
    assert(cmd_views(cmds@) =~~= build_rows());

    // ── RUN section (binaries) ───────────────────────────────────
    let ghost before_run = cmd_views(cmds@);
    if bins.len() == 0 {
        // No bins at all. Show a placeholder only when there is also nothing
        // else to run; otherwise the EXAMPLES section carries the runnables.
        if examples.len() == 0 {
            cmds.push(Cmd::new("run (no binary target)", &[NO_BIN_SENTINEL], None, "RUN"));
        }
    } else if bins.len() == 1 {
        // Exactly one binary: plain run/run --release, targeting it explicitly.
        let b = &targets[bins[0]];
        cmds.push(Cmd::new("run", &["run", "--bin", b.name.as_str()], None, "RUN"));
        cmds.push(Cmd::new("run --release", &["run", "--release", "--bin", b.name.as_str()], None, "RUN"));
    } else {
        // Multiple binaries: one row per binary so the user picks which to run.
        let mut i: usize = 0;
        while i < bins.len()
            invariant
                0 <= i <= bins@.len(),
                forall|j: int| 0 <= j < bins@.len() ==> bins@[j] < targets@.len(),
                bins@.map_values(|j: usize| targets@[j as int]@) == bs,
                cmd_views(cmds@) == before_run + bs.take(i as int).map_values(|b: TargetView| bin_row(b)),
            decreases bins.len() - i,
        {
            let b = &targets[bins[i]];
            let label = concat("run ", b.name.as_str());
            let ghost before = cmd_views(cmds@);
            cmds.push(Cmd::new(label.as_str(), &["run", "-p", b.package.as_str(), "--bin", b.name.as_str()], None, "RUN"));
            assert(bs[i as int] == targets@[bins@[i as int] as int]@);
            assert(cmd_views(cmds@) =~~= before.push(bin_row(bs[i as int])));
            i += 1;
            assert(bs.take(i as int).map_values(|b: TargetView| bin_row(b)) =~= bs.take(i - 1).map_values(
                |b: TargetView| bin_row(b),
            ).push(bin_row(bs[i - 1])));
        }
        assert(bs.take(bs.len() as int) =~= bs);
        let ghost mid = cmd_views(cmds@);
        let mut i: usize = 0;
        while i < bins.len()
            invariant
                0 <= i <= bins@.len(),
                forall|j: int| 0 <= j < bins@.len() ==> bins@[j] < targets@.len(),
                bins@.map_values(|j: usize| targets@[j as int]@) == bs,
                cmd_views(cmds@) == mid + bs.take(i as int).map_values(|b: TargetView| bin_release_row(b)),
            decreases bins.len() - i,
        {
            let b = &targets[bins[i]];
            let label = concat("run --release ", b.name.as_str());
            let ghost before = cmd_views(cmds@);
            cmds.push(Cmd::new(
                label.as_str(),
                &["run", "--release", "-p", b.package.as_str(), "--bin", b.name.as_str()],
                None,
                "RUN",
            ));
            assert(bs[i as int] == targets@[bins@[i as int] as int]@);
            assert(cmd_views(cmds@) =~~= before.push(bin_release_row(bs[i as int])));
            i += 1;
            assert(bs.take(i as int).map_values(|b: TargetView| bin_release_row(b)) =~= bs.take(i - 1).map_values(
                |b: TargetView| bin_release_row(b),
            ).push(bin_release_row(bs[i - 1])));
        }
    }
    assert(cmd_views(cmds@) =~~= build_rows() + run_rows(bs, es));

    // ── EXAMPLES section (examples/*.rs) ─────────────────────────
    let ghost before_ex = cmd_views(cmds@);
    let mut i: usize = 0;
    while i < examples.len()
        invariant
            0 <= i <= examples@.len(),
            forall|j: int| 0 <= j < examples@.len() ==> examples@[j] < targets@.len(),
            examples@.map_values(|j: usize| targets@[j as int]@) == es,
            cmd_views(cmds@) == before_ex + es.take(i as int).map_values(|e: TargetView| example_row(e)),
        decreases examples.len() - i,
    {
        let e = &targets[examples[i]];
        let label = concat("run --example ", e.name.as_str());
        let ghost before = cmd_views(cmds@);
        cmds.push(Cmd::new(label.as_str(), &["run", "-p", e.package.as_str(), "--example", e.name.as_str()], None, "EXAMPLES"));
        assert(es[i as int] == targets@[examples@[i as int] as int]@);
        assert(cmd_views(cmds@) =~~= before.push(example_row(es[i as int])));
        i += 1;
        assert(es.take(i as int).map_values(|e: TargetView| example_row(e)) =~= es.take(i - 1).map_values(
            |e: TargetView| example_row(e),
        ).push(example_row(es[i - 1])));
    }
    assert(es.take(es.len() as int) =~= es);
    let ghost mid = cmd_views(cmds@);
    let mut i: usize = 0;
    while i < examples.len()
        invariant
            0 <= i <= examples@.len(),
            forall|j: int| 0 <= j < examples@.len() ==> examples@[j] < targets@.len(),
            examples@.map_values(|j: usize| targets@[j as int]@) == es,
            cmd_views(cmds@) == mid + es.take(i as int).map_values(|e: TargetView| example_release_row(e)),
        decreases examples.len() - i,
    {
        let e = &targets[examples[i]];
        let label = concat("run --release --example ", e.name.as_str());
        let ghost before = cmd_views(cmds@);
        cmds.push(Cmd::new(
            label.as_str(),
            &["run", "--release", "-p", e.package.as_str(), "--example", e.name.as_str()],
            None,
            "EXAMPLES",
        ));
        assert(es[i as int] == targets@[examples@[i as int] as int]@);
        assert(cmd_views(cmds@) =~~= before.push(example_release_row(es[i as int])));
        i += 1;
        assert(es.take(i as int).map_values(|e: TargetView| example_release_row(e)) =~= es.take(i - 1).map_values(
            |e: TargetView| example_release_row(e),
        ).push(example_release_row(es[i - 1])));
    }

    let ghost before_tools = cmd_views(cmds@);
    cmds.push(Cmd::new("fmt", &["fmt"], None, "TOOLS"));
    cmds.push(Cmd::new("clippy", &["clippy"], None, "TOOLS"));
    cmds.push(Cmd::new("check", &["check"], None, "TOOLS"));
    cmds.push(Cmd::new("clean", &["clean"], None, "TOOLS"));
    cmds.push(Cmd::new("doc --open", &["doc", "--open"], None, "TOOLS"));
    cmds.push(Cmd::new("publish --dry-run", &["publish", "--dry-run"], None, "TOOLS"));
    cmds.push(Cmd::new("publish", &["publish"], None, "TOOLS"));
    assert(cmd_views(cmds@) =~~= before_tools + tool_rows());
    cmds
}

/// The Test command list.
pub fn test_cmds() -> (res: Vec<Cmd>)
    ensures
        cmd_views(res@) == test_list(),
{
    let mut cmds: Vec<Cmd> = Vec::new();
    cmds.push(Cmd::new("test (all)", &["test"], None, "TEST"));
    cmds.push(Cmd::new("test --release", &["test", "--release"], None, "TEST"));
    cmds.push(Cmd::new("test <filter>", &["test"], Some("filter"), "TEST"));
    cmds.push(Cmd::new("test --no-run", &["test", "--no-run"], None, "TEST"));
    assert(cmd_views(cmds@) =~~= test_list());
    cmds
}

// ── Events and actions ────────────────────────────────────────

/// What the application reacts to.
pub enum Event {
    /// A key press.
    Key(KeyEvent),
    /// Output or exit of the running cargo process.
    Runner(RunnerEvent),
    /// The hits of a crates.io search.
    SearchResult(Vec<CrateInfo>),
    /// A crate's detail page, for the search list (`true`) or the installed list.
    DetailResult(bool, CrateDetail),
    /// Time passing.
    Tick,
}

/// Outside work the application asks for after handling an event.
#[derive(Debug)]
pub enum Action {
    /// Stop the running cargo process.
    Kill,
    /// Start `cargo <args>` in the project root; its output comes back as
    /// `Event::Runner`, and it can be stopped with `Kill`.
    Spawn(Vec<String>),
    /// Fetch a crate's detail page; it comes back as `Event::DetailResult`.
    FetchDetail { name: String, version: String, is_search: bool },
    /// Search crates.io for at most `limit` hits; they come back as `Event::SearchResult`.
    Search { query: String, limit: usize },
    /// Read the manifest's dependencies again and hand them to `App::set_deps`.
    ReloadDeps,
}

/// An action as text.
pub enum ActionView {
    Kill,
    Spawn(Seq<Seq<char>>),
    FetchDetail(Seq<char>, Seq<char>, bool),
    Search(Seq<char>, usize),
    ReloadDeps,
}

impl View for Action {
    type V = ActionView;

    open spec fn view(&self) -> ActionView {
        match self {
            Action::Kill => ActionView::Kill,
            Action::Spawn(a) => ActionView::Spawn(views(a@)),
            Action::FetchDetail { name, version, is_search } => ActionView::FetchDetail(name@, version@, *is_search),
            Action::Search { query, limit } => ActionView::Search(query@, *limit),
            Action::ReloadDeps => ActionView::ReloadDeps,
        }
    }
}

/// The actions as text.
pub open spec fn action_views(a: Seq<Action>) -> Seq<ActionView> {
    a.map_values(|x: Action| x@)
}

// ── Test result ───────────────────────────────────────────────

/// One line of `cargo test` output that reports a test.
#[derive(Debug, Clone)]
pub struct TestResult {
    pub name: String,
    pub ok: bool,
}

/// The test a `cargo test` output line reports: `test NAME ... ok` passed,
/// `test NAME ... FAILED` failed; other lines report none.
pub open spec fn test_line(line: Seq<char>) -> Option<(Seq<char>, bool)> {
    if line.len() >= 5 && line.take(5) == "test "@ {
        let rest = line.skip(5);
        if rest.len() >= 7 && rest.skip(rest.len() - 7) == " ... ok"@ {
            Some((rest.take(rest.len() - 7), true))
        } else if rest.len() >= 11 && rest.skip(rest.len() - 11) == " ... FAILED"@ {
            Some((rest.take(rest.len() - 11), false))
        } else {
            None
        }
    } else {
        None
    }
}

/// The test a `cargo test` output line reports, if any.
pub fn parse_test_line(line: &str) -> (res: Option<TestResult>)
    ensures
        match (res, test_line(line@)) {
            (Some(r), Some((n, ok))) => r.name@ == n && r.ok == ok,
            (None, None) => true,
            _ => false,
        },
{
    proof {
        reveal_strlit("test ");
        reveal_strlit(" ... ok");
        reveal_strlit(" ... FAILED");
    }
    let cs = chars_of(line);
    if !crate::text::matches_at(&cs, 0, "test ") {
        assert(cs@.take(5) =~= cs@.subrange(0, 5));
        return None;
    }
    assert(cs@.take(5) =~= cs@.subrange(0, 5));
    let ghost rest = cs@.skip(5);
    let n = cs.len();
    if n - 5 >= 7 && crate::text::matches_at(&cs, n - 7, " ... ok") {
        assert(rest.skip(rest.len() - 7) =~= cs@.subrange(n - 7, n as int));
        let name = string_from_chars(&cs, 5, n - 7);
        assert(rest.take(rest.len() - 7) =~= cs@.subrange(5, n - 7));
        return Some(TestResult { name, ok: true });
    }
    if n - 5 >= 7 {
        assert(rest.skip(rest.len() - 7) =~= cs@.subrange(n - 7, n as int));
    }
    if n - 5 >= 11 && crate::text::matches_at(&cs, n - 11, " ... FAILED") {
        assert(rest.skip(rest.len() - 11) =~= cs@.subrange(n - 11, n as int));
        let name = string_from_chars(&cs, 5, n - 11);
        assert(rest.take(rest.len() - 11) =~= cs@.subrange(5, n - 11));
        return Some(TestResult { name, ok: false });
    }
    if n - 5 >= 11 {
        assert(rest.skip(rest.len() - 11) =~= cs@.subrange(n - 11, n as int));
    }
    None
}

// ── Application state ─────────────────────────────────────────

/// The state of the front end.
pub struct App {
    pub root: PathBuf,
    pub ws_name: String,
    pub quit: bool,

    // tabs
    pub tab: Tab,

    // Focus + right-pane scrolling
    pub focus: Focus,
    pub v_scroll: u16,
    pub h_scroll: u16,
    /// Right-pane viewport height / total content lines, as last drawn, so
    /// scrolling can be clamped accurately.
    pub right_view_lines: u16,
    pub right_content_lines: u16,

    // Command lists (Build/Run resolves against detected bin targets)
    pub build_run_cmds: Vec<Cmd>,
    pub test_cmds: Vec<Cmd>,

    // Build/Run + Test shared output state
    pub br_sel: usize,
    pub test_sel: usize,
    pub output: Vec<String>,
    pub running: bool,
    pub last_args: Option<Vec<String>>,
    pub test_results: Vec<TestResult>,
    /// Whether the running process can still be stopped: set when a process is
    /// started, cleared when it exits or a `Kill` has been asked for.
    pub can_kill: bool,

    // Crate tab
    pub pkg_section: PkgSection,
    pub pkg_deps: Vec<Dep>,
    pub pkg_sel_inst: usize,
    /// Target dependency section used when adding a crate from search.
    pub pkg_add_kind: DepKind,
    pub pkg_search_mode: bool,
    pub pkg_query: String,
    pub pkg_results: Vec<CrateInfo>,
    pub pkg_sel_search: usize,
    pub pkg_loading: bool,
    pub pkg_detail_inst: Option<CrateDetail>,
    pub pkg_detail_srch: Option<CrateDetail>,

    // Input asked for by a command with a prompt
    /// The arguments of the command waiting for input, while its prompt is open.
    pub prompt_args: Option<Vec<String>>,
    /// What the open prompt asks for.
    pub prompt_label: String,
    /// The input typed so far.
    pub prompt_text: String,

    pub key: KeyConfig,
}

/// The largest list length whose positions the selection arithmetic handles.
pub open spec fn max_list() -> int {
    0x7fff_ffff
}

impl App {
    /// Every selection points into its list (or is 0 for an empty list), the
    /// command lists are not empty, and no list is longer than `max_list()`.
    pub open spec fn wf(&self) -> bool {
        &&& self.br_sel < self.build_run_cmds@.len() <= max_list()
        &&& self.test_sel < self.test_cmds@.len() <= max_list()
        &&& self.pkg_deps@.len() <= max_list()
        &&& self.pkg_results@.len() <= max_list()
        &&& (self.pkg_sel_inst < self.pkg_deps@.len() || self.pkg_sel_inst == 0)
        &&& (self.pkg_sel_search < self.pkg_results@.len() || self.pkg_sel_search == 0)
    }
}

// ── Specification of the transitions ─────────────────────────

/// `a - b`, or 0 when `b` exceeds `a`.
pub open spec fn sat_sub(a: u16, b: u16) -> u16 {
    if a >= b {
        (a - b) as u16
    } else {
        0
    }
}

/// The furthest the right pane can scroll down: content lines beyond the view.
pub open spec fn scroll_limit(a: App) -> u16 {
    sat_sub(a.right_content_lines, a.right_view_lines)
}

/// `x` limited to `lo..=hi`.
pub open spec fn clamp_int(x: int, lo: int, hi: int) -> int {
    if x < lo {
        lo
    } else if x > hi {
        hi
    } else {
        x
    }
}

/// A selection moved by `delta` and kept inside a list of `len` entries (0 for an empty list).
pub open spec fn clamped(cur: int, delta: int, len: int) -> int {
    if len == 0 {
        0
    } else {
        clamp_int(cur + delta, 0, len - 1)
    }
}

/// The tab after `t`, wrapping around.
pub open spec fn next_tab_of(t: Tab) -> Tab {
    match t {
        Tab::BuildRun => Tab::Crate,
        Tab::Crate => Tab::Test,
        Tab::Test => Tab::BuildRun,
    }
}

/// The tab before `t`, wrapping around.
pub open spec fn prev_tab_of(t: Tab) -> Tab {
    match t {
        Tab::BuildRun => Tab::Test,
        Tab::Crate => Tab::BuildRun,
        Tab::Test => Tab::Crate,
    }
}

/// The other list of the Crate tab.
pub open spec fn toggled(s: PkgSection) -> PkgSection {
    match s {
        PkgSection::Installed => PkgSection::Search,
        PkgSection::Search => PkgSection::Installed,
    }
}

/// The next section to add crates to: normal, then dev, then build, then normal again.
pub open spec fn next_kind(k: DepKind) -> DepKind {
    match k {
        DepKind::Normal => DepKind::Dev,
        DepKind::Dev => DepKind::Build,
        DepKind::Build => DepKind::Normal,
    }
}

/// The flag of a section as a list of zero or one argument.
pub open spec fn flag_args(k: DepKind) -> Seq<Seq<char>> {
    match flag_name(k) {
        Some(f) => seq![f],
        None => Seq::empty(),
    }
}

/// `cargo add [--dev|--build] NAME`.
pub open spec fn add_args(k: DepKind, name: Seq<char>) -> Seq<Seq<char>> {
    seq!["add"@] + flag_args(k) + seq![name]
}

/// `cargo remove [--dev|--build] NAME`, for the section the crate lives in.
pub open spec fn remove_args(d: Dep) -> Seq<Seq<char>> {
    seq!["remove"@] + flag_args(d.kind) + seq![d.name@]
}

/// The explanation shown instead of running the placeholder of a project without binaries.
pub open spec fn no_bin_lines() -> Seq<Seq<char>> {
    seq![
        "  No binary target in this project."@,
        "  This looks like a library crate — there is nothing to run."@,
        "  Use build / check / test instead."@,
    ]
}

/// The line reporting a finished process: a check mark for exit code 0, a
/// cross otherwise, and the code.
pub open spec fn exit_line(code: i32) -> Seq<char> {
    "  "@ + (if code == 0 { "✓"@ } else { "✗"@ }) + " exit code: "@ + signed_decimal(code as int)
}

/// Whether the last command started adds or removes a dependency, so that the
/// installed list must be read again when it ends.
pub open spec fn edits_manifest(last: Option<Vec<String>>) -> bool {
    match last {
        Some(a) => a@.len() > 0 && (a@[0]@ == "add"@ || a@[0]@ == "remove"@),
        None => false,
    }
}

/// The state after the running process exited.
pub open spec fn post_exit(pre: App, code: i32, post: App) -> bool {
    &&& post == App { running: false, can_kill: false, output: post.output, ..pre }
    &&& views(post.output@) == views(pre.output@).push(Seq::empty()).push(exit_line(code))
}

/// The installed list replaced by a freshly read one: the selection stays
/// where it was if it still points into the list, or moves to the last entry;
/// the shown detail is dropped and the selected crate's is fetched.
pub open spec fn deps_replaced(pre: App, deps: Vec<Dep>, post: App, acts: Seq<ActionView>) -> bool {
    let n = deps@.len();
    let sel = if pre.pkg_sel_inst < n { pre.pkg_sel_inst as int } else if n > 0 { n - 1 } else { 0 };
    &&& post == App { pkg_deps: deps, pkg_sel_inst: sel as usize, pkg_detail_inst: None, ..pre }
    &&& acts == if n > 0 {
        seq![ActionView::FetchDetail(deps@[sel].name@, deps@[sel].version@, false)]
    } else {
        Seq::empty()
    }
}

/// The test results as text.
pub open spec fn result_views(rs: Seq<TestResult>) -> Seq<(Seq<char>, bool)> {
    rs.map_values(|r: TestResult| (r.name@, r.ok))
}

/// Switching to `tab` clears the output and test results and hands focus back
/// to the list at the top left of the output.
pub open spec fn tab_switched(pre: App, tab: Tab, post: App) -> bool {
    &&& post == App {
        tab: tab,
        focus: Focus::Left,
        v_scroll: 0,
        h_scroll: 0,
        output: post.output,
        test_results: post.test_results,
        ..pre
    }
    &&& post.output@.len() == 0
    &&& post.test_results@.len() == 0
}

/// The right pane scrolled vertically by `delta`, clamped to its content.
pub open spec fn v_scrolled(pre: App, delta: int, post: App) -> bool {
    post == App { v_scroll: clamp_int(pre.v_scroll + delta, 0, scroll_limit(pre) as int) as u16, ..pre }
}

/// Focus moved into the right pane, at the tail of its content and its left edge.
pub open spec fn focused_right(pre: App, post: App) -> bool {
    post == App { focus: Focus::Right, v_scroll: scroll_limit(pre), h_scroll: 0, ..pre }
}

/// `cargo <args>` started: a process still running is stopped first, the output
/// shows the command line, the arguments are kept for re-running, and focus
/// returns to the list following the new output.
pub open spec fn cargo_started(pre: App, args: Seq<Seq<char>>, post: App, acts: Seq<ActionView>) -> bool {
    &&& post == App {
        output: post.output,
        running: true,
        last_args: post.last_args,
        focus: Focus::Left,
        v_scroll: 0,
        h_scroll: 0,
        can_kill: true,
        ..pre
    }
    &&& views(post.output@) == seq!["$ cargo "@ + joined(args, " "@)]
    &&& post.last_args matches Some(a) && views(a@) == args
    &&& acts == (if pre.can_kill { seq![ActionView::Kill] } else { Seq::empty() }) + seq![ActionView::Spawn(args)]
}

/// The running process asked to stop, if it still can be.
pub open spec fn killed(pre: App, post: App, acts: Seq<ActionView>) -> bool {
    if pre.can_kill {
        post == App { can_kill: false, ..pre } && acts == seq![ActionView::Kill]
    } else {
        post == pre && acts.len() == 0
    }
}

/// A crates.io search for the query started; an empty query instead clears the results.
pub open spec fn search_started(pre: App, post: App, acts: Seq<ActionView>) -> bool {
    if pre.pkg_query@.len() == 0 {
        &&& post == App { pkg_results: post.pkg_results, pkg_loading: false, pkg_detail_srch: None, ..pre }
        &&& post.pkg_results@.len() == 0
        &&& acts.len() == 0
    } else {
        post == App { pkg_loading: true, ..pre } && acts == seq![ActionView::Search(pre.pkg_query@, 20)]
    }
}

/// The search selection moved by `delta`; a new selection drops the shown
/// detail and fetches the selected crate's.
pub open spec fn search_sel_moved(pre: App, delta: int, post: App, acts: Seq<ActionView>) -> bool {
    let n = pre.pkg_results@.len();
    let new = clamped(pre.pkg_sel_search as int, delta, n as int);
    if n == 0 || new == pre.pkg_sel_search {
        post == pre && acts.len() == 0
    } else {
        &&& post == App { pkg_sel_search: new as usize, pkg_detail_srch: None, ..pre }
        &&& acts == seq![ActionView::FetchDetail(pre.pkg_results@[new].name@, pre.pkg_results@[new].version@, true)]
    }
}

/// The selection of the list the current tab shows.
pub open spec fn current_sel(a: App) -> usize {
    match a.tab {
        Tab::BuildRun => a.br_sel,
        Tab::Test => a.test_sel,
        Tab::Crate => match a.pkg_section {
            PkgSection::Installed => a.pkg_sel_inst,
            PkgSection::Search => a.pkg_sel_search,
        },
    }
}

/// The selection of the current list moved by `delta`.
pub open spec fn sel_moved(pre: App, delta: int, post: App, acts: Seq<ActionView>) -> bool {
    match pre.tab {
        Tab::BuildRun => post == App {
            br_sel: clamped(pre.br_sel as int, delta, pre.build_run_cmds@.len() as int) as usize,
            ..pre
        } && acts.len() == 0,
        Tab::Test => post == App {
            test_sel: clamped(pre.test_sel as int, delta, pre.test_cmds@.len() as int) as usize,
            ..pre
        } && acts.len() == 0,
        Tab::Crate => match pre.pkg_section {
            PkgSection::Installed => {
                let new = clamped(pre.pkg_sel_inst as int, delta, pre.pkg_deps@.len() as int);
                if new == pre.pkg_sel_inst {
                    post == pre && acts.len() == 0
                } else {
                    &&& post == App { pkg_sel_inst: new as usize, pkg_detail_inst: None, ..pre }
                    &&& acts == seq![ActionView::FetchDetail(pre.pkg_deps@[new].name@, pre.pkg_deps@[new].version@, false)]
                }
            },
            PkgSection::Search => search_sel_moved(pre, delta, post, acts),
        },
    }
}

/// The prompt of command `c` opened: its arguments wait for the input, which starts empty.
pub open spec fn prompt_opened(pre: App, c: CmdView, post: App) -> bool {
    &&& post == App { prompt_args: post.prompt_args, prompt_label: post.prompt_label, prompt_text: post.prompt_text, ..pre }
    &&& post.prompt_args matches Some(a) && views(a@) == c.1
    &&& c.2 matches Some(p) && post.prompt_label@ == p
    &&& post.prompt_text@.len() == 0
}

/// The selected entry run: a command without prompt runs (the placeholder of a
/// project without binaries explains itself instead), a command with a prompt
/// opens it, and a selected search hit is added to the chosen section.
pub open spec fn ran(pre: App, post: App, acts: Seq<ActionView>) -> bool {
    match pre.tab {
        Tab::BuildRun => {
            let c = pre.build_run_cmds@[pre.br_sel as int]@;
            if c.1.len() > 0 && c.1[0] == "__nobin__"@ {
                post == App { output: post.output, ..pre } && views(post.output@) == no_bin_lines() && acts.len() == 0
            } else if c.2 is None {
                cargo_started(pre, c.1, post, acts)
            } else {
                prompt_opened(pre, c, post) && acts.len() == 0
            }
        },
        Tab::Test => {
            let c = pre.test_cmds@[pre.test_sel as int]@;
            if c.2 is None {
                cargo_started(pre, c.1, post, acts)
            } else {
                prompt_opened(pre, c, post) && acts.len() == 0
            }
        },
        Tab::Crate => if pre.pkg_section == PkgSection::Search && pre.pkg_sel_search < pre.pkg_results@.len() {
            cargo_started(pre, add_args(pre.pkg_add_kind, pre.pkg_results@[pre.pkg_sel_search as int].name@), post, acts)
        } else {
            post == pre && acts.len() == 0
        },
    }
}

/// A key press while the search query is being edited: Esc ends editing, Enter
/// searches from the top, Backspace deletes, Up/Down move the selection, and
/// characters extend the query.
pub open spec fn search_key_handled(pre: App, key: KeyEvent, post: App, acts: Seq<ActionView>) -> bool {
    match key.code {
        KeyCode::Esc => post == App { pkg_search_mode: false, ..pre } && acts.len() == 0,
        KeyCode::Enter => search_started(App { pkg_sel_search: 0, ..pre }, post, acts),
        KeyCode::Backspace => {
            &&& post == App { pkg_query: post.pkg_query, ..pre }
            &&& post.pkg_query@ == if pre.pkg_query@.len() > 0 { pre.pkg_query@.drop_last() } else { pre.pkg_query@ }
            &&& acts.len() == 0
        },
        KeyCode::Up => search_sel_moved(pre, -1, post, acts),
        KeyCode::Down => search_sel_moved(pre, 1, post, acts),
        KeyCode::Char(c) => {
            &&& post == App { pkg_query: post.pkg_query, ..pre }
            &&& post.pkg_query@ == pre.pkg_query@.push(c)
            &&& acts.len() == 0
        },
        _ => post == pre && acts.len() == 0,
    }
}

/// A key press while a prompt is open: Esc closes it, Enter runs the waiting
/// command with the input as its last argument (with no input it only closes),
/// Backspace deletes, and characters extend the input.
pub open spec fn prompt_key_handled(pre: App, key: KeyEvent, post: App, acts: Seq<ActionView>) -> bool {
    let closed = App { prompt_args: None, ..pre };
    match key.code {
        KeyCode::Esc => post == closed && acts.len() == 0,
        KeyCode::Enter => match pre.prompt_args {
            Some(a) => if pre.prompt_text@.len() > 0 {
                cargo_started(closed, views(a@).push(pre.prompt_text@), post, acts)
            } else {
                post == closed && acts.len() == 0
            },
            None => post == pre && acts.len() == 0,
        },
        KeyCode::Backspace => {
            &&& post == App { prompt_text: post.prompt_text, ..pre }
            &&& post.prompt_text@ == if pre.prompt_text@.len() > 0 { pre.prompt_text@.drop_last() } else { pre.prompt_text@ }
            &&& acts.len() == 0
        },
        KeyCode::Char(c) => {
            &&& post == App { prompt_text: post.prompt_text, ..pre }
            &&& post.prompt_text@ == pre.prompt_text@.push(c)
            &&& acts.len() == 0
        },
        _ => post == pre && acts.len() == 0,
    }
}

/// Whether a key press is one the focused right pane reacts to.
pub open spec fn right_pane_key(k: KeyConfig, key: KeyEvent) -> bool {
    ||| binding_matches(k.down, key) || key.code == KeyCode::Down
    ||| binding_matches(k.up, key) || key.code == KeyCode::Up
    ||| binding_matches(k.focus_right, key) || key.code == KeyCode::Right
    ||| binding_matches(k.focus_left, key) || key.code == KeyCode::Left
}

/// A key press in the focused right pane: down/up scroll vertically, right
/// scrolls right, left scrolls left and at the left edge hands focus back to the list.
pub open spec fn right_pane_handled(pre: App, key: KeyEvent, post: App) -> bool {
    let k = pre.key;
    if binding_matches(k.down, key) || key.code == KeyCode::Down {
        v_scrolled(pre, 1, post)
    } else if binding_matches(k.up, key) || key.code == KeyCode::Up {
        v_scrolled(pre, -1, post)
    } else if binding_matches(k.focus_right, key) || key.code == KeyCode::Right {
        post == App { h_scroll: if pre.h_scroll < 0xffff { (pre.h_scroll + 1) as u16 } else { pre.h_scroll }, ..pre }
    } else if pre.h_scroll > 0 {
        post == App { h_scroll: (pre.h_scroll - 1) as u16, ..pre }
    } else {
        post == App { focus: Focus::Left, ..pre }
    }
}

/// A key press acting on the list of the current tab: selection (arrow keys
/// always work), run, re-run, kill, and the Crate tab's own keys.
pub open spec fn list_key_handled(pre: App, key: KeyEvent, post: App, acts: Seq<ActionView>) -> bool {
    let k = pre.key;
    let none = acts.len() == 0;
    if binding_matches(k.down, key) || key.code == KeyCode::Down {
        sel_moved(pre, 1, post, acts)
    } else if binding_matches(k.up, key) || key.code == KeyCode::Up {
        sel_moved(pre, -1, post, acts)
    } else if binding_matches(k.run, key) {
        ran(pre, post, acts)
    } else if binding_matches(k.rerun, key) {
        match pre.last_args {
            Some(a) => cargo_started(pre, views(a@), post, acts),
            None => post == pre && none,
        }
    } else if binding_matches(k.kill, key) {
        killed(pre, post, acts)
    } else if pre.tab == Tab::Crate && binding_matches(k.pkg_toggle, key) {
        post == App { pkg_section: toggled(pre.pkg_section), ..pre } && none
    } else if pre.tab == Tab::Crate && binding_matches(k.pkg_search, key) {
        post == App { pkg_search_mode: true, pkg_section: PkgSection::Search, ..pre } && none
    } else if pre.tab == Tab::Crate && binding_matches(k.pkg_profile, key) {
        post == App { pkg_add_kind: next_kind(pre.pkg_add_kind), ..pre } && none
    } else if pre.tab == Tab::Crate && binding_matches(k.pkg_remove, key) && pre.pkg_section == PkgSection::Installed
        && pre.pkg_sel_inst < pre.pkg_deps@.len() {
        cargo_started(pre, remove_args(pre.pkg_deps@[pre.pkg_sel_inst as int]), post, acts)
    } else {
        post == pre && none
    }
}

/// A key press outside query editing: quit (Esc always quits), tab switching,
/// the focused right pane's keys (or focusing it), then the list's keys.
pub open spec fn normal_key_handled(pre: App, key: KeyEvent, post: App, acts: Seq<ActionView>) -> bool {
    let k = pre.key;
    let none = acts.len() == 0;
    if binding_matches(k.quit, key) || key.code == KeyCode::Esc {
        post == App { quit: true, ..pre } && none
    } else if binding_matches(k.tab_1, key) {
        tab_switched(pre, Tab::BuildRun, post) && none
    } else if binding_matches(k.tab_2, key) {
        tab_switched(pre, Tab::Crate, post) && none
    } else if binding_matches(k.tab_3, key) {
        tab_switched(pre, Tab::Test, post) && none
    } else if binding_matches(k.tab_next, key) {
        tab_switched(pre, next_tab_of(pre.tab), post) && none
    } else if binding_matches(k.tab_prev, key) {
        tab_switched(pre, prev_tab_of(pre.tab), post) && none
    } else if pre.focus == Focus::Right && right_pane_key(k, key) {
        right_pane_handled(pre, key, post) && none
    } else if pre.focus != Focus::Right && (binding_matches(k.focus_right, key) || key.code == KeyCode::Right) {
        focused_right(pre, post) && none
    } else {
        list_key_handled(pre, key, post, acts)
    }
}

/// A key press. Ctrl+C stops the running process, or quits when none runs;
/// while a prompt is open keys go to it; while the search query is edited keys
/// edit it; otherwise the configured bindings apply.
pub open spec fn key_handled(pre: App, key: KeyEvent, post: App, acts: Seq<ActionView>) -> bool {
    if (key.modifiers & 2u8) != 0 && key.code == KeyCode::Char('c') {
        if pre.running {
            killed(pre, post, acts)
        } else {
            post == App { quit: true, ..pre } && acts.len() == 0
        }
    } else if pre.prompt_args is Some {
        prompt_key_handled(pre, key, post, acts)
    } else if pre.pkg_search_mode {
        search_key_handled(pre, key, post, acts)
    } else {
        normal_key_handled(pre, key, post, acts)
    }
}

/// An event: output lines are appended (on the Test tab a test report also
/// records its result), an exit ends the run with a blank line and the exit
/// line (and, after adding or removing a dependency, asks for the installed
/// list to be read again, so that it follows the manifest), search hits replace the list with the first selected and its detail
/// fetched, a detail page is shown in its list, and keys go to `key_handled`.
pub open spec fn handled(pre: App, ev: Event, post: App, acts: Seq<ActionView>) -> bool {
    match ev {
        Event::Tick => post == pre && acts.len() == 0,
        Event::Runner(RunnerEvent::Line(line)) => {
            &&& post == App { output: post.output, test_results: post.test_results, ..pre }
            &&& views(post.output@) == views(pre.output@).push(line@)
            &&& if pre.tab == Tab::Test && test_line(line@) is Some {
                result_views(post.test_results@) == result_views(pre.test_results@).push(test_line(line@).unwrap())
            } else {
                post.test_results == pre.test_results
            }
            &&& acts.len() == 0
        },
        Event::Runner(RunnerEvent::Exit(code)) => {
            &&& post_exit(pre, code, post)
            &&& acts == if edits_manifest(pre.last_args) { seq![ActionView::ReloadDeps] } else { Seq::empty() }
        },
        Event::SearchResult(rs) => {
            &&& post == App { pkg_loading: false, pkg_sel_search: 0, pkg_detail_srch: None, pkg_results: rs, ..pre }
            &&& acts == if rs@.len() > 0 {
                seq![ActionView::FetchDetail(rs@[0].name@, rs@[0].version@, true)]
            } else {
                Seq::empty()
            }
        },
        Event::DetailResult(is_search, d) => {
            &&& if is_search {
                post == App { pkg_detail_srch: Some(d), ..pre }
            } else {
                post == App { pkg_detail_inst: Some(d), ..pre }
            }
            &&& acts.len() == 0
        },
        Event::Key(key) => key_handled(pre, key, post, acts),
    }
}

// ── Transitions ───────────────────────────────────────────────

/// The selection moved by `delta` and kept inside a list of `len` entries.
pub fn clamp_move(cur: usize, delta: i32, len: usize) -> (res: usize)
    requires
        cur <= 0x7fff_ffff,
        len <= 0x7fff_ffff,
        -0x8000_0000 <= cur + delta <= 0x7fff_ffff,
    ensures
        res == clamped(cur as int, delta as int, len as int),
{
    if len == 0 {
        return 0;
    }
    let x: i32 = cur as i32 + delta;
    let hi: i32 = len as i32 - 1;
    let lo_clamped: i32 = if x < 0 { 0 } else { x };
    let r: i32 = if lo_clamped > hi { hi } else { lo_clamped };
    r as usize
}

fn flag_string(k: DepKind) -> (res: Option<String>)
    ensures
        match (res, flag_name(k)) {
            (Some(f), Some(g)) => f@ == g,
            (None, None) => true,
            _ => false,
        },
{
    match k.flag() {
        Some(f) => Some(string_of(f)),
        None => None,
    }
}

/// No outside work.
fn no_actions() -> (acts: Vec<Action>)
    ensures
        action_views(acts@) == Seq::<ActionView>::empty(),
{
    let acts: Vec<Action> = Vec::new();
    assert(action_views(acts@) =~= Seq::<ActionView>::empty());
    acts
}

/// The arguments `section-args NAME`: `verb`, the section's flag if any, and the crate.
fn crate_args(verb: &str, k: DepKind, name: &String) -> (res: Vec<String>)
    ensures
        views(res@) == seq![verb@] + flag_args(k) + seq![name@],
{
    let mut args: Vec<String> = Vec::new();
    args.push(string_of(verb));
    if let Some(f) = flag_string(k) {
        args.push(f);
    }
    args.push(name.clone());
    assert(views(args@) =~= seq![verb@] + flag_args(k) + seq![name@]);
    args
}

impl App {
    /// The state of a freshly started front end for a project.
    pub fn new(info: WorkspaceInfo, key: KeyConfig) -> (res: Self)
        requires
            info.targets@.len() <= 1_000_000_000,
            info.deps@.len() <= max_list(),
        ensures
            res.wf(),
            res.root == info.root,
            res.ws_name == info.name,
            !res.quit,
            res.tab == Tab::BuildRun,
            res.focus == Focus::Left,
            res.v_scroll == 0 && res.h_scroll == 0,
            res.right_view_lines == 0 && res.right_content_lines == 0,
            cmd_views(res.build_run_cmds@) == build_run_list(target_views(info.targets@)),
            cmd_views(res.test_cmds@) == test_list(),
            res.br_sel == 0 && res.test_sel == 0,
            res.output@.len() == 0,
            !res.running,
            res.last_args is None,
            res.test_results@.len() == 0,
            !res.can_kill,
            res.pkg_section == PkgSection::Installed,
            res.pkg_deps == info.deps,
            res.pkg_sel_inst == 0,
            res.pkg_add_kind == DepKind::Normal,
            !res.pkg_search_mode,
            res.pkg_query@.len() == 0,
            res.pkg_results@.len() == 0,
            res.pkg_sel_search == 0,
            !res.pkg_loading,
            res.pkg_detail_inst is None,
            res.pkg_detail_srch is None,
            res.prompt_args is None,
            res.prompt_label@.len() == 0,
            res.prompt_text@.len() == 0,
            res.key == key,
    {
        let build_run = build_run_cmds(info.targets.as_slice());
        let tests = test_cmds();
        proof {
            lemma_build_run_len(target_views(info.targets@));
            assert(cmd_views(build_run@).len() == build_run@.len());
            assert(cmd_views(tests@).len() == tests@.len());
        }
        App {
            root: info.root,
            ws_name: info.name,
            quit: false,
            tab: Tab::BuildRun,
            focus: Focus::Left,
            v_scroll: 0,
            h_scroll: 0,
            right_view_lines: 0,
            right_content_lines: 0,
            build_run_cmds: build_run,
            test_cmds: tests,
            br_sel: 0,
            test_sel: 0,
            output: Vec::new(),
            running: false,
            last_args: None,
            test_results: Vec::new(),
            can_kill: false,
            pkg_section: PkgSection::Installed,
            pkg_deps: info.deps,
            pkg_sel_inst: 0,
            pkg_add_kind: DepKind::Normal,
            pkg_search_mode: false,
            pkg_query: String::new(),
            pkg_results: Vec::new(),
            pkg_sel_search: 0,
            pkg_loading: false,
            pkg_detail_inst: None,
            pkg_detail_srch: None,
            prompt_args: None,
            prompt_label: String::new(),
            prompt_text: String::new(),
            key,
        }
    }

    /// The outside work to ask for when the front end starts: the detail page of
    /// the first installed crate, if there is one.
    pub fn initial_actions(&self) -> (acts: Vec<Action>)
        ensures
            action_views(acts@) == if self.pkg_deps@.len() > 0 {
                seq![ActionView::FetchDetail(self.pkg_deps@[0].name@, self.pkg_deps@[0].version@, false)]
            } else {
                Seq::<ActionView>::empty()
            },
    {
        let mut acts = no_actions();
        if self.pkg_deps.len() > 0 {
            let d = &self.pkg_deps[0];
            acts.push(self.fetch_detail(d.name.clone(), d.version.clone(), false));
            assert(action_views(acts@) =~= seq![
                ActionView::FetchDetail(self.pkg_deps@[0].name@, self.pkg_deps@[0].version@, false),
            ]);
        }
        acts
    }

    // ── Run cargo command ─────────────────────────────────────

    /// Starts `cargo <args>`, stopping a process that still runs.
    pub fn run_cargo(&mut self, args: Vec<String>) -> (acts: Vec<Action>)
        ensures
            cargo_started(*old(self), views(args@), *final(self), action_views(acts@)),
    {
        let mut acts: Vec<Action> = Vec::new();
        let had = self.can_kill;
        if self.can_kill {
            acts.push(Action::Kill);
        }
        let line = concat("$ cargo ", crate::text::join(&args, " ").as_str());
        let mut out: Vec<String> = Vec::new();
        out.push(line);
        self.output = out;
        self.running = true;
        let kept = args.clone();
        assert(views(kept@) =~= views(args@)) by {
            assert forall|i: int| 0 <= i < args@.len() implies kept@[i] == args@[i] by {
                assert(cloned::<String>(args@[i], kept@[i]));
            }
        }
        self.last_args = Some(kept);
        // New output: return focus to the command list and follow the tail.
        self.focus = Focus::Left;
        self.v_scroll = 0;
        self.h_scroll = 0;
        let ghost before = acts@;
        acts.push(Action::Spawn(args));
        self.can_kill = true;
        assert(views(self.output@) =~= seq!["$ cargo "@ + joined(views(args@), " "@)]);
        assert(action_views(acts@) =~= (if had { seq![ActionView::Kill] } else { Seq::empty() }) + seq![
            ActionView::Spawn(views(args@)),
        ]);
        acts
    }

    /// Asks the running process to stop, if it still can be.
    pub fn kill(&mut self) -> (acts: Vec<Action>)
        ensures
            killed(*old(self), *final(self), action_views(acts@)),
    {
        let mut acts: Vec<Action> = Vec::new();
        if self.can_kill {
            self.can_kill = false;
            acts.push(Action::Kill);
            assert(action_views(acts@) =~= seq![ActionView::Kill]);
        }
        acts
    }

    // ── Fetch crate detail from crates.io ────────────────────

    /// The request for a crate's detail page, for the search list or the installed list.
    pub fn fetch_detail(&self, name: String, version: String, is_search: bool) -> (res: Action)
        ensures
            res@ == ActionView::FetchDetail(name@, version@, is_search),
    {
        Action::FetchDetail { name, version, is_search }
    }

    /// Trigger a debounce-free crates.io search for the current query.
    pub fn trigger_search(&mut self) -> (acts: Vec<Action>)
        ensures
            search_started(*old(self), *final(self), action_views(acts@)),
    {
        let mut acts: Vec<Action> = Vec::new();
        if self.pkg_query.as_str().is_empty() {
            self.pkg_results = Vec::new();
            self.pkg_loading = false;
            self.pkg_detail_srch = None;
            return acts;
        }
        self.pkg_loading = true;
        acts.push(Action::Search { query: self.pkg_query.clone(), limit: 20 });
        assert(action_views(acts@) =~= seq![ActionView::Search(self.pkg_query@, 20)]);
        acts
    }

    // ── Helpers ───────────────────────────────────────────────

    /// Switches to `tab`, clearing the output and resetting focus and scroll.
    pub fn switch_tab(&mut self, tab: Tab)
        ensures
            tab_switched(*old(self), tab, *final(self)),
    {
        self.tab = tab;
        self.output.clear();
        self.test_results.clear();
        self.focus = Focus::Left;
        self.v_scroll = 0;
        self.h_scroll = 0;
    }

    /// Scroll the focused right pane vertically, clamped to its content.
    pub fn scroll_v(&mut self, delta: i32)
        requires
            old(self).v_scroll + delta <= 0x7fff_ffff,
        ensures
            v_scrolled(*old(self), delta as int, *final(self)),
    {
        let max: u16 = if self.right_content_lines >= self.right_view_lines {
            self.right_content_lines - self.right_view_lines
        } else {
            0
        };
        let x: i32 = self.v_scroll as i32 + delta;
        let next: i32 = if x < 0 { 0 } else if x > max as i32 { max as i32 } else { x };
        self.v_scroll = next as u16;
    }

    /// Move focus into the right pane, starting at the current tail so the view
    /// does not jump when following live output.
    pub fn focus_right(&mut self)
        ensures
            focused_right(*old(self), *final(self)),
    {
        self.focus = Focus::Right;
        let bottom: u16 = if self.right_content_lines >= self.right_view_lines {
            self.right_content_lines - self.right_view_lines
        } else {
            0
        };
        self.v_scroll = bottom;
        self.h_scroll = 0;
    }

    /// Switches to the next tab.
    pub fn next_tab(&mut self)
        ensures
            tab_switched(*old(self), next_tab_of(old(self).tab), *final(self)),
    {
        let t = match self.tab {
            Tab::BuildRun => Tab::Crate,
            Tab::Crate => Tab::Test,
            Tab::Test => Tab::BuildRun,
        };
        self.switch_tab(t);
    }

    /// Switches to the previous tab.
    pub fn prev_tab(&mut self)
        ensures
            tab_switched(*old(self), prev_tab_of(old(self).tab), *final(self)),
    {
        let t = match self.tab {
            Tab::BuildRun => Tab::Test,
            Tab::Crate => Tab::BuildRun,
            Tab::Test => Tab::Crate,
        };
        self.switch_tab(t);
    }

    /// Moves the selection of the search hits.
    pub fn move_search_sel(&mut self, delta: i32) -> (acts: Vec<Action>)
        requires
            old(self).wf(),
            old(self).pkg_sel_search + delta <= 0x7fff_ffff,
        ensures
            search_sel_moved(*old(self), delta as int, *final(self), action_views(acts@)),
    {
        let mut acts: Vec<Action> = Vec::new();
        let n = self.pkg_results.len();
        if n == 0 {
            return acts;
        }
        let prev = self.pkg_sel_search;
        let new = clamp_move(self.pkg_sel_search, delta, n);
        if new != prev {
            self.pkg_sel_search = new;
            self.pkg_detail_srch = None;
            let r = &self.pkg_results[new];
            let a = Action::FetchDetail { name: r.name.clone(), version: r.version.clone(), is_search: true };
            acts.push(a);
            assert(action_views(acts@) =~= seq![
                ActionView::FetchDetail(old(self).pkg_results@[new as int].name@, old(self).pkg_results@[new as int].version@, true),
            ]);
        }
        acts
    }

    /// Moves the selection of the current list.
    pub fn move_sel(&mut self, delta: i32) -> (acts: Vec<Action>)
        requires
            old(self).wf(),
            current_sel(*old(self)) + delta <= 0x7fff_ffff,
        ensures
            sel_moved(*old(self), delta as int, *final(self), action_views(acts@)),
    {
        let mut acts: Vec<Action> = Vec::new();
        match self.tab {
            Tab::BuildRun => {
                self.br_sel = clamp_move(self.br_sel, delta, self.build_run_cmds.len());
            },
            Tab::Test => {
                self.test_sel = clamp_move(self.test_sel, delta, self.test_cmds.len());
            },
            Tab::Crate => match self.pkg_section {
                PkgSection::Installed => {
                    let n = self.pkg_deps.len();
                    let prev = self.pkg_sel_inst;
                    let new = clamp_move(self.pkg_sel_inst, delta, n);
                    if new != prev {
                        self.pkg_sel_inst = new;
                        self.pkg_detail_inst = None;
                        let d = &self.pkg_deps[new];
                        acts.push(Action::FetchDetail { name: d.name.clone(), version: d.version.clone(), is_search: false });
                        assert(action_views(acts@) =~= seq![
                            ActionView::FetchDetail(old(self).pkg_deps@[new as int].name@, old(self).pkg_deps@[new as int].version@, false),
                        ]);
                    }
                },
                PkgSection::Search => {
                    acts = self.move_search_sel(delta);
                },
            },
        }
        acts
    }

    /// Runs the selected entry of the current list.
    pub fn do_run(&mut self) -> (acts: Vec<Action>)
        requires
            old(self).wf(),
        ensures
            ran(*old(self), *final(self), action_views(acts@)),
    {
        proof {
            reveal_strlit("__nobin__");
        }
        match self.tab {
            Tab::BuildRun => {
                let cmd = &self.build_run_cmds[self.br_sel];
                // Library-only project: explain instead of running a doomed `cargo run`.
                let is_placeholder = cmd.args.len() > 0 && crate::workspace::chars_equal(
                    &chars_of(cmd.args[0].as_str()),
                    &chars_of(NO_BIN_SENTINEL),
                );
                if is_placeholder {
                    let mut out: Vec<String> = Vec::new();
                    out.push(string_of("  No binary target in this project."));
                    out.push(string_of("  This looks like a library crate — there is nothing to run."));
                    out.push(string_of("  Use build / check / test instead."));
                    self.output = out;
                    assert(views(self.output@) =~= no_bin_lines());
                    return Vec::new();
                }
                let args = cmd.args.clone();
                assert(views(args@) =~= views(cmd.args@)) by {
                    assert forall|i: int| 0 <= i < args@.len() implies args@[i] == cmd.args@[i] by {
                        assert(cloned::<String>(cmd.args@[i], args@[i]));
                    }
                }
                match &cmd.prompt {
                    None => {
                        self.output.clear();
                        self.run_cargo(args)
                    },
                    Some(p) => {
                        self.prompt_label = p.clone();
                        self.prompt_text = String::new();
                        self.prompt_args = Some(args);
                        Vec::new()
                    },
                }
            },
            Tab::Test => {
                let cmd = &self.test_cmds[self.test_sel];
                let args = cmd.args.clone();
                assert(views(args@) =~= views(cmd.args@)) by {
                    assert forall|i: int| 0 <= i < args@.len() implies args@[i] == cmd.args@[i] by {
                        assert(cloned::<String>(cmd.args@[i], args@[i]));
                    }
                }
                match &cmd.prompt {
                    None => {
                        self.output.clear();
                        self.run_cargo(args)
                    },
                    Some(p) => {
                        self.prompt_label = p.clone();
                        self.prompt_text = String::new();
                        self.prompt_args = Some(args);
                        Vec::new()
                    },
                }
            },
            Tab::Crate => {
                if self.pkg_section == PkgSection::Search && self.pkg_sel_search < self.pkg_results.len() {
                    // Add to the currently selected dependency section.
                    let args = crate_args("add", self.pkg_add_kind, &self.pkg_results[self.pkg_sel_search].name);
                    return self.run_cargo(args);
                }
                Vec::new()
            },
        }
    }
}

impl App {
    // ── Event handler ─────────────────────────────────────────

    /// Handles an event and returns the outside work it calls for.
    pub fn handle(&mut self, event: Event) -> (acts: Vec<Action>)
        requires
            old(self).wf(),
            match event {
                Event::SearchResult(rs) => rs@.len() <= max_list(),
                _ => true,
            },
        ensures
            handled(*old(self), event, *final(self), action_views(acts@)),
            final(self).wf(),
    {
        match event {
            Event::Tick => no_actions(),
            Event::Runner(RunnerEvent::Line(line)) => {
                self.handle_line(line);
                no_actions()
            },
            Event::Runner(RunnerEvent::Exit(code)) => {
                self.handle_exit(code);
                let mut acts = no_actions();
                if self.finished_manifest_edit() {
                    acts.push(Action::ReloadDeps);
                    assert(action_views(acts@) =~= seq![ActionView::ReloadDeps]);
                }
                acts
            },
            Event::SearchResult(results) => {
                self.pkg_loading = false;
                self.pkg_sel_search = 0;
                self.pkg_detail_srch = None;
                let mut acts = no_actions();
                if results.len() > 0 {
                    let first = &results[0];
                    acts.push(self.fetch_detail(first.name.clone(), first.version.clone(), true));
                    assert(action_views(acts@) =~= seq![ActionView::FetchDetail(results@[0].name@, results@[0].version@, true)]);
                }
                self.pkg_results = results;
                acts
            },
            Event::DetailResult(is_search, detail) => {
                if is_search {
                    self.pkg_detail_srch = Some(detail);
                } else {
                    self.pkg_detail_inst = Some(detail);
                }
                Vec::new()
            },
            Event::Key(key) => self.handle_key(key),
        }
    }

    /// Records an output line of the running process.
    fn handle_line(&mut self, line: String)
        requires
            old(self).wf(),
        ensures
            handled(*old(self), Event::Runner(RunnerEvent::Line(line)), *final(self), Seq::empty()),
            final(self).wf(),
    {
        // Parse test results from cargo test output
        if self.tab == Tab::Test {
            if let Some(r) = parse_test_line(line.as_str()) {
                let ghost before = self.test_results@;
                self.test_results.push(r);
                assert(result_views(self.test_results@) =~= result_views(before).push(test_line(line@).unwrap()));
            }
        }
        let ghost before = self.output@;
        self.output.push(line);
        assert(views(self.output@) =~= views(before).push(line@));
    }

    /// Whether the last command started adds or removes a dependency.
    fn finished_manifest_edit(&self) -> (res: bool)
        ensures
            res == edits_manifest(self.last_args),
    {
        match &self.last_args {
            Some(a) => {
                if a.len() == 0 {
                    return false;
                }
                let first = chars_of(a[0].as_str());
                crate::workspace::chars_equal(&first, &chars_of("add")) || crate::workspace::chars_equal(
                    &first,
                    &chars_of("remove"),
                )
            },
            None => false,
        }
    }

    /// Replaces the installed list with a freshly read one.
    pub fn set_deps(&mut self, deps: Vec<Dep>) -> (acts: Vec<Action>)
        requires
            old(self).wf(),
            deps@.len() <= max_list(),
        ensures
            deps_replaced(*old(self), deps, *final(self), action_views(acts@)),
            final(self).wf(),
    {
        let n = deps.len();
        let sel: usize = if self.pkg_sel_inst < n {
            self.pkg_sel_inst
        } else if n > 0 {
            n - 1
        } else {
            0
        };
        let mut acts = no_actions();
        if n > 0 {
            let d = &deps[sel];
            acts.push(Action::FetchDetail { name: d.name.clone(), version: d.version.clone(), is_search: false });
            assert(action_views(acts@) =~= seq![ActionView::FetchDetail(deps@[sel as int].name@, deps@[sel as int].version@, false)]);
        }
        self.pkg_deps = deps;
        self.pkg_sel_inst = sel;
        self.pkg_detail_inst = None;
        acts
    }

    /// Records the exit of the running process.
    fn handle_exit(&mut self, code: i32)
        requires
            old(self).wf(),
        ensures
            post_exit(*old(self), code, *final(self)),
            final(self).wf(),
    {
        self.running = false;
        self.can_kill = false;
        let mut text = if code == 0 { string_of("  ✓") } else { string_of("  ✗") };
        push_str(&mut text, " exit code: ");
        let digits = signed_decimal_string(code);
        push_str(&mut text, digits.as_str());
        let ghost before = self.output@;
        self.output.push(String::new());
        self.output.push(text);
        proof {
            reveal_strlit("  ✓");
            reveal_strlit("  ✗");
            reveal_strlit("  ");
            reveal_strlit("✓");
            reveal_strlit("✗");
            assert("  ✓"@ =~= "  "@ + "✓"@);
            assert("  ✗"@ =~= "  "@ + "✗"@);
        }
        assert(views(self.output@) =~= views(before).push(Seq::empty()).push(exit_line(code)));
    }

    /// Handles a key press.
    pub fn handle_key(&mut self, key: KeyEvent) -> (acts: Vec<Action>)
        requires
            old(self).wf(),
        ensures
            key_handled(*old(self), key, *final(self), action_views(acts@)),
            final(self).wf(),
    {
        assert(crate::config::CONTROL == 2u8);
        // Ctrl-C always kills or quits
        if (key.modifiers & crate::config::CONTROL) != 0 && key.code == KeyCode::Char('c') {
            if self.running {
                return self.kill();
            } else {
                self.quit = true;
                return Vec::new();
            }
        }
        if self.prompt_args.is_some() {
            self.handle_prompt_key(key)
        } else if self.pkg_search_mode {
            self.handle_search_key(key)
        } else {
            self.handle_normal_key(key)
        }
    }

    /// While a prompt is open: edit the input, run the waiting command on Enter.
    fn handle_prompt_key(&mut self, key: KeyEvent) -> (acts: Vec<Action>)
        requires
            old(self).wf(),
        ensures
            prompt_key_handled(*old(self), key, *final(self), action_views(acts@)),
            final(self).wf(),
    {
        match key.code {
            KeyCode::Esc => {
                self.prompt_args = None;
            },
            KeyCode::Enter => {
                let ghost pre = *self;
                let pending = self.prompt_args.take();
                match pending {
                    Some(mut args) => {
                        if self.prompt_text.as_str().is_empty() {
                            return Vec::new();
                        }
                        let input = self.prompt_text.clone();
                        let ghost before = views(args@);
                        args.push(input);
                        assert(views(args@) =~= before.push(pre.prompt_text@));
                        return self.run_cargo(args);
                    },
                    None => {},
                }
            },
            KeyCode::Backspace => {
                crate::text::pop_char(&mut self.prompt_text);
            },
            KeyCode::Char(c) => {
                crate::text::push_char(&mut self.prompt_text, c);
            },
            _ => {},
        }
        Vec::new()
    }

    /// In search mode: edit the query, run the search only on Enter.
    fn handle_search_key(&mut self, key: KeyEvent) -> (acts: Vec<Action>)
        requires
            old(self).wf(),
        ensures
            search_key_handled(*old(self), key, *final(self), action_views(acts@)),
            final(self).wf(),
    {
        match key.code {
            KeyCode::Esc => {
                self.pkg_search_mode = false;
            },
            KeyCode::Enter => {
                self.pkg_sel_search = 0;
                return self.trigger_search();
            },
            KeyCode::Backspace => {
                crate::text::pop_char(&mut self.pkg_query);
            },
            KeyCode::Up => {
                return self.move_search_sel(-1);
            },
            KeyCode::Down => {
                return self.move_search_sel(1);
            },
            KeyCode::Char(c) => {
                crate::text::push_char(&mut self.pkg_query, c);
            },
            _ => {},
        }
        Vec::new()
    }

    fn handle_normal_key(&mut self, key: KeyEvent) -> (acts: Vec<Action>)
        requires
            old(self).wf(),
        ensures
            normal_key_handled(*old(self), key, *final(self), action_views(acts@)),
            final(self).wf(),
    {
        let k = self.key;

        // Quit (Esc always works as a fallback)
        if k.quit.matches(&key) || key.code == KeyCode::Esc {
            self.quit = true;
            return Vec::new();
        }

        // Tab switching
        if k.tab_1.matches(&key) {
            self.switch_tab(Tab::BuildRun);
            return Vec::new();
        }
        if k.tab_2.matches(&key) {
            self.switch_tab(Tab::Crate);
            return Vec::new();
        }
        if k.tab_3.matches(&key) {
            self.switch_tab(Tab::Test);
            return Vec::new();
        }
        if k.tab_next.matches(&key) {
            self.next_tab();
            return Vec::new();
        }
        if k.tab_prev.matches(&key) {
            self.prev_tab();
            return Vec::new();
        }

        // Right-pane scroll mode: hjkl (and arrows) scroll the Output/Description.
        if self.focus == Focus::Right {
            if self.handle_right_pane_key(key) {
                return Vec::new();
            }
            // Any other key falls through to the shared handlers below.
        } else if k.focus_right.matches(&key) || key.code == KeyCode::Right {
            self.focus_right();
            return Vec::new();
        }
        self.handle_list_key(key)
    }

    /// Scrolls the focused right pane if the key is one of its keys; says whether it was.
    fn handle_right_pane_key(&mut self, key: KeyEvent) -> (taken: bool)
        requires
            old(self).wf(),
        ensures
            taken == right_pane_key(old(self).key, key),
            taken ==> right_pane_handled(*old(self), key, *final(self)),
            !taken ==> *final(self) == *old(self),
            final(self).wf(),
    {
        let k = self.key;
        if k.down.matches(&key) || key.code == KeyCode::Down {
            self.scroll_v(1);
            return true;
        }
        if k.up.matches(&key) || key.code == KeyCode::Up {
            self.scroll_v(-1);
            return true;
        }
        if k.focus_right.matches(&key) || key.code == KeyCode::Right {
            self.h_scroll = if self.h_scroll < 0xffff { self.h_scroll + 1 } else { self.h_scroll };
            return true;
        }
        if k.focus_left.matches(&key) || key.code == KeyCode::Left {
            // Scroll left; once at the left edge, hand focus back to the list.
            if self.h_scroll > 0 {
                self.h_scroll = self.h_scroll - 1;
            } else {
                self.focus = Focus::Left;
            }
            return true;
        }
        false
    }

    fn handle_list_key(&mut self, key: KeyEvent) -> (acts: Vec<Action>)
        requires
            old(self).wf(),
        ensures
            list_key_handled(*old(self), key, *final(self), action_views(acts@)),
            final(self).wf(),
    {
        let k = self.key;
        // Navigation (arrow keys always work)
        if k.down.matches(&key) || key.code == KeyCode::Down {
            return self.move_sel(1);
        }
        if k.up.matches(&key) || key.code == KeyCode::Up {
            return self.move_sel(-1);
        }

        // Run / re-run / kill
        if k.run.matches(&key) {
            return self.do_run();
        }
        if k.rerun.matches(&key) {
            match &self.last_args {
                Some(a) => {
                    let args = a.clone();
                    assert(views(args@) =~= views(a@)) by {
                        assert forall|i: int| 0 <= i < args@.len() implies args@[i] == a@[i] by {
                            assert(cloned::<String>(a@[i], args@[i]));
                        }
                    }
                    self.output.clear();
                    return self.run_cargo(args);
                },
                None => {
                    return Vec::new();
                },
            }
        }
        if k.kill.matches(&key) {
            return self.kill();
        }

        // Crate tab actions
        if self.tab == Tab::Crate {
            if k.pkg_toggle.matches(&key) {
                self.pkg_section = match self.pkg_section {
                    PkgSection::Installed => PkgSection::Search,
                    PkgSection::Search => PkgSection::Installed,
                };
                return Vec::new();
            }
            if k.pkg_search.matches(&key) {
                self.pkg_search_mode = true;
                self.pkg_section = PkgSection::Search;
                return Vec::new();
            }
            // Cycle the target dependency section for adding crates.
            if k.pkg_profile.matches(&key) {
                self.pkg_add_kind = match self.pkg_add_kind {
                    DepKind::Normal => DepKind::Dev,
                    DepKind::Dev => DepKind::Build,
                    DepKind::Build => DepKind::Normal,
                };
                return Vec::new();
            }
            if k.pkg_remove.matches(&key) && self.pkg_section == PkgSection::Installed {
                if self.pkg_sel_inst < self.pkg_deps.len() {
                    // Remove from the section the crate actually lives in.
                    let d = &self.pkg_deps[self.pkg_sel_inst];
                    let args = crate_args("remove", d.kind, &d.name);
                    return self.run_cargo(args);
                }
                return Vec::new();
            }
        }
        Vec::new()
    }
}

/// The Build/Run list is never empty and, for a bounded number of targets, short enough to select in.
pub proof fn lemma_build_run_len(ts: Seq<TargetView>)
    requires
        ts.len() <= 1_000_000_000,
    ensures
        10 <= build_run_list(ts).len() <= 2 * ts.len() + 11,
{
    lemma_of_kind_len(ts);
}

/// Binaries and examples together are no more than the targets.
pub proof fn lemma_of_kind_len(ts: Seq<TargetView>)
    ensures
        of_kind(ts, RunKind::Bin).len() + of_kind(ts, RunKind::Example).len() <= ts.len(),
    decreases ts.len(),
{
    if ts.len() > 0 {
        lemma_of_kind_len(ts.drop_last());
    }
}

// ── Laws ──────────────────────────────────────────────────────

/// Going to the next tab and then to the previous one returns to the tab one
/// started on, and the other way round.
pub proof fn law_tab_cycle(pre: App, mid: App, post: App)
    ensures
        tab_switched(pre, next_tab_of(pre.tab), mid) && tab_switched(mid, prev_tab_of(mid.tab), post) ==> post.tab == pre.tab,
        tab_switched(pre, prev_tab_of(pre.tab), mid) && tab_switched(mid, next_tab_of(mid.tab), post) ==> post.tab == pre.tab,
{
}

/// Cycling to the next tab three times returns to the first.
pub proof fn law_next_tab_period(t: Tab)
    ensures
        next_tab_of(next_tab_of(next_tab_of(t))) == t,
        prev_tab_of(prev_tab_of(prev_tab_of(t))) == t,
{
}

/// Toggling the Crate tab's list twice returns to the list one started on.
pub proof fn law_toggle_twice(s: PkgSection)
    ensures
        toggled(toggled(s)) == s,
        toggled(s) != s,
{
}

/// Cycling the section crates are added to visits normal, dev and build in turn
/// and returns after three steps.
pub proof fn law_add_kind_cycle(k: DepKind)
    ensures
        next_kind(next_kind(next_kind(k))) == k,
        next_kind(k) != k,
{
}

/// Whether a key press is taken, outside prompt and query editing, by a binding
/// looked at before the section key of the Crate tab.
pub open spec fn claimed_before_profile(k: KeyConfig, key: KeyEvent) -> bool {
    ||| ((key.modifiers & 2u8) != 0 && key.code == KeyCode::Char('c'))
    ||| binding_matches(k.quit, key) || key.code == KeyCode::Esc
    ||| binding_matches(k.tab_1, key) || binding_matches(k.tab_2, key) || binding_matches(k.tab_3, key)
    ||| binding_matches(k.tab_next, key) || binding_matches(k.tab_prev, key)
    ||| right_pane_key(k, key)
    ||| binding_matches(k.run, key) || binding_matches(k.rerun, key) || binding_matches(k.kill, key)
    ||| binding_matches(k.pkg_toggle, key) || binding_matches(k.pkg_search, key)
}

/// On the Crate tab the section key moves the section crates are added to on
/// to the next one (normal, dev, build, normal, …; see `law_add_kind_cycle`) and
/// changes nothing else, unless a binding looked at first claims the key.
pub proof fn law_profile_key_cycles(pre: App, key: KeyEvent, post: App, acts: Seq<ActionView>)
    requires
        !pre.pkg_search_mode,
        pre.prompt_args is None,
        pre.tab == Tab::Crate,
        binding_matches(pre.key.pkg_profile, key),
        !claimed_before_profile(pre.key, key),
        key_handled(pre, key, post, acts),
    ensures
        post == (App { pkg_add_kind: next_kind(pre.pkg_add_kind), ..pre }),
        acts.len() == 0,
{
}

/// Switching tabs always leaves focus on the list, scrolled to the top left,
/// with empty output.
pub proof fn law_switch_resets_view(pre: App, tab: Tab, post: App)
    requires
        tab_switched(pre, tab, post),
    ensures
        post.tab == tab,
        post.focus == Focus::Left,
        post.v_scroll == 0 && post.h_scroll == 0,
        post.output@.len() == 0,
        post.test_results@.len() == 0,
{
}

/// Vertical scrolling never goes past the tail of the right pane's content.
pub proof fn law_scroll_within_content(pre: App, delta: int, post: App)
    requires
        v_scrolled(pre, delta, post),
    ensures
        post.v_scroll <= scroll_limit(pre),
        post.v_scroll == if pre.v_scroll + delta < 0 {
            0
        } else if pre.v_scroll + delta > scroll_limit(pre) {
            scroll_limit(pre) as int
        } else {
            pre.v_scroll + delta
        },
{
}

/// Focusing the right pane starts at the tail of its content, where one more
/// step down changes nothing.
pub proof fn law_focus_starts_at_tail(pre: App, mid: App, post: App)
    requires
        focused_right(pre, mid),
        v_scrolled(mid, 1, post),
    ensures
        mid.v_scroll == scroll_limit(pre),
        post.v_scroll == mid.v_scroll,
        post.focus == Focus::Right,
{
}

/// A started command is what re-running starts again: the arguments are kept,
/// and the spawn asked for carries them.
pub proof fn law_started_command_is_kept(pre: App, args: Seq<Seq<char>>, post: App, acts: Seq<ActionView>)
    requires
        cargo_started(pre, args, post, acts),
    ensures
        post.running,
        post.can_kill,
        post.last_args matches Some(a) && views(a@) == args,
        acts.last() == ActionView::Spawn(args),
        acts.len() == if pre.can_kill { 2nat } else { 1nat },
{
}

/// The placeholder of a project without binaries never starts a process.
pub proof fn law_placeholder_never_runs(pre: App, post: App, acts: Seq<ActionView>)
    requires
        pre.tab == Tab::BuildRun,
        pre.build_run_cmds@[pre.br_sel as int]@.1.len() > 0,
        pre.build_run_cmds@[pre.br_sel as int]@.1[0] == "__nobin__"@,
        ran(pre, post, acts),
    ensures
        acts.len() == 0,
        !post.running || pre.running,
        views(post.output@) == no_bin_lines(),
{
}

/// An open prompt is closed by Esc without running anything, and Enter runs
/// the waiting command with the input added as its last argument.
pub proof fn law_prompt_adds_input(pre: App, key: KeyEvent, post: App, acts: Seq<ActionView>)
    requires
        pre.prompt_args is Some,
        key.code == KeyCode::Esc || key.code == KeyCode::Enter,
        key_handled(pre, key, post, acts),
    ensures
        post.prompt_args is None,
        key.code == KeyCode::Esc ==> acts.len() == 0 && post.quit == pre.quit,
        key.code == KeyCode::Enter && pre.prompt_text@.len() > 0 ==> acts.last() == ActionView::Spawn(
            views(pre.prompt_args.unwrap()@).push(pre.prompt_text@),
        ),
{
}

/// Outside query and prompt editing, Esc always quits (unless it comes with
/// Ctrl and is the `c` key, which it cannot be).
pub proof fn law_esc_quits(pre: App, key: KeyEvent, post: App, acts: Seq<ActionView>)
    requires
        !pre.pkg_search_mode,
        pre.prompt_args is None,
        key.code == KeyCode::Esc,
        key_handled(pre, key, post, acts),
    ensures
        post.quit,
        acts.len() == 0,
{
}

/// Ctrl+C stops a running process, and quits when none runs.
pub proof fn law_ctrl_c(pre: App, key: KeyEvent, post: App, acts: Seq<ActionView>)
    requires
        key.code == KeyCode::Char('c'),
        (key.modifiers & 2u8) != 0,
        key_handled(pre, key, post, acts),
    ensures
        pre.running ==> !post.quit || pre.quit,
        pre.running && pre.can_kill ==> acts == seq![ActionView::Kill] && !post.can_kill,
        !pre.running ==> post.quit && acts.len() == 0,
{
}

/// The arrow keys always move the selection of the list, in addition to the
/// configured keys, unless a binding that is looked at first claims them.
pub proof fn law_arrow_keys_move_selection(pre: App, down: bool, post: App, acts: Seq<ActionView>)
    requires
        !pre.pkg_search_mode,
        pre.prompt_args is None,
        pre.focus == Focus::Left,
        ({
            let key = KeyEvent { code: if down { KeyCode::Down } else { KeyCode::Up }, modifiers: 0 };
            &&& !binding_matches(pre.key.quit, key)
            &&& !binding_matches(pre.key.tab_1, key)
            &&& !binding_matches(pre.key.tab_2, key)
            &&& !binding_matches(pre.key.tab_3, key)
            &&& !binding_matches(pre.key.tab_next, key)
            &&& !binding_matches(pre.key.tab_prev, key)
            &&& !binding_matches(pre.key.focus_right, key)
            &&& !down ==> !binding_matches(pre.key.down, key)
            &&& key_handled(pre, key, post, acts)
        }),
    ensures
        sel_moved(pre, if down { 1 } else { -1 }, post, acts),
{
}

/// When a command that adds or removes a dependency ends, the installed list
/// is read again; when any other command ends, nothing more is asked for.
pub proof fn law_manifest_edit_reloads(
    pre: App,
    args: Seq<Seq<char>>,
    mid: App,
    started: Seq<ActionView>,
    code: i32,
    post: App,
    acts: Seq<ActionView>,
)
    requires
        cargo_started(pre, args, mid, started),
        handled(mid, Event::Runner(RunnerEvent::Exit(code)), post, acts),
    ensures
        !post.running,
        acts == if args.len() > 0 && (args[0] == "add"@ || args[0] == "remove"@) {
            seq![ActionView::ReloadDeps]
        } else {
            Seq::<ActionView>::empty()
        },
{
    let a = mid.last_args.unwrap();
    assert(views(a@) == args);
    if args.len() > 0 {
        assert(a@[0]@ == args[0]);
    }
}

/// The Build/Run list always starts with the three build commands and ends
/// with the seven tool commands.
pub proof fn law_build_run_frame(ts: Seq<TargetView>)
    ensures
        build_run_list(ts).take(3) == build_rows(),
        build_run_list(ts).skip(build_run_list(ts).len() - 7) == tool_rows(),
{
    let l = build_run_list(ts);
    let bins = of_kind(ts, RunKind::Bin);
    let examples = of_kind(ts, RunKind::Example);
    let mid = run_rows(bins, examples) + examples.map_values(|e: TargetView| example_row(e))
        + examples.map_values(|e: TargetView| example_release_row(e));
    assert(l =~= build_rows() + mid + tool_rows());
    assert(l.take(3) =~= build_rows());
    assert(l.skip(l.len() - 7) =~= tool_rows());
}

/// The number of RUN rows: the placeholder alone when nothing is runnable, none
/// when there are only examples, and two per binary otherwise.
pub open spec fn run_row_count(bins: nat, examples: nat) -> nat {
    if bins == 0 {
        if examples == 0 {
            1
        } else {
            0
        }
    } else {
        2 * bins
    }
}

/// Every target is a binary or an example, so the two kinds together are all targets.
pub proof fn lemma_of_kind_split(ts: Seq<TargetView>)
    ensures
        of_kind(ts, RunKind::Bin).len() + of_kind(ts, RunKind::Example).len() == ts.len(),
    decreases ts.len(),
{
    if ts.len() > 0 {
        lemma_of_kind_split(ts.drop_last());
    }
}

/// The targets of a kind are targets of that kind, in the order of the list.
pub proof fn lemma_of_kind_members(ts: Seq<TargetView>, k: RunKind)
    ensures
        forall|j: int| 0 <= j < of_kind(ts, k).len() ==> (#[trigger] of_kind(ts, k)[j]).2 == k,
        forall|j: int| 0 <= j < of_kind(ts, k).len() ==> exists|m: int| 0 <= m < ts.len() && ts[m] == #[trigger] of_kind(ts, k)[j],
    decreases ts.len(),
{
    if ts.len() > 0 {
        let init = ts.drop_last();
        lemma_of_kind_members(init, k);
        let o = of_kind(ts, k);
        let oi = of_kind(init, k);
        assert forall|j: int| 0 <= j < o.len() implies (#[trigger] o[j]).2 == k && exists|m: int| 0 <= m < ts.len() && ts[m] == o[j] by {
            if j < oi.len() {
                assert(o[j] == oi[j]);
                let m = choose|m: int| 0 <= m < init.len() && init[m] == #[trigger] oi[j];
                assert(ts[m] == init[m]);
            } else {
                assert(o[j] == ts.last());
                assert(ts[ts.len() - 1] == o[j]);
            }
        }
    }
}

/// The Build/Run list in its sections: three BUILD rows, then the RUN rows (one
/// row per binary and then one release row per binary when there are several,
/// in target order), then two EXAMPLES rows per example (one per example, then
/// one release row per example, in target order), then the seven TOOLS rows;
/// each section is one contiguous run.
pub proof fn law_build_run_sections(ts: Seq<TargetView>)
    ensures
        ({
            let l = build_run_list(ts);
            let bins = of_kind(ts, RunKind::Bin);
            let ex = of_kind(ts, RunKind::Example);
            let r = run_row_count(bins.len(), ex.len()) as int;
            let e = 3 + r;
            let t = e + 2 * ex.len();
            &&& l.len() == t + 7
            &&& forall|i: int| 0 <= i < 3 ==> (#[trigger] l[i]).3 == "BUILD"@
            &&& forall|i: int| 3 <= i < e ==> (#[trigger] l[i]).3 == "RUN"@
            &&& forall|i: int| e <= i < t ==> (#[trigger] l[i]).3 == "EXAMPLES"@
            &&& forall|i: int| t <= i < l.len() ==> (#[trigger] l[i]).3 == "TOOLS"@
            &&& forall|k: int| 0 <= k < ex.len() ==> l[e + k] == example_row(#[trigger] ex[k])
            &&& forall|k: int| 0 <= k < ex.len() ==> l[e + ex.len() + k] == example_release_row(#[trigger] ex[k])
            &&& bins.len() >= 2 ==> forall|k: int| 0 <= k < bins.len() ==> l[3 + k] == bin_row(#[trigger] bins[k])
            &&& bins.len() >= 2 ==> forall|k: int| 0 <= k < bins.len() ==> l[3 + bins.len() + k] == bin_release_row(#[trigger] bins[k])
        }),
{
    let l = build_run_list(ts);
    let bins = of_kind(ts, RunKind::Bin);
    let ex = of_kind(ts, RunKind::Example);
    let rr = run_rows(bins, ex);
    let a = ex.map_values(|x: TargetView| example_row(x));
    let b = ex.map_values(|x: TargetView| example_release_row(x));
    let r = run_row_count(bins.len(), ex.len()) as int;
    let e = 3 + r;
    let t = e + 2 * ex.len();
    assert(rr.len() == r);
    assert(l =~= build_rows() + rr + a + b + tool_rows());
    assert forall|i: int| 0 <= i < 3 implies (#[trigger] l[i]).3 == "BUILD"@ by {
        assert(l[i] == build_rows()[i]);
    }
    assert forall|i: int| 3 <= i < e implies (#[trigger] l[i]).3 == "RUN"@ by {
        assert(l[i] == rr[i - 3]);
        if bins.len() >= 2 {
            if i - 3 < bins.len() {
                assert(rr[i - 3] == bin_row(bins[i - 3]));
            } else {
                assert(rr[i - 3] == bin_release_row(bins[i - 3 - bins.len()]));
            }
        }
    }
    assert forall|i: int| e <= i < t implies (#[trigger] l[i]).3 == "EXAMPLES"@ by {
        if i < e + ex.len() {
            assert(l[i] == a[i - e]);
        } else {
            assert(l[i] == b[i - e - ex.len()]);
        }
    }
    assert forall|i: int| t <= i < l.len() implies (#[trigger] l[i]).3 == "TOOLS"@ by {
        assert(l[i] == tool_rows()[i - t]);
    }
    assert forall|k: int| 0 <= k < ex.len() implies l[e + k] == example_row(#[trigger] ex[k]) by {
        assert(l[e + k] == a[k]);
    }
    assert forall|k: int| 0 <= k < ex.len() implies l[e + ex.len() + k] == example_release_row(#[trigger] ex[k]) by {
        assert(l[e + ex.len() + k] == b[k]);
    }
    if bins.len() >= 2 {
        assert forall|k: int| 0 <= k < bins.len() implies l[3 + k] == bin_row(#[trigger] bins[k]) by {
            assert(l[3 + k] == rr[k]);
        }
        assert forall|k: int| 0 <= k < bins.len() implies l[3 + bins.len() + k] == bin_release_row(#[trigger] bins[k]) by {
            assert(l[3 + bins.len() + k] == rr[bins.len() + k]);
        }
    }
}

/// Whether `args` ends by naming target `t`: `--bin NAME` for a binary,
/// `--example NAME` for an example, and, when `with_package`, `-p PACKAGE` just before.
pub open spec fn runs_target(args: Seq<Seq<char>>, t: TargetView, with_package: bool) -> bool {
    let n = args.len();
    &&& n >= 3
    &&& args[n - 2] == (if t.2 == RunKind::Bin { "--bin"@ } else { "--example"@ })
    &&& args[n - 1] == t.1
    &&& with_package ==> n >= 5 && args[n - 4] == "-p"@ && args[n - 3] == t.0
}

/// The first words of the commands differ from `run` and from the placeholder's.
proof fn lemma_first_words_differ()
    ensures
        "build"@ != "run"@,
        "fmt"@ != "run"@,
        "clippy"@ != "run"@,
        "check"@ != "run"@,
        "clean"@ != "run"@,
        "doc"@ != "run"@,
        "publish"@ != "run"@,
        "__nobin__"@ != "run"@,
        "build"@ != "__nobin__"@,
        "fmt"@ != "__nobin__"@,
        "clippy"@ != "__nobin__"@,
        "check"@ != "__nobin__"@,
        "clean"@ != "__nobin__"@,
        "doc"@ != "__nobin__"@,
        "publish"@ != "__nobin__"@,
{
    reveal_strlit("build");
    reveal_strlit("run");
    reveal_strlit("fmt");
    reveal_strlit("clippy");
    reveal_strlit("check");
    reveal_strlit("clean");
    reveal_strlit("doc");
    reveal_strlit("publish");
    reveal_strlit("__nobin__");
    assert("fmt"@[0] != "run"@[0]);
    assert("build"@.len() != "run"@.len());
    assert("clippy"@.len() != "run"@.len());
    assert("check"@.len() != "run"@.len());
    assert("clean"@.len() != "run"@.len());
    assert("doc"@[0] != "run"@[0]);
    assert("publish"@.len() != "run"@.len());
    assert("__nobin__"@.len() != "run"@.len());
    assert("build"@.len() != "__nobin__"@.len());
    assert("fmt"@.len() != "__nobin__"@.len());
    assert("clippy"@.len() != "__nobin__"@.len());
    assert("check"@.len() != "__nobin__"@.len());
    assert("clean"@.len() != "__nobin__"@.len());
    assert("doc"@.len() != "__nobin__"@.len());
    assert("publish"@.len() != "__nobin__"@.len());
}

/// The row at `i` of the Build/Run list, if it runs something, names a target.
proof fn lemma_run_row_names_target(ts: Seq<TargetView>, i: int)
    requires
        0 <= i < build_run_list(ts).len(),
        build_run_list(ts)[i].1.len() > 0,
        build_run_list(ts)[i].1[0] == "run"@,
    ensures
        exists|m: int|
            0 <= m < ts.len() && runs_target(
                build_run_list(ts)[i].1,
                ts[m],
                of_kind(ts, RunKind::Bin).len() >= 2 || ts[m].2 == RunKind::Example,
            ),
{
    let l = build_run_list(ts);
    let bins = of_kind(ts, RunKind::Bin);
    let ex = of_kind(ts, RunKind::Example);
    let rr = run_rows(bins, ex);
    let a = ex.map_values(|x: TargetView| example_row(x));
    let b = ex.map_values(|x: TargetView| example_release_row(x));
    let e = 3 + rr.len();
    let t = e + 2 * ex.len();
    lemma_first_words_differ();
    assert(l =~= build_rows() + rr + a + b + tool_rows());
    if i < 3 {
        assert(l[i] == build_rows()[i]);
    } else if i < e {
        assert(l[i] == rr[i - 3]);
        if bins.len() == 0 {
            assert(rr[i - 3] == plain("run (no binary target)"@, seq!["__nobin__"@], "RUN"@));
        } else {
            lemma_of_kind_members(ts, RunKind::Bin);
            let k = if bins.len() == 1 { 0 } else if i - 3 < bins.len() { i - 3 } else { i - 3 - bins.len() };
            assert(0 <= k < bins.len());
            let m = choose|m: int| 0 <= m < ts.len() && ts[m] == #[trigger] bins[k];
            assert(bins[k].2 == RunKind::Bin);
            if bins.len() >= 2 {
                if i - 3 < bins.len() {
                    assert(rr[i - 3] == bin_row(bins[k]));
                } else {
                    assert(rr[i - 3] == bin_release_row(bins[k]));
                }
            }
            assert(runs_target(l[i].1, ts[m], bins.len() >= 2 || ts[m].2 == RunKind::Example));
        }
    } else if i < t {
        lemma_of_kind_members(ts, RunKind::Example);
        let k = if i < e + ex.len() { i - e } else { i - e - ex.len() };
        assert(0 <= k < ex.len());
        let m = choose|m: int| 0 <= m < ts.len() && ts[m] == #[trigger] ex[k];
        assert(ex[k].2 == RunKind::Example);
        if i < e + ex.len() {
            assert(l[i] == a[k]);
        } else {
            assert(l[i] == b[k]);
        }
        assert(runs_target(l[i].1, ts[m], true));
    } else {
        assert(l[i] == tool_rows()[i - t]);
    }
}

/// Every row that runs something names one of the targets, with its kind:
/// `--bin NAME` or `--example NAME`, and `-p PACKAGE` before it whenever there
/// are several binaries or it is an example. So `cargo run` is never left to
/// guess a target.
pub proof fn law_run_rows_name_targets(ts: Seq<TargetView>)
    ensures
        forall|i: int|
            0 <= i < build_run_list(ts).len() && (#[trigger] build_run_list(ts)[i]).1.len() > 0
                && build_run_list(ts)[i].1[0] == "run"@ ==> exists|m: int|
                0 <= m < ts.len() && runs_target(
                    build_run_list(ts)[i].1,
                    ts[m],
                    of_kind(ts, RunKind::Bin).len() >= 2 || ts[m].2 == RunKind::Example,
                ),
{
    assert forall|i: int|
        0 <= i < build_run_list(ts).len() && (#[trigger] build_run_list(ts)[i]).1.len() > 0
            && build_run_list(ts)[i].1[0] == "run"@ implies exists|m: int|
            0 <= m < ts.len() && runs_target(
                build_run_list(ts)[i].1,
                ts[m],
                of_kind(ts, RunKind::Bin).len() >= 2 || ts[m].2 == RunKind::Example,
            ) by {
        lemma_run_row_names_target(ts, i);
    }
}

/// A row carrying the placeholder's arguments is the placeholder, right after
/// the BUILD rows, and there are no targets.
proof fn lemma_placeholder_row(ts: Seq<TargetView>, i: int)
    requires
        0 <= i < build_run_list(ts).len(),
        build_run_list(ts)[i].1 == seq!["__nobin__"@],
    ensures
        i == 3,
        build_run_list(ts)[i] == plain("run (no binary target)"@, seq!["__nobin__"@], "RUN"@),
        ts.len() == 0,
{
    let l = build_run_list(ts);
    let bins = of_kind(ts, RunKind::Bin);
    let ex = of_kind(ts, RunKind::Example);
    let rr = run_rows(bins, ex);
    let a = ex.map_values(|x: TargetView| example_row(x));
    let b = ex.map_values(|x: TargetView| example_release_row(x));
    let e = 3 + rr.len();
    let t = e + 2 * ex.len();
    lemma_first_words_differ();
    lemma_of_kind_split(ts);
    assert(l =~= build_rows() + rr + a + b + tool_rows());
    assert(l[i].1[0] == "__nobin__"@);
    if i < 3 {
        assert(l[i] == build_rows()[i]);
    } else if i < e {
        assert(l[i] == rr[i - 3]);
        if bins.len() == 0 {
            assert(rr[i - 3] == plain("run (no binary target)"@, seq!["__nobin__"@], "RUN"@));
        } else if bins.len() >= 2 {
            if i - 3 < bins.len() {
                assert(l[i] == bin_row(bins[i - 3]));
            } else {
                assert(l[i] == bin_release_row(bins[i - 3 - bins.len()]));
            }
        }
    } else if i < e + ex.len() {
        assert(l[i] == a[i - e]);
    } else if i < t {
        assert(l[i] == b[i - e - ex.len()]);
    } else {
        assert(l[i] == tool_rows()[i - t]);
    }
}

/// The "nothing to run" placeholder is in the list exactly when there are no
/// targets at all, and then only once: the RUN row right after the BUILD rows.
pub proof fn law_placeholder_exactly_without_targets(ts: Seq<TargetView>)
    ensures
        (exists|i: int| 0 <= i < build_run_list(ts).len() && (#[trigger] build_run_list(ts)[i]).1 == seq!["__nobin__"@])
            <==> ts.len() == 0,
        forall|i: int|
            0 <= i < build_run_list(ts).len() && (#[trigger] build_run_list(ts)[i]).1 == seq!["__nobin__"@] ==> i == 3
                && build_run_list(ts)[i] == plain("run (no binary target)"@, seq!["__nobin__"@], "RUN"@),
{
    let l = build_run_list(ts);
    assert forall|i: int| 0 <= i < l.len() && (#[trigger] l[i]).1 == seq!["__nobin__"@] implies i == 3
        && l[i] == plain("run (no binary target)"@, seq!["__nobin__"@], "RUN"@) && ts.len() == 0 by {
        lemma_placeholder_row(ts, i);
    }
    if ts.len() == 0 {
        let bins = of_kind(ts, RunKind::Bin);
        let ex = of_kind(ts, RunKind::Example);
        let rr = run_rows(bins, ex);
        assert(l =~= build_rows() + rr + ex.map_values(|x: TargetView| example_row(x)) + ex.map_values(
            |x: TargetView| example_release_row(x),
        ) + tool_rows());
        assert(l[3] == rr[0]);
        assert(l[3].1 == seq!["__nobin__"@]);
    }
}

/// A `cargo test` output line reports a test exactly when it reads
/// `test NAME ... ok` (NAME passed) or `test NAME ... FAILED` (NAME failed);
/// any other line, such as `test NAME ... ignored`, reports none.
pub proof fn law_test_line_reports(line: Seq<char>, name: Seq<char>)
    ensures
        test_line(line) matches Some((n, ok)) ==> line == "test "@ + n + (if ok { " ... ok"@ } else { " ... FAILED"@ }),
        line == "test "@ + name + " ... ok"@ ==> test_line(line) == Some((name, true)),
        line == "test "@ + name + " ... FAILED"@ ==> test_line(line) == Some((name, false)),
{
    reveal_strlit("test ");
    reveal_strlit(" ... ok");
    reveal_strlit(" ... FAILED");
    if line.len() >= 5 && line.take(5) == "test "@ {
        let rest = line.skip(5);
        assert(line =~= line.take(5) + rest);
        if rest.len() >= 7 && rest.skip(rest.len() - 7) == " ... ok"@ {
            assert(rest =~= rest.take(rest.len() - 7) + rest.skip(rest.len() - 7));
        } else if rest.len() >= 11 && rest.skip(rest.len() - 11) == " ... FAILED"@ {
            assert(rest =~= rest.take(rest.len() - 11) + rest.skip(rest.len() - 11));
        }
    }
    if line == "test "@ + name + " ... ok"@ {
        let rest = line.skip(5);
        assert(line.take(5) =~= "test "@);
        assert(rest =~= name + " ... ok"@);
        assert(rest.skip(rest.len() - 7) =~= " ... ok"@);
        assert(rest.take(rest.len() - 7) =~= name);
    }
    if line == "test "@ + name + " ... FAILED"@ {
        let rest = line.skip(5);
        assert(line.take(5) =~= "test "@);
        assert(rest =~= name + " ... FAILED"@);
        assert(rest.skip(rest.len() - 11) =~= " ... FAILED"@);
        assert(rest.take(rest.len() - 11) =~= name);
        assert(rest.skip(rest.len() - 7)[1] == 'F');
        assert(" ... ok"@[1] == '.');
    }
}

/// The label of a row of the EXAMPLES section names the example the row runs:
/// `run --example NAME`, or `run --release --example NAME` for the release
/// row, where the row's arguments end with `--example NAME`.
pub proof fn law_example_rows_are_labelled(ts: Seq<TargetView>)
    ensures
        forall|i: int|
            0 <= i < build_run_list(ts).len() && (#[trigger] build_run_list(ts)[i]).3 == "EXAMPLES"@ ==> {
                let c = build_run_list(ts)[i];
                let a = c.1;
                &&& a.len() >= 5
                &&& a[a.len() - 2] == "--example"@
                &&& (a[1] == "--release"@ && c.0 == "run --release --example "@ + a.last())
                    || (a[1] != "--release"@ && c.0 == "run --example "@ + a.last())
            },
{
    assert forall|i: int|
        0 <= i < build_run_list(ts).len() && (#[trigger] build_run_list(ts)[i]).3 == "EXAMPLES"@ implies {
            let c = build_run_list(ts)[i];
            let a = c.1;
            &&& a.len() >= 5
            &&& a[a.len() - 2] == "--example"@
            &&& (a[1] == "--release"@ && c.0 == "run --release --example "@ + a.last())
                || (a[1] != "--release"@ && c.0 == "run --example "@ + a.last())
        } by {
        lemma_example_row_label(ts, i);
    }
}

/// The label of a row of the RUN section that runs something says what it
/// runs: `run` or `run --release` (as its arguments say), followed by the
/// binary's name when there are several binaries to choose from.
pub proof fn law_run_rows_are_labelled(ts: Seq<TargetView>)
    ensures
        forall|i: int|
            0 <= i < build_run_list(ts).len() && (#[trigger] build_run_list(ts)[i]).3 == "RUN"@
                && build_run_list(ts)[i].1[0] == "run"@ ==> {
                let c = build_run_list(ts)[i];
                let a = c.1;
                let stem = if a[1] == "--release"@ { "run --release"@ } else { "run"@ };
                &&& a.len() >= 3
                &&& a[a.len() - 2] == "--bin"@
                &&& c.0 == if of_kind(ts, RunKind::Bin).len() >= 2 { stem + " "@ + a.last() } else { stem }
            },
{
    assert forall|i: int|
        0 <= i < build_run_list(ts).len() && (#[trigger] build_run_list(ts)[i]).3 == "RUN"@
            && build_run_list(ts)[i].1[0] == "run"@ implies {
            let c = build_run_list(ts)[i];
            let a = c.1;
            let stem = if a[1] == "--release"@ { "run --release"@ } else { "run"@ };
            &&& a.len() >= 3
            &&& a[a.len() - 2] == "--bin"@
            &&& c.0 == if of_kind(ts, RunKind::Bin).len() >= 2 { stem + " "@ + a.last() } else { stem }
        } by {
        lemma_run_row_label(ts, i);
    }
}

proof fn lemma_run_row_label(ts: Seq<TargetView>, i: int)
    requires
        0 <= i < build_run_list(ts).len(),
        build_run_list(ts)[i].3 == "RUN"@,
        build_run_list(ts)[i].1[0] == "run"@,
    ensures
        ({
            let c = build_run_list(ts)[i];
            let a = c.1;
            let stem = if a[1] == "--release"@ { "run --release"@ } else { "run"@ };
            &&& a.len() >= 3
            &&& a[a.len() - 2] == "--bin"@
            &&& c.0 == if of_kind(ts, RunKind::Bin).len() >= 2 { stem + " "@ + a.last() } else { stem }
        }),
{
    let l = build_run_list(ts);
    let bins = of_kind(ts, RunKind::Bin);
    let ex = of_kind(ts, RunKind::Example);
    let rr = run_rows(bins, ex);
    let a = ex.map_values(|x: TargetView| example_row(x));
    let b = ex.map_values(|x: TargetView| example_release_row(x));
    let e = 3 + rr.len();
    let t = e + 2 * ex.len();
    lemma_section_names_differ();
    lemma_first_words_differ();
    reveal_strlit("run --release");
    reveal_strlit("run --release ");
    reveal_strlit("run ");
    reveal_strlit(" ");
    reveal_strlit("run");
    assert("run --release "@ =~= "run --release"@ + " "@);
    assert("run "@ =~= "run"@ + " "@);
    assert(l =~= build_rows() + rr + a + b + tool_rows());
    if i < 3 {
        assert(l[i] == build_rows()[i]);
    } else if i < e {
        assert(l[i] == rr[i - 3]);
        if bins.len() == 0 {
            assert(rr[i - 3] == plain("run (no binary target)"@, seq!["__nobin__"@], "RUN"@));
        } else if bins.len() >= 2 {
            if i - 3 < bins.len() {
                assert(rr[i - 3] == bin_row(bins[i - 3]));
            } else {
                assert(rr[i - 3] == bin_release_row(bins[i - 3 - bins.len()]));
            }
        }
    } else if i < e + ex.len() {
        assert(l[i] == a[i - e]);
    } else if i < t {
        assert(l[i] == b[i - e - ex.len()]);
    } else {
        assert(l[i] == tool_rows()[i - t]);
    }
}

/// The section names differ from one another, and `-p` differs from `--release`.
proof fn lemma_section_names_differ()
    ensures
        "EXAMPLES"@ != "BUILD"@,
        "EXAMPLES"@ != "RUN"@,
        "EXAMPLES"@ != "TOOLS"@,
        "RUN"@ != "BUILD"@,
        "RUN"@ != "TOOLS"@,
        "-p"@ != "--release"@,
        "--bin"@ != "--release"@,
{
    reveal_strlit("EXAMPLES");
    reveal_strlit("BUILD");
    reveal_strlit("RUN");
    reveal_strlit("TOOLS");
    reveal_strlit("-p");
    reveal_strlit("--release");
    assert("EXAMPLES"@.len() != "BUILD"@.len());
    assert("EXAMPLES"@.len() != "RUN"@.len());
    assert("EXAMPLES"@.len() != "TOOLS"@.len());
    assert("RUN"@.len() != "BUILD"@.len());
    assert("RUN"@.len() != "TOOLS"@.len());
    assert("-p"@.len() != "--release"@.len());
    reveal_strlit("--bin");
    assert("--bin"@.len() != "--release"@.len());
}

proof fn lemma_example_row_label(ts: Seq<TargetView>, i: int)
    requires
        0 <= i < build_run_list(ts).len(),
        build_run_list(ts)[i].3 == "EXAMPLES"@,
    ensures
        ({
            let c = build_run_list(ts)[i];
            let a = c.1;
            &&& a.len() >= 5
            &&& a[a.len() - 2] == "--example"@
            &&& (a[1] == "--release"@ && c.0 == "run --release --example "@ + a.last())
                || (a[1] != "--release"@ && c.0 == "run --example "@ + a.last())
        }),
{
    let l = build_run_list(ts);
    let bins = of_kind(ts, RunKind::Bin);
    let ex = of_kind(ts, RunKind::Example);
    let rr = run_rows(bins, ex);
    let a = ex.map_values(|x: TargetView| example_row(x));
    let b = ex.map_values(|x: TargetView| example_release_row(x));
    let e = 3 + rr.len();
    let t = e + 2 * ex.len();
    lemma_section_names_differ();
    assert(l =~= build_rows() + rr + a + b + tool_rows());
    if i < 3 {
        assert(l[i] == build_rows()[i]);
    } else if i < e {
        assert(l[i] == rr[i - 3]);
        if bins.len() >= 2 {
            if i - 3 < bins.len() {
                assert(rr[i - 3] == bin_row(bins[i - 3]));
            } else {
                assert(rr[i - 3] == bin_release_row(bins[i - 3 - bins.len()]));
            }
        }
    } else if i < e + ex.len() {
        assert(l[i] == example_row(ex[i - e]));
    } else if i < t {
        assert(l[i] == example_release_row(ex[i - e - ex.len()]));
    } else {
        assert(l[i] == tool_rows()[i - t]);
    }
}

/// The RUN placeholder appears exactly when there is nothing to run: no binary
/// and no example.
pub proof fn law_placeholder_iff_nothing_runnable(ts: Seq<TargetView>)
    ensures
        (build_run_list(ts)[3].1 == seq!["__nobin__"@]) <==> (of_kind(ts, RunKind::Bin).len() == 0 && of_kind(
            ts,
            RunKind::Example,
        ).len() == 0),
{
    let bins = of_kind(ts, RunKind::Bin);
    let examples = of_kind(ts, RunKind::Example);
    let l = build_run_list(ts);
    let rest = run_rows(bins, examples) + examples.map_values(|e: TargetView| example_row(e))
        + examples.map_values(|e: TargetView| example_release_row(e)) + tool_rows();
    assert(l =~= build_rows() + rest);
    assert(l[3] == rest[0]);
    reveal_strlit("__nobin__");
    reveal_strlit("run");
    reveal_strlit("fmt");
    if bins.len() == 0 && examples.len() == 0 {
        assert(rest[0] == plain("run (no binary target)"@, seq!["__nobin__"@], "RUN"@));
    } else if bins.len() == 0 {
        assert(rest[0] == example_row(examples[0]));
        assert(rest[0].1[0] == "run"@);
        assert(rest[0].1.len() == 5);
    } else if bins.len() == 1 {
        assert(rest[0].1[0] == "run"@);
        assert(rest[0].1.len() == 3);
    } else {
        assert(rest[0] == bin_row(bins[0]));
        assert(rest[0].1[0] == "run"@);
        assert(rest[0].1.len() == 5);
    }
}

} // verus!
