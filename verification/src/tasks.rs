//! The local checks: what `ci` runs, and how each step is reported.
use vstd::prelude::*;

use crate::args::texts;
use crate::number::{digits, push_decimal};
use crate::text::same_text;

verus! {

// ---------------------------------------------------------------------------
// Choosing a task
// ---------------------------------------------------------------------------

/// What the command line asks for.
#[derive(Debug)]
pub enum Task {
    /// All checks; the fast ones only, if asked for.
    Ci { fast: bool },
    /// The smoke tests.
    Smoke,
    /// There is no task of this name.
    Unknown(String),
}

/// The model of a `Task`.
pub enum TaskView {
    Ci { fast: bool },
    Smoke,
    Unknown(Seq<char>),
}

impl View for Task {
    type V = TaskView;

    open spec fn view(&self) -> TaskView {
        match *self {
            Task::Ci { fast } => TaskView::Ci { fast },
            Task::Smoke => TaskView::Smoke,
            Task::Unknown(name) => TaskView::Unknown(name@),
        }
    }
}

/// The first argument names the task, and `ci` is run where there is none.
/// `--fast` counts wherever it stands.
pub open spec fn task_named(argv: Seq<Seq<char>>) -> TaskView {
    let name = if argv.len() == 0 { "ci"@ } else { argv[0] };
    if name == "ci"@ {
        TaskView::Ci { fast: argv.contains("--fast"@) }
    } else if name == "smoke"@ {
        TaskView::Smoke
    } else {
        TaskView::Unknown(name)
    }
}

/// Finds out which task the command line asks for.
pub fn choose_task(argv: &[String]) -> (t: Task)
    ensures
        t@ == task_named(texts(argv@)),
{
    let ghost all = texts(argv@);
    let mut fast = false;
    for i in 0..argv.len()
        invariant
            all == texts(argv@),
            fast == exists|k: int| 0 <= k < i && #[trigger] all[k] == "--fast"@,
    {
        assert(all[i as int] == argv@[i as int]@);
        if same_text(argv[i].as_str(), "--fast") {
            fast = true;
        }
    }
    assert(fast == all.contains("--fast"@));
    if argv.len() == 0 {
        return Task::Ci { fast };
    }
    let name = argv[0].as_str();
    assert(all[0] == name@);
    if same_text(name, "ci") {
        Task::Ci { fast }
    } else if same_text(name, "smoke") {
        Task::Smoke
    } else {
        Task::Unknown(name.to_owned())
    }
}

/// What is said of a task that does not exist.
pub open spec fn unknown_task_text(name: Seq<char>) -> Seq<char> {
    "unknown xtask: "@ + name + " (want: ci [--fast] | smoke)"@
}

/// What to say of a task that does not exist.
pub fn unknown_task_message(name: &str) -> (m: String)
    ensures
        m@ == unknown_task_text(name@),
{
    let mut m = "unknown xtask: ".to_owned();
    m.append(name);
    m.append(" (want: ci [--fast] | smoke)");
    m
}

// ---------------------------------------------------------------------------
// The plan of `ci`
// ---------------------------------------------------------------------------

/// One part of a plan.
#[derive(Debug)]
pub enum PlanItem {
    /// Run cargo with these arguments.
    Cargo { label: String, args: Vec<String> },
    /// Say that a part is skipped.
    Note(String),
    /// Run the smoke tests.
    Smoke,
}

/// The model of a `PlanItem`.
pub enum PlanItemView {
    Cargo { label: Seq<char>, args: Seq<Seq<char>> },
    Note(Seq<char>),
    Smoke,
}

impl View for PlanItem {
    type V = PlanItemView;

    open spec fn view(&self) -> PlanItemView {
        match *self {
            PlanItem::Cargo { label, args } => PlanItemView::Cargo {
                label: label@,
                args: texts(args@),
            },
            PlanItem::Note(text) => PlanItemView::Note(text@),
            PlanItem::Smoke => PlanItemView::Smoke,
        }
    }
}

/// Formatting of our packages.
pub open spec fn format_check() -> PlanItemView {
    PlanItemView::Cargo {
        label: "rustfmt --check (ours)"@,
        args: seq!["fmt"@, "--check"@, "-p"@, "x8616_cycles"@, "-p"@, "xtask"@],
    }
}

/// Lints of the ticker alone, not of what it depends on.
pub open spec fn lint_check() -> PlanItemView {
    PlanItemView::Cargo {
        label: "clippy x8616_cycles (--no-deps)"@,
        args: seq!["clippy"@, "-p"@, "x8616_cycles"@, "--no-deps"@, "--"@, "-D"@, "warnings"@],
    }
}

/// The note that takes the place of the lints.
pub open spec fn lint_note() -> PlanItemView {
    PlanItemView::Note("\n=== clippy x8616_cycles === (skipped: --fast)"@)
}

/// Release build of the ticker.
pub open spec fn release_build() -> PlanItemView {
    PlanItemView::Cargo {
        label: "build --release x8616_cycles"@,
        args: seq!["build"@, "--release"@, "-p"@, "x8616_cycles"@],
    }
}

/// Formatting, lints, build, smoke tests. The fast plan has no lints.
pub open spec fn ci_steps(fast: bool) -> Seq<PlanItemView> {
    seq![
        format_check(),
        if fast { lint_note() } else { lint_check() },
        release_build(),
        PlanItemView::Smoke,
    ]
}

/// The parts of a plan, each by its model.
pub open spec fn plan_views(plan: Seq<PlanItem>) -> Seq<PlanItemView> {
    plan.map_values(|p: PlanItem| p@)
}

/// The strings with the given texts.
pub(crate) fn strings(items: &[&str]) -> (v: Vec<String>)
    ensures
        texts(v@) == items@.map_values(|s: &str| s@),
{
    let mut v: Vec<String> = Vec::new();
    for i in 0..items.len()
        invariant
            v@.len() == i,
            forall|k: int| 0 <= k < i ==> (#[trigger] v@[k])@ == items@[k]@,
    {
        v.push(items[i].to_owned());
    }
    assert(texts(v@) =~= items@.map_values(|s: &str| s@));
    v
}

/// What `ci` does, in order.
pub fn ci_plan(fast: bool) -> (plan: Vec<PlanItem>)
    ensures
        plan_views(plan@) == ci_steps(fast),
{
    let fmt = strings(&["fmt", "--check", "-p", "x8616_cycles", "-p", "xtask"]);
    assert(texts(fmt@) =~= format_check()->args);
    let lint = if fast {
        PlanItem::Note("\n=== clippy x8616_cycles === (skipped: --fast)".to_owned())
    } else {
        let clippy = strings(
            &["clippy", "-p", "x8616_cycles", "--no-deps", "--", "-D", "warnings"],
        );
        assert(texts(clippy@) =~= lint_check()->args);
        PlanItem::Cargo { label: "clippy x8616_cycles (--no-deps)".to_owned(), args: clippy }
    };
    let build = strings(&["build", "--release", "-p", "x8616_cycles"]);
    assert(texts(build@) =~= release_build()->args);
    let mut plan: Vec<PlanItem> = Vec::new();
    plan.push(PlanItem::Cargo { label: "rustfmt --check (ours)".to_owned(), args: fmt });
    plan.push(lint);
    plan.push(
        PlanItem::Cargo { label: "build --release x8616_cycles".to_owned(), args: build },
    );
    plan.push(PlanItem::Smoke);
    assert(plan_views(plan@) =~= ci_steps(fast));
    plan
}

/// The build that the smoke tests ask for where there is no ticker yet.
pub open spec fn smoke_build_step() -> PlanItemView {
    PlanItemView::Cargo { label: "build ticker for smoke"@, args: release_build()->args }
}

/// The build to run before the smoke tests where there is no ticker yet.
pub fn smoke_build() -> (p: PlanItem)
    ensures
        p@ == smoke_build_step(),
{
    let args = strings(&["build", "--release", "-p", "x8616_cycles"]);
    assert(texts(args@) =~= release_build()->args);
    PlanItem::Cargo { label: "build ticker for smoke".to_owned(), args }
}

/// Every command of the plan succeeded, and so did the smoke tests: there is
/// one result for each part, and only a note needs none. A part that failed
/// does not keep the later ones from being run, and none of them makes up for
/// it.
pub open spec fn plan_passes(plan: Seq<PlanItemView>, results: Seq<Option<bool>>) -> bool {
    &&& results.len() == plan.len()
    &&& forall|i: int|
        0 <= i < plan.len() ==> (#[trigger] plan[i]) is Note || results[i] == Some(true)
}

/// Whether a plan passed, given the result of each of its parts. A note has
/// none.
pub fn plan_passed(plan: &[PlanItem], results: &[Option<bool>]) -> (r: bool)
    ensures
        r == plan_passes(plan_views(plan@), results@),
{
    if results.len() != plan.len() {
        return false;
    }
    let ghost views = plan_views(plan@);
    let mut all = true;
    for i in 0..plan.len()
        invariant
            views == plan_views(plan@),
            results@.len() == plan@.len(),
            all == forall|k: int|
                0 <= k < i ==> (#[trigger] views[k]) is Note || results@[k] == Some(true),
    {
        assert(views[i as int] == plan@[i as int]@);
        let passed = match plan[i] {
            PlanItem::Note(_) => true,
            _ => match results[i] {
                Some(ok) => ok,
                None => false,
            },
        };
        all = all && passed;
    }
    all
}

/// The last line of `ci`.
pub open spec fn summary_text(passed: bool) -> Seq<char> {
    if passed {
        "\n========== xtask ci: PASS =========="@
    } else {
        "\n========== xtask ci: FAIL =========="@
    }
}

/// The last line of `ci`.
pub fn summary(passed: bool) -> (s: String)
    ensures
        s@ == summary_text(passed),
{
    if passed {
        "\n========== xtask ci: PASS ==========".to_owned()
    } else {
        "\n========== xtask ci: FAIL ==========".to_owned()
    }
}

// ---------------------------------------------------------------------------
// Reporting a step
// ---------------------------------------------------------------------------

/// How a command went.
#[derive(Debug)]
pub enum CommandStatus {
    /// It ran; its exit code is missing where a signal ended it.
    Exited { success: bool, code: Option<i32> },
    /// It could not be run, for this reason.
    NotRun(String),
}

/// The model of a `CommandStatus`.
pub enum CommandStatusView {
    Exited { success: bool, code: Option<i32> },
    NotRun(Seq<char>),
}

impl View for CommandStatus {
    type V = CommandStatusView;

    open spec fn view(&self) -> CommandStatusView {
        match *self {
            CommandStatus::Exited { success, code } => CommandStatusView::Exited { success, code },
            CommandStatus::NotRun(reason) => CommandStatusView::NotRun(reason@),
        }
    }
}

/// The command ran and succeeded.
pub open spec fn succeeded(s: CommandStatusView) -> bool {
    s matches CommandStatusView::Exited { success, .. } && success
}

/// A signed number in decimal.
pub open spec fn signed(n: int) -> Seq<char> {
    if n < 0 {
        seq!['-'] + digits(-n, 10)
    } else {
        digits(n, 10)
    }
}

/// An exit code, or that there is none.
pub open spec fn code_text(code: Option<i32>) -> Seq<char> {
    match code {
        Some(n) => "Some("@ + signed(n as int) + ")"@,
        None => "None"@,
    }
}

/// The heading of a step.
pub open spec fn heading_text(label: Seq<char>) -> Seq<char> {
    "\n=== "@ + label + " ==="@
}

/// How a step went.
pub open spec fn step_text(label: Seq<char>, s: CommandStatusView) -> Seq<char> {
    match s {
        CommandStatusView::Exited { success: true, .. } => "  PASS: "@ + label,
        CommandStatusView::Exited { success: false, code } => "  FAIL: "@ + label + " (exit "@
            + code_text(code) + ")"@,
        CommandStatusView::NotRun(reason) => "  FAIL: "@ + label + " ("@ + reason + ")"@,
    }
}

impl CommandStatus {
    /// Whether the command ran and succeeded.
    pub fn passed(&self) -> (r: bool)
        ensures
            r == succeeded(self@),
    {
        match self {
            CommandStatus::Exited { success, .. } => *success,
            CommandStatus::NotRun(_) => false,
        }
    }
}

/// The heading of a step.
pub fn heading(label: &str) -> (s: String)
    ensures
        s@ == heading_text(label@),
{
    let mut s = "\n=== ".to_owned();
    s.append(label);
    s.append(" ===");
    s
}

/// Says how a step went.
pub fn step_report(label: &str, status: &CommandStatus) -> (s: String)
    ensures
        s@ == step_text(label@, status@),
{
    match status {
        CommandStatus::Exited { success, code } => {
            if *success {
                let mut s = "  PASS: ".to_owned();
                s.append(label);
                return s;
            }
            let mut s = "  FAIL: ".to_owned();
            s.append(label);
            s.append(" (exit ");
            let ghost start = s@;
            match *code {
                Some(n) => {
                    s.append("Some(");
                    if n < 0 {
                        s.push('-');
                        push_decimal(&mut s, (-(n as i64)) as u64);
                    } else {
                        push_decimal(&mut s, n as u64);
                    }
                    s.append(")");
                },
                None => {
                    s.append("None");
                },
            }
            assert(s@ =~= start + code_text(*code));
            s.append(")");
            s
        },
        CommandStatus::NotRun(reason) => {
            let mut s = "  FAIL: ".to_owned();
            s.append(label);
            s.append(" (");
            s.append(reason.as_str());
            s.append(")");
            s
        },
    }
}

// ---------------------------------------------------------------------------
// Laws
// ---------------------------------------------------------------------------

/// The fast plan is the full plan with the lints left out and nothing else.
pub proof fn law_fast_skips_the_lints_only(i: int)
    requires
        0 <= i < ci_steps(false).len(),
    ensures
        ci_steps(true).len() == ci_steps(false).len(),
        ci_steps(false)[i] == lint_check() ==> ci_steps(true)[i] is Note,
        ci_steps(false)[i] != lint_check() ==> ci_steps(true)[i] == ci_steps(false)[i],
{
    assert(lint_check()->args.len() == 7);
    assert(format_check()->args.len() == 6);
    assert(release_build()->args.len() == 4);
}

/// Both plans end with the smoke tests, after the ticker was built.
pub proof fn law_smoke_tests_come_last(fast: bool)
    ensures
        ci_steps(fast).last() == PlanItemView::Smoke,
        ci_steps(fast)[ci_steps(fast).len() - 2] == release_build(),
{
}

/// `ci` passes exactly where formatting, the lints unless it is fast, the
/// build and the smoke tests passed, one result for each part of the plan.
pub proof fn law_when_ci_passes(fast: bool, results: Seq<Option<bool>>)
    ensures
        ci_steps(fast).len() == 4,
        ci_steps(fast)[0] == format_check(),
        ci_steps(fast)[1] == if fast { lint_note() } else { lint_check() },
        ci_steps(fast)[2] == release_build(),
        ci_steps(fast)[3] == PlanItemView::Smoke,
        plan_passes(ci_steps(fast), results) <==> {
            &&& results.len() == 4
            &&& results[0] == Some(true)
            &&& fast || results[1] == Some(true)
            &&& results[2] == Some(true)
            &&& results[3] == Some(true)
        },
{
    let plan = ci_steps(fast);
    assert(plan[0] !is Note && plan[2] !is Note && plan[3] !is Note);
    assert(plan[1] is Note <==> fast);
}

/// Once a command or the smoke tests failed, the plan fails, whatever the
/// other results are.
pub proof fn law_a_failure_fails_the_plan(
    plan: Seq<PlanItemView>,
    results: Seq<Option<bool>>,
    i: int,
)
    requires
        0 <= i < plan.len(),
        plan[i] !is Note,
        0 <= i < results.len(),
        results[i] != Some(true),
    ensures
        !plan_passes(plan, results),
{
    assert(!(plan[i] is Note));
}

/// The task is the first argument, `ci` where there is none, and any other name
/// is unknown; `--fast` counts wherever it stands.
pub proof fn law_which_task(argv: Seq<Seq<char>>, i: int)
    ensures
        argv.len() == 0 ==> task_named(argv) == (TaskView::Ci { fast: false }),
        argv.len() > 0 && argv[0] == "ci"@ ==> task_named(argv) is Ci,
        argv.len() > 0 && argv[0] == "ci"@ && 0 <= i < argv.len() && argv[i] == "--fast"@
            ==> task_named(argv) == (TaskView::Ci { fast: true }),
        argv.len() > 0 && argv[0] == "ci"@ && (forall|k: int|
            0 <= k < argv.len() ==> #[trigger] argv[k] != "--fast"@) ==> task_named(argv) == (
        TaskView::Ci { fast: false }),
        argv.len() > 0 && argv[0] == "smoke"@ ==> task_named(argv) == TaskView::Smoke,
        argv.len() > 0 && argv[0] != "ci"@ && argv[0] != "smoke"@ ==> task_named(argv)
            == TaskView::Unknown(argv[0]),
{
    reveal_strlit("ci");
    reveal_strlit("smoke");
    assert("ci"@.len() != "smoke"@.len());
}

/// The reports show their labels, names and reasons, whatever they are.
pub proof fn law_reports_show_their_labels(
    label: Seq<char>,
    why: Seq<char>,
    code: Option<i32>,
)
    ensures
        unknown_task_text(label) == "unknown xtask: "@ + label + " (want: ci [--fast] | smoke)"@,
        heading_text(label) == "\n=== "@ + label + " ==="@,
        step_text(label, (CommandStatusView::Exited { success: true, code })) == "  PASS: "@ + label,
        step_text(label, (CommandStatusView::Exited { success: false, code })) == "  FAIL: "@ + label
            + " (exit "@ + code_text(code) + ")"@,
        step_text(label, CommandStatusView::NotRun(why)) == "  FAIL: "@ + label + " ("@ + why + ")"@,
{
}

/// A step passes exactly where its command ran and succeeded, whatever its exit
/// code.
pub proof fn law_when_a_step_passes(success: bool, code: Option<i32>, why: Seq<char>)
    ensures
        succeeded((CommandStatusView::Exited { success, code })) == success,
        !succeeded(CommandStatusView::NotRun(why)),
{
}

/// An exit code is shown in decimal, with a minus where it is negative, and its
/// absence is shown too.
pub proof fn law_exit_codes_are_shown(n: i32)
    ensures
        code_text(None) == "None"@,
        n >= 0 ==> code_text(Some(n)) == "Some("@ + digits(n as int, 10) + ")"@,
        n < 0 ==> code_text(Some(n)) == "Some("@ + (seq!['-'] + digits(-n, 10)) + ")"@,
{
}

/// The models of tasks, plans and results show them as they are.
pub proof fn law_models_show_tasks_and_plans(
    fast: bool,
    success: bool,
    code: Option<i32>,
    s: String,
    args: Vec<String>,
    plan: Seq<PlanItem>,
    i: int,
)
    requires
        0 <= i < plan.len(),
    ensures
        (Task::Ci { fast })@ == (TaskView::Ci { fast }),
        Task::Smoke@ == TaskView::Smoke,
        Task::Unknown(s)@ == TaskView::Unknown(s@),
        (PlanItem::Cargo { label: s, args })@ == (PlanItemView::Cargo {
            label: s@,
            args: texts(args@),
        }),
        PlanItem::Note(s)@ == PlanItemView::Note(s@),
        PlanItem::Smoke@ == PlanItemView::Smoke,
        (CommandStatus::Exited { success, code })@ == (CommandStatusView::Exited {
            success,
            code,
        }),
        CommandStatus::NotRun(s)@ == CommandStatusView::NotRun(s@),
        plan_views(plan).len() == plan.len(),
        plan_views(plan)[i] == plan[i]@,
{
}

} // verus!
