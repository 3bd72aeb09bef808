use std::path::Path;
use x8616_cycles::args::{parse_args, CpuType};
use x8616_cycles::paths::workspace_root;
use x8616_cycles::report::RunResult;
use x8616_cycles::smoke::{
    fixture_file, fixtures, not_run_line, smoke_heading, ticker_arguments, ticker_file, verdict_line,
    wrong_clocks_message,
};
use x8616_cycles::smoke_run::{FixtureOutcome, SmokeAction, SmokeEvent, SmokeRun};
use x8616_cycles::tasks::{
    choose_task, ci_plan, heading, plan_passed, smoke_build, step_report, summary, unknown_task_message,
    CommandStatus, PlanItem, Task,
};

fn task(words: &[&str]) -> Task {
    let argv: Vec<String> = words.iter().map(|w| w.to_string()).collect();
    choose_task(&argv)
}

#[test]
fn tasks() {
    assert!(matches!(task(&[]), Task::Ci { fast: false }));
    assert!(matches!(task(&["ci"]), Task::Ci { fast: false }));
    assert!(matches!(task(&["ci", "--fast"]), Task::Ci { fast: true }));
    assert!(matches!(task(&["smoke", "--fast"]), Task::Smoke));
    match task(&["--fast"]) {
        Task::Unknown(name) => assert_eq!(
            unknown_task_message(&name),
            "unknown xtask: --fast (want: ci [--fast] | smoke)"
        ),
        other => panic!("{other:?}"),
    }
}

fn labels(fast: bool) -> Vec<String> {
    ci_plan(fast)
        .into_iter()
        .map(|p| match p {
            PlanItem::Cargo { label, args } => format!("{label}: {}", args.join(" ")),
            PlanItem::Note(text) => text,
            PlanItem::Smoke => "smoke".to_string(),
        })
        .collect()
}

#[test]
fn plans() {
    assert_eq!(
        labels(false),
        vec![
            "rustfmt --check (ours): fmt --check -p x8616_cycles -p xtask".to_string(),
            "clippy x8616_cycles (--no-deps): clippy -p x8616_cycles --no-deps -- -D warnings".to_string(),
            "build --release x8616_cycles: build --release -p x8616_cycles".to_string(),
            "smoke".to_string(),
        ]
    );
    let (full, fast) = (labels(false), labels(true));
    assert_eq!(fast[1], "\n=== clippy x8616_cycles === (skipped: --fast)");
    assert_eq!((&fast[0], &fast[2], &fast[3]), (&full[0], &full[2], &full[3]));
}

#[test]
fn build_before_smoke() {
    match smoke_build() {
        PlanItem::Cargo { label, args } => {
            assert_eq!(label, "build ticker for smoke");
            assert_eq!(args.join(" "), "build --release -p x8616_cycles");
        }
        other => panic!("{other:?}"),
    }
}

#[test]
fn verdicts() {
    let (ok, bad) = (Some(true), Some(false));
    let full = ci_plan(false);
    assert!(plan_passed(&full, &[ok, ok, ok, ok]));
    for i in 0..4 {
        for failed in [bad, None] {
            let mut results = [ok, ok, ok, ok];
            results[i] = failed;
            assert!(!plan_passed(&full, &results), "{i}");
            // The fast plan does not ask for the lints.
            assert_eq!(plan_passed(&ci_plan(true), &results), i == 1);
        }
    }
    // One result too few, one too many.
    assert!(!plan_passed(&full, &[ok, ok, ok]));
    assert!(!plan_passed(&full, &[ok, ok, ok, ok, ok]));
    assert!(plan_passed(&[], &[]));
    assert_eq!(summary(true), "\n========== xtask ci: PASS ==========");
    assert_eq!(summary(false), "\n========== xtask ci: FAIL ==========");
}

#[test]
fn steps() {
    assert_eq!(heading("build"), "\n=== build ===");
    let exited = |success: bool, code: Option<i32>| CommandStatus::Exited { success, code };
    assert!(exited(true, Some(0)).passed() && !exited(false, Some(1)).passed());
    assert_eq!(step_report("x", &exited(true, Some(0))), "  PASS: x");
    for code in [Some(101), Some(-1), Some(i32::MIN), Some(0), None] {
        assert_eq!(
            step_report("x", &exited(false, code)),
            format!("  FAIL: x (exit {code:?})")
        );
    }
    let missing = CommandStatus::NotRun("no such file".to_string());
    assert!(!missing.passed());
    assert_eq!(step_report("x", &missing), "  FAIL: x (no such file)");
}

#[test]
fn smoke_fixtures() {
    let f = fixtures();
    let names: Vec<&str> = f.iter().map(|f| f.name).collect();
    assert_eq!(names, vec!["8086 mov/hlt", "286 timing = 38", "v30 runs 186 ISA"]);
    let cpus: Vec<&str> = f.iter().map(|f| f.cpu).collect();
    assert_eq!(cpus, vec!["8086", "286", "v30"]);
    assert_eq!(f[0].code, vec![0xB8, 0x34, 0x12, 0xF4]);
    let code = vec![0x89, 0xd8, 0x01, 0xc8, 0xf7, 0xe9, 0xc1, 0xe0, 0x04, 0xba, 0xf4, 0x00, 0xf4];
    assert_eq!(f[1].code, code);
    assert_eq!(f[2].code, code);
    assert_eq!(fixture_file(2), "xtask_smoke_2.bin");
}

#[test]
fn smoke_checks() {
    let f = fixtures();
    let check = |i: usize, line: &str| f[i].check(line);
    assert_eq!(check(0, "ax=0x1234 halted=1"), Ok(()));
    assert_eq!(check(0, "ax=0x1234 halted=0"), Err("did not halt".to_string()));
    assert_eq!(check(0, "ax=0x0 halted=1"), Err("ax != 0x1234 (ax=0x0 halted=1)".to_string()));
    assert_eq!(check(1, "cycles=38 halted=1"), Ok(()));
    assert_eq!(check(1, "cycles=38"), Err("did not halt".to_string()));
    for line in ["cycles=37 halted=1", "halted=1", "halted=1 cycles=\"\\é\u{200b}"] {
        let found = line.split_whitespace().find_map(|kv| kv.strip_prefix("cycles="));
        let expected = format!("286 cycles = {found:?}, expected 38 ({line})");
        assert_eq!(check(1, line), Err(expected));
    }
    assert_eq!(check(2, "halted=1"), Ok(()));
    assert_eq!(check(2, ""), Err("v30 did not halt ()".to_string()));
    assert_eq!(
        wrong_clocks_message("None", "38", "halted=1"),
        "286 cycles = None, expected 38 (halted=1)"
    );
    assert_eq!(verdict_line("n", &Ok(())), "  PASS: n");
    assert_eq!(verdict_line("n", &Err("why".to_string())), "  FAIL: n — why");
    assert_eq!(not_run_line("n", "write fixture"), "  FAIL: n (write fixture)");
}

#[test]
fn smoke_checks_of_result_lines() {
    let r = RunResult {
        est286: false,
        cyc286: 0,
        total: 38,
        halt: 0,
        insns: 2,
        al: 0x34,
        ax: 0x1234,
        ip: 0x7e04,
        halted: true,
    };
    let f = fixtures();
    assert_eq!(f[0].check(&r.line(false)), Ok(()));
    assert_eq!(f[1].check(&r.line(false)), Ok(()));
    assert!(f[1].check(&RunResult { total: 39, ..r }.line(false)).is_err());
    assert!(f[0].check(&RunResult { ax: 0x1235, ..r }.line(false)).is_err());
    assert!(f[2].check(&RunResult { halted: false, ..r }.line(false)).is_err());
}

#[test]
fn smoke_outcomes() {
    let f = &fixtures()[0];
    assert_eq!(f.outcome(None), FixtureOutcome::NotStarted);
    assert_eq!(f.outcome(Some("")), FixtureOutcome::Rejected);
    assert_eq!(f.outcome(Some("ax=0x1234 halted=1\r\nmore\n")), FixtureOutcome::Accepted);
    // Only the first line counts.
    assert_eq!(f.outcome(Some("\nax=0x1234 halted=1\n")), FixtureOutcome::Rejected);
    assert_eq!(f.outcome(Some("ax=0x1234 halted=0\n")), FixtureOutcome::Rejected);
    let line = |output: Result<&str, &str>| {
        f.run_line(&output.map(str::to_string).map_err(str::to_string))
    };
    assert_eq!(line(Ok("ax=0x1234 halted=1\n")), "  PASS: 8086 mov/hlt");
    assert_eq!(line(Ok("ax=0x1234\n")), "  FAIL: 8086 mov/hlt — did not halt");
    assert_eq!(f.not_written_line(), "  FAIL: 8086 mov/hlt (write fixture)");
    assert_eq!(line(Err("no such file")), "  FAIL: 8086 mov/hlt (no such file)");
}

/// The result of the smoke tests where the ticker is there and prints this.
fn smoke_result(outputs: [Option<&str>; 3]) -> SmokeAction {
    let f = fixtures();
    let mut run = SmokeRun::new(f.len());
    run.advance(SmokeEvent::Found(true));
    for i in 0..3 {
        run.advance(SmokeEvent::Written(true));
        run.advance(SmokeEvent::Ran(f[i].outcome(outputs[i])));
    }
    run.awaiting
}

#[test]
fn smoke_results_from_outputs() {
    let good = [
        Some("cycles=14 ax=0x1234 halted=1\n"),
        Some("cycles=38 halted=1\n"),
        Some("halted=1\n"),
    ];
    assert_eq!(smoke_result(good), SmokeAction::Done(true));
    for i in 0..3 {
        for output in [None, Some(""), Some("cycles=39 ax=0x0 halted=0\n")] {
            let mut outputs = good;
            outputs[i] = output;
            assert_eq!(smoke_result(outputs), SmokeAction::Done(false));
        }
    }
}

#[test]
fn smoke_texts() {
    assert_eq!(smoke_heading(), "\n=== smoke tests ===");
    assert_eq!(ticker_file(), "target/release/x8616-cycles");
}

#[test]
fn smoke_arguments() {
    let v = ticker_arguments("/tmp/a.bin", "286");
    assert_eq!(v.join(" "), "/tmp/a.bin --load 0x7e00 --entry 0x7e00 --cpu 286");
    let a = parse_args(&v).unwrap();
    assert_eq!((a.bin.as_str(), a.load, a.entry), ("/tmp/a.bin", 0x7e00, 0x7e00));
    assert_eq!(a.cpu, CpuType::NecV30);
    assert!(a.est286);
}

#[test]
fn workspace_roots() {
    assert_eq!(workspace_root("/home/me/marty/crates/xtask").as_deref(), Some("/home/me/marty"));
    assert_eq!(workspace_root("/crates/xtask").as_deref(), Some("/"));
    // On a drive, where there are drives.
    let on_drive = workspace_root("C:\\ws\\crates\\xtask");
    assert!(on_drive.is_none() || on_drive.as_deref() == Some("C:\\ws"));
    for p in [
        "C:\\ws\\crates\\xtask", "C:\\", "C:/a/b", "\\\\host\\share\\a\\b", "a\\b/c\\d/e", "", "/", "a", "a/b", "a/b/c", "/a", "/a/", "/a//b/./c/", "./a/b", ".", "./", "..", "../..",
        "/a/../b/c", "//a//b", "a/./b/.", "./.", ".a/b/c", "/.", "/./a/b", ".//a", "a//", "/a/b/..",
        "é/ü/x",
    ] {
        let expected = Path::new(p).parent().and_then(|q| q.parent());
        let expected = expected.map(|q| q.to_str().unwrap().to_string());
        assert_eq!(workspace_root(p), expected, "{p:?}");
    }
}
