//! The smoke tests: known machine code, run through the ticker, and what its
//! result line has to say.
use vstd::prelude::*;

use crate::args::{
    after_arguments, command_line, cpu_named, defaults, lemma_options_are_dashed, texts,
    ArgErrorView, ArgsView, DraftView, ValueOption,
};
use crate::fields::{field, field_value, optional_part};
use crate::number::{
    digits, hex_number, law_hex_reads_back, lemma_digits_read_back, push_decimal, NumberErrorView,
};
use crate::report::{
    cycles, hex, law_result_is_first_line, law_result_line_reads_back,
    law_result_numbers_read_back, result_text, RunResult,
};
use crate::settings::lemma_option_names;
use crate::smoke_run::{
    begin, dialogue, fixture_action, lemma_next_event, run, FixtureOutcome, SmokeAction, SmokeEvent,
};
use crate::tasks::{heading, heading_text, strings};
use crate::text::{first_line, first_line_of, same_text};

verus! {

/// What the result line of a fixture has to say.
#[derive(Clone, Copy, Debug)]
pub enum Expectation {
    /// The program halts, with this in AX.
    Ax(&'static str),
    /// The program halts, after this many 80286 clocks.
    Cycles(&'static str),
    /// The program halts.
    Halt,
}

/// The model of an `Expectation`.
pub enum ExpectationView {
    Ax(Seq<char>),
    Cycles(Seq<char>),
    Halt,
}

impl View for Expectation {
    type V = ExpectationView;

    open spec fn view(&self) -> ExpectationView {
        match *self {
            Expectation::Ax(s) => ExpectationView::Ax(s@),
            Expectation::Cycles(s) => ExpectationView::Cycles(s@),
            Expectation::Halt => ExpectationView::Halt,
        }
    }
}

/// Machine code, the CPU to run it on, and what to expect.
#[derive(Debug)]
pub struct Fixture {
    pub name: &'static str,
    pub code: Vec<u8>,
    pub cpu: &'static str,
    pub expect: Expectation,
}

/// The model of a `Fixture`.
pub struct FixtureView {
    pub name: Seq<char>,
    pub code: Seq<u8>,
    pub cpu: Seq<char>,
    pub expect: ExpectationView,
}

impl View for Fixture {
    type V = FixtureView;

    open spec fn view(&self) -> FixtureView {
        FixtureView {
            name: self.name@,
            code: self.code@,
            cpu: self.cpu@,
            expect: self.expect@,
        }
    }
}

// ---------------------------------------------------------------------------
// The model
// ---------------------------------------------------------------------------

/// `mov ax, 0x1234; hlt`.
pub open spec fn move_and_halt() -> Seq<u8> {
    seq![0xB8u8, 0x34, 0x12, 0xF4]
}

/// `mov ax, bx; add ax, cx; imul cx; shl ax, 4; mov dx, 0x00F4; hlt`.
pub open spec fn arithmetic() -> Seq<u8> {
    seq![
        0x89u8,
        0xd8,
        0x01,
        0xc8,
        0xf7,
        0xe9,
        0xc1,
        0xe0,
        0x04,
        0xba,
        0xf4,
        0x00,
        0xf4,
    ]
}

/// The smoke tests: the base instructions on the 8086, 80286 timing, and the
/// 80186 instructions on the V30.
pub open spec fn smoke_tests() -> Seq<FixtureView> {
    seq![
        FixtureView {
            name: "8086 mov/hlt"@,
            code: move_and_halt(),
            cpu: "8086"@,
            expect: ExpectationView::Ax("0x1234"@),
        },
        FixtureView {
            name: "286 timing = 38"@,
            code: arithmetic(),
            cpu: "286"@,
            expect: ExpectationView::Cycles("38"@),
        },
        FixtureView {
            name: "v30 runs 186 ISA"@,
            code: arithmetic(),
            cpu: "v30"@,
            expect: ExpectationView::Halt,
        },
    ]
}

/// The fixtures, each by its model.
pub open spec fn fixture_views(v: Seq<Fixture>) -> Seq<FixtureView> {
    v.map_values(|f: Fixture| f@)
}

/// The line says that the program halted.
pub open spec fn says_halted(line: Seq<char>) -> bool {
    field_value(line, "halted"@) == Some("1"@)
}

/// How an optional text is shown to a developer: quoted, with escapes.
pub uninterp spec fn option_debug(found: Option<Seq<char>>) -> Seq<char>;

/// What is said where the line reports other clocks than expected, given how
/// those are shown.
pub open spec fn wrong_clocks_text(
    shown: Seq<char>,
    wanted: Seq<char>,
    line: Seq<char>,
) -> Seq<char> {
    "286 cycles = "@ + shown + ", expected "@ + wanted + " ("@ + line + ")"@
}

/// Why the line is not what was expected; nothing where it is.
pub open spec fn complaint(e: ExpectationView, line: Seq<char>) -> Option<Seq<char>> {
    match e {
        ExpectationView::Ax(wanted) => if !says_halted(line) {
            Some("did not halt"@)
        } else if field_value(line, "ax"@) != Some(wanted) {
            Some("ax != "@ + wanted + " ("@ + line + ")"@)
        } else {
            None
        },
        ExpectationView::Cycles(wanted) => if !says_halted(line) {
            Some("did not halt"@)
        } else if field_value(line, "cycles"@) != Some(wanted) {
            Some(
                wrong_clocks_text(
                    option_debug(field_value(line, "cycles"@)),
                    wanted,
                    line,
                ),
            )
        } else {
            None
        },
        ExpectationView::Halt => if !says_halted(line) {
            Some("v30 did not halt ("@ + line + ")"@)
        } else {
            None
        },
    }
}

/// How the run of a fixture went, given what the ticker printed; there is no
/// text where it could not be started.
pub open spec fn outcome_of(e: ExpectationView, stdout: Option<Seq<char>>) -> FixtureOutcome {
    match stdout {
        None => FixtureOutcome::NotStarted,
        Some(text) => if complaint(e, first_line_of(text)) is None {
            FixtureOutcome::Accepted
        } else {
            FixtureOutcome::Rejected
        },
    }
}

/// What the ticker printed, or why it could not be started.
pub open spec fn ticker_output(r: Result<String, String>) -> Result<Seq<char>, Seq<char>> {
    match r {
        Ok(text) => Ok(text@),
        Err(why) => Err(why@),
    }
}

/// How the run of a fixture is reported.
pub open spec fn run_text(f: FixtureView, output: Result<Seq<char>, Seq<char>>) -> Seq<char> {
    match output {
        Ok(text) => verdict_text(f.name, complaint(f.expect, first_line_of(text))),
        Err(why) => not_run_text(f.name, why),
    }
}

/// The model of the result of a check.
pub open spec fn check_result(r: Result<(), String>) -> Option<Seq<char>> {
    match r {
        Ok(()) => None,
        Err(m) => Some(m@),
    }
}

/// The arguments that run a fixture from a file on a CPU.
pub open spec fn run_arguments(file: Seq<char>, cpu: Seq<char>) -> Seq<Seq<char>> {
    seq![file, "--load"@, "0x7e00"@, "--entry"@, "0x7e00"@, "--cpu"@, cpu]
}

/// How a smoke test went.
pub open spec fn verdict_text(name: Seq<char>, c: Option<Seq<char>>) -> Seq<char> {
    match c {
        None => "  PASS: "@ + name,
        Some(why) => "  FAIL: "@ + name + " — "@ + why,
    }
}

/// How a smoke test went that could not be run.
pub open spec fn not_run_text(name: Seq<char>, why: Seq<char>) -> Seq<char> {
    "  FAIL: "@ + name + " ("@ + why + ")"@
}

// ---------------------------------------------------------------------------
// The code
// ---------------------------------------------------------------------------

/// Whether an optional part of a string is there and is this text.
fn is_text(part: Option<&str>, wanted: &str) -> (r: bool)
    ensures
        r == (optional_part(part) == Some(wanted@)),
{
    match part {
        Some(p) => same_text(p, wanted),
        None => false,
    }
}

/// Formatting an `Option<&str>` with `{:?}`, which is how std's `Debug` shows
/// an optional text. The result is a function of the text alone; what the
/// quoting and the escapes look like is left unsaid.
#[verifier::external_body]
fn debug_text(found: Option<&str>) -> (s: String)
    ensures
        s@ == option_debug(optional_part(found)),
{
    format!("{:?}", found)
}

/// What to say where the line reports other clocks than expected.
pub fn wrong_clocks_message(shown: &str, wanted: &str, line: &str) -> (m: String)
    ensures
        m@ == wrong_clocks_text(shown@, wanted@, line@),
{
    let mut m = "286 cycles = ".to_owned();
    m.append(shown);
    m.append(", expected ");
    m.append(wanted);
    m.append(" (");
    m.append(line);
    m.append(")");
    m
}

impl Fixture {
    /// Holds the result line of a run against what the fixture expects.
    pub fn check(&self, line: &str) -> (r: Result<(), String>)
        ensures
            check_result(r) == complaint(self.expect@, line@),
    {
        let halted = is_text(field(line, "halted"), "1");
        match self.expect {
            Expectation::Ax(wanted) => {
                if !halted {
                    return Err("did not halt".to_owned());
                }
                if !is_text(field(line, "ax"), wanted) {
                    let mut m = "ax != ".to_owned();
                    m.append(wanted);
                    m.append(" (");
                    m.append(line);
                    m.append(")");
                    return Err(m);
                }
                Ok(())
            },
            Expectation::Cycles(wanted) => {
                if !halted {
                    return Err("did not halt".to_owned());
                }
                let found = field(line, "cycles");
                if !is_text(found, wanted) {
                    return Err(
                        wrong_clocks_message(debug_text(found).as_str(), wanted, line),
                    );
                }
                Ok(())
            },
            Expectation::Halt => {
                if !halted {
                    let mut m = "v30 did not halt (".to_owned();
                    m.append(line);
                    m.append(")");
                    return Err(m);
                }
                Ok(())
            },
        }
    }
}

impl Fixture {
    /// How the run of the fixture went, given what the ticker printed; there
    /// is no text where it could not be started.
    pub fn outcome(&self, stdout: Option<&str>) -> (o: FixtureOutcome)
        ensures
            o == outcome_of(self.expect@, optional_part(stdout)),
    {
        match stdout {
            None => FixtureOutcome::NotStarted,
            Some(text) => match self.check(first_line(text)) {
                Ok(()) => FixtureOutcome::Accepted,
                Err(_) => FixtureOutcome::Rejected,
            },
        }
    }

    /// Says how the run of the fixture went, given what the ticker printed or
    /// why it could not be started.
    pub fn run_line(&self, output: &Result<String, String>) -> (s: String)
        ensures
            s@ == run_text(self@, ticker_output(*output)),
    {
        match output {
            Ok(text) => verdict_line(self.name, &self.check(first_line(text.as_str()))),
            Err(why) => not_run_line(self.name, why.as_str()),
        }
    }

    /// Says that the code of the fixture could not be written.
    pub fn not_written_line(&self) -> (s: String)
        ensures
            s@ == not_run_text(self.name@, "write fixture"@),
    {
        not_run_line(self.name, "write fixture")
    }
}

/// The heading of the smoke tests.
pub fn smoke_heading() -> (s: String)
    ensures
        s@ == heading_text("smoke tests"@),
{
    heading("smoke tests")
}

/// Where the release build leaves the ticker, below the root of the workspace.
pub fn ticker_file() -> (s: &'static str)
    ensures
        s@ == "target/release/x8616-cycles"@,
{
    "target/release/x8616-cycles"
}

/// The smoke tests.
pub fn fixtures() -> (v: Vec<Fixture>)
    ensures
        fixture_views(v@) == smoke_tests(),
{
    let mut v: Vec<Fixture> = Vec::new();
    v.push(
        Fixture {
            name: "8086 mov/hlt",
            code: vec![0xB8, 0x34, 0x12, 0xF4],
            cpu: "8086",
            expect: Expectation::Ax("0x1234"),
        },
    );
    v.push(
        Fixture {
            name: "286 timing = 38",
            code: vec![
                0x89, 0xd8, 0x01, 0xc8, 0xf7, 0xe9, 0xc1, 0xe0, 0x04, 0xba, 0xf4, 0x00, 0xf4,
            ],
            cpu: "286",
            expect: Expectation::Cycles("38"),
        },
    );
    v.push(
        Fixture {
            name: "v30 runs 186 ISA",
            code: vec![
                0x89, 0xd8, 0x01, 0xc8, 0xf7, 0xe9, 0xc1, 0xe0, 0x04, 0xba, 0xf4, 0x00, 0xf4,
            ],
            cpu: "v30",
            expect: Expectation::Halt,
        },
    );
    proof {
        assert(v@[0].code@ =~= move_and_halt());
        assert(v@[1].code@ =~= arithmetic());
        assert(v@[2].code@ =~= arithmetic());
        assert(fixture_views(v@) =~= smoke_tests());
    }
    v
}

/// The arguments with which the ticker runs a fixture.
pub fn ticker_arguments(file: &str, cpu: &str) -> (v: Vec<String>)
    ensures
        texts(v@) == run_arguments(file@, cpu@),
{
    let v = strings(&[file, "--load", "0x7e00", "--entry", "0x7e00", "--cpu", cpu]);
    assert(texts(v@) =~= run_arguments(file@, cpu@));
    v
}

/// The name of the file that holds the code of fixture `i`.
pub fn fixture_file(i: usize) -> (s: String)
    ensures
        s@ == "xtask_smoke_"@ + digits(i as int, 10) + ".bin"@,
{
    let mut s = "xtask_smoke_".to_owned();
    push_decimal(&mut s, i as u64);
    s.append(".bin");
    s
}

/// Says how a smoke test went.
pub fn verdict_line(name: &str, result: &Result<(), String>) -> (s: String)
    ensures
        s@ == verdict_text(name@, check_result(*result)),
{
    match result {
        Ok(()) => {
            let mut s = "  PASS: ".to_owned();
            s.append(name);
            s
        },
        Err(why) => {
            let mut s = "  FAIL: ".to_owned();
            s.append(name);
            s.append(" — ");
            s.append(why.as_str());
            s
        },
    }
}

/// Says that a smoke test could not be run.
pub fn not_run_line(name: &str, why: &str) -> (s: String)
    ensures
        s@ == not_run_text(name@, why@),
{
    let mut s = "  FAIL: ".to_owned();
    s.append(name);
    s.append(" (");
    s.append(why);
    s.append(")");
    s
}

// ---------------------------------------------------------------------------
// Laws
// ---------------------------------------------------------------------------

/// A result line says that the program halted exactly when it did.
pub proof fn law_line_says_halted(r: RunResult)
    ensures
        says_halted(result_text(r, false)) == r.halted,
{
    reveal_strlit("1");
    law_result_line_reads_back(r);
    assert("1"@ =~= seq!['1']);
    assert(seq!['0'][0] != seq!['1'][0]);
}

/// The 8086 fixture accepts the result line of a run exactly when the program
/// halted with 0x1234 in AX.
pub proof fn law_register_check(r: RunResult)
    ensures
        complaint(ExpectationView::Ax("0x1234"@), result_text(r, false)) is None <==> r.halted
            && r.ax == 0x1234,
{
    law_line_says_halted(r);
    law_result_line_reads_back(r);
    law_result_numbers_read_back(r);
    let wanted = RunResult { ax: 0x1234, ..r };
    law_result_line_reads_back(wanted);
    law_result_numbers_read_back(wanted);
    assert("0x1234"@ == hex(0x1234, 4)) by {
        reveal_strlit("0x1234");
        reveal_strlit("0x");
        reveal_with_fuel(digits, 5);
        assert("0x1234"@ =~= hex(0x1234, 4));
    }
}

/// The timing fixture accepts the result line of a run exactly when the
/// program halted and 38 cycles are reported.
pub proof fn law_timing_check(r: RunResult)
    ensures
        complaint(ExpectationView::Cycles("38"@), result_text(r, false)) is None <==> r.halted
            && cycles(r) == 38,
{
    law_line_says_halted(r);
    law_result_line_reads_back(r);
    lemma_digits_read_back(cycles(r), 10);
    lemma_digits_read_back(38, 10);
    assert("38"@ == digits(38, 10)) by {
        reveal_strlit("38");
        reveal_with_fuel(digits, 3);
        assert("38"@ =~= digits(38, 10));
    }
}

/// The arguments of a smoke test are accepted for every CPU that there is, and
/// ask the ticker to load and enter the file at 0x7E00 on that CPU, with
/// everything else at its default.
pub proof fn law_smoke_arguments_are_accepted(file: Seq<char>, cpu: Seq<char>)
    requires
        file.len() > 0,
        !"--"@.is_prefix_of(file),
        cpu_named(cpu) is Some,
    ensures
        command_line(run_arguments(file, cpu)) == Ok::<ArgsView, ArgErrorView>(
            (ArgsView {
                bin: file,
                load: 0x7E00,
                entry: 0x7E00,
                cpu: cpu_named(cpu)->0,
                sp: 0x7C00,
                max: 50_000_000,
                quiet: false,
                est286: cpu == "286"@,
                dump: None,
            }),
        ),
{
    let all = run_arguments(file, cpu);
    lemma_options_are_dashed(file);
    lemma_default_address();
    lemma_option_names(ValueOption::Load);
    lemma_option_names(ValueOption::Entry);
    lemma_option_names(ValueOption::Cpu);
    let a = DraftView { bin: file, ..defaults() };
    let b = DraftView { entry: Some(0x7E00), ..a };
    let c = DraftView { cpu: cpu_named(cpu)->0, est286: cpu == "286"@, ..b };
    let r1 = all.skip(1);
    let r3 = r1.skip(2);
    let r5 = r3.skip(2);
    let r7 = r5.skip(2);
    assert(r7 =~= Seq::empty());
    assert(r5[0] == "--cpu"@ && r5[1] == cpu && r5.len() == 2);
    assert(r3[0] == "--entry"@ && r3[1] == "0x7e00"@ && r3.len() == 4);
    assert(r1[0] == "--load"@ && r1[1] == "0x7e00"@ && r1.len() == 6);
    assert(after_arguments(r7, c) == Ok::<DraftView, ArgErrorView>(c));
    assert(after_arguments(r5, b) == after_arguments(r7, c));
    assert(after_arguments(r3, a) == after_arguments(r5, b));
    assert(after_arguments(r1, a) == after_arguments(r3, a));
    assert(after_arguments(all, defaults()) == after_arguments(r1, a));
}

/// `0x7e00` is the default load address.
proof fn lemma_default_address()
    ensures
        hex_number("0x7e00"@) == Ok::<u64, NumberErrorView>(0x7E00),
{
    reveal_strlit("0x7e00");
    reveal_strlit("0x");
    reveal_with_fuel(digits, 5);
    law_hex_reads_back(0x7E00, 4);
    assert("0x7e00"@ =~= hex(0x7E00, 4));
}

/// A fixture is reported as passed exactly where its run was accepted.
pub proof fn law_report_agrees_with_outcome(
    f: FixtureView,
    output: Result<Seq<char>, Seq<char>>,
)
    ensures
        run_text(f, output) == "  PASS: "@ + f.name <==> outcome_of(
            f.expect,
            output.ok(),
        ) is Accepted,
{
    reveal_strlit("  PASS: ");
    reveal_strlit("  FAIL: ");
    let line = run_text(f, output);
    assert(("  PASS: "@ + f.name)[2] == 'P');
    assert(outcome_of(f.expect, output.ok()) !is Accepted ==> line[2] == 'F');
}

/// What became of a fixture.
pub enum FixtureReport {
    /// Its code could not be written.
    NotWritten,
    /// It was written and run, and this was printed; there is no text where
    /// the ticker could not be started.
    Ran(Option<Seq<char>>),
}

/// The fixture was written and run, and printed what was expected.
pub open spec fn satisfied(e: ExpectationView, r: FixtureReport) -> bool {
    r matches FixtureReport::Ran(Some(text)) && complaint(e, first_line_of(text)) is None
}

/// The events that concern the first fixtures, given what became of them.
pub open spec fn fixture_events(
    tests: Seq<FixtureView>,
    reports: Seq<FixtureReport>,
) -> Seq<SmokeEvent>
    decreases reports.len(),
{
    if reports.len() == 0 {
        Seq::empty()
    } else {
        let before = fixture_events(tests, reports.drop_last());
        match reports.last() {
            FixtureReport::NotWritten => before.push(SmokeEvent::Written(false)),
            FixtureReport::Ran(stdout) => before.push(SmokeEvent::Written(true)).push(
                SmokeEvent::Ran(outcome_of(tests[reports.len() - 1].expect, stdout)),
            ),
        }
    }
}

/// The events that concern the ticker: it is built only where there is none.
pub open spec fn ticker_events(found: bool, built: bool) -> Seq<SmokeEvent> {
    if found {
        seq![SmokeEvent::Found(true)]
    } else {
        seq![SmokeEvent::Found(false), SmokeEvent::Built(built)]
    }
}

/// All events of the smoke tests.
pub open spec fn smoke_events(
    found: bool,
    built: bool,
    reports: Seq<FixtureReport>,
) -> Seq<SmokeEvent> {
    if found || built {
        ticker_events(found, built) + fixture_events(smoke_tests(), reports)
    } else {
        ticker_events(found, built)
    }
}

/// After the events of the ticker the first fixture is next, or the tests are
/// over.
proof fn lemma_ticker_events(count: usize, found: bool, built: bool)
    ensures
        ({
            let ready = found || built;
            let s = run(begin(count), ticker_events(found, built));
            &&& dialogue(begin(count), ticker_events(found, built))
            &&& s.count == count
            &&& s.passed == ready
            &&& s.awaiting == if ready {
                fixture_action(0, count, true)
            } else {
                SmokeAction::Done(false)
            }
        }),
{
    let none: Seq<SmokeEvent> = Seq::empty();
    lemma_next_event(begin(count), none, SmokeEvent::Found(found));
    if found {
        assert(none.push(SmokeEvent::Found(true)) =~= ticker_events(found, built));
    } else {
        let one = none.push(SmokeEvent::Found(false));
        lemma_next_event(begin(count), one, SmokeEvent::Built(built));
        assert(one.push(SmokeEvent::Built(built)) =~= ticker_events(found, built));
    }
}

/// Where the smoke tests stand after the first fixtures.
proof fn lemma_fixture_events(
    count: usize,
    start: Seq<SmokeEvent>,
    tests: Seq<FixtureView>,
    reports: Seq<FixtureReport>,
)
    requires
        reports.len() <= count,
        dialogue(begin(count), start),
        run(begin(count), start).count == count,
        run(begin(count), start).passed,
        run(begin(count), start).awaiting == fixture_action(0, count, true),
    ensures
        ({
            let all = start + fixture_events(tests, reports);
            let s = run(begin(count), all);
            &&& dialogue(begin(count), all)
            &&& s.count == count
            &&& s.passed == forall|i: int|
                0 <= i < reports.len() ==> satisfied(tests[i].expect, #[trigger] reports[i])
            &&& s.awaiting == fixture_action(reports.len() as int, count, s.passed)
        }),
    decreases reports.len(),
{
    if reports.len() == 0 {
        assert(start + fixture_events(tests, reports) =~= start);
    } else {
        let before = reports.drop_last();
        let n = before.len() as int;
        let events = start + fixture_events(tests, before);
        let expect = tests[n].expect;
        lemma_fixture_events(count, start, tests, before);
        assert(forall|i: int| 0 <= i < n ==> before[i] == reports[i]);
        assert(reports.last() == reports[n]);
        match reports.last() {
            FixtureReport::NotWritten => {
                lemma_next_event(begin(count), events, SmokeEvent::Written(false));
                assert(start + fixture_events(tests, reports) =~= events.push(
                    SmokeEvent::Written(false),
                ));
            },
            FixtureReport::Ran(stdout) => {
                let ran = SmokeEvent::Ran(outcome_of(expect, stdout));
                lemma_next_event(begin(count), events, SmokeEvent::Written(true));
                lemma_next_event(begin(count), events.push(SmokeEvent::Written(true)), ran);
                assert(start + fixture_events(tests, reports) =~= events.push(
                    SmokeEvent::Written(true),
                ).push(ran));
            },
        }
        let s = run(begin(count), start + fixture_events(tests, reports));
        let earlier = forall|i: int|
            0 <= i < before.len() ==> satisfied(tests[i].expect, #[trigger] before[i]);
        assert(s.passed == (earlier && satisfied(expect, reports[n])));
        if s.passed {
            assert forall|i: int| 0 <= i < reports.len() implies satisfied(
                tests[i].expect,
                #[trigger] reports[i],
            ) by {
                if i < n {
                    assert(satisfied(tests[i].expect, before[i]));
                }
            }
        } else if satisfied(expect, reports[n]) {
            let i = choose|i: int|
                0 <= i < before.len() && !satisfied(tests[i].expect, #[trigger] before[i]);
            assert(!satisfied(tests[i].expect, reports[i]));
        }
    }
}

/// The result of the smoke tests, from what became of the ticker and of each
/// fixture: they run to their end, and pass exactly where the ticker was there
/// or was built and each fixture was written, was started and printed what it
/// expects.
pub proof fn law_smoke_result(found: bool, built: bool, reports: Seq<FixtureReport>)
    requires
        reports.len() == smoke_tests().len(),
    ensures
        ({
            let count = smoke_tests().len() as usize;
            let events = smoke_events(found, built, reports);
            &&& dialogue(begin(count), events)
            &&& run(begin(count), events).awaiting == SmokeAction::Done(
                (found || built) && forall|i: int|
                    0 <= i < reports.len() ==> satisfied(
                        smoke_tests()[i].expect,
                        #[trigger] reports[i],
                    ),
            )
        }),
{
    let count = smoke_tests().len() as usize;
    lemma_ticker_events(count, found, built);
    if found || built {
        lemma_fixture_events(count, ticker_events(found, built), smoke_tests(), reports);
    }
}

/// A run of a fixture that printed its result line, and more behind it.
pub open spec fn printed(r: RunResult, rest: Seq<char>) -> FixtureReport {
    FixtureReport::Ran(Some(result_text(r, false) + seq!['\n'] + rest))
}

/// With a ticker whose runs print their result lines, the smoke tests pass
/// exactly where all three programs halted, the first with 0x1234 in AX and the
/// second after 38 cycles.
pub proof fn law_smoke_tests_judge_the_runs(
    found: bool,
    built: bool,
    first: RunResult,
    second: RunResult,
    third: RunResult,
    rest: Seq<Seq<char>>,
)
    requires
        found || built,
    ensures
        ({
            let reports = seq![
                printed(first, rest[0]),
                printed(second, rest[1]),
                printed(third, rest[2]),
            ];
            let passed = {
                &&& first.halted && first.ax == 0x1234
                &&& second.halted && cycles(second) == 38
                &&& third.halted
            };
            run(begin(3), smoke_events(found, built, reports)).awaiting == SmokeAction::Done(passed)
        }),
{
    let reports = seq![
        printed(first, rest[0]),
        printed(second, rest[1]),
        printed(third, rest[2]),
    ];
    law_smoke_result(found, built, reports);
    law_result_is_first_line(first, rest[0]);
    law_result_is_first_line(second, rest[1]);
    law_result_is_first_line(third, rest[2]);
    law_register_check(first);
    law_timing_check(second);
    law_line_says_halted(third);
    let tests = smoke_tests();
    let all = forall|i: int|
        0 <= i < reports.len() ==> satisfied(tests[i].expect, #[trigger] reports[i]);
    assert(all == (satisfied(tests[0].expect, reports[0]) && satisfied(tests[1].expect, reports[1])
        && satisfied(tests[2].expect, reports[2])));
}

/// What each expectation asks of a line, over its fields: the program halted,
/// and the register or the cycles are as they should be. The complaint shows
/// what was wanted and what was printed.
pub proof fn law_what_is_expected(wanted: Seq<char>, line: Seq<char>)
    ensures
        ({
            let halted = field_value(line, "halted"@) == Some("1"@);
            let ax = complaint(ExpectationView::Ax(wanted), line);
            let timing = complaint(ExpectationView::Cycles(wanted), line);
            let halt = complaint(ExpectationView::Halt, line);
            &&& ax is None <==> halted && field_value(line, "ax"@) == Some(wanted)
            &&& timing is None <==> halted && field_value(line, "cycles"@) == Some(wanted)
            &&& halt is None <==> halted
            &&& !halted ==> ax == Some("did not halt"@) && timing == Some("did not halt"@)
            &&& !halted ==> halt == Some("v30 did not halt ("@ + line + ")"@)
            &&& halted && ax is Some ==> ax == Some("ax != "@ + wanted + " ("@ + line + ")"@)
            &&& halted && timing is Some ==> timing == Some(
                "286 cycles = "@ + option_debug(field_value(line, "cycles"@)) + ", expected "@
                    + wanted + " ("@ + line + ")"@,
            )
        }),
{
}

/// The run of a fixture is accepted exactly where the ticker was started and
/// the first line that it printed is what was expected.
pub proof fn law_when_a_run_is_accepted(e: ExpectationView, text: Seq<char>)
    ensures
        outcome_of(e, None) is NotStarted,
        outcome_of(e, Some(text)) is Accepted <==> complaint(e, first_line_of(text)) is None,
        outcome_of(e, Some(text)) is Rejected <==> complaint(e, first_line_of(text)) is Some,
{
}

/// The verdicts show the fixture and the reason, whatever they are.
pub proof fn law_verdicts_show_the_reason(name: Seq<char>, why: Seq<char>)
    ensures
        verdict_text(name, None) == "  PASS: "@ + name,
        verdict_text(name, Some(why)) == "  FAIL: "@ + name + " — "@ + why,
        not_run_text(name, why) == "  FAIL: "@ + name + " ("@ + why + ")"@,
{
}

/// The ticker is started on the file and the CPU of the fixture, loaded and
/// entered at the default address.
pub proof fn law_how_a_fixture_is_run(file: Seq<char>, cpu: Seq<char>)
    ensures
        run_arguments(file, cpu).len() == 7,
        run_arguments(file, cpu)[0] == file,
        run_arguments(file, cpu).subrange(1, 3) == seq!["--load"@, "0x7e00"@],
        run_arguments(file, cpu).subrange(3, 5) == seq!["--entry"@, "0x7e00"@],
        run_arguments(file, cpu).subrange(5, 7) == seq!["--cpu"@, cpu],
{
    let all = run_arguments(file, cpu);
    assert(all.subrange(1, 3) =~= seq!["--load"@, "0x7e00"@]);
    assert(all.subrange(3, 5) =~= seq!["--entry"@, "0x7e00"@]);
    assert(all.subrange(5, 7) =~= seq!["--cpu"@, cpu]);
}

/// The models of fixtures and their results show them as they are.
pub proof fn law_models_show_fixtures(f: Fixture, s: &'static str, why: String)
    ensures
        f@.name == f.name@,
        f@.code == f.code@,
        f@.cpu == f.cpu@,
        f@.expect == f.expect@,
        Expectation::Ax(s)@ == ExpectationView::Ax(s@),
        Expectation::Cycles(s)@ == ExpectationView::Cycles(s@),
        Expectation::Halt@ == ExpectationView::Halt,
        check_result(Ok(())) is None,
        check_result(Err(why)) == Some(why@),
        ticker_output(Ok(why)) == Ok::<Seq<char>, Seq<char>>(why@),
        ticker_output(Err(why)) == Err::<Seq<char>, Seq<char>>(why@),
        optional_part(None) is None,
        optional_part(Some(s)) == Some(s@),
{
}

} // verus!
