//! The course of the smoke tests: what to do next, and whether all is well.
//!
//! Files and processes belong to the driver. It performs the `SmokeAction` that
//! it is told and hands back the `SmokeEvent` that answers it.
use vstd::prelude::*;

verus! {

/// What the driver is to do next. Fixtures are named by their position.
#[derive(Clone, Copy, Debug, PartialEq, Eq, Structural)]
pub enum SmokeAction {
    /// See whether there is a ticker.
    FindTicker,
    /// Build the ticker.
    Build,
    /// Write the code of a fixture to its file.
    Write(usize),
    /// Run the ticker on the file of a fixture and hold its result line
    /// against what the fixture expects.
    Run(usize),
    /// The smoke tests are over, with this result.
    Done(bool),
}

/// How the run of a fixture went.
#[derive(Clone, Copy, Debug, PartialEq, Eq, Structural)]
pub enum FixtureOutcome {
    /// The ticker could not be started.
    NotStarted,
    /// The result line is not what the fixture expects.
    Rejected,
    /// The result line is what the fixture expects.
    Accepted,
}

/// What the driver hands back.
#[derive(Clone, Copy, Debug, PartialEq, Eq, Structural)]
pub enum SmokeEvent {
    /// Whether there is a ticker.
    Found(bool),
    /// Whether the build succeeded.
    Built(bool),
    /// Whether the file could be written.
    Written(bool),
    Ran(FixtureOutcome),
}

/// The state of the smoke tests.
#[derive(Clone, Copy, Debug, PartialEq, Eq, Structural)]
pub struct SmokeRun {
    /// Number of fixtures.
    pub count: usize,
    /// Nothing has failed so far.
    pub passed: bool,
    /// What was asked for last.
    pub awaiting: SmokeAction,
}

// ---------------------------------------------------------------------------
// The model
// ---------------------------------------------------------------------------

/// The state in which the smoke tests begin.
pub open spec fn begin(count: usize) -> SmokeRun {
    SmokeRun { count, passed: true, awaiting: SmokeAction::FindTicker }
}

/// The event is an answer to what was asked for.
pub open spec fn answers(e: SmokeEvent, a: SmokeAction) -> bool {
    match e {
        SmokeEvent::Found(_) => a is FindTicker,
        SmokeEvent::Built(_) => a is Build,
        SmokeEvent::Written(_) => a is Write,
        SmokeEvent::Ran(_) => a is Run,
    }
}

/// The event is a failure. That there is no ticker yet is none.
pub open spec fn failure(e: SmokeEvent) -> bool {
    match e {
        SmokeEvent::Found(_) => false,
        SmokeEvent::Built(ok) => !ok,
        SmokeEvent::Written(ok) => !ok,
        SmokeEvent::Ran(o) => !(o is Accepted),
    }
}

/// The event is the last that concerns its fixture: it could not be written,
/// or it was run.
pub open spec fn ends_fixture(e: SmokeEvent) -> bool {
    e == SmokeEvent::Written(false) || e is Ran
}

/// What to do with fixture `i`; the end, where there is no such fixture.
pub open spec fn fixture_action(i: int, count: usize, passed: bool) -> SmokeAction {
    if i < count {
        SmokeAction::Write(i as usize)
    } else {
        SmokeAction::Done(passed)
    }
}

/// The position of the fixture that an action concerns.
pub open spec fn position(a: SmokeAction) -> int {
    match a {
        SmokeAction::Write(i) => i as int,
        SmokeAction::Run(i) => i as int,
        _ => 0,
    }
}

/// The state after an event. Without a ticker nothing is run; a fixture that
/// fails does not keep the later ones from being tried.
pub open spec fn next(s: SmokeRun, e: SmokeEvent) -> SmokeRun {
    let passed = s.passed && !failure(e);
    SmokeRun {
        count: s.count,
        passed,
        awaiting: match e {
            SmokeEvent::Found(false) => SmokeAction::Build,
            SmokeEvent::Built(false) => SmokeAction::Done(false),
            SmokeEvent::Found(true) | SmokeEvent::Built(true) => fixture_action(
                0,
                s.count,
                passed,
            ),
            SmokeEvent::Written(true) => SmokeAction::Run(position(s.awaiting) as usize),
            SmokeEvent::Written(false) | SmokeEvent::Ran(_) => fixture_action(
                position(s.awaiting) + 1,
                s.count,
                passed,
            ),
        },
    }
}

// ---------------------------------------------------------------------------
// The code
// ---------------------------------------------------------------------------

impl SmokeRun {
    /// Smoke tests of `count` fixtures, of which nothing was done yet.
    pub fn new(count: usize) -> (s: SmokeRun)
        ensures
            s == begin(count),
    {
        SmokeRun { count, passed: true, awaiting: SmokeAction::FindTicker }
    }

    /// Takes the answer to what was asked for, and says what to do next.
    pub fn advance(&mut self, e: SmokeEvent) -> (a: SmokeAction)
        requires
            answers(e, old(self).awaiting),
        ensures
            *final(self) == next(*old(self), e),
            a == final(self).awaiting,
    {
        let at: usize = match self.awaiting {
            SmokeAction::Write(i) => i,
            SmokeAction::Run(i) => i,
            _ => 0,
        };
        match e {
            SmokeEvent::Found(there) => {
                self.awaiting = if !there {
                    SmokeAction::Build
                } else if self.count > 0 {
                    SmokeAction::Write(0)
                } else {
                    SmokeAction::Done(self.passed)
                };
            },
            SmokeEvent::Built(ok) => {
                self.passed = self.passed && ok;
                self.awaiting = if !ok {
                    SmokeAction::Done(false)
                } else if self.count > 0 {
                    SmokeAction::Write(0)
                } else {
                    SmokeAction::Done(self.passed)
                };
            },
            SmokeEvent::Written(ok) => {
                self.passed = self.passed && ok;
                self.awaiting = if ok {
                    SmokeAction::Run(at)
                } else {
                    self.after(at)
                };
            },
            SmokeEvent::Ran(outcome) => {
                self.passed = self.passed && matches!(outcome, FixtureOutcome::Accepted);
                self.awaiting = self.after(at);
            },
        }
        self.awaiting
    }

    /// What to do after fixture `i`.
    fn after(&self, i: usize) -> (a: SmokeAction)
        ensures
            a == fixture_action(i + 1, self.count, self.passed),
    {
        if self.count > 0 && i < self.count - 1 {
            SmokeAction::Write(i + 1)
        } else {
            SmokeAction::Done(self.passed)
        }
    }
}

// ---------------------------------------------------------------------------
// Laws
// ---------------------------------------------------------------------------

/// The state after a run of events.
pub open spec fn run(s: SmokeRun, events: Seq<SmokeEvent>) -> SmokeRun
    decreases events.len(),
{
    if events.len() == 0 {
        s
    } else {
        next(run(s, events.drop_last()), events.last())
    }
}

/// Every event answers what was asked for before it.
pub open spec fn dialogue(s: SmokeRun, events: Seq<SmokeEvent>) -> bool {
    forall|i: int|
        0 <= i < events.len() ==> answers(#[trigger] events[i], run(s, events.take(i)).awaiting)
}

/// There was a ticker from the start, or one was built.
pub open spec fn ticker_ready(events: Seq<SmokeEvent>) -> bool {
    ||| events.len() > 0 && events[0] == SmokeEvent::Found(true)
    ||| events.len() > 1 && events[0] == SmokeEvent::Found(false) && events[1]
        == SmokeEvent::Built(true)
}

/// The number of fixtures that are done with.
pub open spec fn tried(events: Seq<SmokeEvent>) -> int
    decreases events.len(),
{
    if events.len() == 0 {
        0
    } else {
        tried(events.drop_last()) + if ends_fixture(events.last()) { 1int } else { 0 }
    }
}

/// The number of fixtures that were written, run and accepted.
pub open spec fn accepted(events: Seq<SmokeEvent>) -> int
    decreases events.len(),
{
    if events.len() == 0 {
        0
    } else {
        accepted(events.drop_last()) + if events.last() == SmokeEvent::Ran(
            FixtureOutcome::Accepted,
        ) {
            1int
        } else {
            0
        }
    }
}

/// A part of a dialogue from its start is a dialogue.
proof fn lemma_dialogue_before(s: SmokeRun, events: Seq<SmokeEvent>)
    requires
        dialogue(s, events),
        events.len() > 0,
    ensures
        dialogue(s, events.drop_last()),
        answers(events.last(), run(s, events.drop_last()).awaiting),
{
    let before = events.drop_last();
    assert forall|i: int| 0 <= i < before.len() implies answers(
        #[trigger] before[i],
        run(s, before.take(i)).awaiting,
    ) by {
        assert(events[i] == before[i]);
        assert(events.take(i) == before.take(i));
    }
    assert(events[events.len() - 1] == events.last());
    assert(events.take(events.len() - 1) == before);
}

/// An answer to what was asked for continues a dialogue by one event.
pub proof fn lemma_next_event(s: SmokeRun, events: Seq<SmokeEvent>, e: SmokeEvent)
    requires
        dialogue(s, events),
        answers(e, run(s, events).awaiting),
    ensures
        dialogue(s, events.push(e)),
        run(s, events.push(e)) == next(run(s, events), e),
{
    let all = events.push(e);
    assert(all.drop_last() =~= events);
    assert forall|i: int| 0 <= i < all.len() implies answers(
        #[trigger] all[i],
        run(s, all.take(i)).awaiting,
    ) by {
        if i < events.len() {
            assert(all[i] == events[i]);
            assert(all.take(i) =~= events.take(i));
        } else {
            assert(all.take(i) =~= events);
        }
    }
}

/// Where the smoke tests stand, by what they wait for.
proof fn lemma_course(count: usize, events: Seq<SmokeEvent>)
    requires
        dialogue(begin(count), events),
    ensures
        ({
            let s = run(begin(count), events);
            let n = tried(events);
            let ready = ticker_ready(events);
            &&& s.count == count
            &&& 0 <= accepted(events) <= n <= count
            &&& match s.awaiting {
                SmokeAction::FindTicker => events.len() == 0 && s.passed && n == 0,
                SmokeAction::Build => {
                    &&& events == seq![SmokeEvent::Found(false)]
                    &&& s.passed
                    &&& n == 0
                },
                SmokeAction::Write(i) => {
                    &&& ready
                    &&& i == n
                    &&& i < count
                    &&& s.passed <==> accepted(events) == n
                    &&& events.len() <= 2 + 2 * n
                },
                SmokeAction::Run(i) => {
                    &&& ready
                    &&& i == n
                    &&& i < count
                    &&& s.passed <==> accepted(events) == n
                    &&& events.len() <= 3 + 2 * n
                },
                SmokeAction::Done(r) => {
                    &&& r == s.passed
                    &&& ready ==> n == count && (r <==> accepted(events) == count)
                    &&& !ready ==> !r && n == 0
                    &&& events.len() <= 2 + 2 * n
                },
            }
        }),
    decreases events.len(),
{
    if events.len() > 0 {
        let before = events.drop_last();
        lemma_dialogue_before(begin(count), events);
        lemma_course(count, before);
        assert(events[events.len() - 1] == events.last());
        if before.len() > 0 {
            assert(events[0] == before[0]);
        }
        if before.len() > 1 {
            assert(events[1] == before[1]);
        }
        if run(begin(count), before).awaiting is FindTicker {
            assert(events =~= seq![events.last()]);
        }
    }
}

/// The smoke tests pass exactly where the ticker was there or was built, and
/// every fixture was written, started and accepted.
pub proof fn law_when_smoke_tests_pass(count: usize, events: Seq<SmokeEvent>, r: bool)
    requires
        dialogue(begin(count), events),
        run(begin(count), events).awaiting == SmokeAction::Done(r),
    ensures
        r <==> ticker_ready(events) && accepted(events) == count,
{
    lemma_course(count, events);
}

/// With a ticker every fixture is tried, in order and once, whatever became of
/// the ones before it.
pub proof fn law_every_fixture_is_tried(count: usize, events: Seq<SmokeEvent>)
    requires
        dialogue(begin(count), events),
    ensures
        run(begin(count), events).awaiting matches SmokeAction::Write(i) ==> i == tried(events),
        run(begin(count), events).awaiting matches SmokeAction::Run(i) ==> i == tried(events),
        run(begin(count), events).awaiting is Done && ticker_ready(events) ==> tried(events)
            == count,
{
    lemma_course(count, events);
}

/// A fixture is run only after its own code was written.
pub proof fn law_written_before_run(count: usize, events: Seq<SmokeEvent>)
    requires
        dialogue(begin(count), events),
        run(begin(count), events).awaiting is Run,
    ensures
        events.len() > 0,
        events.last() == SmokeEvent::Written(true),
        run(begin(count), events.drop_last()).awaiting == SmokeAction::Write(
            run(begin(count), events).awaiting->Run_0,
        ),
{
    lemma_dialogue_before(begin(count), events);
}

/// The ticker is built only where there is none, and without one nothing is
/// written or run.
pub proof fn law_built_only_if_missing(count: usize, events: Seq<SmokeEvent>)
    requires
        dialogue(begin(count), events),
    ensures
        run(begin(count), events).awaiting is Build ==> events == seq![SmokeEvent::Found(false)],
        run(begin(count), events).awaiting is Write || run(begin(count), events).awaiting is Run
            ==> ticker_ready(events),
        events.len() > 1 && events[1] == SmokeEvent::Built(false) ==> run(
            begin(count),
            events.take(2),
        ).awaiting == SmokeAction::Done(false) && events.len() == 2,
{
    lemma_course(count, events);
    if events.len() > 1 && events[1] == SmokeEvent::Built(false) {
        let two = events.take(2);
        assert(two.last() == events[1]);
        assert(run(begin(count), two) == next(run(begin(count), two.drop_last()), two.last()));
        if events.len() > 2 {
            assert(answers(events[2], run(begin(count), two).awaiting));
        }
    }
}

/// The smoke tests come to an end: there are at most two events for the ticker
/// and two for each fixture.
pub proof fn law_smoke_tests_end(count: usize, events: Seq<SmokeEvent>)
    requires
        dialogue(begin(count), events),
    ensures
        events.len() <= 2 + 2 * count,
{
    lemma_course(count, events);
}

/// Each event of the smoke tests leads on as it should, in every state: a
/// missing ticker is built; once there is one, the first fixture is written; a
/// written fixture is run; after a run, or a failed write, the next fixture is
/// written, or the tests are over. What failed is remembered.
pub proof fn law_what_follows(s: SmokeRun, i: usize, o: FixtureOutcome)
    requires
        s.count > 0,
        i < s.count,
    ensures
        ({
            let last = i == s.count - 1;
            let writing = SmokeRun { awaiting: SmokeAction::Write(i), ..s };
            let running = SmokeRun { awaiting: SmokeAction::Run(i), ..s };
            let written = next(writing, SmokeEvent::Written(true));
            let unwritten = next(writing, SmokeEvent::Written(false));
            let ran = next(running, SmokeEvent::Ran(o));
            let passed = s.passed && o is Accepted;
            &&& next(s, SmokeEvent::Found(false)) == (SmokeRun { awaiting: SmokeAction::Build, ..s })
            &&& next(s, SmokeEvent::Found(true)) == (SmokeRun {
                awaiting: SmokeAction::Write(0),
                ..s
            })
            &&& next(s, SmokeEvent::Built(true)) == (SmokeRun {
                awaiting: SmokeAction::Write(0),
                ..s
            })
            &&& next(s, SmokeEvent::Built(false)) == (SmokeRun {
                passed: false,
                awaiting: SmokeAction::Done(false),
                ..s
            })
            &&& written == running
            &&& unwritten.count == s.count && ran.count == s.count
            &&& !unwritten.passed
            &&& ran.passed == passed
            &&& !last ==> unwritten.awaiting == SmokeAction::Write((i + 1) as usize)
            &&& !last ==> ran.awaiting == SmokeAction::Write((i + 1) as usize)
            &&& last ==> unwritten.awaiting == SmokeAction::Done(false)
            &&& last ==> ran.awaiting == SmokeAction::Done(passed)
        }),
{
}

/// Each kind of event answers one action and no other.
pub proof fn law_what_answers_what(b: bool, o: FixtureOutcome, a: SmokeAction)
    ensures
        answers(SmokeEvent::Found(b), a) <==> a is FindTicker,
        answers(SmokeEvent::Built(b), a) <==> a is Build,
        answers(SmokeEvent::Written(b), a) <==> a is Write,
        answers(SmokeEvent::Ran(o), a) <==> a is Run,
{
}

} // verus!
