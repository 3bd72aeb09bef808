//! The run: what to ask of the CPU core next, and when to stop.
//!
//! The core executes; the ticker decides. It names an `Action`, the core's
//! driver performs it and hands back the `Event` that answers it.
use vstd::prelude::*;

use crate::instruction::Instruction;
use crate::timing286::{clocks, cycles_286, law_clock_bounds, MAX_CLOCKS};

verus! {

/// What the driver of the core is to do next.
#[derive(Clone, Copy, Debug, PartialEq, Eq, Structural)]
pub enum Action {
    /// Decode the instruction at CS:IP, without executing it.
    Decode,
    /// Execute one instruction.
    Step,
    /// Finish the instruction and read the cycle counters.
    Retire,
    /// The run is over.
    Stop,
    /// The core failed.
    Fail,
}

/// How the execution of one instruction went.
#[derive(Clone, Copy, Debug, PartialEq, Eq, Structural)]
pub enum StepOutcome {
    Completed,
    /// HLT with interrupts disabled: the program has ended.
    Halted,
    Fault,
}

/// What the driver of the core hands back.
#[derive(Clone, Copy, Debug, PartialEq, Eq, Structural)]
pub enum Event {
    /// The instruction at CS:IP, if it could be decoded, and the registers
    /// that its count depends on.
    Decoded { instr: Option<Instruction>, flags: u16, cl: u8, cx: u16 },
    Stepped(StepOutcome),
    /// All cycles so far, and those of them spent halted.
    Counters { total: u64, halt: u64 },
}

/// The state of a run.
#[derive(Clone, Copy, Debug, PartialEq, Eq, Structural)]
pub struct Ticker {
    /// Charge every instruction with its 80286 clocks.
    pub est286: bool,
    /// Cycle cap.
    pub max: u64,
    /// 80286 clocks charged so far.
    pub cyc286: u64,
    /// The program has executed HLT.
    pub halted: bool,
    /// What was asked for last.
    pub awaiting: Action,
}

// ---------------------------------------------------------------------------
// The model
// ---------------------------------------------------------------------------

/// What is asked for at the start of every instruction.
pub open spec fn first_action(est286: bool) -> Action {
    if est286 {
        Action::Decode
    } else {
        Action::Step
    }
}

/// The state in which a run begins.
pub open spec fn begin(est286: bool, max: u64) -> Ticker {
    Ticker { est286, max, cyc286: 0, halted: false, awaiting: first_action(est286) }
}

/// The event is an answer to what was asked for.
pub open spec fn answers(e: Event, a: Action) -> bool {
    match e {
        Event::Decoded { .. } => a is Decode,
        Event::Stepped(_) => a is Step,
        Event::Counters { .. } => a is Retire,
    }
}

/// The 80286 clocks that the event charges.
pub open spec fn charge(e: Event) -> int {
    match e {
        Event::Decoded { instr: Some(i), flags, cl, cx } => clocks(i, flags, cl, cx),
        _ => 0,
    }
}

/// The event shows that the program has executed HLT.
pub open spec fn shows_halt(e: Event) -> bool {
    match e {
        Event::Stepped(o) => o is Halted,
        Event::Counters { halt, .. } => halt > 0,
        _ => false,
    }
}

/// The event shows that the cycle cap is passed.
pub open spec fn shows_cap(e: Event, max: u64) -> bool {
    e matches Event::Counters { total, .. } && total > max
}

/// What is asked for after an event.
pub open spec fn next_action(t: Ticker, e: Event) -> Action {
    if shows_halt(e) || shows_cap(e, t.max) {
        Action::Stop
    } else {
        match e {
            Event::Decoded { .. } => Action::Step,
            Event::Stepped(o) => if o is Fault {
                Action::Fail
            } else {
                Action::Retire
            },
            Event::Counters { .. } => first_action(t.est286),
        }
    }
}

/// The state after an event.
pub open spec fn next(t: Ticker, e: Event) -> Ticker {
    Ticker {
        est286: t.est286,
        max: t.max,
        cyc286: (t.cyc286 + charge(e)) as u64,
        halted: t.halted || shows_halt(e),
        awaiting: next_action(t, e),
    }
}

// ---------------------------------------------------------------------------
// The code
// ---------------------------------------------------------------------------

impl Ticker {
    /// A run that has not executed anything yet.
    pub fn new(est286: bool, max: u64) -> (t: Ticker)
        ensures
            t == begin(est286, max),
    {
        let awaiting = if est286 { Action::Decode } else { Action::Step };
        Ticker { est286, max, cyc286: 0, halted: false, awaiting }
    }

    /// Takes the answer to what was asked for, and says what to do next.
    pub fn advance(&mut self, event: Event) -> (a: Action)
        requires
            answers(event, old(self).awaiting),
            old(self).cyc286 + charge(event) <= u64::MAX,
        ensures
            *final(self) == next(*old(self), event),
            a == final(self).awaiting,
            match event {
                Event::Decoded { instr: Some(i), flags, cl, cx } => final(self).cyc286 == old(
                    self,
                ).cyc286 + clocks(i, flags, cl, cx),
                _ => final(self).cyc286 == old(self).cyc286,
            },
    {
        match event {
            Event::Decoded { instr, flags, cl, cx } => {
                if let Some(i) = instr {
                    self.cyc286 = self.cyc286 + cycles_286(&i, flags, cl, cx) as u64;
                }
                self.awaiting = Action::Step;
            },
            Event::Stepped(outcome) => {
                match outcome {
                    StepOutcome::Completed => {
                        self.awaiting = Action::Retire;
                    },
                    StepOutcome::Halted => {
                        self.halted = true;
                        self.awaiting = Action::Stop;
                    },
                    StepOutcome::Fault => {
                        self.awaiting = Action::Fail;
                    },
                }
            },
            Event::Counters { total, halt } => {
                if halt > 0 {
                    self.halted = true;
                    self.awaiting = Action::Stop;
                } else if total > self.max {
                    self.awaiting = Action::Stop;
                } else if self.est286 {
                    self.awaiting = Action::Decode;
                } else {
                    self.awaiting = Action::Step;
                }
            },
        }
        self.awaiting
    }

    /// The exit code of the program: 0 after HLT, 2 where the cycle cap was
    /// passed first.
    pub fn exit_code(&self) -> (code: i32)
        ensures
            code == if self.halted { 0int } else { 2 },
    {
        if self.halted {
            0
        } else {
            2
        }
    }
}

// ---------------------------------------------------------------------------
// Laws
// ---------------------------------------------------------------------------

/// The state after a run of events.
pub open spec fn run(t: Ticker, events: Seq<Event>) -> Ticker
    decreases events.len(),
{
    if events.len() == 0 {
        t
    } else {
        next(run(t, events.drop_last()), events.last())
    }
}

/// The 80286 clocks that a run of events charges.
pub open spec fn charges(events: Seq<Event>) -> int
    decreases events.len(),
{
    if events.len() == 0 {
        0
    } else {
        charges(events.drop_last()) + charge(events.last())
    }
}

/// Every event answers what was asked for before it.
pub open spec fn dialogue(t: Ticker, events: Seq<Event>) -> bool {
    forall|i: int|
        0 <= i < events.len() ==> answers(#[trigger] events[i], run(t, events.take(i)).awaiting)
}

/// A part of a dialogue from its start is a dialogue.
proof fn lemma_dialogue_before(t: Ticker, events: Seq<Event>)
    requires
        dialogue(t, events),
        events.len() > 0,
    ensures
        dialogue(t, events.drop_last()),
        answers(events.last(), run(t, events.drop_last()).awaiting),
{
    let before = events.drop_last();
    assert forall|i: int| 0 <= i < before.len() implies answers(
        #[trigger] before[i],
        run(t, before.take(i)).awaiting,
    ) by {
        assert(events[i] == before[i]);
        assert(events.take(i) == before.take(i));
    }
    assert(events[events.len() - 1] == events.last());
    assert(events.take(events.len() - 1) == before);
}

/// A charge is at most `MAX_CLOCKS`, and a charge is never taken back.
pub proof fn lemma_charges(events: Seq<Event>)
    ensures
        0 <= charges(events) <= events.len() * MAX_CLOCKS,
    decreases events.len(),
{
    if events.len() > 0 {
        lemma_charges(events.drop_last());
        lemma_charge(events.last());
    }
}

/// An event charges at most `MAX_CLOCKS`.
pub proof fn lemma_charge(e: Event)
    ensures
        0 <= charge(e) <= MAX_CLOCKS,
{
    if let Event::Decoded { instr: Some(i), flags, cl, cx } = e {
        law_clock_bounds(i, flags, cl, cx);
    }
}

/// The 80286 estimate of a run is the sum of the clocks of the instructions
/// that it decoded.
pub proof fn law_estimate_is_the_sum(est286: bool, max: u64, events: Seq<Event>)
    requires
        charges(events) <= u64::MAX,
    ensures
        run(begin(est286, max), events).cyc286 == charges(events),
    decreases events.len(),
{
    if events.len() > 0 {
        lemma_charge(events.last());
        lemma_charges(events.drop_last());
        law_estimate_is_the_sum(est286, max, events.drop_last());
    }
}

/// What a run was asked to do does not change under way.
pub proof fn law_settings_stay(t: Ticker, events: Seq<Event>)
    ensures
        run(t, events).est286 == t.est286,
        run(t, events).max == t.max,
    decreases events.len(),
{
    if events.len() > 0 {
        law_settings_stay(t, events.drop_last());
    }
}

/// Without the 80286 estimate no instruction is decoded, and nothing is
/// charged.
pub proof fn law_no_estimate_unless_asked(max: u64, events: Seq<Event>)
    requires
        dialogue(begin(false, max), events),
    ensures
        charges(events) == 0,
        !(run(begin(false, max), events).awaiting is Decode),
    decreases events.len(),
{
    if events.len() > 0 {
        lemma_dialogue_before(begin(false, max), events);
        law_no_estimate_unless_asked(max, events.drop_last());
        law_settings_stay(begin(false, max), events.drop_last());
    }
}

/// With the 80286 estimate every instruction is decoded before it is
/// executed.
pub proof fn law_estimate_precedes_execution(max: u64, events: Seq<Event>)
    requires
        dialogue(begin(true, max), events),
    ensures
        run(begin(true, max), events).awaiting is Step ==> events.len() > 0
            && events.last() is Decoded,
{
    if events.len() > 0 {
        law_settings_stay(begin(true, max), events.drop_last());
    }
}

/// A run is over for good: what ends it is not answered.
pub proof fn law_nothing_follows_the_end(t: Ticker, events: Seq<Event>, n: int)
    requires
        dialogue(t, events),
        0 <= n <= events.len(),
        run(t, events.take(n)).awaiting is Stop || run(t, events.take(n)).awaiting is Fail,
    ensures
        n == events.len(),
{
    if n < events.len() {
        assert(answers(events[n], run(t, events.take(n)).awaiting));
    }
}

/// A run stops exactly when its last event shows HLT or a passed cap.
pub proof fn law_when_a_run_stops(est286: bool, max: u64, events: Seq<Event>)
    ensures
        run(begin(est286, max), events).awaiting is Stop <==> {
            &&& events.len() > 0
            &&& shows_halt(events.last()) || shows_cap(events.last(), max)
        },
{
    if events.len() > 0 {
        law_settings_stay(begin(est286, max), events.drop_last());
    }
}

/// A run counts as halted exactly when its last event shows HLT, so one that
/// stopped without it has passed the cycle cap.
pub proof fn law_halted_means_hlt(est286: bool, max: u64, events: Seq<Event>)
    requires
        dialogue(begin(est286, max), events),
    ensures
        run(begin(est286, max), events).halted <==> events.len() > 0 && shows_halt(events.last()),
        run(begin(est286, max), events).awaiting is Stop && !run(
            begin(est286, max),
            events,
        ).halted ==> shows_cap(events.last(), max),
    decreases events.len(),
{
    if events.len() > 0 {
        let before = events.drop_last();
        lemma_dialogue_before(begin(est286, max), events);
        law_halted_means_hlt(est286, max, before);
        law_when_a_run_stops(est286, max, before);
        law_when_a_run_stops(est286, max, events);
    }
}

/// The number of instructions that a run has retired.
pub open spec fn retired(events: Seq<Event>) -> int
    decreases events.len(),
{
    if events.len() == 0 {
        0
    } else {
        retired(events.drop_last()) + if events.last() is Counters { 1int } else { 0 }
    }
}

/// Every retired instruction has taken at least one cycle.
pub open spec fn time_passes(events: Seq<Event>) -> bool {
    forall|i: int|
        0 <= i < events.len() ==> ((#[trigger] events[i]) matches Event::Counters { total, .. }
            ==> total >= retired(events.take(i + 1)))
}

/// How far a run can have come, by what it waits for.
proof fn lemma_progress(est286: bool, max: u64, events: Seq<Event>)
    requires
        dialogue(begin(est286, max), events),
        time_passes(events),
    ensures
        ({
            let k = retired(events);
            let a = run(begin(est286, max), events).awaiting;
            &&& 0 <= k <= max + 1
            &&& k <= max || events.last() is Counters
            &&& !(a is Stop) ==> k <= max
            &&& a is Decode ==> events.len() <= 3 * k
            &&& a is Step ==> events.len() <= 3 * k + 1
            &&& a is Retire || a is Fail ==> events.len() <= 3 * k + 2
            &&& a is Stop ==> events.len() <= 3 * k + if events.last() is Counters {
                0int
            } else {
                2
            }
        }),
    decreases events.len(),
{
    if events.len() > 0 {
        let before = events.drop_last();
        lemma_dialogue_before(begin(est286, max), events);
        assert forall|i: int| 0 <= i < before.len() implies ((#[trigger] before[i]) matches
            Event::Counters { total, .. } ==> total >= retired(before.take(i + 1))) by {
            assert(events[i] == before[i]);
            assert(events.take(i + 1) == before.take(i + 1));
        }
        lemma_progress(est286, max, before);
        law_settings_stay(begin(est286, max), before);
        assert(events.take(events.len() as int) == events);
        assert(events[events.len() - 1] == events.last());
    }
}

/// The cycle cap ends every run: where each instruction takes at least one
/// cycle, at most `max + 1` instructions are retired, and the run is over after
/// at most three events for each of them.
pub proof fn law_cap_ends_every_run(est286: bool, max: u64, events: Seq<Event>)
    requires
        dialogue(begin(est286, max), events),
        time_passes(events),
    ensures
        retired(events) <= max + 1,
        events.len() <= 3 * (max + 1),
{
    lemma_progress(est286, max, events);
}

/// A run begins with nothing charged and nothing halted, and asks for the first
/// instruction: to decode it where the 80286 estimate is wanted, else to
/// execute it.
pub proof fn law_a_run_begins(est286: bool, max: u64)
    ensures
        ({
            let t = begin(est286, max);
            &&& t.est286 == est286
            &&& t.max == max
            &&& t.cyc286 == 0
            &&& !t.halted
            &&& est286 ==> t.awaiting is Decode
            &&& !est286 ==> t.awaiting is Step
        }),
{
}

/// Each kind of event answers one action and no other.
pub proof fn law_what_answers_what(
    instr: Option<Instruction>,
    flags: u16,
    cl: u8,
    cx: u16,
    outcome: StepOutcome,
    total: u64,
    halt: u64,
    a: Action,
)
    ensures
        answers(Event::Decoded { instr, flags, cl, cx }, a) <==> a is Decode,
        answers(Event::Stepped(outcome), a) <==> a is Step,
        answers(Event::Counters { total, halt }, a) <==> a is Retire,
{
}

/// A decoded instruction is charged with its clocks under the FLAGS, CL and CX
/// that it meets, whatever they are; one that could not be decoded is not
/// charged, and neither is anything else. It is executed next in any case.
pub proof fn law_what_is_charged(
    t: Ticker,
    i: Instruction,
    flags: u16,
    cl: u8,
    cx: u16,
    outcome: StepOutcome,
    total: u64,
    halt: u64,
)
    requires
        t.cyc286 + clocks(i, flags, cl, cx) <= u64::MAX,
    ensures
        next(t, Event::Decoded { instr: Some(i), flags, cl, cx }) == (Ticker {
            cyc286: (t.cyc286 + clocks(i, flags, cl, cx)) as u64,
            awaiting: Action::Step,
            ..t
        }),
        next(t, Event::Decoded { instr: None, flags, cl, cx }) == (Ticker {
            awaiting: Action::Step,
            ..t
        }),
        next(t, Event::Stepped(outcome)).cyc286 == t.cyc286,
        next(t, Event::Counters { total, halt }).cyc286 == t.cyc286,
{
}

/// What follows the execution of an instruction: its counters are read, unless
/// it was HLT, which ends the run as halted, or the core failed.
pub proof fn law_after_execution(t: Ticker)
    ensures
        next(t, Event::Stepped(StepOutcome::Completed)) == (Ticker {
            awaiting: Action::Retire,
            ..t
        }),
        next(t, Event::Stepped(StepOutcome::Halted)) == (Ticker {
            halted: true,
            awaiting: Action::Stop,
            ..t
        }),
        next(t, Event::Stepped(StepOutcome::Fault)) == (Ticker { awaiting: Action::Fail, ..t }),
{
}

/// What follows the counters: halted cycles end the run as halted, more cycles
/// than the cap end it as it is, and otherwise the next instruction begins.
pub proof fn law_after_the_counters(t: Ticker, total: u64, halt: u64)
    ensures
        ({
            let u = next(t, Event::Counters { total, halt });
            &&& halt > 0 ==> u == (Ticker { halted: true, awaiting: Action::Stop, ..t })
            &&& halt == 0 && total > t.max ==> u == (Ticker { awaiting: Action::Stop, ..t })
            &&& halt == 0 && total <= t.max && t.est286 ==> u == (Ticker {
                awaiting: Action::Decode,
                ..t
            })
            &&& halt == 0 && total <= t.max && !t.est286 ==> u == (Ticker {
                awaiting: Action::Step,
                ..t
            })
        }),
{
}

/// The 80286 estimate of a run is the sum, over the instructions that it
/// decoded, of the clocks of each under the registers that it met.
pub proof fn law_estimate_sums_the_decoded_instructions(
    est286: bool,
    max: u64,
    events: Seq<Event>,
)
    requires
        events.fold_left(
            0int,
            |sum: int, e: Event|
                sum + match e {
                    Event::Decoded { instr: Some(i), flags, cl, cx } => clocks(i, flags, cl, cx),
                    _ => 0,
                },
        ) <= u64::MAX,
    ensures
        run(begin(est286, max), events).cyc286 == events.fold_left(
            0int,
            |sum: int, e: Event|
                sum + match e {
                    Event::Decoded { instr: Some(i), flags, cl, cx } => clocks(i, flags, cl, cx),
                    _ => 0,
                },
        ),
{
    let f = |sum: int, e: Event|
        sum + match e {
            Event::Decoded { instr: Some(i), flags, cl, cx } => clocks(i, flags, cl, cx),
            _ => 0,
        };
    lemma_charges_fold(events, f);
    law_estimate_is_the_sum(est286, max, events);
}

/// Adding up the clocks of decoded instructions gives the charges.
proof fn lemma_charges_fold(events: Seq<Event>, f: spec_fn(int, Event) -> int)
    requires
        forall|sum: int, e: Event| #[trigger] f(sum, e) == sum + charge(e),
    ensures
        events.fold_left(0int, f) == charges(events),
    decreases events.len(),
{
    if events.len() > 0 {
        lemma_charges_fold(events.drop_last(), f);
    }
}

} // verus!
