use x8616_cycles::smoke_run::{FixtureOutcome, SmokeAction, SmokeEvent, SmokeRun};

const ACCEPTED: SmokeEvent = SmokeEvent::Ran(FixtureOutcome::Accepted);

/// The actions that the events lead through.
fn course(count: usize, events: &[SmokeEvent]) -> Vec<SmokeAction> {
    let mut run = SmokeRun::new(count);
    assert_eq!(run.awaiting, SmokeAction::FindTicker);
    events.iter().map(|&e| run.advance(e)).collect()
}

fn result(count: usize, events: &[SmokeEvent]) -> SmokeAction {
    *course(count, events).last().unwrap()
}

#[test]
fn all_accepted() {
    let written = SmokeEvent::Written(true);
    assert_eq!(
        course(2, &[SmokeEvent::Found(true), written, ACCEPTED, written, ACCEPTED]),
        vec![
            SmokeAction::Write(0),
            SmokeAction::Run(0),
            SmokeAction::Write(1),
            SmokeAction::Run(1),
            SmokeAction::Done(true),
        ]
    );
    assert_eq!(result(0, &[SmokeEvent::Found(true)]), SmokeAction::Done(true));
}

#[test]
fn built_if_missing() {
    let (missing, built) = (SmokeEvent::Found(false), SmokeEvent::Built(true));
    assert_eq!(result(1, &[missing]), SmokeAction::Build);
    assert_eq!(result(1, &[missing, built]), SmokeAction::Write(0));
    let all = [missing, built, SmokeEvent::Written(true), ACCEPTED];
    assert_eq!(result(1, &all), SmokeAction::Done(true));
    assert_eq!(result(1, &[missing, SmokeEvent::Built(false)]), SmokeAction::Done(false));
    assert_eq!(result(0, &[missing, built]), SmokeAction::Done(true));
}

#[test]
fn a_failure_counts_and_the_rest_is_tried() {
    let found = SmokeEvent::Found(true);
    let written = SmokeEvent::Written(true);
    // A file that cannot be written is not run.
    assert_eq!(
        course(2, &[found, SmokeEvent::Written(false), written, ACCEPTED]),
        vec![
            SmokeAction::Write(0),
            SmokeAction::Write(1),
            SmokeAction::Run(1),
            SmokeAction::Done(false),
        ]
    );
    for outcome in [FixtureOutcome::NotStarted, FixtureOutcome::Rejected] {
        let events = [found, written, SmokeEvent::Ran(outcome), written, ACCEPTED];
        let actions = course(2, &events);
        assert_eq!(actions[2], SmokeAction::Write(1));
        assert_eq!(actions[4], SmokeAction::Done(false));
    }
}
