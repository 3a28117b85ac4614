use minishell::launch::{Action, Launcher, Outcome, RunError};

#[test]
fn every_stage_starts_then_every_process_is_waited_for() {
    let mut l = Launcher::new(3);
    assert_eq!(l.next_action(), Action::Start(0));
    assert_eq!(l.record(Outcome::Started), None);
    assert_eq!(l.next_action(), Action::Start(1));
    assert_eq!(l.record(Outcome::Started), None);
    assert_eq!(l.next_action(), Action::Start(2));
    assert_eq!(l.record(Outcome::Started), None);
    assert_eq!(l.started, vec![0, 1, 2]);
    assert_eq!(l.next_action(), Action::Wait(0));
    assert_eq!(l.record(Outcome::Waited), None);
    assert_eq!(l.next_action(), Action::Wait(1));
    assert_eq!(l.record(Outcome::Waited), None);
    assert_eq!(l.next_action(), Action::Wait(2));
    assert_eq!(l.record(Outcome::Waited), None);
    assert_eq!(l.next_action(), Action::Finish);
    assert_eq!(l.waited, 3);
}

#[test]
fn a_missing_file_stops_its_stage_only() {
    let mut l = Launcher::new(1);
    assert_eq!(l.next_action(), Action::Start(0));
    assert_eq!(l.record(Outcome::FileNotFound), Some(RunError::FileNotFound(0)));
    assert!(l.started.is_empty());
    assert_eq!(l.next_action(), Action::Finish);

    let mut l = Launcher::new(3);
    assert_eq!(l.record(Outcome::Started), None);
    assert_eq!(l.record(Outcome::FileNotFound), Some(RunError::FileNotFound(1)));
    assert_eq!(l.next_action(), Action::Start(2));
    assert_eq!(l.record(Outcome::Started), None);
    assert_eq!(l.started, vec![0, 2]);
    assert_eq!(l.next_action(), Action::Wait(0));
}

#[test]
fn a_failed_start_is_reported_and_passed_over() {
    let mut l = Launcher::new(2);
    assert_eq!(l.record(Outcome::SpawnFailed), Some(RunError::ProcessSpawnError(0)));
    assert_eq!(l.next_action(), Action::Start(1));
    assert_eq!(l.record(Outcome::Started), None);
    assert_eq!(l.next_action(), Action::Wait(1));
    assert_eq!(l.record(Outcome::Waited), None);
    assert_eq!(l.next_action(), Action::Finish);
}

#[test]
fn a_failed_wait_does_not_end_the_waiting() {
    let mut l = Launcher::new(2);
    l.record(Outcome::Started);
    l.record(Outcome::Started);
    assert_eq!(l.next_action(), Action::Wait(0));
    assert_eq!(l.record(Outcome::WaitFailed), Some(RunError::ProcessWaitError(0)));
    assert_eq!(l.next_action(), Action::Wait(1));
    assert_eq!(l.record(Outcome::Waited), None);
    assert_eq!(l.next_action(), Action::Finish);
}

#[test]
fn an_answer_to_another_action_changes_nothing() {
    let mut l = Launcher::new(1);
    let before = l.clone();
    assert_eq!(l.record(Outcome::Waited), None);
    assert_eq!(l.record(Outcome::WaitFailed), None);
    assert_eq!(l, before);
    l.record(Outcome::Started);
    let before = l.clone();
    assert_eq!(l.record(Outcome::Started), None);
    assert_eq!(l.record(Outcome::FileNotFound), None);
    assert_eq!(l.record(Outcome::SpawnFailed), None);
    assert_eq!(l, before);
    l.record(Outcome::Waited);
    let before = l.clone();
    assert_eq!(l.next_action(), Action::Finish);
    assert_eq!(l.record(Outcome::Waited), None);
    assert_eq!(l.record(Outcome::Started), None);
    assert_eq!(l, before);
}

#[test]
fn nothing_to_do_for_no_stage() {
    let l = Launcher::new(0);
    assert_eq!(l.next_action(), Action::Finish);
}
