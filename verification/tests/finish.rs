use crucible_core::sandbox::finish::{
    finish_action, finish_after_stop, FinishAction, FinishEnding, FinishLook, FINISH_PUBLICATION_NANOS,
    FINISH_WATCH_NANOS,
};

const GRACE: u128 = 100_000_000;

#[test]
fn an_exit_is_reported_whenever_it_is_seen() {
    assert_eq!(finish_action(FinishLook::Exited, true, 0, GRACE), FinishAction::ReportExited);
    assert_eq!(finish_action(FinishLook::Exited, false, GRACE * 10, GRACE), FinishAction::ReportExited);
}

#[test]
fn a_failed_look_at_an_ended_process_is_its_ending_going_wrong() {
    assert_eq!(finish_action(FinishLook::Failed, true, 1, GRACE), FinishAction::ReportUnpublished);
    assert_eq!(finish_action(FinishLook::Failed, false, 1, GRACE), FinishAction::Wait(FINISH_WATCH_NANOS));
}

#[test]
fn the_grace_is_waited_out_a_watch_at_a_time() {
    assert_eq!(finish_action(FinishLook::Running, false, 0, GRACE), FinishAction::Wait(FINISH_WATCH_NANOS));
    assert_eq!(finish_action(FinishLook::Running, false, GRACE - 2_000_000, GRACE), FinishAction::Wait(2_000_000));
    assert_eq!(finish_action(FinishLook::Running, false, GRACE, GRACE), FinishAction::Wait(0));
    assert_eq!(finish_action(FinishLook::Running, false, GRACE + 1, GRACE), FinishAction::Stop(false));
}

#[test]
fn an_ended_process_is_given_its_publication_before_it_is_stopped() {
    assert_eq!(finish_action(FinishLook::Running, true, GRACE + 1, GRACE), FinishAction::Wait(FINISH_WATCH_NANOS));
    assert_eq!(
        finish_action(FinishLook::Running, true, GRACE + FINISH_PUBLICATION_NANOS - 1, GRACE),
        FinishAction::Wait(FINISH_WATCH_NANOS)
    );
    assert_eq!(
        finish_action(FinishLook::Running, true, GRACE + FINISH_PUBLICATION_NANOS, GRACE),
        FinishAction::Stop(true)
    );
}

#[test]
fn a_stop_reports_what_it_discarded_and_whether_it_worked() {
    assert_eq!(finish_after_stop(true, false), FinishEnding::Stopped);
    assert_eq!(finish_after_stop(true, true), FinishEnding::Unpublished);
    assert_eq!(finish_after_stop(false, true), FinishEnding::Unreaped);
    assert_eq!(finish_after_stop(false, false), FinishEnding::Unreaped);
}
