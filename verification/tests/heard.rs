use crucible_core::sandbox::heard::{heard_action, HeardAction, HeardBuffer};
use crucible_core::sandbox::service::SandboxRead;

#[test]
fn nothing_yet_is_a_pause_and_not_an_ending() {
    assert_eq!(heard_action(SandboxRead::Pending, false, false), HeardAction::Pause);
    assert_eq!(heard_action(SandboxRead::Bytes(0), false, false), HeardAction::Pause);
    assert_eq!(heard_action(SandboxRead::End, false, false), HeardAction::Ended);
}

#[test]
fn a_stop_is_answered_before_the_patience() {
    assert_eq!(heard_action(SandboxRead::Pending, true, true), HeardAction::Abandoned);
    assert_eq!(heard_action(SandboxRead::Pending, false, true), HeardAction::Silent);
    assert_eq!(heard_action(SandboxRead::Bytes(0), true, false), HeardAction::Abandoned);
}

#[test]
fn arrived_bytes_are_held_and_lost_ones_end_the_conversation() {
    assert_eq!(heard_action(SandboxRead::Bytes(7), true, true), HeardAction::Hold(7));
    assert_eq!(heard_action(SandboxRead::Limited { retained: 12, discarded: 4096 }, false, false), HeardAction::Lost(4096));
}

#[test]
fn held_bytes_are_read_once_in_order() {
    let mut buffer = HeardBuffer::new();
    assert!(buffer.spent());
    buffer.hold(b"ready\n");
    assert!(!buffer.spent());
    assert_eq!(buffer.available(), b"ready\n");

    let mut first = [0u8; 4];
    assert_eq!(buffer.read_into(&mut first), 4);
    assert_eq!(&first, b"read");
    assert_eq!(buffer.available(), b"y\n");

    let mut rest = [9u8; 4];
    assert_eq!(buffer.read_into(&mut rest), 2);
    assert_eq!(&rest, &[b'y', b'\n', 9, 9]);
    assert!(buffer.spent());
    assert_eq!(buffer.read_into(&mut rest), 0);
}

#[test]
fn consuming_never_passes_what_is_held() {
    let mut buffer = HeardBuffer::new();
    buffer.hold(b"abc");
    buffer.consume(1);
    assert_eq!(buffer.available(), b"bc");
    buffer.consume(usize::MAX);
    assert!(buffer.spent());
    assert_eq!(buffer.available(), b"");
    buffer.hold(b"");
    assert!(buffer.spent());
}
