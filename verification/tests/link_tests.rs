use tt_rc_pro::link::{after_failure, after_reset, DaemonState, LcdState, ResetOutcome, Session};
use tt_rc_pro::protocol::HidStep;

#[test]
fn reset_after_second_consecutive_failure() {
    assert_eq!(after_failure(0), (1, false));
    assert_eq!(after_failure(1), (2, true));
    assert_eq!(after_failure(7), (8, true));
}

#[test]
fn reset_outcomes() {
    assert_eq!(after_reset(2, ResetOutcome::Done), (0, 0));
    assert_eq!(after_reset(2, ResetOutcome::Failed), (2, 0));
    assert_eq!(after_reset(3, ResetOutcome::NotFound), (3, 5));
}

#[test]
fn lcd_state_counts_errors() {
    let mut s: LcdState<u8> = LcdState::default();
    assert!(!s.device_connected);
    assert!(!s.record_failure());
    assert!(s.record_failure());
    assert_eq!(s.record_reset(ResetOutcome::NotFound), 5);
    assert_eq!(s.consecutive_errors, 2);
    assert_eq!(s.record_reset(ResetOutcome::Done), 0);
    assert_eq!(s.consecutive_errors, 0);
    s.record_failure();
    s.record_success();
    assert!(s.device_connected);
    assert_eq!(s.consecutive_errors, 0);
}

#[test]
fn session_handshakes() {
    let mut s = Session::new();
    assert!(!s.device_open);
    s.opened();
    assert_eq!(s.handshake().len(), 15);
    s.frame_sent();
    let h = s.handshake();
    assert_eq!(h.len(), 3);
    assert!(matches!(h[0], HidStep::GetFeature(0x0f)));
    s.frame_failed();
    assert!(!s.device_open);
    s.opened();
    assert!(s.first_frame);
}

#[test]
fn daemon_recovers_from_failures() {
    let mut d = DaemonState::new();
    assert_eq!(d.consecutive_errors, 0);
    d.session.opened();
    assert_eq!(d.session.handshake().len(), 15);
    d.session.frame_sent();
    assert!(!d.frame_failed(), "the first failure only drops the device");
    assert!(!d.session.device_open);
    assert_eq!(d.consecutive_errors, 1);
    d.session.opened();
    assert_eq!(d.session.handshake().len(), 15, "a reopened device is initialised again");
    assert!(d.frame_failed(), "the second failure in a row asks for a reset");
    assert_eq!(d.reset_attempted(ResetOutcome::Failed), 0);
    assert_eq!(d.consecutive_errors, 2);
    assert_eq!(d.reset_attempted(ResetOutcome::NotFound), 5);
    assert_eq!(d.reset_attempted(ResetOutcome::Done), 0);
    assert_eq!(d.consecutive_errors, 0);
    d.frame_failed();
    d.frame_succeeded();
    assert_eq!(d.consecutive_errors, 0);
}
