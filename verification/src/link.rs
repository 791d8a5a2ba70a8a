//! Decisions of the loop that drives the panel: when to open the device, which handshake
//! precedes a frame, and how failures lead to a USB reset.

use vstd::prelude::*;

use crate::protocol::{begin_next_frame, init_display, spec_init_sequence, spec_next_frame_sequence, steps_view, HidStep};

verus! {

/// Consecutive failures after which the loop resets the USB device.
pub const RESET_AFTER_ERRORS: u32 = 2;

/// Seconds to wait when the device to reset cannot be found.
pub const RESET_NOT_FOUND_WAIT_SECS: u64 = 5;

/// What became of an attempt to reset the USB device.
#[derive(Debug, Clone, Copy, PartialEq, Eq, Structural)]
pub enum ResetOutcome {
    /// The device's bus address could not be found.
    NotFound,
    /// The reset request failed.
    Failed,
    /// The device was reset.
    Done,
}

/// Error count after one more failed frame, and whether to reset the device now.
pub open spec fn spec_after_failure(errors: u32) -> (u32, bool) {
    ((errors + 1) as u32, errors + 1 >= RESET_AFTER_ERRORS)
}

/// Error count after a reset attempt, and how many seconds to wait before going on.
pub open spec fn spec_after_reset(errors: u32, outcome: ResetOutcome) -> (u32, u64) {
    match outcome {
        ResetOutcome::Done => (0, 0),
        ResetOutcome::Failed => (errors, 0),
        ResetOutcome::NotFound => (errors, RESET_NOT_FOUND_WAIT_SECS),
    }
}

/// Counts a failed frame; a reset is due once two frames in a row have failed.
pub fn after_failure(errors: u32) -> (r: (u32, bool))
    requires
        errors < u32::MAX,
    ensures
        r == spec_after_failure(errors),
{
    let n = errors + 1;
    (n, n >= RESET_AFTER_ERRORS)
}

/// Applies the outcome of a reset attempt: a reset clears the count; a device that cannot
/// be found makes the loop wait five seconds.
pub fn after_reset(errors: u32, outcome: ResetOutcome) -> (r: (u32, u64))
    ensures
        r == spec_after_reset(errors, outcome),
{
    match outcome {
        ResetOutcome::Done => (0, 0),
        ResetOutcome::Failed => (errors, 0),
        ResetOutcome::NotFound => (errors, RESET_NOT_FOUND_WAIT_SECS),
    }
}

/// Shared state between GUI and LCD thread.
pub struct LcdState<D> {
    pub last_sensor_data: D,
    pub device_connected: bool,
    pub consecutive_errors: u32,
}

impl<D: Default> Default for LcdState<D> {
    fn default() -> (r: Self)
        ensures
            !r.device_connected,
            r.consecutive_errors == 0,
    {
        LcdState { last_sensor_data: D::default(), device_connected: false, consecutive_errors: 0 }
    }
}

impl<D> LcdState<D> {
    /// Records a frame that reached the panel.
    pub fn record_success(&mut self)
        ensures
            final(self).device_connected,
            final(self).consecutive_errors == 0,
            final(self).last_sensor_data == old(self).last_sensor_data,
    {
        self.device_connected = true;
        self.consecutive_errors = 0;
    }

    /// Records a frame that failed; returns whether the USB device should be reset now.
    pub fn record_failure(&mut self) -> (reset: bool)
        requires
            old(self).consecutive_errors < u32::MAX,
        ensures
            (final(self).consecutive_errors, reset) == spec_after_failure(old(self).consecutive_errors),
            final(self).device_connected == old(self).device_connected,
            final(self).last_sensor_data == old(self).last_sensor_data,
    {
        let (n, reset) = after_failure(self.consecutive_errors);
        self.consecutive_errors = n;
        reset
    }

    /// Records the outcome of a reset attempt; returns the seconds to wait before going on.
    pub fn record_reset(&mut self, outcome: ResetOutcome) -> (wait_secs: u64)
        ensures
            (final(self).consecutive_errors, wait_secs) == spec_after_reset(old(self).consecutive_errors, outcome),
            final(self).device_connected == old(self).device_connected,
            final(self).last_sensor_data == old(self).last_sensor_data,
    {
        let (n, wait) = after_reset(self.consecutive_errors, outcome);
        self.consecutive_errors = n;
        wait
    }
}

/// A reset is attempted exactly when the failure just counted is at least the second in a
/// row, and a successful frame or a successful reset starts the count again.
pub proof fn lemma_reset_after_two_failures(errors: u32)
    requires
        errors < u32::MAX,
    ensures
        spec_after_failure(errors).1 == (errors >= 1),
        spec_after_failure(errors).0 == errors + 1,
        spec_after_reset(errors, ResetOutcome::Done).0 == 0,
        errors == 0 ==> !spec_after_failure(errors).1 && spec_after_failure(spec_after_failure(errors).0).1,
{
}

/// A session whose device has just been opened.
pub open spec fn spec_opened() -> Session {
    Session { device_open: true, first_frame: true }
}

/// A session after a frame reached the panel.
pub open spec fn spec_session_sent(s: Session) -> Session {
    Session { first_frame: false, ..s }
}

/// A session after a failed frame: the device is dropped.
pub open spec fn spec_session_failed(s: Session) -> Session {
    Session { device_open: false, ..s }
}

/// The handshake that precedes the next frame's image.
pub open spec fn spec_handshake(s: Session) -> Seq<crate::protocol::HidStepView> {
    if s.first_frame {
        spec_init_sequence()
    } else {
        spec_next_frame_sequence()
    }
}

/// Where the connection to the panel stands between frames.
#[derive(Debug, Clone, Copy)]
pub struct Session {
    /// Whether the HID device is open.
    pub device_open: bool,
    /// Whether the next frame is the first since the device was opened.
    pub first_frame: bool,
}

impl Session {
    /// No device open yet.
    pub fn new() -> (r: Session)
        ensures
            !r.device_open,
            r.first_frame,
    {
        Session { device_open: false, first_frame: true }
    }

    /// The device has just been opened: the next frame is a first frame.
    pub fn opened(&mut self)
        ensures
            *final(self) == spec_opened(),
    {
        self.device_open = true;
        self.first_frame = true;
    }

    /// The handshake to send before the next frame's image: the initialisation sequence on
    /// the first frame, the short per-frame sequence after it.
    pub fn handshake(&self) -> (r: Vec<HidStep>)
        ensures
            steps_view(r@) == spec_handshake(*self),
    {
        if self.first_frame {
            init_display()
        } else {
            begin_next_frame()
        }
    }

    /// The frame reached the panel: the ones after it are not first frames.
    pub fn frame_sent(&mut self)
        ensures
            *final(self) == spec_session_sent(*old(self)),
    {
        self.first_frame = false;
    }

    /// The frame failed: the device is dropped and opened again before the next frame.
    pub fn frame_failed(&mut self)
        ensures
            *final(self) == spec_session_failed(*old(self)),
    {
        self.device_open = false;
    }
}

/// The headless loop's state between frames: its failure count and its connection.
#[derive(Debug, Clone, Copy)]
pub struct DaemonState {
    pub consecutive_errors: u32,
    pub session: Session,
}

/// The state after a frame reached the panel.
pub open spec fn spec_daemon_succeeded(d: DaemonState) -> DaemonState {
    DaemonState { consecutive_errors: 0, ..d }
}

/// The state after a failed frame, and whether the USB device is to be reset now.
pub open spec fn spec_daemon_failed(d: DaemonState) -> (DaemonState, bool) {
    let (errors, reset) = spec_after_failure(d.consecutive_errors);
    (DaemonState { consecutive_errors: errors, session: spec_session_failed(d.session) }, reset)
}

/// The state after a reset attempt, and the seconds to wait before going on.
pub open spec fn spec_daemon_reset(d: DaemonState, outcome: ResetOutcome) -> (DaemonState, u64) {
    let (errors, wait) = spec_after_reset(d.consecutive_errors, outcome);
    (DaemonState { consecutive_errors: errors, ..d }, wait)
}

impl DaemonState {
    /// No failure yet, and no device open.
    pub fn new() -> (r: DaemonState)
        ensures
            r.consecutive_errors == 0,
            r.session == (Session { device_open: false, first_frame: true }),
    {
        DaemonState { consecutive_errors: 0, session: Session::new() }
    }

    /// A frame reached the panel: the failure count starts again.
    pub fn frame_succeeded(&mut self)
        ensures
            *final(self) == spec_daemon_succeeded(*old(self)),
    {
        self.consecutive_errors = 0;
    }

    /// A frame failed: the device is dropped and the failure counted; returns whether the
    /// USB device is to be reset now.
    pub fn frame_failed(&mut self) -> (reset: bool)
        requires
            old(self).consecutive_errors < u32::MAX,
        ensures
            (*final(self), reset) == spec_daemon_failed(*old(self)),
    {
        let (errors, reset) = after_failure(self.consecutive_errors);
        self.consecutive_errors = errors;
        self.session.frame_failed();
        reset
    }

    /// Records the outcome of a reset attempt; returns the seconds to wait before going on.
    pub fn reset_attempted(&mut self, outcome: ResetOutcome) -> (wait_secs: u64)
        ensures
            (*final(self), wait_secs) == spec_daemon_reset(*old(self), outcome),
    {
        let (errors, wait) = after_reset(self.consecutive_errors, outcome);
        self.consecutive_errors = errors;
        wait
    }
}

/// Recovery of the headless loop: a good frame clears the failure count; a failed frame
/// drops the device and counts one more failure, and from the second failure in a row on
/// asks for a USB reset; a successful reset clears the count, an unsuccessful one keeps it;
/// and the frame after a failure opens the device again and is preceded by the full
/// initialisation handshake.
pub proof fn lemma_daemon_recovery(d: DaemonState, outcome: ResetOutcome)
    requires
        d.consecutive_errors < u32::MAX,
    ensures
        spec_daemon_succeeded(d).consecutive_errors == 0,
        spec_daemon_failed(d).0.consecutive_errors == d.consecutive_errors + 1,
        spec_daemon_failed(d).1 == (d.consecutive_errors + 1 >= RESET_AFTER_ERRORS),
        !spec_daemon_failed(d).0.session.device_open,
        spec_handshake(spec_opened()) == spec_init_sequence(),
        spec_daemon_reset(spec_daemon_failed(d).0, outcome).0.consecutive_errors == if outcome
            == ResetOutcome::Done {
            0
        } else {
            d.consecutive_errors + 1
        },
        spec_daemon_reset(spec_daemon_failed(d).0, outcome).0.session == spec_daemon_failed(d).0.session,
{
}

} // verus!
