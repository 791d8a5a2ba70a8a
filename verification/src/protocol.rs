//! The USB HID protocol of the panel: ioctl request numbers, feature reports,
//! the handshake sequences and the framing of a JPEG image into output reports.

use vstd::prelude::*;

use crate::text::{decimal_digits, hex_chars, hex_fixed, padded_decimal_chars, push_chars, zero_padded};

verus! {

/// Payload bytes carried by one output report.
pub const CHUNK: usize = 1016;


/// USB vendor id of the panel.
pub const USB_VID: u16 = 0x264a;

/// USB product id of the panel.
pub const USB_PID: u16 = 0x232a;

/// `USBDEVFS_RESET`: `_IO('U', 20)`.
pub const USBDEVFS_RESET: u64 = 0x5514;

/// `HIDIOCSFEATURE(n)`: `_IOC(_IOC_WRITE|_IOC_READ, 'H', 0x06, n)`.
pub fn hid_iocsfeature(n: usize) -> (r: u64)
    ensures
        r == ((3u64 << 30u64) | ((n as u64) << 16u64) | (0x48u64 << 8u64) | 0x06u64),
        n < 0x4000 ==> r == 0xC000_0000u64 + n * 0x10000 + 0x4806,
{
    let m = n as u64;
    let r = (3u64 << 30u64) | (m << 16u64) | (0x48u64 << 8u64) | 0x06u64;
    assert(m < 0x4000 ==> (3u64 << 30u64) | (m << 16u64) | (0x48u64 << 8u64) | 0x06u64
        == 0xC000_0000u64 + m * 0x10000 + 0x4806) by (bit_vector);
    r
}

/// `HIDIOCGFEATURE(n)`: `_IOC(_IOC_WRITE|_IOC_READ, 'H', 0x07, n)`.
pub fn hid_iocgfeature(n: usize) -> (r: u64)
    ensures
        r == ((3u64 << 30u64) | ((n as u64) << 16u64) | (0x48u64 << 8u64) | 0x07u64),
        n < 0x4000 ==> r == 0xC000_0000u64 + n * 0x10000 + 0x4807,
{
    let m = n as u64;
    let r = (3u64 << 30u64) | (m << 16u64) | (0x48u64 << 8u64) | 0x07u64;
    assert(m < 0x4000 ==> (3u64 << 30u64) | (m << 16u64) | (0x48u64 << 8u64) | 0x07u64
        == 0xC000_0000u64 + m * 0x10000 + 0x4807) by (bit_vector);
    r
}


/// A 64-byte feature report: report id 0x03, the given bytes after it, zeros to the end.
pub open spec fn feature_report(body: Seq<u8>) -> Seq<u8> {
    seq![0x03u8] + body + Seq::new((63 - body.len()) as nat, |i: int| 0u8)
}

/// Builds a 64-byte feature report with report id 0x03 followed by `body`.
fn make_feature_report(body: &[u8]) -> (r: [u8; 64])
    requires
        body@.len() <= 63,
    ensures
        r@ == feature_report(body@),
{
    let mut buf = [0u8; 64];
    buf[0] = 0x03;
    let mut i: usize = 0;
    while i < body.len()
        invariant
            i <= body@.len() <= 63,
            buf@.len() == 64,
            buf@[0] == 0x03u8,
            forall|k: int| 1 <= k <= i ==> buf@[k] == body@[k - 1],
            forall|k: int| i < k < 64 ==> buf@[k] == 0u8,
        decreases body@.len() - i,
    {
        buf[i + 1] = body[i];
        i = i + 1;
    }
    assert(buf@ =~= feature_report(body@));
    buf
}

/// Feature report 0x18, the first of the initialisation sequence.
pub fn cmd_18() -> (r: [u8; 64])
    ensures
        r@ == feature_report(seq![0x18u8]),
{
    let body: [u8; 1] = [0x18];
    proof {
        assert(body@ =~= seq![0x18u8]);
    }
    make_feature_report(&body)
}

/// Feature report 0x1a, the second of the initialisation sequence.
pub fn cmd_1a() -> (r: [u8; 64])
    ensures
        r@ == feature_report(seq![0x1au8]),
{
    let body: [u8; 1] = [0x1a];
    proof {
        assert(body@ =~= seq![0x1au8]);
    }
    make_feature_report(&body)
}

/// Feature report 0x0c that announces the panel's dimensions (sent four times).
pub fn cmd_0c_dims() -> (r: [u8; 64])
    ensures
        r@ == feature_report(
            seq![0x0cu8, 0x64u8, 0x00u8, 0x00u8, 0x00u8, 0x00u8, 0xe0u8, 0x01u8, 0x80u8, 0x00u8, 0x04u8, 0x05u8, 0x00u8, 0x00u8, 0x00u8],
        ),
{
    let body: [u8; 15] = [0x0c, 0x64, 0x00, 0x00, 0x00, 0x00, 0xe0, 0x01, 0x80, 0x00, 0x04, 0x05, 0x00, 0x00, 0x00];
    proof {
        assert(body@ =~= seq![0x0cu8, 0x64u8, 0x00u8, 0x00u8, 0x00u8, 0x00u8, 0xe0u8, 0x01u8, 0x80u8, 0x00u8, 0x04u8, 0x05u8, 0x00u8, 0x00u8, 0x00u8]);
    }
    make_feature_report(&body)
}

/// Feature report 0x0c that opens every frame after the first.
pub fn cmd_0c_next() -> (r: [u8; 64])
    ensures
        r@ == feature_report(seq![0x0cu8, 0x64u8, 0xffu8, 0xffu8, 0xeau8, 0xffu8, 0xffu8, 0xffu8]),
{
    let body: [u8; 8] = [0x0c, 0x64, 0xff, 0xff, 0xea, 0xff, 0xff, 0xff];
    proof {
        assert(body@ =~= seq![0x0cu8, 0x64u8, 0xffu8, 0xffu8, 0xeau8, 0xffu8, 0xffu8, 0xffu8]);
    }
    make_feature_report(&body)
}

/// Feature report 0x1d, the last of the initialisation sequence; the image must follow at once.
pub fn cmd_1d() -> (r: [u8; 64])
    ensures
        r@ == feature_report(seq![0x1du8, 0x00u8, 0xffu8, 0xffu8, 0xeau8, 0xffu8, 0xffu8, 0xffu8]),
{
    let body: [u8; 8] = [0x1d, 0x00, 0xff, 0xff, 0xea, 0xff, 0xff, 0xff];
    proof {
        assert(body@ =~= seq![0x1du8, 0x00u8, 0xffu8, 0xffu8, 0xeau8, 0xffu8, 0xffu8, 0xffu8]);
    }
    make_feature_report(&body)
}

/// One step of a handshake with the panel.
#[derive(Debug, Clone, Copy)]
pub enum HidStep {
    /// Send this feature report; a failure aborts the handshake.
    SetFeature([u8; 64]),
    /// Read the feature report with this id; a failure is reported and ignored.
    GetFeature(u8),
    /// Wait this many milliseconds.
    SleepMs(u64),
}

/// What a handshake step does, with the report as a byte sequence.
pub ghost enum HidStepView {
    SetFeature(Seq<u8>),
    GetFeature(u8),
    SleepMs(u64),
}

impl View for HidStep {
    type V = HidStepView;

    open spec fn view(&self) -> HidStepView {
        match *self {
            HidStep::SetFeature(b) => HidStepView::SetFeature(b@),
            HidStep::GetFeature(id) => HidStepView::GetFeature(id),
            HidStep::SleepMs(ms) => HidStepView::SleepMs(ms),
        }
    }
}

/// Where a handshake stands after one of its steps ran.
#[derive(Debug, Clone, Copy, PartialEq, Eq, Structural)]
pub enum HandshakeProgress {
    /// Run the step at this index next.
    Next(usize),
    /// Every step ran: the image may follow.
    Done,
    /// A feature write failed: the handshake, and the frame, are given up.
    Aborted,
}

/// Whether a step's failure aborts the handshake: only a failed feature write does; a
/// failed read is reported and the handshake goes on.
pub open spec fn aborts(step: HidStep, succeeded: bool) -> bool {
    step is SetFeature && !succeeded
}

/// The handshake's progress after step `i` ran, successfully or not.
pub fn handshake_advance(steps: &[HidStep], i: usize, succeeded: bool) -> (r: HandshakeProgress)
    requires
        i < steps@.len(),
    ensures
        aborts(steps@[i as int], succeeded) ==> r == HandshakeProgress::Aborted,
        !aborts(steps@[i as int], succeeded) && i + 1 < steps@.len() ==> r == HandshakeProgress::Next(
            (i + 1) as usize,
        ),
        !aborts(steps@[i as int], succeeded) && i + 1 == steps@.len() ==> r == HandshakeProgress::Done,
{
    let is_write = match steps[i] {
        HidStep::SetFeature(_) => true,
        _ => false,
    };
    if is_write && !succeeded {
        HandshakeProgress::Aborted
    } else if i + 1 < steps.len() {
        HandshakeProgress::Next(i + 1)
    } else {
        HandshakeProgress::Done
    }
}

/// The steps of a handshake, each by its view.
pub open spec fn steps_view(steps: Seq<HidStep>) -> Seq<HidStepView> {
    steps.map_values(|s: HidStep| s@)
}

/// The one-time initialisation sequence: 0x18, 0x1a, a read of report 0x07, the dimensions
/// four times, a read of report 0x0f, then 0x1d.
pub open spec fn spec_init_sequence() -> Seq<HidStepView> {
    let dims = HidStepView::SetFeature(feature_report(
        seq![0x0cu8, 0x64u8, 0x00u8, 0x00u8, 0x00u8, 0x00u8, 0xe0u8, 0x01u8, 0x80u8, 0x00u8, 0x04u8, 0x05u8, 0x00u8, 0x00u8, 0x00u8],
    ));
    seq![
        HidStepView::SetFeature(feature_report(seq![0x18u8])),
        HidStepView::SleepMs(50),
        HidStepView::SetFeature(feature_report(seq![0x1au8])),
        HidStepView::SleepMs(50),
        HidStepView::GetFeature(0x07),
        dims,
        HidStepView::SleepMs(20),
        dims,
        HidStepView::SleepMs(20),
        dims,
        HidStepView::SleepMs(20),
        dims,
        HidStepView::SleepMs(20),
        HidStepView::GetFeature(0x0f),
        HidStepView::SetFeature(feature_report(seq![0x1du8, 0x00u8, 0xffu8, 0xffu8, 0xeau8, 0xffu8, 0xffu8, 0xffu8])),
    ]
}

/// The handshake that opens every frame after the first: a read of report 0x0f, whose
/// failure is ignored, then 0x0c, then a pause.
pub open spec fn spec_next_frame_sequence() -> Seq<HidStepView> {
    seq![
        HidStepView::GetFeature(0x0f),
        HidStepView::SetFeature(feature_report(seq![0x0cu8, 0x64u8, 0xffu8, 0xffu8, 0xeau8, 0xffu8, 0xffu8, 0xffu8])),
        HidStepView::SleepMs(20),
    ]
}

/// The handshakes as the bytes that reach the panel. The initialisation writes report 0x03
/// with command 0x18, waits 50 ms, writes command 0x1a, waits 50 ms, reads report 0x07,
/// writes the dimensions command (0x0c: 480 = 0x01e0 by 128 = 0x80) four times with 20 ms
/// after each, reads report 0x0f and writes command 0x1d. Every later frame reads report
/// 0x0f, writes command 0x0c and waits 20 ms. Each written report is 64 bytes, zero after
/// its command.
pub proof fn lemma_handshake_bytes()
    ensures
        spec_init_sequence() == seq![
            HidStepView::SetFeature(seq![0x03u8, 0x18u8] + Seq::new(62, |i: int| 0u8)),
            HidStepView::SleepMs(50),
            HidStepView::SetFeature(seq![0x03u8, 0x1au8] + Seq::new(62, |i: int| 0u8)),
            HidStepView::SleepMs(50),
            HidStepView::GetFeature(0x07),
            HidStepView::SetFeature(seq![0x03u8, 0x0cu8, 0x64u8, 0x00u8, 0x00u8, 0x00u8, 0x00u8, 0xe0u8, 0x01u8, 0x80u8, 0x00u8, 0x04u8, 0x05u8, 0x00u8, 0x00u8, 0x00u8] + Seq::new(48, |i: int| 0u8)),
            HidStepView::SleepMs(20),
            HidStepView::SetFeature(seq![0x03u8, 0x0cu8, 0x64u8, 0x00u8, 0x00u8, 0x00u8, 0x00u8, 0xe0u8, 0x01u8, 0x80u8, 0x00u8, 0x04u8, 0x05u8, 0x00u8, 0x00u8, 0x00u8] + Seq::new(48, |i: int| 0u8)),
            HidStepView::SleepMs(20),
            HidStepView::SetFeature(seq![0x03u8, 0x0cu8, 0x64u8, 0x00u8, 0x00u8, 0x00u8, 0x00u8, 0xe0u8, 0x01u8, 0x80u8, 0x00u8, 0x04u8, 0x05u8, 0x00u8, 0x00u8, 0x00u8] + Seq::new(48, |i: int| 0u8)),
            HidStepView::SleepMs(20),
            HidStepView::SetFeature(seq![0x03u8, 0x0cu8, 0x64u8, 0x00u8, 0x00u8, 0x00u8, 0x00u8, 0xe0u8, 0x01u8, 0x80u8, 0x00u8, 0x04u8, 0x05u8, 0x00u8, 0x00u8, 0x00u8] + Seq::new(48, |i: int| 0u8)),
            HidStepView::SleepMs(20),
            HidStepView::GetFeature(0x0f),
            HidStepView::SetFeature(seq![0x03u8, 0x1du8, 0x00u8, 0xffu8, 0xffu8, 0xeau8, 0xffu8, 0xffu8, 0xffu8] + Seq::new(55, |i: int| 0u8)),
        ],
        spec_next_frame_sequence() == seq![
            HidStepView::GetFeature(0x0f),
            HidStepView::SetFeature(seq![0x03u8, 0x0cu8, 0x64u8, 0xffu8, 0xffu8, 0xeau8, 0xffu8, 0xffu8, 0xffu8] + Seq::new(55, |i: int| 0u8)),
            HidStepView::SleepMs(20),
        ],
{
    assert(feature_report(seq![0x18u8]) =~= seq![0x03u8, 0x18u8] + Seq::new(62, |i: int| 0u8));
    assert(feature_report(seq![0x1au8]) =~= seq![0x03u8, 0x1au8] + Seq::new(62, |i: int| 0u8));
    assert(feature_report(
        seq![0x0cu8, 0x64u8, 0x00u8, 0x00u8, 0x00u8, 0x00u8, 0xe0u8, 0x01u8, 0x80u8, 0x00u8, 0x04u8, 0x05u8, 0x00u8, 0x00u8, 0x00u8],
    ) =~= seq![0x03u8, 0x0cu8, 0x64u8, 0x00u8, 0x00u8, 0x00u8, 0x00u8, 0xe0u8, 0x01u8, 0x80u8, 0x00u8, 0x04u8, 0x05u8, 0x00u8, 0x00u8, 0x00u8] + Seq::new(48, |i: int| 0u8));
    assert(feature_report(seq![0x1du8, 0x00u8, 0xffu8, 0xffu8, 0xeau8, 0xffu8, 0xffu8, 0xffu8]) =~= seq![0x03u8, 0x1du8, 0x00u8, 0xffu8, 0xffu8, 0xeau8, 0xffu8, 0xffu8, 0xffu8] + Seq::new(55, |i: int| 0u8));
    assert(feature_report(seq![0x0cu8, 0x64u8, 0xffu8, 0xffu8, 0xeau8, 0xffu8, 0xffu8, 0xffu8]) =~= seq![0x03u8, 0x0cu8, 0x64u8, 0xffu8, 0xffu8, 0xeau8, 0xffu8, 0xffu8, 0xffu8] + Seq::new(55, |i: int| 0u8));
}

/// One-time init sequence. Must be followed immediately by the image's output reports:
/// any gap after 0x1d makes the panel time out.
pub fn init_display() -> (r: Vec<HidStep>)
    ensures
        steps_view(r@) == spec_init_sequence(),
{
    let mut r: Vec<HidStep> = Vec::new();
    r.push(HidStep::SetFeature(cmd_18()));
    r.push(HidStep::SleepMs(50));
    r.push(HidStep::SetFeature(cmd_1a()));
    r.push(HidStep::SleepMs(50));
    r.push(HidStep::GetFeature(0x07));
    let mut k: usize = 0;
    while k < 4
        invariant
            k <= 4,
            r@.len() == 5 + 2 * k,
            steps_view(r@) == spec_init_sequence().take(5 + 2 * k),
        decreases 4 - k,
    {
        r.push(HidStep::SetFeature(cmd_0c_dims()));
        r.push(HidStep::SleepMs(20));
        k = k + 1;
        assert(steps_view(r@) =~= spec_init_sequence().take(5 + 2 * k));
    }
    r.push(HidStep::GetFeature(0x0f));
    assert(steps_view(r@) =~= spec_init_sequence().take(14));
    r.push(HidStep::SetFeature(cmd_1d()));
    assert(steps_view(r@) =~= spec_init_sequence().take(15));
    assert(spec_init_sequence().take(15) =~= spec_init_sequence());
    r
}

/// Per-frame handshake for frame 2 onwards.
pub fn begin_next_frame() -> (r: Vec<HidStep>)
    ensures
        steps_view(r@) == spec_next_frame_sequence(),
{
    let mut r: Vec<HidStep> = Vec::new();
    r.push(HidStep::GetFeature(0x0f));
    r.push(HidStep::SetFeature(cmd_0c_next()));
    r.push(HidStep::SleepMs(20));
    assert(steps_view(r@) =~= spec_next_frame_sequence());
    r
}


/// Number of output reports that carry an image of `len` bytes: the image is cut
/// into payloads of `CHUNK` bytes, the last one padded with zeros.
pub open spec fn num_reports(len: nat) -> nat {
    ((len + 1015) / 1016) as nat
}

/// Byte `k` of the image once padded with zeros.
pub open spec fn padded_byte(jpeg: Seq<u8>, k: int) -> u8 {
    if 0 <= k < jpeg.len() {
        jpeg[k]
    } else {
        0u8
    }
}

/// Whether report `i` is the last one for an image of `len` bytes.
pub open spec fn is_last_report(len: nat, i: int) -> bool {
    i + 1 == num_reports(len)
}

/// Header of output report `i` for an image of `len` bytes:
/// report id 0x02, 0x09, 0x00, then 0x01 on the last report (it makes the panel show the
/// image) and 0x00 before it, then the payload length (1016, or on the last report the
/// image bytes it carries) and the report index, both as little-endian 16-bit numbers.
pub open spec fn report_header(len: nat, i: int) -> Seq<u8> {
    let last = is_last_report(len, i);
    let trailing = len - i * 1016;
    seq![
        0x02u8,
        0x09u8,
        0x00u8,
        if last { 0x01u8 } else { 0x00u8 },
        if last { (trailing % 256) as u8 } else { 0xf8u8 },
        if last { (trailing / 256 % 256) as u8 } else { 0x03u8 },
        (i % 256) as u8,
        (i / 256 % 256) as u8,
    ]
}

/// Output report `i` of an image: its header, then payload `i` of the zero-padded image.
pub open spec fn spec_report(jpeg: Seq<u8>, i: int) -> Seq<u8> {
    report_header(jpeg.len(), i) + Seq::new(1016, |j: int| padded_byte(jpeg, i * 1016 + j))
}

/// Cuts a JPEG image into the output reports that carry it to the panel, in the order
/// they are written.
pub fn send_chunks(jpeg: &[u8]) -> (r: Vec<Vec<u8>>)
    ensures
        r@.len() == num_reports(jpeg@.len()),
        forall|i: int| 0 <= i < r@.len() ==> (#[trigger] r@[i])@ == spec_report(jpeg@, i),
{
    let len = jpeg.len();
    let total: usize = if len % CHUNK != 0 {
        len / CHUNK + 1
    } else {
        len / CHUNK
    };
    assert(total == num_reports(len as nat));
    let mut reports: Vec<Vec<u8>> = Vec::new();
    let mut i: usize = 0;
    while i < total
        invariant
            len == jpeg@.len(),
            total == num_reports(len as nat),
            i <= total,
            reports@.len() == i,
            forall|k: int| 0 <= k < i ==> (#[trigger] reports@[k])@ == spec_report(jpeg@, k),
        decreases total - i,
    {
        let base = i * CHUNK;
        assert(base <= len);
        let is_last = i == total - 1;
        let mut rep: Vec<u8> = Vec::new();
        rep.push(0x02);
        rep.push(0x09);
        rep.push(0x00);
        if is_last {
            let trailing = len - base;
            rep.push(0x01);
            rep.push((trailing % 256) as u8);
            rep.push((trailing / 256 % 256) as u8);
        } else {
            rep.push(0x00);
            rep.push(0xf8);
            rep.push(0x03);
        }
        rep.push((i % 256) as u8);
        rep.push((i / 256 % 256) as u8);
        assert(rep@ =~= report_header(len as nat, i as int));
        let mut j: usize = 0;
        while j < CHUNK
            invariant
                len == jpeg@.len(),
                base == i * 1016,
                base <= len,
                j <= CHUNK,
                rep@.len() == 8 + j,
                rep@.subrange(0, 8) == report_header(len as nat, i as int),
                forall|t: int| 0 <= t < j ==> #[trigger] rep@[8 + t] == padded_byte(jpeg@, base + t),
            decreases CHUNK - j,
        {
            let b: u8 = if j < len - base {
                jpeg[base + j]
            } else {
                0
            };
            rep.push(b);
            j = j + 1;
            assert(rep@.subrange(0, 8) =~= report_header(len as nat, i as int));
        }
        assert(rep@ =~= spec_report(jpeg@, i as int)) by {
            let sr = spec_report(jpeg@, i as int);
            assert(sr.len() == 1024);
            assert forall|t: int| 0 <= t < 1024 implies #[trigger] rep@[t] == sr[t] by {
                if t < 8 {
                    assert(rep@.subrange(0, 8)[t] == rep@[t]);
                } else {
                    assert(rep@[8 + (t - 8)] == padded_byte(jpeg@, base + (t - 8)));
                }
            }
        }
        reports.push(rep);
        i = i + 1;
    }
    reports
}

/// The reports carry the whole image, in order: byte `k` of the image is byte
/// `8 + k % 1016` of report `k / 1016`, and every payload byte past the image is zero.
/// Only the last report is flagged as last, and it states how many image bytes it carries,
/// between 1 and 1016.
pub proof fn lemma_reports_carry_image(jpeg: Seq<u8>, k: int, i: int)
    requires
        0 <= i < num_reports(jpeg.len()),
    ensures
        0 <= k < jpeg.len() ==> k / 1016 < num_reports(jpeg.len()) && spec_report(jpeg, k / 1016)[8 + k % 1016] == jpeg[k],
        spec_report(jpeg, i).len() == 8 + 1016,
        forall|j: int| 0 <= j < 1016 && i * 1016 + j >= jpeg.len() ==> #[trigger] spec_report(jpeg, i)[8 + j] == 0u8,
        (spec_report(jpeg, i)[3] == 0x01u8) == (i == num_reports(jpeg.len()) - 1),
        i == num_reports(jpeg.len()) - 1 ==> 1 <= jpeg.len() - i * 1016 <= 1016,
{
    if 0 <= k < jpeg.len() {
        let q = k / 1016;
        let r = k % 1016;
        assert(q * 1016 + r == k);
        assert(spec_report(jpeg, q)[8 + r] == padded_byte(jpeg, q * 1016 + r));
    }
}


/// Text that identifies the panel in a hidraw device's `uevent` file once upper-cased:
/// vendor and product as eight upper-case hexadecimal digits each, joined by `:`.
pub open spec fn spec_hid_id_pattern(vendor: u16, product: u16) -> Seq<char> {
    hex_fixed(vendor as nat, 8, true) + seq![':'] + hex_fixed(product as nat, 8, true)
}

/// Text that identifies the panel in a USB device's `uevent` file: vendor and product
/// as four lower-case hexadecimal digits each, joined by `/`.
pub open spec fn spec_usb_id_pattern(vendor: u16, product: u16) -> Seq<char> {
    hex_fixed(vendor as nat, 4, false) + seq!['/'] + hex_fixed(product as nat, 4, false)
}

/// Path of the USB device node for a bus and device number, each zero-padded to three digits.
pub open spec fn spec_usb_device_path(bus: u32, dev: u32) -> Seq<char> {
    "/dev/bus/usb/"@ + zero_padded(decimal_digits(bus as nat), 3) + seq!['/'] + zero_padded(
        decimal_digits(dev as nat),
        3,
    )
}

/// The `uevent` text that marks the panel's hidraw device (`{vendor:08X}:{product:08X}`).
pub fn hid_id_pattern(vendor: u16, product: u16) -> (r: String)
    ensures
        r@ == spec_hid_id_pattern(vendor, product),
{
    let mut r = String::new();
    let v = hex_chars(vendor as u64, 8, true);
    push_chars(&mut r, v.as_slice());
    let sep: [char; 1] = [':'];
    push_chars(&mut r, &sep);
    let p = hex_chars(product as u64, 8, true);
    push_chars(&mut r, p.as_slice());
    assert(sep@ =~= seq![':']);
    r
}

/// The `uevent` text that marks the panel's USB device (`{vendor:04x}/{product:04x}`).
pub fn usb_id_pattern(vendor: u16, product: u16) -> (r: String)
    ensures
        r@ == spec_usb_id_pattern(vendor, product),
{
    let mut r = String::new();
    let v = hex_chars(vendor as u64, 4, false);
    push_chars(&mut r, v.as_slice());
    let sep: [char; 1] = ['/'];
    push_chars(&mut r, &sep);
    let p = hex_chars(product as u64, 4, false);
    push_chars(&mut r, p.as_slice());
    assert(sep@ =~= seq!['/']);
    r
}

/// Path of the device node to reset (`/dev/bus/usb/{bus:03}/{dev:03}`).
pub fn usb_device_path(bus: u32, dev: u32) -> (r: String)
    ensures
        r@ == spec_usb_device_path(bus, dev),
{
    let mut r = String::from_str("/dev/bus/usb/");
    let b = padded_decimal_chars(bus as u64, 3);
    push_chars(&mut r, b.as_slice());
    let sep: [char; 1] = ['/'];
    push_chars(&mut r, &sep);
    let d = padded_decimal_chars(dev as u64, 3);
    push_chars(&mut r, d.as_slice());
    assert(sep@ =~= seq!['/']);
    r
}

} // verus!
