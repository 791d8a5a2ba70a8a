//! Sensor readings: what to read, how the raw sysfs and hook-file contents are decoded,
//! and the history of frame times kept for the graph.

use vstd::prelude::*;

use crate::config::SensorNeeds;
use crate::text::{chars_of, lemma_trim_drops_trailing_ws, opt_view, parse_u64, spec_parse_u64, skip_nonwhitespace, skip_whitespace, skip_word, skip_ws, slice_chars, spec_trim, string_of, trimmed_equals};

verus! {

/// Fixed number of sample slots for the frametime graph.
pub const FRAMETIME_SLOTS: usize = 200;

/// The history after one more sample: the sample is appended and, if that makes the
/// history longer than `max`, the oldest sample is dropped.
pub open spec fn next_history<S>(h: Seq<S>, sample: S, max: nat) -> Seq<S> {
    let p = h.push(sample);
    if p.len() > max {
        p.subrange(1, p.len() as int)
    } else {
        p
    }
}

/// Persistent state for GPU sensor readings across sensor reads; `S` is the type of
/// one frame-time sample.
pub struct GpuSensorState<S> {
    pub frametime_history: Vec<S>,
    pub fps_file_path: String,
    max_history: usize,
}

impl<S> Default for GpuSensorState<S> {
    fn default() -> (r: Self)
        ensures
            r.history() == Seq::<S>::empty(),
            r.fps_path() == "/tmp/tt-rc-pro-fps"@,
            r.max_history() == FRAMETIME_SLOTS,
    {
        GpuSensorState {
            frametime_history: Vec::with_capacity(FRAMETIME_SLOTS),
            fps_file_path: String::from_str("/tmp/tt-rc-pro-fps"),
            max_history: FRAMETIME_SLOTS,
        }
    }
}

impl<S> GpuSensorState<S> {
    /// The frame-time samples, oldest first.
    pub closed spec fn history(&self) -> Seq<S> {
        self.frametime_history@
    }

    /// The file the FPS hook writes to.
    pub closed spec fn fps_path(&self) -> Seq<char> {
        self.fps_file_path@
    }

    /// Most samples the history keeps.
    pub closed spec fn max_history(&self) -> nat {
        self.max_history as nat
    }

    /// Appends a frame-time sample, dropping the oldest one past the limit.
    pub fn push_frametime(&mut self, ft: S)
        ensures
            final(self).history() == next_history(old(self).history(), ft, old(self).max_history()),
            final(self).max_history() == old(self).max_history(),
            final(self).fps_path() == old(self).fps_path(),
    {
        self.frametime_history.push(ft);
        if self.frametime_history.len() > self.max_history {
            self.frametime_history.remove(0);
            assert(self.frametime_history@ =~= next_history(
                old(self).history(),
                ft,
                old(self).max_history(),
            ));
        }
    }

    /// Records what the hook file gave: a frame time is appended; its absence means the
    /// source has gone, and the history is cleared so that the graph disappears.
    pub fn record_frametime(&mut self, ft: Option<S>)
        ensures
            final(self).history() == match ft {
                Some(t) => next_history(old(self).history(), t, old(self).max_history()),
                None => Seq::<S>::empty(),
            },
            final(self).max_history() == old(self).max_history(),
            final(self).fps_path() == old(self).fps_path(),
    {
        match ft {
            Some(t) => self.push_frametime(t),
            None => self.frametime_history.clear(),
        }
    }
}

/// The history never grows past its limit, and it always holds the most recent samples,
/// oldest first: the new history is the tail of the old one with the new sample appended.
pub proof fn lemma_history_keeps_latest<S>(h: Seq<S>, sample: S, max: nat)
    requires
        h.len() <= max,
    ensures
        next_history(h, sample, max).len() <= max,
        max > 0 ==> next_history(h, sample, max).len() == if h.len() < max { h.len() + 1 } else { max },
        max > 0 ==> next_history(h, sample, max).last() == sample,
        next_history(h, sample, max) == h.push(sample).subrange(
            h.len() + 1 - next_history(h, sample, max).len(),
            (h.len() + 1) as int,
        ),
{
    let p = h.push(sample);
    if p.len() > max {
        assert(p.subrange(1, p.len() as int) =~= p.subrange(h.len() + 1 - (p.len() - 1), (h.len() + 1) as int));
    } else {
        assert(p =~= p.subrange(0, (h.len() + 1) as int));
    }
}

/// Little-endian 16-bit number at `offset`.
pub open spec fn le_u16(data: Seq<u8>, offset: int) -> u16 {
    (data[offset] as int + 256 * (data[offset + 1] as int)) as u16
}

/// GPU activity from the `gpu_metrics` binary file of an AMD GPU: header byte 2 is the
/// format revision; revision 1 (desktop GPUs) holds the average activity at offset 10,
/// revisions 2 and 3 (APUs) at offset 6; 0xFFFF means the value is not available.
pub open spec fn spec_gpu_metrics_activity(data: Seq<u8>) -> Option<u16> {
    if data.len() < 4 {
        None
    } else {
        let offset: int = if data[2] == 1u8 {
            10
        } else if data[2] == 2u8 || data[2] == 3u8 {
            6
        } else {
            -1
        };
        if offset < 0 || data.len() < offset + 2 || le_u16(data, offset) == 0xFFFFu16 {
            None
        } else {
            Some(le_u16(data, offset))
        }
    }
}

/// Reads the average graphics activity from the contents of `gpu_metrics`.
pub fn gpu_metrics_activity(data: &[u8]) -> (r: Option<u16>)
    ensures
        r == spec_gpu_metrics_activity(data@),
{
    if data.len() < 4 {
        return None;
    }
    let format_revision = data[2];
    let offset: usize = if format_revision == 1 {
        10
    } else if format_revision == 2 || format_revision == 3 {
        6
    } else {
        return None;
    };
    if data.len() < offset + 2 {
        return None;
    }
    let val: u16 = data[offset] as u16 + 256 * (data[offset + 1] as u16);
    if val == 0xFFFF {
        None
    } else {
        Some(val)
    }
}

/// The first two white-space separated fields of the FPS hook's file (`fps frametime_ms`):
/// none when the file holds no field, only the first when it holds one.
pub open spec fn spec_fps_fields(s: Seq<char>) -> (Option<Seq<char>>, Option<Seq<char>>) {
    let a0 = skip_ws(s, 0);
    let e0 = skip_word(s, a0);
    let a1 = skip_ws(s, e0);
    let e1 = skip_word(s, a1);
    if a0 >= s.len() {
        (None, None)
    } else if a1 >= s.len() {
        (Some(s.subrange(a0, e0)), None)
    } else {
        (Some(s.subrange(a0, e0)), Some(s.subrange(a1, e1)))
    }
}

proof fn lemma_skips_in_range(s: Seq<char>, i: int)
    requires
        0 <= i <= s.len(),
    ensures
        i <= skip_ws(s, i) <= s.len(),
        i <= skip_word(s, i) <= s.len(),
    decreases s.len() - i,
{
    if i < s.len() {
        lemma_skips_in_range(s, i + 1);
    }
}

/// Splits the FPS hook's file into its FPS and frame-time fields.
pub fn fps_fields(content: &str) -> (r: (Option<String>, Option<String>))
    ensures
        (opt_view(r.0), opt_view(r.1)) == spec_fps_fields(content@),
{
    let cs = chars_of(content);
    let s = cs.as_slice();
    proof {
        lemma_skips_in_range(s@, 0);
    }
    let a0 = skip_whitespace(s, 0);
    proof {
        lemma_skips_in_range(s@, a0 as int);
    }
    let e0 = skip_nonwhitespace(s, a0);
    proof {
        lemma_skips_in_range(s@, e0 as int);
    }
    let a1 = skip_whitespace(s, e0);
    proof {
        lemma_skips_in_range(s@, a1 as int);
    }
    let e1 = skip_nonwhitespace(s, a1);
    if a0 >= s.len() {
        (None, None)
    } else {
        let first = string_of(slice_chars(s, a0, e0).as_slice());
        if a1 >= s.len() {
            (Some(first), None)
        } else {
            let second = string_of(slice_chars(s, a1, e1).as_slice());
            (Some(first), Some(second))
        }
    }
}

/// The temperature sensors the panel shows.
#[derive(Debug, Clone, Copy, PartialEq, Eq, Structural)]
pub enum TempSensor {
    Cpu,
    Gpu,
    Nvme,
}

/// Which sensor a hwmon device with this `name` file provides, and the label of its
/// temperature input, when that sensor is needed: `k10temp` gives the CPU (`Tctl`),
/// `amdgpu` the GPU (`edge`), `nvme` the NVMe drive (`Composite`).
pub open spec fn spec_hwmon_probe(name: Seq<char>, needs: SensorNeeds) -> Option<(TempSensor, Seq<char>)> {
    let n = spec_trim(name);
    if n == "k10temp"@ && needs.cpu_temp {
        Some((TempSensor::Cpu, "Tctl"@))
    } else if n == "amdgpu"@ && needs.gpu_temp {
        Some((TempSensor::Gpu, "edge"@))
    } else if n == "nvme"@ && needs.nvme_temp {
        Some((TempSensor::Nvme, "Composite"@))
    } else {
        None
    }
}

/// Decides what to read from a hwmon device, given the contents of its `name` file.
pub fn hwmon_probe(name: &str, needs: &SensorNeeds) -> (r: Option<(TempSensor, &'static str)>)
    ensures
        match r {
            Some((sensor, label)) => spec_hwmon_probe(name@, *needs) == Some((sensor, label@)),
            None => spec_hwmon_probe(name@, *needs) is None,
        },
{
    if needs.cpu_temp && trimmed_equals(name, "k10temp") {
        Some((TempSensor::Cpu, "Tctl"))
    } else if needs.gpu_temp && trimmed_equals(name, "amdgpu") {
        Some((TempSensor::Gpu, "edge"))
    } else if needs.nvme_temp && trimmed_equals(name, "nvme") {
        Some((TempSensor::Nvme, "Composite"))
    } else {
        None
    }
}

/// The probe reads a device's `name` file only through its trimmed text: two names that
/// trim to the same text are probed alike.
pub proof fn lemma_hwmon_probe_reads_trimmed_name(a: Seq<char>, b: Seq<char>, needs: SensorNeeds)
    requires
        spec_trim(a) == spec_trim(b),
    ensures
        spec_hwmon_probe(a, needs) == spec_hwmon_probe(b, needs),
{
}

/// A `name` file ends in a line feed: the probe gives for it what it gives for the bare
/// name.
pub proof fn lemma_hwmon_probe_ignores_line_feed(name: Seq<char>, needs: SensorNeeds)
    ensures
        spec_hwmon_probe(name.push('\n'), needs) == spec_hwmon_probe(name, needs),
{
    lemma_trim_drops_trailing_ws(name, '\n');
}

/// The devices the panel reads: a device whose trimmed name is `k10temp`, `amdgpu` or
/// `nvme` gives the CPU's `Tctl`, the GPU's `edge` or the drive's `Composite` input when
/// that temperature is needed, and nothing when it is not; any other device gives nothing.
pub proof fn lemma_hwmon_probe_devices(name: Seq<char>, needs: SensorNeeds)
    ensures
        spec_trim(name) == "k10temp"@ ==> spec_hwmon_probe(name, needs) == if needs.cpu_temp {
            Some((TempSensor::Cpu, "Tctl"@))
        } else {
            None
        },
        spec_trim(name) == "amdgpu"@ ==> spec_hwmon_probe(name, needs) == if needs.gpu_temp {
            Some((TempSensor::Gpu, "edge"@))
        } else {
            None
        },
        spec_trim(name) == "nvme"@ ==> spec_hwmon_probe(name, needs) == if needs.nvme_temp {
            Some((TempSensor::Nvme, "Composite"@))
        } else {
            None
        },
        spec_trim(name) != "k10temp"@ && spec_trim(name) != "amdgpu"@ && spec_trim(name) != "nvme"@
            ==> spec_hwmon_probe(name, needs) is None,
{
    reveal_strlit("k10temp");
    reveal_strlit("amdgpu");
    reveal_strlit("nvme");
    assert("k10temp"@ != "amdgpu"@) by { assert("k10temp"@[0] != "amdgpu"@[0]); }
    assert("k10temp"@ != "nvme"@) by { assert("k10temp"@.len() != "nvme"@.len()); }
    assert("amdgpu"@ != "nvme"@) by { assert("amdgpu"@.len() != "nvme"@.len()); }
}

/// Limit, in millidegrees Celsius, of the GPU whose `edge` temperature is shown: of the
/// `amdgpu` devices, the one whose `edge` input is limited to 100 °C.
pub const GPU_EDGE_HIGH_MILLIDEG: u64 = 100000;

/// Whether a temperature input found for the sensor is shown, given the contents of that
/// input's limit file (`temp{i}_crit`, the limit that `amdgpu` gives its inputs) where it
/// could be read: the GPU's only where the limit is 100 °C; the CPU's and the drive's always.
pub open spec fn spec_temp_accepted(sensor: TempSensor, high: Option<Seq<char>>) -> bool {
    match sensor {
        TempSensor::Gpu => match high {
            Some(h) => spec_parse_u64(h) == Some(GPU_EDGE_HIGH_MILLIDEG),
            None => false,
        },
        _ => true,
    }
}

/// Decides whether a temperature input found for the sensor is shown, from its limit.
pub fn temp_accepted(sensor: TempSensor, high: Option<&str>) -> (r: bool)
    ensures
        r == spec_temp_accepted(
            sensor,
            match high {
                Some(h) => Some(h@),
                None => None,
            },
        ),
{
    match sensor {
        TempSensor::Gpu => match high {
            Some(h) => parse_u64(h) == Some(GPU_EDGE_HIGH_MILLIDEG),
            None => false,
        },
        _ => true,
    }
}

/// Whether any temperature is needed at all; when none is, the hwmon devices are not read.
pub fn needs_any_temp(needs: &SensorNeeds) -> (r: bool)
    ensures
        r == (needs.cpu_temp || needs.gpu_temp || needs.nvme_temp),
{
    needs.cpu_temp || needs.gpu_temp || needs.nvme_temp
}

} // verus!
