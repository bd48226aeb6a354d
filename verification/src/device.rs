//! Capture, trigger and waveform configuration, control commands, and the
//! published device snapshot.

use vstd::prelude::*;

use crate::worker_interface::FleaScopeDevice;

verus! {

/// Shortest permitted capture window, in microseconds.
pub const MIN_TIME_FRAME_US: u64 = 122;

/// Longest permitted capture window, in microseconds.
pub const MAX_TIME_FRAME_US: u64 = 3_490_000;

/// Clamps a requested capture window to the supported range.
pub fn clamp_time_frame_us(t: u64) -> (r: u64)
    ensures
        t < MIN_TIME_FRAME_US ==> r == MIN_TIME_FRAME_US,
        t > MAX_TIME_FRAME_US ==> r == MAX_TIME_FRAME_US,
        MIN_TIME_FRAME_US <= t <= MAX_TIME_FRAME_US ==> r == t,
{
    if t < MIN_TIME_FRAME_US {
        MIN_TIME_FRAME_US
    } else if t > MAX_TIME_FRAME_US {
        MAX_TIME_FRAME_US
    } else {
        t
    }
}

/// Probe front-end selection: a x1 or a x10 attenuating probe.
#[derive(Clone, Copy, Debug, PartialEq, Eq, Structural)]
pub enum ProbeType {
    X1,
    X10,
}

/// State asked of one digital channel in a trigger pattern.
#[derive(Clone, Copy, Debug, PartialEq, Eq, Structural)]
pub enum BitState {
    Low,
    High,
    DontCare,
}

/// Advances one slot of a digital trigger pattern to the next state, in
/// the order don't-care, high, low, and around again.
pub fn cycle_bitstate(state: BitState) -> (r: BitState)
    ensures
        state is DontCare ==> r is High,
        state is High ==> r is Low,
        state is Low ==> r is DontCare,
{
    match state {
        BitState::DontCare => BitState::High,
        BitState::High => BitState::Low,
        BitState::Low => BitState::DontCare,
    }
}

/// Shape produced by the on-board waveform generator.
#[derive(Clone, Copy, Debug, PartialEq, Eq, Structural)]
pub enum Waveform {
    Sine,
    Square,
    Triangle,
    Ekg,
}

/// Glyph shown for a waveform shape.
pub fn waveform_to_icon(waveform: Waveform) -> (r: &'static str)
    ensures
        waveform is Sine ==> r@ == "~"@,
        waveform is Square ==> r@ == "|-|"@,
        waveform is Triangle ==> r@ == "/\\"@,
        waveform is Ekg ==> r@ == "<3"@,
{
    match waveform {
        Waveform::Sine => "~",
        Waveform::Square => "|-|",
        Waveform::Triangle => "/\\",
        Waveform::Ekg => "<3",
    }
}

/// Edge or level behaviour of an analog trigger.
#[derive(Clone, Copy, Debug, PartialEq, Eq, Structural)]
pub enum AnalogTriggerBehavior {
    Rising,
    Falling,
    Level,
    Auto,
}

/// Analog trigger: fire when the input crosses or sits at a level, in
/// microvolts.
#[derive(Clone, Copy, Debug, PartialEq, Eq)]
pub struct AnalogTrigger {
    pub level_uv: i64,
    pub behavior: AnalogTriggerBehavior,
}

/// How a digital trigger pattern is matched against the nine channels.
#[derive(Clone, Copy, Debug, PartialEq, Eq, Structural)]
pub enum DigitalTriggerBehavior {
    StartsMatching,
    StopsMatching,
    WhileMatching,
    WhileMatchingAuto,
}

/// Digital trigger: a nine-slot pattern of low/high/don't-care plus a
/// match mode.
#[derive(Clone, Copy, Debug, PartialEq, Eq)]
pub struct DigitalTrigger {
    pub pattern: [BitState; 9],
    pub behavior: DigitalTriggerBehavior,
}

/// Which trigger source is active.
#[derive(Clone, Copy, Debug, PartialEq, Eq, Structural)]
pub enum TriggerSource {
    Analog,
    Digital,
}

/// Full trigger configuration: both sources are kept so the user can
/// switch between them without losing edits; `source` selects the live
/// one.
#[derive(Clone, Copy, Debug, PartialEq, Eq)]
pub struct TriggerConfig {
    pub source: TriggerSource,
    pub analog: AnalogTrigger,
    pub digital: DigitalTrigger,
}

impl Default for TriggerConfig {
    /// Starts on the digital source, auto analog trigger at 0 V, and a
    /// nine-slot all-don't-care pattern that starts capturing on match.
    fn default() -> (r: Self)
        ensures
            r.source is Digital,
            r.analog.level_uv == 0,
            r.analog.behavior is Auto,
            r.digital.behavior is StartsMatching,
            forall|i: int| 0 <= i < 9 ==> r.digital.pattern[i] is DontCare,
    {
        TriggerConfig {
            source: TriggerSource::Digital,
            analog: AnalogTrigger { level_uv: 0, behavior: AnalogTriggerBehavior::Auto },
            digital: DigitalTrigger {
                pattern: [
                    BitState::DontCare,
                    BitState::DontCare,
                    BitState::DontCare,
                    BitState::DontCare,
                    BitState::DontCare,
                    BitState::DontCare,
                    BitState::DontCare,
                    BitState::DontCare,
                    BitState::DontCare,
                ],
                behavior: DigitalTriggerBehavior::StartsMatching,
            },
        }
    }
}

/// A resolved trigger: exactly one of the two sources, ready to hand to
/// the device capability.
#[derive(Clone, Copy, Debug, PartialEq, Eq)]
pub enum Trigger {
    Analog(AnalogTrigger),
    Digital(DigitalTrigger),
}

impl vstd::std_specs::convert::FromSpecImpl<TriggerConfig> for Trigger {
    open spec fn obeys_from_spec() -> bool {
        true
    }

    open spec fn from_spec(tc: TriggerConfig) -> Trigger {
        match tc.source {
            TriggerSource::Analog => Trigger::Analog(tc.analog),
            TriggerSource::Digital => Trigger::Digital(tc.digital),
        }
    }
}

impl From<TriggerConfig> for Trigger {
    /// Resolves a trigger configuration to the variant its source selects.
    fn from(tc: TriggerConfig) -> (r: Self)
        ensures
            tc.source is Analog ==> r == Trigger::Analog(tc.analog),
            tc.source is Digital ==> r == Trigger::Digital(tc.digital),
    {
        match tc.source {
            TriggerSource::Analog => Trigger::Analog(tc.analog),
            TriggerSource::Digital => Trigger::Digital(tc.digital),
        }
    }
}

/// Capture mode: one bounded, trigger-started read per cycle, or an
/// endless stream of short fixed-size batches.
#[derive(Clone, Copy, Debug, PartialEq, Eq)]
pub enum CaptureMode {
    Triggered { trigger_config: TriggerConfig, time_frame_us: u64 },
    Continuous,
}

/// The configuration a worker reads at the top of every loop iteration.
#[derive(Clone, Copy, Debug, PartialEq, Eq)]
pub struct CaptureConfig {
    pub probe_multiplier: ProbeType,
    pub mode: CaptureMode,
}

impl Default for CaptureConfig {
    /// The configuration a freshly added device starts with: x1 probe,
    /// triggered mode with the default trigger and a 100 ms window.
    fn default() -> (r: Self)
        ensures
            r.probe_multiplier is X1,
            r.mode matches CaptureMode::Triggered { trigger_config, time_frame_us }
                && time_frame_us == 100_000u64
                && trigger_config.source is Digital
                && trigger_config.analog.level_uv == 0
                && trigger_config.analog.behavior is Auto
                && trigger_config.digital.behavior is StartsMatching
                && (forall|i: int| 0 <= i < 9 ==> trigger_config.digital.pattern[i] is DontCare),
    {
        CaptureConfig {
            probe_multiplier: ProbeType::X1,
            mode: CaptureMode::Triggered {
                trigger_config: TriggerConfig::default(),
                time_frame_us: 100_000,
            },
        }
    }
}

/// Waveform generator configuration.
#[derive(Clone, Copy, Debug, PartialEq, Eq)]
pub struct WaveformConfig {
    pub enabled: bool,
    pub waveform_type: Waveform,
    /// Requested frequency; the device accepts 10 Hz to 4000 Hz.
    pub frequency_hz: i32,
}

impl Default for WaveformConfig {
    fn default() -> (r: Self)
        ensures
            !r.enabled,
            r.waveform_type is Sine,
            r.frequency_hz == 100,
    {
        WaveformConfig { enabled: false, waveform_type: Waveform::Sine, frequency_hz: 100 }
    }
}

impl WaveformConfig {
    /// Clamps the requested frequency to the generator's 10..4000 Hz range.
    pub fn clamp_frequency(&mut self)
        ensures
            old(self).frequency_hz < 10 ==> final(self).frequency_hz == 10,
            old(self).frequency_hz > 4000 ==> final(self).frequency_hz == 4000,
            10 <= old(self).frequency_hz <= 4000 ==> final(self).frequency_hz == old(
                self,
            ).frequency_hz,
            final(self).enabled == old(self).enabled,
            final(self).waveform_type == old(self).waveform_type,
    {
        if self.frequency_hz < 10 {
            self.frequency_hz = 10;
        } else if self.frequency_hz > 4000 {
            self.frequency_hz = 4000;
        }
    }
}

/// A command posted by the user interface to the worker's bounded queue.
#[derive(Clone, Copy, Debug, PartialEq, Eq)]
pub enum ControlCommand {
    Calibrate0V(ProbeType),
    Calibrate3V(ProbeType),
    StoreCalibration,
    Pause,
    Resume,
    Step,
    Exit,
}

/// An outbound message for toast-style display: a success or an error,
/// with its text.
#[derive(Clone, Debug)]
pub enum Notification {
    Success(String),
    Error(String),
}

/// One decoded sample: the calibrated analog value in microvolts and the
/// nine digital channel states.
#[derive(Clone, Copy, Debug, PartialEq, Eq)]
pub struct DataPoint {
    pub analog_channel: i64,
    pub digital_channels: [bool; 9],
}

/// The published snapshot of a device: sample times in microseconds,
/// decoded samples, bookkeeping flags.  Replaced wholesale on every
/// successful decode and never mutated in place.
#[derive(Clone, Debug)]
pub struct DeviceData {
    pub x_values: Vec<i64>,
    pub data_points: Vec<DataPoint>,
    pub last_update_ms: u64,
    /// Reads completed per second, rolling over the last second.
    pub update_rate: u64,
    pub connected: bool,
    pub running: bool,
}

impl DeviceData {
    /// The time column paired with the calibrated analog column.
    pub fn get_analog_data(&self) -> (r: (Vec<i64>, Vec<i64>))
        ensures
            r.0@ == self.x_values@,
            r.1@ == self.data_points@.map_values(|p: DataPoint| p.analog_channel),
    {
        let mut x: Vec<i64> = Vec::new();
        let mut y: Vec<i64> = Vec::new();
        let mut i: usize = 0;
        while i < self.x_values.len()
            invariant
                i <= self.x_values@.len(),
                x@ == self.x_values@.subrange(0, i as int),
            decreases self.x_values@.len() - i,
        {
            x.push(self.x_values[i]);
            i = i + 1;
        }
        let mut j: usize = 0;
        while j < self.data_points.len()
            invariant
                j <= self.data_points@.len(),
                y@ == self.data_points@.subrange(0, j as int).map_values(
                    |p: DataPoint| p.analog_channel,
                ),
            decreases self.data_points@.len() - j,
        {
            y.push(self.data_points[j].analog_channel);
            proof {
                assert(self.data_points@.subrange(0, j + 1 as int).drop_last() =~= self
                    .data_points@.subrange(0, j as int));
                assert(y@ =~= self.data_points@.subrange(0, j + 1 as int).map_values(
                    |p: DataPoint| p.analog_channel,
                ));
            }
            j = j + 1;
        }
        proof {
            assert(x@ =~= self.x_values@);
            assert(self.data_points@.subrange(0, self.data_points@.len() as int) =~= self
                .data_points@);
        }
        (x, y)
    }

    /// The time column paired with one digital channel rendered as 0/1
    /// levels; an out-of-range channel yields empty columns.
    pub fn get_digital_channel_data(&self, channel: usize) -> (r: (Vec<i64>, Vec<i64>))
        ensures
            channel >= 9 ==> r.0@.len() == 0 && r.1@.len() == 0,
            channel < 9 ==> r.0@ == self.x_values@,
            channel < 9 ==> r.1@ == self.data_points@.map_values(
                |p: DataPoint| if p.digital_channels[channel as int] { 1i64 } else { 0i64 },
            ),
    {
        if channel >= 9 {
            return (Vec::new(), Vec::new());
        }
        let mut x: Vec<i64> = Vec::new();
        let mut y: Vec<i64> = Vec::new();
        let mut i: usize = 0;
        while i < self.x_values.len()
            invariant
                i <= self.x_values@.len(),
                x@ == self.x_values@.subrange(0, i as int),
            decreases self.x_values@.len() - i,
        {
            x.push(self.x_values[i]);
            i = i + 1;
        }
        let mut j: usize = 0;
        while j < self.data_points.len()
            invariant
                channel < 9,
                j <= self.data_points@.len(),
                y@.len() == j,
                forall|k: int|
                    0 <= k < j ==> y@[k] == (if self.data_points@[k].digital_channels[channel as int] {
                        1i64
                    } else {
                        0i64
                    }),
            decreases self.data_points@.len() - j,
        {
            let p = self.data_points[j];
            if p.digital_channels[channel] {
                y.push(1);
            } else {
                y.push(0);
            }
            j = j + 1;
        }
        proof {
            assert(x@ =~= self.x_values@);
            assert(y@ =~= self.data_points@.map_values(
                |p: DataPoint| if p.digital_channels[channel as int] { 1i64 } else { 0i64 },
            ));
        }
        (x, y)
    }
}

/// The single-owner cell a worker publishes snapshots into.  Readers see
/// either the old snapshot or the new one, never a mixture: `publish`
/// replaces the whole value.
pub struct SnapshotCell {
    current: DeviceData,
}

impl SnapshotCell {
    /// The snapshot a freshly added device shows before its first read.
    pub fn new(now_ms: u64) -> (r: Self)
        ensures
            r.current().x_values@.len() == 0,
            r.current().data_points@.len() == 0,
            r.current().last_update_ms == now_ms,
            r.current().update_rate == 0,
            r.current().connected,
            r.current().running,
    {
        SnapshotCell {
            current: DeviceData {
                x_values: Vec::new(),
                data_points: Vec::new(),
                last_update_ms: now_ms,
                update_rate: 0,
                connected: true,
                running: true,
            },
        }
    }

    /// The latest published snapshot.
    pub fn snapshot(&self) -> (r: &DeviceData)
        ensures
            *r == self.current(),
    {
        &self.current
    }

    /// Spec view of the current snapshot.
    pub closed spec fn current(&self) -> DeviceData {
        self.current
    }

    /// Replaces the published snapshot wholesale.
    pub fn publish(&mut self, data: DeviceData)
        ensures
            final(self).current() == data,
    {
        self.current = data;
    }
}

/// The set of connected devices, in the order they were added.
pub struct DeviceManager {
    devices: Vec<FleaScopeDevice>,
}

impl DeviceManager {
    /// Spec view: the devices in order.
    pub closed spec fn devices(&self) -> Seq<FleaScopeDevice> {
        self.devices@
    }

    /// Hands a freshly connected device to the manager.  Establishing
    /// the hardware connection and spawning its worker happen outside
    /// the library; this records the result.
    pub fn push_device(&mut self, device: FleaScopeDevice)
        ensures
            final(self).devices() == old(self).devices().push(device),
    {
        self.devices.push(device);
    }

    /// All devices, for display.
    pub fn get_devices(&self) -> (r: &[FleaScopeDevice])
        ensures
            r@ == self.devices(),
    {
        self.devices.as_slice()
    }

    /// All devices, for interaction.
    pub fn get_devices_mut(&mut self) -> (r: &mut [FleaScopeDevice])
        ensures
            r@ == old(self).devices(),
            final(self).devices() == final(r)@,
    {
        self.devices.as_mut_slice()
    }

    /// Removes the device at `index` and returns it so the caller can
    /// stop its worker.
    pub fn remove_device(&mut self, index: usize) -> (r: FleaScopeDevice)
        requires
            index < old(self).devices().len(),
        ensures
            r == old(self).devices()[index as int],
            final(self).devices() == old(self).devices().remove(index as int),
    {
        self.devices.remove(index)
    }
}

impl Default for DeviceManager {
    fn default() -> (r: Self)
        ensures
            r.devices() =~= Seq::<FleaScopeDevice>::empty(),
    {
        DeviceManager { devices: Vec::new() }
    }
}

} // verus!
