//! The user-interface side of a device: local configuration state plus
//! non-blocking writes into the worker's channels.

use vstd::prelude::*;

use crate::channels::{slot_send, BoundedQueue, LatestSlot};
use crate::device::{
    CaptureConfig, CaptureMode, ControlCommand, Notification, ProbeType, TriggerConfig, Waveform,
    WaveformConfig, MAX_TIME_FRAME_US, MIN_TIME_FRAME_US,
};

verus! {

/// Clamp of a requested capture window to the supported range, as a
/// specification value.
pub open spec fn spec_clamp_time_frame_us(t: u64) -> u64 {
    if t < MIN_TIME_FRAME_US {
        MIN_TIME_FRAME_US
    } else if t > MAX_TIME_FRAME_US {
        MAX_TIME_FRAME_US
    } else {
        t
    }
}

/// Configuration kept for triggered mode while the device is in another
/// mode.
#[derive(Clone, Copy, Debug, PartialEq, Eq)]
pub struct TriggeredCaptureConfig {
    pub time_frame_us: u64,
    pub trigger_config: TriggerConfig,
}

/// Configuration kept for continuous mode: the rolling retention window.
#[derive(Clone, Copy, Debug, PartialEq, Eq)]
pub struct ContinuousCaptureConfig {
    pub buffer_time_us: u64,
}

/// The mode selector as the user interface sees it.
#[derive(Clone, Copy, Debug, PartialEq, Eq, Structural)]
pub enum CaptureModeFlat {
    Triggered,
    Continuous,
}

/// The user-interface handle of one connected device.  It owns the local
/// copies of all configuration; every setter publishes the resulting
/// configuration into the worker's latest-value slot, so the worker's
/// next poll observes exactly the newest state.
pub struct FleaScopeDevice {
    pub name: String,
    /// One analog channel followed by nine digital channels.
    pub enabled_channels: [bool; 10],
    pub probe_multiplier: ProbeType,
    pub waveform_config: WaveformConfig,
    pub triggered_config: TriggeredCaptureConfig,
    pub continuous_config: ContinuousCaptureConfig,
    pub capture_mode: CaptureModeFlat,
    /// Continuous-mode display: wrap the sweep instead of scrolling.
    pub wrap: bool,
}

impl FleaScopeDevice {
    /// The capture configuration that the device's current state denotes.
    pub open spec fn spec_capture_config(&self) -> CaptureConfig {
        CaptureConfig {
            probe_multiplier: self.probe_multiplier,
            mode: match self.capture_mode {
                CaptureModeFlat::Triggered => CaptureMode::Triggered {
                    trigger_config: self.triggered_config.trigger_config,
                    time_frame_us: self.triggered_config.time_frame_us,
                },
                CaptureModeFlat::Continuous => CaptureMode::Continuous,
            },
        }
    }

    /// All fields except the capture-relevant ones are as in `other`.
    pub open spec fn same_but_config(&self, other: &Self) -> bool {
        &&& self.name == other.name
        &&& self.enabled_channels == other.enabled_channels
        &&& self.wrap == other.wrap
        &&& self.waveform_config == other.waveform_config
        &&& self.continuous_config == other.continuous_config
    }

    /// A handle whose local state mirrors the initial configuration the
    /// worker was started with.
    pub fn new(name: String, initial_config: CaptureConfig, initial_waveform: WaveformConfig) -> (r:
        Self)
        ensures
            r.name == name,
            forall|i: int| 0 <= i < 10 ==> r.enabled_channels[i],
            r.probe_multiplier == initial_config.probe_multiplier,
            r.waveform_config == initial_waveform,
            r.wrap,
            r.continuous_config.buffer_time_us == 1_000_000u64,
            initial_config.mode matches CaptureMode::Triggered { trigger_config, time_frame_us }
                ==> r.capture_mode is Triggered && r.triggered_config.trigger_config
                == trigger_config && r.triggered_config.time_frame_us == time_frame_us,
            initial_config.mode is Continuous ==> r.capture_mode is Continuous
                && r.triggered_config.time_frame_us == 100_000u64,
    {
        let mut triggered_config = TriggeredCaptureConfig {
            time_frame_us: 100_000,
            trigger_config: TriggerConfig::default(),
        };
        let continuous_config = ContinuousCaptureConfig { buffer_time_us: 1_000_000 };
        let mode = match initial_config.mode {
            CaptureMode::Triggered { time_frame_us, trigger_config } => {
                triggered_config.time_frame_us = time_frame_us;
                triggered_config.trigger_config = trigger_config;
                CaptureModeFlat::Triggered
            },
            CaptureMode::Continuous => CaptureModeFlat::Continuous,
        };
        FleaScopeDevice {
            name,
            enabled_channels: [true;10],
            probe_multiplier: initial_config.probe_multiplier,
            waveform_config: initial_waveform,
            triggered_config,
            continuous_config,
            capture_mode: mode,
            wrap: true,
        }
    }

    /// Publishes the configuration the current state denotes into the
    /// worker's slot.
    fn signal_config_change(&self, config_tx: &mut LatestSlot<CaptureConfig>)
        requires
            old(config_tx)@.writes < u64::MAX,
        ensures
            final(config_tx)@ == slot_send(old(config_tx)@, self.spec_capture_config()),
    {
        let cm = match self.capture_mode {
            CaptureModeFlat::Triggered => CaptureMode::Triggered {
                trigger_config: self.triggered_config.trigger_config,
                time_frame_us: self.triggered_config.time_frame_us,
            },
            CaptureModeFlat::Continuous => CaptureMode::Continuous,
        };
        config_tx.send(
            CaptureConfig { probe_multiplier: self.probe_multiplier, mode: cm },
        );
    }

    /// Asks the worker to pause acquisition.  Fails only when the queue
    /// is full; the caller should retry later.
    pub fn pause(&self, control_tx: &mut BoundedQueue<ControlCommand>) -> (r: Result<
        (),
        ControlCommand,
    >)
        ensures
            old(control_tx)@.len() < old(control_tx).capacity() ==> r is Ok && final(control_tx)@
                == old(control_tx)@.push(ControlCommand::Pause),
            old(control_tx)@.len() >= old(control_tx).capacity() ==> r is Err && final(control_tx)@
                == old(control_tx)@,
    {
        control_tx.try_send(ControlCommand::Pause)
    }

    /// Asks the worker to exit and release the hardware, consuming the
    /// handle.
    pub fn stop(self, control_tx: &mut BoundedQueue<ControlCommand>) -> (r: Result<
        (),
        ControlCommand,
    >)
        ensures
            old(control_tx)@.len() < old(control_tx).capacity() ==> r is Ok && final(control_tx)@
                == old(control_tx)@.push(ControlCommand::Exit),
            old(control_tx)@.len() >= old(control_tx).capacity() ==> r is Err && final(control_tx)@
                == old(control_tx)@,
    {
        control_tx.try_send(ControlCommand::Exit)
    }

    /// Asks the worker to resume acquisition.
    pub fn resume(&self, control_tx: &mut BoundedQueue<ControlCommand>) -> (r: Result<
        (),
        ControlCommand,
    >)
        ensures
            old(control_tx)@.len() < old(control_tx).capacity() ==> r is Ok && final(control_tx)@
                == old(control_tx)@.push(ControlCommand::Resume),
            old(control_tx)@.len() >= old(control_tx).capacity() ==> r is Err && final(control_tx)@
                == old(control_tx)@,
    {
        control_tx.try_send(ControlCommand::Resume)
    }

    /// Asks the worker for a single read while paused.
    pub fn step(&self, control_tx: &mut BoundedQueue<ControlCommand>) -> (r: Result<
        (),
        ControlCommand,
    >)
        ensures
            old(control_tx)@.len() < old(control_tx).capacity() ==> r is Ok && final(control_tx)@
                == old(control_tx)@.push(ControlCommand::Step),
            old(control_tx)@.len() >= old(control_tx).capacity() ==> r is Err && final(control_tx)@
                == old(control_tx)@,
    {
        control_tx.try_send(ControlCommand::Step)
    }

    /// Enables the waveform generator with the given shape and a
    /// frequency clamped to 10..4000 Hz, and publishes the result.
    pub fn set_waveform(
        &mut self,
        waveform_type: Waveform,
        frequency_hz: i32,
        waveform_tx: &mut LatestSlot<WaveformConfig>,
    )
        requires
            old(waveform_tx)@.writes < u64::MAX,
        ensures
            final(self).waveform_config.waveform_type == waveform_type,
            final(self).waveform_config.enabled,
            frequency_hz < 10 ==> final(self).waveform_config.frequency_hz == 10,
            frequency_hz > 4000 ==> final(self).waveform_config.frequency_hz == 4000,
            10 <= frequency_hz <= 4000 ==> final(self).waveform_config.frequency_hz == frequency_hz,
            final(waveform_tx)@ == slot_send(old(waveform_tx)@, final(self).waveform_config),
            final(self).name == old(self).name,
            final(self).enabled_channels == old(self).enabled_channels,
            final(self).probe_multiplier == old(self).probe_multiplier,
            final(self).triggered_config == old(self).triggered_config,
            final(self).continuous_config == old(self).continuous_config,
            final(self).capture_mode == old(self).capture_mode,
            final(self).wrap == old(self).wrap,
    {
        self.waveform_config.waveform_type = waveform_type;
        self.waveform_config.frequency_hz = if frequency_hz < 10 {
            10
        } else if frequency_hz > 4000 {
            4000
        } else {
            frequency_hz
        };
        self.waveform_config.enabled = true;
        waveform_tx.send(self.waveform_config);
    }

    /// Selects the probe front-end and publishes the new configuration.
    pub fn set_probe_multiplier(
        &mut self,
        multiplier: ProbeType,
        config_tx: &mut LatestSlot<CaptureConfig>,
    )
        requires
            old(config_tx)@.writes < u64::MAX,
        ensures
            final(self).probe_multiplier == multiplier,
            final(self).same_but_config(old(self)),
            final(self).triggered_config == old(self).triggered_config,
            final(self).capture_mode == old(self).capture_mode,
            final(config_tx)@ == slot_send(old(config_tx)@, final(self).spec_capture_config()),
    {
        self.probe_multiplier = multiplier;
        self.signal_config_change(config_tx);
    }

    /// Replaces the trigger configuration and publishes the result.
    pub fn set_trigger_config(
        &mut self,
        trigger_config: TriggerConfig,
        config_tx: &mut LatestSlot<CaptureConfig>,
    )
        requires
            old(config_tx)@.writes < u64::MAX,
        ensures
            final(self).triggered_config.trigger_config == trigger_config,
            final(self).triggered_config.time_frame_us == old(self).triggered_config.time_frame_us,
            final(self).same_but_config(old(self)),
            final(self).probe_multiplier == old(self).probe_multiplier,
            final(self).capture_mode == old(self).capture_mode,
            final(config_tx)@ == slot_send(old(config_tx)@, final(self).spec_capture_config()),
    {
        self.triggered_config.trigger_config = trigger_config;
        self.signal_config_change(config_tx);
    }

    /// Switches between triggered and continuous capture and publishes
    /// the result.
    pub fn set_capture_mode(
        &mut self,
        mode: CaptureModeFlat,
        config_tx: &mut LatestSlot<CaptureConfig>,
    )
        requires
            old(config_tx)@.writes < u64::MAX,
        ensures
            final(self).capture_mode == mode,
            final(self).same_but_config(old(self)),
            final(self).probe_multiplier == old(self).probe_multiplier,
            final(self).triggered_config == old(self).triggered_config,
            final(config_tx)@ == slot_send(old(config_tx)@, final(self).spec_capture_config()),
    {
        self.capture_mode = mode;
        self.signal_config_change(config_tx);
    }

    /// Replaces the per-channel display enable flags.
    pub fn set_enabled_channels(&mut self, enabled: [bool; 10])
        ensures
            final(self).enabled_channels == enabled,
            final(self).name == old(self).name,
            final(self).probe_multiplier == old(self).probe_multiplier,
            final(self).waveform_config == old(self).waveform_config,
            final(self).triggered_config == old(self).triggered_config,
            final(self).continuous_config == old(self).continuous_config,
            final(self).capture_mode == old(self).capture_mode,
            final(self).wrap == old(self).wrap,
    {
        self.enabled_channels = enabled;
    }

    /// Sets the triggered capture window, clamped to the supported
    /// range, and publishes the result.
    pub fn set_time_frame(&mut self, time_frame_us: u64, config_tx: &mut LatestSlot<CaptureConfig>)
        requires
            old(config_tx)@.writes < u64::MAX,
        ensures
            final(self).triggered_config.time_frame_us == spec_clamp_time_frame_us(time_frame_us),
            final(self).triggered_config.trigger_config == old(
                self,
            ).triggered_config.trigger_config,
            final(self).same_but_config(old(self)),
            final(self).probe_multiplier == old(self).probe_multiplier,
            final(self).capture_mode == old(self).capture_mode,
            final(config_tx)@ == slot_send(old(config_tx)@, final(self).spec_capture_config()),
    {
        self.triggered_config.time_frame_us = crate::device::clamp_time_frame_us(time_frame_us);
        self.signal_config_change(config_tx);
    }

    /// The mode selector.
    pub fn get_capture_mode(&self) -> (r: CaptureModeFlat)
        ensures
            r == self.capture_mode,
    {
        self.capture_mode
    }

    /// The continuous-mode configuration.
    pub fn get_continuous_config(&self) -> (r: ContinuousCaptureConfig)
        ensures
            r == self.continuous_config,
    {
        self.continuous_config
    }

    /// The triggered-mode configuration.
    pub fn get_triggered_config(&self) -> (r: TriggeredCaptureConfig)
        ensures
            r == self.triggered_config,
    {
        self.triggered_config
    }

    /// The waveform generator configuration.
    pub fn get_waveform_config(&self) -> (r: WaveformConfig)
        ensures
            r == self.waveform_config,
    {
        self.waveform_config
    }

    /// The probe front-end selection.
    pub fn get_probe_multiplier(&self) -> (r: ProbeType)
        ensures
            r == self.probe_multiplier,
    {
        self.probe_multiplier
    }

    /// Direct access to the triggered capture window, for interactive
    /// dials that write the raw value.
    pub fn get_mut_trigger_time_handle(&mut self) -> (r: &mut u64)
        ensures
            *r == old(self).triggered_config.time_frame_us,
            final(self).triggered_config.time_frame_us == *final(r),
            final(self).triggered_config.trigger_config == old(
                self,
            ).triggered_config.trigger_config,
            final(self).same_but_config(old(self)),
            final(self).probe_multiplier == old(self).probe_multiplier,
            final(self).capture_mode == old(self).capture_mode,
    {
        &mut self.triggered_config.time_frame_us
    }

    /// Direct access to the continuous retention window, for interactive
    /// dials that write the raw value.
    pub fn get_mut_buffer_time_handle(&mut self) -> (r: &mut u64)
        ensures
            *r == old(self).continuous_config.buffer_time_us,
            final(self).continuous_config.buffer_time_us == *final(r),
            final(self).name == old(self).name,
            final(self).enabled_channels == old(self).enabled_channels,
            final(self).probe_multiplier == old(self).probe_multiplier,
            final(self).waveform_config == old(self).waveform_config,
            final(self).triggered_config == old(self).triggered_config,
            final(self).capture_mode == old(self).capture_mode,
            final(self).wrap == old(self).wrap,
    {
        &mut self.continuous_config.buffer_time_us
    }

    /// Posts a 0 V calibration request for the active probe.
    pub fn start_calibrate_0v(&self, control_tx: &mut BoundedQueue<ControlCommand>) -> (r: Result<
        (),
        ControlCommand,
    >)
        ensures
            old(control_tx)@.len() < old(control_tx).capacity() ==> r is Ok && final(control_tx)@
                == old(control_tx)@.push(ControlCommand::Calibrate0V(self.probe_multiplier)),
            old(control_tx)@.len() >= old(control_tx).capacity() ==> r is Err && final(control_tx)@
                == old(control_tx)@,
    {
        control_tx.try_send(ControlCommand::Calibrate0V(self.probe_multiplier))
    }

    /// Posts a 3.3 V calibration request for the active probe.
    pub fn start_calibrate_3v(&self, control_tx: &mut BoundedQueue<ControlCommand>) -> (r: Result<
        (),
        ControlCommand,
    >)
        ensures
            old(control_tx)@.len() < old(control_tx).capacity() ==> r is Ok && final(control_tx)@
                == old(control_tx)@.push(ControlCommand::Calibrate3V(self.probe_multiplier)),
            old(control_tx)@.len() >= old(control_tx).capacity() ==> r is Err && final(control_tx)@
                == old(control_tx)@,
    {
        control_tx.try_send(ControlCommand::Calibrate3V(self.probe_multiplier))
    }

    /// Posts a request to persist the calibration constants on the
    /// device.
    pub fn start_store_calibration(&self, control_tx: &mut BoundedQueue<ControlCommand>) -> (r:
        Result<(), ControlCommand>)
        ensures
            old(control_tx)@.len() < old(control_tx).capacity() ==> r is Ok && final(control_tx)@
                == old(control_tx)@.push(ControlCommand::StoreCalibration),
            old(control_tx)@.len() >= old(control_tx).capacity() ==> r is Err && final(control_tx)@
                == old(control_tx)@,
    {
        control_tx.try_send(ControlCommand::StoreCalibration)
    }

    /// Non-blocking drain of one pending notification for toast display.
    pub fn try_recv_notification(&self, notification_rx: &mut BoundedQueue<Notification>) -> (r:
        Option<Notification>)
        ensures
            old(notification_rx)@.len() == 0 ==> r is None && final(notification_rx)@ == old(
                notification_rx,
            )@,
            old(notification_rx)@.len() > 0 ==> (r matches Some(n) && n == old(notification_rx)@[0])
                && final(notification_rx)@ == old(notification_rx)@.drop_first(),
    {
        notification_rx.try_recv()
    }
}

} // verus!
