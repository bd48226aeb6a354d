//! The capture worker's state machine.  The surrounding application
//! runs the loop and performs hardware operations; every decision —
//! what a control command does, when an in-flight read is cancelled,
//! and what each read outcome publishes — is made and verified here.

use vstd::prelude::*;
use vstd::string::StringExecFns;

use crate::channels::BoundedQueue;
use crate::decode::{
    decode_frame, spec_scan_error, spec_points_match, DecodeError, ProbeCalibration,
};
use crate::device::{
    CaptureConfig, CaptureMode, ControlCommand, DeviceData, Notification, ProbeType, SnapshotCell,
    Trigger, Waveform,
};

verus! {

/// A hardware operation the worker asks the application to perform on
/// the device capability.
#[derive(Clone, Copy, Debug, PartialEq, Eq)]
pub enum HardwareOp {
    Calibrate0(ProbeType),
    Calibrate3v3(ProbeType),
    WriteCalibration,
    SetWaveform(Waveform, i32),
}

/// What one control command resolves to: possibly a hardware operation,
/// possibly the end of the worker.
#[derive(Clone, Copy, Debug, PartialEq, Eq)]
pub struct CommandStep {
    pub hardware: Option<HardwareOp>,
    pub exit: bool,
}

/// Why an in-flight read is being cancelled, in priority order.
#[derive(Clone, Copy, Debug, PartialEq, Eq, Structural)]
pub enum CancelReason {
    ConfigChanged,
    WaveformChanged,
    ControlPending,
}

/// What one loop iteration should do, given what is pending.
#[derive(Clone, Copy, Debug, PartialEq, Eq, Structural)]
pub struct IterationPlan {
    /// Drain and apply the pending control command first.
    pub handle_command: bool,
    /// Push the changed waveform configuration to the device.
    pub apply_waveform: bool,
    /// Run one acquisition cycle; otherwise wait for a wake-up.
    pub acquire: bool,
}

/// Read parameters resolved from the active configuration.
#[derive(Clone, Copy, Debug, PartialEq, Eq)]
pub enum AcquisitionParams {
    Triggered { trigger: Trigger, duration_us: u64 },
    Continuous,
}

/// One raw frame as it leaves the device: a time column in
/// microseconds, raw analog counts, and the digital bitmap text fields.
#[derive(Clone, Debug)]
pub struct RawFrame {
    pub times_us: Vec<i64>,
    pub bnc_raw: Vec<i64>,
    pub bitmaps: Vec<Vec<u8>>,
}

/// How one acquisition cycle resolved.
#[derive(Clone, Debug)]
pub enum ReadOutcome {
    /// The read completed and returned a frame (possibly after a cancel
    /// raced with natural completion — late data is still decoded).
    Data(RawFrame),
    /// The read was cancelled cooperatively and returned no data.
    Cancelled,
    /// The connection failed; the loop keeps retrying.
    ConnectionLost,
}

/// The per-device worker state: whether acquisition runs, and the two
/// probes' stored calibration constants.
pub struct FleaWorker {
    pub running: bool,
    pub x1: ProbeCalibration,
    pub x10: ProbeCalibration,
}

/// The published snapshot keeps its decoded data.
pub open spec fn spec_data_kept(a: DeviceData, b: DeviceData) -> bool {
    &&& a.x_values@ == b.x_values@
    &&& a.data_points@ == b.data_points@
    &&& a.last_update_ms == b.last_update_ms
}

impl FleaWorker {
    /// A worker that starts out acquiring.
    pub fn new(x1: ProbeCalibration, x10: ProbeCalibration) -> (r: Self)
        ensures
            r.running,
            r.x1 == x1,
            r.x10 == x10,
    {
        FleaWorker { running: true, x1, x10 }
    }

    /// The calibration constants the active probe selection denotes.
    pub open spec fn spec_active_cal(&self, probe: ProbeType) -> ProbeCalibration {
        match probe {
            ProbeType::X1 => self.x1,
            ProbeType::X10 => self.x10,
        }
    }

    /// Marks the worker as acquiring again.
    pub fn set_as_running(&mut self)
        ensures
            final(self).running,
            final(self).x1 == old(self).x1,
            final(self).x10 == old(self).x10,
    {
        self.running = true;
    }

    /// Pauses acquisition and republishes the snapshot with the running
    /// flag cleared and the throughput zeroed; the decoded data stays.
    pub fn set_as_paused(&mut self, data: &mut SnapshotCell)
        ensures
            !final(self).running,
            final(self).x1 == old(self).x1,
            final(self).x10 == old(self).x10,
            spec_data_kept(final(data).current(), old(data).current()),
            final(data).current().update_rate == 0,
            final(data).current().connected,
            !final(data).current().running,
    {
        self.running = false;
        let cur = data.snapshot();
        let next = DeviceData {
            x_values: cur.x_values.clone(),
            data_points: cur.data_points.clone(),
            last_update_ms: cur.last_update_ms,
            update_rate: 0,
            connected: true,
            running: false,
        };
        data.publish(next);
    }

    /// Records a connection loss: queues a user-visible error if there
    /// is room (notifications drop on overflow), stops acquisition, and
    /// republishes the snapshot as disconnected; the decoded data stays.
    pub fn set_lost_connection(
        &mut self,
        data: &mut SnapshotCell,
        notification_tx: &mut BoundedQueue<Notification>,
    )
        ensures
            !final(self).running,
            final(self).x1 == old(self).x1,
            final(self).x10 == old(self).x10,
            spec_data_kept(final(data).current(), old(data).current()),
            final(data).current().update_rate == 0,
            !final(data).current().connected,
            !final(data).current().running,
            old(notification_tx)@.len() < old(notification_tx).capacity() ==> final(notification_tx)@.len() == old(notification_tx)@.len() + 1 && final(notification_tx)@.subrange(
                0,
                old(notification_tx)@.len() as int,
            ) == old(notification_tx)@ && (final(notification_tx)@.last() matches
            Notification::Error(m) && m@ == "Lost connection to the device."@),
            old(notification_tx)@.len() >= old(notification_tx).capacity() ==> final(notification_tx)@ == old(notification_tx)@,
    {
        let message = String::from_str("Lost connection to the device.");
        let _ = notification_tx.try_send(Notification::Error(message));
        self.running = false;
        let cur = data.snapshot();
        let next = DeviceData {
            x_values: cur.x_values.clone(),
            data_points: cur.data_points.clone(),
            last_update_ms: cur.last_update_ms,
            update_rate: 0,
            connected: false,
            running: false,
        };
        data.publish(next);
    }

    /// Applies one control command: calibration requests resolve to a
    /// hardware operation, pause and resume toggle the running flag,
    /// step is a no-op, and only exit ends the worker.
    pub fn handle_control_command(&mut self, command: ControlCommand, data: &mut SnapshotCell) -> (r:
        CommandStep)
        ensures
            final(self).x1 == old(self).x1,
            final(self).x10 == old(self).x10,
            command matches ControlCommand::Calibrate0V(p) ==> r == (CommandStep {
                hardware: Some(HardwareOp::Calibrate0(p)),
                exit: false,
            }) && final(self).running == old(self).running && final(data).current() == old(data).current(),
            command matches ControlCommand::Calibrate3V(p) ==> r == (CommandStep {
                hardware: Some(HardwareOp::Calibrate3v3(p)),
                exit: false,
            }) && final(self).running == old(self).running && final(data).current() == old(data).current(),
            command is StoreCalibration ==> r == (CommandStep {
                hardware: Some(HardwareOp::WriteCalibration),
                exit: false,
            }) && final(self).running == old(self).running && final(data).current() == old(data).current(),
            command is Exit ==> r == (CommandStep { hardware: None, exit: true }) && final(self).running == old(self).running && final(data).current() == old(data).current(),
            command is Pause ==> r == (CommandStep { hardware: None, exit: false }) && !final(self).running && spec_data_kept(final(data).current(), old(data).current()) && final(data).current().update_rate == 0 && final(data).current().connected && !final(data).current().running,
            command is Resume ==> r == (CommandStep { hardware: None, exit: false }) && final(self).running && final(data).current() == old(data).current(),
            command is Step ==> r == (CommandStep { hardware: None, exit: false }) && final(self).running == old(self).running && final(data).current() == old(data).current(),
    {
        match command {
            ControlCommand::Calibrate0V(p) => CommandStep {
                hardware: Some(HardwareOp::Calibrate0(p)),
                exit: false,
            },
            ControlCommand::Calibrate3V(p) => CommandStep {
                hardware: Some(HardwareOp::Calibrate3v3(p)),
                exit: false,
            },
            ControlCommand::StoreCalibration => CommandStep {
                hardware: Some(HardwareOp::WriteCalibration),
                exit: false,
            },
            ControlCommand::Exit => CommandStep { hardware: None, exit: true },
            ControlCommand::Pause => {
                self.set_as_paused(data);
                CommandStep { hardware: None, exit: false }
            },
            ControlCommand::Resume => {
                self.set_as_running();
                CommandStep { hardware: None, exit: false }
            },
            ControlCommand::Step => CommandStep { hardware: None, exit: false },
        }
    }

    /// Records a trigger configuration the device rejected: queues a
    /// user-visible error if there is room (notifications drop on
    /// overflow) and pauses the loop, which re-enters idle rather than
    /// retrying a hopeless read.
    pub fn on_invalid_trigger(
        &mut self,
        data: &mut SnapshotCell,
        notification_tx: &mut BoundedQueue<Notification>,
        error_text: &str,
    )
        ensures
            !final(self).running,
            final(self).x1 == old(self).x1,
            final(self).x10 == old(self).x10,
            spec_data_kept(final(data).current(), old(data).current()),
            final(data).current().update_rate == 0,
            final(data).current().connected,
            !final(data).current().running,
            old(notification_tx)@.len() < old(notification_tx).capacity() ==> final(notification_tx)@.len() == old(notification_tx)@.len() + 1 && final(notification_tx)@.subrange(
                0,
                old(notification_tx)@.len() as int,
            ) == old(notification_tx)@ && (final(notification_tx)@.last() matches
            Notification::Error(m) && m@ == "Invalid trigger configuration: "@ + error_text@),
            old(notification_tx)@.len() >= old(notification_tx).capacity() ==> final(notification_tx)@ == old(notification_tx)@,
    {
        let message = String::from_str("Invalid trigger configuration: ").concat(error_text);
        let _ = notification_tx.try_send(Notification::Error(message));
        self.set_as_paused(data);
    }

    /// What the next loop iteration does: a pending command is handled
    /// first, a changed waveform is pushed, and acquisition runs only
    /// while the worker is not paused.
    pub fn plan_iteration(&self, command_pending: bool, waveform_changed: bool) -> (r:
        IterationPlan)
        ensures
            r.handle_command == command_pending,
            r.apply_waveform == waveform_changed,
            r.acquire == self.running,
    {
        IterationPlan {
            handle_command: command_pending,
            apply_waveform: waveform_changed,
            acquire: self.running,
        }
    }

    /// Decodes a completed read and publishes the result.  The snapshot
    /// is replaced only on a successful decode: a cancelled read or a
    /// rejected frame leaves the previous snapshot untouched, and a
    /// connection loss keeps the data while flagging the device
    /// disconnected.
    pub fn finish_cycle(
        &mut self,
        data: &mut SnapshotCell,
        notification_tx: &mut BoundedQueue<Notification>,
        outcome: ReadOutcome,
        probe: ProbeType,
        now_ms: u64,
        update_rate: u64,
    ) -> (r: Option<DecodeError>)
        requires
            old(self).x1.wf(),
            old(self).x10.wf(),
        ensures
            final(self).x1 == old(self).x1,
            final(self).x10 == old(self).x10,
            outcome is Cancelled ==> r is None && final(self).running == old(self).running && final(data).current() == old(data).current() && final(notification_tx)@ == old(notification_tx)@,
            outcome is ConnectionLost ==> r is None && !final(self).running && spec_data_kept(
                final(data).current(),
                old(data).current(),
            ) && final(data).current().update_rate == 0 && !final(data).current().connected
                && !final(data).current().running && (old(notification_tx)@.len() < old(notification_tx).capacity() ==> final(notification_tx)@.len() == old(notification_tx)@.len() + 1 && (
            final(notification_tx)@.last() matches Notification::Error(m) && m@
                == "Lost connection to the device."@)) && (old(notification_tx)@.len() >= old(notification_tx).capacity() ==> final(notification_tx)@ == old(notification_tx)@),
            outcome matches ReadOutcome::Data(f) ==> final(self).running == old(self).running
                && final(notification_tx)@ == old(notification_tx)@ && {
                let bms = f.bitmaps@.map_values(|b: Vec<u8>| b@);
                if f.times_us@.len() != f.bnc_raw@.len() || f.times_us@.len() != f.bitmaps@.len() {
                    r == Some(DecodeError::LengthMismatch) && final(data).current() == old(data).current()
                } else {
                    match spec_scan_error(f.bnc_raw@, bms, 0) {
                        Some(e) => r == Some(e) && final(data).current() == old(data).current(),
                        None => r is None && final(data).current().x_values@ == f.times_us@
                            && spec_points_match(
                            final(data).current().data_points@,
                            f.bnc_raw@,
                            bms,
                            old(self).spec_active_cal(probe),
                        ) && final(data).current().last_update_ms == now_ms && final(data).current().update_rate == update_rate && final(data).current().connected
                            && final(data).current().running == old(self).running,
                    }
                }
            },
    {
        match outcome {
            ReadOutcome::Cancelled => None,
            ReadOutcome::ConnectionLost => {
                self.set_lost_connection(data, notification_tx);
                None
            },
            ReadOutcome::Data(f) => {
                let cal = match probe {
                    ProbeType::X1 => self.x1,
                    ProbeType::X10 => self.x10,
                };
                match decode_frame(&f.times_us, &f.bnc_raw, &f.bitmaps, &cal) {
                    Ok((x, pts)) => {
                        data.publish(
                            DeviceData {
                                x_values: x,
                                data_points: pts,
                                last_update_ms: now_ms,
                                update_rate,
                                connected: true,
                                running: self.running,
                            },
                        );
                        None
                    },
                    Err(e) => Some(e),
                }
            },
        }
    }
}

/// Whether an in-flight read must be cancelled, checking the three
/// cancellation sources in their fixed priority order: configuration
/// change, waveform change, pending control command.
pub fn cancel_check(config_changed: bool, waveform_changed: bool, control_pending: bool) -> (r:
    Option<CancelReason>)
    ensures
        config_changed ==> r == Some(CancelReason::ConfigChanged),
        !config_changed && waveform_changed ==> r == Some(CancelReason::WaveformChanged),
        !config_changed && !waveform_changed && control_pending ==> r == Some(
            CancelReason::ControlPending,
        ),
        !config_changed && !waveform_changed && !control_pending ==> r is None,
{
    if config_changed {
        Some(CancelReason::ConfigChanged)
    } else if waveform_changed {
        Some(CancelReason::WaveformChanged)
    } else if control_pending {
        Some(CancelReason::ControlPending)
    } else {
        None
    }
}

/// Read parameters for the active mode: the resolved trigger and the
/// capture window for a triggered read, or the streaming marker.
pub fn acquisition_params(config: &CaptureConfig) -> (r: AcquisitionParams)
    ensures
        config.mode matches CaptureMode::Triggered { trigger_config, time_frame_us } ==> (
        r matches AcquisitionParams::Triggered { trigger, duration_us } && duration_us
            == time_frame_us && (trigger_config.source is Analog ==> trigger == Trigger::Analog(
            trigger_config.analog,
        )) && (trigger_config.source is Digital ==> trigger == Trigger::Digital(
            trigger_config.digital,
        ))),
        config.mode is Continuous ==> r is Continuous,
{
    match config.mode {
        CaptureMode::Triggered { trigger_config, time_frame_us } => AcquisitionParams::Triggered {
            trigger: Trigger::from(trigger_config),
            duration_us: time_frame_us,
        },
        CaptureMode::Continuous => AcquisitionParams::Continuous,
    }
}

/// The notification one calibration outcome produces, with the exact
/// wording the user sees; waveform updates produce none.
pub fn calibration_notification(op: HardwareOp, succeeded: bool, error_text: &str) -> (r: Option<
    Notification,
>)
    ensures
        op matches HardwareOp::Calibrate0(p) && succeeded && p is X1 ==> (r matches Some(
            Notification::Success(m),
        ) && m@ == "X1 probe calibrated at 0V"@),
        op matches HardwareOp::Calibrate0(p) && succeeded && p is X10 ==> (r matches Some(
            Notification::Success(m),
        ) && m@ == "X10 probe calibrated at 0V"@),
        op matches HardwareOp::Calibrate3v3(p) && succeeded && p is X1 ==> (r matches Some(
            Notification::Success(m),
        ) && m@ == "X1 probe calibrated at 3.3V"@),
        op matches HardwareOp::Calibrate3v3(p) && succeeded && p is X10 ==> (r matches Some(
            Notification::Success(m),
        ) && m@ == "X10 probe calibrated at 3.3V"@),
        op is WriteCalibration && succeeded ==> (r matches Some(Notification::Success(m)) && m@
            == "Calibration saved successfully"@),
        op matches HardwareOp::Calibrate0(p) && !succeeded && p is X1 ==> (r matches Some(
            Notification::Error(m),
        ) && m@ == "X1 calibration failed: "@ + error_text@),
        op matches HardwareOp::Calibrate0(p) && !succeeded && p is X10 ==> (r matches Some(
            Notification::Error(m),
        ) && m@ == "X10 calibration failed: "@ + error_text@),
        op matches HardwareOp::Calibrate3v3(p) && !succeeded && p is X1 ==> (r matches Some(
            Notification::Error(m),
        ) && m@ == "X1 calibration failed: "@ + error_text@),
        op matches HardwareOp::Calibrate3v3(p) && !succeeded && p is X10 ==> (r matches Some(
            Notification::Error(m),
        ) && m@ == "X10 calibration failed: "@ + error_text@),
        op is WriteCalibration && !succeeded ==> (r matches Some(Notification::Error(m)) && m@
            == "Failed to save calibration: "@ + error_text@),
        op is SetWaveform ==> r is None,
{
    match op {
        HardwareOp::Calibrate0(ProbeType::X1) => {
            if succeeded {
                Some(Notification::Success(String::from_str("X1 probe calibrated at 0V")))
            } else {
                Some(
                    Notification::Error(
                        String::from_str("X1 calibration failed: ").concat(error_text),
                    ),
                )
            }
        },
        HardwareOp::Calibrate0(ProbeType::X10) => {
            if succeeded {
                Some(Notification::Success(String::from_str("X10 probe calibrated at 0V")))
            } else {
                Some(
                    Notification::Error(
                        String::from_str("X10 calibration failed: ").concat(error_text),
                    ),
                )
            }
        },
        HardwareOp::Calibrate3v3(ProbeType::X1) => {
            if succeeded {
                Some(Notification::Success(String::from_str("X1 probe calibrated at 3.3V")))
            } else {
                Some(
                    Notification::Error(
                        String::from_str("X1 calibration failed: ").concat(error_text),
                    ),
                )
            }
        },
        HardwareOp::Calibrate3v3(ProbeType::X10) => {
            if succeeded {
                Some(Notification::Success(String::from_str("X10 probe calibrated at 3.3V")))
            } else {
                Some(
                    Notification::Error(
                        String::from_str("X10 calibration failed: ").concat(error_text),
                    ),
                )
            }
        },
        HardwareOp::WriteCalibration => {
            if succeeded {
                Some(Notification::Success(String::from_str("Calibration saved successfully")))
            } else {
                Some(
                    Notification::Error(
                        String::from_str("Failed to save calibration: ").concat(error_text),
                    ),
                )
            }
        },
        HardwareOp::SetWaveform(_, _) => None,
    }
}

/// Rolling one-second throughput: reads completed per second, updated
/// once the current window is at least a second old.
#[derive(Clone, Copy, Debug, PartialEq, Eq)]
pub struct ThroughputCounter {
    pub window_start_ms: u64,
    pub read_count: u32,
    pub rate: u64,
}

impl ThroughputCounter {
    /// A counter whose window starts now.
    pub fn new(now_ms: u64) -> (r: Self)
        ensures
            r.window_start_ms == now_ms,
            r.read_count == 0,
            r.rate == 0,
    {
        ThroughputCounter { window_start_ms: now_ms, read_count: 0, rate: 0 }
    }

    /// Accounts one completed read.  When the window is a second or
    /// older, the rate becomes the reads of that window per second and
    /// a fresh window starts with this read.
    pub fn on_read(&mut self, now_ms: u64)
        requires
            now_ms >= old(self).window_start_ms,
        ensures
            now_ms - old(self).window_start_ms >= 1000 ==> final(self).rate == old(self).read_count as int * 1000 / (now_ms - old(self).window_start_ms) && final(self).window_start_ms == now_ms && final(self).read_count == 1,
            now_ms - old(self).window_start_ms < 1000 ==> final(self).rate == old(self).rate
                && final(self).window_start_ms == old(self).window_start_ms && final(self).read_count as int == (if old(self).read_count < u32::MAX {
                old(self).read_count as int + 1
            } else {
                old(self).read_count as int
            }),
    {
        let elapsed = now_ms - self.window_start_ms;
        if elapsed >= 1000 {
            self.rate = self.read_count as u64 * 1000 / elapsed;
            self.read_count = 1;
            self.window_start_ms = now_ms;
        } else {
            if self.read_count < u32::MAX {
                self.read_count = self.read_count + 1;
            }
        }
    }
}

} // verus!
