use fleascope_live::channels::{BoundedQueue, LatestSlot};
use fleascope_live::decode::{DecodeError, ProbeCalibration};
use fleascope_live::device::{
    CaptureConfig, CaptureMode, ControlCommand, Notification, ProbeType, SnapshotCell,
    TriggerConfig, TriggerSource, Waveform,
};
use fleascope_live::device_worker::{
    acquisition_params, calibration_notification, cancel_check, AcquisitionParams, CancelReason,
    FleaWorker, HardwareOp, RawFrame, ReadOutcome, ThroughputCounter,
};

fn cal() -> ProbeCalibration {
    ProbeCalibration { zero_count: 100, gain_uv: 2 }
}

fn frame(bitmaps: Vec<&str>) -> RawFrame {
    let n = bitmaps.len();
    RawFrame {
        times_us: (0..n as i64).collect(),
        bnc_raw: (0..n as i64).map(|i| 100 + i).collect(),
        bitmaps: bitmaps.into_iter().map(|s| s.as_bytes().to_vec()).collect(),
    }
}

#[test]
fn config_updates_coalesce() {
    // A burst of writes leaves exactly the last value, observed once.
    let mut slot: LatestSlot<CaptureConfig> = LatestSlot::new(CaptureConfig::default());
    let mut c1 = CaptureConfig::default();
    c1.probe_multiplier = ProbeType::X10;
    let mut c2 = CaptureConfig::default();
    c2.mode = CaptureMode::Continuous;
    let c3 = CaptureConfig {
        probe_multiplier: ProbeType::X1,
        mode: CaptureMode::Triggered {
            trigger_config: TriggerConfig::default(),
            time_frame_us: 5_000,
        },
    };
    slot.send(c1);
    slot.send(c2);
    slot.send(c3);
    assert!(slot.has_changed());
    let seen = slot.borrow_and_update();
    assert_eq!(seen, c3);
    assert!(!slot.has_changed());
}

#[test]
fn control_queue_is_fifo() {
    let mut q: BoundedQueue<ControlCommand> = BoundedQueue::new(3);
    assert!(q.try_send(ControlCommand::Pause).is_ok());
    assert!(q.try_send(ControlCommand::Step).is_ok());
    assert!(q.try_send(ControlCommand::Resume).is_ok());
    assert_eq!(q.try_recv(), Some(ControlCommand::Pause));
    assert_eq!(q.try_recv(), Some(ControlCommand::Step));
    assert_eq!(q.try_recv(), Some(ControlCommand::Resume));
    assert_eq!(q.try_recv(), None);
}

#[test]
fn control_queue_rejects_on_overflow() {
    let mut q: BoundedQueue<ControlCommand> = BoundedQueue::new(1);
    assert!(q.try_send(ControlCommand::Pause).is_ok());
    let rejected = q.try_send(ControlCommand::Exit);
    assert_eq!(rejected, Err(ControlCommand::Exit));
    assert_eq!(q.len(), 1);
}

#[test]
fn cancel_priority_order() {
    assert_eq!(cancel_check(true, true, true), Some(CancelReason::ConfigChanged));
    assert_eq!(cancel_check(false, true, true), Some(CancelReason::WaveformChanged));
    assert_eq!(cancel_check(false, false, true), Some(CancelReason::ControlPending));
    assert_eq!(cancel_check(false, false, false), None);
}

#[test]
fn cancelled_read_preserves_snapshot() {
    // A cancelled in-flight read never touches the published snapshot.
    let mut worker = FleaWorker::new(cal(), cal());
    let mut data = SnapshotCell::new(7);
    let mut notes: BoundedQueue<Notification> = BoundedQueue::new(4);
    let ok = frame(vec!["0x1", "0x2"]);
    let r = worker.finish_cycle(&mut data, &mut notes, ReadOutcome::Data(ok), ProbeType::X1, 50, 9);
    assert!(r.is_none());
    let before_x = data.snapshot().x_values.clone();
    assert_eq!(before_x.len(), 2);
    let r2 = worker.finish_cycle(&mut data, &mut notes, ReadOutcome::Cancelled, ProbeType::X1, 99, 9);
    assert!(r2.is_none());
    assert_eq!(data.snapshot().x_values, before_x);
    assert_eq!(data.snapshot().last_update_ms, 50);
}

#[test]
fn rejected_frame_preserves_snapshot() {
    // Snapshot replacement is all-or-nothing per successful decode.
    let mut worker = FleaWorker::new(cal(), cal());
    let mut data = SnapshotCell::new(0);
    let mut notes: BoundedQueue<Notification> = BoundedQueue::new(4);
    let good = frame(vec!["0x10", "0x20"]);
    assert!(worker
        .finish_cycle(&mut data, &mut notes, ReadOutcome::Data(good), ProbeType::X1, 10, 1)
        .is_none());
    let bad = frame(vec!["0x10", "nope"]);
    let r = worker.finish_cycle(&mut data, &mut notes, ReadOutcome::Data(bad), ProbeType::X1, 20, 1);
    assert_eq!(r, Some(DecodeError::InvalidBitmap));
    assert_eq!(data.snapshot().last_update_ms, 10);
    assert_eq!(data.snapshot().data_points.len(), 2);
}

#[test]
fn successful_decode_replaces_snapshot() {
    let mut worker = FleaWorker::new(cal(), cal());
    let mut data = SnapshotCell::new(0);
    let mut notes: BoundedQueue<Notification> = BoundedQueue::new(4);
    let f = frame(vec!["0x155"]);
    let r = worker.finish_cycle(&mut data, &mut notes, ReadOutcome::Data(f), ProbeType::X1, 33, 4);
    assert!(r.is_none());
    let snap = data.snapshot();
    assert_eq!(snap.x_values, vec![0]);
    // raw 100 with zero reference 100 and gain 2 is 0 microvolts
    assert_eq!(snap.data_points[0].analog_channel, 0);
    assert_eq!(
        snap.data_points[0].digital_channels,
        [true, false, true, false, true, false, true, false, true]
    );
    assert_eq!(snap.last_update_ms, 33);
    assert_eq!(snap.update_rate, 4);
    assert!(snap.connected);
    assert!(snap.running);
}

#[test]
fn connection_loss_flags_disconnected_and_notifies() {
    let mut worker = FleaWorker::new(cal(), cal());
    let mut data = SnapshotCell::new(0);
    let mut notes: BoundedQueue<Notification> = BoundedQueue::new(4);
    let f = frame(vec!["0x3"]);
    assert!(worker
        .finish_cycle(&mut data, &mut notes, ReadOutcome::Data(f), ProbeType::X1, 5, 1)
        .is_none());
    let r = worker.finish_cycle(&mut data, &mut notes, ReadOutcome::ConnectionLost, ProbeType::X1, 6, 1);
    assert!(r.is_none());
    let snap = data.snapshot();
    assert!(!snap.connected);
    assert!(!snap.running);
    assert_eq!(snap.update_rate, 0);
    assert_eq!(snap.data_points.len(), 1);
    match notes.try_recv() {
        Some(Notification::Error(m)) => assert_eq!(m, "Lost connection to the device."),
        other => panic!("expected an error notification, got {:?}", other),
    }
}

#[test]
fn paused_worker_resumes_within_one_iteration() {
    // Pausing mid-read must not wedge the loop: a resume command makes
    // the very next iteration plan acquire again.
    let mut worker = FleaWorker::new(cal(), cal());
    let mut data = SnapshotCell::new(0);
    let step = worker.handle_control_command(ControlCommand::Pause, &mut data);
    assert!(!step.exit);
    assert!(!worker.plan_iteration(false, false).acquire);
    assert!(!data.snapshot().running);
    let step = worker.handle_control_command(ControlCommand::Resume, &mut data);
    assert!(!step.exit);
    let plan = worker.plan_iteration(false, false);
    assert!(plan.acquire);
}

#[test]
fn rapid_trigger_edits_cause_single_restart() {
    // Three trigger edits while a read is in flight: the poll cancels
    // once, and the restarted cycle uses the last of the three configs.
    let mut device = fleascope_live::worker_interface::FleaScopeDevice::new(
        String::from("scope3"),
        CaptureConfig::default(),
        Default::default(),
    );
    let mut slot: LatestSlot<CaptureConfig> = LatestSlot::new(CaptureConfig::default());
    // worker observed the initial configuration before starting its read
    let _ = slot.borrow_and_update();

    let mut t1 = TriggerConfig::default();
    t1.source = TriggerSource::Analog;
    t1.analog.level_uv = 100_000;
    let mut t2 = t1;
    t2.analog.level_uv = 200_000;
    let mut t3 = t2;
    t3.analog.level_uv = 300_000;
    device.set_trigger_config(t1, &mut slot);
    device.set_trigger_config(t2, &mut slot);
    device.set_trigger_config(t3, &mut slot);

    // polling loop: the first check cancels the read
    let mut restarts = 0;
    if cancel_check(slot.has_changed(), false, false).is_some() {
        let cfg = slot.borrow_and_update();
        restarts += 1;
        match cfg.mode {
            CaptureMode::Triggered { trigger_config, .. } => {
                assert_eq!(trigger_config.analog.level_uv, 300_000)
            }
            CaptureMode::Continuous => panic!("mode must still be triggered"),
        }
    }
    // the next poll sees nothing new: no second restart
    if cancel_check(slot.has_changed(), false, false).is_some() {
        restarts += 1;
    }
    assert_eq!(restarts, 1);
}

#[test]
fn invalid_trigger_notifies_and_pauses() {
    let mut worker = FleaWorker::new(cal(), cal());
    let mut data = SnapshotCell::new(0);
    let mut notes: BoundedQueue<Notification> = BoundedQueue::new(4);
    worker.on_invalid_trigger(&mut data, &mut notes, "level out of range");
    assert!(!worker.plan_iteration(false, false).acquire);
    assert!(!data.snapshot().running);
    assert!(data.snapshot().connected);
    match notes.try_recv() {
        Some(Notification::Error(m)) => {
            assert_eq!(m, "Invalid trigger configuration: level out of range")
        }
        other => panic!("expected an error notification, got {:?}", other),
    }
}

#[test]
fn exit_command_ends_worker() {
    let mut worker = FleaWorker::new(cal(), cal());
    let mut data = SnapshotCell::new(0);
    let step = worker.handle_control_command(ControlCommand::Exit, &mut data);
    assert!(step.exit);
    assert_eq!(step.hardware, None);
}

#[test]
fn calibration_commands_become_hardware_ops() {
    let mut worker = FleaWorker::new(cal(), cal());
    let mut data = SnapshotCell::new(0);
    let s0 = worker.handle_control_command(ControlCommand::Calibrate0V(ProbeType::X10), &mut data);
    assert_eq!(s0.hardware, Some(HardwareOp::Calibrate0(ProbeType::X10)));
    let s3 = worker.handle_control_command(ControlCommand::Calibrate3V(ProbeType::X1), &mut data);
    assert_eq!(s3.hardware, Some(HardwareOp::Calibrate3v3(ProbeType::X1)));
    let ss = worker.handle_control_command(ControlCommand::StoreCalibration, &mut data);
    assert_eq!(ss.hardware, Some(HardwareOp::WriteCalibration));
    let st = worker.handle_control_command(ControlCommand::Step, &mut data);
    assert_eq!(st.hardware, None);
    assert!(!st.exit);
}

#[test]
fn calibration_notification_wording() {
    match calibration_notification(HardwareOp::Calibrate0(ProbeType::X1), true, "") {
        Some(Notification::Success(m)) => assert_eq!(m, "X1 probe calibrated at 0V"),
        other => panic!("unexpected: {:?}", other),
    }
    match calibration_notification(HardwareOp::Calibrate3v3(ProbeType::X10), true, "") {
        Some(Notification::Success(m)) => assert_eq!(m, "X10 probe calibrated at 3.3V"),
        other => panic!("unexpected: {:?}", other),
    }
    match calibration_notification(HardwareOp::Calibrate0(ProbeType::X10), false, "timeout") {
        Some(Notification::Error(m)) => assert_eq!(m, "X10 calibration failed: timeout"),
        other => panic!("unexpected: {:?}", other),
    }
    match calibration_notification(HardwareOp::WriteCalibration, true, "") {
        Some(Notification::Success(m)) => assert_eq!(m, "Calibration saved successfully"),
        other => panic!("unexpected: {:?}", other),
    }
    match calibration_notification(HardwareOp::WriteCalibration, false, "flash") {
        Some(Notification::Error(m)) => assert_eq!(m, "Failed to save calibration: flash"),
        other => panic!("unexpected: {:?}", other),
    }
    assert!(calibration_notification(HardwareOp::SetWaveform(Waveform::Sine, 100), true, "")
        .is_none());
}

#[test]
fn acquisition_params_resolve_trigger() {
    let mut tc = TriggerConfig::default();
    tc.source = TriggerSource::Analog;
    tc.analog.level_uv = 1_500_000;
    let cfg = CaptureConfig {
        probe_multiplier: ProbeType::X1,
        mode: CaptureMode::Triggered { trigger_config: tc, time_frame_us: 250_000 },
    };
    match acquisition_params(&cfg) {
        AcquisitionParams::Triggered { trigger, duration_us } => {
            assert_eq!(duration_us, 250_000);
            match trigger {
                fleascope_live::device::Trigger::Analog(a) => assert_eq!(a.level_uv, 1_500_000),
                fleascope_live::device::Trigger::Digital(_) => panic!("analog source expected"),
            }
        }
        AcquisitionParams::Continuous => panic!("triggered mode expected"),
    }
    let cont = CaptureConfig { probe_multiplier: ProbeType::X1, mode: CaptureMode::Continuous };
    assert!(matches!(acquisition_params(&cont), AcquisitionParams::Continuous));
}

#[test]
fn throughput_counter_rolls_over_after_a_second() {
    let mut c = ThroughputCounter::new(0);
    c.on_read(100);
    c.on_read(200);
    c.on_read(300);
    assert_eq!(c.rate, 0);
    assert_eq!(c.read_count, 3);
    // 3 reads over 1200 ms: 3 * 1000 / 1200 = 2 per second, rounded down
    c.on_read(1200);
    assert_eq!(c.rate, 2);
    assert_eq!(c.read_count, 1);
    assert_eq!(c.window_start_ms, 1200);
}
