use fleascope_live::channels::{BoundedQueue, LatestSlot};
use fleascope_live::decode::{
    apply_calibration, decode_frame, parse_bitmap_hex, unpack_digital, DecodeError,
    ProbeCalibration,
};
use fleascope_live::device::{
    clamp_time_frame_us, cycle_bitstate, waveform_to_icon, BitState, CaptureConfig, CaptureMode,
    ControlCommand, DataPoint, DeviceData, DeviceManager, Notification, ProbeType, TriggerConfig,
    TriggerSource, Waveform, WaveformConfig,
};
use fleascope_live::notifications::{Notification as Toast, NotificationManager, NotificationType};
use fleascope_live::worker_interface::{CaptureModeFlat, FleaScopeDevice};

fn device() -> FleaScopeDevice {
    FleaScopeDevice::new(String::from("scope3"), CaptureConfig::default(), WaveformConfig::default())
}

#[test]
fn time_frame_clamps_to_supported_range() {
    // 10 s clamps down to 3.49 s; 10 us clamps up to 122 us.
    let mut d = device();
    let mut slot: LatestSlot<CaptureConfig> = LatestSlot::new(CaptureConfig::default());
    d.set_time_frame(10_000_000, &mut slot);
    assert_eq!(d.get_triggered_config().time_frame_us, 3_490_000);
    d.set_time_frame(10, &mut slot);
    assert_eq!(d.get_triggered_config().time_frame_us, 122);
    d.set_time_frame(250_000, &mut slot);
    assert_eq!(d.get_triggered_config().time_frame_us, 250_000);
    assert_eq!(clamp_time_frame_us(0), 122);
    assert_eq!(clamp_time_frame_us(3_490_001), 3_490_000);
}

#[test]
fn digital_unpack_bitmap_155() {
    // bitmap 0b101010101 unpacks to channels 1,0,1,0,1,0,1,0,1
    let channels = unpack_digital(0x155);
    assert_eq!(channels, [true, false, true, false, true, false, true, false, true]);
    let zero = unpack_digital(0);
    assert_eq!(zero, [false; 9]);
    let all = unpack_digital(0x1FF);
    assert_eq!(all, [true; 9]);
}

#[test]
fn bitmap_hex_parsing() {
    assert_eq!(parse_bitmap_hex(b"0x155"), Some(0x155));
    assert_eq!(parse_bitmap_hex(b"0x1ff"), Some(0x1ff));
    assert_eq!(parse_bitmap_hex(b"0x1FF"), Some(0x1ff));
    assert_eq!(parse_bitmap_hex(b"0x0"), Some(0));
    assert_eq!(parse_bitmap_hex(b"0xffff"), Some(0xffff));
    assert_eq!(parse_bitmap_hex(b"0x00ff"), Some(0xff));
    assert_eq!(parse_bitmap_hex(b"0x10000"), None);
    assert_eq!(parse_bitmap_hex(b"0x"), None);
    assert_eq!(parse_bitmap_hex(b"155"), None);
    assert_eq!(parse_bitmap_hex(b"0xg1"), None);
    assert_eq!(parse_bitmap_hex(b""), None);
}

#[test]
fn decode_rejects_each_defect() {
    let cal = ProbeCalibration { zero_count: 0, gain_uv: 1 };
    let times = vec![0i64, 1];
    let bnc = vec![10i64, 20];
    let bitmaps = vec![b"0x1".to_vec(), b"0x2".to_vec()];
    assert!(decode_frame(&times, &bnc, &bitmaps, &cal).is_ok());

    let short = vec![0i64];
    assert_eq!(
        decode_frame(&short, &bnc, &bitmaps, &cal),
        Err(DecodeError::LengthMismatch)
    );
    let bad = vec![b"0x1".to_vec(), b"xyz".to_vec()];
    assert_eq!(decode_frame(&times, &bnc, &bad, &cal), Err(DecodeError::InvalidBitmap));
    let huge = vec![10i64, 99_000_000_000];
    assert_eq!(
        decode_frame(&times, &huge, &bitmaps, &cal),
        Err(DecodeError::AnalogOutOfRange)
    );
}

#[test]
fn calibration_shifts_and_scales() {
    let cal = ProbeCalibration { zero_count: 2048, gain_uv: 1611 };
    assert_eq!(apply_calibration(&cal, 2048), 0);
    assert_eq!(apply_calibration(&cal, 2049), 1611);
    assert_eq!(apply_calibration(&cal, 2047), -1611);
}

#[test]
fn bitstate_cycles_in_order() {
    assert_eq!(cycle_bitstate(BitState::DontCare), BitState::High);
    assert_eq!(cycle_bitstate(BitState::High), BitState::Low);
    assert_eq!(cycle_bitstate(BitState::Low), BitState::DontCare);
}

#[test]
fn waveform_icons() {
    assert_eq!(waveform_to_icon(Waveform::Sine), "~");
    assert_eq!(waveform_to_icon(Waveform::Square), "|-|");
    assert_eq!(waveform_to_icon(Waveform::Triangle), "/\\");
    assert_eq!(waveform_to_icon(Waveform::Ekg), "<3");
}

#[test]
fn waveform_frequency_clamped() {
    let mut d = device();
    let mut wf: LatestSlot<WaveformConfig> = LatestSlot::new(WaveformConfig::default());
    d.set_waveform(Waveform::Square, 9_999, &mut wf);
    assert_eq!(d.get_waveform_config().frequency_hz, 4000);
    assert!(d.get_waveform_config().enabled);
    d.set_waveform(Waveform::Sine, 1, &mut wf);
    assert_eq!(d.get_waveform_config().frequency_hz, 10);
    let published = wf.borrow_and_update();
    assert_eq!(published.frequency_hz, 10);
    assert_eq!(published.waveform_type, Waveform::Sine);

    let mut c = WaveformConfig { enabled: true, waveform_type: Waveform::Ekg, frequency_hz: 7777 };
    c.clamp_frequency();
    assert_eq!(c.frequency_hz, 4000);
}

#[test]
fn setters_publish_the_latest_configuration() {
    let mut d = device();
    let mut slot: LatestSlot<CaptureConfig> = LatestSlot::new(CaptureConfig::default());
    d.set_probe_multiplier(ProbeType::X10, &mut slot);
    d.set_capture_mode(CaptureModeFlat::Continuous, &mut slot);
    let seen = slot.borrow_and_update();
    assert_eq!(seen.probe_multiplier, ProbeType::X10);
    assert_eq!(seen.mode, CaptureMode::Continuous);
    assert_eq!(d.get_probe_multiplier(), ProbeType::X10);
    assert!(matches!(d.get_capture_mode(), CaptureModeFlat::Continuous));
}

#[test]
fn control_writes_enqueue_commands() {
    let d = device();
    let mut q: BoundedQueue<ControlCommand> = BoundedQueue::new(8);
    assert!(d.pause(&mut q).is_ok());
    assert!(d.resume(&mut q).is_ok());
    assert!(d.step(&mut q).is_ok());
    assert!(d.start_calibrate_0v(&mut q).is_ok());
    assert!(d.start_calibrate_3v(&mut q).is_ok());
    assert!(d.start_store_calibration(&mut q).is_ok());
    assert_eq!(q.try_recv(), Some(ControlCommand::Pause));
    assert_eq!(q.try_recv(), Some(ControlCommand::Resume));
    assert_eq!(q.try_recv(), Some(ControlCommand::Step));
    assert_eq!(q.try_recv(), Some(ControlCommand::Calibrate0V(ProbeType::X1)));
    assert_eq!(q.try_recv(), Some(ControlCommand::Calibrate3V(ProbeType::X1)));
    assert_eq!(q.try_recv(), Some(ControlCommand::StoreCalibration));
    let mut full: BoundedQueue<ControlCommand> = BoundedQueue::new(1);
    assert!(d.pause(&mut full).is_ok());
    assert!(d.pause(&mut full).is_err());
    d.stop(&mut q).unwrap();
    assert_eq!(q.try_recv(), Some(ControlCommand::Exit));
}

#[test]
fn notification_drain_is_fifo() {
    let d = device();
    let mut notes: BoundedQueue<Notification> = BoundedQueue::new(4);
    let _ = notes.try_send(Notification::Success(String::from("first")));
    let _ = notes.try_send(Notification::Error(String::from("second")));
    match d.try_recv_notification(&mut notes) {
        Some(Notification::Success(m)) => assert_eq!(m, "first"),
        other => panic!("unexpected: {:?}", other),
    }
    match d.try_recv_notification(&mut notes) {
        Some(Notification::Error(m)) => assert_eq!(m, "second"),
        other => panic!("unexpected: {:?}", other),
    }
    assert!(d.try_recv_notification(&mut notes).is_none());
}

#[test]
fn mutable_time_handles_expose_the_raw_fields() {
    let mut d = device();
    *d.get_mut_trigger_time_handle() = 200_000;
    assert_eq!(d.get_triggered_config().time_frame_us, 200_000);
    *d.get_mut_buffer_time_handle() = 2_500_000;
    assert_eq!(d.get_continuous_config().buffer_time_us, 2_500_000);
}

#[test]
fn trigger_default_and_resolution() {
    let tc = TriggerConfig::default();
    assert_eq!(tc.source, TriggerSource::Digital);
    assert_eq!(tc.digital.pattern, [BitState::DontCare; 9]);
    let resolved: fleascope_live::device::Trigger = tc.into();
    assert!(matches!(resolved, fleascope_live::device::Trigger::Digital(_)));
}

#[test]
fn device_manager_keeps_order() {
    let mut dm = DeviceManager::default();
    assert!(dm.get_devices().is_empty());
    dm.push_device(device());
    let mut second = device();
    second.name = String::from("scope4");
    dm.push_device(second);
    assert_eq!(dm.get_devices().len(), 2);
    assert_eq!(dm.get_devices()[1].name, "scope4");
    let removed = dm.remove_device(0);
    assert_eq!(removed.name, "scope3");
    assert_eq!(dm.get_devices().len(), 1);
    assert_eq!(dm.get_devices_mut()[0].name, "scope4");
}

#[test]
fn snapshot_columns() {
    let data = DeviceData {
        x_values: vec![0, 1, 2],
        data_points: vec![
            DataPoint { analog_channel: 5, digital_channels: [true; 9] },
            DataPoint { analog_channel: -5, digital_channels: [false; 9] },
            DataPoint {
                analog_channel: 0,
                digital_channels: [true, false, false, false, false, false, false, false, false],
            },
        ],
        last_update_ms: 0,
        update_rate: 0,
        connected: true,
        running: true,
    };
    let (x, y) = data.get_analog_data();
    assert_eq!(x, vec![0, 1, 2]);
    assert_eq!(y, vec![5, -5, 0]);
    let (dx, dy) = data.get_digital_channel_data(0);
    assert_eq!(dx, vec![0, 1, 2]);
    assert_eq!(dy, vec![1, 0, 1]);
    let (ex, ey) = data.get_digital_channel_data(9);
    assert!(ex.is_empty() && ey.is_empty());
}

#[test]
fn toast_durations_by_kind() {
    let e = Toast::new_at(String::from("boom"), NotificationType::Error, 1_000);
    assert_eq!(e.duration_ms, 8000);
    assert_eq!(e.created_at_ms, 1_000);
    let s = Toast::new_at(String::from("done"), NotificationType::Success, 0);
    assert_eq!(s.duration_ms, 4000);
    let i = Toast::new_at(String::from("hello"), NotificationType::Info, 0);
    assert_eq!(i.duration_ms, 3000);
    assert_eq!(i.id, 0);
    let wall = Toast::new(String::from("now"), NotificationType::Info);
    assert!(wall.created_at_ms >= 0);
    assert!(!wall.is_expired());
}

#[test]
fn toast_expiry_at_instants() {
    let t = Toast::new_at(String::from("x"), NotificationType::Info, 1_000);
    assert!(!t.is_expired_at(1_000));
    assert!(!t.is_expired_at(4_000));
    assert!(t.is_expired_at(4_001));
    assert!(!t.is_expired_at(0));
    assert_eq!(t.get_icon(), "i");
}

#[test]
fn manager_assigns_ids_and_caps_the_display() {
    let mut m = NotificationManager::default();
    for k in 0..7 {
        m.add_notification(Toast::new_at(format!("n{}", k), NotificationType::Info, 0));
    }
    // at most five are shown; the oldest two made room
    assert_eq!(m.notifications.len(), 5);
    assert_eq!(m.notifications[0].message, "n2");
    assert_eq!(m.notifications[0].id, 3);
    assert_eq!(m.notifications[4].message, "n6");
    assert_eq!(m.notifications[4].id, 7);
    assert_eq!(m.next_id, 8);
}

#[test]
fn manager_removes_by_id_and_by_expiry() {
    let mut m = NotificationManager::default();
    m.add_notification(Toast::new_at(String::from("a"), NotificationType::Info, 0));
    m.add_notification(Toast::new_at(String::from("b"), NotificationType::Error, 5_000));
    m.add_notification(Toast::new_at(String::from("c"), NotificationType::Info, 9_000));
    m.remove_notification(2);
    assert_eq!(m.notifications.len(), 2);
    assert_eq!(m.notifications[0].message, "a");
    assert_eq!(m.notifications[1].message, "c");
    // at 11_500 ms the first info (created 0, 3 s) is long gone, while
    // the one created at 9_000 ms still has half a second left
    m.remove_expired_at(11_500);
    assert_eq!(m.notifications.len(), 1);
    assert_eq!(m.notifications[0].message, "c");
    m.add_error(String::from("fresh"));
    assert_eq!(m.notifications.len(), 2);
    assert_eq!(m.notifications[1].notification_type, NotificationType::Error);
    m.update();
    // a freshly created error cannot be expired already
    assert!(m.notifications.iter().any(|n| n.message == "fresh"));
}

#[test]
fn default_capture_config() {
    let c = CaptureConfig::default();
    assert_eq!(c.probe_multiplier, ProbeType::X1);
    match c.mode {
        CaptureMode::Triggered { time_frame_us, trigger_config } => {
            assert_eq!(time_frame_us, 100_000);
            assert_eq!(trigger_config.source, TriggerSource::Digital);
        }
        CaptureMode::Continuous => panic!("default mode must be triggered"),
    }
    let d = device();
    assert_eq!(d.enabled_channels, [true; 10]);
    assert!(d.wrap);
    assert_eq!(d.get_continuous_config().buffer_time_us, 1_000_000);
}
