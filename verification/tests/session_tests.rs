use std::collections::HashMap;

use camera_controls::camera::{CameraControl, CameraId, CameraInfo, ControlError, ControlKind, FormatOption};
use camera_controls::config::{CameraProfile, Config};
use camera_controls::session::{Action, AppState, ControlRow, DeviceHeader, DeviceScan, Message, Pending, PreviewArea};

fn cam(n: u32, serial: Option<&str>) -> CameraInfo {
    CameraInfo {
        id: CameraId { vendor_id: "046d".into(), product_id: format!("08{}", n), serial: serial.map(|s| s.into()) },
        name: format!("Cam {}", n),
        dev_path: format!("/dev/video{}", n),
    }
}

fn controls() -> Vec<CameraControl> {
    vec![
        CameraControl { id: 1, name: "Brightness".into(), ctrl_type: ControlKind::Integer { min: 0, max: 255, step: 1 }, default: 128 },
        CameraControl { id: 2, name: "White Balance, Auto".into(), ctrl_type: ControlKind::Boolean, default: 1 },
        CameraControl { id: 3, name: "Auto Exposure".into(), ctrl_type: ControlKind::Menu { items: vec![(1, "Manual Mode".into()), (3, "Aperture Priority Mode".into())] }, default: 3 },
        CameraControl { id: 4, name: "Reset Pan".into(), ctrl_type: ControlKind::Button, default: 0 },
    ]
}

fn formats() -> Vec<FormatOption> {
    vec![
        FormatOption { fourcc: *b"MJPG", width: 1920, height: 1080, framerates: vec![(1, 30)] },
        FormatOption { fourcc: *b"YUYV", width: 640, height: 480, framerates: vec![] },
    ]
}

fn scan() -> DeviceScan {
    DeviceScan { controls: controls(), formats: formats(), readings: vec![Some(100), Some(0), Some(1), None] }
}

/// A state with camera 0 open and its preview started.
fn opened(config: Config) -> AppState {
    let (mut s, a) = AppState::new(vec![cam(0, None), cam(2, None)], config);
    assert!(matches!(a, Action::OpenDevice { .. }));
    let a = s.on_device_scanned(Ok(scan()));
    match a {
        Action::StartPreview { path } => assert_eq!(path, "/dev/video0"),
        other => panic!("unexpected {:?}", other),
    }
    assert!(matches!(s.on_preview_started(Ok(())), Action::Done));
    s
}

#[test]
fn start_without_cameras() {
    let (s, a) = AppState::new(Vec::new(), Config::new());
    assert!(matches!(a, Action::Done));
    assert_eq!(s.status, "No cameras detected");
    assert!(s.camera_labels.is_empty());
    assert_eq!(s.selected_camera, None);
}

#[test]
fn start_opens_the_first_camera() {
    let (s, a) = AppState::new(vec![cam(0, None), cam(1, None)], Config::new());
    match a {
        Action::OpenDevice { path } => assert_eq!(path, "/dev/video0"),
        other => panic!("unexpected {:?}", other),
    }
    assert_eq!(s.camera_labels, vec!["Cam 0 (/dev/video0)".to_string(), "Cam 1 (/dev/video1)".to_string()]);
    assert_eq!(s.pending, Pending::Opening { index: 0 });
}

#[test]
fn opening_without_profile() {
    let s = opened(Config::new());
    assert_eq!(s.status, "Opened Cam 0");
    assert_eq!(s.selected_camera, Some(0));
    assert_eq!(s.dev_path.as_deref(), Some("/dev/video0"));
    assert_eq!(s.format_labels, vec!["MJPG 1920x1080 @ 30fps".to_string(), "YUYV 640x480".to_string()]);
    let expected: HashMap<u32, i64> = [(1, 100), (2, 0), (3, 1)].into_iter().collect();
    assert_eq!(s.control_values, expected);
    assert_eq!(s.pending, Pending::Idle);
}

#[test]
fn opening_failure_reports_the_path() {
    let (mut s, _) = AppState::new(vec![cam(0, None)], Config::new());
    assert!(matches!(s.on_device_scanned(Err("No such device (os error 19)".into())), Action::Done));
    assert_eq!(s.status, "Failed to open /dev/video0: No such device (os error 19)");
    assert_eq!(s.selected_camera, None);
    assert_eq!(s.dev_path, None);
}

#[test]
fn selecting_a_missing_camera_does_nothing() {
    let mut s = opened(Config::new());
    assert!(matches!(s.update(Message::SelectCamera(5)), Action::Done));
    assert_eq!(s.selected_camera, Some(0));
}

fn saved_config() -> Config {
    let mut config = Config::new();
    config.set_profile(
        "046d:080".into(),
        CameraProfile { name: "Cam 0".into(), controls: vec![("1".into(), 200), ("3".into(), 1), ("77".into(), 5), ("x".into(), 9)], format: None },
    );
    config
}

#[test]
fn opening_with_profile_restores_it() {
    let (mut s, _) = AppState::new(vec![cam(0, None)], saved_config());
    let a = s.on_device_scanned(Ok(scan()));
    let plan = match a {
        Action::ApplyControls { path, plan } => {
            assert_eq!(path, "/dev/video0");
            plan
        }
        other => panic!("unexpected {:?}", other),
    };
    assert_eq!(plan.auto_writes, vec![(3, 1)]);
    assert_eq!(plan.manual_writes, vec![(1, 200), (77, 5)]);
    let a = s.on_controls_applied(vec![Ok(()), Ok(())], vec![Some(200), Some(0), Some(1), None]);
    assert!(matches!(a, Action::StartPreview { .. }));
    assert_eq!(s.status, "Profile restored for Cam 0");
    assert_eq!(s.control_values.get(&1), Some(&200));
}

#[test]
fn restore_errors_are_reported() {
    let (mut s, _) = AppState::new(vec![cam(0, None)], saved_config());
    s.on_device_scanned(Ok(scan()));
    let results = vec![
        Err(ControlError { errno: 16, message: "Failed to set control 1: busy".into() }),
        Err(ControlError { errno: 22, message: "Failed to set control 77: invalid".into() }),
    ];
    s.on_controls_applied(results, vec![Some(100), Some(0), Some(1), None]);
    assert_eq!(s.status, "Profile restored \u{2014} failed: Failed to set control 1: busy; Failed to set control 77: invalid");
    let a = s.on_preview_started(Err("Failed to spawn preview thread: x".into()));
    assert!(matches!(a, Action::Done));
    assert_eq!(s.status, "Preview failed: Failed to spawn preview thread: x");
}

#[test]
fn control_change_is_written_and_saved() {
    let mut s = opened(Config::new());
    match s.update(Message::ControlChanged(1, 42)) {
        Action::WriteControl { path, id, value } => assert_eq!((path.as_str(), id, value), ("/dev/video0", 1, 42)),
        other => panic!("unexpected {:?}", other),
    }
    assert!(matches!(s.on_control_written(Ok(())), Action::SaveConfig));
    assert_eq!(s.control_values.get(&1), Some(&42));
    let p = s.config.get_profile("046d:080").unwrap();
    assert_eq!(p.name, "Cam 0");
    assert_eq!(p.control_values(), s.control_values);
    assert!(matches!(s.on_config_saved(Err("disk full".into())), Action::Done));
    assert_eq!(s.status, "Save failed: disk full");
}

#[test]
fn auto_managed_control_is_read_back() {
    let mut s = opened(Config::new());
    s.update(Message::ControlChanged(1, 42));
    let a = s.on_control_written(Err(ControlError { errno: 13, message: "Failed to set control 1: denied".into() }));
    match a {
        Action::ReadControl { path, id } => assert_eq!((path.as_str(), id), ("/dev/video0", 1)),
        other => panic!("unexpected {:?}", other),
    }
    assert!(matches!(s.on_control_read(Some(77)), Action::Done));
    assert_eq!(s.control_values.get(&1), Some(&77));
    assert_eq!(s.status, "Opened Cam 0");
}

#[test]
fn refused_toggle_is_ignored() {
    let mut s = opened(Config::new());
    match s.update(Message::ControlToggled(2, true)) {
        Action::WriteControl { id, value, .. } => assert_eq!((id, value), (2, 1)),
        other => panic!("unexpected {:?}", other),
    }
    assert!(matches!(s.on_control_written(Err(ControlError { errno: 1, message: "x".into() })), Action::Done));
    assert_eq!(s.control_values.get(&2), Some(&0));
}

#[test]
fn failed_control_write_is_reported() {
    let mut s = opened(Config::new());
    s.update(Message::ControlToggled(2, false));
    s.on_control_written(Err(ControlError { errno: 5, message: "Failed to set control 2: Input/output error".into() }));
    assert_eq!(s.status, "Failed to set control 2: Input/output error");
    assert_eq!(s.pending, Pending::Idle);
}

#[test]
fn control_change_without_device_does_nothing() {
    let (mut s, _) = AppState::new(Vec::new(), Config::new());
    assert!(matches!(s.update(Message::ControlChanged(1, 1)), Action::Done));
    assert!(matches!(s.update(Message::ResetDefaults), Action::Done));
}

#[test]
fn selecting_a_format() {
    let mut s = opened(Config::new());
    match s.update(Message::SelectFormat(1)) {
        Action::SetFormat { path, fourcc, width, height } => {
            assert_eq!((path.as_str(), &fourcc, width, height), ("/dev/video0", b"YUYV", 640, 480))
        }
        other => panic!("unexpected {:?}", other),
    }
    assert!(matches!(s.on_format_set(Ok((640, 480))), Action::StartPreview { .. }));
    assert_eq!(s.status, "Format: YUYV 640x480");
    assert!(matches!(s.on_preview_started(Ok(())), Action::SaveConfig));
    let saved = s.config.get_profile("046d:080").unwrap().format.as_ref().unwrap();
    assert_eq!((saved.fourcc.as_str(), saved.width, saved.height, saved.framerate_num, saved.framerate_den), ("YUYV", 640, 480, 1, 30));
}

#[test]
fn failed_format_keeps_its_error() {
    let mut s = opened(Config::new());
    s.update(Message::SelectFormat(0));
    s.on_format_set(Err("Failed to set format: busy".into()));
    assert_eq!(s.status, "Failed to set format: busy");
    assert!(matches!(s.on_preview_started(Err("nope".into())), Action::SaveConfig));
    assert_eq!(s.status, "Failed to set format: busy");
}

#[test]
fn selecting_a_missing_format_saves() {
    let mut s = opened(Config::new());
    assert!(matches!(s.update(Message::SelectFormat(9)), Action::SaveConfig));
    assert_eq!(s.selected_format, Some(9));
    assert!(s.config.get_profile("046d:080").unwrap().format.is_none());
}

#[test]
fn reset_writes_defaults() {
    let mut s = opened(Config::new());
    let plan = match s.update(Message::ResetDefaults) {
        Action::ApplyControls { plan, .. } => plan,
        other => panic!("unexpected {:?}", other),
    };
    assert_eq!(plan.auto_writes, vec![(2, 1), (3, 3)]);
    assert_eq!(plan.manual_writes, vec![(1, 128), (4, 0)]);
    let a = s.on_controls_applied(vec![Ok(()), Ok(())], vec![Some(128), Some(1), Some(3), None]);
    assert!(matches!(a, Action::SaveConfig));
    assert_eq!(s.status, "Reset to defaults");
    assert!(matches!(s.on_config_saved(Err("disk".into())), Action::Done));
    assert_eq!(s.status, "Reset to defaults");
}

#[test]
fn reset_errors_are_reported() {
    let mut s = opened(Config::new());
    s.update(Message::ResetDefaults);
    s.on_controls_applied(vec![Err(ControlError { errno: 13, message: "denied".into() }), Err(ControlError { errno: 16, message: "busy".into() })], vec![]);
    assert_eq!(s.status, "Reset \u{2014} failed: busy");
    assert!(s.control_values.is_empty());
}

#[test]
fn unchanged_device_list() {
    let mut s = opened(Config::new());
    assert!(matches!(s.update(Message::CheckDevices), Action::ListCameras));
    assert!(matches!(s.on_cameras_listed(vec![cam(0, None), cam(2, None)]), Action::Done));
    assert_eq!(s.pending, Pending::Idle);
}

#[test]
fn device_list_change_keeps_the_open_camera() {
    let mut s = opened(Config::new());
    s.update(Message::CheckDevices);
    assert!(matches!(s.on_cameras_listed(vec![cam(4, None)]), Action::RelistCameras));
    assert!(matches!(s.on_cameras_listed(vec![cam(3, None), cam(0, None)]), Action::Done));
    assert_eq!(s.selected_camera, Some(1));
    assert_eq!(s.camera_labels, vec!["Cam 3 (/dev/video3)".to_string(), "Cam 0 (/dev/video0)".to_string()]);
    assert_eq!(s.controls.len(), 4);
}

#[test]
fn vanished_camera_opens_the_first_one() {
    let mut s = opened(Config::new());
    s.update(Message::CheckDevices);
    s.on_cameras_listed(vec![cam(3, None)]);
    match s.on_cameras_listed(vec![cam(3, None)]) {
        Action::OpenDevice { path } => assert_eq!(path, "/dev/video3"),
        other => panic!("unexpected {:?}", other),
    }
    assert_eq!(s.selected_camera, None);
    assert_eq!(s.dev_path, None);
    assert!(s.controls.is_empty() && s.formats.is_empty() && s.format_labels.is_empty() && s.control_values.is_empty());
}

#[test]
fn all_cameras_gone() {
    let mut s = opened(Config::new());
    s.update(Message::CheckDevices);
    s.on_cameras_listed(Vec::new());
    assert!(matches!(s.on_cameras_listed(Vec::new()), Action::Done));
    assert_eq!(s.status, "No cameras detected");
}

#[test]
fn unexpected_answers_are_ignored() {
    let mut s = opened(Config::new());
    assert!(matches!(s.on_control_read(Some(5)), Action::Done));
    assert!(matches!(s.on_format_set(Ok((1, 1))), Action::Done));
    assert_eq!(s.status, "Opened Cam 0");
    assert!(matches!(s.update(Message::PollPreview), Action::PollPreview));
}

#[test]
fn view_of_an_open_camera() {
    let s = opened(Config::new());
    let m = s.view_model(false);
    assert!(matches!(m.device, DeviceHeader::Selector));
    assert_eq!(m.preview, PreviewArea::Starting);
    assert!(m.show_formats);
    assert!(m.show_status);
    assert_eq!(m.rows.len(), 4);
    match &m.rows[0] {
        ControlRow::Slider { id, name, min, max, current, current_text, .. } => {
            assert_eq!((*id, name.as_str(), *min, *max, *current, current_text.as_str()), (1, "Brightness", 0, 255, 100, "100"))
        }
        other => panic!("unexpected {:?}", other),
    }
    assert!(matches!(&m.rows[1], ControlRow::Toggle { id: 2, on: false, .. }));
    match &m.rows[2] {
        ControlRow::Menu { label, .. } => assert_eq!(label, "Manual Mode"),
        other => panic!("unexpected {:?}", other),
    }
    assert!(matches!(&m.rows[3], ControlRow::Button { id: 4, .. }));
    assert_eq!(s.view_model(true).preview, PreviewArea::Frame);
}

#[test]
fn view_of_a_single_camera() {
    let (mut s, _) = AppState::new(vec![cam(0, None)], Config::new());
    s.on_device_scanned(Ok(DeviceScan { controls: controls(), formats: Vec::new(), readings: vec![None, Some(5), Some(2), None] }));
    let m = s.view_model(false);
    match m.device {
        DeviceHeader::Title(t) => assert_eq!(t, "Cam 0 \u{2014} /dev/video0"),
        other => panic!("unexpected {:?}", other),
    }
    assert!(!m.show_formats);
    match &m.rows[0] {
        ControlRow::Slider { current, current_text, .. } => assert_eq!((*current, current_text.as_str()), (128, "128")),
        other => panic!("unexpected {:?}", other),
    }
    assert!(matches!(&m.rows[1], ControlRow::Toggle { on: true, .. }));
    match &m.rows[2] {
        ControlRow::Menu { label, .. } => assert_eq!(label, "Unknown"),
        other => panic!("unexpected {:?}", other),
    }
}

#[test]
fn view_without_cameras() {
    let (s, _) = AppState::new(Vec::new(), Config::new());
    let m = s.view_model(false);
    assert!(matches!(m.device, DeviceHeader::Hidden));
    assert_eq!(m.preview, PreviewArea::Hidden);
    assert!(m.rows.is_empty());
}

#[test]
fn written_value_survives_a_reopen() {
    let mut s = opened(Config::new());
    s.update(Message::ControlChanged(1, 7));
    s.on_control_written(Ok(()));
    s.on_config_saved(Ok(()));
    let config = s.config;
    let (mut s, _) = AppState::new(vec![cam(0, None)], config);
    let plan = match s.on_device_scanned(Ok(scan())) {
        Action::ApplyControls { plan, .. } => plan,
        other => panic!("unexpected {:?}", other),
    };
    assert!(plan.manual_writes.contains(&(1, 7)));
}
