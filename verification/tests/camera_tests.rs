use std::collections::HashMap;

use camera_controls::camera::{
    apply_controls, apply_errors, candidate_sizes, format_choices, format_sizes, fourcc_name, enum_framerates, enumerate_controls, is_capture_device,
    is_listed, menu_index_bounds, menu_items, needs_menu_items, next_control_query, read_usb_identity,
    snapshot_controls, video_device_path, CameraControl, CameraId, CameraInfo, ControlAnswer, ControlError,
    ControlKind, ControlQuery, FormatOption, FrameSize, MenuEntry, UsbAttributes, VideoNode,
    V4L2_CTRL_FLAG_DISABLED, V4L2_CTRL_FLAG_READ_ONLY, V4L2_CTRL_TYPE_BOOLEAN, V4L2_CTRL_TYPE_BUTTON,
    V4L2_CTRL_TYPE_INTEGER, V4L2_CTRL_TYPE_INTEGER64, V4L2_CTRL_TYPE_INTEGER_MENU, V4L2_CTRL_TYPE_MENU,
};

fn name32(s: &str) -> [u8; 32] {
    let mut n = [0u8; 32];
    n[..s.len()].copy_from_slice(s.as_bytes());
    n
}

fn query(id: u32, ctrl_type: u32, name: &str, min: i32, max: i32, step: i32, default: i32, flags: u32) -> ControlQuery {
    ControlQuery { id, ctrl_type, name: name32(name), minimum: min, maximum: max, step, default_value: default, flags }
}

fn control(id: u32, name: &str, ctrl_type: ControlKind, default: i64) -> CameraControl {
    CameraControl { id, name: name.to_string(), ctrl_type, default }
}

fn id(vendor: &str, product: &str, serial: Option<&str>) -> CameraId {
    CameraId { vendor_id: vendor.to_string(), product_id: product.to_string(), serial: serial.map(|s| s.to_string()) }
}

#[test]
fn profile_key_with_serial() {
    assert_eq!(id("046d", "085e", Some("ABC123")).profile_key(), "046d:085e:ABC123");
}

#[test]
fn profile_key_without_serial() {
    assert_eq!(id("046d", "085e", None).profile_key(), "046d:085e");
}

#[test]
fn profile_key_with_empty_serial() {
    assert_eq!(id("046d", "085e", Some("")).profile_key(), "046d:085e");
}

#[test]
fn clone_keeps_the_identity() {
    let a = id("1", "2", Some("3"));
    assert_eq!(a.clone(), a);
}

#[test]
fn permission_denied_errnos() {
    let e = |errno| ControlError { errno, message: String::new() };
    assert!(e(13).is_permission_denied());
    assert!(e(1).is_permission_denied());
    assert!(!e(16).is_permission_denied());
    assert!(!e(0).is_permission_denied());
}

#[test]
fn control_error_messages() {
    let e = ControlError::open_failed(9963776);
    assert_eq!(e.errno, 0);
    assert_eq!(e.message, "Failed to open device for control 9963776");
    let e = ControlError::write_failed(42, 16, "Device or resource busy (os error 16)");
    assert_eq!(e.errno, 16);
    assert_eq!(e.message, "Failed to set control 42: Device or resource busy (os error 16)");
}

#[test]
fn listed_controls_are_enabled_writable_and_known() {
    assert!(is_listed(&query(1, V4L2_CTRL_TYPE_INTEGER, "a", 0, 10, 1, 5, 0)));
    assert!(!is_listed(&query(1, V4L2_CTRL_TYPE_INTEGER, "a", 0, 10, 1, 5, V4L2_CTRL_FLAG_DISABLED)));
    assert!(!is_listed(&query(1, V4L2_CTRL_TYPE_INTEGER, "a", 0, 10, 1, 5, V4L2_CTRL_FLAG_READ_ONLY)));
    assert!(!is_listed(&query(1, 6, "a", 0, 10, 1, 5, 0)));
    assert!(is_listed(&query(1, V4L2_CTRL_TYPE_BUTTON, "a", 0, 0, 0, 0, 0x40)));
}

#[test]
fn menu_items_are_read_for_listed_menus_only() {
    assert!(needs_menu_items(&query(1, V4L2_CTRL_TYPE_MENU, "m", 0, 3, 1, 0, 0)));
    assert!(needs_menu_items(&query(1, V4L2_CTRL_TYPE_INTEGER_MENU, "m", 0, 3, 1, 0, 0)));
    assert!(!needs_menu_items(&query(1, V4L2_CTRL_TYPE_MENU, "m", 0, 3, 1, 0, V4L2_CTRL_FLAG_DISABLED)));
    assert!(!needs_menu_items(&query(1, V4L2_CTRL_TYPE_BOOLEAN, "b", 0, 1, 1, 0, 0)));
}

#[test]
fn menu_bounds_are_taken_as_unsigned() {
    assert_eq!(menu_index_bounds(&query(1, V4L2_CTRL_TYPE_MENU, "m", 0, 3, 1, 0, 0)), (0, 3));
    assert_eq!(menu_index_bounds(&query(1, V4L2_CTRL_TYPE_MENU, "m", -1, 2, 1, 0, 0)), (u32::MAX, 2));
}

#[test]
fn next_query_sets_the_next_flag() {
    assert_eq!(next_control_query(0x0098_0900), 0x8098_0900);
    assert_eq!(next_control_query(0x8098_0900), 0x8098_0900);
}

#[test]
fn menu_item_labels() {
    let entries = vec![MenuEntry { index: 1, name: name32("Manual Mode") }, MenuEntry { index: 3, name: name32("Aperture Priority Mode") }];
    let items = menu_items(V4L2_CTRL_TYPE_MENU, &entries);
    assert_eq!(items, vec![(1, "Manual Mode".to_string()), (3, "Aperture Priority Mode".to_string())]);
    let items = menu_items(V4L2_CTRL_TYPE_INTEGER_MENU, &entries);
    assert_eq!(items, vec![(1, "1".to_string()), (3, "3".to_string())]);
}

#[test]
fn enumerate_controls_keeps_listed_controls_in_order() {
    let answers = vec![
        ControlAnswer { query: query(0x00980900, V4L2_CTRL_TYPE_INTEGER, "Brightness", -64, 64, 1, 0, 0), menu_items: Vec::new() },
        ControlAnswer { query: query(0x00980901, V4L2_CTRL_TYPE_INTEGER, "Contrast", 0, 95, 1, 32, V4L2_CTRL_FLAG_READ_ONLY), menu_items: Vec::new() },
        ControlAnswer { query: query(0x0098090c, V4L2_CTRL_TYPE_BOOLEAN, "White Balance, Auto", 0, 1, 1, 1, 0), menu_items: Vec::new() },
        ControlAnswer { query: query(0x009a0901, V4L2_CTRL_TYPE_MENU, "Auto Exposure", 0, 3, 1, 3, 0), menu_items: vec![(1, "Manual Mode".to_string()), (3, "Aperture Priority Mode".to_string())] },
        ControlAnswer { query: query(0x00980913, V4L2_CTRL_TYPE_INTEGER64, "Big", -5, 5, 2, 1, 0), menu_items: Vec::new() },
        ControlAnswer { query: query(0x00980914, V4L2_CTRL_TYPE_BUTTON, "Reset", 0, 0, 0, 0, 0), menu_items: Vec::new() },
        ControlAnswer { query: query(0x00980915, 7, "Ctrl Class", 0, 0, 0, 0, 0), menu_items: Vec::new() },
    ];
    let controls = enumerate_controls(answers);
    assert_eq!(controls.len(), 5);
    assert_eq!(controls[0].id, 0x00980900);
    assert_eq!(controls[0].name, "Brightness");
    assert!(matches!(controls[0].ctrl_type, ControlKind::Integer { min: -64, max: 64, step: 1 }));
    assert_eq!(controls[0].default, 0);
    assert!(matches!(controls[1].ctrl_type, ControlKind::Boolean));
    assert_eq!(controls[1].default, 1);
    match &controls[2].ctrl_type {
        ControlKind::Menu { items } => assert_eq!(items, &vec![(1, "Manual Mode".to_string()), (3, "Aperture Priority Mode".to_string())]),
        other => panic!("unexpected {:?}", other),
    }
    assert!(matches!(controls[3].ctrl_type, ControlKind::Integer { min: -5, max: 5, step: 2 }));
    assert!(matches!(controls[4].ctrl_type, ControlKind::Button));
    assert_eq!(controls[4].name, "Reset");
}

#[test]
fn snapshot_skips_failed_reads() {
    let controls = vec![
        control(1, "a", ControlKind::Boolean, 0),
        control(2, "b", ControlKind::Button, 0),
        control(3, "c", ControlKind::Integer { min: 0, max: 10, step: 1 }, 5),
    ];
    let values = snapshot_controls(&controls, &[Some(1), None, Some(7)]);
    let expected: HashMap<u32, i64> = [(1, 1), (3, 7)].into_iter().collect();
    assert_eq!(values, expected);
}

#[test]
fn snapshot_with_missing_readings_and_repeated_ids() {
    let controls = vec![
        control(1, "a", ControlKind::Boolean, 0),
        control(1, "a again", ControlKind::Boolean, 0),
        control(2, "b", ControlKind::Boolean, 0),
    ];
    let values = snapshot_controls(&controls, &[Some(4), Some(5)]);
    let expected: HashMap<u32, i64> = [(1, 5)].into_iter().collect();
    assert_eq!(values, expected);
}

#[test]
fn apply_writes_automatic_modes_first() {
    let controls = vec![
        control(10, "exposure", ControlKind::Integer { min: 1, max: 5000, step: 1 }, 156),
        control(11, "auto exposure", ControlKind::Menu { items: vec![(1, "Manual".into())] }, 3),
        control(12, "auto wb", ControlKind::Boolean, 1),
        control(13, "focus", ControlKind::Integer { min: 0, max: 255, step: 5 }, 0),
        control(14, "not saved", ControlKind::Boolean, 0),
    ];
    let values: HashMap<u32, i64> = [(10, 300), (11, 1), (12, 0), (13, 40), (99, 7), (98, 8)].into_iter().collect();
    let plan = apply_controls(&values, &controls);
    assert_eq!(plan.auto_writes, vec![(11, 1), (12, 0)]);
    assert_eq!(plan.manual_writes[..2], [(10, 300), (13, 40)]);
    let mut extras = plan.manual_writes[2..].to_vec();
    extras.sort();
    assert_eq!(extras, vec![(98, 8), (99, 7)]);
}

#[test]
fn apply_of_nothing_writes_nothing() {
    let controls = vec![control(1, "a", ControlKind::Boolean, 0)];
    let plan = apply_controls(&HashMap::new(), &controls);
    assert!(plan.auto_writes.is_empty());
    assert!(plan.manual_writes.is_empty());
}

#[test]
fn apply_errors_leave_out_permission_denied() {
    let results = vec![
        Ok(()),
        Err(ControlError { errno: 13, message: "Failed to set control 1: Permission denied (os error 13)".into() }),
        Err(ControlError { errno: 16, message: "Failed to set control 2: busy".into() }),
        Err(ControlError { errno: 1, message: "Failed to set control 3: not permitted".into() }),
        Err(ControlError { errno: 0, message: "Failed to open device for control 4".into() }),
    ];
    assert_eq!(apply_errors(&results), vec!["Failed to set control 2: busy".to_string(), "Failed to open device for control 4".to_string()]);
}

#[test]
fn video_device_paths() {
    assert_eq!(video_device_path(0), "/dev/video0");
    assert_eq!(video_device_path(15), "/dev/video15");
}

#[test]
fn capture_capability() {
    assert!(is_capture_device(0x8420_0001));
    assert!(!is_capture_device(0x8420_1000));
    assert!(!is_capture_device(0));
}

fn node(sysname: &str, usb: Option<(Option<&str>, Option<&str>, Option<&str>)>) -> VideoNode {
    VideoNode {
        sysname: sysname.to_string(),
        usb_device: usb.map(|(v, p, s)| UsbAttributes {
            vendor: v.map(|x| x.to_string()),
            product: p.map(|x| x.to_string()),
            serial: s.map(|x| x.to_string()),
        }),
    }
}

#[test]
fn usb_identity_of_the_matching_node() {
    let nodes = vec![
        node("video0", Some((Some("1111"), Some("2222"), None))),
        node("video2", None),
        node("video2", Some((Some("046d"), Some("085e"), Some("ABC")))),
        node("video2", Some((Some("ffff"), Some("ffff"), None))),
    ];
    assert_eq!(read_usb_identity("video2", nodes), id("046d", "085e", Some("ABC")));
}

#[test]
fn usb_identity_with_missing_attributes() {
    let nodes = vec![node("video1", Some((None, Some("0825"), None)))];
    assert_eq!(read_usb_identity("video1", nodes), id("0000", "0825", None));
}

#[test]
fn usb_identity_falls_back_without_usb_device() {
    let nodes = vec![node("video0", None), node("video1", Some((Some("1"), Some("2"), Some("3"))))];
    assert_eq!(read_usb_identity("video0", nodes), id("0000", "0000", None));
    assert_eq!(read_usb_identity("video5", Vec::new()), id("0000", "0000", None));
}

#[test]
fn camera_label() {
    let cam = CameraInfo { id: id("1", "2", None), name: "HD Pro Webcam C920".into(), dev_path: "/dev/video0".into() };
    assert_eq!(cam.label(), "HD Pro Webcam C920 (/dev/video0)");
}

#[test]
fn discrete_size_is_offered_as_it_is() {
    assert_eq!(candidate_sizes(&FrameSize::Discrete { width: 800, height: 600 }), vec![(800, 600)]);
}

#[test]
fn stepwise_range_offers_common_sizes_inside_it() {
    let sizes = candidate_sizes(&FrameSize::Stepwise { min_width: 320, max_width: 1920, min_height: 240, max_height: 1080 });
    assert_eq!(sizes, vec![(640, 480), (1280, 720), (1920, 1080)]);
    let sizes = candidate_sizes(&FrameSize::Stepwise { min_width: 1, max_width: 8000, min_height: 1, max_height: 8000 });
    assert_eq!(sizes.len(), 5);
    let sizes = candidate_sizes(&FrameSize::Stepwise { min_width: 641, max_width: 1279, min_height: 1, max_height: 8000 });
    assert!(sizes.is_empty());
}

#[test]
fn framerates_keep_discrete_intervals() {
    assert_eq!(enum_framerates(&[Some((1, 30)), None, Some((1, 15))]), vec![(1, 30), (1, 15)]);
    assert_eq!(enum_framerates(&[None]), Vec::<(u32, u32)>::new());
}

fn format(rates: Vec<(u32, u32)>) -> FormatOption {
    FormatOption { fourcc: *b"MJPG", width: 1920, height: 1080, framerates: rates }
}

#[test]
fn format_labels() {
    assert_eq!(format(vec![(1, 30), (1, 15)]).label(), "MJPG 1920x1080 @ 30fps");
    assert_eq!(format(vec![(2, 25)]).label(), "MJPG 1920x1080 @ 12fps");
    assert_eq!(format(vec![(0, 30)]).label(), "MJPG 1920x1080");
    assert_eq!(format(Vec::new()).label(), "MJPG 1920x1080");
}

#[test]
fn fourcc_names_as_text() {
    assert_eq!(fourcc_name(b"YUYV"), "YUYV");
    assert_eq!(fourcc_name(&[b'Y', b'U', 0xFF, b'V']), "");
    let f = FormatOption { fourcc: [0xC3, 0xA9, b'A', b'B'], width: 2, height: 3, framerates: vec![] };
    assert_eq!(f.label(), "\u{e9}AB 2x3");
}

#[test]
fn format_sizes_follow_the_announced_order() {
    let sizes = vec![
        FrameSize::Discrete { width: 800, height: 600 },
        FrameSize::Stepwise { min_width: 320, max_width: 1280, min_height: 240, max_height: 720 },
    ];
    assert_eq!(format_sizes(&sizes), vec![(800, 600), (640, 480), (1280, 720)]);
    assert_eq!(format_sizes(&Vec::new()), Vec::<(u32, u32)>::new());
}

#[test]
fn format_choices_skip_unreadable_formats() {
    let listing = vec![
        (*b"MJPG", Some(vec![FrameSize::Discrete { width: 1920, height: 1080 }])),
        (*b"H264", None),
        (*b"YUYV", Some(vec![FrameSize::Stepwise { min_width: 1, max_width: 700, min_height: 1, max_height: 500 }])),
        (*b"NV12", Some(vec![])),
    ];
    assert_eq!(format_choices(&listing), vec![(*b"MJPG", 1920, 1080), (*b"YUYV", 640, 480)]);
}
