use std::collections::HashMap;

use camera_controls::camera::FormatOption;
use camera_controls::config::{profile_controls, CameraProfile, Config, SavedFormat};

fn profile(name: &str, controls: Vec<(&str, i64)>) -> CameraProfile {
    CameraProfile {
        name: name.to_string(),
        controls: controls.into_iter().map(|(k, v)| (k.to_string(), v)).collect(),
        format: None,
    }
}

#[test]
fn new_config_has_no_profile() {
    let config = Config::new();
    assert!(config.get_profile("046d:085e").is_none());
    assert!(Config::default().cameras.is_empty());
}

#[test]
fn set_then_get_profile() {
    let mut config = Config::new();
    config.set_profile("046d:085e".into(), profile("C920", vec![("1", 2)]));
    config.set_profile("0c45:6366".into(), profile("Other", vec![]));
    assert_eq!(config.get_profile("046d:085e").unwrap().name, "C920");
    assert_eq!(config.get_profile("0c45:6366").unwrap().name, "Other");
    assert!(config.get_profile("046d").is_none());
}

#[test]
fn set_profile_replaces_the_saved_one() {
    let mut config = Config::new();
    config.set_profile("k".into(), profile("first", vec![]));
    config.set_profile("other".into(), profile("x", vec![]));
    config.set_profile("k".into(), profile("second", vec![]));
    assert_eq!(config.cameras.len(), 2);
    assert_eq!(config.get_profile("k").unwrap().name, "second");
    assert_eq!(config.get_profile("other").unwrap().name, "x");
}

#[test]
fn first_entry_of_a_key_counts() {
    let config = Config {
        cameras: vec![("k".to_string(), profile("first", vec![])), ("k".to_string(), profile("second", vec![]))],
    };
    assert_eq!(config.get_profile("k").unwrap().name, "first");
}

#[test]
fn saved_controls_are_restored() {
    let values: HashMap<u32, i64> = [(9963776, 128), (9963788, 1), (10094849, 3), (0, -5)].into_iter().collect();
    let entries = profile_controls(&values);
    assert_eq!(entries.len(), 4);
    let mut keys: Vec<&str> = entries.iter().map(|(k, _)| k.as_str()).collect();
    keys.sort();
    assert_eq!(keys, vec!["0", "10094849", "9963776", "9963788"]);
    let p = CameraProfile { name: "c".into(), controls: entries, format: None };
    assert_eq!(p.control_values(), values);
}

#[test]
fn restore_skips_keys_that_are_not_ids() {
    let p = profile("c", vec![("12", 1), ("abc", 2), ("-3", 3), ("+4", 4), ("99999999999", 5)]);
    let expected: HashMap<u32, i64> = [(12, 1), (4, 4)].into_iter().collect();
    assert_eq!(p.control_values(), expected);
}

#[test]
fn restore_later_entry_of_an_id_wins() {
    let p = profile("c", vec![("7", 1), ("07", 2)]);
    let expected: HashMap<u32, i64> = [(7, 2)].into_iter().collect();
    assert_eq!(p.control_values(), expected);
}

#[test]
fn saved_format_takes_the_first_interval() {
    let f = FormatOption { fourcc: *b"YUYV", width: 640, height: 480, framerates: vec![(1, 30), (1, 5)] };
    let s = SavedFormat::of(&f);
    assert_eq!((s.fourcc.as_str(), s.width, s.height, s.framerate_num, s.framerate_den), ("YUYV", 640, 480, 1, 30));
    let f = FormatOption { fourcc: *b"YUYV", width: 640, height: 480, framerates: vec![(1, 10)] };
    let s = SavedFormat::of(&f);
    assert_eq!((s.framerate_num, s.framerate_den), (1, 10));
    let f = FormatOption { fourcc: *b"YUYV", width: 640, height: 480, framerates: vec![] };
    let s = SavedFormat::of(&f);
    assert_eq!((s.framerate_num, s.framerate_den), (1, 30));
}

#[test]
fn set_profile_counts_entries() {
    let mut config = Config {
        cameras: vec![("k".to_string(), profile("first", vec![])), ("k".to_string(), profile("second", vec![]))],
    };
    config.set_profile("k".into(), profile("third", vec![]));
    assert_eq!(config.cameras.len(), 2);
    assert_eq!(config.get_profile("k").unwrap().name, "third");
    config.set_profile("new".into(), profile("n", vec![]));
    assert_eq!(config.cameras.len(), 3);
}
