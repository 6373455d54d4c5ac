//! The state of the camera settings window and its decisions.
//!
//! `AppState` is a state machine: `update` takes a user message, each
//! `on_*` method takes the outcome of a device, disk or preview operation,
//! and each returns the next `Action` for the caller to perform (and answer
//! with the matching `on_*` call), until `Action::Done`.
use std::collections::HashMap;
use vstd::prelude::*;
use crate::camera::{
    apply_controls, apply_errors, camera_label_text, failure_messages, format_label_text, fourcc_name, fourcc_text, plans,
    permission_denied, snapshot_controls, snapshot_map, ApplyPlan, CameraControl, CameraInfo,
    ControlError, ControlKind, FormatOption, law_plan_writes_every_value, write_ids,
};
use crate::config::{
    law_saved_controls_restore, profile_controls, restored_map, saves, saves_format, CameraProfile, Config,
    SavedFormat,
};
use crate::text::{append_decimal, decimal, i64_text, join, join_texts, signed_decimal, texts};

verus! {

broadcast use vstd::std_specs::hash::group_hash_axioms;

/// A user request.
#[derive(Debug, Clone, Copy)]
pub enum Message {
    SelectCamera(usize),
    ControlChanged(u32, i64),
    ControlToggled(u32, bool),
    SelectFormat(usize),
    ResetDefaults,
    PollPreview,
    CheckDevices,
}

/// What the camera answered when it was opened.
#[derive(Debug)]
pub struct DeviceScan {
    /// Its controls.
    pub controls: Vec<CameraControl>,
    /// Its formats.
    pub formats: Vec<FormatOption>,
    /// The value read for each control, in order (`None` where the read
    /// failed).
    pub readings: Vec<Option<i64>>,
}

/// The next thing the caller has to do.
#[derive(Debug)]
pub enum Action {
    /// Nothing more to do for now.
    Done,
    /// Drain the preview channel and show its latest frame.
    PollPreview,
    /// Stop the preview, then open the device at `path` and read its
    /// controls, formats and control values; answer with
    /// `on_device_scanned`.
    OpenDevice { path: String },
    /// Perform the writes of `plan` on `path` (automatic-mode writes first,
    /// then manual ones), then read the value of every control; answer with
    /// `on_controls_applied`.
    ApplyControls { path: String, plan: ApplyPlan },
    /// Start the preview on `path`; answer with `on_preview_started`.
    StartPreview { path: String },
    /// Write `value` to control `id` of `path`; answer with
    /// `on_control_written`.
    WriteControl { path: String, id: u32, value: i64 },
    /// Read control `id` of `path`; answer with `on_control_read`.
    ReadControl { path: String, id: u32 },
    /// Stop the preview, then set the format of `path`; answer with
    /// `on_format_set`.
    SetFormat { path: String, fourcc: [u8; 4], width: u32, height: u32 },
    /// Save the config to disk; answer with `on_config_saved`.
    SaveConfig,
    /// List the cameras; answer with `on_cameras_listed`.
    ListCameras,
    /// Stop the preview, then list the cameras again; answer with
    /// `on_cameras_listed`.
    RelistCameras,
}

/// The operation the state machine waits for.
#[derive(Debug, Clone, Copy, PartialEq, Eq)]
pub enum Pending {
    Idle,
    /// The camera at `index` is being opened.
    Opening { index: usize },
    /// The saved profile is being written to the camera just opened.
    Restoring,
    /// The preview is starting; `report`: a failure goes to the status line;
    /// `then_save`: the profile is saved afterwards.
    StartingPreview { report: bool, then_save: bool },
    /// A control is being written; `read_back`: when the camera refuses it
    /// as automatically managed, its actual value is read back.
    Writing { id: u32, value: i64, read_back: bool },
    /// Control `id` is being read back.
    ReadingBack { id: u32 },
    /// The format at `index` is being set.
    SettingFormat { index: usize },
    /// The default values are being written.
    Resetting,
    /// The config is being saved; `report`: a failure goes to the status
    /// line.
    Saving { report: bool },
    /// The camera list is being checked for changes.
    Checking,
    /// The camera list is being read again after a change.
    Relisting,
}

/// The state of the window.
#[derive(Debug)]
pub struct AppState {
    pub cameras: Vec<CameraInfo>,
    pub selected_camera: Option<usize>,
    pub dev_path: Option<String>,
    pub controls: Vec<CameraControl>,
    pub control_values: HashMap<u32, i64>,
    pub formats: Vec<FormatOption>,
    pub selected_format: Option<usize>,
    pub config: Config,
    pub status: String,
    pub camera_labels: Vec<String>,
    pub format_labels: Vec<String>,
    pub pending: Pending,
}

// ── Status texts ────────────────────────────────────────────────────────

/// "No cameras detected"
pub open spec fn no_cameras_text() -> Seq<char> {
    seq!['N', 'o', ' ', 'c', 'a', 'm', 'e', 'r', 'a', 's', ' ', 'd', 'e', 't', 'e', 'c', 't', 'e', 'd']
}

/// "Failed to open {path}: {error}"
pub open spec fn open_failed_status(path: Seq<char>, error: Seq<char>) -> Seq<char> {
    seq!['F', 'a', 'i', 'l', 'e', 'd', ' ', 't', 'o', ' ', 'o', 'p', 'e', 'n', ' '] + path + seq![':', ' '] + error
}

/// "Opened {name}"
pub open spec fn opened_status(name: Seq<char>) -> Seq<char> {
    seq!['O', 'p', 'e', 'n', 'e', 'd', ' '] + name
}

/// "Profile restored for {name}"
pub open spec fn restored_status(name: Seq<char>) -> Seq<char> {
    seq!['P', 'r', 'o', 'f', 'i', 'l', 'e', ' ', 'r', 'e', 's', 't', 'o', 'r', 'e', 'd', ' ', 'f', 'o', 'r', ' '] + name
}

/// "; "
pub open spec fn error_separator() -> Seq<char> {
    seq![';', ' ']
}

/// "Profile restored — failed: {errors joined by "; "}"
pub open spec fn restore_failed_status(errors: Seq<Seq<char>>) -> Seq<char> {
    seq!['P', 'r', 'o', 'f', 'i', 'l', 'e', ' ', 'r', 'e', 's', 't', 'o', 'r', 'e', 'd', ' ', '\u{2014}', ' ', 'f', 'a', 'i', 'l', 'e', 'd', ':', ' ']
        + join(errors, error_separator())
}

/// "Reset to defaults"
pub open spec fn reset_status() -> Seq<char> {
    seq!['R', 'e', 's', 'e', 't', ' ', 't', 'o', ' ', 'd', 'e', 'f', 'a', 'u', 'l', 't', 's']
}

/// "Reset — failed: {errors joined by "; "}"
pub open spec fn reset_failed_status(errors: Seq<Seq<char>>) -> Seq<char> {
    seq!['R', 'e', 's', 'e', 't', ' ', '\u{2014}', ' ', 'f', 'a', 'i', 'l', 'e', 'd', ':', ' '] + join(errors, error_separator())
}

/// "Preview failed: {error}"
pub open spec fn preview_failed_status(error: Seq<char>) -> Seq<char> {
    seq!['P', 'r', 'e', 'v', 'i', 'e', 'w', ' ', 'f', 'a', 'i', 'l', 'e', 'd', ':', ' '] + error
}

/// "Format: {fourcc} {width}x{height}"
pub open spec fn format_status(fourcc: Seq<char>, width: u32, height: u32) -> Seq<char> {
    seq!['F', 'o', 'r', 'm', 'a', 't', ':', ' '] + fourcc + seq![' '] + decimal(width as nat) + seq!['x']
        + decimal(height as nat)
}

/// "Save failed: {error}"
pub open spec fn save_failed_status(error: Seq<char>) -> Seq<char> {
    seq!['S', 'a', 'v', 'e', ' ', 'f', 'a', 'i', 'l', 'e', 'd', ':', ' '] + error
}

// ── Views ───────────────────────────────────────────────────────────────

pub open spec fn camera_labels_of(cameras: Seq<CameraInfo>) -> Seq<Seq<char>> {
    cameras.map_values(|c: CameraInfo| camera_label_text(c.name@, c.dev_path@))
}

pub open spec fn format_labels_of(formats: Seq<FormatOption>) -> Seq<Seq<char>> {
    formats.map_values(|f: FormatOption| format_label_text(f))
}

/// The device paths of a camera list, in order.
pub open spec fn camera_paths(cameras: Seq<CameraInfo>) -> Seq<Seq<char>> {
    cameras.map_values(|c: CameraInfo| c.dev_path@)
}

/// The default value of each control: a later control with the same id
/// overrides an earlier one.
pub open spec fn defaults_map(controls: Seq<CameraControl>, n: int) -> Map<u32, i64>
    decreases n,
{
    if n <= 0 {
        Map::empty()
    } else {
        defaults_map(controls, n - 1).insert(controls[n - 1].id, controls[n - 1].default)
    }
}

/// `p` is the profile saved for the state `s`: the selected camera's name,
/// its control values, and the selected format when it exists.
pub open spec fn profile_of_state(p: CameraProfile, s: AppState) -> bool {
    let cam = s.cameras[s.selected_camera->0 as int];
    &&& p.name@ == cam.name@
    &&& saves(p.controls@, s.control_values@)
    &&& match s.selected_format {
        Some(fi) => if fi < s.formats.len() {
            (p.format matches Some(f) && saves_format(f, s.formats[fi as int]))
        } else {
            p.format is None
        },
        None => p.format is None,
    }
}

/// Saving after a change: when a camera is selected, its profile in the
/// config becomes the profile of `s` (other profiles stay) and the config
/// is saved; otherwise nothing happens.
pub open spec fn auto_saves(s: AppState, report: bool, t: AppState, a: Action) -> bool {
    match s.selected_camera {
        Some(i) => {
            let key = s.cameras[i as int].id.key_text();
            &&& t == AppState { config: t.config, pending: Pending::Saving { report }, ..s }
            &&& (t.config.profile(key) matches Some(p) && profile_of_state(p, s))
            &&& forall|k: Seq<char>| k != key ==> #[trigger] t.config.profile(k) == s.config.profile(k)
            &&& a is SaveConfig
        },
        None => t == AppState { pending: Pending::Idle, ..s } && a is Done,
    }
}

/// Opening the camera at `idx`: the device is opened when there is such a
/// camera, nothing happens otherwise.
pub open spec fn opens_camera(s: AppState, idx: usize, t: AppState, a: Action) -> bool {
    if idx < s.cameras.len() {
        &&& t == AppState { pending: Pending::Opening { index: idx }, ..s }
        &&& (a matches Action::OpenDevice { path } && path@ == s.cameras[idx as int].dev_path@)
    } else {
        t == AppState { pending: Pending::Idle, ..s } && a is Done
    }
}

/// Writing a control: the write goes to the open device; without one,
/// nothing happens.
pub open spec fn writes_control(s: AppState, id: u32, value: i64, read_back: bool, t: AppState, a: Action) -> bool {
    match s.dev_path {
        Some(p) => {
            &&& t == AppState { pending: Pending::Writing { id, value, read_back }, ..s }
            &&& (a matches Action::WriteControl { path, id: wid, value: wv } && path@ == p@ && wid == id && wv == value)
        },
        None => t == AppState { pending: Pending::Idle, ..s } && a is Done,
    }
}

/// Selecting a format: it becomes the selected one; when the device is
/// open and the format exists, it is set on the device, otherwise the
/// profile is saved.
pub open spec fn selects_format(s: AppState, idx: usize, t: AppState, a: Action) -> bool {
    let s1 = AppState { selected_format: Some(idx), ..s };
    if s.dev_path is Some && idx < s.formats.len() {
        let f = s.formats[idx as int];
        &&& t == AppState { pending: Pending::SettingFormat { index: idx }, ..s1 }
        &&& (a matches Action::SetFormat { path, fourcc, width, height } && path@ == s.dev_path->0@
            && fourcc == f.fourcc && width == f.width && height == f.height)
    } else {
        auto_saves(s1, true, t, a)
    }
}

/// Resetting: the default values of all controls are written to the open
/// device; without one, nothing happens.
pub open spec fn resets(s: AppState, t: AppState, a: Action) -> bool {
    match s.dev_path {
        Some(p) => {
            &&& t == AppState { pending: Pending::Resetting, ..s }
            &&& (a matches Action::ApplyControls { path, plan } && path@ == p@
                && plans(plan, defaults_map(s.controls@, s.controls@.len() as int), s.controls@))
        },
        None => t == AppState { pending: Pending::Idle, ..s } && a is Done,
    }
}

/// What a message does.
pub open spec fn updates(s: AppState, msg: Message, t: AppState, a: Action) -> bool {
    match msg {
        Message::SelectCamera(idx) => opens_camera(s, idx, t, a),
        Message::ControlChanged(id, value) => writes_control(s, id, value, true, t, a),
        Message::ControlToggled(id, on) => writes_control(s, id, if on { 1 } else { 0 }, false, t, a),
        Message::SelectFormat(idx) => selects_format(s, idx, t, a),
        Message::ResetDefaults => resets(s, t, a),
        Message::PollPreview => t == AppState { pending: Pending::Idle, ..s } && a is PollPreview,
        Message::CheckDevices => t == AppState { pending: Pending::Checking, ..s } && a is ListCameras,
    }
}

/// An answer that the state does not wait for changes nothing.
pub open spec fn ignores(s: AppState, t: AppState, a: Action) -> bool {
    t == s && a is Done
}

/// Answer to `OpenDevice`.
pub open spec fn device_scanned(s: AppState, result: Result<DeviceScan, String>, t: AppState, a: Action) -> bool {
    match s.pending {
        Pending::Opening { index } => {
            let cam = s.cameras[index as int];
            match result {
                Err(e) => {
                    &&& t == AppState { status: t.status, pending: Pending::Idle, ..s }
                    &&& t.status@ == open_failed_status(cam.dev_path@, e@)
                    &&& a is Done
                },
                Ok(scan) => {
                    let s1 = AppState {
                        controls: scan.controls,
                        formats: scan.formats,
                        control_values: t.control_values,
                        selected_camera: Some(index),
                        dev_path: t.dev_path,
                        format_labels: t.format_labels,
                        ..s
                    };
                    &&& t.control_values@ == snapshot_map(scan.controls@, scan.readings@, scan.controls@.len() as int)
                    &&& (t.dev_path matches Some(p) && p@ == cam.dev_path@)
                    &&& texts(t.format_labels@) == format_labels_of(scan.formats@)
                    &&& match s.config.profile(cam.id.key_text()) {
                        Some(profile) => {
                            &&& t == AppState { pending: Pending::Restoring, ..s1 }
                            &&& (a matches Action::ApplyControls { path, plan } && path@ == cam.dev_path@
                                && plans(plan, restored_map(profile.controls@, profile.controls@.len() as int), scan.controls@))
                        },
                        None => {
                            &&& t == AppState { status: t.status, pending: Pending::StartingPreview { report: true, then_save: false }, ..s1 }
                            &&& t.status@ == opened_status(cam.name@)
                            &&& (a matches Action::StartPreview { path } && path@ == cam.dev_path@)
                        },
                    }
                },
            }
        },
        _ => ignores(s, t, a),
    }
}

/// Answer to `ApplyControls`.
pub open spec fn controls_applied(
    s: AppState,
    manual_results: Seq<Result<(), ControlError>>,
    readings: Seq<Option<i64>>,
    t: AppState,
    a: Action,
) -> bool {
    let errs = failure_messages(manual_results);
    let values = snapshot_map(s.controls@, readings, s.controls@.len() as int);
    match s.pending {
        Pending::Restoring => {
            let name = s.cameras[s.selected_camera->0 as int].name@;
            &&& t == AppState { control_values: t.control_values, status: t.status, pending: Pending::StartingPreview { report: true, then_save: false }, ..s }
            &&& t.control_values@ == values
            &&& t.status@ == if errs.len() == 0 {
                restored_status(name)
            } else {
                restore_failed_status(errs)
            }
            &&& (a matches Action::StartPreview { path } && path@ == s.dev_path->0@)
        },
        Pending::Resetting => {
            let s1 = AppState { control_values: t.control_values, status: t.status, ..s };
            &&& t.control_values@ == values
            &&& t.status@ == if errs.len() == 0 {
                reset_status()
            } else {
                reset_failed_status(errs)
            }
            &&& auto_saves(s1, false, t, a)
        },
        _ => ignores(s, t, a),
    }
}

/// Answer to `StartPreview`.
pub open spec fn preview_started(s: AppState, result: Result<(), String>, t: AppState, a: Action) -> bool {
    match s.pending {
        Pending::StartingPreview { report, then_save } => {
            let failed_report = report && result is Err;
            let s1 = if failed_report {
                AppState { status: t.status, ..s }
            } else {
                s
            };
            &&& failed_report ==> t.status@ == preview_failed_status(result->Err_0@)
            &&& if then_save {
                auto_saves(s1, true, t, a)
            } else {
                t == AppState { pending: Pending::Idle, ..s1 } && a is Done
            }
        },
        _ => ignores(s, t, a),
    }
}

/// Answer to `WriteControl`.
pub open spec fn control_written(s: AppState, result: Result<(), ControlError>, t: AppState, a: Action) -> bool {
    match s.pending {
        Pending::Writing { id, value, read_back } => match result {
            Ok(_) => {
                let s1 = AppState { control_values: t.control_values, ..s };
                &&& t.control_values@ == s.control_values@.insert(id, value)
                &&& auto_saves(s1, true, t, a)
            },
            Err(e) => if permission_denied(e.errno) {
                if read_back {
                    &&& t == AppState { pending: Pending::ReadingBack { id }, ..s }
                    &&& (a matches Action::ReadControl { path, id: rid } && path@ == s.dev_path->0@ && rid == id)
                } else {
                    t == AppState { pending: Pending::Idle, ..s } && a is Done
                }
            } else {
                &&& t == AppState { status: t.status, pending: Pending::Idle, ..s }
                &&& t.status@ == e.message@
                &&& a is Done
            },
        },
        _ => ignores(s, t, a),
    }
}

/// Answer to `ReadControl`.
pub open spec fn control_read(s: AppState, value: Option<i64>, t: AppState, a: Action) -> bool {
    match s.pending {
        Pending::ReadingBack { id } => {
            &&& a is Done
            &&& match value {
                Some(v) => {
                    &&& t == AppState { control_values: t.control_values, pending: Pending::Idle, ..s }
                    &&& t.control_values@ == s.control_values@.insert(id, v)
                },
                None => t == AppState { pending: Pending::Idle, ..s },
            }
        },
        _ => ignores(s, t, a),
    }
}

/// Answer to `SetFormat`.
pub open spec fn format_set(s: AppState, result: Result<(u32, u32), String>, t: AppState, a: Action) -> bool {
    match s.pending {
        Pending::SettingFormat { index } => {
            let f = s.formats[index as int];
            &&& t == AppState { status: t.status, pending: Pending::StartingPreview { report: result is Ok, then_save: true }, ..s }
            &&& match result {
                Ok(size) => t.status@ == format_status(fourcc_text(f.fourcc), size.0, size.1),
                Err(e) => t.status@ == e@,
            }
            &&& (a matches Action::StartPreview { path } && path@ == s.dev_path->0@)
        },
        _ => ignores(s, t, a),
    }
}

/// Answer to `SaveConfig`.
pub open spec fn config_saved(s: AppState, result: Result<(), String>, t: AppState, a: Action) -> bool {
    match s.pending {
        Pending::Saving { report } => {
            &&& a is Done
            &&& if report && result is Err {
                &&& t == AppState { status: t.status, pending: Pending::Idle, ..s }
                &&& t.status@ == save_failed_status(result->Err_0@)
            } else {
                t == AppState { pending: Pending::Idle, ..s }
            }
        },
        _ => ignores(s, t, a),
    }
}

/// `i` is the first position of `path` in `cameras`.
pub open spec fn first_with_path(cameras: Seq<CameraInfo>, path: Seq<char>, i: int) -> bool {
    &&& 0 <= i < cameras.len()
    &&& cameras[i].dev_path@ == path
    &&& forall|j: int| 0 <= j < i ==> (#[trigger] cameras[j]).dev_path@ != path
}

/// Answer to `ListCameras` and `RelistCameras`.
pub open spec fn cameras_listed(s: AppState, cameras: Vec<CameraInfo>, t: AppState, a: Action) -> bool {
    match s.pending {
        Pending::Checking => if camera_paths(cameras@) == camera_paths(s.cameras@) {
            t == AppState { pending: Pending::Idle, ..s } && a is Done
        } else {
            t == AppState { pending: Pending::Relisting, ..s } && a is RelistCameras
        },
        Pending::Relisting => {
            let still = s.dev_path is Some && exists|i: int|
                0 <= i < cameras@.len() && (#[trigger] cameras@[i]).dev_path@ == s.dev_path->0@;
            &&& texts(t.camera_labels@) == camera_labels_of(cameras@)
            &&& if still {
                &&& t == AppState { cameras: cameras, camera_labels: t.camera_labels, selected_camera: t.selected_camera, pending: Pending::Idle, ..s }
                &&& (t.selected_camera matches Some(i) && first_with_path(cameras@, s.dev_path->0@, i as int))
                &&& a is Done
            } else {
                let s1 = AppState {
                    cameras: cameras,
                    camera_labels: t.camera_labels,
                    selected_camera: None,
                    dev_path: None,
                    controls: t.controls,
                    control_values: t.control_values,
                    formats: t.formats,
                    format_labels: t.format_labels,
                    ..s
                };
                &&& t.controls@.len() == 0
                &&& t.control_values@ == Map::<u32, i64>::empty()
                &&& t.formats@.len() == 0
                &&& t.format_labels@.len() == 0
                &&& if cameras@.len() > 0 {
                    opens_camera(s1, 0, t, a)
                } else {
                    &&& t == AppState { status: t.status, pending: Pending::Idle, ..s1 }
                    &&& t.status@ == no_cameras_text()
                    &&& a is Done
                }
            }
        },
        _ => ignores(s, t, a),
    }
}

impl AppState {
    /// The invariant of the window state: the labels are those of the
    /// cameras and formats, the selected camera is the open device, and
    /// what an awaited operation refers to exists.
    pub open spec fn wf(&self) -> bool {
        &&& texts(self.camera_labels@) == camera_labels_of(self.cameras@)
        &&& texts(self.format_labels@) == format_labels_of(self.formats@)
        &&& match self.selected_camera {
            Some(i) => i < self.cameras.len() && (self.dev_path matches Some(p) && p@
                == self.cameras[i as int].dev_path@),
            None => self.dev_path is None,
        }
        &&& match self.pending {
            Pending::Opening { index } => index < self.cameras.len(),
            Pending::SettingFormat { index } => index < self.formats.len() && self.dev_path is Some,
            Pending::Idle => true,
            Pending::Saving { .. } => true,
            Pending::Checking => true,
            Pending::Relisting => true,
            _ => self.dev_path is Some,
        }
    }
}

fn camera_labels(cameras: &Vec<CameraInfo>) -> (labels: Vec<String>)
    ensures
        texts(labels@) == camera_labels_of(cameras@),
{
    let mut labels: Vec<String> = Vec::new();
    let mut i: usize = 0;
    while i < cameras.len()
        invariant
            i <= cameras@.len(),
            texts(labels@) == camera_labels_of(cameras@.take(i as int)),
        decreases cameras@.len() - i,
    {
        let ghost before = labels@;
        labels.push(cameras[i].label());
        assert(camera_labels_of(cameras@.take(i + 1)) =~= camera_labels_of(cameras@.take(i as int)).push(
            camera_label_text(cameras@[i as int].name@, cameras@[i as int].dev_path@),
        ));
        assert(texts(labels@) =~= texts(before).push(labels@[i as int]@));
        i = i + 1;
    }
    assert(cameras@.take(i as int) =~= cameras@);
    labels
}

fn format_labels(formats: &Vec<FormatOption>) -> (labels: Vec<String>)
    ensures
        texts(labels@) == format_labels_of(formats@),
{
    let mut labels: Vec<String> = Vec::new();
    let mut i: usize = 0;
    while i < formats.len()
        invariant
            i <= formats@.len(),
            texts(labels@) == format_labels_of(formats@.take(i as int)),
        decreases formats@.len() - i,
    {
        let ghost before = labels@;
        labels.push(formats[i].label());
        assert(format_labels_of(formats@.take(i + 1)) =~= format_labels_of(formats@.take(i as int)).push(
            format_label_text(formats@[i as int]),
        ));
        assert(texts(labels@) =~= texts(before).push(labels@[i as int]@));
        i = i + 1;
    }
    assert(formats@.take(i as int) =~= formats@);
    labels
}

impl AppState {
    /// The window state for the cameras found at start and the config read
    /// from disk: the first camera is opened, or the status says there is
    /// none.
    pub fn new(cameras: Vec<CameraInfo>, config: Config) -> (r: (AppState, Action))
        ensures
            r.0.wf(),
            ({
                let s0 = AppState {
                    cameras: cameras,
                    selected_camera: None,
                    dev_path: None,
                    controls: r.0.controls,
                    control_values: r.0.control_values,
                    formats: r.0.formats,
                    selected_format: None,
                    config: config,
                    status: r.0.status,
                    camera_labels: r.0.camera_labels,
                    format_labels: r.0.format_labels,
                    pending: Pending::Idle,
                };
                &&& r.0.controls@.len() == 0
                &&& r.0.control_values@ == Map::<u32, i64>::empty()
                &&& r.0.formats@.len() == 0
                &&& r.0.format_labels@.len() == 0
                &&& texts(r.0.camera_labels@) == camera_labels_of(cameras@)
                &&& if cameras@.len() > 0 {
                    r.0.status@.len() == 0 && opens_camera(s0, 0, r.0, r.1)
                } else {
                    r.0.status@ == no_cameras_text() && r.0 == s0 && r.1 is Done
                }
            }),
    {
        let labels = camera_labels(&cameras);
        let mut s = AppState {
            cameras,
            selected_camera: None,
            dev_path: None,
            controls: Vec::new(),
            control_values: HashMap::new(),
            formats: Vec::new(),
            selected_format: None,
            config,
            status: String::new(),
            camera_labels: labels,
            format_labels: Vec::new(),
            pending: Pending::Idle,
        };
        assert(texts(s.format_labels@) =~= format_labels_of(s.formats@));
        if s.cameras.len() > 0 {
            let a = s.open_camera(0);
            (s, a)
        } else {
            proof { reveal_strlit("No cameras detected"); }
            s.status = String::from_str("No cameras detected");
            assert(s.status@ =~= no_cameras_text());
            (s, Action::Done)
        }
    }

    fn open_camera(&mut self, idx: usize) -> (a: Action)
        requires
            old(self).wf(),
        ensures
            final(self).wf(),
            opens_camera(*old(self), idx, *final(self), a),
    {
        if idx < self.cameras.len() {
            let path = self.cameras[idx].dev_path.clone();
            self.pending = Pending::Opening { index: idx };
            Action::OpenDevice { path }
        } else {
            self.pending = Pending::Idle;
            Action::Done
        }
    }

    fn write_control(&mut self, id: u32, value: i64, read_back: bool) -> (a: Action)
        requires
            old(self).wf(),
        ensures
            final(self).wf(),
            writes_control(*old(self), id, value, read_back, *final(self), a),
    {
        match &self.dev_path {
            Some(p) => {
                let path = p.clone();
                self.pending = Pending::Writing { id, value, read_back };
                Action::WriteControl { path, id, value }
            },
            None => {
                self.pending = Pending::Idle;
                Action::Done
            },
        }
    }

    /// Saves the profile of the selected camera: updates the config and asks
    /// for it to be written to disk.
    fn auto_save(&mut self, report: bool) -> (a: Action)
        requires
            old(self).wf(),
        ensures
            final(self).wf(),
            auto_saves(*old(self), report, *final(self), a),
    {
        match self.selected_camera {
            Some(idx) => {
                let cam = &self.cameras[idx];
                let format = match self.selected_format {
                    Some(fi) => if fi < self.formats.len() {
                        Some(SavedFormat::of(&self.formats[fi]))
                    } else {
                        None
                    },
                    None => None,
                };
                let profile = CameraProfile {
                    name: cam.name.clone(),
                    controls: profile_controls(&self.control_values),
                    format,
                };
                let ghost p = profile;
                let key = cam.id.profile_key();
                self.config.set_profile(key, profile);
                self.pending = Pending::Saving { report };
                assert(self.config.profile(old(self).cameras[idx as int].id.key_text()) == Some(p));
                Action::SaveConfig
            },
            None => {
                self.pending = Pending::Idle;
                Action::Done
            },
        }
    }

    /// What a user message asks for.
    pub fn update(&mut self, message: Message) -> (a: Action)
        requires
            old(self).wf(),
        ensures
            final(self).wf(),
            updates(*old(self), message, *final(self), a),
    {
        match message {
            Message::SelectCamera(idx) => self.open_camera(idx),
            Message::ControlChanged(id, value) => self.write_control(id, value, true),
            Message::ControlToggled(id, on) => {
                let value: i64 = if on {
                    1
                } else {
                    0
                };
                self.write_control(id, value, false)
            },
            Message::SelectFormat(idx) => {
                self.selected_format = Some(idx);
                if self.dev_path.is_some() && idx < self.formats.len() {
                    let path = self.dev_path.as_ref().unwrap().clone();
                    let f = &self.formats[idx];
                    let (fourcc, width, height) = (f.fourcc, f.width, f.height);
                    self.pending = Pending::SettingFormat { index: idx };
                    Action::SetFormat { path, fourcc, width, height }
                } else {
                    self.auto_save(true)
                }
            },
            Message::ResetDefaults => {
                match &self.dev_path {
                    Some(p) => {
                        let path = p.clone();
                        let mut defaults: HashMap<u32, i64> = HashMap::new();
                        let mut i: usize = 0;
                        while i < self.controls.len()
                            invariant
                                i <= self.controls@.len(),
                                defaults@ == defaults_map(self.controls@, i as int),
                            decreases self.controls@.len() - i,
                        {
                            defaults.insert(self.controls[i].id, self.controls[i].default);
                            i = i + 1;
                        }
                        let plan = apply_controls(&defaults, self.controls.as_slice());
                        self.pending = Pending::Resetting;
                        Action::ApplyControls { path, plan }
                    },
                    None => {
                        self.pending = Pending::Idle;
                        Action::Done
                    },
                }
            },
            Message::PollPreview => {
                self.pending = Pending::Idle;
                Action::PollPreview
            },
            Message::CheckDevices => {
                self.pending = Pending::Checking;
                Action::ListCameras
            },
        }
    }
}

fn same_paths(a: &Vec<CameraInfo>, b: &Vec<CameraInfo>) -> (r: bool)
    ensures
        r == (camera_paths(a@) == camera_paths(b@)),
{
    if a.len() != b.len() {
        assert(camera_paths(a@).len() != camera_paths(b@).len());
        return false;
    }
    let mut i: usize = 0;
    while i < a.len()
        invariant
            i <= a@.len(),
            a@.len() == b@.len(),
            forall|j: int| 0 <= j < i ==> (#[trigger] a@[j]).dev_path@ == b@[j].dev_path@,
        decreases a@.len() - i,
    {
        if a[i].dev_path != b[i].dev_path {
            assert(camera_paths(a@)[i as int] != camera_paths(b@)[i as int]);
            return false;
        }
        i = i + 1;
    }
    assert(camera_paths(a@) =~= camera_paths(b@));
    true
}

fn position_of_path(cameras: &Vec<CameraInfo>, path: &String) -> (r: Option<usize>)
    ensures
        match r {
            Some(i) => first_with_path(cameras@, path@, i as int),
            None => forall|j: int| 0 <= j < cameras@.len() ==> (#[trigger] cameras@[j]).dev_path@ != path@,
        },
{
    let mut i: usize = 0;
    while i < cameras.len()
        invariant
            i <= cameras@.len(),
            forall|j: int| 0 <= j < i ==> (#[trigger] cameras@[j]).dev_path@ != path@,
        decreases cameras@.len() - i,
    {
        if cameras[i].dev_path == *path {
            return Some(i);
        }
        i = i + 1;
    }
    None
}

impl AppState {
    /// The device was opened (`Ok`, with what it answered) or could not be.
    pub fn on_device_scanned(&mut self, result: Result<DeviceScan, String>) -> (a: Action)
        requires
            old(self).wf(),
        ensures
            final(self).wf(),
            device_scanned(*old(self), result, *final(self), a),
    {
        match self.pending {
            Pending::Opening { index } => match result {
                Err(e) => {
                    proof {
                        reveal_strlit("Failed to open ");
                        reveal_strlit(": ");
                    }
                    let mut status = String::from_str("Failed to open ");
                    status.append(self.cameras[index].dev_path.as_str());
                    status.append(": ");
                    status.append(e.as_str());
                    assert(status@ =~= open_failed_status(self.cameras@[index as int].dev_path@, e@));
                    self.status = status;
                    self.pending = Pending::Idle;
                    Action::Done
                },
                Ok(scan) => {
                    let DeviceScan { controls, formats, readings } = scan;
                    let values = snapshot_controls(controls.as_slice(), readings.as_slice());
                    let labels = format_labels(&formats);
                    self.controls = controls;
                    self.formats = formats;
                    self.control_values = values;
                    self.format_labels = labels;
                    self.selected_camera = Some(index);
                    let path = self.cameras[index].dev_path.clone();
                    self.dev_path = Some(self.cameras[index].dev_path.clone());
                    let key = self.cameras[index].id.profile_key();
                    let restored = match self.config.get_profile(key.as_str()) {
                        Some(profile) => Some(profile.control_values()),
                        None => None,
                    };
                    match restored {
                        Some(values) => {
                            let plan = apply_controls(&values, self.controls.as_slice());
                            self.pending = Pending::Restoring;
                            Action::ApplyControls { path, plan }
                        },
                        None => {
                            proof { reveal_strlit("Opened "); }
                            let mut status = String::from_str("Opened ");
                            status.append(self.cameras[index].name.as_str());
                            assert(status@ =~= opened_status(self.cameras@[index as int].name@));
                            self.status = status;
                            self.pending = Pending::StartingPreview { report: true, then_save: false };
                            Action::StartPreview { path }
                        },
                    }
                },
            },
            _ => Action::Done,
        }
    }

    /// The writes of an `ApplyControls` were made (`manual_results`: the
    /// outcome of each manual write, in order) and the controls read back
    /// (`readings`: the value read for each control, in order).
    pub fn on_controls_applied(
        &mut self,
        manual_results: Vec<Result<(), ControlError>>,
        readings: Vec<Option<i64>>,
    ) -> (a: Action)
        requires
            old(self).wf(),
        ensures
            final(self).wf(),
            controls_applied(*old(self), manual_results@, readings@, *final(self), a),
    {
        match self.pending {
            Pending::Restoring => {
                let errors = apply_errors(manual_results.as_slice());
                let values = snapshot_controls(self.controls.as_slice(), readings.as_slice());
                self.control_values = values;
                let ghost errs = failure_messages(manual_results@);
                assert(errors@.len() == errs.len());
                let status = if errors.len() == 0 {
                    proof { reveal_strlit("Profile restored for "); }
                    let mut st = String::from_str("Profile restored for ");
                    let idx = self.selected_camera.unwrap();
                    st.append(self.cameras[idx].name.as_str());
                    assert(st@ =~= restored_status(self.cameras@[idx as int].name@));
                    st
                } else {
                    proof {
                        reveal_strlit("Profile restored \u{2014} failed: ");
                        reveal_strlit("; ");
                    }
                    let mut st = String::from_str("Profile restored \u{2014} failed: ");
                    assert("; "@ =~= error_separator());
                    let detail = join_texts(&errors, "; ");
                    assert(detail@ == join(errs, error_separator()));
                    st.append(detail.as_str());
                    assert(st@ =~= restore_failed_status(errs));
                    st
                };
                self.status = status;
                let path = self.dev_path.as_ref().unwrap().clone();
                self.pending = Pending::StartingPreview { report: true, then_save: false };
                Action::StartPreview { path }
            },
            Pending::Resetting => {
                let errors = apply_errors(manual_results.as_slice());
                let values = snapshot_controls(self.controls.as_slice(), readings.as_slice());
                self.control_values = values;
                let ghost errs = failure_messages(manual_results@);
                assert(errors@.len() == errs.len());
                let status = if errors.len() == 0 {
                    proof { reveal_strlit("Reset to defaults"); }
                    let st = String::from_str("Reset to defaults");
                    assert(st@ =~= reset_status());
                    st
                } else {
                    proof {
                        reveal_strlit("Reset \u{2014} failed: ");
                        reveal_strlit("; ");
                    }
                    let mut st = String::from_str("Reset \u{2014} failed: ");
                    assert("; "@ =~= error_separator());
                    let detail = join_texts(&errors, "; ");
                    assert(detail@ == join(errs, error_separator()));
                    st.append(detail.as_str());
                    assert(st@ =~= reset_failed_status(errs));
                    st
                };
                self.status = status;
                self.auto_save(false)
            },
            _ => Action::Done,
        }
    }

    /// The preview was started, or failed to start.
    pub fn on_preview_started(&mut self, result: Result<(), String>) -> (a: Action)
        requires
            old(self).wf(),
        ensures
            final(self).wf(),
            preview_started(*old(self), result, *final(self), a),
    {
        match self.pending {
            Pending::StartingPreview { report, then_save } => {
                match result {
                    Err(e) => {
                        if report {
                            proof { reveal_strlit("Preview failed: "); }
                            let mut status = String::from_str("Preview failed: ");
                            status.append(e.as_str());
                            assert(status@ =~= preview_failed_status(e@));
                            self.status = status;
                        }
                    },
                    Ok(()) => {},
                }
                if then_save {
                    self.auto_save(true)
                } else {
                    self.pending = Pending::Idle;
                    Action::Done
                }
            },
            _ => Action::Done,
        }
    }

    /// A control write succeeded or failed.
    pub fn on_control_written(&mut self, result: Result<(), ControlError>) -> (a: Action)
        requires
            old(self).wf(),
        ensures
            final(self).wf(),
            control_written(*old(self), result, *final(self), a),
    {
        match self.pending {
            Pending::Writing { id, value, read_back } => match result {
                Ok(()) => {
                    self.control_values.insert(id, value);
                    self.auto_save(true)
                },
                Err(e) => {
                    if e.is_permission_denied() {
                        if read_back {
                            let path = self.dev_path.as_ref().unwrap().clone();
                            self.pending = Pending::ReadingBack { id };
                            Action::ReadControl { path, id }
                        } else {
                            self.pending = Pending::Idle;
                            Action::Done
                        }
                    } else {
                        self.status = e.message;
                        self.pending = Pending::Idle;
                        Action::Done
                    }
                },
            },
            _ => Action::Done,
        }
    }

    /// A control was read back (`None`: the read failed).
    pub fn on_control_read(&mut self, value: Option<i64>) -> (a: Action)
        requires
            old(self).wf(),
        ensures
            final(self).wf(),
            control_read(*old(self), value, *final(self), a),
    {
        match self.pending {
            Pending::ReadingBack { id } => {
                match value {
                    Some(v) => {
                        self.control_values.insert(id, v);
                    },
                    None => {},
                }
                self.pending = Pending::Idle;
                Action::Done
            },
            _ => Action::Done,
        }
    }

    /// The format was set (`Ok`: the size the device took) or not.
    pub fn on_format_set(&mut self, result: Result<(u32, u32), String>) -> (a: Action)
        requires
            old(self).wf(),
        ensures
            final(self).wf(),
            format_set(*old(self), result, *final(self), a),
    {
        match self.pending {
            Pending::SettingFormat { index } => {
                let ok = result.is_ok();
                match result {
                    Ok((w, h)) => {
                        proof {
                            reveal_strlit("Format: ");
                            reveal_strlit(" ");
                            reveal_strlit("x");
                        }
                        let mut status = String::from_str("Format: ");
                        let name = fourcc_name(&self.formats[index].fourcc);
                        status.append(name.as_str());
                        status.append(" ");
                        append_decimal(&mut status, w as u64);
                        status.append("x");
                        append_decimal(&mut status, h as u64);
                        assert(status@ =~= format_status(fourcc_text(self.formats@[index as int].fourcc), w, h));
                        self.status = status;
                    },
                    Err(e) => {
                        self.status = e;
                    },
                }
                let path = self.dev_path.as_ref().unwrap().clone();
                self.pending = Pending::StartingPreview { report: ok, then_save: true };
                Action::StartPreview { path }
            },
            _ => Action::Done,
        }
    }

    /// The config was saved, or not.
    pub fn on_config_saved(&mut self, result: Result<(), String>) -> (a: Action)
        requires
            old(self).wf(),
        ensures
            final(self).wf(),
            config_saved(*old(self), result, *final(self), a),
    {
        match self.pending {
            Pending::Saving { report } => {
                match result {
                    Err(e) => {
                        if report {
                            proof { reveal_strlit("Save failed: "); }
                            let mut status = String::from_str("Save failed: ");
                            status.append(e.as_str());
                            assert(status@ =~= save_failed_status(e@));
                            self.status = status;
                        }
                    },
                    Ok(()) => {},
                }
                self.pending = Pending::Idle;
                Action::Done
            },
            _ => Action::Done,
        }
    }

    /// The cameras found now.
    pub fn on_cameras_listed(&mut self, cameras: Vec<CameraInfo>) -> (a: Action)
        requires
            old(self).wf(),
        ensures
            final(self).wf(),
            cameras_listed(*old(self), cameras, *final(self), a),
    {
        match self.pending {
            Pending::Checking => {
                if same_paths(&cameras, &self.cameras) {
                    self.pending = Pending::Idle;
                    Action::Done
                } else {
                    self.pending = Pending::Relisting;
                    Action::RelistCameras
                }
            },
            Pending::Relisting => {
                let labels = camera_labels(&cameras);
                let found = match &self.dev_path {
                    Some(p) => position_of_path(&cameras, p),
                    None => None,
                };
                self.cameras = cameras;
                self.camera_labels = labels;
                match found {
                    Some(i) => {
                        self.selected_camera = Some(i);
                        self.pending = Pending::Idle;
                        Action::Done
                    },
                    None => {
                        self.selected_camera = None;
                        self.dev_path = None;
                        self.controls.clear();
                        self.control_values.clear();
                        self.formats.clear();
                        self.format_labels.clear();
                        assert(texts(self.format_labels@) =~= format_labels_of(self.formats@));
                        if self.cameras.len() > 0 {
                            self.open_camera(0)
                        } else {
                            proof { reveal_strlit("No cameras detected"); }
                            self.status = String::from_str("No cameras detected");
                            assert(self.status@ =~= no_cameras_text());
                            self.pending = Pending::Idle;
                            Action::Done
                        }
                    },
                }
            },
            _ => Action::Done,
        }
    }
}

// ── What the window shows ───────────────────────────────────────────────

/// The device line at the top of the window.
#[derive(Debug)]
pub enum DeviceHeader {
    /// No camera.
    Hidden,
    /// A drop-down over `camera_labels`, with `selected_camera` selected.
    Selector,
    /// The only camera: "{name} — {path}".
    Title(String),
}

/// The preview area.
#[derive(Debug, Clone, Copy, PartialEq, Eq)]
pub enum PreviewArea {
    Hidden,
    /// The latest frame.
    Frame,
    /// "Starting preview..." while no frame has arrived for the open camera.
    Starting,
}

/// The row of one control.
#[derive(Debug)]
pub enum ControlRow {
    /// A slider from `min` to `max` at `current`, with `current` written
    /// beside it.
    Slider { id: u32, name: String, min: i64, max: i64, step: i64, current: i64, current_text: String },
    /// A switch, on when the value is not 0.
    Toggle { id: u32, name: String, on: bool },
    /// The name and the label of the current menu entry.
    Menu { name: String, label: String },
    /// A button that writes 1.
    Button { id: u32, name: String },
}

/// What the window shows, top to bottom: the device line, the preview, the
/// format drop-down (over `format_labels`, with `selected_format`
/// selected), the "Controls" title with one row per control when there are
/// controls, the reset button, and the status line.
#[derive(Debug)]
pub struct ViewModel {
    pub device: DeviceHeader,
    pub preview: PreviewArea,
    pub show_formats: bool,
    pub rows: Vec<ControlRow>,
    pub show_status: bool,
}

/// The value shown for a control: its current value when known, its
/// default otherwise.
pub open spec fn shown_value(values: Map<u32, i64>, c: CameraControl) -> i64 {
    if values.contains_key(c.id) {
        values[c.id]
    } else {
        c.default
    }
}

/// "Unknown"
pub open spec fn unknown_text() -> Seq<char> {
    seq!['U', 'n', 'k', 'n', 'o', 'w', 'n']
}

/// The label of the first menu item with value `v`, or "Unknown".
pub open spec fn menu_label_of(items: Seq<(i64, String)>, v: i64) -> Seq<char>
    decreases items.len(),
{
    if items.len() == 0 {
        unknown_text()
    } else if items[0].0 == v {
        items[0].1@
    } else {
        menu_label_of(items.drop_first(), v)
    }
}

/// `r` is the row that shows control `c` with the values `values`.
pub open spec fn row_of(r: ControlRow, c: CameraControl, values: Map<u32, i64>) -> bool {
    let v = shown_value(values, c);
    match c.ctrl_type {
        ControlKind::Integer { min, max, step } => r matches ControlRow::Slider { id, name, min: rmin, max: rmax, step: rstep, current, current_text }
            && id == c.id && name@ == c.name@ && rmin == min && rmax == max && rstep == step && current == v
            && current_text@ == signed_decimal(v as int),
        ControlKind::Boolean => r matches ControlRow::Toggle { id, name, on } && id == c.id && name@ == c.name@ && on == (v != 0),
        ControlKind::Menu { items } => r matches ControlRow::Menu { name, label } && name@ == c.name@ && label@ == menu_label_of(items@, v),
        ControlKind::Button => r matches ControlRow::Button { id, name } && id == c.id && name@ == c.name@,
    }
}

/// "{name} — {path}"
pub open spec fn device_title(name: Seq<char>, path: Seq<char>) -> Seq<char> {
    name + seq![' ', '\u{2014}', ' '] + path
}

/// `m` is what the window shows for the state `s`; `has_frame`: a preview
/// frame has arrived.
pub open spec fn shows(s: AppState, has_frame: bool, m: ViewModel) -> bool {
    &&& if s.cameras.len() > 1 {
        m.device is Selector
    } else if s.cameras.len() == 1 {
        m.device matches DeviceHeader::Title(t) && t@ == device_title(s.cameras[0].name@, s.cameras[0].dev_path@)
    } else {
        m.device is Hidden
    }
    &&& m.preview == if has_frame {
        PreviewArea::Frame
    } else if s.selected_camera is Some {
        PreviewArea::Starting
    } else {
        PreviewArea::Hidden
    }
    &&& m.show_formats == (s.format_labels.len() > 0)
    &&& m.rows.len() == s.controls.len()
    &&& forall|i: int| 0 <= i < s.controls.len() ==> row_of(#[trigger] m.rows[i], s.controls[i], s.control_values@)
    &&& m.show_status == (s.status@.len() > 0)
}

fn menu_label(items: &Vec<(i64, String)>, v: i64) -> (label: String)
    ensures
        label@ == menu_label_of(items@, v),
{
    let mut i: usize = 0;
    assert(items@.skip(0) =~= items@);
    while i < items.len()
        invariant
            i <= items@.len(),
            menu_label_of(items@, v) == menu_label_of(items@.skip(i as int), v),
        decreases items@.len() - i,
    {
        assert(items@.skip(i as int)[0] == items@[i as int]);
        if items[i].0 == v {
            return items[i].1.clone();
        }
        assert(items@.skip(i as int).drop_first() =~= items@.skip(i + 1));
        i = i + 1;
    }
    proof { reveal_strlit("Unknown"); }
    let label = String::from_str("Unknown");
    assert(label@ =~= unknown_text());
    label
}

fn control_row(c: &CameraControl, values: &HashMap<u32, i64>) -> (r: ControlRow)
    ensures
        row_of(r, *c, values@),
{
    let v = match values.get(&c.id) {
        Some(x) => *x,
        None => c.default,
    };
    match &c.ctrl_type {
        ControlKind::Integer { min, max, step } => ControlRow::Slider {
            id: c.id,
            name: c.name.clone(),
            min: *min,
            max: *max,
            step: *step,
            current: v,
            current_text: i64_text(v),
        },
        ControlKind::Boolean => ControlRow::Toggle { id: c.id, name: c.name.clone(), on: v != 0 },
        ControlKind::Menu { items } => ControlRow::Menu { name: c.name.clone(), label: menu_label(items, v) },
        ControlKind::Button => ControlRow::Button { id: c.id, name: c.name.clone() },
    }
}

impl AppState {
    /// What the window shows; `has_frame`: a preview frame has arrived.
    pub fn view_model(&self, has_frame: bool) -> (m: ViewModel)
        ensures
            shows(*self, has_frame, m),
    {
        let device = if self.cameras.len() > 1 {
            DeviceHeader::Selector
        } else if self.cameras.len() == 1 {
            proof { reveal_strlit(" \u{2014} "); }
            let mut t = self.cameras[0].name.clone();
            t.append(" \u{2014} ");
            t.append(self.cameras[0].dev_path.as_str());
            assert(t@ =~= device_title(self.cameras@[0].name@, self.cameras@[0].dev_path@));
            DeviceHeader::Title(t)
        } else {
            DeviceHeader::Hidden
        };
        let preview = if has_frame {
            PreviewArea::Frame
        } else if self.selected_camera.is_some() {
            PreviewArea::Starting
        } else {
            PreviewArea::Hidden
        };
        let mut rows: Vec<ControlRow> = Vec::new();
        let mut i: usize = 0;
        while i < self.controls.len()
            invariant
                i <= self.controls@.len(),
                rows@.len() == i,
                forall|j: int| 0 <= j < i ==> row_of(#[trigger] rows@[j], self.controls@[j], self.control_values@),
            decreases self.controls@.len() - i,
        {
            rows.push(control_row(&self.controls[i], &self.control_values));
            i = i + 1;
        }
        ViewModel {
            device,
            preview,
            show_formats: self.format_labels.len() > 0,
            rows,
            show_status: !self.status.as_str().is_empty(),
        }
    }
}

// ── Laws ────────────────────────────────────────────────────────────────

/// A control value the camera accepted is saved in the open camera's
/// profile, and restoring that profile gives the value back.
pub proof fn law_written_value_is_saved(s: AppState, t: AppState, a: Action)
    requires
        s.wf(),
        s.pending is Writing,
        control_written(s, Ok(()), t, a),
    ensures
        ({
            let id = s.pending->Writing_id;
            let value = s.pending->Writing_value;
            let key = s.cameras[s.selected_camera->0 as int].id.key_text();
            t.config.profile(key) matches Some(p) && ({
                let restored = restored_map(p.controls@, p.controls@.len() as int);
                restored.contains_key(id) && restored[id] == value
            })
        }),
{
    let s1 = AppState { control_values: t.control_values, ..s };
    let key = s.cameras[s.selected_camera->0 as int].id.key_text();
    let p = t.config.profile(key)->0;
    law_saved_controls_restore(p.controls@, s1.control_values@);
}

/// Opening a camera that has a saved profile writes every saved control
/// value back to it, each id with its saved value, automatic modes first.
pub proof fn law_opening_restores_profile(s: AppState, scan: DeviceScan, t: AppState, a: Action)
    requires
        s.wf(),
        s.pending is Opening,
        s.config.profile(s.cameras[s.pending->Opening_index as int].id.key_text()) is Some,
        device_scanned(s, Ok(scan), t, a),
    ensures
        ({
            let p = s.config.profile(s.cameras[s.pending->Opening_index as int].id.key_text())->0;
            let restored = restored_map(p.controls@, p.controls@.len() as int);
            a matches Action::ApplyControls { plan, .. } && plans(plan, restored, scan.controls@)
                && forall|k: u32|
                restored.contains_key(k) ==> #[trigger] write_ids(plan.auto_writes@ + plan.manual_writes@).contains(k)
        }),
{
    let p = s.config.profile(s.cameras[s.pending->Opening_index as int].id.key_text())->0;
    let restored = restored_map(p.controls@, p.controls@.len() as int);
    let plan = a->ApplyControls_plan;
    law_plan_writes_every_value(plan, restored, scan.controls@);
}

/// While the window checks for plugged and unplugged cameras, a listing
/// whose device paths differ from the known ones in number, or at any
/// position, is answered by listing the cameras again; a listing with the
/// same paths in the same order changes nothing but ends the check.
pub proof fn law_changed_devices_are_relisted(s: AppState, cameras: Vec<CameraInfo>, t: AppState, a: Action)
    requires
        s.pending is Checking,
        cameras_listed(s, cameras, t, a),
    ensures
        (cameras@.len() != s.cameras@.len() || exists|i: int|
            0 <= i < cameras@.len() && i < s.cameras@.len() && #[trigger] cameras@[i].dev_path@
                != s.cameras@[i].dev_path@) ==> (a is RelistCameras && t.pending is Relisting && t.cameras == s.cameras),
        (cameras@.len() == s.cameras@.len() && forall|i: int|
            0 <= i < cameras@.len() ==> #[trigger] cameras@[i].dev_path@ == s.cameras@[i].dev_path@) ==> (a is Done
            && t == AppState { pending: Pending::Idle, ..s }),
{
    if cameras@.len() != s.cameras@.len() {
        assert(camera_paths(cameras@).len() != camera_paths(s.cameras@).len());
    }
    if exists|i: int|
        0 <= i < cameras@.len() && i < s.cameras@.len() && #[trigger] cameras@[i].dev_path@ != s.cameras@[i].dev_path@ {
        let i = choose|i: int|
            0 <= i < cameras@.len() && i < s.cameras@.len() && #[trigger] cameras@[i].dev_path@ != s.cameras@[i].dev_path@;
        assert(camera_paths(cameras@)[i] != camera_paths(s.cameras@)[i]);
    }
    if cameras@.len() == s.cameras@.len() && forall|i: int|
        0 <= i < cameras@.len() ==> #[trigger] cameras@[i].dev_path@ == s.cameras@[i].dev_path@ {
        assert(camera_paths(cameras@) =~= camera_paths(s.cameras@));
    }
}

/// Each integer control is shown as a slider over the control's own range
/// and step, at the control's current value.
pub proof fn law_slider_keeps_range_and_step(s: AppState, has_frame: bool, m: ViewModel, i: int)
    requires
        shows(s, has_frame, m),
        0 <= i < s.controls@.len(),
        s.controls@[i].ctrl_type is Integer,
    ensures
        ({
            let c = s.controls@[i];
            m.rows@[i] matches ControlRow::Slider { id, min, max, step, current, .. } && id == c.id
                && min == c.ctrl_type->Integer_min && max == c.ctrl_type->Integer_max
                && step == c.ctrl_type->Integer_step && current == (if s.control_values@.contains_key(c.id) {
                s.control_values@[c.id]
            } else {
                c.default
            })
        }),
{
    assert(row_of(m.rows[i], s.controls[i], s.control_values@));
}

proof fn lemma_defaults_cover(controls: Seq<CameraControl>, n: int, i: int)
    requires
        0 <= i < n <= controls.len(),
    ensures
        defaults_map(controls, n).contains_key(controls[i].id),
    decreases n,
{
    if i < n - 1 {
        lemma_defaults_cover(controls, n - 1, i);
    }
}

/// Resetting writes a value to every control of the open camera: its
/// default (the last control listed for an id gives the value), with
/// automatic modes first.
pub proof fn law_reset_writes_every_default(s: AppState, t: AppState, a: Action)
    requires
        s.wf(),
        s.dev_path is Some,
        resets(s, t, a),
    ensures
        a matches Action::ApplyControls { plan, .. } && ({
            let defaults = defaults_map(s.controls@, s.controls@.len() as int);
            &&& plans(plan, defaults, s.controls@)
            &&& forall|i: int|
                0 <= i < s.controls@.len() ==> #[trigger] write_ids(plan.auto_writes@ + plan.manual_writes@).contains(
                    s.controls@[i].id,
                )
        }),
{
    let defaults = defaults_map(s.controls@, s.controls@.len() as int);
    let plan = a->ApplyControls_plan;
    law_plan_writes_every_value(plan, defaults, s.controls@);
    assert forall|i: int| 0 <= i < s.controls@.len() implies #[trigger] write_ids(
        plan.auto_writes@ + plan.manual_writes@,
    ).contains(s.controls@[i].id) by {
        lemma_defaults_cover(s.controls@, s.controls@.len() as int, i);
    }
}

} // verus!
