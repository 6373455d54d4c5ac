//! Cameras and their controls: identities, the control list read from the
//! driver, snapshots of control values, and the order in which saved values
//! are written back.
use std::collections::HashMap;
use vstd::prelude::*;
use crate::text::{append_decimal, c_label, c_label_text, decimal, texts, u64_text, utf8_text};
use vstd::utf8::{decode_utf8, valid_utf8};

verus! {

broadcast use vstd::std_specs::hash::group_hash_axioms;

/// V4L2 control type: integer.
pub const V4L2_CTRL_TYPE_INTEGER: u32 = 1;
/// V4L2 control type: boolean.
pub const V4L2_CTRL_TYPE_BOOLEAN: u32 = 2;
/// V4L2 control type: menu of named entries.
pub const V4L2_CTRL_TYPE_MENU: u32 = 3;
/// V4L2 control type: button.
pub const V4L2_CTRL_TYPE_BUTTON: u32 = 4;
/// V4L2 control type: 64-bit integer.
pub const V4L2_CTRL_TYPE_INTEGER64: u32 = 5;
/// V4L2 control type: menu of integers.
pub const V4L2_CTRL_TYPE_INTEGER_MENU: u32 = 9;

/// V4L2 control flag: the control is disabled.
pub const V4L2_CTRL_FLAG_DISABLED: u32 = 0x0001;
/// V4L2 control flag: the control cannot be written.
pub const V4L2_CTRL_FLAG_READ_ONLY: u32 = 0x0004;
/// V4L2 control flag: ask the driver for the control after the given id.
pub const V4L2_CTRL_FLAG_NEXT_CTRL: u32 = 0x8000_0000;

/// How many video device nodes (`/dev/video0` and on) are looked at.
pub const VIDEO_DEVICE_COUNT: u32 = 16;

/// V4L2 capability bit of a device that captures video.
pub const V4L2_CAP_VIDEO_CAPTURE: u32 = 0x0000_0001;

/// Linux `errno` value for "permission denied".
pub const EACCES: i32 = 13;
/// Linux `errno` value for "operation not permitted".
pub const EPERM: i32 = 1;

/// USB identity of a camera, the key under which its settings are saved.
#[derive(Debug, PartialEq, Eq, Hash)]
pub struct CameraId {
    pub vendor_id: String,
    pub product_id: String,
    pub serial: Option<String>,
}

pub open spec fn opt_text(s: Option<String>) -> Option<Seq<char>> {
    match s {
        Some(t) => Some(t@),
        None => None,
    }
}

/// `a:b`
pub open spec fn colon_join(a: Seq<char>, b: Seq<char>) -> Seq<char> {
    a + seq![':'] + b
}

/// The profile key of an identity: `vendor:product`, followed by
/// `:serial` when the serial is present and not empty.
pub open spec fn profile_key_text(vendor: Seq<char>, product: Seq<char>, serial: Option<Seq<char>>) -> Seq<char> {
    match serial {
        Some(s) => if s.len() > 0 {
            colon_join(colon_join(vendor, product), s)
        } else {
            colon_join(vendor, product)
        },
        None => colon_join(vendor, product),
    }
}

impl CameraId {
    pub open spec fn key_text(&self) -> Seq<char> {
        profile_key_text(self.vendor_id@, self.product_id@, opt_text(self.serial))
    }

    /// The key under which this camera's profile is saved.
    pub fn profile_key(&self) -> (key: String)
        ensures
            key@ == self.key_text(),
    {
        proof { reveal_strlit(":"); }
        let mut key = self.vendor_id.clone();
        key.append(":");
        key.append(self.product_id.as_str());
        match &self.serial {
            Some(s) => {
                if !s.as_str().is_empty() {
                    key.append(":");
                    key.append(s.as_str());
                }
            },
            None => {},
        }
        assert(key@ =~= self.key_text());
        key
    }

}

impl Clone for CameraId {
    fn clone(&self) -> (r: CameraId)
        ensures
            r == *self,
    {
        CameraId {
            vendor_id: self.vendor_id.clone(),
            product_id: self.product_id.clone(),
            serial: match &self.serial {
                Some(s) => Some(s.clone()),
                None => None,
            },
        }
    }
}

/// A video capture device found on the system.
#[derive(Debug)]
pub struct CameraInfo {
    pub id: CameraId,
    pub name: String,
    pub dev_path: String,
}

impl Clone for CameraInfo {
    fn clone(&self) -> (r: CameraInfo)
        ensures
            r == *self,
    {
        CameraInfo { id: self.id.clone(), name: self.name.clone(), dev_path: self.dev_path.clone() }
    }
}

/// How a control is operated.
#[derive(Debug, Clone)]
pub enum ControlKind {
    Integer { min: i64, max: i64, step: i64 },
    Boolean,
    Menu { items: Vec<(i64, String)> },
    Button,
}

/// A writable control of a camera.
#[derive(Debug, Clone)]
pub struct CameraControl {
    pub id: u32,
    pub name: String,
    pub ctrl_type: ControlKind,
    pub default: i64,
}

/// Error from setting a control.
#[derive(Debug)]
pub struct ControlError {
    pub errno: i32,
    pub message: String,
}

pub open spec fn permission_denied(errno: i32) -> bool {
    errno == EACCES || errno == EPERM
}

/// "Failed to open device for control {id}"
pub open spec fn open_failed_text(id: u32) -> Seq<char> {
    seq!['F', 'a', 'i', 'l', 'e', 'd', ' ', 't', 'o', ' ', 'o', 'p', 'e', 'n', ' ', 'd', 'e', 'v', 'i', 'c', 'e', ' ', 'f', 'o', 'r', ' ', 'c', 'o', 'n', 't', 'r', 'o', 'l', ' '] + decimal(id as nat)
}

/// "Failed to set control {id}: {detail}"
pub open spec fn write_failed_text(id: u32, detail: Seq<char>) -> Seq<char> {
    seq!['F', 'a', 'i', 'l', 'e', 'd', ' ', 't', 'o', ' ', 's', 'e', 't', ' ', 'c', 'o', 'n', 't', 'r', 'o', 'l', ' '] + decimal(id as nat) + seq![':', ' '] + detail
}

impl ControlError {
    /// The write was refused because the control is managed automatically
    /// (`EACCES` or `EPERM`).
    pub fn is_permission_denied(&self) -> (r: bool)
        ensures
            r == permission_denied(self.errno),
    {
        self.errno == EACCES || self.errno == EPERM
    }

    /// The error of a write whose device could not be opened.
    pub fn open_failed(id: u32) -> (e: ControlError)
        ensures
            e.errno == 0,
            e.message@ == open_failed_text(id),
    {
        proof { reveal_strlit("Failed to open device for control "); }
        let mut message = String::from_str("Failed to open device for control ");
        append_decimal(&mut message, id as u64);
        assert(message@ =~= open_failed_text(id));
        ControlError { errno: 0, message }
    }

    /// The error of a write the driver refused with `errno`; `detail` is the
    /// system's description of that error.
    pub fn write_failed(id: u32, errno: i32, detail: &str) -> (e: ControlError)
        ensures
            e.errno == errno,
            e.message@ == write_failed_text(id, detail@),
    {
        proof {
            reveal_strlit("Failed to set control ");
            reveal_strlit(": ");
        }
        let mut message = String::from_str("Failed to set control ");
        append_decimal(&mut message, id as u64);
        message.append(": ");
        message.append(detail);
        assert(message@ =~= write_failed_text(id, detail@));
        ControlError { errno, message }
    }
}

// ── Controls as the driver describes them ───────────────────────────────

/// One answer of the driver to a control query.
#[derive(Debug, Clone, Copy)]
pub struct ControlQuery {
    pub id: u32,
    pub ctrl_type: u32,
    pub name: [u8; 32],
    pub minimum: i32,
    pub maximum: i32,
    pub step: i32,
    pub default_value: i32,
    pub flags: u32,
}

/// One answer of the driver to a menu entry query.
#[derive(Debug, Clone, Copy)]
pub struct MenuEntry {
    pub index: u32,
    pub name: [u8; 32],
}

/// A control query together with the menu entries read for it.
#[derive(Debug)]
pub struct ControlAnswer {
    pub query: ControlQuery,
    pub menu_items: Vec<(i64, String)>,
}

pub open spec fn known_type(t: u32) -> bool {
    t == V4L2_CTRL_TYPE_INTEGER || t == V4L2_CTRL_TYPE_INTEGER64 || t == V4L2_CTRL_TYPE_BOOLEAN
        || t == V4L2_CTRL_TYPE_MENU || t == V4L2_CTRL_TYPE_INTEGER_MENU
        || t == V4L2_CTRL_TYPE_BUTTON
}

pub open spec fn menu_type(t: u32) -> bool {
    t == V4L2_CTRL_TYPE_MENU || t == V4L2_CTRL_TYPE_INTEGER_MENU
}

/// A queried control is offered to the user when it is enabled, writable
/// and of a type the tool knows.
pub open spec fn listed(q: ControlQuery) -> bool {
    &&& q.flags & V4L2_CTRL_FLAG_DISABLED == 0
    &&& q.flags & V4L2_CTRL_FLAG_READ_ONLY == 0
    &&& known_type(q.ctrl_type)
}

/// Whether the control `q` describes is offered to the user.
pub fn is_listed(q: &ControlQuery) -> (r: bool)
    ensures
        r == listed(*q),
{
    (q.flags & V4L2_CTRL_FLAG_DISABLED) == 0 && (q.flags & V4L2_CTRL_FLAG_READ_ONLY) == 0 && (
    q.ctrl_type == V4L2_CTRL_TYPE_INTEGER || q.ctrl_type == V4L2_CTRL_TYPE_INTEGER64
        || q.ctrl_type == V4L2_CTRL_TYPE_BOOLEAN || q.ctrl_type == V4L2_CTRL_TYPE_MENU
        || q.ctrl_type == V4L2_CTRL_TYPE_INTEGER_MENU || q.ctrl_type == V4L2_CTRL_TYPE_BUTTON)
}

/// Whether the menu entries of `q` must be read before it can be listed.
pub fn needs_menu_items(q: &ControlQuery) -> (r: bool)
    ensures
        r == (listed(*q) && menu_type(q.ctrl_type)),
{
    is_listed(q) && (q.ctrl_type == V4L2_CTRL_TYPE_MENU || q.ctrl_type == V4L2_CTRL_TYPE_INTEGER_MENU)
}

/// The first and last menu index to ask the driver for, both included.
pub fn menu_index_bounds(q: &ControlQuery) -> (r: (u32, u32))
    ensures
        r == (q.minimum as u32, q.maximum as u32),
{
    (q.minimum as u32, q.maximum as u32)
}

/// The id to ask the driver for to get the control after `id`.
pub fn next_control_query(id: u32) -> (r: u32)
    ensures
        r == id | V4L2_CTRL_FLAG_NEXT_CTRL,
{
    id | V4L2_CTRL_FLAG_NEXT_CTRL
}

/// The label of a menu entry: its index for integer menus, its name
/// otherwise.
pub open spec fn menu_label_text(ctrl_type: u32, e: MenuEntry) -> Seq<char> {
    if ctrl_type == V4L2_CTRL_TYPE_INTEGER_MENU {
        decimal(e.index as nat)
    } else {
        c_label_text(e.name@)
    }
}

/// Menu items of a control of type `ctrl_type`, from the entries the driver
/// answered (indexes it did not answer are left out).
pub fn menu_items(ctrl_type: u32, entries: &Vec<MenuEntry>) -> (items: Vec<(i64, String)>)
    ensures
        items.len() == entries.len(),
        forall|i: int|
            0 <= i < entries.len() ==> (#[trigger] items[i]).0 == entries[i].index as i64
                && items[i].1@ == menu_label_text(ctrl_type, entries[i]),
{
    let mut items: Vec<(i64, String)> = Vec::new();
    let mut i: usize = 0;
    while i < entries.len()
        invariant
            i <= entries.len(),
            items.len() == i,
            forall|j: int|
                0 <= j < i ==> (#[trigger] items[j]).0 == entries[j].index as i64
                    && items[j].1@ == menu_label_text(ctrl_type, entries[j]),
        decreases entries.len() - i,
    {
        let e = entries[i];
        let label = if ctrl_type == V4L2_CTRL_TYPE_INTEGER_MENU {
            u64_text(e.index as u64)
        } else {
            c_label(&e.name)
        };
        items.push((e.index as i64, label));
        i = i + 1;
    }
    items
}

/// The kind of a listed control described by `q`, with `items` as its menu.
pub open spec fn kind_of(q: ControlQuery, items: Vec<(i64, String)>) -> ControlKind {
    if q.ctrl_type == V4L2_CTRL_TYPE_INTEGER || q.ctrl_type == V4L2_CTRL_TYPE_INTEGER64 {
        ControlKind::Integer { min: q.minimum as i64, max: q.maximum as i64, step: q.step as i64 }
    } else if q.ctrl_type == V4L2_CTRL_TYPE_BOOLEAN {
        ControlKind::Boolean
    } else if menu_type(q.ctrl_type) {
        ControlKind::Menu { items }
    } else {
        ControlKind::Button
    }
}

/// `c` is the control that the answer `a` describes.
pub open spec fn control_of(c: CameraControl, a: ControlAnswer) -> bool {
    &&& c.id == a.query.id
    &&& c.name@ == c_label_text(a.query.name@)
    &&& c.ctrl_type == kind_of(a.query, a.menu_items)
    &&& c.default == a.query.default_value as i64
}

/// The control an answer describes, when it is offered to the user.
pub fn control_from_answer(a: ControlAnswer) -> (r: Option<CameraControl>)
    ensures
        r is Some == listed(a.query),
        r matches Some(c) ==> control_of(c, a),
{
    let ghost orig = a;
    let ControlAnswer { query: q, menu_items } = a;
    if !is_listed(&q) {
        return None;
    }
    let ctrl_type = if q.ctrl_type == V4L2_CTRL_TYPE_INTEGER || q.ctrl_type == V4L2_CTRL_TYPE_INTEGER64 {
        ControlKind::Integer { min: q.minimum as i64, max: q.maximum as i64, step: q.step as i64 }
    } else if q.ctrl_type == V4L2_CTRL_TYPE_BOOLEAN {
        ControlKind::Boolean
    } else if q.ctrl_type == V4L2_CTRL_TYPE_MENU || q.ctrl_type == V4L2_CTRL_TYPE_INTEGER_MENU {
        ControlKind::Menu { items: menu_items }
    } else {
        ControlKind::Button
    };
    Some(CameraControl {
        id: q.id,
        name: c_label(&q.name),
        ctrl_type,
        default: q.default_value as i64,
    })
}

/// The answers that describe controls offered to the user, in order.
pub open spec fn listed_answers(answers: Seq<ControlAnswer>) -> Seq<ControlAnswer> {
    answers.filter(|a: ControlAnswer| listed(a.query))
}

proof fn lemma_filter_push<A>(s: Seq<A>, pred: spec_fn(A) -> bool, e: A)
    ensures
        pred(e) ==> s.push(e).filter(pred) == s.filter(pred).push(e),
        !pred(e) ==> s.push(e).filter(pred) == s.filter(pred),
{
    reveal(Seq::filter);
    assert(s.push(e).drop_last() =~= s);
}

/// The control list of a camera, from the driver's answers in the order it
/// gave them: disabled, read-only and unknown controls are left out.
pub fn enumerate_controls(answers: Vec<ControlAnswer>) -> (controls: Vec<CameraControl>)
    ensures
        controls.len() == listed_answers(answers@).len(),
        forall|i: int|
            0 <= i < controls.len() ==> control_of(#[trigger] controls[i], listed_answers(answers@)[i]),
{
    let ghost all = answers@;
    assert(all.len() == answers.len());
    let mut rest = answers;
    let mut controls: Vec<CameraControl> = Vec::new();
    let mut n: usize = 0;
    while rest.len() > 0
        invariant
            rest@ == all.skip(n as int),
            n <= all.len(),
            all.len() <= usize::MAX,
            controls.len() == listed_answers(all.take(n as int)).len(),
            forall|i: int|
                0 <= i < controls.len() ==> control_of(
                    #[trigger] controls[i],
                    listed_answers(all.take(n as int))[i],
                ),
        decreases rest.len(),
    {
        let a = rest.remove(0);
        let ghost ga = a;
        assert(ga == all[n as int]);
        assert(all.take(n + 1) =~= all.take(n as int).push(ga));
        proof {
            lemma_filter_push(all.take(n as int), |a: ControlAnswer| listed(a.query), ga);
        }
        match control_from_answer(a) {
            Some(c) => {
                controls.push(c);
            },
            None => {},
        }
        n = n + 1;
        assert(rest@ =~= all.skip(n as int));
    }
    assert(all.take(n as int) =~= all);
    controls
}

/// Which controls are listed goes by two flag bits alone: a control of a
/// known type (integer 1, boolean 2, menu 3, button 4, 64-bit integer 5,
/// integer menu 9) is listed exactly when its flags hold neither the
/// disabled bit 0x1 nor the read-only bit 0x4, whatever other bits (such
/// as inactive, 0x10) they hold; and the control list keeps every answer
/// so listed, and no other.
pub proof fn law_listing_by_flag_bits(answers: Seq<ControlAnswer>, i: int)
    requires
        0 <= i < answers.len(),
    ensures
        ({
            let q = answers[i].query;
            listed(q) <==> (q.flags & 1u32 == 0 && q.flags & 4u32 == 0 && (q.ctrl_type == 1u32
                || q.ctrl_type == 2u32 || q.ctrl_type == 3u32 || q.ctrl_type == 4u32
                || q.ctrl_type == 5u32 || q.ctrl_type == 9u32))
        }),
        listed_answers(answers).contains(answers[i]) <==> listed(answers[i].query),
{
    let pred = |a: ControlAnswer| listed(a.query);
    if listed(answers[i].query) {
        answers.lemma_filter_contains(pred, i);
    }
    if listed_answers(answers).contains(answers[i]) {
        let k = choose|k: int| 0 <= k < answers.filter(pred).len() && answers.filter(pred)[k] == answers[i];
        answers.lemma_filter_pred(pred, k);
    }
}

// ── Control values ──────────────────────────────────────────────────────

/// The value read for the control at position `i`: readings past the end
/// count as failed reads.
pub open spec fn reading_at(readings: Seq<Option<i64>>, i: int) -> Option<i64> {
    if 0 <= i < readings.len() {
        readings[i]
    } else {
        None
    }
}

/// The values of the first `n` controls, from the values read for them:
/// controls whose read failed are left out, and a later control with the
/// same id overrides an earlier one.
pub open spec fn snapshot_map(controls: Seq<CameraControl>, readings: Seq<Option<i64>>, n: int) -> Map<u32, i64>
    decreases n,
{
    if n <= 0 {
        Map::empty()
    } else {
        let m = snapshot_map(controls, readings, n - 1);
        match reading_at(readings, n - 1) {
            Some(v) => m.insert(controls[n - 1].id, v),
            None => m,
        }
    }
}

/// The current values of `controls`, from `readings[i]`, the value read
/// for `controls[i]` (`None` where the read failed).
pub fn snapshot_controls(controls: &[CameraControl], readings: &[Option<i64>]) -> (values: HashMap<u32, i64>)
    ensures
        values@ == snapshot_map(controls@, readings@, controls@.len() as int),
{
    let mut values: HashMap<u32, i64> = HashMap::new();
    let mut i: usize = 0;
    while i < controls.len()
        invariant
            i <= controls@.len(),
            values@ == snapshot_map(controls@, readings@, i as int),
        decreases controls@.len() - i,
    {
        if i < readings.len() {
            match readings[i] {
                Some(v) => {
                    values.insert(controls[i].id, v);
                },
                None => {},
            }
        }
        i = i + 1;
    }
    values
}

} // verus!

verus! {

/// The keys of `values`, each once, in the order the map walks them.
pub(crate) fn map_keys(values: &HashMap<u32, i64>) -> (ids: Vec<u32>)
    ensures
        ids@.no_duplicates(),
        ids@.to_set() == values@.dom(),
{
    let mut ids: Vec<u32> = Vec::new();
    let ghost all = vstd::std_specs::iter::IteratorSpec::remaining(
        &vstd::std_specs::hash::spec_keys_iter(values),
    ).unref();
    for k in it: values.keys()
        invariant
            it.seq().unref() == all,
            ids@ == all.take(it.index()),
            ids@.len() == it.index(),
            all.no_duplicates(),
            all.to_set() == values@.dom(),
    {
        assert(all.take(it.index() + 1) =~= ids@.push(*k));
        ids.push(*k);
    }
    assert(ids@ =~= all);
    ids
}

// ── Writing saved values back ───────────────────────────────────────────

/// Boolean and menu controls switch automatic modes on and off.
pub open spec fn is_auto_kind(k: ControlKind) -> bool {
    k is Boolean || k is Menu
}

/// Ids of the first `n` controls that have a value in `values` and whose
/// kind is automatic (`auto`) or not (`!auto`), in control order.
pub open spec fn planned_ids(values: Map<u32, i64>, controls: Seq<CameraControl>, auto: bool, n: int) -> Seq<u32>
    decreases n,
{
    if n <= 0 {
        Seq::empty()
    } else {
        let s = planned_ids(values, controls, auto, n - 1);
        let c = controls[n - 1];
        if values.contains_key(c.id) && is_auto_kind(c.ctrl_type) == auto {
            s.push(c.id)
        } else {
            s
        }
    }
}

/// Whether some control of `controls` has the id `k`.
pub open spec fn has_control(controls: Seq<CameraControl>, k: u32) -> bool {
    exists|i: int| 0 <= i < controls.len() && (#[trigger] controls[i]).id == k
}

/// The ids a list of writes writes, in order.
pub open spec fn write_ids(ws: Seq<(u32, i64)>) -> Seq<u32> {
    ws.map_values(|w: (u32, i64)| w.0)
}

/// The writes that restore `values`: first the automatic-mode controls, then
/// the others.
#[derive(Debug)]
pub struct ApplyPlan {
    pub auto_writes: Vec<(u32, i64)>,
    pub manual_writes: Vec<(u32, i64)>,
}

/// `plan` writes `values` to `controls` in dependency order:
/// - the automatic-mode controls with a value, in control order, first;
/// - then the other controls with a value, in control order;
/// - then each id of `values` that no control has, once, in the order the
///   map walks its keys;
/// and each write writes the value `values` holds for its id.
pub open spec fn plans(plan: ApplyPlan, values: Map<u32, i64>, controls: Seq<CameraControl>) -> bool {
    let pa = planned_ids(values, controls, true, controls.len() as int);
    let pm = planned_ids(values, controls, false, controls.len() as int);
    let manual = write_ids(plan.manual_writes@);
    &&& write_ids(plan.auto_writes@) == pa
    &&& manual.len() >= pm.len()
    &&& manual.take(pm.len() as int) == pm
    &&& manual.skip(pm.len() as int).no_duplicates()
    &&& manual.skip(pm.len() as int).to_set() == values.dom().filter(|k: u32| !has_control(controls, k))
    &&& forall|i: int| 0 <= i < plan.auto_writes@.len() ==> {
        let w = #[trigger] plan.auto_writes@[i];
        values.contains_key(w.0) && values[w.0] == w.1
    }
    &&& forall|i: int| 0 <= i < plan.manual_writes@.len() ==> {
        let w = #[trigger] plan.manual_writes@[i];
        values.contains_key(w.0) && values[w.0] == w.1
    }
}

proof fn lemma_planned_ids_members(values: Map<u32, i64>, controls: Seq<CameraControl>, auto: bool, n: int)
    requires
        0 <= n <= controls.len(),
    ensures
        forall|k: u32|
            #[trigger] planned_ids(values, controls, auto, n).contains(k) <==> (values.contains_key(k)
                && exists|i: int|
                0 <= i < n && (#[trigger] controls[i]).id == k && is_auto_kind(controls[i].ctrl_type)
                    == auto),
    decreases n,
{
    if n > 0 {
        lemma_planned_ids_members(values, controls, auto, n - 1);
        let s = planned_ids(values, controls, auto, n - 1);
        let c = controls[n - 1];
        let taken = values.contains_key(c.id) && is_auto_kind(c.ctrl_type) == auto;
        assert forall|k: u32|
            planned_ids(values, controls, auto, n).contains(k) implies (values.contains_key(k)
                && exists|i: int|
                0 <= i < n && (#[trigger] controls[i]).id == k && is_auto_kind(controls[i].ctrl_type)
                    == auto) by {
            if taken && k == c.id {
                assert(controls[n - 1].id == k);
            } else {
                if taken {
                    let p = s.push(c.id);
                    let j = choose|j: int| 0 <= j < p.len() && p[j] == k;
                    assert(s[j] == k);
                }
                assert(s.contains(k));
                let i = choose|i: int|
                    0 <= i < n - 1 && (#[trigger] controls[i]).id == k && is_auto_kind(controls[i].ctrl_type)
                        == auto;
                assert(controls[i].id == k);
            }
        }
        assert forall|k: u32|
            (values.contains_key(k) && exists|i: int|
                0 <= i < n && (#[trigger] controls[i]).id == k && is_auto_kind(controls[i].ctrl_type)
                    == auto) implies planned_ids(values, controls, auto, n).contains(k) by {
            let i = choose|i: int|
                0 <= i < n && (#[trigger] controls[i]).id == k && is_auto_kind(controls[i].ctrl_type)
                    == auto;
            if i < n - 1 {
                assert(s.contains(k));
                if taken {
                    let j = choose|j: int| 0 <= j < s.len() && s[j] == k;
                    assert(s.push(c.id)[j] == k);
                }
            } else {
                assert(taken);
                assert(s.push(c.id)[s.len() as int] == k);
            }
        }
    }
}

/// Whether one of the writes `ws` writes `id`.
fn writes_id(ws: &Vec<(u32, i64)>, id: u32) -> (r: bool)
    ensures
        r == write_ids(ws@).contains(id),
{
    let mut i: usize = 0;
    while i < ws.len()
        invariant
            i <= ws.len(),
            forall|j: int| 0 <= j < i ==> ws@[j].0 != id,
        decreases ws.len() - i,
    {
        if ws[i].0 == id {
            assert(write_ids(ws@)[i as int] == id);
            return true;
        }
        i = i + 1;
    }
    assert forall|j: int| 0 <= j < write_ids(ws@).len() implies write_ids(ws@)[j] != id by {
        assert(write_ids(ws@)[j] == ws@[j].0);
    }
    false
}

/// The writes that restore `values` on a camera with `controls`.
///
/// Automatic-mode toggles (boolean and menu controls) come first, so that a
/// manual value is written only after the mode that governs it; ids of
/// `values` that no control has are written last. Every value is written:
/// each id of `values` is among the writes.
pub fn apply_controls(values: &HashMap<u32, i64>, controls: &[CameraControl]) -> (plan: ApplyPlan)
    ensures
        plans(plan, values@, controls@),
        forall|k: u32|
            values@.contains_key(k) ==> #[trigger] write_ids(plan.auto_writes@ + plan.manual_writes@).contains(k),
{
    let mut auto_writes: Vec<(u32, i64)> = Vec::new();
    let mut manual_writes: Vec<(u32, i64)> = Vec::new();
    let mut i: usize = 0;
    while i < controls.len()
        invariant
            i <= controls@.len(),
            write_ids(auto_writes@) == planned_ids(values@, controls@, true, i as int),
            write_ids(manual_writes@) == planned_ids(values@, controls@, false, i as int),
            forall|j: int| 0 <= j < auto_writes@.len() ==> {
                let w = #[trigger] auto_writes@[j];
                values@.contains_key(w.0) && values@[w.0] == w.1
            },
            forall|j: int| 0 <= j < manual_writes@.len() ==> {
                let w = #[trigger] manual_writes@[j];
                values@.contains_key(w.0) && values@[w.0] == w.1
            },
        decreases controls@.len() - i,
    {
        let c = &controls[i];
        match values.get(&c.id) {
            Some(v) => {
                let auto = match c.ctrl_type {
                    ControlKind::Boolean => true,
                    ControlKind::Menu { .. } => true,
                    _ => false,
                };
                if auto {
                    let ghost before = auto_writes@;
                    auto_writes.push((c.id, *v));
                    assert(write_ids(auto_writes@) =~= write_ids(before).push(c.id));
                } else {
                    let ghost before = manual_writes@;
                    manual_writes.push((c.id, *v));
                    assert(write_ids(manual_writes@) =~= write_ids(before).push(c.id));
                }
            },
            None => {},
        }
        i = i + 1;
    }
    let ghost pa = planned_ids(values@, controls@, true, controls@.len() as int);
    let ghost pm = planned_ids(values@, controls@, false, controls@.len() as int);
    proof {
        lemma_planned_ids_members(values@, controls@, true, controls@.len() as int);
        lemma_planned_ids_members(values@, controls@, false, controls@.len() as int);
    }
    let keys = map_keys(values);
    let ghost unlisted = values@.dom().filter(|k: u32| !has_control(controls@, k));
    let mut j: usize = 0;
    while j < keys.len()
        invariant
            j <= keys@.len(),
            keys@.no_duplicates(),
            keys@.to_set() == values@.dom(),
            write_ids(auto_writes@) == pa,
            forall|k: u32| pa.contains(k) || pm.contains(k) <==> (values@.contains_key(k) && has_control(controls@, k)),
            write_ids(manual_writes@).len() >= pm.len(),
            write_ids(manual_writes@).take(pm.len() as int) == pm,
            write_ids(manual_writes@).skip(pm.len() as int).no_duplicates(),
            forall|k: u32| #[trigger] write_ids(manual_writes@).skip(pm.len() as int).contains(k) <==> (keys@.take(j as int).contains(k) && !has_control(controls@, k)),
            forall|x: int| 0 <= x < manual_writes@.len() ==> {
                let w = #[trigger] manual_writes@[x];
                values@.contains_key(w.0) && values@[w.0] == w.1
            },
        decreases keys@.len() - j,
    {
        let k = keys[j];
        assert(keys@.to_set().contains(k));
        let planned_auto = writes_id(&auto_writes, k);
        let planned_manual = writes_id(&manual_writes, k);
        let ghost ex = write_ids(manual_writes@).skip(pm.len() as int);
        assert(!keys@.take(j as int).contains(k)) by {
            let t = keys@.take(j as int);
            if t.contains(k) {
                let x = choose|x: int| 0 <= x < t.len() && t[x] == k;
                assert(keys@[x] == keys@[j as int]);
            }
        }
        assert(write_ids(manual_writes@) =~= write_ids(manual_writes@).take(pm.len() as int) + ex);
        assert(write_ids(manual_writes@).contains(k) <==> (pm.contains(k) || ex.contains(k))) by {
            let m = write_ids(manual_writes@);
            if m.contains(k) {
                let x = choose|x: int| 0 <= x < m.len() && m[x] == k;
                if x < pm.len() {
                    assert(pm[x] == k);
                } else {
                    assert(ex[x - pm.len()] == k);
                }
            }
            if pm.contains(k) {
                let x = choose|x: int| 0 <= x < pm.len() && pm[x] == k;
                assert(m[x] == k);
            }
            if ex.contains(k) {
                let x = choose|x: int| 0 <= x < ex.len() && ex[x] == k;
                assert(m[x + pm.len()] == k);
            }
        }
        let ghost t0 = keys@.take(j as int);
        let ghost t1 = keys@.take(j + 1);
        assert(t1 =~= t0.push(k));
        assert(t1[j as int] == k);
        assert(values@.contains_key(k));
        assert(pa.contains(k) || pm.contains(k) <==> has_control(controls@, k));
        assert(ex.contains(k) ==> t0.contains(k));
        if !planned_auto && !planned_manual {
            assert(!has_control(controls@, k));
            let v = *values.get(&k).unwrap();
            let ghost before = manual_writes@;
            manual_writes.push((k, v));
            assert(write_ids(manual_writes@) =~= write_ids(before).push(k));
            assert(write_ids(manual_writes@).take(pm.len() as int) =~= write_ids(before).take(pm.len() as int));
            assert(write_ids(manual_writes@).skip(pm.len() as int) =~= ex.push(k));
            assert forall|q: u32| ex.push(k).contains(q) <==> (t1.contains(q) && !has_control(controls@, q)) by {
                assert(ex.contains(q) <==> (t0.contains(q) && !has_control(controls@, q)));
                if ex.push(k).contains(q) && q != k {
                    let x = choose|x: int| 0 <= x < ex.push(k).len() && ex.push(k)[x] == q;
                    assert(ex[x] == q);
                }
                if ex.contains(q) {
                    let x = choose|x: int| 0 <= x < ex.len() && ex[x] == q;
                    assert(ex.push(k)[x] == q);
                }
                if q == k {
                    assert(ex.push(k)[ex.len() as int] == k);
                }
                if t1.contains(q) && q != k {
                    let x = choose|x: int| 0 <= x < t1.len() && t1[x] == q;
                    assert(t0[x] == q);
                }
                if t0.contains(q) {
                    let x = choose|x: int| 0 <= x < t0.len() && t0[x] == q;
                    assert(t1[x] == q);
                }
            }
        } else {
            assert forall|q: u32| ex.contains(q) <==> (t1.contains(q) && !has_control(controls@, q)) by {
                assert(ex.contains(q) <==> (t0.contains(q) && !has_control(controls@, q)));
                if t1.contains(q) && q != k {
                    let x = choose|x: int| 0 <= x < t1.len() && t1[x] == q;
                    assert(t0[x] == q);
                }
                if t0.contains(q) {
                    let x = choose|x: int| 0 <= x < t0.len() && t0[x] == q;
                    assert(t1[x] == q);
                }
            }
        }
        j = j + 1;
    }
    let plan = ApplyPlan { auto_writes, manual_writes };
    proof {
        let ex = write_ids(plan.manual_writes@).skip(pm.len() as int);
        assert(keys@.take(keys@.len() as int) =~= keys@);
        assert(ex.to_set() =~= unlisted) by {
            assert forall|q: u32| ex.to_set().contains(q) <==> unlisted.contains(q) by {
                if keys@.contains(q) {
                    assert(keys@.to_set().contains(q));
                }
                if values@.dom().contains(q) {
                    assert(keys@.to_set().contains(q));
                }
            }
        }
    }
    proof {
        law_plan_writes_every_value(plan, values@, controls@);
    }
    plan
}

/// A plan writes every value it restores: each id of `values` is among
/// its writes.
pub proof fn law_plan_writes_every_value(plan: ApplyPlan, values: Map<u32, i64>, controls: Seq<CameraControl>)
    requires
        plans(plan, values, controls),
    ensures
        forall|k: u32|
            values.contains_key(k) ==> #[trigger] write_ids(plan.auto_writes@ + plan.manual_writes@).contains(k),
{
    let pa = planned_ids(values, controls, true, controls.len() as int);
    let pm = planned_ids(values, controls, false, controls.len() as int);
    lemma_planned_ids_members(values, controls, true, controls.len() as int);
    lemma_planned_ids_members(values, controls, false, controls.len() as int);
    let all = plan.auto_writes@ + plan.manual_writes@;
    let m = write_ids(plan.manual_writes@);
    let ex = m.skip(pm.len() as int);
    assert forall|k: u32| values.contains_key(k) implies #[trigger] write_ids(all).contains(k) by {
        assert(write_ids(all) =~= pa + m);
        if has_control(controls, k) {
            let i = choose|i: int| 0 <= i < controls.len() && (#[trigger] controls[i]).id == k;
            if is_auto_kind(controls[i].ctrl_type) {
                assert(pa.contains(k));
                let x = choose|x: int| 0 <= x < pa.len() && pa[x] == k;
                assert(write_ids(all)[x] == k);
            } else {
                assert(pm.contains(k));
                let x = choose|x: int| 0 <= x < pm.len() && pm[x] == k;
                assert(m.take(pm.len() as int)[x] == k);
                assert(write_ids(all)[pa.len() + x] == k);
            }
        } else {
            assert(values.dom().filter(|q: u32| !has_control(controls, q)).contains(k));
            assert(ex.to_set().contains(k));
            let x = choose|x: int| 0 <= x < ex.len() && ex[x] == k;
            assert(m[pm.len() + x] == k);
            assert(write_ids(all)[pa.len() + pm.len() + x] == k);
        }
    }
}

/// The messages of the failed manual writes, in order: a write refused
/// because its control is managed automatically is not a failure.
pub open spec fn failure_messages(results: Seq<Result<(), ControlError>>) -> Seq<Seq<char>>
    decreases results.len(),
{
    if results.len() == 0 {
        Seq::empty()
    } else {
        let p = failure_messages(results.drop_last());
        match results.last() {
            Err(e) => if permission_denied(e.errno) {
                p
            } else {
                p.push(e.message@)
            },
            Ok(_) => p,
        }
    }
}

/// The errors to report after the manual writes of a plan returned
/// `manual_results`, in order (the outcome of automatic-mode writes is never
/// reported).
pub fn apply_errors(manual_results: &[Result<(), ControlError>]) -> (errors: Vec<String>)
    ensures
        texts(errors@) == failure_messages(manual_results@),
{
    let mut errors: Vec<String> = Vec::new();
    let mut i: usize = 0;
    while i < manual_results.len()
        invariant
            i <= manual_results@.len(),
            texts(errors@) == failure_messages(manual_results@.take(i as int)),
        decreases manual_results@.len() - i,
    {
        assert(manual_results@.take(i + 1).drop_last() =~= manual_results@.take(i as int));
        let ghost before = errors@;
        match &manual_results[i] {
            Err(e) => {
                if !e.is_permission_denied() {
                    errors.push(e.message.clone());
                    assert(texts(errors@) =~= texts(before).push(e.message@));
                }
            },
            Ok(_) => {},
        }
        i = i + 1;
    }
    assert(manual_results@.take(i as int) =~= manual_results@);
    errors
}

} // verus!

verus! {

// ── Device discovery ────────────────────────────────────────────────────

/// "/dev/video{index}"
pub open spec fn video_device_path_text(index: u32) -> Seq<char> {
    seq!['/', 'd', 'e', 'v', '/', 'v', 'i', 'd', 'e', 'o'] + decimal(index as nat)
}

/// The device node of the video device with the given index.
pub fn video_device_path(index: u32) -> (path: String)
    ensures
        path@ == video_device_path_text(index),
{
    proof { reveal_strlit("/dev/video"); }
    let mut path = String::from_str("/dev/video");
    append_decimal(&mut path, index as u64);
    assert(path@ =~= video_device_path_text(index));
    path
}

/// Whether a device with these V4L2 capability bits captures video.
pub fn is_capture_device(capabilities: u32) -> (r: bool)
    ensures
        r == (capabilities & V4L2_CAP_VIDEO_CAPTURE == V4L2_CAP_VIDEO_CAPTURE),
{
    capabilities & V4L2_CAP_VIDEO_CAPTURE == V4L2_CAP_VIDEO_CAPTURE
}

/// USB attributes of the device a video node belongs to.
#[derive(Debug)]
pub struct UsbAttributes {
    pub vendor: Option<String>,
    pub product: Option<String>,
    pub serial: Option<String>,
}

/// A video4linux node as udev lists it: its name and, when it sits on a USB
/// device, that device's attributes.
#[derive(Debug)]
pub struct VideoNode {
    pub sysname: String,
    pub usb_device: Option<UsbAttributes>,
}

/// "0000"
pub open spec fn unknown_usb_id() -> Seq<char> {
    seq!['0', '0', '0', '0']
}

pub open spec fn or_unknown(s: Option<String>) -> Seq<char> {
    match s {
        Some(t) => t@,
        None => unknown_usb_id(),
    }
}

/// The node that identifies `dev_name`: the first with that name that sits
/// on a USB device.
pub open spec fn identifies(nodes: Seq<VideoNode>, dev_name: Seq<char>, i: int) -> bool {
    &&& 0 <= i < nodes.len()
    &&& nodes[i].sysname@ == dev_name
    &&& nodes[i].usb_device is Some
    &&& forall|j: int| 0 <= j < i ==> !(#[trigger] nodes[j].sysname@ == dev_name && nodes[j].usb_device is Some)
}

/// `id` is the identity read for `dev_name` from `nodes`: the vendor,
/// product and serial of the USB device of the identifying node, with
/// `0000` for a missing vendor or product; `0000:0000` with no serial when
/// no node identifies it.
pub open spec fn usb_identity_of(id: CameraId, nodes: Seq<VideoNode>, dev_name: Seq<char>) -> bool {
    if exists|i: int| identifies(nodes, dev_name, i) {
        let i = choose|i: int| identifies(nodes, dev_name, i);
        let usb = nodes[i].usb_device->0;
        &&& id.vendor_id@ == or_unknown(usb.vendor)
        &&& id.product_id@ == or_unknown(usb.product)
        &&& opt_text(id.serial) == opt_text(usb.serial)
    } else {
        &&& id.vendor_id@ == unknown_usb_id()
        &&& id.product_id@ == unknown_usb_id()
        &&& id.serial is None
    }
}

fn text_or_unknown(s: Option<String>) -> (r: String)
    ensures
        r@ == or_unknown(s),
{
    match s {
        Some(t) => t,
        None => {
            proof { reveal_strlit("0000"); }
            let r = String::from_str("0000");
            assert(r@ =~= unknown_usb_id());
            r
        },
    }
}

/// The USB identity of the video node `dev_name`, from the video4linux
/// nodes udev lists.
pub fn read_usb_identity(dev_name: &str, nodes: Vec<VideoNode>) -> (id: CameraId)
    ensures
        usb_identity_of(id, nodes@, dev_name@),
{
    let ghost all = nodes@;
    let name = String::from_str(dev_name);
    let mut rest = nodes;
    let mut n: usize = 0;
    assert(all.len() == rest.len());
    while rest.len() > 0
        invariant
            rest@ == all.skip(n as int),
            n <= all.len(),
            all.len() <= usize::MAX,
            all == nodes@,
            name@ == dev_name@,
            forall|j: int| 0 <= j < n ==> !(#[trigger] all[j].sysname@ == dev_name@ && all[j].usb_device is Some),
        decreases rest.len(),
    {
        let node = rest.remove(0);
        assert(node == all[n as int]);
        if node.sysname == name {
            match node.usb_device {
                Some(usb) => {
                    assert(identifies(all, dev_name@, n as int));
                    let id = CameraId {
                        vendor_id: text_or_unknown(usb.vendor),
                        product_id: text_or_unknown(usb.product),
                        serial: usb.serial,
                    };
                    proof {
                        let i = choose|i: int| identifies(all, dev_name@, i);
                        if i < n {
                            assert(!(all[i].sysname@ == dev_name@ && all[i].usb_device is Some));
                        } else if i > n {
                            assert(!(all[n as int].sysname@ == dev_name@ && all[n as int].usb_device is Some));
                        }
                    }
                    return id;
                },
                None => {},
            }
        }
        n = n + 1;
        assert(rest@ =~= all.skip(n as int));
    }
    assert forall|i: int| !identifies(all, dev_name@, i) by {
        if 0 <= i < all.len() {
            assert(!(all[i].sysname@ == dev_name@ && all[i].usb_device is Some));
        }
    }
    proof { reveal_strlit("0000"); }
    let vendor_id = String::from_str("0000");
    let product_id = String::from_str("0000");
    assert(vendor_id@ =~= unknown_usb_id());
    assert(product_id@ =~= unknown_usb_id());
    CameraId { vendor_id, product_id, serial: None }
}

/// "{name} ({dev_path})"
pub open spec fn camera_label_text(name: Seq<char>, dev_path: Seq<char>) -> Seq<char> {
    name + seq![' ', '('] + dev_path + seq![')']
}

impl CameraInfo {
    /// The label of this camera in the device list.
    pub fn label(&self) -> (s: String)
        ensures
            s@ == camera_label_text(self.name@, self.dev_path@),
    {
        proof {
            reveal_strlit(" (");
            reveal_strlit(")");
        }
        let mut s = self.name.clone();
        s.append(" (");
        s.append(self.dev_path.as_str());
        s.append(")");
        assert(s@ =~= camera_label_text(self.name@, self.dev_path@));
        s
    }
}

// ── Formats ─────────────────────────────────────────────────────────────

/// A pixel format, resolution and frame rates a camera offers.
#[derive(Debug, Clone)]
pub struct FormatOption {
    /// The four character code of the pixel format.
    pub fourcc: [u8; 4],
    pub width: u32,
    pub height: u32,
    /// Frame intervals as (numerator, denominator) in seconds.
    pub framerates: Vec<(u32, u32)>,
}

/// A four character code as text, as v4l shows it: its bytes when they
/// are valid UTF-8, nothing otherwise.
pub open spec fn fourcc_text(fourcc: [u8; 4]) -> Seq<char> {
    if valid_utf8(fourcc@) {
        decode_utf8(fourcc@)
    } else {
        Seq::empty()
    }
}

/// The text of a four character code.
pub fn fourcc_name(fourcc: &[u8; 4]) -> (s: String)
    ensures
        s@ == fourcc_text(*fourcc),
{
    match utf8_text(fourcc.as_slice()) {
        Some(s) => s,
        None => String::new(),
    }
}

/// The frame sizes a camera announces for a pixel format.
#[derive(Debug, Clone, Copy)]
pub enum FrameSize {
    Discrete { width: u32, height: u32 },
    Stepwise { min_width: u32, max_width: u32, min_height: u32, max_height: u32 },
}

pub open spec fn fits(w: u32, h: u32, min_width: u32, max_width: u32, min_height: u32, max_height: u32) -> bool {
    min_width <= w <= max_width && min_height <= h <= max_height
}

pub open spec fn if_fits(w: u32, h: u32, min_width: u32, max_width: u32, min_height: u32, max_height: u32) -> Seq<(u32, u32)> {
    if fits(w, h, min_width, max_width, min_height, max_height) {
        seq![(w, h)]
    } else {
        Seq::empty()
    }
}

/// The sizes offered for a frame size: a discrete size itself; of a
/// stepwise range, the common sizes 640x480, 1280x720, 1920x1080,
/// 2560x1440 and 3840x2160 that lie in it, in that order.
pub open spec fn candidate_sizes_of(size: FrameSize) -> Seq<(u32, u32)> {
    match size {
        FrameSize::Discrete { width, height } => seq![(width, height)],
        FrameSize::Stepwise { min_width, max_width, min_height, max_height } =>
            if_fits(640, 480, min_width, max_width, min_height, max_height)
            + if_fits(1280, 720, min_width, max_width, min_height, max_height)
            + if_fits(1920, 1080, min_width, max_width, min_height, max_height)
            + if_fits(2560, 1440, min_width, max_width, min_height, max_height)
            + if_fits(3840, 2160, min_width, max_width, min_height, max_height),
    }
}

fn push_if_fits(sizes: &mut Vec<(u32, u32)>, w: u32, h: u32, min_width: u32, max_width: u32, min_height: u32, max_height: u32)
    ensures
        final(sizes)@ == old(sizes)@ + if_fits(w, h, min_width, max_width, min_height, max_height),
{
    if w >= min_width && w <= max_width && h >= min_height && h <= max_height {
        sizes.push((w, h));
    }
    assert(final(sizes)@ =~= old(sizes)@ + if_fits(w, h, min_width, max_width, min_height, max_height));
}

/// The sizes to offer for a frame size the camera announces.
pub fn candidate_sizes(size: &FrameSize) -> (sizes: Vec<(u32, u32)>)
    ensures
        sizes@ == candidate_sizes_of(*size),
{
    let mut sizes: Vec<(u32, u32)> = Vec::new();
    match *size {
        FrameSize::Discrete { width, height } => {
            sizes.push((width, height));
            assert(sizes@ =~= seq![(width, height)]);
        },
        FrameSize::Stepwise { min_width, max_width, min_height, max_height } => {
            push_if_fits(&mut sizes, 640, 480, min_width, max_width, min_height, max_height);
            push_if_fits(&mut sizes, 1280, 720, min_width, max_width, min_height, max_height);
            push_if_fits(&mut sizes, 1920, 1080, min_width, max_width, min_height, max_height);
            push_if_fits(&mut sizes, 2560, 1440, min_width, max_width, min_height, max_height);
            push_if_fits(&mut sizes, 3840, 2160, min_width, max_width, min_height, max_height);
            assert(sizes@ =~= candidate_sizes_of(*size));
        },
    }
    sizes
}

proof fn lemma_offer_if_fits(
    a: Seq<(u32, u32)>,
    w: u32,
    h: u32,
    min_width: u32,
    max_width: u32,
    min_height: u32,
    max_height: u32,
)
    requires
        forall|i: int| 0 <= i < a.len() ==> (#[trigger] a[i]).0 < w,
        forall|i: int, j: int| 0 <= i < j < a.len() ==> (#[trigger] a[i]).0 < (#[trigger] a[j]).0,
    ensures
        ({
            let b = a + if_fits(w, h, min_width, max_width, min_height, max_height);
            &&& forall|x: (u32, u32)|
                #[trigger] b.contains(x) <==> (a.contains(x) || (x == (w, h) && min_width <= w <= max_width
                    && min_height <= h <= max_height))
            &&& forall|i: int| 0 <= i < b.len() ==> (#[trigger] b[i]).0 <= w
            &&& forall|i: int, j: int| 0 <= i < j < b.len() ==> (#[trigger] b[i]).0 < (#[trigger] b[j]).0
        }),
{
    let b = a + if_fits(w, h, min_width, max_width, min_height, max_height);
    if fits(w, h, min_width, max_width, min_height, max_height) {
        assert(b =~= a.push((w, h)));
        assert forall|x: (u32, u32)| #[trigger] b.contains(x) <==> (a.contains(x) || x == (w, h)) by {
            if b.contains(x) {
                let k = choose|k: int| 0 <= k < b.len() && b[k] == x;
                if k < a.len() {
                    assert(a[k] == x);
                }
            }
            if a.contains(x) {
                let k = choose|k: int| 0 <= k < a.len() && a[k] == x;
                assert(b[k] == x);
            }
            if x == (w, h) {
                assert(b[a.len() as int] == x);
            }
        }
    } else {
        assert(b =~= a);
    }
}

/// Of a stepwise range, the sizes offered are exactly those of 640x480,
/// 1280x720, 1920x1080, 2560x1440 and 3840x2160 whose width lies in the
/// width range and whose height lies in the height range, each once, from
/// the narrowest to the widest.
pub proof fn law_stepwise_offers_fitting_common_sizes(min_width: u32, max_width: u32, min_height: u32, max_height: u32)
    ensures
        ({
            let offered = candidate_sizes_of(FrameSize::Stepwise { min_width, max_width, min_height, max_height });
            &&& forall|w: u32, h: u32|
                #[trigger] offered.contains((w, h)) <==> (((w == 640 && h == 480) || (w == 1280 && h == 720)
                    || (w == 1920 && h == 1080) || (w == 2560 && h == 1440) || (w == 3840 && h == 2160))
                    && min_width <= w && w <= max_width && min_height <= h && h <= max_height)
            &&& forall|i: int, j: int| 0 <= i < j < offered.len() ==> (#[trigger] offered[i]).0 < (#[trigger] offered[j]).0
        }),
{
    let e = Seq::<(u32, u32)>::empty();
    let s1 = if_fits(640, 480, min_width, max_width, min_height, max_height);
    assert(e + s1 =~= s1);
    lemma_offer_if_fits(e, 640, 480, min_width, max_width, min_height, max_height);
    let s2 = s1 + if_fits(1280, 720, min_width, max_width, min_height, max_height);
    lemma_offer_if_fits(s1, 1280, 720, min_width, max_width, min_height, max_height);
    let s3 = s2 + if_fits(1920, 1080, min_width, max_width, min_height, max_height);
    lemma_offer_if_fits(s2, 1920, 1080, min_width, max_width, min_height, max_height);
    let s4 = s3 + if_fits(2560, 1440, min_width, max_width, min_height, max_height);
    lemma_offer_if_fits(s3, 2560, 1440, min_width, max_width, min_height, max_height);
    let s5 = s4 + if_fits(3840, 2160, min_width, max_width, min_height, max_height);
    lemma_offer_if_fits(s4, 3840, 2160, min_width, max_width, min_height, max_height);
    assert(s5 == candidate_sizes_of(FrameSize::Stepwise { min_width, max_width, min_height, max_height }));
    assert forall|w: u32, h: u32|
        #[trigger] s5.contains((w, h)) <==> (((w == 640 && h == 480) || (w == 1280 && h == 720)
            || (w == 1920 && h == 1080) || (w == 2560 && h == 1440) || (w == 3840 && h == 2160))
            && min_width <= w && w <= max_width && min_height <= h && h <= max_height) by {
        assert(s5.contains((w, h)) <==> (s4.contains((w, h)) || ((w, h) == (3840u32, 2160u32) && min_width <= 3840 <= max_width && min_height <= 2160 <= max_height)));
        assert(s4.contains((w, h)) <==> (s3.contains((w, h)) || ((w, h) == (2560u32, 1440u32) && min_width <= 2560 <= max_width && min_height <= 1440 <= max_height)));
        assert(s3.contains((w, h)) <==> (s2.contains((w, h)) || ((w, h) == (1920u32, 1080u32) && min_width <= 1920 <= max_width && min_height <= 1080 <= max_height)));
        assert(s2.contains((w, h)) <==> (s1.contains((w, h)) || ((w, h) == (1280u32, 720u32) && min_width <= 1280 <= max_width && min_height <= 720 <= max_height)));
        assert((e + s1).contains((w, h)) <==> (e.contains((w, h)) || ((w, h) == (640u32, 480u32) && min_width <= 640 <= max_width && min_height <= 480 <= max_height)));
    }
}

/// The sizes to offer for the frame sizes announced for a pixel format,
/// in the order announced.
pub open spec fn sizes_of(sizes: Seq<FrameSize>) -> Seq<(u32, u32)>
    decreases sizes.len(),
{
    if sizes.len() == 0 {
        Seq::empty()
    } else {
        sizes_of(sizes.drop_last()) + candidate_sizes_of(sizes.last())
    }
}

/// Each size paired with a pixel format.
pub open spec fn with_format(fourcc: [u8; 4], sizes: Seq<(u32, u32)>) -> Seq<([u8; 4], u32, u32)> {
    sizes.map_values(|s: (u32, u32)| (fourcc, s.0, s.1))
}

/// The (format, width, height) choices to offer, from the pixel formats a
/// camera announces, each with its frame sizes, or `None` where they could
/// not be read (such a format is left out): in the order announced.
pub open spec fn format_choices_of(formats: Seq<([u8; 4], Option<Vec<FrameSize>>)>) -> Seq<([u8; 4], u32, u32)>
    decreases formats.len(),
{
    if formats.len() == 0 {
        Seq::empty()
    } else {
        format_choices_of(formats.drop_last()) + match formats.last().1 {
            Some(sizes) => with_format(formats.last().0, sizes_of(sizes@)),
            None => Seq::empty(),
        }
    }
}

/// The sizes to offer for the frame sizes announced for a pixel format.
pub fn format_sizes(sizes: &Vec<FrameSize>) -> (r: Vec<(u32, u32)>)
    ensures
        r@ == sizes_of(sizes@),
{
    let mut r: Vec<(u32, u32)> = Vec::new();
    let mut i: usize = 0;
    while i < sizes.len()
        invariant
            i <= sizes@.len(),
            r@ == sizes_of(sizes@.take(i as int)),
        decreases sizes@.len() - i,
    {
        assert(sizes@.take(i + 1).drop_last() =~= sizes@.take(i as int));
        let c = candidate_sizes(&sizes[i]);
        let mut k: usize = 0;
        let ghost before = r@;
        while k < c.len()
            invariant
                k <= c@.len(),
                r@ == before + c@.take(k as int),
            decreases c@.len() - k,
        {
            r.push(c[k]);
            assert(c@.take(k + 1) =~= c@.take(k as int).push(c@[k as int]));
            assert(r@ =~= before + c@.take(k + 1));
            k = k + 1;
        }
        assert(c@.take(k as int) =~= c@);
        i = i + 1;
    }
    assert(sizes@.take(i as int) =~= sizes@);
    r
}

fn push_with_format(choices: &mut Vec<([u8; 4], u32, u32)>, fourcc: [u8; 4], sizes: &Vec<(u32, u32)>)
    ensures
        final(choices)@ == old(choices)@ + with_format(fourcc, sizes@),
{
    let ghost before = choices@;
    let mut k: usize = 0;
    while k < sizes.len()
        invariant
            k <= sizes@.len(),
            choices@ == before + with_format(fourcc, sizes@.take(k as int)),
        decreases sizes@.len() - k,
    {
        let (w, h) = sizes[k];
        choices.push((fourcc, w, h));
        assert(with_format(fourcc, sizes@.take(k + 1)) =~= with_format(fourcc, sizes@.take(k as int)).push(
            (fourcc, w, h),
        ));
        assert(choices@ =~= before + with_format(fourcc, sizes@.take(k + 1)));
        k = k + 1;
    }
    assert(sizes@.take(k as int) =~= sizes@);
}

/// The (format, width, height) choices to offer, from the pixel formats a
/// camera announces with their frame sizes (`None` where those could not be
/// read). The frame rates of each choice are asked of the camera after.
pub fn format_choices(formats: &Vec<([u8; 4], Option<Vec<FrameSize>>)>) -> (r: Vec<([u8; 4], u32, u32)>)
    ensures
        r@ == format_choices_of(formats@),
{
    let mut r: Vec<([u8; 4], u32, u32)> = Vec::new();
    let mut i: usize = 0;
    while i < formats.len()
        invariant
            i <= formats@.len(),
            r@ == format_choices_of(formats@.take(i as int)),
        decreases formats@.len() - i,
    {
        assert(formats@.take(i + 1).drop_last() =~= formats@.take(i as int));
        assert(formats@.take(i + 1).last() == formats@[i as int]);
        match &formats[i].1 {
            Some(sizes) => {
                let offered = format_sizes(sizes);
                push_with_format(&mut r, formats[i].0, &offered);
            },
            None => {
                assert(r@ =~= r@ + Seq::<([u8; 4], u32, u32)>::empty());
            },
        }
        i = i + 1;
    }
    assert(formats@.take(i as int) =~= formats@);
    r
}

/// The discrete frame intervals among the ones a camera announces
/// (`None` stands for an interval given as a range), in order.
pub open spec fn discrete_intervals(intervals: Seq<Option<(u32, u32)>>) -> Seq<(u32, u32)>
    decreases intervals.len(),
{
    if intervals.len() == 0 {
        Seq::empty()
    } else {
        let p = discrete_intervals(intervals.drop_last());
        match intervals.last() {
            Some(r) => p.push(r),
            None => p,
        }
    }
}

/// The frame rates to offer for a size, from the frame intervals the camera
/// announces for it.
pub fn enum_framerates(intervals: &[Option<(u32, u32)>]) -> (rates: Vec<(u32, u32)>)
    ensures
        rates@ == discrete_intervals(intervals@),
{
    let mut rates: Vec<(u32, u32)> = Vec::new();
    let mut i: usize = 0;
    while i < intervals.len()
        invariant
            i <= intervals@.len(),
            rates@ == discrete_intervals(intervals@.take(i as int)),
        decreases intervals@.len() - i,
    {
        assert(intervals@.take(i + 1).drop_last() =~= intervals@.take(i as int));
        match intervals[i] {
            Some(r) => rates.push(r),
            None => {},
        }
        i = i + 1;
    }
    assert(intervals@.take(i as int) =~= intervals@);
    rates
}

/// " @ {den / num}fps" for a first frame interval with a non-zero
/// numerator, nothing otherwise.
pub open spec fn fps_suffix(rates: Seq<(u32, u32)>) -> Seq<char> {
    if rates.len() > 0 && rates[0].0 > 0 {
        seq![' ', '@', ' '] + decimal((rates[0].1 / rates[0].0) as nat) + seq!['f', 'p', 's']
    } else {
        Seq::empty()
    }
}

/// "{fourcc} {width}x{height}{fps}"
pub open spec fn format_label_text(f: FormatOption) -> Seq<char> {
    fourcc_text(f.fourcc) + seq![' '] + decimal(f.width as nat) + seq!['x'] + decimal(f.height as nat)
        + fps_suffix(f.framerates@)
}

impl FormatOption {
    /// The label of this format in the format list.
    pub fn label(&self) -> (s: String)
        ensures
            s@ == format_label_text(*self),
    {
        proof {
            reveal_strlit(" ");
            reveal_strlit("x");
            reveal_strlit(" @ ");
            reveal_strlit("fps");
        }
        let mut s = fourcc_name(&self.fourcc);
        s.append(" ");
        append_decimal(&mut s, self.width as u64);
        s.append("x");
        append_decimal(&mut s, self.height as u64);
        let ghost before = s@;
        if self.framerates.len() > 0 {
            let (n, d) = self.framerates[0];
            if n > 0 {
                s.append(" @ ");
                append_decimal(&mut s, (d / n) as u64);
                s.append("fps");
            }
        }
        assert(s@ =~= before + fps_suffix(self.framerates@));
        assert(s@ =~= format_label_text(*self));
        s
    }
}

} // verus!
