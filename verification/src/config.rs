//! Saved settings: one profile per camera, keyed by the camera's identity.
use std::collections::HashMap;
use vstd::prelude::*;
use crate::camera::{fourcc_name, fourcc_text, FormatOption};
use crate::text::{decimal, decimal_u32_value, lemma_decimal_injective, lemma_decimal_u32_roundtrip, parse_u32, u64_text};

verus! {

broadcast use vstd::std_specs::hash::group_hash_axioms;

/// Saved format selection.
#[derive(Debug, Clone)]
pub struct SavedFormat {
    pub fourcc: String,
    pub width: u32,
    pub height: u32,
    pub framerate_num: u32,
    pub framerate_den: u32,
}

/// Saved settings for a single camera.
#[derive(Debug, Clone)]
pub struct CameraProfile {
    pub name: String,
    /// Control values keyed by control id written in decimal.
    pub controls: Vec<(String, i64)>,
    /// Saved format selection.
    pub format: Option<SavedFormat>,
}

/// Top-level config: camera profile keys with their saved settings. When a
/// key occurs more than once, its first entry is the one that counts.
#[derive(Debug)]
pub struct Config {
    pub cameras: Vec<(String, CameraProfile)>,
}

/// The profile stored under `key`: the first entry with that key.
pub open spec fn lookup(entries: Seq<(String, CameraProfile)>, key: Seq<char>) -> Option<CameraProfile>
    decreases entries.len(),
{
    if entries.len() == 0 {
        None
    } else if entries[0].0@ == key {
        Some(entries[0].1)
    } else {
        lookup(entries.drop_first(), key)
    }
}

proof fn lemma_lookup_skip(entries: Seq<(String, CameraProfile)>, key: Seq<char>, i: int)
    requires
        0 <= i <= entries.len(),
        forall|j: int| 0 <= j < i ==> (#[trigger] entries[j]).0@ != key,
    ensures
        lookup(entries, key) == lookup(entries.skip(i), key),
    decreases i,
{
    if i > 0 {
        assert(entries.drop_first().skip(i - 1) =~= entries.skip(i));
        assert forall|j: int| 0 <= j < i - 1 implies (#[trigger] entries.drop_first()[j]).0@ != key by {
            assert(entries.drop_first()[j] == entries[j + 1]);
        }
        lemma_lookup_skip(entries.drop_first(), key, i - 1);
        assert(entries[0].0@ != key);
    } else {
        assert(entries.skip(0) =~= entries);
    }
}

proof fn lemma_lookup_update(entries: Seq<(String, CameraProfile)>, i: int, e: (String, CameraProfile), key: Seq<char>)
    requires
        0 <= i < entries.len(),
        entries[i].0@ == e.0@,
        forall|j: int| 0 <= j < i ==> (#[trigger] entries[j]).0@ != e.0@,
    ensures
        lookup(entries.update(i, e), key) == if key == e.0@ {
            Some(e.1)
        } else {
            lookup(entries, key)
        },
    decreases i,
{
    let u = entries.update(i, e);
    if i == 0 {
        assert(u.drop_first() =~= entries.drop_first());
    } else {
        assert(u.drop_first() =~= entries.drop_first().update(i - 1, e));
        assert forall|j: int| 0 <= j < i - 1 implies (#[trigger] entries.drop_first()[j]).0@ != e.0@ by {
            assert(entries.drop_first()[j] == entries[j + 1]);
        }
        lemma_lookup_update(entries.drop_first(), i - 1, e, key);
        assert(entries[0].0@ != e.0@);
    }
}

proof fn lemma_lookup_push(entries: Seq<(String, CameraProfile)>, e: (String, CameraProfile), key: Seq<char>)
    requires
        lookup(entries, e.0@) is None,
    ensures
        lookup(entries.push(e), key) == if key == e.0@ {
            Some(e.1)
        } else {
            lookup(entries, key)
        },
    decreases entries.len(),
{
    reveal_with_fuel(lookup, 2);
    if entries.len() == 0 {
        assert(entries.push(e).drop_first() =~= Seq::<(String, CameraProfile)>::empty());
        assert(entries.push(e)[0] == e);
    } else {
        assert(entries.push(e).drop_first() =~= entries.drop_first().push(e));
        assert(entries.push(e)[0] == entries[0]);
        assert(entries[0].0@ != e.0@);
        lemma_lookup_push(entries.drop_first(), e, key);
    }
}

impl Config {
    /// The profile saved for `key`.
    pub open spec fn profile(&self, key: Seq<char>) -> Option<CameraProfile> {
        lookup(self.cameras@, key)
    }

    /// A config with no profile.
    pub fn new() -> (c: Config)
        ensures
            c.cameras@.len() == 0,
            forall|k: Seq<char>| c.profile(k) is None,
    {
        Config { cameras: Vec::new() }
    }

    /// Get saved profile for a camera by its identity key.
    pub fn get_profile(&self, key: &str) -> (r: Option<&CameraProfile>)
        ensures
            match r {
                Some(p) => self.profile(key@) == Some(*p),
                None => self.profile(key@) is None,
            },
    {
        let wanted = String::from_str(key);
        let mut i: usize = 0;
        while i < self.cameras.len()
            invariant
                i <= self.cameras@.len(),
                wanted@ == key@,
                forall|j: int| 0 <= j < i ==> (#[trigger] self.cameras@[j]).0@ != key@,
            decreases self.cameras@.len() - i,
        {
            if self.cameras[i].0 == wanted {
                proof {
                    lemma_lookup_skip(self.cameras@, key@, i as int);
                    assert(self.cameras@.skip(i as int)[0] == self.cameras@[i as int]);
                }
                return Some(&self.cameras[i].1);
            }
            i = i + 1;
        }
        proof {
            lemma_lookup_skip(self.cameras@, key@, i as int);
            assert(self.cameras@.skip(i as int).len() == 0);
        }
        None
    }

    /// Save/update profile for a camera: afterwards `key` gives `profile` and
    /// every other key gives what it gave before. A new key adds one entry;
    /// a known key keeps the number of entries.
    pub fn set_profile(&mut self, key: String, profile: CameraProfile)
        ensures
            final(self).cameras@.len() == old(self).cameras@.len() + (if old(self).profile(key@) is Some {
                0int
            } else {
                1int
            }),
            forall|k: Seq<char>|
                #[trigger] final(self).profile(k) == if k == key@ {
                    Some(profile)
                } else {
                    old(self).profile(k)
                },
    {
        let ghost entry = (key, profile);
        let mut i: usize = 0;
        while i < self.cameras.len()
            invariant
                i <= self.cameras@.len(),
                self.cameras@ == old(self).cameras@,
                entry == (key, profile),
                forall|j: int| 0 <= j < i ==> (#[trigger] self.cameras@[j]).0@ != key@,
            decreases self.cameras@.len() - i,
        {
            if self.cameras[i].0 == key {
                proof {
                    lemma_lookup_skip(self.cameras@, key@, i as int);
                    assert(self.cameras@.skip(i as int)[0] == self.cameras@[i as int]);
                    assert forall|k: Seq<char>|
                        lookup(self.cameras@.update(i as int, entry), k) == if k == key@ {
                            Some(profile)
                        } else {
                            lookup(self.cameras@, k)
                        } by {
                        lemma_lookup_update(self.cameras@, i as int, entry, k);
                    }
                }
                self.cameras.set(i, (key, profile));
                return;
            }
            i = i + 1;
        }
        proof {
            lemma_lookup_skip(self.cameras@, key@, i as int);
            assert(self.cameras@.skip(i as int).len() == 0);
            assert forall|k: Seq<char>|
                lookup(self.cameras@.push(entry), k) == if k == key@ {
                    Some(profile)
                } else {
                    lookup(self.cameras@, k)
                } by {
                lemma_lookup_push(self.cameras@, entry, k);
            }
        }
        self.cameras.push((key, profile));
    }
}

impl Default for Config {
    fn default() -> (c: Config)
        ensures
            c.cameras@.len() == 0,
    {
        Config::new()
    }
}

// ── Control values in a profile ─────────────────────────────────────────

/// The control values the first `n` saved entries restore: entries whose key
/// is not a `u32` in decimal are skipped, and a later entry for the same id
/// overrides an earlier one.
pub open spec fn restored_map(entries: Seq<(String, i64)>, n: int) -> Map<u32, i64>
    decreases n,
{
    if n <= 0 {
        Map::empty()
    } else {
        let m = restored_map(entries, n - 1);
        match decimal_u32_value(entries[n - 1].0@) {
            Some(id) => m.insert(id, entries[n - 1].1),
            None => m,
        }
    }
}

/// `e` saves an id of `values`: its key is the id in decimal and its value
/// the id's value.
pub open spec fn saved_entry(e: (String, i64), values: Map<u32, i64>) -> bool {
    match decimal_u32_value(e.0@) {
        Some(k) => values.contains_key(k) && e.0@ == decimal(k as nat) && e.1 == values[k],
        None => false,
    }
}

/// `entries` is a saved form of `values`: one entry per id, keyed by the
/// id in decimal, holding the id's value, in any order.
pub open spec fn saves(entries: Seq<(String, i64)>, values: Map<u32, i64>) -> bool {
    &&& forall|i: int| 0 <= i < entries.len() ==> #[trigger] saved_entry(entries[i], values)
    &&& forall|k: u32|
        #![trigger values.contains_key(k)]
        values.contains_key(k) ==> exists|i: int|
            #![trigger entries[i]]
            0 <= i < entries.len() && entries[i].0@ == decimal(k as nat)
    &&& forall|i: int, j: int|
        0 <= i < entries.len() && 0 <= j < entries.len() && i != j ==> (#[trigger] entries[i]).0@
            != (#[trigger] entries[j]).0@
}

impl CameraProfile {
    /// The control values this profile restores.
    pub fn control_values(&self) -> (values: HashMap<u32, i64>)
        ensures
            values@ == restored_map(self.controls@, self.controls@.len() as int),
    {
        let mut values: HashMap<u32, i64> = HashMap::new();
        let mut i: usize = 0;
        while i < self.controls.len()
            invariant
                i <= self.controls@.len(),
                values@ == restored_map(self.controls@, i as int),
            decreases self.controls@.len() - i,
        {
            match parse_u32(self.controls[i].0.as_str()) {
                Some(id) => {
                    values.insert(id, self.controls[i].1);
                },
                None => {},
            }
            i = i + 1;
        }
        values
    }
}

proof fn lemma_saves(entries: Seq<(String, i64)>, keys: Seq<u32>, values: Map<u32, i64>)
    requires
        keys.no_duplicates(),
        keys.to_set() == values.dom(),
        entries.len() == keys.len(),
        forall|j: int|
            0 <= j < keys.len() ==> (#[trigger] entries[j]).0@ == decimal(keys[j] as nat) && entries[j].1
                == values[keys[j]],
    ensures
        saves(entries, values),
{
    assert forall|j: int| 0 <= j < entries.len() implies #[trigger] saved_entry(entries[j], values) by {
        assert(keys.to_set().contains(keys[j]));
        assert(entries[j].0@ == decimal(keys[j] as nat));
        lemma_decimal_u32_roundtrip(keys[j]);
    }
    assert forall|k: u32| #![trigger values.contains_key(k)] values.contains_key(k) implies exists|j: int|
        #![trigger entries[j]]
        0 <= j < entries.len() && entries[j].0@ == decimal(k as nat) by {
        assert(keys.to_set().contains(k));
        let j = choose|j: int| 0 <= j < keys.len() && keys[j] == k;
        assert(entries[j].0@ == decimal(k as nat));
    }
    assert forall|a: int, b: int|
        0 <= a < entries.len() && 0 <= b < entries.len() && a != b implies (#[trigger] entries[a]).0@
            != (#[trigger] entries[b]).0@ by {
        if entries[a].0@ == entries[b].0@ {
            lemma_decimal_injective(keys[a] as nat, keys[b] as nat);
        }
    }
}

/// The saved form of a camera's control values.
pub fn profile_controls(values: &HashMap<u32, i64>) -> (entries: Vec<(String, i64)>)
    ensures
        saves(entries@, values@),
{
    let keys = crate::camera::map_keys(values);
    let mut entries: Vec<(String, i64)> = Vec::new();
    let mut i: usize = 0;
    while i < keys.len()
        invariant
            i <= keys@.len(),
            keys@.no_duplicates(),
            keys@.to_set() == values@.dom(),
            entries@.len() == i,
            forall|j: int|
                0 <= j < i ==> (#[trigger] entries@[j]).0@ == decimal(keys@[j] as nat) && entries@[j].1
                    == values@[keys@[j]],
        decreases keys@.len() - i,
    {
        let k = keys[i];
        assert(keys@.to_set().contains(k));
        let v = *values.get(&k).unwrap();
        entries.push((u64_text(k as u64), v));
        i = i + 1;
    }
    proof {
        lemma_saves(entries@, keys@, values@);
    }
    entries
}

/// The ids that the first `n` entries save, read back.
spec fn saved_ids(entries: Seq<(String, i64)>, n: int) -> Set<u32> {
    Set::new(|k: u32| exists|i: int| #![trigger entries[i]] 0 <= i < n && entries[i].0@ == decimal(k as nat))
}

proof fn lemma_restored_prefix(entries: Seq<(String, i64)>, values: Map<u32, i64>, n: int)
    requires
        0 <= n <= entries.len(),
        saves(entries, values),
    ensures
        restored_map(entries, n) == values.restrict(saved_ids(entries, n)),
    decreases n,
{
    if n > 0 {
        lemma_restored_prefix(entries, values, n - 1);
        let e = entries[n - 1];
        assert(saved_entry(entries[n - 1], values));
        let k = decimal_u32_value(e.0@)->0;
        lemma_decimal_u32_roundtrip(k);
        assert forall|q: u32| saved_ids(entries, n).contains(q) <==> (saved_ids(entries, n - 1).contains(q) || q == k) by {
            if saved_ids(entries, n).contains(q) {
                let i = choose|i: int| #![trigger entries[i]] 0 <= i < n && entries[i].0@ == decimal(q as nat);
                if i == n - 1 {
                    lemma_decimal_injective(q as nat, k as nat);
                }
            }
        }
        assert forall|q: u32| #[trigger] saved_ids(entries, n).contains(q) implies values.contains_key(q) by {
            let i = choose|i: int| #![trigger entries[i]] 0 <= i < n && entries[i].0@ == decimal(q as nat);
            assert(saved_entry(entries[i], values));
            let kk = decimal_u32_value(entries[i].0@)->0;
            lemma_decimal_injective(q as nat, kk as nat);
        }
        assert(restored_map(entries, n) =~= values.restrict(saved_ids(entries, n)));
    } else {
        assert(restored_map(entries, n) =~= values.restrict(saved_ids(entries, n)));
    }
}

/// Restoring the saved form of control values gives back those values.
pub proof fn law_saved_controls_restore(entries: Seq<(String, i64)>, values: Map<u32, i64>)
    requires
        saves(entries, values),
    ensures
        restored_map(entries, entries.len() as int) == values,
{
    lemma_restored_prefix(entries, values, entries.len() as int);
    assert forall|k: u32| values.contains_key(k) implies #[trigger] saved_ids(entries, entries.len() as int).contains(k) by {
        let i = choose|i: int| #![trigger entries[i]] 0 <= i < entries.len() && entries[i].0@ == decimal(k as nat);
        assert(entries[i].0@ == decimal(k as nat));
    }
    assert forall|k: u32| #[trigger] saved_ids(entries, entries.len() as int).contains(k) implies values.contains_key(k) by {
        let i = choose|i: int| #![trigger entries[i]] 0 <= i < entries.len() && entries[i].0@ == decimal(k as nat);
        assert(saved_entry(entries[i], values));
        let kk = decimal_u32_value(entries[i].0@)->0;
        lemma_decimal_injective(k as nat, kk as nat);
    }
    assert(values.restrict(saved_ids(entries, entries.len() as int)) =~= values);
}

// ── Saved format ────────────────────────────────────────────────────────

/// `s` saves the format `f`: its code, its size, and its first frame
/// interval (1/30 when it announces none).
pub open spec fn saves_format(s: SavedFormat, f: FormatOption) -> bool {
    &&& s.fourcc@ == fourcc_text(f.fourcc)
    &&& s.width == f.width
    &&& s.height == f.height
    &&& s.framerate_num == if f.framerates@.len() > 0 { f.framerates@[0].0 } else { 1 }
    &&& s.framerate_den == if f.framerates@.len() > 0 { f.framerates@[0].1 } else { 30 }
}

impl SavedFormat {
    /// The saved form of a format selection.
    pub fn of(f: &FormatOption) -> (s: SavedFormat)
        ensures
            saves_format(s, *f),
    {
        let (num, den) = if f.framerates.len() > 0 {
            f.framerates[0]
        } else {
            (1, 30)
        };
        SavedFormat {
            fourcc: fourcc_name(&f.fourcc),
            width: f.width,
            height: f.height,
            framerate_num: num,
            framerate_den: den,
        }
    }
}

} // verus!
