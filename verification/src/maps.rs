//! Instrument-keyed tables. Each one keeps the ahash-hashed `HashMap` that the
//! user interface shares with egui; Verus sees only the map it holds.

use ahash::HashMap;
use vstd::prelude::*;

verus! {

/// Per-instrument on/off flags (mute or solo), keyed by instrument name.
#[verifier::external_body]
pub struct FlagMap {
    inner: HashMap<String, bool>,
}

/// What a `FlagMap` holds: instrument name to flag.
pub uninterp spec fn flag_map_contents(m: FlagMap) -> Map<Seq<char>, bool>;

impl View for FlagMap {
    type V = Map<Seq<char>, bool>;

    open spec fn view(&self) -> Map<Seq<char>, bool> {
        flag_map_contents(*self)
    }
}

impl FlagMap {
    /// `HashMap::default` (with ahash's `RandomState`): a map with no entry.
    #[verifier::external_body]
    pub(crate) fn new() -> (m: FlagMap)
        ensures
            flag_map_contents(m).dom() == Set::<Seq<char>>::empty(),
    {
        FlagMap { inner: HashMap::default() }
    }

    /// `HashMap::get`, copied out: the flag stored under `key`, if any.
    #[verifier::external_body]
    pub(crate) fn get(&self, key: &str) -> (r: Option<bool>)
        ensures
            r == (if flag_map_contents(*self).contains_key(key@) {
                Some(flag_map_contents(*self)[key@])
            } else {
                None
            }),
    {
        self.inner.get(key).copied()
    }

    /// `HashMap::insert`: `key` now maps to `value`, every other entry is kept.
    #[verifier::external_body]
    pub(crate) fn insert(&mut self, key: String, value: bool)
        ensures
            flag_map_contents(*final(self)) == flag_map_contents(*old(self)).insert(key@, value),
    {
        self.inner.insert(key, value);
    }

    /// `HashMap::keys`, cloned into a `Vec`: every name that has a flag, each
    /// once, in the map's iteration order (which this contract leaves open).
    #[verifier::external_body]
    pub(crate) fn keys(&self) -> (ks: Vec<String>)
        ensures
            ks@.map_values(|k: String| k@).no_duplicates(),
            ks@.map_values(|k: String| k@).to_set() == flag_map_contents(*self).dom(),
    {
        self.inner.keys().cloned().collect()
    }
}

/// The sixteen-step pattern of each instrument, keyed by instrument name.
#[verifier::external_body]
pub struct PatternMap {
    inner: HashMap<String, [bool; 16]>,
}

/// What a `PatternMap` holds: instrument name to its array of sixteen steps.
pub uninterp spec fn pattern_map_contents(m: PatternMap) -> Map<Seq<char>, [bool; 16]>;

impl View for PatternMap {
    type V = Map<Seq<char>, Seq<bool>>;

    /// Each pattern read as its sequence of steps.
    open spec fn view(&self) -> Map<Seq<char>, Seq<bool>> {
        pattern_map_contents(*self).map_values(|a: [bool; 16]| a@)
    }
}

/// Sixteen steps, all off.
pub open spec fn silent_pattern() -> Seq<bool> {
    Seq::new(16, |i: int| false)
}

impl PatternMap {
    /// `HashMap::default` (with ahash's `RandomState`): a map with no entry.
    #[verifier::external_body]
    pub(crate) fn new() -> (m: PatternMap)
        ensures
            pattern_map_contents(m).dom() == Set::<Seq<char>>::empty(),
    {
        PatternMap { inner: HashMap::default() }
    }

    /// `HashMap::get`, copied out: the pattern stored under `key`, if any.
    #[verifier::external_body]
    pub(crate) fn get(&self, key: &str) -> (r: Option<[bool; 16]>)
        ensures
            r == (if pattern_map_contents(*self).contains_key(key@) {
                Some(pattern_map_contents(*self)[key@])
            } else {
                None
            }),
    {
        self.inner.get(key).copied()
    }

    /// `HashMap::entry(key).or_insert(default)`: the pattern under `key`,
    /// which is `default` when there was none; whatever is written through
    /// the returned reference is what the map then holds under `key`.
    #[verifier::external_body]
    pub(crate) fn entry_or_insert(&mut self, key: String, default: [bool; 16]) -> (r: &mut [bool; 16])
        ensures
            *r == (if pattern_map_contents(*old(self)).contains_key(key@) {
                pattern_map_contents(*old(self))[key@]
            } else {
                default
            }),
            pattern_map_contents(*final(self)) == pattern_map_contents(*old(self)).insert(key@, *final(r)),
    {
        self.inner.entry(key).or_insert(default)
    }

    /// The pattern under `key`, created all off when there was none;
    /// whatever is written through the returned reference is what the map
    /// then holds under `key`.
    pub(crate) fn entry_or_silent(&mut self, key: String) -> (r: &mut [bool; 16])
        ensures
            r@ == (if old(self)@.contains_key(key@) {
                old(self)@[key@]
            } else {
                silent_pattern()
            }),
            final(self)@ == old(self)@.insert(key@, final(r)@),
    {
        let silent = [false; 16];
        assert(silent@ =~= silent_pattern());
        self.entry_or_insert(key, silent)
    }
}

/// The sample file chosen for each instrument, keyed by instrument name.
#[verifier::external_body]
pub struct SampleMap {
    inner: HashMap<String, String>,
}

/// What a `SampleMap` holds: instrument name to sample path.
pub uninterp spec fn sample_map_contents(m: SampleMap) -> Map<Seq<char>, Seq<char>>;

impl View for SampleMap {
    type V = Map<Seq<char>, Seq<char>>;

    open spec fn view(&self) -> Map<Seq<char>, Seq<char>> {
        sample_map_contents(*self)
    }
}

impl SampleMap {
    /// `HashMap::default` (with ahash's `RandomState`): a map with no entry.
    #[verifier::external_body]
    pub(crate) fn new() -> (m: SampleMap)
        ensures
            sample_map_contents(m).dom() == Set::<Seq<char>>::empty(),
    {
        SampleMap { inner: HashMap::default() }
    }

    /// `HashMap::get`, cloned out: the path stored under `key`, if any.
    #[verifier::external_body]
    pub(crate) fn get(&self, key: &str) -> (r: Option<String>)
        ensures
            r is Some <==> sample_map_contents(*self).contains_key(key@),
            r matches Some(p) ==> p@ == sample_map_contents(*self)[key@],
    {
        self.inner.get(key).cloned()
    }

    /// `HashMap::insert`: `key` now maps to `path`, every other entry is kept.
    #[verifier::external_body]
    pub(crate) fn insert(&mut self, key: String, path: String)
        ensures
            sample_map_contents(*final(self)) == sample_map_contents(*old(self)).insert(key@, path@),
    {
        self.inner.insert(key, path);
    }

    /// `HashMap::iter`, cloned into a `Vec`: every (name, path) entry, each
    /// name once, in the map's iteration order (which this contract leaves open).
    #[verifier::external_body]
    pub(crate) fn entries(&self) -> (es: Vec<(String, String)>)
        ensures
            es@.map_values(|e: (String, String)| e.0@).no_duplicates(),
            es@.map_values(|e: (String, String)| e.0@).to_set() == sample_map_contents(*self).dom(),
            forall|i: int| 0 <= i < es@.len() ==>
                sample_map_contents(*self)[#[trigger] es@[i].0@] == es@[i].1@,
    {
        self.inner.iter().map(|(k, v)| (k.clone(), v.clone())).collect()
    }
}

} // verus!
