//! The sequencer's state: which steps each instrument plays, which sample it
//! plays, the mute and solo switches, the selected track and the transport.

use crate::maps::{
    flag_map_contents, sample_map_contents, silent_pattern, FlagMap,
    PatternMap, SampleMap,
};
use vstd::prelude::*;

verus! {

/// The instruments that the groovebox offers, in the order it shows them.
pub const INSTRUMENTS: [&'static str; 5] = ["Kick", "Snare", "Open Hat", "Close Hat", "Clap"];

/// Steps in one bar of a pattern.
pub const STEPS: usize = 16;

/// The abstract state of the sequencer.
pub struct SequencerView {
    /// Instrument name to its steps (each pattern has `STEPS` entries).
    pub patterns: Map<Seq<char>, Seq<bool>>,
    /// Instrument name to the path of its sample.
    pub samples: Map<Seq<char>, Seq<char>>,
    /// Instrument name to its mute switch; a missing entry reads as off.
    pub mute: Map<Seq<char>, bool>,
    /// Instrument name to its solo switch; a missing entry reads as off.
    pub solo: Map<Seq<char>, bool>,
    /// The instrument whose pattern is being edited.
    pub selected: Option<Seq<char>>,
    /// Whether the transport runs.
    pub playing: bool,
    /// The step that sounded last.
    pub step: int,
}

/// A switch that is on only where the map says `true`.
pub open spec fn flag_on(m: Map<Seq<char>, bool>, k: Seq<char>) -> bool {
    m.contains_key(k) && m[k]
}

impl SequencerView {
    /// The step is within the bar and every pattern spans the whole bar.
    pub open spec fn wf(self) -> bool {
        &&& 0 <= self.step < STEPS
        &&& forall|k: Seq<char>| #[trigger] self.patterns.contains_key(k) ==> self.patterns[k].len() == STEPS
    }

    /// Some instrument is soloed.
    pub open spec fn any_solo(self) -> bool {
        exists|k: Seq<char>| flag_on(self.solo, k)
    }

    /// The mixing rule: an instrument is heard unless it is muted, or unless
    /// another instrument is soloed and it is not.
    pub open spec fn should_play(self, k: Seq<char>) -> bool {
        !flag_on(self.mute, k) && (flag_on(self.solo, k) || !self.any_solo())
    }

    /// The instrument sounds on the current step: it has a sample, a pattern
    /// whose current step is on, and the mixing rule lets it through.
    pub open spec fn fires(self, k: Seq<char>) -> bool {
        &&& self.samples.contains_key(k)
        &&& self.patterns.contains_key(k)
        &&& self.patterns[k][self.step]
        &&& self.should_play(k)
    }

    /// The pattern of `k`, or an all-off one where it has none yet.
    pub open spec fn pattern_or_silent(self, k: Seq<char>) -> Seq<bool> {
        if self.patterns.contains_key(k) {
            self.patterns[k]
        } else {
            silent_pattern()
        }
    }
}

impl SequencerView {
    /// One pass of the sequencer loop: a stopped transport rewinds to the
    /// first step; a running one moves to the next step (wrapping from the
    /// last step to the first) when a step is due, and otherwise waits.
    pub open spec fn after_tick(self, step_due: bool) -> SequencerView {
        if !self.playing {
            SequencerView { step: 0, ..self }
        } else if step_due {
            SequencerView { step: if self.step >= STEPS - 1 { 0 } else { self.step + 1 }, ..self }
        } else {
            self
        }
    }

    /// Flipping the mute switch of `k`; muting also takes `k` out of solo.
    pub open spec fn after_toggle_mute(self, k: Seq<char>) -> SequencerView {
        let on = !flag_on(self.mute, k);
        SequencerView {
            mute: self.mute.insert(k, on),
            solo: if on { self.solo.insert(k, false) } else { self.solo },
            ..self
        }
    }

    /// Flipping the solo switch of `k`; a solo that comes on is exclusive:
    /// every other instrument that has a solo switch has it turned off.
    pub open spec fn after_toggle_solo(self, k: Seq<char>) -> SequencerView {
        if flag_on(self.solo, k) {
            SequencerView { solo: self.solo.insert(k, false), ..self }
        } else {
            SequencerView {
                solo: Map::new(|j: Seq<char>| self.solo.dom().insert(k).contains(j), |j: Seq<char>| j == k),
                ..self
            }
        }
    }

    /// A sample file arrived for `k`: it becomes the sample of `k`, and `k`
    /// gets an all-off pattern unless it already has one.
    pub open spec fn after_receive_sample(self, k: Seq<char>, path: Seq<char>) -> SequencerView {
        SequencerView {
            samples: self.samples.insert(k, path),
            patterns: self.patterns.insert(k, self.pattern_or_silent(k)),
            ..self
        }
    }

    /// Flipping step `i` of the pattern of `k` (created all off if missing).
    pub open spec fn after_toggle_step(self, k: Seq<char>, i: int) -> SequencerView {
        let p = self.pattern_or_silent(k);
        SequencerView { patterns: self.patterns.insert(k, p.update(i, !p[i])), ..self }
    }
}

/// `k` names one of the first `n` instruments of `INSTRUMENTS`.
pub open spec fn among_first_instruments(k: Seq<char>, n: int) -> bool {
    exists|i: int| 0 <= i < n && i < INSTRUMENTS@.len() && k == #[trigger] INSTRUMENTS@[i]@
}

/// `k` names one of the groovebox's own instruments.
pub open spec fn is_instrument(k: Seq<char>) -> bool {
    among_first_instruments(k, INSTRUMENTS@.len() as int)
}

/// The state of a freshly started groovebox: every instrument has an all-off
/// pattern and its mute and solo switches off; no sample is loaded, nothing
/// is selected, and the transport is stopped at the first step.
pub open spec fn initial_state() -> SequencerView {
    SequencerView {
        patterns: Map::new(|k: Seq<char>| is_instrument(k), |k: Seq<char>| silent_pattern()),
        samples: Map::empty(),
        mute: Map::new(|k: Seq<char>| is_instrument(k), |k: Seq<char>| false),
        solo: Map::new(|k: Seq<char>| is_instrument(k), |k: Seq<char>| false),
        selected: None,
        playing: false,
        step: 0,
    }
}

/// A sample to play on the current step.
pub struct Trigger {
    /// The instrument that sounds.
    pub instrument: String,
    /// The path of that instrument's sample.
    pub sample_path: String,
}

/// `fired` lists exactly the instruments that sound on the current step of
/// `s`, each once, with the path of its sample (in no particular order).
pub open spec fn sounds_exactly(s: SequencerView, fired: Seq<Trigger>) -> bool {
    &&& forall|i: int| #![trigger fired[i]] 0 <= i < fired.len() ==> {
        &&& s.fires(fired[i].instrument@)
        &&& s.samples[fired[i].instrument@] == fired[i].sample_path@
    }
    &&& forall|i: int, j: int| 0 <= i < j < fired.len() ==> fired[i].instrument@ != fired[j].instrument@
    &&& forall|k: Seq<char>| #[trigger] s.fires(k) ==> exists|i: int| 0 <= i < fired.len() && fired[i].instrument@ == k
}

/// A position within the bar.
struct StepIndex {
    index: usize,
}

impl StepIndex {
    /// The position is one of the bar's steps.
    #[verifier::type_invariant]
    spec fn in_bar(&self) -> bool {
        self.index < STEPS
    }
}

/// The groovebox's sequencer state.
pub struct AppState {
    patterns: PatternMap,
    is_playing: bool,
    current_step: StepIndex,
    selected_instrument: Option<String>,
    instrument_samples: SampleMap,
    instrument_mute: FlagMap,
    instrument_solo: FlagMap,
}

/// The view of an optional name.
pub open spec fn opt_name(o: Option<String>) -> Option<Seq<char>> {
    match o {
        Some(s) => Some(s@),
        None => None,
    }
}

impl View for AppState {
    type V = SequencerView;

    closed spec fn view(&self) -> SequencerView {
        SequencerView {
            patterns: self.patterns@,
            samples: sample_map_contents(self.instrument_samples),
            mute: flag_map_contents(self.instrument_mute),
            solo: flag_map_contents(self.instrument_solo),
            selected: opt_name(self.selected_instrument),
            playing: self.is_playing,
            step: self.current_step.index as int,
        }
    }
}

impl AppState {
    /// A freshly started groovebox.
    pub fn new() -> (s: AppState)
        ensures
            s@ == initial_state(),
            s@.wf(),
    {
        let mut s = AppState {
            patterns: PatternMap::new(),
            is_playing: false,
            current_step: StepIndex { index: 0 },
            selected_instrument: None,
            instrument_samples: SampleMap::new(),
            instrument_mute: FlagMap::new(),
            instrument_solo: FlagMap::new(),
        };
        assert(s@.samples =~= Map::empty());
        // every instrument starts with an all-off pattern and no mute or solo
        for i in 0..INSTRUMENTS.len()
            invariant
                s@.samples == Map::<Seq<char>, Seq<char>>::empty(),
                s@.selected is None,
                !s@.playing,
                s@.step == 0,
                s@.patterns =~= Map::new(
                    |k: Seq<char>| among_first_instruments(k, i as int),
                    |k: Seq<char>| silent_pattern(),
                ),
                s@.mute =~= Map::new(
                    |k: Seq<char>| among_first_instruments(k, i as int),
                    |k: Seq<char>| false,
                ),
                s@.solo =~= Map::new(
                    |k: Seq<char>| among_first_instruments(k, i as int),
                    |k: Seq<char>| false,
                ),
        {
            let name = INSTRUMENTS[i];
            let ghost k = name@;
            let _ = s.patterns.entry_or_silent(name.to_owned());
            s.instrument_mute.insert(name.to_owned(), false);
            s.instrument_solo.insert(name.to_owned(), false);
            proof {
                assert(k == INSTRUMENTS@[i as int]@);
                assert forall|x: Seq<char>| #[trigger] among_first_instruments(x, i + 1) <==> (
                    among_first_instruments(x, i as int) || x == k) by {
                    if among_first_instruments(x, i + 1) {
                        let j = choose|j: int| 0 <= j < i + 1 && j < INSTRUMENTS@.len() && x == #[trigger] INSTRUMENTS@[j]@;
                        if j < i {
                            assert(among_first_instruments(x, i as int));
                        }
                    }
                    if among_first_instruments(x, i as int) {
                        let j = choose|j: int| 0 <= j < i && j < INSTRUMENTS@.len() && x == #[trigger] INSTRUMENTS@[j]@;
                        assert(0 <= j < i + 1);
                    }
                    if x == k {
                        assert(x == INSTRUMENTS@[i as int]@);
                    }
                }
            }
        }
        proof {
            assert(s@.patterns =~= initial_state().patterns);
            assert(s@.mute =~= initial_state().mute);
            assert(s@.solo =~= initial_state().solo);
        }
        s
    }

    /// In every state, every pattern spans the whole bar.
    pub proof fn lemma_patterns_span_bar(&self)
        ensures
            forall|k: Seq<char>| #[trigger] self@.patterns.contains_key(k) ==> self@.patterns[k].len() == STEPS,
    {
    }

    /// The steps of `instrument`, created all off when it has none yet; the
    /// caller edits them in place.
    pub fn get_or_init_pattern(&mut self, instrument: &str) -> (steps: &mut [bool; 16])
        ensures
            steps@ == old(self)@.pattern_or_silent(instrument@),
            final(self)@ == (SequencerView {
                patterns: old(self)@.patterns.insert(instrument@, final(steps)@),
                ..old(self)@
            }),
            old(self)@.wf() ==> final(self)@.wf(),
            final(self)@.wf(),
    {
        proof {
            use_type_invariant(&self.current_step);
        }
        self.patterns.entry_or_silent(instrument.to_owned())
    }

    /// Whether the transport runs.
    pub fn is_playing(&self) -> (r: bool)
        ensures
            r == self@.playing,
    {
        self.is_playing
    }

    /// The step that sounded last.
    pub fn current_step(&self) -> (r: usize)
        ensures
            r == self@.step,
            r < STEPS,
    {
        proof {
            use_type_invariant(&self.current_step);
        }
        self.current_step.index
    }

    /// The instrument whose pattern is being edited, if any.
    pub fn selected_instrument(&self) -> (r: Option<String>)
        ensures
            opt_name(r) == self@.selected,
    {
        match &self.selected_instrument {
            Some(name) => Some(name.clone()),
            None => None,
        }
    }

    /// The sample path of `instrument`, if one was chosen.
    pub fn sample_path(&self, instrument: &str) -> (r: Option<String>)
        ensures
            r is Some <==> self@.samples.contains_key(instrument@),
            r matches Some(p) ==> p@ == self@.samples[instrument@],
    {
        self.instrument_samples.get(instrument)
    }

    /// The steps of `instrument`, if it has a pattern.
    pub fn pattern(&self, instrument: &str) -> (r: Option<[bool; 16]>)
        ensures
            r is Some <==> self@.patterns.contains_key(instrument@),
            r matches Some(p) ==> p@ == self@.patterns[instrument@],
    {
        self.patterns.get(instrument)
    }

    /// Whether `instrument` is muted (an instrument never switched reads as not muted).
    pub fn is_muted(&self, instrument: &str) -> (r: bool)
        ensures
            r == flag_on(self@.mute, instrument@),
    {
        match self.instrument_mute.get(instrument) {
            Some(b) => b,
            None => false,
        }
    }

    /// Whether `instrument` is soloed (an instrument never switched reads as not soloed).
    pub fn is_solo(&self, instrument: &str) -> (r: bool)
        ensures
            r == flag_on(self@.solo, instrument@),
    {
        match self.instrument_solo.get(instrument) {
            Some(b) => b,
            None => false,
        }
    }

    /// Whether step `index` is the one to highlight: the transport runs and
    /// that step sounded last.
    pub fn is_step_highlighted(&self, index: usize) -> (r: bool)
        ensures
            r == (self@.playing && self@.step == index),
    {
        self.is_playing && self.current_step.index == index
    }

    /// Starts the transport.
    pub fn play(&mut self)
        ensures
            final(self)@ == (SequencerView { playing: true, ..old(self)@ }),
            final(self)@.wf(),
    {
        proof {
            use_type_invariant(&self.current_step);
        }
        self.is_playing = true;
    }

    /// The pause button: starts a stopped transport, stops a running one.
    pub fn toggle_pause(&mut self)
        ensures
            final(self)@ == (SequencerView { playing: !old(self)@.playing, ..old(self)@ }),
            final(self)@.wf(),
    {
        proof {
            use_type_invariant(&self.current_step);
        }
        self.is_playing = !self.is_playing;
    }

    /// Stops the transport.
    pub fn stop(&mut self)
        ensures
            final(self)@ == (SequencerView { playing: false, ..old(self)@ }),
            final(self)@.wf(),
    {
        proof {
            use_type_invariant(&self.current_step);
        }
        self.is_playing = false;
    }

    /// Makes `instrument` the one whose pattern is edited.
    pub fn select_instrument(&mut self, instrument: &str)
        ensures
            final(self)@ == (SequencerView { selected: Some(instrument@), ..old(self)@ }),
            final(self)@.wf(),
    {
        proof {
            use_type_invariant(&self.current_step);
        }
        self.selected_instrument = Some(instrument.to_owned());
    }

    /// Flips the mute switch of `instrument`; muting also clears its solo.
    pub fn toggle_mute(&mut self, instrument: &str)
        ensures
            final(self)@ == old(self)@.after_toggle_mute(instrument@),
            final(self)@.wf(),
    {
        proof {
            use_type_invariant(&self.current_step);
        }
        let on = !self.is_muted(instrument);
        self.instrument_mute.insert(instrument.to_owned(), on);
        if on {
            self.instrument_solo.insert(instrument.to_owned(), false);
        }
    }

    /// Flips the solo switch of `instrument`. Turning a solo on turns off the
    /// solo of every other instrument that has one.
    pub fn toggle_solo(&mut self, instrument: &str)
        ensures
            final(self)@ == old(self)@.after_toggle_solo(instrument@),
            final(self)@.wf(),
    {
        proof {
            use_type_invariant(&self.current_step);
        }
        let ghost k = instrument@;
        let name = instrument.to_owned();
        let on = !self.is_solo(instrument);
        self.instrument_solo.insert(name.clone(), on);
        if on {
            let ghost before = self@.solo;
            let keys = self.instrument_solo.keys();
            let ghost kv = keys@.map_values(|s: String| s@);
            assert(kv.to_set() == before.dom());
            for i in 0..keys.len()
                invariant
                    name@ == k,
                    kv == keys@.map_values(|s: String| s@),
                    kv.to_set() == before.dom(),
                    before.contains_key(k),
                    before[k],
                    self@ == (SequencerView { solo: self@.solo, ..old(self)@ }),
                    self@.solo.dom() == before.dom(),
                    forall|j: Seq<char>| #[trigger] self@.solo.contains_key(j) ==> self@.solo[j] == (
                        if j == k {
                            true
                        } else if kv.subrange(0, i as int).contains(j) {
                            false
                        } else {
                            before[j]
                        }),
            {
                proof {
                    assert(kv[i as int] == keys@[i as int]@);
                    assert(kv.contains(kv[i as int]));
                    assert(kv.to_set().contains(kv[i as int]));
                }
                let ghost solo_before_step = self@.solo;
                let same = keys[i].eq(&name);
                assert(name@ == k);
                assert(same == (keys@[i as int]@ == name@));
                assert(same == (kv[i as int] == k));
                if !same {
                    self.instrument_solo.insert(keys[i].clone(), false);
                }
                proof {
                    assert forall|j: Seq<char>| #[trigger] kv.subrange(0, i + 1).contains(j) <==> (
                        kv.subrange(0, i as int).contains(j) || j == kv[i as int]) by {
                        if kv.subrange(0, i + 1).contains(j) {
                            let m = choose|m: int| 0 <= m < i + 1 && #[trigger] kv.subrange(0, i + 1)[m] == j;
                            if m < i {
                                assert(kv.subrange(0, i as int)[m] == j);
                            }
                        }
                        if kv.subrange(0, i as int).contains(j) {
                            let m = choose|m: int| 0 <= m < i && #[trigger] kv.subrange(0, i as int)[m] == j;
                            assert(kv.subrange(0, i + 1)[m] == j);
                        }
                        if j == kv[i as int] {
                            assert(kv.subrange(0, i + 1)[i as int] == j);
                        }
                    }
                    assert(self@.solo.dom() =~= before.dom());
                    assert forall|j: Seq<char>| #[trigger] self@.solo.contains_key(j) implies self@.solo[j] == (
                        if j == k {
                            true
                        } else if kv.subrange(0, i + 1).contains(j) {
                            false
                        } else {
                            before[j]
                        }) by {
                        assert(solo_before_step.contains_key(j));
                        assert(solo_before_step[j] == (
                            if j == k {
                                true
                            } else if kv.subrange(0, i as int).contains(j) {
                                false
                            } else {
                                before[j]
                            }));
                        assert(kv.subrange(0, i + 1).contains(j) <==> (
                            kv.subrange(0, i as int).contains(j) || j == kv[i as int]));
                        if j == kv[i as int] && j != k {
                            assert(self@.solo[j] == false);
                        }
                    }
                }
            }
            proof {
                assert forall|j: Seq<char>| #[trigger] before.contains_key(j) implies kv.subrange(0, kv.len() as int).contains(j) by {
                    assert(kv.to_set().contains(j));
                    assert(kv.subrange(0, kv.len() as int) =~= kv);
                }
                assert(self@.solo =~= old(self)@.after_toggle_solo(k).solo);
            }
        } else {
            assert(self@.solo =~= old(self)@.solo.insert(k, false));
        }
    }

    /// A sample file arrived for `instrument`: it becomes that instrument's
    /// sample, and the instrument gets an all-off pattern unless it has one.
    pub fn receive_sample(&mut self, instrument: String, path: String)
        ensures
            final(self)@ == old(self)@.after_receive_sample(instrument@, path@),
            final(self)@.wf(),
    {
        proof {
            use_type_invariant(&self.current_step);
        }
        let key = instrument.clone();
        self.instrument_samples.insert(instrument, path);
        let _ = self.patterns.entry_or_silent(key);
    }

    /// Flips step `index` of the pattern of `instrument` (creating the
    /// pattern all off if it has none).
    pub fn toggle_step(&mut self, instrument: &str, index: usize)
        requires
            index < STEPS,
        ensures
            final(self)@ == old(self)@.after_toggle_step(instrument@, index as int),
            final(self)@.wf(),
    {
        proof {
            use_type_invariant(&self.current_step);
        }
        let steps = self.get_or_init_pattern(instrument);
        steps[index] = !steps[index];
    }

    /// Whether some instrument is soloed.
    pub fn any_solo_active(&self) -> (r: bool)
        ensures
            r == self@.any_solo(),
    {
        let keys = self.instrument_solo.keys();
        let ghost kv = keys@.map_values(|s: String| s@);
        for i in 0..keys.len()
            invariant
                kv == keys@.map_values(|s: String| s@),
                kv.to_set() == self@.solo.dom(),
                forall|m: int| 0 <= m < i ==> !flag_on(self@.solo, #[trigger] kv[m]),
        {
            if self.is_solo(keys[i].as_str()) {
                assert(flag_on(self@.solo, kv[i as int]));
                return true;
            }
        }
        proof {
            assert forall|j: Seq<char>| !flag_on(self@.solo, j) by {
                if flag_on(self@.solo, j) {
                    assert(kv.to_set().contains(j));
                    assert(kv.contains(j));
                    let m = choose|m: int| 0 <= m < kv.len() && #[trigger] kv[m] == j;
                    assert(!flag_on(self@.solo, kv[m]));
                }
            }
        }
        false
    }

    /// The mixing rule for `instrument`: heard unless muted, or unless
    /// another instrument is soloed and it is not.
    pub fn should_play(&self, instrument: &str) -> (r: bool)
        ensures
            r == self@.should_play(instrument@),
    {
        !self.is_muted(instrument) && (self.is_solo(instrument) || !self.any_solo_active())
    }

    /// One pass of the sequencer loop, given whether a step's worth of time
    /// has passed since the last step. A stopped transport rewinds to the
    /// first step; a running one with a step due moves to the next step and
    /// answers the samples to play on it.
    pub fn tick(&mut self, step_due: bool) -> (fired: Vec<Trigger>)
        ensures
            final(self)@ == old(self)@.after_tick(step_due),
            !(old(self)@.playing && step_due) ==> fired@.len() == 0,
            old(self)@.playing && step_due ==> sounds_exactly(final(self)@, fired@),
            final(self)@.wf(),
    {
        proof {
            use_type_invariant(&self.current_step);
        }
        if !self.is_playing {
            self.current_step = StepIndex { index: 0 };
            return Vec::new();
        }
        if !step_due {
            return Vec::new();
        }
        let next = if self.current_step.index >= STEPS - 1 { 0 } else { self.current_step.index + 1 };
        self.current_step = StepIndex { index: next };
        let step = next;
        let ghost s = self@;
        let any_solo = self.any_solo_active();
        let entries = self.instrument_samples.entries();
        let ghost ev = entries@.map_values(|e: (String, String)| e.0@);
        let mut fired: Vec<Trigger> = Vec::new();
        let ghost mut origin: Seq<int> = Seq::empty();
        for idx in 0..entries.len()
            invariant
                self@ == s,
                step == s.step,
                step < STEPS,
                any_solo == s.any_solo(),
                ev == entries@.map_values(|e: (String, String)| e.0@),
                ev.no_duplicates(),
                ev.to_set() == s.samples.dom(),
                forall|m: int| 0 <= m < entries@.len() ==> s.samples[#[trigger] entries@[m].0@] == entries@[m].1@,
                origin.len() == fired@.len(),
                forall|i: int| 0 <= i < origin.len() ==> 0 <= #[trigger] origin[i] < idx,
                forall|i: int| #![trigger fired@[i]] 0 <= i < fired@.len() ==> {
                    &&& fired@[i].instrument@ == ev[origin[i]]
                    &&& fired@[i].sample_path@ == entries@[origin[i]].1@
                    &&& s.fires(ev[origin[i]])
                },
                forall|i: int, j: int| 0 <= i < j < origin.len() ==> origin[i] < origin[j],
                forall|m: int| 0 <= m < idx && #[trigger] s.fires(ev[m]) ==>
                    exists|i: int| 0 <= i < origin.len() && origin[i] == m,
        {
            proof {
                assert(ev[idx as int] == entries@[idx as int].0@);
                assert(ev.contains(ev[idx as int]));
                assert(ev.to_set().contains(ev[idx as int]));
            }
            let ghost origin_before = origin;
            let ghost fired_before = fired@;
            let name = &entries[idx].0;
            let mut sounds = false;
            match self.patterns.get(name.as_str()) {
                Some(steps) => {
                    if steps[step] {
                        let muted = self.is_muted(name.as_str());
                        let solo = self.is_solo(name.as_str());
                        sounds = !muted && (solo || !any_solo);
                    }
                },
                None => {},
            }
            assert(sounds == s.fires(ev[idx as int]));
            if sounds {
                fired.push(Trigger { instrument: name.clone(), sample_path: entries[idx].1.clone() });
                proof {
                    origin = origin.push(idx as int);
                }
            }
            proof {
                assert forall|i: int| 0 <= i < origin_before.len() implies origin[i] == origin_before[i] && fired@[i] == fired_before[i] by {}
                assert forall|m: int| 0 <= m < idx + 1 && #[trigger] s.fires(ev[m]) implies
                    exists|i: int| 0 <= i < origin.len() && origin[i] == m by {
                    if m == idx {
                        assert(origin[origin.len() - 1] == idx);
                    } else {
                        let i = choose|i: int| 0 <= i < origin_before.len() && origin_before[i] == m;
                        assert(origin[i] == m);
                    }
                }
            }
        }
        proof {
            assert(forall|i: int| 0 <= i < origin.len() ==> origin[i] < entries@.len());
            assert forall|i: int, j: int| 0 <= i < j < fired@.len() implies fired@[i].instrument@ != fired@[j].instrument@ by {
                assert(fired@[i].instrument@ == ev[origin[i]]);
                assert(fired@[j].instrument@ == ev[origin[j]]);
            }
            assert forall|k: Seq<char>| #[trigger] s.fires(k) implies exists|i: int| 0 <= i < fired@.len() && fired@[i].instrument@ == k by {
                assert(ev.to_set().contains(k));
                assert(ev.contains(k));
                let m = choose|m: int| 0 <= m < ev.len() && #[trigger] ev[m] == k;
                assert(s.fires(ev[m]));
                let i = choose|i: int| 0 <= i < origin.len() && origin[i] == m;
                assert(fired@[i].instrument@ == ev[origin[i]]);
            }
            assert forall|i: int| #![trigger fired@[i]] 0 <= i < fired@.len() implies {
                &&& s.fires(fired@[i].instrument@)
                &&& s.samples[fired@[i].instrument@] == fired@[i].sample_path@
            } by {
                assert(entries@[origin[i]].0@ == ev[origin[i]]);
            }
        }
        fired
    }
}

} // verus!
