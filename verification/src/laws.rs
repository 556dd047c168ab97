//! What holds of the sequencer across its operations.

use crate::app_state::{flag_on, initial_state, SequencerView, STEPS};
use crate::maps::silent_pattern;
use vstd::prelude::*;

verus! {

/// `n` passes of the sequencer loop, each with a step due.
pub open spec fn run_steps(s: SequencerView, n: nat) -> SequencerView
    decreases n,
{
    if n == 0 {
        s
    } else {
        run_steps(s, (n - 1) as nat).after_tick(true)
    }
}

/// A freshly started groovebox is well formed, stopped, and silent.
pub proof fn law_initial_state()
    ensures
        initial_state().wf(),
        !initial_state().playing,
        !initial_state().any_solo(),
        forall|k: Seq<char>| !(#[trigger] initial_state().fires(k)),
{
}

/// Every operation keeps the step inside the bar and every pattern sixteen
/// steps long.
pub proof fn law_operations_keep_wf(s: SequencerView, k: Seq<char>, path: Seq<char>, i: int, due: bool, b: bool)
    requires
        s.wf(),
        0 <= i < STEPS,
    ensures
        s.after_tick(due).wf(),
        s.after_toggle_mute(k).wf(),
        s.after_toggle_solo(k).wf(),
        s.after_receive_sample(k, path).wf(),
        s.after_toggle_step(k, i).wf(),
        (SequencerView { playing: b, ..s }).wf(),
        (SequencerView { selected: Some(k), ..s }).wf(),
{
    assert(silent_pattern().len() == STEPS);
}

/// While the transport runs, every due pass moves exactly one step forward,
/// wrapping from the last step to the first, and touches nothing else.
pub proof fn law_running_steps_advance(s: SequencerView, n: nat)
    requires
        s.wf(),
        s.playing,
    ensures
        run_steps(s, n) == (SequencerView { step: (s.step + n) % (STEPS as int), ..s }),
    decreases n,
{
    if n > 0 {
        law_running_steps_advance(s, (n - 1) as nat);
        assert(((s.step + (n - 1)) % 16 + 1) % 16 == (s.step + n) % 16) by (nonlinear_arith)
            requires n >= 1;
    }
}

/// Sixteen due passes of a running transport bring the sequencer back to
/// exactly the state it started from: the pattern loops every bar.
pub proof fn law_bar_loops(s: SequencerView)
    requires
        s.wf(),
        s.playing,
    ensures
        run_steps(s, 16) == s,
{
    law_running_steps_advance(s, 16);
    assert((s.step + 16) % 16 == s.step) by (nonlinear_arith)
        requires 0 <= s.step < 16;
}

/// A stopped transport rewinds to the first step on every pass, and stopping
/// then passing once leaves the sequencer at the first step.
pub proof fn law_stop_rewinds(s: SequencerView, due: bool)
    ensures
        !s.playing ==> s.after_tick(due).step == 0,
        (SequencerView { playing: false, ..s }).after_tick(due).step == 0,
{
}

/// Flipping the same step twice gives back the pattern the instrument had
/// (an instrument without one keeps an all-off pattern).
pub proof fn law_toggle_step_twice(s: SequencerView, k: Seq<char>, i: int)
    requires
        s.wf(),
        0 <= i < STEPS,
    ensures
        s.after_toggle_step(k, i).after_toggle_step(k, i)
            == (SequencerView { patterns: s.patterns.insert(k, s.pattern_or_silent(k)), ..s }),
        s.patterns.contains_key(k) ==> s.after_toggle_step(k, i).after_toggle_step(k, i) == s,
{
    let p = s.pattern_or_silent(k);
    let once = s.after_toggle_step(k, i);
    assert(once.pattern_or_silent(k) == p.update(i, !p[i]));
    assert(p.update(i, !p[i]).update(i, !p.update(i, !p[i])[i]) =~= p);
    assert(s.after_toggle_step(k, i).after_toggle_step(k, i).patterns =~= s.patterns.insert(k, p));
    if s.patterns.contains_key(k) {
        assert(s.patterns.insert(k, p) =~= s.patterns);
    }
}

/// Flipping the mute switch of an instrument twice leaves every
/// instrument's mute state as it was.
pub proof fn law_toggle_mute_twice(s: SequencerView, k: Seq<char>)
    ensures
        forall|j: Seq<char>| flag_on(#[trigger] s.after_toggle_mute(k).after_toggle_mute(k).mute, j) == flag_on(s.mute, j),
{
}

/// A muted instrument never sounds, whatever its pattern and solo switch.
pub proof fn law_muted_is_silent(s: SequencerView, k: Seq<char>)
    requires
        flag_on(s.mute, k),
    ensures
        !s.should_play(k),
        !s.fires(k),
{
}

/// While some instrument is soloed, only soloed instruments sound.
pub proof fn law_solo_silences_others(s: SequencerView, k: Seq<char>)
    requires
        s.any_solo(),
        !flag_on(s.solo, k),
    ensures
        !s.should_play(k),
        !s.fires(k),
{
}

/// Muting an instrument also takes it out of solo and silences it.
pub proof fn law_mute_clears_solo(s: SequencerView, k: Seq<char>)
    requires
        !flag_on(s.mute, k),
    ensures
        flag_on(s.after_toggle_mute(k).mute, k),
        !flag_on(s.after_toggle_mute(k).solo, k),
        !s.after_toggle_mute(k).fires(k),
{
}

/// Turning a solo on makes it the only solo, so that at most that one
/// instrument can sound.
pub proof fn law_solo_is_exclusive(s: SequencerView, k: Seq<char>)
    requires
        !flag_on(s.solo, k),
    ensures
        forall|j: Seq<char>| #[trigger] flag_on(s.after_toggle_solo(k).solo, j) <==> j == k,
        forall|j: Seq<char>| #[trigger] s.after_toggle_solo(k).fires(j) ==> j == k,
{
    let t = s.after_toggle_solo(k);
    assert(flag_on(t.solo, k));
    assert(t.any_solo());
}

/// A sample that arrives becomes the instrument's sample, never clears a
/// pattern the instrument already has, and leaves the mixer and transport
/// alone.
pub proof fn law_sample_keeps_pattern(s: SequencerView, k: Seq<char>, path: Seq<char>)
    ensures
        s.after_receive_sample(k, path).samples[k] == path,
        s.after_receive_sample(k, path).patterns.contains_key(k),
        s.patterns.contains_key(k) ==> s.after_receive_sample(k, path).patterns == s.patterns,
        !s.patterns.contains_key(k) ==> s.after_receive_sample(k, path).patterns[k] == silent_pattern(),
        s.after_receive_sample(k, path).mute == s.mute,
        s.after_receive_sample(k, path).solo == s.solo,
        s.after_receive_sample(k, path).playing == s.playing,
        s.after_receive_sample(k, path).step == s.step,
{
    if s.patterns.contains_key(k) {
        assert(s.patterns.insert(k, s.patterns[k]) =~= s.patterns);
    }
}

/// A pass of the loop changes nothing but the step; while the transport
/// runs, a pass with no step due changes nothing at all, and a due pass
/// moves exactly one step forward (from the last step back to the first).
pub proof fn law_tick_only_moves_the_step(s: SequencerView, due: bool)
    requires
        s.wf(),
    ensures
        s.after_tick(due).patterns == s.patterns,
        s.after_tick(due).samples == s.samples,
        s.after_tick(due).mute == s.mute,
        s.after_tick(due).solo == s.solo,
        s.after_tick(due).selected == s.selected,
        s.after_tick(due).playing == s.playing,
        s.playing && !due ==> s.after_tick(due) == s,
        s.playing && due && s.step + 1 < STEPS ==> s.after_tick(due).step == s.step + 1,
        s.playing && due && s.step + 1 == STEPS ==> s.after_tick(due).step == 0,
{
}

/// The mixing rule: an instrument that is not muted is heard when nothing
/// is soloed or when it is soloed itself; a muted one never is; and which
/// instrument is selected for editing plays no part.
pub proof fn law_mixing_rule(s: SequencerView, k: Seq<char>, sel: Option<Seq<char>>)
    ensures
        !flag_on(s.mute, k) && (forall|j: Seq<char>| !flag_on(s.solo, j)) ==> s.should_play(k),
        !flag_on(s.mute, k) && flag_on(s.solo, k) ==> s.should_play(k),
        flag_on(s.mute, k) ==> !s.should_play(k),
        (exists|j: Seq<char>| flag_on(s.solo, j)) && !flag_on(s.solo, k) ==> !s.should_play(k),
        (SequencerView { selected: sel, ..s }).should_play(k) == s.should_play(k),
        (SequencerView { selected: sel, ..s }).fires(k) == s.fires(k),
{
}

/// An instrument sounds on the current step exactly when it has a sample,
/// its pattern has that step on, it is not muted, and either it is soloed
/// or nothing is.
pub proof fn law_what_sounds(s: SequencerView, k: Seq<char>)
    ensures
        s.fires(k) <==> (
            s.samples.contains_key(k) && s.patterns.contains_key(k) && s.patterns[k][s.step]
            && !(s.mute.contains_key(k) && s.mute[k])
            && ((s.solo.contains_key(k) && s.solo[k]) || forall|j: Seq<char>| !(s.solo.contains_key(j) && s.solo[j]))),
{
    if s.any_solo() {
        let j = choose|j: Seq<char>| flag_on(s.solo, j);
        assert(s.solo.contains_key(j) && s.solo[j]);
    } else {
        assert forall|j: Seq<char>| !(s.solo.contains_key(j) && s.solo[j]) by {
            assert(!flag_on(s.solo, j));
        }
    }
}

/// Flipping the mute switch of `k` flips `k`'s mute, and touches no other
/// instrument's mute or solo switch, nor patterns, samples or transport.
pub proof fn law_mute_touches_only_its_instrument(s: SequencerView, k: Seq<char>)
    ensures
        flag_on(s.after_toggle_mute(k).mute, k) == !flag_on(s.mute, k),
        forall|j: Seq<char>| j != k ==> #[trigger] s.after_toggle_mute(k).mute.contains_key(j) == s.mute.contains_key(j)
            && (s.mute.contains_key(j) ==> s.after_toggle_mute(k).mute[j] == s.mute[j]),
        forall|j: Seq<char>| j != k ==> #[trigger] s.after_toggle_mute(k).solo.contains_key(j) == s.solo.contains_key(j)
            && (s.solo.contains_key(j) ==> s.after_toggle_mute(k).solo[j] == s.solo[j]),
        flag_on(s.mute, k) ==> s.after_toggle_mute(k).solo == s.solo,
        s.after_toggle_mute(k).patterns == s.patterns,
        s.after_toggle_mute(k).samples == s.samples,
        s.after_toggle_mute(k).selected == s.selected,
        s.after_toggle_mute(k).playing == s.playing,
        s.after_toggle_mute(k).step == s.step,
{
}

/// Flipping the solo switch of `k` flips `k`'s solo; turning it off touches
/// no other switch, turning it on only turns other solos off; mute,
/// patterns, samples and transport are left alone.
pub proof fn law_solo_touches_only_solos(s: SequencerView, k: Seq<char>)
    ensures
        flag_on(s.after_toggle_solo(k).solo, k) == !flag_on(s.solo, k),
        flag_on(s.solo, k) ==> forall|j: Seq<char>| j != k ==> #[trigger] flag_on(s.after_toggle_solo(k).solo, j) == flag_on(s.solo, j),
        forall|j: Seq<char>| j != k && #[trigger] flag_on(s.after_toggle_solo(k).solo, j) ==> flag_on(s.solo, j),
        s.after_toggle_solo(k).mute == s.mute,
        s.after_toggle_solo(k).patterns == s.patterns,
        s.after_toggle_solo(k).samples == s.samples,
        s.after_toggle_solo(k).selected == s.selected,
        s.after_toggle_solo(k).playing == s.playing,
        s.after_toggle_solo(k).step == s.step,
{
}

/// Receiving a sample for `k` leaves the sample and pattern of every other
/// instrument as they were.
pub proof fn law_sample_touches_only_its_instrument(s: SequencerView, k: Seq<char>, path: Seq<char>)
    ensures
        forall|j: Seq<char>| j != k ==> #[trigger] s.after_receive_sample(k, path).samples.contains_key(j) == s.samples.contains_key(j)
            && (s.samples.contains_key(j) ==> s.after_receive_sample(k, path).samples[j] == s.samples[j]),
        forall|j: Seq<char>| j != k ==> #[trigger] s.after_receive_sample(k, path).patterns.contains_key(j) == s.patterns.contains_key(j)
            && (s.patterns.contains_key(j) ==> s.after_receive_sample(k, path).patterns[j] == s.patterns[j]),
        s.after_receive_sample(k, path).selected == s.selected,
{
}

/// Flipping step `i` of `k` flips exactly that step: the other steps of
/// `k`, the other instruments' patterns, and everything else stay as they
/// were (an instrument without a pattern is taken as all off).
pub proof fn law_toggle_step_flips_one_step(s: SequencerView, k: Seq<char>, i: int)
    requires
        s.wf(),
        0 <= i < STEPS,
    ensures
        s.after_toggle_step(k, i).patterns.contains_key(k),
        s.after_toggle_step(k, i).patterns[k].len() == STEPS,
        s.after_toggle_step(k, i).patterns[k][i] == !s.pattern_or_silent(k)[i],
        forall|m: int| 0 <= m < STEPS && m != i ==> #[trigger] s.after_toggle_step(k, i).patterns[k][m] == s.pattern_or_silent(k)[m],
        !s.patterns.contains_key(k) ==> forall|m: int| 0 <= m < STEPS && m != i ==> !#[trigger] s.after_toggle_step(k, i).patterns[k][m],
        forall|j: Seq<char>| j != k ==> #[trigger] s.after_toggle_step(k, i).patterns.contains_key(j) == s.patterns.contains_key(j)
            && (s.patterns.contains_key(j) ==> s.after_toggle_step(k, i).patterns[j] == s.patterns[j]),
        s.after_toggle_step(k, i).samples == s.samples,
        s.after_toggle_step(k, i).mute == s.mute,
        s.after_toggle_step(k, i).solo == s.solo,
        s.after_toggle_step(k, i).playing == s.playing,
        s.after_toggle_step(k, i).step == s.step,
{
    assert(silent_pattern().len() == STEPS);
}

} // verus!
