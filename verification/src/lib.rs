//! A sixteen-step drum sequencer: the state behind the groovebox's pattern grid,
//! its transport, sample assignment, and mute/solo mixing rules.

pub mod app_state;
pub mod display;
pub mod laws;
pub mod maps;

use vstd::prelude::*;

verus! {

} // verus!
