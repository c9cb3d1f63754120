//! Musical scales and guitar tunings over the twelve-tone chromatic cycle,
//! and a text diagram of the fretboard that marks the notes of a scale.
use vstd::prelude::*;

pub mod notes;
pub mod scale;
pub mod tuning;
pub mod render;

verus! {

} // verus!
