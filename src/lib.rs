//! Drives an addressable light strip from live match snapshots: a pure
//! event detector over consecutive snapshots, an overlay state machine that
//! turns events into time-decaying effects, and the byte framing of the strip.
use vstd::prelude::*;

pub mod color;
pub mod detect;
pub mod encode;
pub mod engine;
pub mod frame;
pub mod history;
pub mod shared;
pub mod snapshot;
pub mod text;
pub mod tree;

verus! {

} // verus!
