//! On-demand media packaging: per-track profile decisions, segment planning
//! and playlist synthesis, and a job registry that starts each encode at most
//! once per id.

use vstd::prelude::*;

pub mod text;
pub mod duration;
pub mod ffprobe;
pub mod manifest;
pub mod processing;
pub mod registry;

verus! {

/// The lifecycle of one packaging job: a job is created `InProgress` and moves
/// to `Done` when its encoder process exits; there are no other states.
#[derive(Clone, Copy, Debug, PartialEq, Eq, Structural)]
pub enum ProcessingState {
    InProgress,
    Done,
}

} // verus!
