//! Index and shape rules for simulating chaotic systems (the Lorenz attractor and the
//! cyclic Lorenz-96 model) and turning their trajectories into drawable geometry and
//! audio channels.
//!
//! - `cyclic`: ring arithmetic for the Lorenz-96 coupling, and its dimension rule.
//! - `strip`: index lists that connect the vertices of a trajectory.
//! - `vector`: fixed-length state vectors.
//! - `channels`: per-coordinate channels of a recorded trajectory.
use vstd::prelude::*;

pub mod channels;
pub mod cyclic;
pub mod strip;
pub mod vector;

verus! {

} // verus!
