//! Decision logic, bookkeeping and contact-pair tracking of a small
//! rigid-body physics engine, verified with Verus.
use vstd::prelude::*;

pub mod components;
pub mod pair_set;
pub mod broadphase;
pub mod narrowphase;
pub mod events;
pub mod solver;
pub mod sleep;
pub mod joints;
pub mod query;
pub mod player_controller;
pub mod fps_overlay;

verus! {

} // verus!
