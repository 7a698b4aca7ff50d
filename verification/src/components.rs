//! Component kinds attached to entities: a position, and a movement target
//! with its per-frame step-rate.

use crate::math::{in_range, Vec3Fx};
use vstd::prelude::*;

verus! {

/// Position component: where the entity currently is.
#[derive(Clone, Copy, Debug, PartialEq, Eq, Structural)]
pub struct Pos(pub Vec3Fx);

/// Movement-target component: where the entity is headed, and how many
/// thousandths of a unit it covers per frame. Immutable after creation.
#[derive(Clone, Copy, Debug, PartialEq, Eq, Structural)]
pub struct MoveTo(pub Vec3Fx, pub i64);

/// A position component is well formed when its coordinates are in range.
pub open spec fn pos_wf(p: Pos) -> bool {
    in_range(p.0)
}

/// A movement target is well formed when its coordinates are in range and
/// its step-rate is nonnegative.
pub open spec fn move_to_wf(m: MoveTo) -> bool {
    in_range(m.0) && 0 <= m.1
}

} // verus!
