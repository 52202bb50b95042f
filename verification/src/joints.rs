//! Which joints the joint solver works on.
use vstd::prelude::*;

use crate::components::{BodyFlags, BodyType};
use crate::solver::BodyStatus;

verus! {

/// A joint is solved when both of its bodies have the solver switched on and
/// at least one of them is dynamic.
pub open spec fn joint_is_solved(a: BodyStatus, b: BodyStatus) -> bool {
    a.flags.has(BodyFlags::ENABLE_SOLVER) && b.flags.has(BodyFlags::ENABLE_SOLVER) && (a.body_type
        == BodyType::Dynamic || b.body_type == BodyType::Dynamic)
}

pub fn joint_pair_active(a: BodyStatus, b: BodyStatus) -> (r: bool)
    ensures
        r == joint_is_solved(a, b),
{
    if !a.flags.contains(BodyFlags::ENABLE_SOLVER) || !b.flags.contains(BodyFlags::ENABLE_SOLVER) {
        return false;
    }
    let a_dyn: bool = a.body_type == BodyType::Dynamic;
    let b_dyn: bool = b.body_type == BodyType::Dynamic;
    a_dyn || b_dyn
}

/// Swapping the two ends of a joint does not change whether it is solved.
pub proof fn law_joint_solved_symmetric(a: BodyStatus, b: BodyStatus)
    ensures
        joint_is_solved(a, b) == joint_is_solved(b, a),
{
}

/// A joint between two bodies with the solver on is solved as soon as one of
/// them is dynamic, whichever one, and also when both are; it is not solved
/// when neither is dynamic or when either body has the solver off.
pub proof fn law_joint_solving(a: BodyStatus, b: BodyStatus)
    ensures
        a.flags.has(BodyFlags::ENABLE_SOLVER) && b.flags.has(BodyFlags::ENABLE_SOLVER)
            && a.body_type == BodyType::Dynamic ==> joint_is_solved(a, b),
        a.flags.has(BodyFlags::ENABLE_SOLVER) && b.flags.has(BodyFlags::ENABLE_SOLVER)
            && b.body_type == BodyType::Dynamic ==> joint_is_solved(a, b),
        a.body_type != BodyType::Dynamic && b.body_type != BodyType::Dynamic ==> !joint_is_solved(
            a,
            b,
        ),
        !a.flags.has(BodyFlags::ENABLE_SOLVER) ==> !joint_is_solved(a, b),
        !b.flags.has(BodyFlags::ENABLE_SOLVER) ==> !joint_is_solved(a, b),
{
}

} // verus!
