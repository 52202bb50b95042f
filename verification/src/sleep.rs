//! Sleeping bodies and the decisions of the integration step: when a body
//! falls asleep, what wakes it, and which parts of the integration apply to
//! it.
use vstd::prelude::*;

use crate::components::{BodyFlags, BodyType};
use crate::solver::BodyStatus;

verus! {

/// Whether a body sleeps and for how many steps in a row it has been at rest.
#[derive(Debug, Clone, Copy, PartialEq, Eq, Structural)]
pub struct SleepState {
    pub is_sleeping: bool,
    pub sleep_frames: u16,
}

/// With sleeping enabled, a sleeping body wakes with its counter reset; in
/// every other case nothing changes.
pub open spec fn woken(s: SleepState, sleep_enable: bool) -> SleepState {
    if sleep_enable && s.is_sleeping {
        SleepState { is_sleeping: false, sleep_frames: 0 }
    } else {
        s
    }
}

pub fn wake(state: &mut SleepState, sleep_enable: bool)
    ensures
        *final(state) == woken(*old(state), sleep_enable),
{
    if sleep_enable && state.is_sleeping {
        state.is_sleeping = false;
        state.sleep_frames = 0;
    }
}

/// One step of the sleep counter. At rest, the counter goes up by one (it
/// stays at its maximum once there) and the body falls asleep once the counter
/// reaches `frames_required`; otherwise a body that already slept keeps
/// sleeping. Not at rest, the body is awake and the counter is zero.
pub open spec fn rest_step(s: SleepState, at_rest: bool, frames_required: u16) -> SleepState {
    if at_rest {
        let frames: u16 = if s.sleep_frames < u16::MAX {
            (s.sleep_frames + 1) as u16
        } else {
            u16::MAX
        };
        SleepState { is_sleeping: s.is_sleeping || frames >= frames_required, sleep_frames: frames }
    } else {
        SleepState { is_sleeping: false, sleep_frames: 0 }
    }
}

/// Advances the sleep counter of a body; returns whether its velocities are to
/// be zeroed, which happens on every step at rest once the counter has reached
/// `frames_required`.
pub fn advance_sleep(state: &mut SleepState, at_rest: bool, frames_required: u16) -> (stop: bool)
    ensures
        *final(state) == rest_step(*old(state), at_rest, frames_required),
        stop == (at_rest && final(state).sleep_frames >= frames_required),
{
    if at_rest {
        state.sleep_frames = state.sleep_frames.saturating_add(1);
        if state.sleep_frames >= frames_required {
            state.is_sleeping = true;
            true
        } else {
            false
        }
    } else {
        state.sleep_frames = 0;
        state.is_sleeping = false;
        false
    }
}

/// The parts of the integration step that apply to a body.
#[derive(Debug, Clone, Copy, PartialEq, Eq, Structural)]
pub struct IntegrationSteps {
    pub apply_gravity: bool,
    pub translate: bool,
    pub rotate: bool,
    pub track_sleep: bool,
}

/// A body is integrated when it is dynamic and not asleep (sleep counts only
/// where sleeping is enabled and the body allows it).
pub open spec fn is_integrated(body: BodyStatus, sleep_enable: bool) -> bool {
    body.body_type == BodyType::Dynamic && !(sleep_enable && body.flags.has(
        BodyFlags::SLEEPING_ALLOWED,
    ) && body.is_sleeping)
}

pub fn integration_steps(body: BodyStatus, sleep_enable: bool) -> (r: Option<IntegrationSteps>)
    ensures
        r is Some == is_integrated(body, sleep_enable),
        r matches Some(steps) ==> steps == (IntegrationSteps {
            apply_gravity: body.flags.has(BodyFlags::ENABLE_GRAVITY),
            translate: body.flags.has(BodyFlags::ENABLE_TRANSLATION),
            rotate: body.flags.has(BodyFlags::ENABLE_ROTATION),
            track_sleep: sleep_enable && body.flags.has(BodyFlags::SLEEPING_ALLOWED),
        }),
{
    if body.body_type != BodyType::Dynamic {
        return None;
    }
    if sleep_enable && body.flags.contains(BodyFlags::SLEEPING_ALLOWED) && body.is_sleeping {
        return None;
    }
    Some(
        IntegrationSteps {
            apply_gravity: body.flags.contains(BodyFlags::ENABLE_GRAVITY),
            translate: body.flags.contains(BodyFlags::ENABLE_TRANSLATION),
            rotate: body.flags.contains(BodyFlags::ENABLE_ROTATION),
            track_sleep: sleep_enable && body.flags.contains(BodyFlags::SLEEPING_ALLOWED),
        },
    )
}

/// The state after `n` steps in a row at rest.
pub open spec fn rest_steps(s: SleepState, n: nat, frames_required: u16) -> SleepState
    decreases n,
{
    if n == 0 {
        s
    } else {
        rest_step(rest_steps(s, (n - 1) as nat, frames_required), true, frames_required)
    }
}

proof fn lemma_rest_steps_count(s: SleepState, n: nat, frames_required: u16)
    ensures
        rest_steps(s, n, frames_required).sleep_frames == (if s.sleep_frames + n <= u16::MAX {
            s.sleep_frames + n
        } else {
            u16::MAX as int
        }),
        s.is_sleeping ==> rest_steps(s, n, frames_required).is_sleeping,
        rest_steps(s, n, frames_required).sleep_frames >= frames_required ==> (n == 0
            || rest_steps(s, n, frames_required).is_sleeping),
    decreases n,
{
    if n > 0 {
        lemma_rest_steps_count(s, (n - 1) as nat, frames_required);
    }
}

/// A body at rest falls asleep: after `frames_required` steps in a row at
/// rest (at least one), it sleeps, whatever its state before.
pub proof fn law_rest_leads_to_sleep(s: SleepState, frames_required: u16, n: nat)
    requires
        n >= frames_required,
        n >= 1,
    ensures
        rest_steps(s, n, frames_required).is_sleeping,
{
    lemma_rest_steps_count(s, n, frames_required);
}

/// A step away from rest wakes the body and resets its counter.
pub proof fn law_motion_wakes(s: SleepState, frames_required: u16)
    ensures
        rest_step(s, false, frames_required) == (SleepState { is_sleeping: false, sleep_frames: 0 }),
{
}

/// A woken body is awake; waking is what sets the counter back to zero.
pub proof fn law_wake_clears_sleep(s: SleepState)
    ensures
        !woken(s, true).is_sleeping,
        s.is_sleeping ==> woken(s, true).sleep_frames == 0,
        woken(s, false) == s,
{
}

/// A sleeping body (with sleeping enabled and allowed) is left alone by the
/// integration step, and so is every body that is not dynamic.
pub proof fn law_sleeping_bodies_stay_put(body: BodyStatus, sleep_enable: bool)
    ensures
        (sleep_enable && body.flags.has(BodyFlags::SLEEPING_ALLOWED) && body.is_sleeping)
            ==> !is_integrated(body, sleep_enable),
        body.body_type != BodyType::Dynamic ==> !is_integrated(body, sleep_enable),
{
}

/// One step at rest adds one to the counter (up to its maximum); an awake body
/// falls asleep only once the counter reaches the threshold, and then it does;
/// a sleeping body stays asleep.
pub proof fn law_rest_step_threshold(s: SleepState, frames_required: u16)
    ensures
        rest_step(s, true, frames_required).sleep_frames as int == (if s.sleep_frames < 65535 {
            s.sleep_frames + 1
        } else {
            65535
        }),
        !s.is_sleeping && rest_step(s, true, frames_required).sleep_frames < frames_required
            ==> !rest_step(s, true, frames_required).is_sleeping,
        rest_step(s, true, frames_required).sleep_frames >= frames_required ==> rest_step(
            s,
            true,
            frames_required,
        ).is_sleeping,
        s.is_sleeping ==> rest_step(s, true, frames_required).is_sleeping,
{
}

/// An awake body stays awake while its steps at rest have not brought the
/// counter up to the threshold; the counter then grows by one per step.
pub proof fn law_awake_until_threshold(s: SleepState, frames_required: u16, n: nat)
    requires
        !s.is_sleeping,
        s.sleep_frames + n < frames_required,
    ensures
        !rest_steps(s, n, frames_required).is_sleeping,
        rest_steps(s, n, frames_required).sleep_frames == s.sleep_frames + n,
    decreases n,
{
    if n > 0 {
        law_awake_until_threshold(s, frames_required, (n - 1) as nat);
    }
}

/// An awake dynamic body is integrated, and so is every dynamic body while
/// sleeping is disabled or not allowed for it.
pub proof fn law_awake_dynamic_bodies_move(body: BodyStatus, sleep_enable: bool)
    ensures
        body.body_type == BodyType::Dynamic && !body.is_sleeping ==> is_integrated(
            body,
            sleep_enable,
        ),
        body.body_type == BodyType::Dynamic && (!sleep_enable || !body.flags.has(
            BodyFlags::SLEEPING_ALLOWED,
        )) ==> is_integrated(body, sleep_enable),
{
}

/// Waking leaves an awake body exactly as it was.
pub proof fn law_wake_keeps_awake_bodies(s: SleepState, sleep_enable: bool)
    requires
        !s.is_sleeping,
    ensures
        woken(s, sleep_enable) == s,
{
}

} // verus!
