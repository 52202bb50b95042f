//! The decisions of the player controller: the camera mode and how keys map
//! to movement axes.
use vstd::prelude::*;

use crate::components::EntityId;

verus! {

/// Whether the camera follows the player or flies freely.
#[derive(Debug, Clone, Copy, PartialEq, Eq, Hash, Structural)]
pub enum CameraMode {
    Follow,
    Free,
}

impl Default for CameraMode {
    fn default() -> (r: CameraMode)
        ensures
            r == CameraMode::Follow,
    {
        CameraMode::Follow
    }
}

/// What switching the camera mode asks of the world: the follow camera turns
/// free, or the free camera goes back to following the player.
#[derive(Debug, Clone, Copy, PartialEq, Eq, Structural)]
pub enum CameraSwitch {
    ToFree { camera: EntityId },
    ToFollow { camera: EntityId, player: EntityId },
}

/// The mode and the switch after the toggle key; `player`, `follow_camera` and
/// `free_camera` are the single entity of each kind, where there is exactly
/// one.
pub open spec fn toggled(
    mode: CameraMode,
    tab_just_pressed: bool,
    player: Option<EntityId>,
    follow_camera: Option<EntityId>,
    free_camera: Option<EntityId>,
) -> (CameraMode, Option<CameraSwitch>) {
    if !tab_just_pressed || player is None {
        (mode, None)
    } else {
        match mode {
            CameraMode::Follow => match follow_camera {
                Some(c) => (CameraMode::Free, Some(CameraSwitch::ToFree { camera: c })),
                None => (mode, None),
            },
            CameraMode::Free => match free_camera {
                Some(c) => (
                    CameraMode::Follow,
                    Some(CameraSwitch::ToFollow { camera: c, player: player.unwrap() }),
                ),
                None => (mode, None),
            },
        }
    }
}

/// Switches the camera mode when the toggle key was just pressed, the player
/// exists and so does the camera of the current mode; returns what the world
/// has to do.
pub fn toggle_camera_mode(
    mode: &mut CameraMode,
    tab_just_pressed: bool,
    player: Option<EntityId>,
    follow_camera: Option<EntityId>,
    free_camera: Option<EntityId>,
) -> (r: Option<CameraSwitch>)
    ensures
        (*final(mode), r) == toggled(
            *old(mode),
            tab_just_pressed,
            player,
            follow_camera,
            free_camera,
        ),
{
    if !tab_just_pressed {
        return None;
    }
    let player_entity: EntityId = match player {
        Some(e) => e,
        None => return None,
    };
    match *mode {
        CameraMode::Follow => {
            let cam_entity: EntityId = match follow_camera {
                Some(e) => e,
                None => return None,
            };
            *mode = CameraMode::Free;
            Some(CameraSwitch::ToFree { camera: cam_entity })
        },
        CameraMode::Free => {
            let cam_entity: EntityId = match free_camera {
                Some(e) => e,
                None => return None,
            };
            *mode = CameraMode::Follow;
            Some(CameraSwitch::ToFollow { camera: cam_entity, player: player_entity })
        },
    }
}

/// The value of one axis from the keys of its two directions.
pub open spec fn key_axis(negative: bool, positive: bool) -> i8 {
    if positive && !negative {
        1
    } else if negative && !positive {
        -1i8
    } else {
        0
    }
}

fn axis_from_keys(negative: bool, positive: bool) -> (r: i8)
    ensures
        r == key_axis(negative, positive),
{
    let mut v: i8 = 0;
    if negative {
        v = v - 1;
    }
    if positive {
        v = v + 1;
    }
    v
}

/// The movement axis of the player before normalisation: `x` from the left
/// and right keys, `y` from the forward and back keys.
pub fn move_axis_from_keys(left: bool, right: bool, forward: bool, back: bool) -> (r: (i8, i8))
    ensures
        r == (key_axis(left, right), key_axis(back, forward)),
{
    (axis_from_keys(left, right), axis_from_keys(back, forward))
}

/// The movement axis of the free camera before normalisation, in its own
/// frame: `x` from left and right, `y` from down and up, `z` from forward
/// (towards negative `z`) and back.
pub fn free_camera_axis(
    forward: bool,
    back: bool,
    left: bool,
    right: bool,
    up: bool,
    down: bool,
) -> (r: (i8, i8, i8))
    ensures
        r == (key_axis(left, right), key_axis(down, up), key_axis(forward, back)),
{
    (axis_from_keys(left, right), axis_from_keys(down, up), axis_from_keys(forward, back))
}

/// Toggling twice, with the player and both cameras present, brings the mode
/// back.
pub proof fn law_toggle_twice_restores_mode(
    mode: CameraMode,
    player: EntityId,
    follow_camera: EntityId,
    free_camera: EntityId,
)
    ensures
        ({
            let first = toggled(mode, true, Some(player), Some(follow_camera), Some(free_camera)).0;
            toggled(first, true, Some(player), Some(follow_camera), Some(free_camera)).0 == mode
        }),
{
}

/// Without the toggle key nothing changes.
pub proof fn law_no_key_no_switch(
    mode: CameraMode,
    player: Option<EntityId>,
    follow_camera: Option<EntityId>,
    free_camera: Option<EntityId>,
)
    ensures
        toggled(mode, false, player, follow_camera, free_camera) == (mode, None::<CameraSwitch>),
{
}

/// Each axis is `+1` for its positive key alone, `-1` for its negative key
/// alone, and `0` for both keys or none: the positive key counts one up, the
/// negative one down.
pub proof fn law_key_axis(negative: bool, positive: bool)
    ensures
        key_axis(negative, positive) as int == (if positive {
            1int
        } else {
            0int
        }) - (if negative {
            1int
        } else {
            0int
        }),
{
}

/// With the key pressed and the player and the camera of the current mode
/// present, the mode flips and the switch names that camera (and, back to
/// following, the player).
pub proof fn law_toggle_flips(
    mode: CameraMode,
    player: EntityId,
    follow_camera: EntityId,
    free_camera: EntityId,
)
    ensures
        ({
            let (next, switch) = toggled(
                mode,
                true,
                Some(player),
                Some(follow_camera),
                Some(free_camera),
            );
            &&& next != mode
            &&& mode == CameraMode::Follow ==> switch == Some(
                CameraSwitch::ToFree { camera: follow_camera },
            )
            &&& mode == CameraMode::Free ==> switch == Some(
                CameraSwitch::ToFollow { camera: free_camera, player },
            )
        }),
{
}

/// Without the player, or without the camera of the current mode, nothing
/// happens.
pub proof fn law_toggle_needs_player_and_camera(
    mode: CameraMode,
    tab: bool,
    player: Option<EntityId>,
    follow_camera: Option<EntityId>,
    free_camera: Option<EntityId>,
)
    ensures
        player is None ==> toggled(mode, tab, player, follow_camera, free_camera) == (
            mode,
            None::<CameraSwitch>,
        ),
        mode == CameraMode::Follow && follow_camera is None ==> toggled(
            mode,
            tab,
            player,
            follow_camera,
            free_camera,
        ) == (mode, None::<CameraSwitch>),
        mode == CameraMode::Free && free_camera is None ==> toggled(
            mode,
            tab,
            player,
            follow_camera,
            free_camera,
        ) == (mode, None::<CameraSwitch>),
{
}

} // verus!
