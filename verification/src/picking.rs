use vstd::prelude::*;
use crate::entity::EntityId;
use crate::geometry::Point3;

verus! {

/// Where a ray met the collider it hit.
#[derive(Clone, Copy, Debug, PartialEq, Eq, Structural, Hash)]
pub struct RayIntersection {
    pub point: Point3,
}

/// What a ray cast found: the nearest entity on the ray and the
/// intersection with it.
pub type RayCast = Option<(EntityId, RayIntersection)>;

/// A pick that met an entity. The two flags tell which buttons were pressed
/// in the frame of the pick.
#[derive(Clone, Copy, Debug, PartialEq, Eq, Structural, Hash)]
pub struct RayHit {
    pub hit_entity: EntityId,
    pub mouse_key_enable_mouse: bool,
    pub mouse_unit_move_button: bool,
    pub ray_intersection: RayIntersection,
}

/// A select pick that met nothing: the selection is to be cleared.
#[derive(Clone, Copy, Debug, PartialEq, Eq, Structural, Hash)]
pub struct DeselectEvent;

/// Which colliders a pick ray is cast against.
#[derive(Clone, Copy, Debug, PartialEq, Eq, Structural, Hash)]
pub enum PickFilter {
    /// Kinematic colliders only.
    OnlyKinematic,
    /// Every collider but the static, solid ones.
    ExcludeSolids,
}

/// What a frame brings to the pick resolver.
#[derive(Clone, Copy, Debug, PartialEq, Eq, Structural, Hash)]
pub struct PointerInput {
    /// The primary window was found.
    pub window_found: bool,
    /// The game camera was found.
    pub camera_found: bool,
    /// An element of the user interface lies under the pointer.
    pub over_ui: bool,
    /// The select button went down in this frame.
    pub select_pressed: bool,
    /// The move button went down in this frame.
    pub move_pressed: bool,
}

/// The rays that a frame asks for, each with the filter to cast it with.
#[derive(Clone, Copy, Debug, PartialEq, Eq, Structural, Hash)]
pub struct PickPlan {
    pub select: Option<PickFilter>,
    pub move_target: Option<PickFilter>,
}

/// What a select pick gives: a hit, or the order to clear the selection.
#[derive(Clone, Copy, Debug, PartialEq, Eq, Structural, Hash)]
pub enum SelectPick {
    Hit(RayHit),
    Miss(DeselectEvent),
}

/// The events of one frame's picks, each queue in the order of emission.
#[derive(Clone, Debug)]
pub struct PickEvents {
    pub ray_hits: Vec<RayHit>,
    pub deselects: Vec<DeselectEvent>,
}

/// Whether the frame allows picking at all: window and camera are there and
/// the user interface does not hold the pointer.
pub open spec fn picking_enabled(input: PointerInput) -> bool {
    input.window_found && input.camera_found && !input.over_ui
}

/// The hit that a cast gives rise to, with the button flags of the frame.
pub open spec fn hit_of(cast: RayCast, move_button: bool, select_button: bool) -> Option<RayHit> {
    match cast {
        Some((entity, intersection)) => Some(
            RayHit {
                hit_entity: entity,
                mouse_key_enable_mouse: select_button,
                mouse_unit_move_button: move_button,
                ray_intersection: intersection,
            },
        ),
        None => None,
    }
}

/// The hits that the picks of a frame emit: that of the select pick first,
/// then that of the move-target pick.
pub open spec fn hits_of_frame(
    input: PointerInput,
    select_cast: RayCast,
    move_cast: RayCast,
) -> Seq<RayHit> {
    let select_hits = if picking_enabled(input) && input.select_pressed && select_cast is Some {
        seq![hit_of(select_cast, input.move_pressed, input.select_pressed)->Some_0]
    } else {
        Seq::<RayHit>::empty()
    };
    let move_hits = if picking_enabled(input) && input.move_pressed && move_cast is Some {
        seq![hit_of(move_cast, input.move_pressed, input.select_pressed)->Some_0]
    } else {
        Seq::<RayHit>::empty()
    };
    select_hits + move_hits
}

/// Whether the picks of a frame order the selection to be cleared: the
/// select pick was made and met nothing.
pub open spec fn frame_deselects(input: PointerInput, select_cast: RayCast) -> bool {
    picking_enabled(input) && input.select_pressed && select_cast is None
}

/// Says which rays are to be cast in a frame. A select pick sees kinematic
/// colliders only; a move-target pick sees all but the solid ones.
pub fn plan_picks(input: &PointerInput) -> (plan: PickPlan)
    ensures
        plan.select == (if picking_enabled(*input) && input.select_pressed {
            Some(PickFilter::OnlyKinematic)
        } else {
            None
        }),
        plan.move_target == (if picking_enabled(*input) && input.move_pressed {
            Some(PickFilter::ExcludeSolids)
        } else {
            None
        }),
{
    let enabled = input.window_found && input.camera_found && !input.over_ui;
    PickPlan {
        select: if enabled && input.select_pressed {
            Some(PickFilter::OnlyKinematic)
        } else {
            None
        },
        move_target: if enabled && input.move_pressed {
            Some(PickFilter::ExcludeSolids)
        } else {
            None
        },
    }
}

/// Resolves a select pick: a hit is passed on with the button flags, a miss
/// clears the selection.
pub fn handle_select(
    cast: RayCast,
    mouse_unit_move_button: bool,
    mouse_key_enable_mouse: bool,
) -> (pick: SelectPick)
    ensures
        pick == (match hit_of(cast, mouse_unit_move_button, mouse_key_enable_mouse) {
            Some(hit) => SelectPick::Hit(hit),
            None => SelectPick::Miss(DeselectEvent),
        }),
{
    match cast {
        Some((hit_entity, ray_intersection)) => SelectPick::Hit(
            RayHit {
                hit_entity,
                mouse_unit_move_button,
                mouse_key_enable_mouse,
                ray_intersection,
            },
        ),
        None => SelectPick::Miss(DeselectEvent),
    }
}

/// Resolves a move-target pick: a hit is passed on with the button flags, a
/// miss gives nothing, so no unit is sent into empty space.
pub fn handle_unit_move_cmd(
    cast: RayCast,
    mouse_unit_move_button: bool,
    mouse_key_enable_mouse: bool,
) -> (hit: Option<RayHit>)
    ensures
        hit == hit_of(cast, mouse_unit_move_button, mouse_key_enable_mouse),
{
    match cast {
        Some((hit_entity, ray_intersection)) => Some(
            RayHit {
                hit_entity,
                mouse_unit_move_button,
                mouse_key_enable_mouse,
                ray_intersection,
            },
        ),
        None => None,
    }
}

/// Turns the input of a frame and the results of its ray casts into
/// events. `select_cast` is the result of the select ray and `move_cast`
/// that of the move-target ray; the result of a ray that `plan_picks` did
/// not ask for is not looked at.
pub fn process_mouse(input: &PointerInput, select_cast: RayCast, move_cast: RayCast) -> (events:
    PickEvents)
    ensures
        events.ray_hits@ == hits_of_frame(*input, select_cast, move_cast),
        events.deselects@.len() == (if frame_deselects(*input, select_cast) {
            1nat
        } else {
            0nat
        }),
{
    let mut events = PickEvents { ray_hits: Vec::new(), deselects: Vec::new() };
    if !input.window_found {
        return events;
    }
    if input.camera_found {
        let mouse_key_enable_mouse = input.select_pressed;
        let mouse_unit_move_button = input.move_pressed;
        if input.over_ui {
            return events;
        }
        if mouse_key_enable_mouse {
            match handle_select(select_cast, mouse_unit_move_button, mouse_key_enable_mouse) {
                SelectPick::Hit(hit) => {
                    events.ray_hits.push(hit);
                },
                SelectPick::Miss(deselect) => {
                    events.deselects.push(deselect);
                },
            }
        }
        if mouse_unit_move_button {
            match handle_unit_move_cmd(move_cast, mouse_unit_move_button, mouse_key_enable_mouse) {
                Some(hit) => {
                    events.ray_hits.push(hit);
                },
                None => {},
            }
        }
    }
    assert(events.ray_hits@ =~= hits_of_frame(*input, select_cast, move_cast));
    events
}

} // verus!
