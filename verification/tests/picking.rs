use rts_core::entity::EntityId;
use rts_core::geometry::Point3;
use rts_core::picking::{
    handle_select, handle_unit_move_cmd, plan_picks, process_mouse, DeselectEvent, PickFilter,
    PickPlan, PointerInput, RayCast, RayHit, RayIntersection, SelectPick,
};

fn input(select_pressed: bool, move_pressed: bool) -> PointerInput {
    PointerInput {
        window_found: true,
        camera_found: true,
        over_ui: false,
        select_pressed,
        move_pressed,
    }
}

fn cast(entity: u64, x: i32, y: i32, z: i32) -> RayCast {
    Some((EntityId(entity), RayIntersection { point: Point3::new(x, y, z) }))
}

fn hit(entity: u64, select: bool, moves: bool, x: i32, y: i32, z: i32) -> RayHit {
    RayHit {
        hit_entity: EntityId(entity),
        mouse_key_enable_mouse: select,
        mouse_unit_move_button: moves,
        ray_intersection: RayIntersection { point: Point3::new(x, y, z) },
    }
}

#[test]
fn select_pick_passes_the_hit_on() {
    let pick = handle_select(cast(7, 1, 2, 3), false, true);
    assert_eq!(pick, SelectPick::Hit(hit(7, true, false, 1, 2, 3)));
}

#[test]
fn select_pick_that_misses_deselects() {
    assert_eq!(handle_select(None, false, true), SelectPick::Miss(DeselectEvent));
    assert_eq!(handle_select(None, true, true), SelectPick::Miss(DeselectEvent));
}

#[test]
fn move_pick_passes_the_hit_on() {
    let found = handle_unit_move_cmd(cast(7, 1, 2, 3), true, false);
    assert_eq!(found, Some(hit(7, false, true, 1, 2, 3)));
}

#[test]
fn move_pick_that_misses_gives_nothing() {
    assert_eq!(handle_unit_move_cmd(None, true, false), None);
}

#[test]
fn plan_asks_for_the_rays_of_the_pressed_buttons() {
    assert_eq!(plan_picks(&input(false, false)), PickPlan { select: None, move_target: None });
    assert_eq!(
        plan_picks(&input(true, false)),
        PickPlan { select: Some(PickFilter::OnlyKinematic), move_target: None }
    );
    assert_eq!(
        plan_picks(&input(false, true)),
        PickPlan { select: None, move_target: Some(PickFilter::ExcludeSolids) }
    );
    assert_eq!(
        plan_picks(&input(true, true)),
        PickPlan {
            select: Some(PickFilter::OnlyKinematic),
            move_target: Some(PickFilter::ExcludeSolids)
        }
    );
}

#[test]
fn plan_asks_for_nothing_while_the_pointer_is_over_the_ui() {
    let blocked = PointerInput { over_ui: true, ..input(true, true) };
    assert_eq!(plan_picks(&blocked), PickPlan { select: None, move_target: None });
}

#[test]
fn plan_asks_for_nothing_without_window_or_camera() {
    let no_window = PointerInput { window_found: false, ..input(true, true) };
    let no_camera = PointerInput { camera_found: false, ..input(true, true) };
    assert_eq!(plan_picks(&no_window), PickPlan { select: None, move_target: None });
    assert_eq!(plan_picks(&no_camera), PickPlan { select: None, move_target: None });
}

#[test]
fn no_button_no_event() {
    let events = process_mouse(&input(false, false), cast(1, 0, 0, 0), cast(2, 0, 0, 0));
    assert!(events.ray_hits.is_empty());
    assert!(events.deselects.is_empty());
}

#[test]
fn select_button_emits_the_select_hit() {
    let events = process_mouse(&input(true, false), cast(1, 4, 5, 6), cast(2, 0, 0, 0));
    assert_eq!(events.ray_hits, vec![hit(1, true, false, 4, 5, 6)]);
    assert!(events.deselects.is_empty());
}

#[test]
fn select_miss_emits_deselect() {
    let events = process_mouse(&input(true, false), None, cast(2, 0, 0, 0));
    assert!(events.ray_hits.is_empty());
    assert_eq!(events.deselects, vec![DeselectEvent]);
}

#[test]
fn move_button_emits_the_move_hit() {
    let events = process_mouse(&input(false, true), cast(1, 0, 0, 0), cast(2, 7, 8, 9));
    assert_eq!(events.ray_hits, vec![hit(2, false, true, 7, 8, 9)]);
    assert!(events.deselects.is_empty());
}

#[test]
fn move_miss_emits_nothing() {
    let events = process_mouse(&input(false, true), cast(1, 0, 0, 0), None);
    assert!(events.ray_hits.is_empty());
    assert!(events.deselects.is_empty());
}

#[test]
fn both_buttons_emit_both_hits_select_first() {
    let events = process_mouse(&input(true, true), cast(1, 1, 1, 1), cast(2, 2, 2, 2));
    assert_eq!(events.ray_hits, vec![hit(1, true, true, 1, 1, 1), hit(2, true, true, 2, 2, 2)]);
    assert!(events.deselects.is_empty());
}

#[test]
fn both_buttons_with_a_select_miss() {
    let events = process_mouse(&input(true, true), None, cast(2, 2, 2, 2));
    assert_eq!(events.ray_hits, vec![hit(2, true, true, 2, 2, 2)]);
    assert_eq!(events.deselects, vec![DeselectEvent]);
}

#[test]
fn ui_under_the_pointer_blocks_every_pick() {
    let blocked = PointerInput { over_ui: true, ..input(true, true) };
    let events = process_mouse(&blocked, None, cast(2, 2, 2, 2));
    assert!(events.ray_hits.is_empty());
    assert!(events.deselects.is_empty());
}

#[test]
fn no_window_or_no_camera_skips_the_frame() {
    let no_window = PointerInput { window_found: false, ..input(true, true) };
    let events = process_mouse(&no_window, None, cast(2, 2, 2, 2));
    assert!(events.ray_hits.is_empty());
    assert!(events.deselects.is_empty());
    let no_camera = PointerInput { camera_found: false, ..input(true, true) };
    let events = process_mouse(&no_camera, None, cast(2, 2, 2, 2));
    assert!(events.ray_hits.is_empty());
    assert!(events.deselects.is_empty());
}
