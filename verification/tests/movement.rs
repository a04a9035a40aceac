use rts_core::entity::EntityId;
use rts_core::geometry::{Point2, Point3};
use rts_core::movement::MoveCommand;
use rts_core::picking::{RayHit, RayIntersection};
use rts_core::units::{UnitInformation, UnitStats, UnitType};
use rts_core::world::{Unit, World};

fn unit(entity: u64, selected: bool, movable: bool) -> Unit {
    let info = UnitInformation { unit_type: UnitType::Cruiser, stats: UnitStats(vec![]) };
    let mut unit = Unit::new(EntityId(entity), info, Point3::new(0, 0, 0), true, movable);
    unit.selected = selected;
    unit
}

fn world() -> World {
    let mut world = World::new();
    world.units.push(unit(1, true, true));
    world.units.push(unit(2, true, false));
    world.units.push(unit(3, false, true));
    world.units.push(unit(4, true, true));
    world
}

fn move_hit(x: i32, y: i32, z: i32) -> RayHit {
    RayHit {
        hit_entity: EntityId(50),
        mouse_key_enable_mouse: false,
        mouse_unit_move_button: true,
        ray_intersection: RayIntersection { point: Point3::new(x, y, z) },
    }
}

fn commands(world: &World) -> Vec<Option<MoveCommand>> {
    world.units.iter().map(|unit| unit.move_command).collect()
}

#[test]
fn move_goes_to_selected_movable_units() {
    let mut world = world();
    world.issue_move(Point2::new(5, 6));
    let order = Some(MoveCommand { target: Point2::new(5, 6) });
    assert_eq!(commands(&world), vec![order, None, None, order]);
}

#[test]
fn target_drops_the_vertical_axis() {
    let mut world = world();
    world.handle_move_hit(&move_hit(11, 22, 33));
    assert_eq!(world.units[0].move_command, Some(MoveCommand { target: Point2::new(11, 33) }));
    assert_eq!(Point3::new(11, 22, 33).ground(), Point2::new(11, 33));
}

#[test]
fn second_command_takes_the_place_of_the_first() {
    let mut world = world();
    world.issue_move_commands(&vec![move_hit(1, 0, 1)]);
    world.issue_move_commands(&vec![move_hit(2, 0, 2)]);
    let order = Some(MoveCommand { target: Point2::new(2, 2) });
    assert_eq!(commands(&world), vec![order, None, None, order]);
}

#[test]
fn last_hit_of_a_step_counts() {
    let mut world = world();
    world.issue_move_commands(&vec![move_hit(1, 0, 1), move_hit(2, 0, 2), move_hit(3, 0, 3)]);
    assert_eq!(world.units[0].move_command, Some(MoveCommand { target: Point2::new(3, 3) }));
}

#[test]
fn hit_without_the_move_button_orders_nothing() {
    let mut world = world();
    let hit = RayHit { mouse_key_enable_mouse: true, mouse_unit_move_button: false, ..move_hit(1, 2, 3) };
    world.issue_move_commands(&vec![hit]);
    assert_eq!(commands(&world), vec![None, None, None, None]);
}

#[test]
fn pending_command_of_an_unselected_unit_stays() {
    let mut world = world();
    world.units[2].move_command = Some(MoveCommand { target: Point2::new(9, 9) });
    world.issue_move(Point2::new(5, 6));
    assert_eq!(world.units[2].move_command, Some(MoveCommand { target: Point2::new(9, 9) }));
}

#[test]
fn move_touches_nothing_else() {
    let mut world = world();
    world.issue_move(Point2::new(5, 6));
    assert!(world.units[0].selected);
    assert!(world.units[0].collector.is_none());
    assert_eq!(world.units[0].position, Point3::new(0, 0, 0));
    assert_eq!(world.units.len(), 4);
}
