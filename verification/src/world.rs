use vstd::prelude::*;
use crate::collection::Collector;
use crate::entity::EntityId;
use crate::geometry::Point3;
use crate::movement::MoveCommand;
use crate::player::Player;
use crate::resources::ResourceSource;
use crate::units::UnitInformation;

verus! {

/// A marker that shows that its parent is selected. A unit owns any number
/// of them; all of them are shown while it is selected and hidden while it
/// is not.
#[derive(Clone, Copy, Debug, PartialEq, Eq, Structural, Hash)]
pub struct Indicator {
    pub entity: EntityId,
    pub parent: EntityId,
    pub visible: bool,
}

/// What the core knows of one unit.
#[derive(Clone, Debug)]
pub struct Unit {
    pub entity: EntityId,
    /// The unit can be selected.
    pub selectable: bool,
    /// The unit is selected.
    pub selected: bool,
    /// The unit can be moved.
    pub movable: bool,
    /// The pending order to move, if there is one.
    pub move_command: Option<MoveCommand>,
    pub info: UnitInformation,
    pub position: Point3,
    /// The gathering that the unit is engaged in, if any.
    pub collector: Option<Collector>,
}

/// The part of the component store that the core works on. Each list is in
/// the order in which the store is walked.
#[derive(Clone, Debug)]
pub struct World {
    pub units: Vec<Unit>,
    pub indicators: Vec<Indicator>,
    pub sources: Vec<ResourceSource>,
    pub players: Vec<Player>,
}

impl Unit {
    /// A unit that is neither selected nor ordered anywhere nor gathering.
    pub fn new(
        entity: EntityId,
        info: UnitInformation,
        position: Point3,
        selectable: bool,
        movable: bool,
    ) -> (unit: Unit)
        ensures
            unit == (Unit {
                entity,
                selectable,
                selected: false,
                movable,
                move_command: None,
                info,
                position,
                collector: None,
            }),
    {
        Unit {
            entity,
            selectable,
            selected: false,
            movable,
            move_command: None,
            info,
            position,
            collector: None,
        }
    }
}

impl Default for World {
    /// A world without anything in it.
    fn default() -> (world: World)
        ensures
            world.units@.len() == 0,
            world.indicators@.len() == 0,
            world.sources@.len() == 0,
            world.players@.len() == 0,
    {
        World::new()
    }
}

impl World {
    /// A world without anything in it.
    pub fn new() -> (world: World)
        ensures
            world.units@.len() == 0,
            world.indicators@.len() == 0,
            world.sources@.len() == 0,
            world.players@.len() == 0,
    {
        World {
            units: Vec::new(),
            indicators: Vec::new(),
            sources: Vec::new(),
            players: Vec::new(),
        }
    }
}

} // verus!
