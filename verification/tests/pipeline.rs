use rts_core::accrual::{AccrualTimer, ACCRUAL_INTERVAL_NANOS};
use rts_core::civilisation::{
    Civilisation, CivilisationBoni, CivilisationBoniMap, EcoBoni, ResourceBonus,
};
use rts_core::collection::CollectorState;
use rts_core::entity::EntityId;
use rts_core::geometry::{Point2, Point3};
use rts_core::movement::MoveCommand;
use rts_core::picking::{process_mouse, PointerInput, RayCast, RayIntersection};
use rts_core::player::Player;
use rts_core::resources::{ResourceLevel, ResourceSource, ResourceType, ResourceUpdateEvent};
use rts_core::units::{UnitInformation, UnitStat, UnitStats, UnitType};
use rts_core::world::{Indicator, Unit, World};

const PLAYER: EntityId = EntityId(1);
const STATION: EntityId = EntityId(10);
const CRUISER: EntityId = EntityId(11);
const SOURCE: EntityId = EntityId(20);
const GROUND: EntityId = EntityId(30);

fn click(select: bool, moves: bool) -> PointerInput {
    PointerInput {
        window_found: true,
        camera_found: true,
        over_ui: false,
        select_pressed: select,
        move_pressed: moves,
    }
}

fn on(entity: EntityId, x: i32, y: i32, z: i32) -> RayCast {
    Some((entity, RayIntersection { point: Point3::new(x, y, z) }))
}

fn world() -> World {
    let station = UnitInformation {
        unit_type: UnitType::MiningStation,
        stats: UnitStats(vec![UnitStat::BaseMiningRate(3000), UnitStat::MaxMiningDist(10)]),
    };
    let cruiser = UnitInformation { unit_type: UnitType::Cruiser, stats: UnitStats(vec![]) };
    let mut world = World::new();
    world.units.push(Unit::new(STATION, station, Point3::new(3, 0, 4), true, true));
    world.units.push(Unit::new(CRUISER, cruiser, Point3::new(0, 0, 0), true, true));
    world.indicators.push(Indicator { entity: EntityId(100), parent: STATION, visible: false });
    world.indicators.push(Indicator { entity: EntityId(101), parent: CRUISER, visible: false });
    world.sources.push(ResourceSource {
        entity: SOURCE,
        position: Point3::new(0, 0, 0),
        level: ResourceLevel { resource_type: ResourceType::Plotanium, amount: 1000 },
    });
    world.players.push(Player::new(PLAYER, Civilisation::Greek));
    world
}

fn boni() -> CivilisationBoniMap {
    let mut boni = CivilisationBoniMap::new();
    boni.insert(
        Civilisation::Greek,
        CivilisationBoni {
            eco_boni: EcoBoni {
                resource_boni: vec![ResourceBonus { resource: ResourceType::Plotanium, rate: 1000 }],
            },
        },
    );
    boni
}

#[test]
fn from_the_click_to_the_ledger() {
    let mut world = world();
    let boni = boni();
    let mut timer = AccrualTimer::new();

    // Click on the station: it is selected.
    let events = process_mouse(&click(true, false), on(STATION, 3, 0, 4), None);
    world.handle_pick_events(&events, false, PLAYER);
    assert_eq!(world.selected(), vec![STATION]);
    assert!(world.indicators[0].visible);
    assert!(world.units[0].collector.is_none());

    // Click on the source: the station is sent there.
    let events = process_mouse(&click(true, false), on(SOURCE, 0, 0, 0), None);
    world.handle_pick_events(&events, false, PLAYER);
    let collector = world.units[0].collector.unwrap();
    assert_eq!(collector.state, CollectorState::Approaching);
    assert_eq!(collector.resource, ResourceType::Plotanium);
    assert_eq!(collector.resource_entity, SOURCE);
    assert_eq!(collector.owner_player, PLAYER);
    assert!(world.units[1].collector.is_none());

    // Half a second passes: nothing happens yet.
    let report = world.collect(&mut timer, ACCRUAL_INTERVAL_NANOS / 2, &boni).unwrap();
    assert!(report.events.is_empty());
    assert_eq!(world.units[0].collector.unwrap().state, CollectorState::Approaching);

    // The second is full: at distance 5 of 10 the station collects 3 + 1.
    let report = world.collect(&mut timer, ACCRUAL_INTERVAL_NANOS / 2, &boni).unwrap();
    assert_eq!(world.units[0].collector.unwrap().state, CollectorState::Collecting);
    assert_eq!(world.players[0].levels.get(ResourceType::Plotanium), Some(4));
    assert_eq!(
        report.events,
        vec![ResourceUpdateEvent(ResourceLevel {
            resource_type: ResourceType::Plotanium,
            amount: 4
        })]
    );

    // Another second at the source: 4 more.
    world.collect(&mut timer, ACCRUAL_INTERVAL_NANOS, &boni).unwrap();
    assert_eq!(world.players[0].levels.get(ResourceType::Plotanium), Some(8));

    // The station is taken to distance 50: the gathering is cancelled.
    world.units[0].position = Point3::new(30, 0, 40);
    let report = world.collect(&mut timer, ACCRUAL_INTERVAL_NANOS, &boni).unwrap();
    assert_eq!(world.units[0].collector.unwrap().state, CollectorState::Cancelled);
    assert!(report.events.is_empty());
    assert_eq!(world.players[0].levels.get(ResourceType::Plotanium), Some(8));

    // The next tick removes the collector, and the ledger stays.
    let report = world.collect(&mut timer, ACCRUAL_INTERVAL_NANOS, &boni).unwrap();
    assert!(world.units[0].collector.is_none());
    assert!(report.events.is_empty());
    assert_eq!(world.players[0].levels.get(ResourceType::Plotanium), Some(8));

    // Taken back, the station does not gather without a new order.
    world.units[0].position = Point3::new(3, 0, 4);
    world.collect(&mut timer, ACCRUAL_INTERVAL_NANOS, &boni).unwrap();
    assert!(world.units[0].collector.is_none());
    assert_eq!(world.players[0].levels.get(ResourceType::Plotanium), Some(8));
}

#[test]
fn picking_the_source_needs_the_station_selected() {
    let mut world = world();
    let events = process_mouse(&click(true, false), on(CRUISER, 0, 0, 0), None);
    world.handle_pick_events(&events, false, PLAYER);
    let events = process_mouse(&click(true, false), on(SOURCE, 0, 0, 0), None);
    world.handle_pick_events(&events, false, PLAYER);
    assert!(world.units[0].collector.is_none());
    assert!(world.units[1].collector.is_none());
}

#[test]
fn move_click_sends_the_selection() {
    let mut world = world();
    let events = process_mouse(&click(true, false), on(CRUISER, 0, 0, 0), None);
    world.handle_pick_events(&events, false, PLAYER);
    let events = process_mouse(&click(false, true), None, on(GROUND, 70, 1, 90));
    world.handle_pick_events(&events, false, PLAYER);
    assert_eq!(world.units[1].move_command, Some(MoveCommand { target: Point2::new(70, 90) }));
    assert_eq!(world.units[0].move_command, None);
    assert_eq!(world.selected(), vec![CRUISER]);
}

#[test]
fn move_click_into_empty_space_sends_nobody() {
    let mut world = world();
    let events = process_mouse(&click(true, false), on(CRUISER, 0, 0, 0), None);
    world.handle_pick_events(&events, false, PLAYER);
    let events = process_mouse(&click(false, true), None, None);
    world.handle_pick_events(&events, false, PLAYER);
    assert_eq!(world.units[1].move_command, None);
    assert_eq!(world.selected(), vec![CRUISER]);
}

#[test]
fn click_over_the_ui_changes_nothing() {
    let mut world = world();
    let events = process_mouse(&click(true, false), on(CRUISER, 0, 0, 0), None);
    world.handle_pick_events(&events, false, PLAYER);
    let blocked = PointerInput { over_ui: true, ..click(true, true) };
    let events = process_mouse(&blocked, None, on(GROUND, 70, 1, 90));
    world.handle_pick_events(&events, false, PLAYER);
    assert_eq!(world.selected(), vec![CRUISER]);
    assert_eq!(world.units[1].move_command, None);
}

#[test]
fn click_into_empty_space_clears_the_selection() {
    let mut world = world();
    let events = process_mouse(&click(true, false), on(CRUISER, 0, 0, 0), None);
    world.handle_pick_events(&events, false, PLAYER);
    let events = process_mouse(&click(true, false), on(STATION, 0, 0, 0), None);
    world.handle_pick_events(&events, true, PLAYER);
    assert_eq!(world.selected(), vec![STATION, CRUISER]);
    let events = process_mouse(&click(true, false), None, None);
    world.handle_pick_events(&events, true, PLAYER);
    assert!(world.selected().is_empty());
    assert!(!world.indicators[0].visible);
    assert!(!world.indicators[1].visible);
}
