use vstd::prelude::*;
use crate::entity::EntityId;
use crate::geometry::{within_distance, Point3};
use crate::picking::RayHit;
use crate::resources::{ResourceSource, ResourceType};
use crate::units::{max_mining_dist, unit_mining_rate, UnitInformation, UnitStat, UnitType};
use crate::world::{Unit, World};

verus! {

/// Where a gathering unit stands in its lifecycle.
#[derive(Clone, Copy, Debug, PartialEq, Eq, Structural, Hash)]
pub enum CollectorState {
    Collecting,
    Approaching,
    Cancelled,
}

/// The gathering that a unit is engaged in. A unit holds at most one; a
/// new order takes the place of the old.
#[derive(Clone, Copy, Debug, PartialEq, Eq, Structural, Hash)]
pub struct Collector {
    pub resource: ResourceType,
    pub resource_entity: EntityId,
    pub owner_player: EntityId,
    pub state: CollectorState,
}

/// Entry `i` is the first source with the handle `entity`.
pub open spec fn is_first_source(
    sources: Seq<ResourceSource>,
    i: int,
    entity: EntityId,
) -> bool {
    &&& 0 <= i < sources.len()
    &&& sources[i].entity == entity
    &&& forall|k: int| 0 <= k < i ==> (#[trigger] sources[k]).entity != entity
}

/// Whether `entity` is a resource source.
pub open spec fn is_source(sources: Seq<ResourceSource>, entity: EntityId) -> bool {
    exists|i: int| is_first_source(sources, i, entity)
}

/// Where the source with the handle `entity` lies, if there is one. Where
/// several have it, the first counts.
pub open spec fn source_position(sources: Seq<ResourceSource>, entity: EntityId) -> Option<Point3> {
    if is_source(sources, entity) {
        Some(sources[choose|i: int| is_first_source(sources, i, entity)].position)
    } else {
        None
    }
}

/// Whether a unit at `position` is near enough to its target to mine it.
/// The boundary counts as near enough. A target that is gone counts as
/// lying where the unit is.
pub open spec fn in_mining_range(
    position: Point3,
    target: Option<Point3>,
    stats: Seq<UnitStat>,
) -> bool {
    match target {
        Some(at) => within_distance(position, at, max_mining_dist(stats)),
        None => within_distance(position, position, max_mining_dist(stats)),
    }
}

/// The state that follows `state` by distance alone: an approaching unit
/// that is in range collects, a collecting unit that is out of range is
/// cancelled, and nothing leads out of `Cancelled`.
pub open spec fn state_by_distance(state: CollectorState, in_range: bool) -> CollectorState {
    match state {
        CollectorState::Approaching => if in_range {
            CollectorState::Collecting
        } else {
            CollectorState::Approaching
        },
        CollectorState::Collecting => if in_range {
            CollectorState::Collecting
        } else {
            CollectorState::Cancelled
        },
        CollectorState::Cancelled => CollectorState::Cancelled,
    }
}

/// The state that a tick gives a collector: `Cancelled` for a unit that
/// mines its resource at no rate above zero, wherever it stands; for the
/// others the state that follows by distance.
pub open spec fn evaluated_state(
    state: CollectorState,
    in_range: bool,
    unit_rate: int,
) -> CollectorState {
    if unit_rate <= 0 {
        CollectorState::Cancelled
    } else {
        state_by_distance(state, in_range)
    }
}

/// The state that a tick gives the collector `collector` of `unit`.
pub open spec fn state_after_tick(
    unit: Unit,
    collector: Collector,
    sources: Seq<ResourceSource>,
) -> CollectorState {
    evaluated_state(
        collector.state,
        in_mining_range(
            unit.position,
            source_position(sources, collector.resource_entity),
            unit.info.stats@,
        ),
        unit_mining_rate(unit.info.stats@, collector.resource),
    )
}

/// The collector of a unit after a tick. One that the tick finds cancelled
/// is removed; any other stays, in the state that the tick gives it.
pub open spec fn collector_after_tick(unit: Unit, sources: Seq<ResourceSource>) -> Option<
    Collector,
> {
    match unit.collector {
        Some(collector) => if collector.state == CollectorState::Cancelled {
            None
        } else {
            Some(Collector { state: state_after_tick(unit, collector, sources), ..collector })
        },
        None => None,
    }
}

/// The unit after a tick: nothing but its collector changes.
pub open spec fn unit_after_tick(unit: Unit, sources: Seq<ResourceSource>) -> Unit {
    Unit { collector: collector_after_tick(unit, sources), ..unit }
}

/// The units after a tick.
pub open spec fn units_after_tick(units: Seq<Unit>, sources: Seq<ResourceSource>) -> Seq<Unit> {
    Seq::new(units.len(), |i: int| unit_after_tick(units[i], sources))
}

/// The collector that a gathering order gives a unit. Every order is for
/// plotanium, whatever the source holds.
pub open spec fn ordered_collector(source: EntityId, player: EntityId) -> Collector {
    Collector {
        resource: ResourceType::Plotanium,
        resource_entity: source,
        owner_player: player,
        state: CollectorState::Approaching,
    }
}

/// The unit after gathering at `source` was ordered for `player`: a
/// selected mining station starts to approach the source, in place of any
/// gathering it was engaged in; every other unit is as it was.
pub open spec fn unit_after_order(unit: Unit, source: EntityId, player: EntityId) -> Unit {
    if unit.selected && unit.info.unit_type == UnitType::MiningStation {
        Unit { collector: Some(ordered_collector(source, player)), ..unit }
    } else {
        unit
    }
}

/// The units after gathering at `source` was ordered for `player`.
pub open spec fn units_after_order(units: Seq<Unit>, source: EntityId, player: EntityId) -> Seq<
    Unit,
> {
    Seq::new(units.len(), |i: int| unit_after_order(units[i], source, player))
}

/// The units after one hit was seen by the collector lifecycle. A hit of
/// the select button on a resource source orders the gathering there; any
/// other hit orders nothing.
pub open spec fn units_after_order_hit(
    units: Seq<Unit>,
    sources: Seq<ResourceSource>,
    hit: RayHit,
    player: EntityId,
) -> Seq<Unit> {
    if hit.mouse_key_enable_mouse && is_source(sources, hit.hit_entity) {
        units_after_order(units, hit.hit_entity, player)
    } else {
        units
    }
}

/// The units after the hits were seen by the collector lifecycle, one after
/// the other.
pub open spec fn units_after_order_hits(
    units: Seq<Unit>,
    sources: Seq<ResourceSource>,
    hits: Seq<RayHit>,
    player: EntityId,
) -> Seq<Unit>
    decreases hits.len(),
{
    if hits.len() == 0 {
        units
    } else {
        units_after_order_hit(
            units_after_order_hits(units, sources, hits.drop_last(), player),
            sources,
            hits.last(),
            player,
        )
    }
}

/// Only one source can be the first with a handle.
proof fn lemma_first_source_is_unique(
    sources: Seq<ResourceSource>,
    i: int,
    j: int,
    entity: EntityId,
)
    requires
        is_first_source(sources, i, entity),
        is_first_source(sources, j, entity),
    ensures
        i == j,
{
    if i < j {
        assert(sources[i].entity != entity);
    }
    if j < i {
        assert(sources[j].entity != entity);
    }
}

/// Finds the source with the handle `entity` and says where it lies.
pub fn find_source(sources: &Vec<ResourceSource>, entity: EntityId) -> (found: Option<Point3>)
    ensures
        found == source_position(sources@, entity),
{
    let mut i: usize = 0;
    while i < sources.len()
        invariant
            i <= sources@.len(),
            forall|k: int| 0 <= k < i ==> (#[trigger] sources@[k]).entity != entity,
        decreases sources@.len() - i,
    {
        if sources[i].entity == entity {
            proof {
                assert(is_first_source(sources@, i as int, entity));
                let chosen = choose|k: int| is_first_source(sources@, k, entity);
                lemma_first_source_is_unique(sources@, i as int, chosen, entity);
            }
            return Some(sources[i].position);
        }
        i += 1;
    }
    proof {
        assert forall|k: int| !is_first_source(sources@, k, entity) by {
            if 0 <= k < sources@.len() {
                assert(sources@[k].entity != entity);
            }
        }
    }
    None
}

/// Says in which state distance leaves a collector: the distance between
/// the unit and its target is held against the greatest distance from
/// which the unit can mine.
pub fn check_collection_state(
    collector: &Collector,
    position: &Point3,
    sources: &Vec<ResourceSource>,
    unit_information: &UnitInformation,
) -> (state: CollectorState)
    ensures
        state == state_by_distance(
            collector.state,
            in_mining_range(
                *position,
                source_position(sources@, collector.resource_entity),
                unit_information.stats@,
            ),
        ),
{
    let target = match find_source(sources, collector.resource_entity) {
        Some(at) => at,
        None => *position,
    };
    let max_mining_dist = unit_information.stats.max_mining_dist();
    let in_range = position.within_distance(&target, max_mining_dist);
    match collector.state {
        CollectorState::Approaching => if in_range {
            CollectorState::Collecting
        } else {
            CollectorState::Approaching
        },
        CollectorState::Collecting => if in_range {
            CollectorState::Collecting
        } else {
            CollectorState::Cancelled
        },
        CollectorState::Cancelled => CollectorState::Cancelled,
    }
}

impl World {
    /// Orders every selected mining station to gather at `source` for
    /// `player`.
    pub fn order_collecting(&mut self, source: EntityId, player: EntityId)
        ensures
            final(self).units@ == units_after_order(old(self).units@, source, player),
            final(self).indicators == old(self).indicators,
            final(self).sources == old(self).sources,
            final(self).players == old(self).players,
    {
        let n: usize = self.units.len();
        let mut i: usize = 0;
        while i < n
            invariant
                i <= n,
                n == self.units@.len(),
                n == old(self).units@.len(),
                self.indicators == old(self).indicators,
                self.sources == old(self).sources,
                self.players == old(self).players,
                forall|k: int|
                    0 <= k < i ==> #[trigger] self.units@[k] == unit_after_order(
                        old(self).units@[k],
                        source,
                        player,
                    ),
                forall|k: int| i <= k < n ==> #[trigger] self.units@[k] == old(self).units@[k],
            decreases n - i,
        {
            if self.units[i].selected {
                match self.units[i].info.unit_type {
                    UnitType::MiningStation => {
                        self.units[i].collector = Some(
                            Collector {
                                resource: ResourceType::Plotanium,
                                resource_entity: source,
                                owner_player: player,
                                state: CollectorState::Approaching,
                            },
                        );
                    },
                    _ => {},
                }
            }
            i += 1;
        }
        assert(self.units@ =~= units_after_order(old(self).units@, source, player));
    }

    /// Shows the hits of a step to the collector lifecycle, in their order:
    /// each hit of the select button on a resource source sends the
    /// selected mining stations there, to gather for `main_player`.
    pub fn start_collecting(&mut self, hits: &Vec<RayHit>, main_player: EntityId)
        ensures
            final(self).units@ == units_after_order_hits(
                old(self).units@,
                old(self).sources@,
                hits@,
                main_player,
            ),
            final(self).indicators == old(self).indicators,
            final(self).sources == old(self).sources,
            final(self).players == old(self).players,
    {
        let n: usize = hits.len();
        let mut i: usize = 0;
        while i < n
            invariant
                i <= n,
                n == hits@.len(),
                self.units@ == units_after_order_hits(
                    old(self).units@,
                    old(self).sources@,
                    hits@.take(i as int),
                    main_player,
                ),
                self.indicators == old(self).indicators,
                self.sources == old(self).sources,
                self.players == old(self).players,
            decreases n - i,
        {
            proof {
                assert(hits@.take(i + 1).drop_last() =~= hits@.take(i as int));
            }
            let hit = hits[i];
            if hit.mouse_key_enable_mouse && find_source(&self.sources, hit.hit_entity).is_some() {
                self.order_collecting(hit.hit_entity, main_player);
            }
            i += 1;
        }
        proof {
            assert(hits@.take(n as int) =~= hits@);
        }
    }
}

} // verus!
