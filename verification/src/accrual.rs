use vstd::prelude::*;
use crate::civilisation::{eco_bonus, Civilisation, CivilisationBoniMap, ResourceBonus};
use crate::collection::{
    check_collection_state, collector_after_tick, state_after_tick, unit_after_tick,
    units_after_tick, Collector, CollectorState,
};
use crate::entity::EntityId;
use crate::player::{
    find_player, lemma_position_by_handles, player_position, players_view, PlayerView,
};
use crate::resources::{credited, ResourceLevel, ResourceSource, ResourceType, ResourceUpdateEvent};
use crate::units::{unit_mining_rate, whole_units, whole_units_of, UnitStat};
use crate::world::{Unit, World};

verus! {

/// Why an accrual tick was refused.
#[derive(Clone, Copy, Debug, PartialEq, Eq, Structural, Hash)]
pub enum AccrualError {
    /// The player of a gathering unit leads a civilisation that the table
    /// of boni does not know.
    UnknownCivilisation,
}

/// What an accrual tick did beyond changing the world.
#[derive(Clone, Debug)]
pub struct TickReport {
    /// One event for each accrual, in the order of the units.
    pub events: Vec<ResourceUpdateEvent>,
    /// The units that were to accrue and whose player was not found.
    pub unresolved: Vec<EntityId>,
}

/// Nanoseconds between two accrual ticks.
pub const ACCRUAL_INTERVAL_NANOS: u64 = 1_000_000_000;

/// Whether the tick lets the unit accrue: it has a collector that the tick
/// leaves in `Collecting`.
pub open spec fn accrues(unit: Unit, sources: Seq<ResourceSource>) -> bool {
    match collector_after_tick(unit, sources) {
        Some(collector) => collector.state == CollectorState::Collecting,
        None => false,
    }
}

/// The rate at which a unit gathers `resource` for a player whose
/// civilisation has the bonus table `table`: what the unit mines by
/// itself, and the civilisation's bonus for the resource.
pub open spec fn effective_rate(
    stats: Seq<UnitStat>,
    resource: ResourceType,
    table: Seq<ResourceBonus>,
) -> int {
    unit_mining_rate(stats, resource) + eco_bonus(table, resource)
}

/// The ledgers and the report while a tick goes through the units.
#[verifier::ext_equal]
pub struct Accrual {
    pub players: Seq<PlayerView>,
    pub events: Seq<ResourceUpdateEvent>,
    pub unresolved: Seq<EntityId>,
}

/// The accrual with which a tick starts.
pub open spec fn accrual_start(players: Seq<PlayerView>) -> Accrual {
    Accrual {
        players,
        events: Seq::<ResourceUpdateEvent>::empty(),
        unresolved: Seq::<EntityId>::empty(),
    }
}

/// The accrual after the tick handled `unit`, given as the tick found it.
///
/// A unit that accrues adds the whole units of its effective rate to its
/// player's entry for the resource, and an event tells the new total. Where
/// its player is not found, the unit is noted and nothing is added.
pub open spec fn accrual_after_unit(
    acc: Accrual,
    unit: Unit,
    sources: Seq<ResourceSource>,
    boni: Map<Civilisation, Seq<ResourceBonus>>,
) -> Accrual {
    if accrues(unit, sources) {
        let collector = unit.collector->Some_0;
        match player_position(acc.players, collector.owner_player) {
            Some(p) => {
                let player = acc.players[p];
                let rate = effective_rate(
                    unit.info.stats@,
                    collector.resource,
                    boni[player.info.civilisation],
                );
                let levels = credited(player.levels, collector.resource, whole_units(rate));
                Accrual {
                    players: acc.players.update(p, PlayerView { levels, ..player }),
                    events: acc.events.push(
                        ResourceUpdateEvent(
                            ResourceLevel {
                                resource_type: collector.resource,
                                amount: levels[collector.resource] as i64,
                            },
                        ),
                    ),
                    unresolved: acc.unresolved,
                }
            },
            None => Accrual { unresolved: acc.unresolved.push(unit.entity), ..acc },
        }
    } else {
        acc
    }
}

/// The accrual after the tick handled `units`, one after the other.
pub open spec fn accrual_after_units(
    acc: Accrual,
    units: Seq<Unit>,
    sources: Seq<ResourceSource>,
    boni: Map<Civilisation, Seq<ResourceBonus>>,
) -> Accrual
    decreases units.len(),
{
    if units.len() == 0 {
        acc
    } else {
        accrual_after_unit(
            accrual_after_units(acc, units.drop_last(), sources, boni),
            units.last(),
            sources,
            boni,
        )
    }
}

/// Whether the table of boni knows the civilisation of the player that
/// `unit` gathers for. It does where the unit has no collector or its
/// player is not found.
pub open spec fn civilisation_known(
    unit: Unit,
    players: Seq<PlayerView>,
    boni: Map<Civilisation, Seq<ResourceBonus>>,
) -> bool {
    match unit.collector {
        Some(collector) => match player_position(players, collector.owner_player) {
            Some(p) => boni.contains_key(players[p].info.civilisation),
            None => true,
        },
        None => true,
    }
}

/// Whether the table of boni knows the civilisation of every player that a
/// unit gathers for.
pub open spec fn civilisations_known(
    units: Seq<Unit>,
    players: Seq<PlayerView>,
    boni: Map<Civilisation, Seq<ResourceBonus>>,
) -> bool {
    forall|i: int| 0 <= i < units.len() ==> civilisation_known(#[trigger] units[i], players, boni)
}

/// What an accrual tick is to do to the world and to return.
///
/// Where the table of boni lacks a civilisation in use, the tick fails and
/// changes nothing. Else every collector goes through its lifecycle, every
/// unit that the tick leaves collecting accrues, and the report tells the
/// events and the units whose player was not found.
pub open spec fn accrual_tick_done(
    before: World,
    after: World,
    boni: Map<Civilisation, Seq<ResourceBonus>>,
    result: Result<TickReport, AccrualError>,
) -> bool {
    let players = players_view(before.players@);
    match result {
        Ok(report) => {
            let acc = accrual_after_units(
                accrual_start(players),
                before.units@,
                before.sources@,
                boni,
            );
            &&& civilisations_known(before.units@, players, boni)
            &&& after.units@ == units_after_tick(before.units@, before.sources@)
            &&& players_view(after.players@) == acc.players
            &&& report.events@ == acc.events
            &&& report.unresolved@ == acc.unresolved
            &&& after.indicators == before.indicators
            &&& after.sources == before.sources
        },
        Err(error) => {
            &&& error == AccrualError::UnknownCivilisation
            &&& !civilisations_known(before.units@, players, boni)
            &&& after == before
        },
    }
}

/// What a frame of `delta_nanos` is to do: nothing while the second is not
/// full, an accrual tick once it is.
pub open spec fn collect_done(
    before: World,
    after: World,
    fired: bool,
    boni: Map<Civilisation, Seq<ResourceBonus>>,
    result: Result<TickReport, AccrualError>,
) -> bool {
    if fired {
        accrual_tick_done(before, after, boni, result)
    } else {
        &&& after == before
        &&& result matches Ok(report)
        &&& report.events@.len() == 0
        &&& report.unresolved@.len() == 0
    }
}

/// The stopwatch of the accrual: it gathers the time of the frames and
/// fires once a second is full. What is left over when it fires is
/// dropped.
#[derive(Clone, Debug)]
pub struct AccrualTimer {
    elapsed_nanos: u64,
}

impl Default for AccrualTimer {
    /// A stopwatch that has gathered nothing.
    fn default() -> (timer: AccrualTimer)
        ensures
            timer@ == 0,
    {
        AccrualTimer { elapsed_nanos: 0 }
    }
}

impl AccrualTimer {
    /// The nanoseconds gathered since the stopwatch last fired.
    pub closed spec fn view(self) -> nat {
        self.elapsed_nanos as nat
    }

    /// A stopwatch that has gathered nothing.
    pub fn new() -> (timer: AccrualTimer)
        ensures
            timer@ == 0,
    {
        AccrualTimer { elapsed_nanos: 0 }
    }

    /// The nanoseconds gathered since the stopwatch last fired.
    pub fn elapsed_nanos(&self) -> (nanos: u64)
        ensures
            nanos == self@,
    {
        self.elapsed_nanos
    }

    /// Adds the time of a frame. Returns whether a second is full; the
    /// stopwatch then starts again from zero.
    pub fn tick(&mut self, delta_nanos: u64) -> (fired: bool)
        ensures
            fired == (old(self)@ + delta_nanos >= ACCRUAL_INTERVAL_NANOS),
            final(self)@ == (if fired {
                0
            } else {
                old(self)@ + delta_nanos
            }),
    {
        let total: u128 = self.elapsed_nanos as u128 + delta_nanos as u128;
        if total >= ACCRUAL_INTERVAL_NANOS as u128 {
            self.elapsed_nanos = 0;
            true
        } else {
            self.elapsed_nanos = total as u64;
            false
        }
    }
}

impl World {
    /// Whether the table of boni knows the civilisation of every player
    /// that a unit gathers for.
    pub fn civilisations_known(&self, boni: &CivilisationBoniMap) -> (known: bool)
        ensures
            known == civilisations_known(self.units@, players_view(self.players@), boni@),
    {
        let n: usize = self.units.len();
        let mut i: usize = 0;
        while i < n
            invariant
                i <= n,
                n == self.units@.len(),
                forall|k: int|
                    0 <= k < i ==> civilisation_known(
                        #[trigger] self.units@[k],
                        players_view(self.players@),
                        boni@,
                    ),
            decreases n - i,
        {
            match self.units[i].collector {
                Some(collector) => {
                    match find_player(&self.players, collector.owner_player) {
                        Some(p) => {
                            if !boni.contains(self.players[p].info.civilisation) {
                                assert(!civilisation_known(
                                    self.units@[i as int],
                                    players_view(self.players@),
                                    boni@,
                                ));
                                return false;
                            }
                        },
                        None => {},
                    }
                },
                None => {},
            }
            i += 1;
        }
        true
    }

    /// Runs one accrual tick: every collector goes through its lifecycle,
    /// and every unit that the tick leaves collecting adds to the ledger
    /// of its player.
    pub fn accrual_tick(&mut self, boni: &CivilisationBoniMap) -> (result: Result<
        TickReport,
        AccrualError,
    >)
        ensures
            accrual_tick_done(*old(self), *final(self), boni@, result),
    {
        if !self.civilisations_known(boni) {
            return Err(AccrualError::UnknownCivilisation);
        }
        let mut events: Vec<ResourceUpdateEvent> = Vec::new();
        let mut unresolved: Vec<EntityId> = Vec::new();
        let ghost start = accrual_start(players_view(old(self).players@));
        let n: usize = self.units.len();
        let mut i: usize = 0;
        while i < n
            invariant
                i <= n,
                n == self.units@.len(),
                n == old(self).units@.len(),
                self.indicators == old(self).indicators,
                self.sources == old(self).sources,
                start == accrual_start(players_view(old(self).players@)),
                self.players@.len() == old(self).players@.len(),
                forall|k: int|
                    0 <= k < self.players@.len() ==> (#[trigger] self.players@[k]).entity == old(
                        self,
                    ).players@[k].entity && self.players@[k].info == old(self).players@[k].info,
                civilisations_known(old(self).units@, players_view(old(self).players@), boni@),
                forall|k: int|
                    0 <= k < i ==> #[trigger] self.units@[k] == unit_after_tick(
                        old(self).units@[k],
                        old(self).sources@,
                    ),
                forall|k: int| i <= k < n ==> #[trigger] self.units@[k] == old(self).units@[k],
                players_view(self.players@) == accrual_after_units(
                    start,
                    old(self).units@.take(i as int),
                    old(self).sources@,
                    boni@,
                ).players,
                events@ == accrual_after_units(
                    start,
                    old(self).units@.take(i as int),
                    old(self).sources@,
                    boni@,
                ).events,
                unresolved@ == accrual_after_units(
                    start,
                    old(self).units@.take(i as int),
                    old(self).sources@,
                    boni@,
                ).unresolved,
            decreases n - i,
        {
            let ghost unit = old(self).units@[i as int];
            let ghost acc = accrual_after_units(
                start,
                old(self).units@.take(i as int),
                old(self).sources@,
                boni@,
            );
            let ghost views = players_view(self.players@);
            proof {
                assert(old(self).units@.take(i + 1).drop_last() =~= old(self).units@.take(
                    i as int,
                ));
                assert(old(self).units@.take(i + 1).last() == unit);
                assert(self.units@[i as int] == unit);
            }
            match self.units[i].collector {
                Some(collector) => {
                    if collector.state == CollectorState::Cancelled {
                        self.units[i].collector = None;
                    } else {
                        let by_distance = check_collection_state(
                            &collector,
                            &self.units[i].position,
                            &self.sources,
                            &self.units[i].info,
                        );
                        let rate: i128 = self.units[i].info.stats.mining_rate(collector.resource);
                        let state = if rate <= 0 {
                            CollectorState::Cancelled
                        } else {
                            by_distance
                        };
                        self.units[i].collector = Some(Collector { state, ..collector });
                        assert(state == state_after_tick(unit, collector, old(self).sources@));
                        if state == CollectorState::Collecting {
                            match find_player(&self.players, collector.owner_player) {
                                Some(p) => {
                                    proof {
                                        lemma_position_by_handles(
                                            views,
                                            players_view(old(self).players@),
                                            collector.owner_player,
                                        );
                                        assert(civilisation_known(
                                            old(self).units@[i as int],
                                            players_view(old(self).players@),
                                            boni@,
                                        ));
                                        assert(views[p as int].info == players_view(
                                            old(self).players@,
                                        )[p as int].info);
                                    }
                                    let civilisation = self.players[p].info.civilisation;
                                    let bonus: i128 = match boni.get(civilisation) {
                                        Some(found) => found.eco_boni.bonus_for(collector.resource),
                                        None => {
                                            // The tick was refused at its start otherwise.
                                            assert(false);
                                            0
                                        },
                                    };
                                    let whole: i128 = whole_units_of(rate + bonus);
                                    let total: i64 = self.players[p].levels.credit(
                                        collector.resource,
                                        whole,
                                    );
                                    events.push(
                                        ResourceUpdateEvent(
                                            ResourceLevel {
                                                resource_type: collector.resource,
                                                amount: total,
                                            },
                                        ),
                                    );
                                    proof {
                                        let player = views[p as int];
                                        let levels = credited(
                                            player.levels,
                                            collector.resource,
                                            whole as int,
                                        );
                                        assert(players_view(self.players@) =~= views.update(
                                            p as int,
                                            PlayerView { levels, ..player },
                                        ));
                                    }
                                },
                                None => {
                                    unresolved.push(self.units[i].entity);
                                },
                            }
                        }
                    }
                },
                None => {},
            }
            i += 1;
        }
        proof {
            assert(old(self).units@.take(n as int) =~= old(self).units@);
            assert(self.units@ =~= units_after_tick(old(self).units@, old(self).sources@));
        }
        Ok(TickReport { events, unresolved })
    }

    /// Lets the time of a frame pass: `delta_nanos` is added to the
    /// stopwatch, and once a second is full the accrual tick runs.
    pub fn collect(
        &mut self,
        timer: &mut AccrualTimer,
        delta_nanos: u64,
        boni: &CivilisationBoniMap,
    ) -> (result: Result<TickReport, AccrualError>)
        ensures
            final(timer)@ == (if old(timer)@ + delta_nanos >= ACCRUAL_INTERVAL_NANOS {
                0
            } else {
                old(timer)@ + delta_nanos
            }),
            collect_done(
                *old(self),
                *final(self),
                old(timer)@ + delta_nanos >= ACCRUAL_INTERVAL_NANOS,
                boni@,
                result,
            ),
    {
        if timer.tick(delta_nanos) {
            self.accrual_tick(boni)
        } else {
            Ok(TickReport { events: Vec::new(), unresolved: Vec::new() })
        }
    }
}

} // verus!
