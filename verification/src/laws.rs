//! What holds of the core as a whole, proved from the definitions that the
//! contracts of its functions are stated in.

use vstd::prelude::*;
use crate::collection::{
    collector_after_tick, evaluated_state, source_position, state_after_tick,
    units_after_order_hits, units_after_tick, Collector, CollectorState,
};
use crate::entity::EntityId;
use crate::geometry::{distance_squared, Point2};
use crate::movement::{units_after_move, units_after_move_hits, MoveCommand};
use crate::pipeline::after_pick_events;
use crate::picking::{
    frame_deselects, hits_of_frame, picking_enabled, PointerInput, RayCast, RayHit,
};
use crate::resources::ResourceSource;
use crate::selection::{
    after_deselect, after_mouse_controller, after_select, after_select_hit,
    after_selection_events, indicators_in_step, is_selectable, is_selected, selected_set, Scene,
};
use crate::units::{
    has_mining_stat, lemma_no_mining_stat_no_rate, max_mining_dist, unit_mining_rate, UnitStat,
};
use crate::world::{Indicator, Unit};

verus! {

/// Selecting an entity that is selected already changes nothing: neither
/// the selection set nor anything else.
pub proof fn law_reselect_changes_nothing(scene: Scene, hit: RayHit, additive: bool)
    requires
        is_selected(scene.units, hit.hit_entity),
    ensures
        after_select_hit(scene, hit, additive) == scene,
        selected_set(after_select_hit(scene, hit, additive).units) == selected_set(scene.units),
{
}

/// Showing the selection manager the same hit twice leaves what showing it
/// once leaves.
pub proof fn law_select_hit_is_idempotent(scene: Scene, hit: RayHit, additive: bool)
    ensures
        after_select_hit(after_select_hit(scene, hit, additive), hit, additive) == after_select_hit(
            scene,
            hit,
            additive,
        ),
{
    let target = hit.hit_entity;
    let once = after_select_hit(scene, hit, additive);
    if hit.mouse_key_enable_mouse && !is_selected(scene.units, target) && !is_selected(
        once.units,
        target,
    ) {
        assert forall|i: int| 0 <= i < scene.units.len() && (
        #[trigger] scene.units[i]).entity == target implies !scene.units[i].selectable by {
            if scene.units[i].selectable {
                assert(once.units[i].entity == target && once.units[i].selected);
            }
        }
        assert(!is_selectable(scene.units, target));
        assert forall|i: int| 0 <= i < once.units.len() && (
        #[trigger] once.units[i]).entity == target implies !once.units[i].selectable by {
            assert(scene.units[i].entity == target);
        }
        assert(!is_selectable(once.units, target));
        assert(after_select(once, target, additive) =~= once);
    }
}

/// After a hit of the select button on a selectable entity that was not
/// selected, without the additive modifier, the selection set has exactly
/// one member: that entity.
pub proof fn law_plain_select_is_exclusive(scene: Scene, hit: RayHit)
    requires
        hit.mouse_key_enable_mouse,
        is_selectable(scene.units, hit.hit_entity),
        !is_selected(scene.units, hit.hit_entity),
    ensures
        selected_set(after_select_hit(scene, hit, false).units) == set![hit.hit_entity],
        selected_set(after_select_hit(scene, hit, false).units).len() == 1,
{
    let target = hit.hit_entity;
    let after = after_select_hit(scene, hit, false);
    let i = choose|i: int|
        0 <= i < scene.units.len() && (#[trigger] scene.units[i]).entity == target
            && scene.units[i].selectable;
    assert(after.units[i].entity == target && after.units[i].selected);
    assert(is_selected(after.units, target));
    assert forall|entity: EntityId| entity != target implies !is_selected(after.units, entity) by {
        if is_selected(after.units, entity) {
            let k = choose|k: int|
                0 <= k < after.units.len() && (#[trigger] after.units[k]).entity == entity
                    && after.units[k].selected;
            assert(scene.units[k].entity == entity);
        }
    }
    assert(selected_set(after.units) =~= set![target]);
}

/// After a hit of the select button on a selectable entity that was not
/// selected, with the additive modifier held, the selection set is the old
/// one and that entity: with `A` selected, selecting `B` gives `{A, B}`.
pub proof fn law_additive_select_adds(scene: Scene, hit: RayHit)
    requires
        hit.mouse_key_enable_mouse,
        is_selectable(scene.units, hit.hit_entity),
        !is_selected(scene.units, hit.hit_entity),
    ensures
        selected_set(after_select_hit(scene, hit, true).units) == selected_set(scene.units).insert(
            hit.hit_entity,
        ),
{
    let target = hit.hit_entity;
    let after = after_select_hit(scene, hit, true);
    let i = choose|i: int|
        0 <= i < scene.units.len() && (#[trigger] scene.units[i]).entity == target
            && scene.units[i].selectable;
    assert(after.units[i].entity == target && after.units[i].selected);
    assert forall|entity: EntityId| entity != target implies is_selected(after.units, entity)
        == is_selected(scene.units, entity) by {
        if is_selected(after.units, entity) {
            let k = choose|k: int|
                0 <= k < after.units.len() && (#[trigger] after.units[k]).entity == entity
                    && after.units[k].selected;
            assert(scene.units[k].entity == entity && scene.units[k].selected);
        }
        if is_selected(scene.units, entity) {
            let k = choose|k: int|
                0 <= k < scene.units.len() && (#[trigger] scene.units[k]).entity == entity
                    && scene.units[k].selected;
            assert(after.units[k].entity == entity && after.units[k].selected);
        }
    }
    assert(selected_set(after.units) =~= selected_set(scene.units).insert(target));
}

/// Clearing the selection empties the selection set and hides every
/// indicator.
pub proof fn law_deselect_clears(scene: Scene)
    ensures
        selected_set(after_deselect(scene).units) == Set::<EntityId>::empty(),
        forall|i: int|
            0 <= i < after_deselect(scene).indicators.len() ==> !(#[trigger] after_deselect(
                scene,
            ).indicators[i]).visible,
        indicators_in_step(after_deselect(scene)),
{
    let after = after_deselect(scene);
    assert forall|entity: EntityId| !is_selected(after.units, entity) by {
        if is_selected(after.units, entity) {
            let k = choose|k: int|
                0 <= k < after.units.len() && (#[trigger] after.units[k]).entity == entity
                    && after.units[k].selected;
            assert(!after.units[k].selected);
        }
    }
    assert(selected_set(after.units) =~= Set::<EntityId>::empty());
}

/// A select pick that meets nothing, in a frame in which the move button
/// was not pressed, gives the order to clear the selection and no hit; the
/// step that handles it leaves no entity selected and no indicator shown.
pub proof fn law_miss_pick_clears_selection(
    input: PointerInput,
    move_cast: RayCast,
    scene: Scene,
    additive: bool,
)
    requires
        picking_enabled(input),
        input.select_pressed,
        !input.move_pressed,
    ensures
        frame_deselects(input, None),
        hits_of_frame(input, None, move_cast).len() == 0,
        after_mouse_controller(scene, true, hits_of_frame(input, None, move_cast), additive)
            == after_deselect(scene),
        selected_set(
            after_mouse_controller(
                scene,
                true,
                hits_of_frame(input, None, move_cast),
                additive,
            ).units,
        ) == Set::<EntityId>::empty(),
        forall|i: int|
            0 <= i < scene.indicators.len() ==> !(#[trigger] after_mouse_controller(
                scene,
                true,
                hits_of_frame(input, None, move_cast),
                additive,
            ).indicators[i]).visible,
{
    let hits = hits_of_frame(input, None, move_cast);
    assert(hits =~= Seq::<RayHit>::empty());
    assert(Scene { units: units_after_move_hits(scene.units, hits), ..scene } =~= scene);
    law_deselect_clears(scene);
}

/// Of two move commands in sequence only the second is left: every unit
/// is as the second alone would have left it, and a unit that is selected
/// and movable holds exactly the command to the second target.
pub proof fn law_move_command_is_replaced(units: Seq<Unit>, first: Point2, second: Point2)
    ensures
        units_after_move(units_after_move(units, first), second) == units_after_move(units, second),
        forall|i: int|
            0 <= i < units.len() && (#[trigger] units[i]).selected && units[i].movable
                ==> units_after_move(units_after_move(units, first), second)[i].move_command
                == Some(MoveCommand { target: second }),
{
    assert(units_after_move(units_after_move(units, first), second) =~= units_after_move(
        units,
        second,
    ));
}

/// The order of the lifecycle: approaching comes before collecting, and
/// collecting before cancelled.
pub open spec fn lifecycle_rank(state: CollectorState) -> int {
    match state {
        CollectorState::Approaching => 0,
        CollectorState::Collecting => 1,
        CollectorState::Cancelled => 2,
    }
}

/// What one tick finds of a unit: whether it is in range of its target, and
/// the rate at which it mines by itself.
pub struct TickInput {
    pub in_range: bool,
    pub unit_rate: int,
}

/// The state of a collector after a sequence of ticks.
pub open spec fn state_after_ticks(state: CollectorState, inputs: Seq<TickInput>) -> CollectorState
    decreases inputs.len(),
{
    if inputs.len() == 0 {
        state
    } else {
        evaluated_state(
            state_after_ticks(state, inputs.drop_last()),
            inputs.last().in_range,
            inputs.last().unit_rate,
        )
    }
}

/// A tick never takes a collector back in its lifecycle, and never out of
/// `Cancelled`.
pub proof fn law_tick_never_goes_back(state: CollectorState, in_range: bool, unit_rate: int)
    ensures
        lifecycle_rank(state) <= lifecycle_rank(evaluated_state(state, in_range, unit_rate)),
        state == CollectorState::Cancelled ==> evaluated_state(state, in_range, unit_rate)
            == CollectorState::Cancelled,
{
}

/// Whatever the ticks find, a collector goes through its lifecycle in one
/// direction only: of two moments, the later one is never earlier in the
/// lifecycle. So a collector that was cancelled never collects again.
pub proof fn law_lifecycle_is_monotone(
    state: CollectorState,
    inputs: Seq<TickInput>,
    i: int,
    j: int,
)
    requires
        0 <= i <= j <= inputs.len(),
    ensures
        lifecycle_rank(state_after_ticks(state, inputs.take(i))) <= lifecycle_rank(
            state_after_ticks(state, inputs.take(j)),
        ),
        state_after_ticks(state, inputs.take(i)) == CollectorState::Cancelled ==> state_after_ticks(
            state,
            inputs.take(j),
        ) == CollectorState::Cancelled,
    decreases j - i,
{
    if i < j {
        law_lifecycle_is_monotone(state, inputs, i, j - 1);
        assert(inputs.take(j).drop_last() =~= inputs.take(j - 1));
        law_tick_never_goes_back(
            state_after_ticks(state, inputs.take(j - 1)),
            inputs.take(j).last().in_range,
            inputs.take(j).last().unit_rate,
        );
    }
}

/// A tick that finds a collector cancelled removes it: it is not evaluated
/// again.
pub proof fn law_cancelled_collector_is_removed(unit: Unit, sources: Seq<ResourceSource>)
    requires
        unit.collector matches Some(collector) && collector.state == CollectorState::Cancelled,
    ensures
        collector_after_tick(unit, sources) is None,
{
}

/// A unit that mines its resource at no rate above zero is cancelled by the
/// first tick, wherever it stands and whatever state it was in.
pub proof fn law_zero_rate_cancels(unit: Unit, collector: Collector, sources: Seq<ResourceSource>)
    requires
        unit_mining_rate(unit.info.stats@, collector.resource) <= 0,
    ensures
        state_after_tick(unit, collector, sources) == CollectorState::Cancelled,
{
}

/// A unit without a stat that bears on mining its resource is cancelled by
/// the first tick, wherever it stands.
pub proof fn law_no_mining_stat_cancels(
    unit: Unit,
    collector: Collector,
    sources: Seq<ResourceSource>,
)
    requires
        !has_mining_stat(unit.info.stats@, collector.resource),
    ensures
        state_after_tick(unit, collector, sources) == CollectorState::Cancelled,
{
    lemma_no_mining_stat_no_rate(unit.info.stats@, collector.resource);
}

/// A unit that approaches its target and stands exactly as far from it as
/// it can mine is in range: the tick lets it collect.
pub proof fn law_boundary_distance_is_in_range(
    unit: Unit,
    collector: Collector,
    sources: Seq<ResourceSource>,
)
    requires
        collector.state == CollectorState::Approaching,
        unit_mining_rate(unit.info.stats@, collector.resource) > 0,
        source_position(sources, collector.resource_entity) matches Some(at) && max_mining_dist(
            unit.info.stats@,
        ) >= 0 && distance_squared(unit.position, at) == max_mining_dist(unit.info.stats@)
            * max_mining_dist(unit.info.stats@),
    ensures
        state_after_tick(unit, collector, sources) == CollectorState::Collecting,
{
}

/// Whether a stat list says from how far the unit can mine.
pub open spec fn has_max_mining_dist(stats: Seq<UnitStat>) -> bool {
    exists|i: int| 0 <= i < stats.len() && #[trigger] stats[i] is MaxMiningDist
}

/// A stat list that does not say from how far the unit can mine gives the
/// distance zero.
pub proof fn law_no_max_mining_dist_is_zero(stats: Seq<UnitStat>)
    requires
        !has_max_mining_dist(stats),
    ensures
        max_mining_dist(stats) == 0,
    decreases stats.len(),
{
    if stats.len() > 0 {
        let rest = stats.drop_last();
        assert forall|i: int| 0 <= i < rest.len() implies !(#[trigger] rest[i] is MaxMiningDist) by {
            assert(rest[i] == stats[i]);
        }
        law_no_max_mining_dist_is_zero(rest);
        assert(stats.last() == stats[stats.len() - 1]);
    }
}

/// A unit whose stats do not say from how far it can mine keeps approaching
/// a target that it does not stand on, tick after tick.
pub proof fn law_unit_without_range_keeps_approaching(
    unit: Unit,
    collector: Collector,
    sources: Seq<ResourceSource>,
)
    requires
        collector.state == CollectorState::Approaching,
        unit_mining_rate(unit.info.stats@, collector.resource) > 0,
        !has_max_mining_dist(unit.info.stats@),
        source_position(sources, collector.resource_entity) matches Some(at) && at
            != unit.position,
    ensures
        state_after_tick(unit, collector, sources) == CollectorState::Approaching,
{
    law_no_max_mining_dist_is_zero(unit.info.stats@);
    let at = source_position(sources, collector.resource_entity)->Some_0;
    let p = unit.position;
    assert(distance_squared(p, at) > 0) by (nonlinear_arith)
        requires
            p.x != at.x || p.y != at.y || p.z != at.z,
            distance_squared(p, at) == (p.x - at.x) * (p.x - at.x) + (p.y - at.y) * (p.y - at.y) + (
            p.z - at.z) * (p.z - at.z),
    ;
}

/// The selection manager keeps the indicators in step with the selection:
/// where every indicator was shown exactly while its parent was selected,
/// that still holds after a hit.
pub proof fn law_select_hit_keeps_indicators_in_step(scene: Scene, hit: RayHit, additive: bool)
    requires
        indicators_in_step(scene),
    ensures
        indicators_in_step(after_select_hit(scene, hit, additive)),
{
    let target = hit.hit_entity;
    let after = after_select_hit(scene, hit, additive);
    if hit.mouse_key_enable_mouse && !is_selected(scene.units, target) {
        assert forall|i: int| 0 <= i < after.indicators.len() implies (
        #[trigger] after.indicators[i]).visible == is_selected(
            after.units,
            after.indicators[i].parent,
        ) by {
            let parent = scene.indicators[i].parent;
            assert(scene.indicators[i].visible == is_selected(scene.units, parent));
            if parent == target {
                if is_selectable(scene.units, target) {
                    let k = choose|k: int|
                        0 <= k < scene.units.len() && (#[trigger] scene.units[k]).entity == target
                            && scene.units[k].selectable;
                    assert(after.units[k].entity == target && after.units[k].selected);
                } else {
                    if is_selected(after.units, target) {
                        let k = choose|k: int|
                            0 <= k < after.units.len() && (#[trigger] after.units[k]).entity
                                == target && after.units[k].selected;
                        assert(scene.units[k].entity == target);
                        assert(!scene.units[k].selectable);
                        assert(scene.units[k].selected);
                    }
                }
            } else if additive {
                if is_selected(after.units, parent) {
                    let k = choose|k: int|
                        0 <= k < after.units.len() && (#[trigger] after.units[k]).entity == parent
                            && after.units[k].selected;
                    assert(scene.units[k].entity == parent && scene.units[k].selected);
                }
                if is_selected(scene.units, parent) {
                    let k = choose|k: int|
                        0 <= k < scene.units.len() && (#[trigger] scene.units[k]).entity == parent
                            && scene.units[k].selected;
                    assert(after.units[k].entity == parent && after.units[k].selected);
                }
            } else {
                if is_selected(after.units, parent) {
                    let k = choose|k: int|
                        0 <= k < after.units.len() && (#[trigger] after.units[k]).entity == parent
                            && after.units[k].selected;
                    assert(scene.units[k].entity == parent);
                }
            }
        }
    }
}

/// The selection manager keeps the indicators in step with the selection
/// through all the events of a step.
pub proof fn law_selection_events_keep_indicators_in_step(
    scene: Scene,
    deselect: bool,
    hits: Seq<RayHit>,
    additive: bool,
)
    requires
        indicators_in_step(scene),
    ensures
        indicators_in_step(after_selection_events(scene, deselect, hits, additive)),
    decreases hits.len(),
{
    if hits.len() == 0 {
        if deselect {
            law_deselect_clears(scene);
        }
    } else {
        law_selection_events_keep_indicators_in_step(scene, deselect, hits.drop_last(), additive);
        law_select_hit_keeps_indicators_in_step(
            after_selection_events(scene, deselect, hits.drop_last(), additive),
            hits.last(),
            additive,
        );
    }
}

/// The units `after` are the units `before` but for their selection.
pub open spec fn differ_in_selection_only(before: Seq<Unit>, after: Seq<Unit>) -> bool {
    &&& after.len() == before.len()
    &&& forall|i: int|
        0 <= i < before.len() ==> #[trigger] after[i] == (Unit {
            selected: after[i].selected,
            ..before[i]
        })
}

/// The indicators `after` are the indicators `before` but for being shown or
/// hidden.
pub open spec fn differ_in_visibility_only(before: Seq<Indicator>, after: Seq<Indicator>) -> bool {
    &&& after.len() == before.len()
    &&& forall|i: int|
        0 <= i < before.len() ==> #[trigger] after[i] == (Indicator {
            visible: after[i].visible,
            ..before[i]
        })
}

/// The units `after` are the units `before` but for their move commands.
pub open spec fn differ_in_move_command_only(before: Seq<Unit>, after: Seq<Unit>) -> bool {
    &&& after.len() == before.len()
    &&& forall|i: int|
        0 <= i < before.len() ==> #[trigger] after[i] == (Unit {
            move_command: after[i].move_command,
            ..before[i]
        })
}

/// The units `after` are the units `before` but for their collectors.
pub open spec fn differ_in_collector_only(before: Seq<Unit>, after: Seq<Unit>) -> bool {
    &&& after.len() == before.len()
    &&& forall|i: int|
        0 <= i < before.len() ==> #[trigger] after[i] == (Unit {
            collector: after[i].collector,
            ..before[i]
        })
}

/// The selection manager touches nothing but the selection of the units
/// and the visibility of the indicators.
pub proof fn law_selection_touches_markers_only(
    scene: Scene,
    deselect: bool,
    hits: Seq<RayHit>,
    additive: bool,
)
    ensures
        differ_in_selection_only(
            scene.units,
            after_selection_events(scene, deselect, hits, additive).units,
        ),
        differ_in_visibility_only(
            scene.indicators,
            after_selection_events(scene, deselect, hits, additive).indicators,
        ),
    decreases hits.len(),
{
    if hits.len() > 0 {
        law_selection_touches_markers_only(scene, deselect, hits.drop_last(), additive);
        let earlier = after_selection_events(scene, deselect, hits.drop_last(), additive);
        let after = after_select_hit(earlier, hits.last(), additive);
        assert(after == after_selection_events(scene, deselect, hits, additive));
        assert forall|i: int| 0 <= i < scene.units.len() implies #[trigger] after.units[i] == (Unit {
            selected: after.units[i].selected,
            ..scene.units[i]
        }) by {
            assert(earlier.units[i] == (Unit {
                selected: earlier.units[i].selected,
                ..scene.units[i]
            }));
        }
        assert forall|i: int| 0 <= i < scene.indicators.len() implies #[trigger] after.indicators[i]
            == (Indicator { visible: after.indicators[i].visible, ..scene.indicators[i] }) by {
            assert(earlier.indicators[i] == (Indicator {
                visible: earlier.indicators[i].visible,
                ..scene.indicators[i]
            }));
        }
    }
}

/// The move command issuer touches nothing but the move commands.
pub proof fn law_move_touches_commands_only(units: Seq<Unit>, hits: Seq<RayHit>)
    ensures
        differ_in_move_command_only(units, units_after_move_hits(units, hits)),
    decreases hits.len(),
{
    if hits.len() > 0 {
        law_move_touches_commands_only(units, hits.drop_last());
        let earlier = units_after_move_hits(units, hits.drop_last());
        let after = units_after_move_hits(units, hits);
        assert forall|i: int| 0 <= i < units.len() implies #[trigger] after[i] == (Unit {
            move_command: after[i].move_command,
            ..units[i]
        }) by {
            assert(earlier[i] == (Unit { move_command: earlier[i].move_command, ..units[i] }));
        }
    }
}

/// An order to gather touches nothing but the collectors.
pub proof fn law_order_touches_collectors_only(
    units: Seq<Unit>,
    sources: Seq<ResourceSource>,
    hits: Seq<RayHit>,
    player: EntityId,
)
    ensures
        differ_in_collector_only(units, units_after_order_hits(units, sources, hits, player)),
    decreases hits.len(),
{
    if hits.len() > 0 {
        law_order_touches_collectors_only(units, sources, hits.drop_last(), player);
        let earlier = units_after_order_hits(units, sources, hits.drop_last(), player);
        let after = units_after_order_hits(units, sources, hits, player);
        assert forall|i: int| 0 <= i < units.len() implies #[trigger] after[i] == (Unit {
            collector: after[i].collector,
            ..units[i]
        }) by {
            assert(earlier[i] == (Unit { collector: earlier[i].collector, ..units[i] }));
        }
    }
}

/// An accrual tick touches nothing of a unit but its collector.
pub proof fn law_tick_touches_collectors_only(units: Seq<Unit>, sources: Seq<ResourceSource>)
    ensures
        differ_in_collector_only(units, units_after_tick(units, sources)),
{
}

/// Units that differ in nothing that the selection looks at have the same
/// entities selected.
proof fn lemma_same_selection(before: Seq<Unit>, after: Seq<Unit>)
    requires
        after.len() == before.len(),
        forall|i: int|
            0 <= i < before.len() ==> (#[trigger] after[i]).entity == before[i].entity
                && after[i].selected == before[i].selected,
    ensures
        forall|entity: EntityId| is_selected(after, entity) == is_selected(before, entity),
{
    assert forall|entity: EntityId| is_selected(after, entity) == is_selected(before, entity) by {
        if is_selected(after, entity) {
            let k = choose|k: int|
                0 <= k < after.len() && (#[trigger] after[k]).entity == entity && after[k].selected;
            assert(before[k].entity == entity && before[k].selected);
        }
        if is_selected(before, entity) {
            let k = choose|k: int|
                0 <= k < before.len() && (#[trigger] before[k]).entity == entity
                    && before[k].selected;
            assert(after[k].entity == entity && after[k].selected);
        }
    }
}

/// The command pipeline keeps the indicators in step with the selection:
/// where every indicator was shown exactly while its parent was selected,
/// that still holds after the events of a step went through all three
/// consumers.
pub proof fn law_pipeline_keeps_indicators_in_step(
    scene: Scene,
    sources: Seq<ResourceSource>,
    deselect: bool,
    hits: Seq<RayHit>,
    additive: bool,
    main_player: EntityId,
)
    requires
        indicators_in_step(scene),
    ensures
        indicators_in_step(after_mouse_controller(scene, deselect, hits, additive)),
        indicators_in_step(after_pick_events(scene, sources, deselect, hits, additive, main_player)),
{
    let moved = Scene { units: units_after_move_hits(scene.units, hits), ..scene };
    law_move_touches_commands_only(scene.units, hits);
    assert forall|i: int| 0 <= i < scene.units.len() implies (#[trigger] moved.units[i]).entity
        == scene.units[i].entity && moved.units[i].selected == scene.units[i].selected by {
        assert(moved.units[i] == (Unit {
            move_command: moved.units[i].move_command,
            ..scene.units[i]
        }));
    }
    lemma_same_selection(scene.units, moved.units);
    assert(indicators_in_step(moved)) by {
        assert forall|i: int| 0 <= i < moved.indicators.len() implies (
        #[trigger] moved.indicators[i]).visible == is_selected(
            moved.units,
            moved.indicators[i].parent,
        ) by {
            assert(scene.indicators[i].visible == is_selected(
                scene.units,
                scene.indicators[i].parent,
            ));
        }
    }
    law_selection_events_keep_indicators_in_step(moved, deselect, hits, additive);

    let ordered = Scene {
        units: units_after_order_hits(scene.units, sources, hits, main_player),
        ..scene
    };
    law_order_touches_collectors_only(scene.units, sources, hits, main_player);
    assert forall|i: int| 0 <= i < scene.units.len() implies (#[trigger] ordered.units[i]).entity
        == scene.units[i].entity && ordered.units[i].selected == scene.units[i].selected by {
        assert(ordered.units[i] == (Unit {
            collector: ordered.units[i].collector,
            ..scene.units[i]
        }));
    }
    lemma_same_selection(scene.units, ordered.units);
    assert(indicators_in_step(ordered)) by {
        assert forall|i: int| 0 <= i < ordered.indicators.len() implies (
        #[trigger] ordered.indicators[i]).visible == is_selected(
            ordered.units,
            ordered.indicators[i].parent,
        ) by {
            assert(scene.indicators[i].visible == is_selected(
                scene.units,
                scene.indicators[i].parent,
            ));
        }
    }
    let both = Scene { units: units_after_move_hits(ordered.units, hits), ..ordered };
    law_move_touches_commands_only(ordered.units, hits);
    assert forall|i: int| 0 <= i < ordered.units.len() implies (#[trigger] both.units[i]).entity
        == ordered.units[i].entity && both.units[i].selected == ordered.units[i].selected by {
        assert(both.units[i] == (Unit {
            move_command: both.units[i].move_command,
            ..ordered.units[i]
        }));
    }
    lemma_same_selection(ordered.units, both.units);
    assert(indicators_in_step(both)) by {
        assert forall|i: int| 0 <= i < both.indicators.len() implies (
        #[trigger] both.indicators[i]).visible == is_selected(
            both.units,
            both.indicators[i].parent,
        ) by {
            assert(ordered.indicators[i].visible == is_selected(
                ordered.units,
                ordered.indicators[i].parent,
            ));
        }
    }
    law_selection_events_keep_indicators_in_step(both, deselect, hits, additive);
}

/// An accrual tick keeps the indicators in step with the selection: it
/// changes neither.
pub proof fn law_tick_keeps_indicators_in_step(scene: Scene, sources: Seq<ResourceSource>)
    requires
        indicators_in_step(scene),
    ensures
        indicators_in_step(Scene { units: units_after_tick(scene.units, sources), ..scene }),
{
    let after = Scene { units: units_after_tick(scene.units, sources), ..scene };
    lemma_same_selection(scene.units, after.units);
    assert forall|i: int| 0 <= i < after.indicators.len() implies (
    #[trigger] after.indicators[i]).visible == is_selected(
        after.units,
        after.indicators[i].parent,
    ) by {
        assert(scene.indicators[i].visible == is_selected(
            scene.units,
            scene.indicators[i].parent,
        ));
    }
}

} // verus!
