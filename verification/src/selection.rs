use vstd::prelude::*;
use crate::entity::EntityId;
use crate::movement::units_after_move_hits;
use crate::picking::RayHit;
use crate::world::{Indicator, Unit, World};

verus! {

/// What the selection manager works on: the units and the selection
/// indicators.
#[verifier::ext_equal]
pub struct Scene {
    pub units: Seq<Unit>,
    pub indicators: Seq<Indicator>,
}

/// Whether the entity `entity` is selected.
pub open spec fn is_selected(units: Seq<Unit>, entity: EntityId) -> bool {
    exists|i: int|
        0 <= i < units.len() && (#[trigger] units[i]).entity == entity && units[i].selected
}

/// Whether the entity `entity` can be selected.
pub open spec fn is_selectable(units: Seq<Unit>, entity: EntityId) -> bool {
    exists|i: int|
        0 <= i < units.len() && (#[trigger] units[i]).entity == entity && units[i].selectable
}

/// The selection set: the entities that are selected.
pub open spec fn selected_set(units: Seq<Unit>) -> Set<EntityId> {
    Set::new(|entity: EntityId| is_selected(units, entity))
}

/// Whether every indicator is shown exactly while its parent is selected.
pub open spec fn indicators_in_step(scene: Scene) -> bool {
    forall|i: int|
        0 <= i < scene.indicators.len() ==> (#[trigger] scene.indicators[i]).visible == is_selected(
            scene.units,
            scene.indicators[i].parent,
        )
}

/// The unit without its selection.
pub open spec fn unit_deselected(unit: Unit) -> Unit {
    Unit { selected: false, ..unit }
}

/// The indicator, hidden.
pub open spec fn indicator_hidden(indicator: Indicator) -> Indicator {
    Indicator { visible: false, ..indicator }
}

/// The scene after the selection was cleared: no unit is selected and no
/// indicator is shown.
pub open spec fn after_deselect(scene: Scene) -> Scene {
    Scene {
        units: Seq::new(scene.units.len(), |i: int| unit_deselected(scene.units[i])),
        indicators: Seq::new(
            scene.indicators.len(),
            |i: int| indicator_hidden(scene.indicators[i]),
        ),
    }
}

/// The unit after `target` was selected. The target becomes selected if it
/// can be; any other unit loses its selection unless the selection is
/// additive.
pub open spec fn unit_after_select(unit: Unit, target: EntityId, additive: bool) -> Unit {
    if unit.entity == target {
        if unit.selectable {
            Unit { selected: true, ..unit }
        } else {
            unit
        }
    } else if additive {
        unit
    } else {
        unit_deselected(unit)
    }
}

/// The indicator after `target` was selected, where `shows` tells whether
/// the target can be selected. The indicators of a target that becomes
/// selected are shown; those of any other entity are hidden unless the
/// selection is additive.
pub open spec fn indicator_after_select(
    indicator: Indicator,
    target: EntityId,
    shows: bool,
    additive: bool,
) -> Indicator {
    if indicator.parent == target {
        if shows {
            Indicator { visible: true, ..indicator }
        } else {
            indicator
        }
    } else if additive {
        indicator
    } else {
        indicator_hidden(indicator)
    }
}

/// The scene after `target` was selected.
pub open spec fn after_select(scene: Scene, target: EntityId, additive: bool) -> Scene {
    Scene {
        units: Seq::new(
            scene.units.len(),
            |i: int| unit_after_select(scene.units[i], target, additive),
        ),
        indicators: Seq::new(
            scene.indicators.len(),
            |i: int|
                indicator_after_select(
                    scene.indicators[i],
                    target,
                    is_selectable(scene.units, target),
                    additive,
                ),
        ),
    }
}

/// The scene after one hit was seen by the selection manager. A hit of the
/// select button on an entity that is not selected selects it; any other
/// hit changes nothing.
pub open spec fn after_select_hit(scene: Scene, hit: RayHit, additive: bool) -> Scene {
    if hit.mouse_key_enable_mouse && !is_selected(scene.units, hit.hit_entity) {
        after_select(scene, hit.hit_entity, additive)
    } else {
        scene
    }
}

/// The scene after the hits were seen by the selection manager, one after
/// the other.
pub open spec fn after_select_hits(scene: Scene, hits: Seq<RayHit>, additive: bool) -> Scene
    decreases hits.len(),
{
    if hits.len() == 0 {
        scene
    } else {
        after_select_hit(
            after_select_hits(scene, hits.drop_last(), additive),
            hits.last(),
            additive,
        )
    }
}

/// The scene after the selection manager saw the events of a step: the
/// order to clear the selection first, if there is one, then the hits.
pub open spec fn after_selection_events(
    scene: Scene,
    deselect: bool,
    hits: Seq<RayHit>,
    additive: bool,
) -> Scene {
    after_select_hits(
        if deselect {
            after_deselect(scene)
        } else {
            scene
        },
        hits,
        additive,
    )
}

/// The scene after the events of a step were handled. The move commands go
/// to the units that the step found selected; the selection changes after
/// that.
pub open spec fn after_mouse_controller(
    scene: Scene,
    deselect: bool,
    hits: Seq<RayHit>,
    additive: bool,
) -> Scene {
    after_selection_events(
        Scene { units: units_after_move_hits(scene.units, hits), ..scene },
        deselect,
        hits,
        additive,
    )
}

impl World {
    /// The units and the indicators of the world.
    pub open spec fn scene(self) -> Scene {
        Scene { units: self.units@, indicators: self.indicators@ }
    }

    /// Whether the entity `entity` is selected.
    pub fn is_selected(&self, entity: EntityId) -> (selected: bool)
        ensures
            selected == is_selected(self.units@, entity),
    {
        let mut i: usize = 0;
        while i < self.units.len()
            invariant
                i <= self.units@.len(),
                forall|k: int|
                    0 <= k < i ==> !((#[trigger] self.units@[k]).entity == entity
                        && self.units@[k].selected),
            decreases self.units@.len() - i,
        {
            if self.units[i].entity == entity && self.units[i].selected {
                return true;
            }
            i += 1;
        }
        false
    }

    /// Whether the entity `entity` can be selected.
    pub fn is_selectable(&self, entity: EntityId) -> (selectable: bool)
        ensures
            selectable == is_selectable(self.units@, entity),
    {
        let mut i: usize = 0;
        while i < self.units.len()
            invariant
                i <= self.units@.len(),
                forall|k: int|
                    0 <= k < i ==> !((#[trigger] self.units@[k]).entity == entity
                        && self.units@[k].selectable),
            decreases self.units@.len() - i,
        {
            if self.units[i].entity == entity && self.units[i].selectable {
                return true;
            }
            i += 1;
        }
        false
    }

    /// The selected entities, in the order of the units.
    pub fn selected(&self) -> (entities: Vec<EntityId>)
        ensures
            entities@.to_set() == selected_set(self.units@),
            entities@ == self.units@.filter(|unit: Unit| unit.selected).map_values(
                |unit: Unit| unit.entity,
            ),
    {
        let mut entities: Vec<EntityId> = Vec::new();
        let ghost chosen = |unit: Unit| unit.selected;
        let ghost handle = |unit: Unit| unit.entity;
        let n: usize = self.units.len();
        let mut i: usize = 0;
        proof {
            assert(self.units@.take(0) =~= Seq::<Unit>::empty());
            assert(Seq::<Unit>::empty().filter(chosen) =~= Seq::<Unit>::empty()) by {
                reveal(Seq::filter);
            }
            assert(Seq::<Unit>::empty().map_values(handle) =~= Seq::<EntityId>::empty());
        }
        while i < n
            invariant
                i <= n,
                n == self.units@.len(),
                chosen == (|unit: Unit| unit.selected),
                handle == (|unit: Unit| unit.entity),
                entities@ == self.units@.take(i as int).filter(chosen).map_values(handle),
                forall|k: int|
                    0 <= k < entities@.len() ==> is_selected(self.units@, #[trigger] entities@[k]),
                forall|k: int|
                    0 <= k < i && (#[trigger] self.units@[k]).selected ==> entities@.contains(
                        self.units@[k].entity,
                    ),
            decreases n - i,
        {
            let ghost before = entities@;
            proof {
                let head = self.units@.take(i as int);
                let next = self.units@.take(i + 1);
                assert(next.drop_last() =~= head);
                assert(next.last() == self.units@[i as int]);
                reveal(Seq::filter);
                assert(next.filter(chosen) == if chosen(next.last()) {
                    head.filter(chosen).push(next.last())
                } else {
                    head.filter(chosen)
                });
            }
            if self.units[i].selected {
                entities.push(self.units[i].entity);
                proof {
                    let kept = self.units@.take(i as int).filter(chosen);
                    assert(kept.push(self.units@[i as int]).map_values(handle) =~= kept.map_values(
                        handle,
                    ).push(self.units@[i as int].entity));
                    assert(entities@[before.len() as int] == self.units@[i as int].entity);
                    assert forall|k: int| 0 <= k < i + 1 && (
                    #[trigger] self.units@[k]).selected implies entities@.contains(
                        self.units@[k].entity,
                    ) by {
                        if k < i {
                            assert(before.contains(self.units@[k].entity));
                            let at = choose|at: int|
                                0 <= at < before.len() && before[at] == self.units@[k].entity;
                            assert(entities@[at] == self.units@[k].entity);
                        } else {
                            assert(entities@[before.len() as int] == self.units@[k].entity);
                        }
                    }
                }
            }
            i += 1;
        }
        proof {
            assert(self.units@.take(n as int) =~= self.units@);
            assert forall|entity: EntityId| entities@.to_set().contains(entity) == selected_set(
                self.units@,
            ).contains(entity) by {
                if entities@.to_set().contains(entity) {
                    assert(entities@.contains(entity));
                    let at = choose|at: int| 0 <= at < entities@.len() && entities@[at] == entity;
                    assert(is_selected(self.units@, entities@[at]));
                }
                if is_selected(self.units@, entity) {
                    let k = choose|k: int|
                        0 <= k < self.units@.len() && (#[trigger] self.units@[k]).entity == entity
                            && self.units@[k].selected;
                    assert(entities@.contains(self.units@[k].entity));
                }
            }
            assert(entities@.to_set() =~= selected_set(self.units@));
        }
        entities
    }

    /// Clears the selection: no unit stays selected, every indicator is
    /// hidden.
    pub fn deselect_all(&mut self)
        ensures
            final(self).scene() == after_deselect(old(self).scene()),
            final(self).sources == old(self).sources,
            final(self).players == old(self).players,
    {
        let n: usize = self.units.len();
        let mut i: usize = 0;
        while i < n
            invariant
                i <= n,
                n == self.units@.len(),
                n == old(self).units@.len(),
                self.indicators == old(self).indicators,
                self.sources == old(self).sources,
                self.players == old(self).players,
                forall|k: int|
                    0 <= k < i ==> #[trigger] self.units@[k] == unit_deselected(
                        old(self).units@[k],
                    ),
                forall|k: int| i <= k < n ==> #[trigger] self.units@[k] == old(self).units@[k],
            decreases n - i,
        {
            self.units[i].selected = false;
            i += 1;
        }
        let m: usize = self.indicators.len();
        let mut j: usize = 0;
        while j < m
            invariant
                j <= m,
                m == self.indicators@.len(),
                m == old(self).indicators@.len(),
                self.units@ == after_deselect(old(self).scene()).units,
                self.sources == old(self).sources,
                self.players == old(self).players,
                forall|k: int|
                    0 <= k < j ==> #[trigger] self.indicators@[k] == indicator_hidden(
                        old(self).indicators@[k],
                    ),
                forall|k: int|
                    j <= k < m ==> #[trigger] self.indicators@[k] == old(self).indicators@[k],
            decreases m - j,
        {
            self.indicators[j].visible = false;
            j += 1;
        }
        assert(self.scene() =~= after_deselect(old(self).scene()));
    }

    /// Selects `target`. With `additive` the other units keep their
    /// selection; without it they lose it.
    pub fn select(&mut self, target: EntityId, additive: bool)
        ensures
            final(self).scene() == after_select(old(self).scene(), target, additive),
            final(self).sources == old(self).sources,
            final(self).players == old(self).players,
    {
        let shows = self.is_selectable(target);
        let n: usize = self.units.len();
        let mut i: usize = 0;
        while i < n
            invariant
                i <= n,
                n == self.units@.len(),
                n == old(self).units@.len(),
                self.indicators == old(self).indicators,
                self.sources == old(self).sources,
                self.players == old(self).players,
                forall|k: int|
                    0 <= k < i ==> #[trigger] self.units@[k] == unit_after_select(
                        old(self).units@[k],
                        target,
                        additive,
                    ),
                forall|k: int| i <= k < n ==> #[trigger] self.units@[k] == old(self).units@[k],
            decreases n - i,
        {
            if self.units[i].entity == target {
                if self.units[i].selectable {
                    self.units[i].selected = true;
                }
            } else if !additive {
                self.units[i].selected = false;
            }
            i += 1;
        }
        let m: usize = self.indicators.len();
        let mut j: usize = 0;
        while j < m
            invariant
                j <= m,
                m == self.indicators@.len(),
                m == old(self).indicators@.len(),
                shows == is_selectable(old(self).units@, target),
                self.units@ == after_select(old(self).scene(), target, additive).units,
                self.sources == old(self).sources,
                self.players == old(self).players,
                forall|k: int|
                    0 <= k < j ==> #[trigger] self.indicators@[k] == indicator_after_select(
                        old(self).indicators@[k],
                        target,
                        shows,
                        additive,
                    ),
                forall|k: int|
                    j <= k < m ==> #[trigger] self.indicators@[k] == old(self).indicators@[k],
            decreases m - j,
        {
            if self.indicators[j].parent == target {
                if shows {
                    self.indicators[j].visible = true;
                }
            } else if !additive {
                self.indicators[j].visible = false;
            }
            j += 1;
        }
        assert(self.scene() =~= after_select(old(self).scene(), target, additive));
    }

    /// Shows one hit to the selection manager.
    pub fn handle_select_hit(&mut self, hit: &RayHit, additive: bool)
        ensures
            final(self).scene() == after_select_hit(old(self).scene(), *hit, additive),
            final(self).sources == old(self).sources,
            final(self).players == old(self).players,
    {
        if hit.mouse_key_enable_mouse && !self.is_selected(hit.hit_entity) {
            self.select(hit.hit_entity, additive);
        }
    }

    /// Shows the events of a step to the selection manager: the order to
    /// clear the selection first, if `deselect` says there is one, then the
    /// hits in their order. `additive` tells whether the modifier key for
    /// adding to the selection is held.
    pub fn apply_selection(&mut self, deselect: bool, hits: &Vec<RayHit>, additive: bool)
        ensures
            final(self).scene() == after_selection_events(
                old(self).scene(),
                deselect,
                hits@,
                additive,
            ),
            final(self).sources == old(self).sources,
            final(self).players == old(self).players,
    {
        if deselect {
            self.deselect_all();
        }
        let ghost start = self.scene();
        let n: usize = hits.len();
        let mut i: usize = 0;
        while i < n
            invariant
                i <= n,
                n == hits@.len(),
                self.scene() == after_select_hits(start, hits@.take(i as int), additive),
                self.sources == old(self).sources,
                self.players == old(self).players,
            decreases n - i,
        {
            proof {
                assert(hits@.take(i + 1).drop_last() =~= hits@.take(i as int));
            }
            self.handle_select_hit(&hits[i], additive);
            i += 1;
        }
        proof {
            assert(hits@.take(n as int) =~= hits@);
        }
    }

    /// Handles the events of a step: the move command issuer sees the hits
    /// first, so that its commands go to the units that the step found
    /// selected, then the selection manager sees the events.
    pub fn mouse_controller(&mut self, deselect: bool, hits: &Vec<RayHit>, additive: bool)
        ensures
            final(self).scene() == after_mouse_controller(
                old(self).scene(),
                deselect,
                hits@,
                additive,
            ),
            final(self).sources == old(self).sources,
            final(self).players == old(self).players,
    {
        self.issue_move_commands(hits);
        self.apply_selection(deselect, hits, additive);
    }
}

} // verus!
