use vstd::prelude::*;
use crate::collection::units_after_order_hits;
use crate::entity::EntityId;
use crate::picking::{PickEvents, RayHit};
use crate::resources::ResourceSource;
use crate::selection::{after_mouse_controller, Scene};
use crate::world::World;

verus! {

/// The scene after the events of a step went through the command pipeline.
///
/// The three consumers see the same events. Those that only read the
/// selection come first, so that they see it as the step found it: the
/// collector lifecycle, then the move command issuer. The selection manager
/// comes last.
pub open spec fn after_pick_events(
    scene: Scene,
    sources: Seq<ResourceSource>,
    deselect: bool,
    hits: Seq<RayHit>,
    additive: bool,
    main_player: EntityId,
) -> Scene {
    after_mouse_controller(
        Scene { units: units_after_order_hits(scene.units, sources, hits, main_player), ..scene },
        deselect,
        hits,
        additive,
    )
}

impl World {
    /// Sends the events of one step through the command pipeline: selected
    /// mining stations are sent to the source that was picked, selected
    /// movable units to the point that was picked, and then the selection
    /// changes. `additive` tells whether the modifier key for adding to the
    /// selection is held, `main_player` for whom the stations gather.
    pub fn handle_pick_events(&mut self, events: &PickEvents, additive: bool, main_player: EntityId)
        ensures
            final(self).scene() == after_pick_events(
                old(self).scene(),
                old(self).sources@,
                events.deselects@.len() > 0,
                events.ray_hits@,
                additive,
                main_player,
            ),
            final(self).sources == old(self).sources,
            final(self).players == old(self).players,
    {
        self.start_collecting(&events.ray_hits, main_player);
        self.mouse_controller(events.deselects.len() > 0, &events.ray_hits, additive);
    }
}

} // verus!
