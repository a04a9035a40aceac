use vstd::prelude::*;
use crate::civilisation::{Civilisation, TechLevel};
use crate::entity::EntityId;
use crate::resources::{ResourceLevels, ResourceType};
use crate::units::UnitType;

verus! {

/// Something a player can do from the context menu of a unit.
#[derive(Clone, Copy, Debug, PartialEq, Eq, Structural, Hash)]
pub enum ContextMenuAction {
    Build(UnitType),
}

/// The context menu of one kind of unit.
#[derive(Clone, Debug)]
pub struct ContextMenu {
    pub unit_type: UnitType,
    pub actions: Vec<ContextMenuAction>,
}

/// Who a player is. The core reads this and never changes it.
#[derive(Clone, Debug)]
pub struct PlayerInfo {
    pub civilisation: Civilisation,
    pub tech_level: TechLevel,
    pub context_menu_actions: Vec<ContextMenu>,
}

/// A player: its handle, its identity and its ledger.
#[derive(Clone, Debug)]
pub struct Player {
    pub entity: EntityId,
    pub info: PlayerInfo,
    pub levels: ResourceLevels,
}

/// A player as the contracts see it: the ledger is the mapping it stands
/// for.
#[verifier::ext_equal]
pub struct PlayerView {
    pub entity: EntityId,
    pub info: PlayerInfo,
    pub levels: Map<ResourceType, int>,
}

impl Player {
    pub open spec fn view(self) -> PlayerView {
        PlayerView { entity: self.entity, info: self.info, levels: self.levels@ }
    }

    /// A player of the given civilisation with an empty ledger and no
    /// context menu.
    pub fn new(entity: EntityId, civilisation: Civilisation) -> (player: Player)
        ensures
            player.entity == entity,
            player.info.civilisation == civilisation,
            player.info.tech_level == TechLevel::L0,
            player.info.context_menu_actions@.len() == 0,
            player.levels@ == Map::<ResourceType, int>::empty(),
    {
        Player {
            entity,
            info: PlayerInfo {
                civilisation,
                tech_level: TechLevel::L0,
                context_menu_actions: Vec::new(),
            },
            levels: ResourceLevels::new(),
        }
    }
}

/// The players as the contracts see them.
pub open spec fn players_view(players: Seq<Player>) -> Seq<PlayerView> {
    Seq::new(players.len(), |i: int| players[i]@)
}

/// Entry `i` is the first player with the handle `entity`.
pub open spec fn is_first_player(players: Seq<PlayerView>, i: int, entity: EntityId) -> bool {
    &&& 0 <= i < players.len()
    &&& players[i].entity == entity
    &&& forall|k: int| 0 <= k < i ==> (#[trigger] players[k]).entity != entity
}

/// The place of the player with the handle `entity`, if there is one. Where
/// several have it, the first counts.
pub open spec fn player_position(players: Seq<PlayerView>, entity: EntityId) -> Option<int> {
    if exists|i: int| is_first_player(players, i, entity) {
        Some(choose|i: int| is_first_player(players, i, entity))
    } else {
        None
    }
}

/// Only one entry can be the first with a handle.
pub proof fn lemma_first_player_is_unique(
    players: Seq<PlayerView>,
    i: int,
    j: int,
    entity: EntityId,
)
    requires
        is_first_player(players, i, entity),
        is_first_player(players, j, entity),
    ensures
        i == j,
{
    if i < j {
        assert(players[i].entity != entity);
    }
    if j < i {
        assert(players[j].entity != entity);
    }
}

/// Players that agree in their handles, place by place, are found at the
/// same places.
pub proof fn lemma_position_by_handles(a: Seq<PlayerView>, b: Seq<PlayerView>, entity: EntityId)
    requires
        a.len() == b.len(),
        forall|k: int| 0 <= k < a.len() ==> (#[trigger] a[k]).entity == b[k].entity,
    ensures
        player_position(a, entity) == player_position(b, entity),
{
    assert forall|i: int| is_first_player(a, i, entity) == is_first_player(b, i, entity) by {
        if is_first_player(a, i, entity) {
            assert(a[i].entity == b[i].entity);
            assert forall|k: int| 0 <= k < i implies (#[trigger] b[k]).entity != entity by {
                assert(a[k].entity == b[k].entity);
            }
        }
        if is_first_player(b, i, entity) {
            assert(a[i].entity == b[i].entity);
            assert forall|k: int| 0 <= k < i implies (#[trigger] a[k]).entity != entity by {
                assert(a[k].entity == b[k].entity);
            }
        }
    }
    if exists|i: int| is_first_player(a, i, entity) {
        let i = choose|i: int| is_first_player(a, i, entity);
        assert(is_first_player(b, i, entity));
        let j = choose|j: int| is_first_player(b, j, entity);
        lemma_first_player_is_unique(b, i, j, entity);
    } else {
        assert forall|j: int| !is_first_player(b, j, entity) by {
            assert(!is_first_player(a, j, entity));
        }
    }
}

/// Finds the player with the handle `entity`.
pub fn find_player(players: &Vec<Player>, entity: EntityId) -> (found: Option<usize>)
    ensures
        match found {
            Some(i) => player_position(players_view(players@), entity) == Some(i as int) && i
                < players@.len(),
            None => player_position(players_view(players@), entity) is None,
        },
{
    let ghost views = players_view(players@);
    let mut i: usize = 0;
    while i < players.len()
        invariant
            i <= players@.len(),
            views == players_view(players@),
            forall|k: int| 0 <= k < i ==> (#[trigger] views[k]).entity != entity,
        decreases players@.len() - i,
    {
        if players[i].entity == entity {
            proof {
                assert(is_first_player(views, i as int, entity));
                let chosen = choose|k: int| is_first_player(views, k, entity);
                lemma_first_player_is_unique(views, i as int, chosen, entity);
            }
            return Some(i);
        }
        i += 1;
    }
    proof {
        assert forall|k: int| !is_first_player(views, k, entity) by {
            if 0 <= k < views.len() {
                assert(views[k].entity != entity);
            }
        }
    }
    None
}

} // verus!
