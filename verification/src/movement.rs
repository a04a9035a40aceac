use vstd::prelude::*;
use crate::geometry::{ground_point, Point2};
use crate::picking::RayHit;
use crate::world::{Unit, World};

verus! {

/// The order to move to a point of the ground plane. A unit holds at most
/// one; a new one takes the place of the old.
#[derive(Clone, Copy, Debug, PartialEq, Eq, Structural, Hash)]
pub struct MoveCommand {
    pub target: Point2,
}

/// The unit after a move to `target` was ordered: a selected, movable unit
/// holds the new command in place of any it held, every other is as it was.
pub open spec fn unit_after_move(unit: Unit, target: Point2) -> Unit {
    if unit.selected && unit.movable {
        Unit { move_command: Some(MoveCommand { target }), ..unit }
    } else {
        unit
    }
}

/// The units after a move to `target` was ordered.
pub open spec fn units_after_move(units: Seq<Unit>, target: Point2) -> Seq<Unit> {
    Seq::new(units.len(), |i: int| unit_after_move(units[i], target))
}

/// The units after one hit was seen by the move command issuer. A hit of
/// the move button orders the move to the point of the ground plane under
/// the intersection; any other hit orders nothing.
pub open spec fn units_after_move_hit(units: Seq<Unit>, hit: RayHit) -> Seq<Unit> {
    if hit.mouse_unit_move_button {
        units_after_move(units, ground_point(hit.ray_intersection.point))
    } else {
        units
    }
}

/// The units after the hits were seen by the move command issuer, one after
/// the other.
pub open spec fn units_after_move_hits(units: Seq<Unit>, hits: Seq<RayHit>) -> Seq<Unit>
    decreases hits.len(),
{
    if hits.len() == 0 {
        units
    } else {
        units_after_move_hit(units_after_move_hits(units, hits.drop_last()), hits.last())
    }
}

impl World {
    /// Orders every selected, movable unit to `target`.
    pub fn issue_move(&mut self, target: Point2)
        ensures
            final(self).units@ == units_after_move(old(self).units@, target),
            final(self).indicators == old(self).indicators,
            final(self).sources == old(self).sources,
            final(self).players == old(self).players,
    {
        let n: usize = self.units.len();
        let mut i: usize = 0;
        while i < n
            invariant
                i <= n,
                n == self.units@.len(),
                n == old(self).units@.len(),
                self.indicators == old(self).indicators,
                self.sources == old(self).sources,
                self.players == old(self).players,
                forall|k: int|
                    0 <= k < i ==> #[trigger] self.units@[k] == unit_after_move(
                        old(self).units@[k],
                        target,
                    ),
                forall|k: int| i <= k < n ==> #[trigger] self.units@[k] == old(self).units@[k],
            decreases n - i,
        {
            if self.units[i].selected && self.units[i].movable {
                self.units[i].move_command = Some(MoveCommand { target });
            }
            i += 1;
        }
        assert(self.units@ =~= units_after_move(old(self).units@, target));
    }

    /// Shows one hit to the move command issuer.
    pub fn handle_move_hit(&mut self, hit: &RayHit)
        ensures
            final(self).units@ == units_after_move_hit(old(self).units@, *hit),
            final(self).indicators == old(self).indicators,
            final(self).sources == old(self).sources,
            final(self).players == old(self).players,
    {
        if hit.mouse_unit_move_button {
            let target = hit.ray_intersection.point.ground();
            self.issue_move(target);
        }
    }

    /// Shows the hits of a step to the move command issuer, in their order.
    pub fn issue_move_commands(&mut self, hits: &Vec<RayHit>)
        ensures
            final(self).units@ == units_after_move_hits(old(self).units@, hits@),
            final(self).indicators == old(self).indicators,
            final(self).sources == old(self).sources,
            final(self).players == old(self).players,
    {
        let n: usize = hits.len();
        let mut i: usize = 0;
        while i < n
            invariant
                i <= n,
                n == hits@.len(),
                self.units@ == units_after_move_hits(old(self).units@, hits@.take(i as int)),
                self.indicators == old(self).indicators,
                self.sources == old(self).sources,
                self.players == old(self).players,
            decreases n - i,
        {
            proof {
                assert(hits@.take(i + 1).drop_last() =~= hits@.take(i as int));
            }
            self.handle_move_hit(&hits[i]);
            i += 1;
        }
        proof {
            assert(hits@.take(n as int) =~= hits@);
        }
    }
}

} // verus!
