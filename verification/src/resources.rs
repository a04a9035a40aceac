use vstd::prelude::*;
use crate::entity::EntityId;
use crate::geometry::Point3;

verus! {

/// The kinds of resource that can be gathered and spent.
#[derive(Clone, Copy, Debug, PartialEq, Eq, Structural, Hash)]
pub enum ResourceType {
    Plotanium,
    Tritium,
}

/// An amount of one kind of resource.
#[derive(Clone, Copy, Debug, PartialEq, Eq, Structural, Hash)]
pub struct ResourceLevel {
    pub resource_type: ResourceType,
    pub amount: i64,
}

/// Notification that a player's holdings of one resource changed; it
/// carries the resource and the new total.
#[derive(Clone, Copy, Debug, PartialEq, Eq, Structural, Hash)]
pub struct ResourceUpdateEvent(pub ResourceLevel);

/// A harvestable deposit in the world. Gathering does not deplete it.
#[derive(Clone, Copy, Debug, PartialEq, Eq, Structural, Hash)]
pub struct ResourceSource {
    pub entity: EntityId,
    pub position: Point3,
    pub level: ResourceLevel,
}

/// The value nearest to `v` that a ledger entry can hold.
pub open spec fn clamp_amount(v: int) -> int {
    if v < i64::MIN {
        i64::MIN as int
    } else if v > i64::MAX {
        i64::MAX as int
    } else {
        v
    }
}

/// What a ledger holds of `resource`; nothing where it has no entry.
pub open spec fn amount_of(levels: Map<ResourceType, int>, resource: ResourceType) -> int {
    if levels.contains_key(resource) {
        levels[resource]
    } else {
        0
    }
}

/// The ledger after `delta` was added to its entry for `resource`. An
/// absent entry counts as zero and is created; the sum stops at the ends of
/// the range of an entry.
pub open spec fn credited(
    levels: Map<ResourceType, int>,
    resource: ResourceType,
    delta: int,
) -> Map<ResourceType, int> {
    levels.insert(resource, clamp_amount(amount_of(levels, resource) + delta))
}

/// A player's ledger: a mapping from resource kind to a signed amount.
#[derive(Clone, Debug)]
pub struct ResourceLevels {
    entries: Vec<ResourceLevel>,
}

impl ResourceLevels {
    /// Entry `i` is the one that counts for `resource`: the first of its
    /// kind.
    spec fn is_first(self, i: int, resource: ResourceType) -> bool {
        &&& 0 <= i < self.entries@.len()
        &&& self.entries@[i].resource_type == resource
        &&& forall|k: int| 0 <= k < i ==> (#[trigger] self.entries@[k]).resource_type != resource
    }

    spec fn has_entry(self, resource: ResourceType) -> bool {
        exists|i: int| self.is_first(i, resource)
    }

    spec fn entry_index(self, resource: ResourceType) -> int {
        choose|i: int| self.is_first(i, resource)
    }

    /// No resource kind has two entries. A new ledger is so, and every
    /// method keeps it so.
    pub closed spec fn wf(self) -> bool {
        forall|i: int, j: int|
            0 <= i < j < self.entries@.len() ==> (#[trigger] self.entries@[i]).resource_type != (
            #[trigger] self.entries@[j]).resource_type
    }

    /// The mapping that the ledger stands for.
    pub closed spec fn view(self) -> Map<ResourceType, int> {
        Map::new(
            |r: ResourceType| self.has_entry(r),
            |r: ResourceType| self.entries@[self.entry_index(r)].amount as int,
        )
    }

    proof fn lemma_first_is_unique(self, i: int, j: int, resource: ResourceType)
        requires
            self.is_first(i, resource),
            self.is_first(j, resource),
        ensures
            i == j,
    {
        if i < j {
            assert(self.entries@[i].resource_type != resource);
        }
        if j < i {
            assert(self.entries@[j].resource_type != resource);
        }
    }

    /// A ledger without entries.
    pub fn new() -> (levels: ResourceLevels)
        ensures
            levels@ == Map::<ResourceType, int>::empty(),
            levels.wf(),
    {
        let levels = ResourceLevels { entries: Vec::new() };
        assert(levels@ =~= Map::<ResourceType, int>::empty());
        levels
    }

    fn find(&self, resource: ResourceType) -> (found: Option<usize>)
        ensures
            match found {
                Some(i) => self.is_first(i as int, resource) && self.has_entry(resource)
                    && self.entry_index(resource) == i,
                None => !self.has_entry(resource) && forall|k: int|
                    0 <= k < self.entries@.len() ==> (#[trigger] self.entries@[k]).resource_type
                        != resource,
            },
    {
        let mut i: usize = 0;
        while i < self.entries.len()
            invariant
                i <= self.entries@.len(),
                forall|k: int| 0 <= k < i ==> (#[trigger] self.entries@[k]).resource_type != resource,
            decreases self.entries@.len() - i,
        {
            if self.entries[i].resource_type == resource {
                proof {
                    assert(self.is_first(i as int, resource));
                    self.lemma_first_is_unique(i as int, self.entry_index(resource), resource);
                }
                return Some(i);
            }
            i += 1;
        }
        None
    }

    /// The amount held of `resource`, if the ledger has an entry for it.
    pub fn get(&self, resource: ResourceType) -> (amount: Option<i64>)
        ensures
            match amount {
                Some(a) => self@.contains_key(resource) && self@[resource] == a,
                None => !self@.contains_key(resource),
            },
    {
        match self.find(resource) {
            Some(i) => Some(self.entries[i].amount),
            None => None,
        }
    }

    /// Sets the entry for `resource`, creating it where there was none.
    pub fn set(&mut self, resource: ResourceType, amount: i64)
        ensures
            final(self)@ == old(self)@.insert(resource, amount as int),
            old(self).wf() ==> final(self).wf(),
    {
        let entry = ResourceLevel { resource_type: resource, amount };
        let found = self.find(resource);
        match found {
            Some(i) => {
                self.entries.set(i, entry);
            },
            None => {
                self.entries.push(entry);
            },
        }
        proof {
            let before = *old(self);
            let after = *self;
            let place: int = match found {
                Some(i) => i as int,
                None => before.entries@.len() as int,
            };
            assert(after.is_first(place, resource));
            assert forall|r: ResourceType, k: int| r != resource implies after.is_first(k, r)
                == before.is_first(k, r) by {
                if after.is_first(k, r) {
                    assert forall|m: int| 0 <= m < k implies (#[trigger] before.entries@[m]).resource_type
                        != r by {
                        assert(after.entries@[m].resource_type != r);
                    }
                }
                if before.is_first(k, r) {
                    assert forall|m: int| 0 <= m < k implies (#[trigger] after.entries@[m]).resource_type
                        != r by {
                        assert(before.entries@[m].resource_type != r);
                    }
                }
            }
            assert forall|r: ResourceType| after.has_entry(r) == (r == resource || before.has_entry(
                r,
            )) by {
                if r != resource {
                    if before.has_entry(r) {
                        assert(after.is_first(before.entry_index(r), r));
                    }
                    if after.has_entry(r) {
                        assert(before.is_first(after.entry_index(r), r));
                    }
                }
            }
            assert forall|r: ResourceType| after.has_entry(r) implies after.entries@[after.entry_index(
                r,
            )].amount as int == #[trigger] before@.insert(resource, amount as int)[r] by {
                let k = after.entry_index(r);
                if r == resource {
                    after.lemma_first_is_unique(k, place, resource);
                } else {
                    assert(before.is_first(k, r));
                    before.lemma_first_is_unique(k, before.entry_index(r), r);
                }
            }
            assert(after@ =~= before@.insert(resource, amount as int));
        }
    }

    /// Adds `delta` to the entry for `resource`, creating the entry where
    /// there was none, and returns the new total. The total stops at the
    /// ends of the range of an entry.
    pub fn credit(&mut self, resource: ResourceType, delta: i128) -> (total: i64)
        ensures
            final(self)@ == credited(old(self)@, resource, delta as int),
            total == final(self)@[resource],
            old(self).wf() ==> final(self).wf(),
    {
        let held: i64 = match self.get(resource) {
            Some(a) => a,
            None => 0,
        };
        let total: i64 = saturating_sum(held, delta);
        self.set(resource, total);
        total
    }
}

/// `held + delta`, stopped at the ends of the range of an entry.
fn saturating_sum(held: i64, delta: i128) -> (total: i64)
    ensures
        total == clamp_amount(held + delta),
{
    let low: i128 = i64::MIN as i128;
    let high: i128 = i64::MAX as i128;
    if delta > high - low {
        i64::MAX
    } else if delta < low - high {
        i64::MIN
    } else {
        let sum: i128 = held as i128 + delta;
        if sum < low {
            i64::MIN
        } else if sum > high {
            i64::MAX
        } else {
            sum as i64
        }
    }
}

} // verus!
