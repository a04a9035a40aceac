use vstd::prelude::*;
use crate::resources::ResourceType;

verus! {

/// The civilisations a player can lead.
#[derive(Clone, Copy, Debug, PartialEq, Eq, Structural, Hash)]
pub enum Civilisation {
    Greek,
    Roman,
    Japanese,
}

/// How far a player's technology has come.
#[derive(Clone, Copy, Debug, PartialEq, Eq, Structural, Hash)]
pub enum TechLevel {
    L0,
}

/// A rate that a civilisation adds to the gathering of one resource, in
/// thousandths of a resource unit per accrual tick.
#[derive(Clone, Copy, Debug, PartialEq, Eq, Structural, Hash)]
pub struct ResourceBonus {
    pub resource: ResourceType,
    pub rate: i32,
}

/// What one table entry adds to the gathering of `resource`.
pub open spec fn bonus_of(entry: ResourceBonus, resource: ResourceType) -> int {
    if entry.resource == resource {
        entry.rate as int
    } else {
        0
    }
}

/// Sum of the rates in a bonus table that are given for `resource`.
pub open spec fn eco_bonus(table: Seq<ResourceBonus>, resource: ResourceType) -> int
    decreases table.len(),
{
    if table.len() == 0 {
        0
    } else {
        eco_bonus(table.drop_last(), resource) + bonus_of(table.last(), resource)
    }
}

/// The economic boni of a civilisation: a table of rates by resource.
#[derive(Clone, Debug)]
pub struct EcoBoni {
    pub resource_boni: Vec<ResourceBonus>,
}

impl EcoBoni {
    /// The table as a sequence.
    pub open spec fn view(self) -> Seq<ResourceBonus> {
        self.resource_boni@
    }

    /// The rate that the table adds to the gathering of `resource`.
    pub fn bonus_for(&self, resource: ResourceType) -> (rate: i128)
        ensures
            rate == eco_bonus(self@, resource),
            -0x8000_0000_0000_0000_0000_0000 <= rate <= 0x8000_0000_0000_0000_0000_0000,
    {
        let mut rate: i128 = 0;
        let n: usize = self.resource_boni.len();
        let mut i: usize = 0;
        while i < n
            invariant
                i <= n,
                n == self.resource_boni@.len(),
                rate == eco_bonus(self.resource_boni@.take(i as int), resource),
                -0x8000_0000 * i <= rate <= 0x8000_0000 * i,
            decreases n - i,
        {
            proof {
                assert(self.resource_boni@.take(i + 1).drop_last() =~= self.resource_boni@.take(
                    i as int,
                ));
            }
            let entry = self.resource_boni[i];
            if entry.resource == resource {
                rate = rate + entry.rate as i128;
            }
            i += 1;
        }
        proof {
            assert(self.resource_boni@.take(n as int) =~= self.resource_boni@);
        }
        rate
    }
}

/// Everything a civilisation adds to its players.
#[derive(Clone, Debug)]
pub struct CivilisationBoni {
    pub eco_boni: EcoBoni,
}

/// One civilisation with its boni.
#[derive(Clone, Debug)]
pub struct CivilisationEntry {
    pub civilisation: Civilisation,
    pub boni: CivilisationBoni,
}

/// The boni of the civilisations: configuration that is loaded once and
/// read by the accrual.
#[derive(Clone, Debug)]
pub struct CivilisationBoniMap {
    entries: Vec<CivilisationEntry>,
}

impl CivilisationBoniMap {
    /// Entry `i` is the one that counts for `civilisation`: the first
    /// with it.
    spec fn is_first(self, i: int, civilisation: Civilisation) -> bool {
        &&& 0 <= i < self.entries@.len()
        &&& self.entries@[i].civilisation == civilisation
        &&& forall|k: int| 0 <= k < i ==> (#[trigger] self.entries@[k]).civilisation != civilisation
    }

    spec fn has_entry(self, civilisation: Civilisation) -> bool {
        exists|i: int| self.is_first(i, civilisation)
    }

    spec fn entry_index(self, civilisation: Civilisation) -> int {
        choose|i: int| self.is_first(i, civilisation)
    }

    /// No civilisation has two entries. A new table is so, and every
    /// method keeps it so.
    pub closed spec fn wf(self) -> bool {
        forall|i: int, j: int|
            0 <= i < j < self.entries@.len() ==> (#[trigger] self.entries@[i]).civilisation != (
            #[trigger] self.entries@[j]).civilisation
    }

    /// The mapping that the table stands for: from a civilisation to its
    /// table of economic boni.
    pub closed spec fn view(self) -> Map<Civilisation, Seq<ResourceBonus>> {
        Map::new(
            |c: Civilisation| self.has_entry(c),
            |c: Civilisation| self.entries@[self.entry_index(c)].boni.eco_boni@,
        )
    }

    /// Whether every civilisation has boni in the table.
    pub open spec fn is_total(self) -> bool {
        forall|c: Civilisation| self@.contains_key(c)
    }

    proof fn lemma_first_is_unique(self, i: int, j: int, civilisation: Civilisation)
        requires
            self.is_first(i, civilisation),
            self.is_first(j, civilisation),
        ensures
            i == j,
    {
        if i < j {
            assert(self.entries@[i].civilisation != civilisation);
        }
        if j < i {
            assert(self.entries@[j].civilisation != civilisation);
        }
    }

    /// A table without entries.
    pub fn new() -> (boni: CivilisationBoniMap)
        ensures
            boni@ == Map::<Civilisation, Seq<ResourceBonus>>::empty(),
            boni.wf(),
    {
        let boni = CivilisationBoniMap { entries: Vec::new() };
        assert(boni@ =~= Map::<Civilisation, Seq<ResourceBonus>>::empty());
        boni
    }

    fn find(&self, civilisation: Civilisation) -> (found: Option<usize>)
        ensures
            match found {
                Some(i) => self.is_first(i as int, civilisation) && self.has_entry(civilisation)
                    && self.entry_index(civilisation) == i,
                None => !self.has_entry(civilisation) && forall|k: int|
                    0 <= k < self.entries@.len() ==> (#[trigger] self.entries@[k]).civilisation
                        != civilisation,
            },
    {
        let mut i: usize = 0;
        while i < self.entries.len()
            invariant
                i <= self.entries@.len(),
                forall|k: int|
                    0 <= k < i ==> (#[trigger] self.entries@[k]).civilisation != civilisation,
            decreases self.entries@.len() - i,
        {
            if self.entries[i].civilisation == civilisation {
                proof {
                    assert(self.is_first(i as int, civilisation));
                    self.lemma_first_is_unique(i as int, self.entry_index(civilisation), civilisation);
                }
                return Some(i);
            }
            i += 1;
        }
        None
    }

    /// Whether the table has boni for `civilisation`.
    pub fn contains(&self, civilisation: Civilisation) -> (present: bool)
        ensures
            present == self@.contains_key(civilisation),
    {
        self.find(civilisation).is_some()
    }

    /// The boni of `civilisation`, if the table has them.
    pub fn get(&self, civilisation: Civilisation) -> (boni: Option<&CivilisationBoni>)
        ensures
            match boni {
                Some(b) => self@.contains_key(civilisation) && self@[civilisation] == b.eco_boni@,
                None => !self@.contains_key(civilisation),
            },
    {
        match self.find(civilisation) {
            Some(i) => Some(&self.entries[i].boni),
            None => None,
        }
    }

    /// Sets the boni of `civilisation`, replacing those it had.
    pub fn insert(&mut self, civilisation: Civilisation, boni: CivilisationBoni)
        ensures
            final(self)@ == old(self)@.insert(civilisation, boni.eco_boni@),
            old(self).wf() ==> final(self).wf(),
    {
        let ghost table = boni.eco_boni@;
        let entry = CivilisationEntry { civilisation, boni };
        let found = self.find(civilisation);
        match found {
            Some(i) => {
                self.entries.set(i, entry);
            },
            None => {
                self.entries.push(entry);
            },
        }
        proof {
            let before = *old(self);
            let after = *self;
            let place: int = match found {
                Some(i) => i as int,
                None => before.entries@.len() as int,
            };
            assert(after.is_first(place, civilisation));
            assert forall|c: Civilisation, k: int| c != civilisation implies after.is_first(k, c)
                == before.is_first(k, c) by {
                if after.is_first(k, c) {
                    assert forall|m: int| 0 <= m < k implies (#[trigger] before.entries@[m]).civilisation
                        != c by {
                        assert(after.entries@[m].civilisation != c);
                    }
                }
                if before.is_first(k, c) {
                    assert forall|m: int| 0 <= m < k implies (#[trigger] after.entries@[m]).civilisation
                        != c by {
                        assert(before.entries@[m].civilisation != c);
                    }
                }
            }
            assert forall|c: Civilisation| after.has_entry(c) == (c == civilisation
                || before.has_entry(c)) by {
                if c != civilisation {
                    if before.has_entry(c) {
                        assert(after.is_first(before.entry_index(c), c));
                    }
                    if after.has_entry(c) {
                        assert(before.is_first(after.entry_index(c), c));
                    }
                }
            }
            assert forall|c: Civilisation| after.has_entry(c) implies after.entries@[after.entry_index(
                c,
            )].boni.eco_boni@ == #[trigger] before@.insert(civilisation, table)[c] by {
                let k = after.entry_index(c);
                if c == civilisation {
                    after.lemma_first_is_unique(k, place, civilisation);
                } else {
                    assert(before.is_first(k, c));
                    before.lemma_first_is_unique(k, before.entry_index(c), c);
                }
            }
            assert(after@ =~= before@.insert(civilisation, table));
        }
    }

    /// Whether every civilisation has boni in the table.
    pub fn covers_all(&self) -> (total: bool)
        ensures
            total == self.is_total(),
    {
        let total = self.contains(Civilisation::Greek) && self.contains(Civilisation::Roman)
            && self.contains(Civilisation::Japanese);
        proof {
            if total {
                assert forall|c: Civilisation| self@.contains_key(c) by {
                    match c {
                        Civilisation::Greek => {},
                        Civilisation::Roman => {},
                        Civilisation::Japanese => {},
                    }
                }
            }
        }
        total
    }
}

} // verus!
