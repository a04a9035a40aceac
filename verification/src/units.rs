use vstd::prelude::*;
use crate::resources::ResourceType;

verus! {

/// The kinds of unit.
#[derive(Clone, Copy, Debug, PartialEq, Eq, Structural, Hash)]
pub enum UnitType {
    MiningStation,
    Cruiser,
    SpaceStation,
}

/// One entry of a unit's stat list. Rates are in thousandths of a resource
/// unit per accrual tick, distances in world sub-units.
#[derive(Clone, Copy, Debug, PartialEq, Eq, Structural, Hash)]
pub enum UnitStat {
    BaseMiningRate(i32),
    BonusMiningRate(ResourceType, i32),
    MaxMiningDist(i32),
    MaxSpeed(i32),
    Hitpoints(i32),
}

/// Thousandths per whole resource unit.
pub const RATE_SCALE: i32 = 1000;

/// What one stat adds to the base mining rate.
pub open spec fn base_rate_of(stat: UnitStat) -> int {
    match stat {
        UnitStat::BaseMiningRate(rate) => rate as int,
        _ => 0,
    }
}

/// What one stat adds to the mining rate for `resource` beyond the base.
pub open spec fn bonus_rate_of(stat: UnitStat, resource: ResourceType) -> int {
    match stat {
        UnitStat::BonusMiningRate(kind, rate) => if kind == resource {
            rate as int
        } else {
            0
        },
        _ => 0,
    }
}

/// Sum of all base mining rates in a stat list.
pub open spec fn base_mining_rate(stats: Seq<UnitStat>) -> int
    decreases stats.len(),
{
    if stats.len() == 0 {
        0
    } else {
        base_mining_rate(stats.drop_last()) + base_rate_of(stats.last())
    }
}

/// Sum of the bonus mining rates in a stat list that are given for
/// `resource`.
pub open spec fn bonus_mining_rate(stats: Seq<UnitStat>, resource: ResourceType) -> int
    decreases stats.len(),
{
    if stats.len() == 0 {
        0
    } else {
        bonus_mining_rate(stats.drop_last(), resource) + bonus_rate_of(stats.last(), resource)
    }
}

/// The rate at which a unit with these stats mines `resource` by itself:
/// its base rates and the bonus rates for that resource.
pub open spec fn unit_mining_rate(stats: Seq<UnitStat>, resource: ResourceType) -> int {
    base_mining_rate(stats) + bonus_mining_rate(stats, resource)
}

/// The greatest distance from which a unit with these stats can mine: the
/// value of the last such stat in the list, zero where there is none.
pub open spec fn max_mining_dist(stats: Seq<UnitStat>) -> int
    decreases stats.len(),
{
    if stats.len() == 0 {
        0
    } else {
        match stats.last() {
            UnitStat::MaxMiningDist(dist) => dist as int,
            _ => max_mining_dist(stats.drop_last()),
        }
    }
}

/// Whether a stat list holds a stat that bears on mining `resource`.
pub open spec fn has_mining_stat(stats: Seq<UnitStat>, resource: ResourceType) -> bool {
    exists|i: int|
        0 <= i < stats.len() && (base_rate_of(#[trigger] stats[i]) != 0 || bonus_rate_of(
            stats[i],
            resource,
        ) != 0)
}

/// The whole resource units in a rate: the rate divided by `RATE_SCALE`,
/// rounded toward zero.
pub open spec fn whole_units(rate: int) -> int {
    if rate >= 0 {
        rate / (RATE_SCALE as int)
    } else {
        -((-rate) / (RATE_SCALE as int))
    }
}

/// What a unit can do as a miner of one resource, folded from its stats.
#[derive(Clone, Copy, Debug, PartialEq, Eq, Structural, Hash)]
pub struct MiningProfile {
    pub base_rate: i128,
    pub bonus_rate: i128,
    pub max_dist: i32,
}

impl MiningProfile {
    /// Base and bonus rate together.
    pub open spec fn rate(self) -> int {
        self.base_rate + self.bonus_rate
    }
}

/// The stat list of a unit.
#[derive(Clone, Debug)]
pub struct UnitStats(pub Vec<UnitStat>);

/// What kind of unit an entity is, and its stats.
#[derive(Clone, Debug)]
pub struct UnitInformation {
    pub unit_type: UnitType,
    pub stats: UnitStats,
}

proof fn lemma_take_next<T>(s: Seq<T>, i: int)
    requires
        0 <= i < s.len(),
    ensures
        s.take(i + 1).drop_last() == s.take(i),
        s.take(i + 1).last() == s[i],
        s.take(s.len() as int) == s,
{
    assert(s.take(i + 1).drop_last() =~= s.take(i));
    assert(s.take(s.len() as int) =~= s);
}

impl UnitStats {
    /// The stat list as a sequence.
    pub open spec fn view(self) -> Seq<UnitStat> {
        self.0@
    }

    /// Folds the stat list into the profile of a miner of `resource`.
    pub fn mining_profile(&self, resource: ResourceType) -> (profile: MiningProfile)
        ensures
            profile.base_rate == base_mining_rate(self@),
            profile.bonus_rate == bonus_mining_rate(self@, resource),
            profile.max_dist == max_mining_dist(self@),
            -0x8000_0000_0000_0000_0000_0000 <= profile.rate() <= 0x8000_0000_0000_0000_0000_0000,
    {
        let mut base: i128 = 0;
        let mut bonus: i128 = 0;
        let mut dist: i32 = 0;
        let n: usize = self.0.len();
        let mut i: usize = 0;
        while i < n
            invariant
                i <= n,
                n == self.0@.len(),
                base == base_mining_rate(self.0@.take(i as int)),
                bonus == bonus_mining_rate(self.0@.take(i as int), resource),
                dist == max_mining_dist(self.0@.take(i as int)),
                -0x8000_0000 * i <= base + bonus <= 0x8000_0000 * i,
                -0x8000_0000 * i <= base <= 0x8000_0000 * i,
                -0x8000_0000 * i <= bonus <= 0x8000_0000 * i,
            decreases n - i,
        {
            proof {
                lemma_take_next(self.0@, i as int);
            }
            match self.0[i] {
                UnitStat::BaseMiningRate(rate) => {
                    base = base + rate as i128;
                },
                UnitStat::BonusMiningRate(kind, rate) => {
                    if kind == resource {
                        bonus = bonus + rate as i128;
                    }
                },
                UnitStat::MaxMiningDist(max) => {
                    dist = max;
                },
                _ => {},
            }
            i += 1;
        }
        proof {
            assert(self.0@.take(n as int) =~= self.0@);
        }
        MiningProfile { base_rate: base, bonus_rate: bonus, max_dist: dist }
    }

    /// The rate at which the unit mines `resource` by itself.
    pub fn mining_rate(&self, resource: ResourceType) -> (rate: i128)
        ensures
            rate == unit_mining_rate(self@, resource),
            -0x8000_0000_0000_0000_0000_0000 <= rate <= 0x8000_0000_0000_0000_0000_0000,
    {
        let profile = self.mining_profile(resource);
        profile.base_rate + profile.bonus_rate
    }

    /// The greatest distance from which the unit can mine.
    pub fn max_mining_dist(&self) -> (dist: i32)
        ensures
            dist == max_mining_dist(self@),
    {
        let mut dist: i32 = 0;
        let n: usize = self.0.len();
        let mut i: usize = 0;
        while i < n
            invariant
                i <= n,
                n == self.0@.len(),
                dist == max_mining_dist(self.0@.take(i as int)),
            decreases n - i,
        {
            proof {
                lemma_take_next(self.0@, i as int);
            }
            if let UnitStat::MaxMiningDist(max) = self.0[i] {
                dist = max;
            }
            i += 1;
        }
        proof {
            assert(self.0@.take(n as int) =~= self.0@);
        }
        dist
    }
}

/// The whole resource units in `rate`.
pub fn whole_units_of(rate: i128) -> (whole: i128)
    ensures
        whole == whole_units(rate as int),
{
    if rate >= 0 {
        rate / 1000
    } else if rate == i128::MIN {
        -170141183460469231731687303715884105i128
    } else {
        let positive: i128 = -rate;
        -(positive / 1000)
    }
}

/// A stat list without a stat that bears on mining `resource` gives the
/// rate zero.
pub proof fn lemma_no_mining_stat_no_rate(stats: Seq<UnitStat>, resource: ResourceType)
    requires
        !has_mining_stat(stats, resource),
    ensures
        unit_mining_rate(stats, resource) == 0,
    decreases stats.len(),
{
    if stats.len() > 0 {
        let rest = stats.drop_last();
        assert forall|i: int| 0 <= i < rest.len() implies base_rate_of(#[trigger] rest[i]) == 0
            && bonus_rate_of(rest[i], resource) == 0 by {
            assert(rest[i] == stats[i]);
        }
        lemma_no_mining_stat_no_rate(rest, resource);
        assert(stats.last() == stats[stats.len() - 1]);
    }
}

} // verus!
