use rts_core::entity::EntityId;
use rts_core::geometry::{Point2, Point3};
use rts_core::resources::ResourceType;
use rts_core::units::{whole_units_of, MiningProfile, UnitStat, UnitStats, RATE_SCALE};

#[test]
fn profile_of_an_empty_stat_list() {
    let stats = UnitStats(vec![]);
    assert_eq!(
        stats.mining_profile(ResourceType::Plotanium),
        MiningProfile { base_rate: 0, bonus_rate: 0, max_dist: 0 }
    );
    assert_eq!(stats.mining_rate(ResourceType::Plotanium), 0);
    assert_eq!(stats.max_mining_dist(), 0);
}

#[test]
fn profile_folds_the_stat_list() {
    let stats = UnitStats(vec![
        UnitStat::Hitpoints(100),
        UnitStat::BaseMiningRate(5000),
        UnitStat::BonusMiningRate(ResourceType::Plotanium, 2000),
        UnitStat::MaxMiningDist(10),
        UnitStat::BonusMiningRate(ResourceType::Tritium, 700),
        UnitStat::BaseMiningRate(250),
        UnitStat::MaxSpeed(3),
    ]);
    assert_eq!(
        stats.mining_profile(ResourceType::Plotanium),
        MiningProfile { base_rate: 5250, bonus_rate: 2000, max_dist: 10 }
    );
    assert_eq!(
        stats.mining_profile(ResourceType::Tritium),
        MiningProfile { base_rate: 5250, bonus_rate: 700, max_dist: 10 }
    );
    assert_eq!(stats.mining_rate(ResourceType::Plotanium), 7250);
    assert_eq!(stats.mining_rate(ResourceType::Tritium), 5950);
}

#[test]
fn last_max_mining_dist_counts() {
    let stats = UnitStats(vec![
        UnitStat::MaxMiningDist(10),
        UnitStat::MaxMiningDist(25),
        UnitStat::BaseMiningRate(1),
        UnitStat::MaxMiningDist(-4),
        UnitStat::MaxSpeed(99),
    ]);
    assert_eq!(stats.max_mining_dist(), -4);
    assert_eq!(stats.mining_profile(ResourceType::Plotanium).max_dist, -4);
}

#[test]
fn rates_of_any_size_add_up() {
    let stats = UnitStats(vec![
        UnitStat::BaseMiningRate(i32::MAX),
        UnitStat::BaseMiningRate(i32::MAX),
        UnitStat::BonusMiningRate(ResourceType::Plotanium, i32::MAX),
        UnitStat::BonusMiningRate(ResourceType::Tritium, i32::MIN),
        UnitStat::BonusMiningRate(ResourceType::Tritium, i32::MIN),
    ]);
    assert_eq!(stats.mining_rate(ResourceType::Plotanium), 3 * (i32::MAX as i128));
    assert_eq!(
        stats.mining_rate(ResourceType::Tritium),
        2 * (i32::MAX as i128) + 2 * (i32::MIN as i128)
    );
}

#[test]
fn whole_units_round_toward_zero() {
    assert_eq!(RATE_SCALE, 1000);
    assert_eq!(whole_units_of(0), 0);
    assert_eq!(whole_units_of(999), 0);
    assert_eq!(whole_units_of(1000), 1);
    assert_eq!(whole_units_of(8000), 8);
    assert_eq!(whole_units_of(3200), 3);
    assert_eq!(whole_units_of(-999), 0);
    assert_eq!(whole_units_of(-1000), -1);
    assert_eq!(whole_units_of(-2500), -2);
    assert_eq!(whole_units_of(i128::MAX), i128::MAX / 1000);
    assert_eq!(whole_units_of(i128::MIN), i128::MIN / 1000);
    assert_eq!(whole_units_of(i128::MIN + 1), (i128::MIN + 1) / 1000);
}

#[test]
fn entity_bits_round_trip() {
    assert_eq!(EntityId::from_bits(0x1_0000_0007).to_bits(), 0x1_0000_0007);
    assert_eq!(EntityId::from_bits(5), EntityId(5));
    assert_ne!(EntityId::from_bits(5), EntityId::from_bits(6));
}

#[test]
fn distance_squared_is_the_sum_of_squares() {
    let a = Point3::new(1, 2, 3);
    let b = Point3::new(4, 6, 15);
    assert_eq!(a.distance_squared(&b), 9 + 16 + 144);
    assert_eq!(b.distance_squared(&a), 169);
    assert_eq!(a.distance_squared(&a), 0);
}

#[test]
fn distance_squared_across_the_whole_range() {
    let low = Point3::new(i32::MIN, i32::MIN, i32::MIN);
    let high = Point3::new(i32::MAX, i32::MAX, i32::MAX);
    let side: u128 = u32::MAX as u128;
    assert_eq!(low.distance_squared(&high), 3 * side * side);
}

#[test]
fn within_distance_counts_the_boundary() {
    let origin = Point3::new(0, 0, 0);
    let at = Point3::new(3, 4, 12);
    assert!(origin.within_distance(&at, 13));
    assert!(origin.within_distance(&at, 14));
    assert!(!origin.within_distance(&at, 12));
    assert!(origin.within_distance(&origin, 0));
    assert!(!origin.within_distance(&Point3::new(0, 1, 0), 0));
}

#[test]
fn nothing_is_within_a_negative_distance() {
    let origin = Point3::new(0, 0, 0);
    assert!(!origin.within_distance(&origin, -1));
    assert!(!origin.within_distance(&Point3::new(1, 0, 0), -1));
    assert!(!origin.within_distance(&origin, i32::MIN));
}

#[test]
fn within_distance_at_the_ends_of_the_range() {
    let origin = Point3::new(0, 0, 0);
    assert!(origin.within_distance(&Point3::new(i32::MAX, 0, 0), i32::MAX));
    assert!(!origin.within_distance(&Point3::new(i32::MIN, 0, 0), i32::MAX));
    assert!(!origin.within_distance(&Point3::new(i32::MAX, 1, 0), i32::MAX));
}

#[test]
fn ground_drops_the_vertical_axis() {
    assert_eq!(Point3::new(7, 8, 9).ground(), Point2 { x: 7, y: 9 });
    assert_eq!(Point3::new(-1, i32::MAX, i32::MIN).ground(), Point2::new(-1, i32::MIN));
}
