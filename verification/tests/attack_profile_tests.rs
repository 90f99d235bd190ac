use dpr_simulator::attack_profile::AttackProfile;
use dpr_simulator::dice::DiceBuilder;
use dpr_simulator::roll_collection::RollCollection;
use dpr_simulator::static_modifier::StaticModifier;
use dpr_simulator::{ModifierBehaviour, Ruleset};

fn spawn_roll_collections(
    dice_pairs: Vec<(i32, i32)>,
    modifier_values: Vec<i32>,
    rule_mode: Ruleset,
) -> Vec<RollCollection> {
    let mut roll_collections: Vec<RollCollection> = Vec::new();
    for (dice_values, modifier_value) in dice_pairs.into_iter().zip(modifier_values.into_iter()) {
        let (min_value, max_value) = dice_values;

        let die = DiceBuilder::new()
            .set_roll_min(min_value)
            .set_roll_max(max_value)
            .build();
        let modifier = StaticModifier::new(modifier_value, ModifierBehaviour::OnHit);

        roll_collections.push(RollCollection::new(vec![die], vec![modifier], rule_mode));
    }
    roll_collections
}

#[test]
fn test_roll_turn_crit() {
    // A single pair of dice in the attack profile which crits.
    let hit_collection = spawn_roll_collections(vec![(20, 20)], vec![0], Ruleset::DND5e);
    let damage_collection = spawn_roll_collections(vec![(1, 1)], vec![0], Ruleset::DND5e);

    let mut attack_profile = AttackProfile::new(1, hit_collection, damage_collection);
    let (obs_crit, obs_hit, obs_dmg) = attack_profile.roll_turn();

    assert_eq!(obs_crit, 1);
    assert_eq!(obs_hit, 1);
    assert_eq!(obs_dmg, 2);
}

#[test]
fn test_roll_turn_hit() {
    // A single pair of dice in the attack profile which hits.
    let hit_collection = spawn_roll_collections(vec![(2, 5)], vec![0], Ruleset::DND5e);
    let damage_collection = spawn_roll_collections(vec![(1, 1)], vec![0], Ruleset::DND5e);

    let mut attack_profile = AttackProfile::new(1, hit_collection, damage_collection);
    let (obs_crit, obs_hit, obs_dmg) = attack_profile.roll_turn();

    assert_eq!(obs_crit, 0);
    assert_eq!(obs_hit, 1);
    assert_eq!(obs_dmg, 1);
}

#[test]
fn test_roll_turn_miss() {
    // A single pair of dice in the attack profile which misses.
    let hit_collection = spawn_roll_collections(vec![(2, 5)], vec![0], Ruleset::DND5e);
    let damage_collection = spawn_roll_collections(vec![(1, 1)], vec![0], Ruleset::DND5e);

    let mut attack_profile = AttackProfile::new(10, hit_collection, damage_collection);
    let (obs_crit, obs_hit, obs_dmg) = attack_profile.roll_turn();

    assert_eq!(obs_crit, 0);
    assert_eq!(obs_hit, 0);
    assert_eq!(obs_dmg, 0);
}

#[test]
fn test_roll_turn_crit_multiple() {
    // Multiple pairs of dice which all crit.
    let hit_collection =
        spawn_roll_collections(vec![(11, 12), (13, 14)], vec![0, 0], Ruleset::PF2e);
    let damage_collection =
        spawn_roll_collections(vec![(1, 1), (2, 2)], vec![0, 0], Ruleset::DND5e);

    let mut attack_profile = AttackProfile::new(1, hit_collection, damage_collection);
    let (obs_crit, obs_hit, obs_dmg) = attack_profile.roll_turn();

    assert_eq!(obs_crit, 2);
    assert_eq!(obs_hit, 2);
    assert_eq!(obs_dmg, 6);
}

#[test]
fn test_roll_turn_hit_multiple() {
    // Multiple pairs of dice in the attack profile which all hit.
    let hit_collection = spawn_roll_collections(vec![(2, 5), (2, 6)], vec![0, 0], Ruleset::DND5e);
    let damage_collection =
        spawn_roll_collections(vec![(1, 1), (1, 1)], vec![0, 0], Ruleset::DND5e);

    let mut attack_profile = AttackProfile::new(1, hit_collection, damage_collection);
    let (obs_crit, obs_hit, obs_dmg) = attack_profile.roll_turn();

    assert_eq!(obs_crit, 0);
    assert_eq!(obs_hit, 2);
    assert_eq!(obs_dmg, 2);
}

#[test]
fn test_roll_turn_miss_multiple() {
    // Multiple pairs of dice in the attack profile which all miss.
    let hit_collection = spawn_roll_collections(vec![(2, 5), (2, 6)], vec![0, 0], Ruleset::DND5e);
    let damage_collection =
        spawn_roll_collections(vec![(1, 1), (1, 1)], vec![0, 0], Ruleset::DND5e);

    let mut attack_profile = AttackProfile::new(10, hit_collection, damage_collection);
    let (obs_crit, obs_hit, obs_dmg) = attack_profile.roll_turn();

    assert_eq!(obs_crit, 0);
    assert_eq!(obs_hit, 0);
    assert_eq!(obs_dmg, 0);
}

#[test]
fn test_roll_turn_crit_mixed() {
    // A mix of pairs of dice which crit, hit, and miss.
    let hit_collection = spawn_roll_collections(
        vec![(20, 20), (12, 14), (1, 2)],
        vec![0, 0, 0],
        Ruleset::DND5e,
    );
    let damage_collection =
        spawn_roll_collections(vec![(2, 2), (1, 1), (1, 1)], vec![0, 0, 0], Ruleset::DND5e);

    let mut attack_profile = AttackProfile::new(10, hit_collection, damage_collection);
    let (obs_crit, obs_hit, obs_dmg) = attack_profile.roll_turn();

    assert_eq!(obs_crit, 1);
    assert_eq!(obs_hit, 2);
    assert_eq!(obs_dmg, 5);
}

#[test]
fn test_roll_turn_mixed() {
    // Multiple pairs of dice where one hits and one misses.
    let hit_collection = spawn_roll_collections(vec![(2, 5), (12, 14)], vec![0, 0], Ruleset::DND5e);
    let damage_collection =
        spawn_roll_collections(vec![(1, 1), (1, 1)], vec![0, 0], Ruleset::DND5e);

    let mut attack_profile = AttackProfile::new(10, hit_collection, damage_collection);
    let (obs_crit, obs_hit, obs_dmg) = attack_profile.roll_turn();

    assert_eq!(obs_crit, 0);
    assert_eq!(obs_hit, 1);
    assert_eq!(obs_dmg, 1);
}
