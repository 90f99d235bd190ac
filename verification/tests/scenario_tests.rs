//! Scenario and edge-case tests over concrete values: notation parsing
//! under both rulesets, forced criticals, tier upgrades and downgrades,
//! draw bounds, and the input-padding policy.

use dpr_simulator::attack_profile::AttackProfile;
use dpr_simulator::dice::{Dice, DiceBuilder};
use dpr_simulator::roll_collection::RollCollection;
use dpr_simulator::static_modifier::StaticModifier;
use dpr_simulator::weapon::Weapon;
use dpr_simulator::{
    equalise_input_vectors, try_process_simulation, validate_simulation_inputs, HitResult,
    ModifierBehaviour, RollBehaviour, Ruleset, TurnRecord,
};
use rand::rngs::StdRng;
use rand::SeedableRng;

#[test]
fn test_scenario_parse_five_e() {
    // "1d4,2d6D+7" under the 5e ruleset: one d4 (Standard), two d6
    // (Disadvantage), one +7 modifier with the OnHit default.
    let exp_rc = RollCollection::new(
        vec![
            DiceBuilder::new().set_roll_max(4).build(),
            DiceBuilder::new()
                .set_roll_max(6)
                .set_roll_behaviour(RollBehaviour::Disadvantage, None)
                .build(),
            DiceBuilder::new()
                .set_roll_max(6)
                .set_roll_behaviour(RollBehaviour::Disadvantage, None)
                .build(),
        ],
        vec![StaticModifier::new(7, ModifierBehaviour::OnHit)],
        Ruleset::DND5e,
    );

    let obs_rc = RollCollection::parse_user_input("1d4,2d6D+7", Ruleset::DND5e);
    assert_eq!(exp_rc, obs_rc);
}

#[test]
fn test_scenario_parse_tiered_default() {
    // The same bare modifier defaults to CanCritical under the tiered ruleset.
    let obs_rc = RollCollection::parse_user_input("1d4+7", Ruleset::PF2e);

    let exp_rc = RollCollection::new(
        vec![DiceBuilder::new().set_roll_max(4).build()],
        vec![StaticModifier::new(7, ModifierBehaviour::CanCritical)],
        Ruleset::PF2e,
    );
    assert_eq!(exp_rc, obs_rc);
}

#[test]
fn test_scenario_forced_crit_rounds() {
    // A hit roll forced to a natural 20 on a d20 against a trivial
    // defense: every round is a critical hit, and the "1d1+1" damage
    // resolves as doubled dice plus the flat modifier.
    let hit_die = DiceBuilder::new().set_roll_min(20).set_roll_max(20).build();
    let hit_context = RollCollection::new(vec![hit_die], vec![], Ruleset::DND5e);
    let dmg_context = RollCollection::parse_user_input("1d1+1", Ruleset::DND5e);

    let mut profile = AttackProfile::new(1, vec![hit_context], vec![dmg_context]);

    let mut crit_count = 0;
    let mut hit_count = 0;
    let mut total_damage = 0;
    for _ in 0..5 {
        let (crits, hits, damage) = profile.roll_turn();
        crit_count += crits;
        hit_count += hits;
        total_damage += damage;
    }

    assert_eq!(5, crit_count);
    assert_eq!(5, hit_count);
    assert_eq!(15, total_damage);
}

#[test]
fn test_scenario_padding() {
    // A to-hit vector of length 2 against a damage vector of length 5:
    // after equalisation both have length 5, the to-hit vector's last
    // element repeated three times.
    let mut to_hit: Vec<String> = vec!["1d20+5".to_string(), "1d20".to_string()];
    let mut damage: Vec<String> = vec![
        "1d8".to_string(),
        "1d8".to_string(),
        "1d6".to_string(),
        "1d6".to_string(),
        "1d4".to_string(),
    ];

    equalise_input_vectors(&mut to_hit, &mut damage);

    assert_eq!(5, to_hit.len());
    assert_eq!(5, damage.len());
    assert_eq!(
        vec!["1d20+5", "1d20", "1d20", "1d20", "1d20"],
        to_hit
    );
}

#[test]
fn test_draw_bounds_endpoints() {
    // Ten thousand draws of a die bounded by [3, 7] stay inside the
    // bounds and reach both endpoints.
    let mut die = DiceBuilder::new().set_roll_min(3).set_roll_max(7).build();

    let mut saw_low = false;
    let mut saw_high = false;
    for _ in 0..10_000 {
        let roll = die.evaluate_result(None);
        assert!(3 <= roll && roll <= 7);
        if roll == 3 {
            saw_low = true;
        }
        if roll == 7 {
            saw_high = true;
        }
    }
    assert!(saw_low);
    assert!(saw_high);
}

#[test]
fn test_fatal_crit_bounds() {
    // A Fatal die with min 1, max 6 and alternate maximum 10 always
    // resolves critical damage inside [3, 30].
    let mut die = Dice {
        min: 1,
        max: 6,
        roll_behaviour: RollBehaviour::Fatal,
        alt_value: 10,
        rng_element: StdRng::from_os_rng(),
    };

    for _ in 0..10_000 {
        let roll = die.evaluate_result(Some(&HitResult::CriticalHit));
        assert!(3 <= roll && roll <= 30);
    }
}

#[test]
fn test_tiered_flat_margin_crit_and_miss() {
    // With a d10 and a flat +10 and no d20 present: against a target of
    // 1 the margin always reaches the critical tier; against a target of
    // 21 the total always falls short.  (A target of 20 can still be met:
    // the d10's highest roll gives a total of exactly 20 and a plain hit.)
    let make_roll_collection = || {
        RollCollection::new(
            vec![DiceBuilder::new().set_roll_max(10).build()],
            vec![StaticModifier::new(10, ModifierBehaviour::OnHit)],
            Ruleset::PF2e,
        )
    };

    let mut crit_roll = make_roll_collection();
    let mut miss_roll = make_roll_collection();
    for _ in 0..1_000 {
        assert_eq!(HitResult::CriticalHit, crit_roll.roll_against_armour_class(1));
        assert_eq!(HitResult::Miss, miss_roll.roll_against_armour_class(21));
    }
}

#[test]
fn test_tiered_natural_one_downgrades() {
    // A d20 with a +30 bonus against a target of 21 always reaches the
    // critical tier on the flat total, so the roll never misses; the
    // rounds that resolve as plain hits are exactly the natural ones,
    // downgraded one tier, and both outcomes appear over many rounds.
    let mut roll = RollCollection::new(
        vec![DiceBuilder::new().set_roll_max(20).build()],
        vec![StaticModifier::new(30, ModifierBehaviour::OnHit)],
        Ruleset::PF2e,
    );

    let mut saw_hit = false;
    let mut saw_crit = false;
    for _ in 0..10_000 {
        match roll.roll_against_armour_class(21) {
            HitResult::Miss => panic!("a natural one must downgrade to a hit, not a miss"),
            HitResult::Hit => saw_hit = true,
            HitResult::CriticalHit => saw_crit = true,
        }
    }
    assert!(saw_hit);
    assert!(saw_crit);
}

#[test]
fn test_weapon_notation_rejects_sign_only() {
    // A token with a sign but no digits is rejected.
    assert!(Weapon::from_notation_string("d+").is_err());
    assert!(Weapon::from_notation_string("-d2+1").is_err());
}

#[test]
fn test_weapon_notation_rejects_oversize() {
    // A numeric token beyond the 32-bit range is rejected rather than read.
    assert!(Weapon::from_notation_string("99999999999d6+1").is_err());
    assert!(Weapon::from_notation_string("1d6+2147483648").is_err());
}

#[test]
fn test_weapon_notation_accepts_bounds() {
    // The extremes of the 32-bit range are still read.
    let w = Weapon::from_notation_string("1d6+2147483647").unwrap();
    assert_eq!(w.damage_modifier, 2147483647);
}

#[test]
fn test_exclusive_crit_only_on_crit() {
    // An ExclusiveCrit die contributes nothing on a plain hit and one
    // ordinary draw on a critical hit.
    let mut die = Dice {
        min: 2,
        max: 2,
        roll_behaviour: RollBehaviour::ExclusiveCrit,
        alt_value: 0,
        rng_element: StdRng::from_os_rng(),
    };

    assert_eq!(0, die.evaluate_result(Some(&HitResult::Hit)));
    assert_eq!(2, die.evaluate_result(Some(&HitResult::CriticalHit)));
    assert_eq!(0, die.evaluate_result(Some(&HitResult::Miss)));
}

#[test]
fn test_validate_notation_bounds() {
    // Ordinary notation is accepted, tokens beyond i32 are refused, and
    // an empty string parses to an empty collection.
    assert!(RollCollection::validate_notation("1d8+5"));
    assert!(RollCollection::validate_notation(""));
    assert!(RollCollection::validate_notation("2d6AA~10-3"));
    assert!(!RollCollection::validate_notation("1d99999999999"));
    assert!(!RollCollection::validate_notation("1d6+99999999999"));
}

#[test]
fn test_validate_simulation_inputs_rejects_unrollable() {
    // A die of size zero cannot be rolled, so the whole input is refused.
    let hits = vec!["1d20+5".to_string()];
    let bad = vec!["1d0".to_string()];
    let good = vec!["1d8+3".to_string()];

    assert!(validate_simulation_inputs(&hits, &good, &Ruleset::DND5e));
    assert!(!validate_simulation_inputs(&hits, &bad, &Ruleset::DND5e));
}

#[test]
fn test_try_process_simulation_accepts_and_refuses() {
    // Deterministic input: a d1 to hit with +1 against defense 1 always
    // hits for 2 damage; an oversize token is refused outright.
    let refused = try_process_simulation(
        vec![1],
        vec!["1d20+99999999999".to_string()],
        vec!["1d6".to_string()],
        Ruleset::DND5e,
        2,
    );
    assert!(refused.is_none());

    let accepted = try_process_simulation(
        vec![1],
        vec!["1d1+1".to_string()],
        vec!["1d1+1".to_string()],
        Ruleset::DND5e,
        2,
    );
    let records = accepted.unwrap();
    let exp_records = vec![
        TurnRecord { iteration: 1, target_ac: 1, number_hits: 1, number_crits: 0, total_damage: 2 },
        TurnRecord { iteration: 2, target_ac: 1, number_hits: 1, number_crits: 0, total_damage: 2 },
    ];
    assert_eq!(exp_records, records);
}

#[test]
fn test_on_miss_modifier_always_contributes() {
    // An OnMiss modifier represents a fixed penalty applied on every
    // outcome, a miss included.
    let mut roll = RollCollection::new(
        vec![],
        vec![StaticModifier::new(-2, ModifierBehaviour::OnMiss)],
        Ruleset::PF2e,
    );

    assert_eq!(-2, roll.roll_damage_result(&HitResult::Miss));
    assert_eq!(-2, roll.roll_damage_result(&HitResult::Hit));
    assert_eq!(-2, roll.roll_damage_result(&HitResult::CriticalHit));
}
