use dpr_simulator::dice::{Dice, DiceBuilder};
use dpr_simulator::{HitResult, RollBehaviour};
use rand::rngs::StdRng;
use rand::SeedableRng;

fn unpack_roll_vector(roll_capture: &Vec<i32>) -> (i32, i32) {
    let obs_min: i32 = *roll_capture.iter().min().unwrap();
    let obs_max: i32 = *roll_capture.iter().max().unwrap();

    (obs_min, obs_max)
}

#[test]
fn test_dice_constructor() {
    let exp_die = Dice {
        min: 1,
        max: 4,
        roll_behaviour: RollBehaviour::Standard,
        alt_value: 0,
        rng_element: StdRng::from_os_rng(),
    };

    let obs_die = Dice::new();
    assert_eq!(exp_die, obs_die);
}

#[test]
fn test_make_roll() {
    let mut my_die = Dice::new();

    let roll_results: Vec<i32> = (0..10_000).map(|_| my_die.make_roll()).collect();
    let obs_results: (i32, i32) = unpack_roll_vector(&roll_results);

    assert_eq!((1, 4), obs_results);
}

#[test]
fn test_make_alt_roll() {
    let mut my_die = Dice {
        min: 1,
        max: 4,
        roll_behaviour: RollBehaviour::Standard,
        alt_value: 10,
        rng_element: StdRng::from_os_rng(),
    };

    let roll_results: Vec<i32> = (0..10_000).map(|_| my_die.make_alt_roll()).collect();
    let obs_results: (i32, i32) = unpack_roll_vector(&roll_results);

    assert_eq!((1, 10), obs_results);
}

#[test]
fn test_evaluate_result_hit_fatal() {
    let mut my_die = Dice {
        min: 1,
        max: 4,
        roll_behaviour: RollBehaviour::Fatal,
        alt_value: 10,
        rng_element: StdRng::from_os_rng(),
    };

    // Test behaviour on a critical hit
    let roll_results: Vec<i32> = (0..10_000)
        .map(|_| my_die.evaluate_result(Some(&HitResult::CriticalHit)))
        .collect();
    let obs_results: (i32, i32) = unpack_roll_vector(&roll_results);
    assert_eq!((3, 30), obs_results);

    // Test behaviour on a regular hit
    let roll_results: Vec<i32> = (0..10_000)
        .map(|_| my_die.evaluate_result(Some(&HitResult::Hit)))
        .collect();
    let obs_results: (i32, i32) = unpack_roll_vector(&roll_results);
    assert_eq!((1, 4), obs_results);

    // Test behaviour on a miss
    let roll_results: Vec<i32> = (0..10_000)
        .map(|_| my_die.evaluate_result(Some(&HitResult::Miss)))
        .collect();
    let obs_results: (i32, i32) = unpack_roll_vector(&roll_results);
    assert_eq!((0, 0), obs_results);
}

#[test]
fn test_evaluate_result_hit_excl_crit() {
    let mut my_die = Dice {
        min: 1,
        max: 4,
        roll_behaviour: RollBehaviour::ExclusiveCrit,
        alt_value: 0,
        rng_element: StdRng::from_os_rng(),
    };

    // Test for result on critical hit
    let roll_results: Vec<i32> = (0..10_000)
        .map(|_| my_die.evaluate_result(Some(&HitResult::CriticalHit)))
        .collect();
    let obs_results: (i32, i32) = unpack_roll_vector(&roll_results);
    assert_eq!((1, 4), obs_results);

    // Test for result on regular hit
    let roll_results: Vec<i32> = (0..10_000)
        .map(|_| my_die.evaluate_result(Some(&HitResult::Hit)))
        .collect();
    let obs_results: (i32, i32) = unpack_roll_vector(&roll_results);
    assert_eq!((0, 0), obs_results);

    // Test for result on miss
    let roll_results: Vec<i32> = (0..10_000)
        .map(|_| my_die.evaluate_result(Some(&HitResult::Miss)))
        .collect();
    let obs_results: (i32, i32) = unpack_roll_vector(&roll_results);
    assert_eq!((0, 0), obs_results);
}

#[test]
fn test_evaluate_result_hit_standard() {
    let mut my_die = Dice {
        min: 1,
        max: 4,
        roll_behaviour: RollBehaviour::Standard,
        alt_value: 0,
        rng_element: StdRng::from_os_rng(),
    };

    // Test for result on critical hit
    let roll_results: Vec<i32> = (0..10_000)
        .map(|_| my_die.evaluate_result(Some(&HitResult::CriticalHit)))
        .collect();
    let obs_results: (i32, i32) = unpack_roll_vector(&roll_results);
    assert_eq!((2, 8), obs_results);

    // Test for result on regular hit
    let roll_results: Vec<i32> = (0..10_000)
        .map(|_| my_die.evaluate_result(Some(&HitResult::Hit)))
        .collect();
    let obs_results: (i32, i32) = unpack_roll_vector(&roll_results);
    assert_eq!((1, 4), obs_results);

    // Test for result on miss
    let roll_results: Vec<i32> = (0..10_000)
        .map(|_| my_die.evaluate_result(Some(&HitResult::Miss)))
        .collect();
    let obs_results: (i32, i32) = unpack_roll_vector(&roll_results);
    assert_eq!((0, 0), obs_results);
}

#[test]
fn test_evaluate_result_none_dbl_advantage() {
    // The average DoubleAdvantage roll must beat the average Advantage roll.

    let mut adv_die = Dice {
        min: 1,
        max: 20,
        roll_behaviour: RollBehaviour::Advantage,
        alt_value: 0,
        rng_element: StdRng::from_os_rng(),
    };

    let mut dbl_die = Dice {
        min: 1,
        max: 20,
        roll_behaviour: RollBehaviour::DoubleAdvantage,
        alt_value: 0,
        rng_element: StdRng::from_os_rng(),
    };

    let adv_total: i32 = (0..10_000)
        .map(|_| adv_die.evaluate_result(None))
        .collect::<Vec<_>>()
        .iter()
        .sum();
    let dbl_total: i32 = (0..10_000)
        .map(|_| dbl_die.evaluate_result(None))
        .collect::<Vec<_>>()
        .iter()
        .sum();

    assert!(dbl_total > adv_total);
}

#[test]
fn test_evaluate_result_none_advantage() {
    // The average Advantage roll must beat the average Standard roll.

    let mut std_die = Dice {
        min: 1,
        max: 20,
        roll_behaviour: RollBehaviour::Standard,
        alt_value: 0,
        rng_element: StdRng::from_os_rng(),
    };

    let mut adv_die = Dice {
        min: 1,
        max: 20,
        roll_behaviour: RollBehaviour::Advantage,
        alt_value: 0,
        rng_element: StdRng::from_os_rng(),
    };

    let std_total: i32 = (0..10_000)
        .map(|_| std_die.evaluate_result(None))
        .collect::<Vec<_>>()
        .iter()
        .sum();
    let adv_total: i32 = (0..10_000)
        .map(|_| adv_die.evaluate_result(None))
        .collect::<Vec<_>>()
        .iter()
        .sum();

    assert!(adv_total > std_total);
}

#[test]
fn test_evaluate_result_none_disadvantage() {
    // The average Disadvantage roll must fall short of the average Standard roll.

    let mut std_die = Dice {
        min: 1,
        max: 20,
        roll_behaviour: RollBehaviour::Standard,
        alt_value: 0,
        rng_element: StdRng::from_os_rng(),
    };

    let mut dis_die = Dice {
        min: 1,
        max: 20,
        roll_behaviour: RollBehaviour::Disadvantage,
        alt_value: 0,
        rng_element: StdRng::from_os_rng(),
    };

    let std_total: i32 = (0..10_000)
        .map(|_| std_die.evaluate_result(None))
        .collect::<Vec<_>>()
        .iter()
        .sum();
    let dis_total: i32 = (0..10_000)
        .map(|_| dis_die.evaluate_result(None))
        .collect::<Vec<_>>()
        .iter()
        .sum();

    assert!(dis_total < std_total);
}

#[test]
fn test_evaluate_result_none_standard() {
    let mut std_die = Dice {
        min: 1,
        max: 20,
        roll_behaviour: RollBehaviour::Standard,
        alt_value: 0,
        rng_element: StdRng::from_os_rng(),
    };

    let roll_results: Vec<i32> = (0..10_000).map(|_| std_die.evaluate_result(None)).collect();
    let obs_results: (i32, i32) = unpack_roll_vector(&roll_results);
    assert_eq!((1, 20), obs_results);
}

#[test]
fn test_builder_constructor() {
    let exp_result = DiceBuilder {
        min: 1,
        max: 4,
        roll_behaviour: RollBehaviour::Standard,
        alt_value: 0,
        rng_seed: None,
    };

    let obs_result = DiceBuilder::new();
    assert_eq!(exp_result, obs_result);
}

#[test]
fn test_builder_set_roll_min() {
    let exp_result = DiceBuilder {
        min: 4,
        max: 4,
        roll_behaviour: RollBehaviour::Standard,
        alt_value: 0,
        rng_seed: None,
    };

    let obs_result = DiceBuilder::new().set_roll_min(4);
    assert_eq!(exp_result, obs_result);
}

#[test]
fn test_builder_set_roll_max() {
    let exp_result = DiceBuilder {
        min: 1,
        max: 10,
        roll_behaviour: RollBehaviour::Standard,
        alt_value: 0,
        rng_seed: None,
    };

    let obs_result = DiceBuilder::new().set_roll_max(10);
    assert_eq!(exp_result, obs_result);
}

#[test]
fn test_builder_set_roll_behaviour() {
    let exp_result = DiceBuilder {
        min: 1,
        max: 4,
        roll_behaviour: RollBehaviour::Advantage,
        alt_value: 0,
        rng_seed: None,
    };

    let obs_result = DiceBuilder::new().set_roll_behaviour(RollBehaviour::Advantage, None);
    assert_eq!(exp_result, obs_result);
}

#[test]
fn test_builder_set_roll_behaviour_fatal() {
    let exp_result = DiceBuilder {
        min: 1,
        max: 4,
        roll_behaviour: RollBehaviour::Fatal,
        alt_value: 10,
        rng_seed: None,
    };

    let obs_result = DiceBuilder::new().set_roll_behaviour(RollBehaviour::Fatal, Some(10));
    assert_eq!(exp_result, obs_result);
}

#[test]
fn test_builder_set_rng_seed() {
    let exp_result = DiceBuilder {
        min: 1,
        max: 4,
        roll_behaviour: RollBehaviour::Standard,
        alt_value: 0,
        rng_seed: Some(10),
    };

    let obs_result = DiceBuilder::new().set_rng_seed(10 as u64);
    assert_eq!(exp_result, obs_result);
}

#[test]
fn test_builder_build() {
    // Set each element to a value different from the default.  Indirectly
    // test that the seed was set by rolling with a known output sequence
    // of five values for the given input seed.

    let exp_result = Dice {
        min: 2,
        max: 10,
        roll_behaviour: RollBehaviour::Advantage,
        alt_value: 0,
        rng_element: StdRng::from_os_rng(),
    };

    let mut obs_result = DiceBuilder::new()
        .set_roll_min(2)
        .set_roll_max(10)
        .set_roll_behaviour(RollBehaviour::Advantage, None)
        .set_rng_seed(20)
        .build();

    assert_eq!(exp_result, obs_result);

    for exp_value in [6, 9, 9, 8, 8] {
        assert_eq!(exp_value, obs_result.evaluate_result(None));
    }
}
