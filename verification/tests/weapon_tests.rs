use dpr_simulator::weapon::Weapon;

fn unpack_roll_vector(roll_capture: &Vec<i32>) -> (i32, i32) {
    let obs_min: i32 = *roll_capture.iter().min().unwrap();
    let obs_max: i32 = *roll_capture.iter().max().unwrap();

    (obs_min, obs_max)
}

#[test]
fn weapon_test_create_empty() {
    let weapon = Weapon::create_empty();

    assert_eq!(weapon.number_die, 0);
    assert_eq!(weapon.max_roll, 1);
    assert_eq!(weapon.damage_modifier, 0);
}

#[test]
fn weapon_test_from_notation_string() {
    let exp_n = 1;
    let exp_max = 7;
    let exp_mod = 3;
    let input_string = format!("{}d{}+{}", exp_n, exp_max - 1, exp_mod);

    let w = Weapon::from_notation_string(&input_string).unwrap();
    assert_eq!(w.number_die, exp_n);
    assert_eq!(w.max_roll, exp_max);
    assert_eq!(w.damage_modifier, exp_mod);
}

#[test]
fn test_from_notation_string_fail_1() {
    // First fail case - missing the 'd' from the expected notation.

    let result = Weapon::from_notation_string("16+3");
    assert!(result.is_err());
}

#[test]
fn test_from_notation_string_fail_2() {
    // Second fail case - missing the '+' from the expected notation.

    let result = Weapon::from_notation_string("1d63");
    assert!(result.is_err());
}

#[test]
fn test_roll_damage() {
    let damage_die: i32 = 8;
    let mut roller = rand::rng();
    let w = Weapon::new(1, damage_die, 0);

    let mut roll_capture: Vec<i32> = Vec::new();
    for _ in 0..10000 {
        roll_capture.push(w.roll_damage(&mut roller));
    }

    let (obs_min, obs_max) = unpack_roll_vector(&roll_capture);
    assert_eq!(obs_min, 1);
    assert_eq!(obs_max, damage_die);
}
