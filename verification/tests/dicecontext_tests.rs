use dpr_simulator::dice::DiceCollection;
use dpr_simulator::dicecontext::DiceContext;
use dpr_simulator::Reroll;

#[test]
fn test_parse_die_elements() {
    // The leftmost regular die of a standard notation.

    let exp_vector = Some((1, 8));
    let obs_vector = DiceContext::parse_regular_die("1d8+5");

    assert_eq!(exp_vector, obs_vector);
}

#[test]
fn dicecontext_test_parse_die_elements_none() {
    // A string with no die notation.

    let obs_vector = DiceContext::parse_regular_die("+5");
    assert_eq!(None, obs_vector);
}

#[test]
fn dicecontext_test_parse_static_elements_single_pos() {
    // A single positive element.

    let obs_result: i32 = DiceContext::parse_static_elements("1d8+5");
    assert_eq!(5, obs_result);
}

#[test]
fn dicecontext_test_parse_static_elements_single_neg() {
    // A single negative element.

    let obs_result: i32 = DiceContext::parse_static_elements("1d8-5");
    assert_eq!(-5, obs_result);
}

#[test]
fn dicecontext_test_parse_static_elements_multiple() {
    // Mixed elements.

    let obs_result: i32 = DiceContext::parse_static_elements("1d8+5-3");
    assert_eq!(2, obs_result);
}

#[test]
fn test_parse_reroll_elements_single_a() {
    // Advantage strings.

    for s in vec!["1d4A", "A1d4"] {
        let obs_result: Reroll = DiceContext::parse_reroll_elements(s);
        assert_eq!(Reroll::Advantage, obs_result);
    }
}

#[test]
fn test_parse_reroll_elements_single_aa() {
    // DoubleAdvantage strings.

    for s in vec!["1d4AA", "AA1d4"] {
        let obs_result: Reroll = DiceContext::parse_reroll_elements(s);
        assert_eq!(Reroll::DoubleAdvantage, obs_result);
    }
}

#[test]
fn test_parse_reroll_elements_single_d() {
    // Disadvantage strings.

    for s in vec!["1d4D", "D1d4"] {
        let obs_result: Reroll = DiceContext::parse_reroll_elements(s);
        assert_eq!(Reroll::Disadvantage, obs_result);
    }
}

#[test]
fn test_parse_reroll_elements_mixed_a() {
    // Mixed strings with Advantage first.

    for s in vec!["A1d4D", "AD1d4"] {
        let obs_result: Reroll = DiceContext::parse_reroll_elements(s);
        assert_eq!(Reroll::Advantage, obs_result);
    }
}

#[test]
fn test_parse_reroll_elements_mixed_d() {
    // Mixed strings with Disadvantage first.

    for s in vec!["D1d4A", "DA1d4"] {
        let obs_result: Reroll = DiceContext::parse_reroll_elements(s);
        assert_eq!(Reroll::Disadvantage, obs_result);
    }
}

#[test]
fn test_parse_reroll_elements_default() {
    let obs_result: Reroll = DiceContext::parse_reroll_elements("1d4");
    assert_eq!(Reroll::Standard, obs_result);
}

#[test]
fn test_parse_dice_string_standard() {
    // Regular die only, covering all advantage states.

    let exp_context = DiceContext::new(
        vec![
            DiceCollection::new(1, 4, Reroll::Standard),
            DiceCollection::new(2, 6, Reroll::Disadvantage),
            DiceCollection::new(3, 6, Reroll::Advantage),
            DiceCollection::new(4, 6, Reroll::DoubleAdvantage),
        ],
        7,
    );

    let obs_context: DiceContext = DiceContext::parse_dice_string("1d4,D2d6,3d6A,4d6AA+7");
    assert_eq!(exp_context, obs_context);
}

#[test]
fn test_parse_dice_string_fatal() {
    // A regular die and a fatal die, for only standard reroll states.

    let mut f_die = DiceCollection::new(2, 6, Reroll::Standard);
    f_die.set_fatal(8);

    let exp_context = DiceContext::new(
        vec![DiceCollection::new(1, 4, Reroll::Standard), f_die],
        7,
    );

    let obs_context: DiceContext = DiceContext::parse_dice_string("1d4,2f6~8+7");
    assert_eq!(exp_context, obs_context);
}

#[test]
fn test_roll() {
    // Behaviour for regular die only, as other behaviours are tested
    // within the DiceCollection struct.

    let mut roll_element = rand::rng();
    let context = DiceContext::new(
        vec![
            DiceCollection::new(1, 4, Reroll::Standard),
            DiceCollection::new(2, 6, Reroll::Standard),
        ],
        20,
    );

    // The total of the roll must reach the per-die minimum of one each,
    // but fall short of the static modifier.
    let obs_result = context.roll(&mut roll_element);
    assert!(obs_result >= 3);
    assert!(obs_result < 20);
}

#[test]
fn test_roll_critical() {
    // Behaviour for regular die only, as other behaviours are tested
    // within the DiceCollection struct.

    let mut roll_element = rand::rng();
    let context = DiceContext::new(
        vec![
            DiceCollection::new(1, 4, Reroll::Standard),
            DiceCollection::new(2, 6, Reroll::Standard),
        ],
        100,
    );

    // The total of the critical roll doubles the dice, but still falls
    // short of the static modifier.
    let obs_result = context.roll_critical(&mut roll_element);
    assert!(obs_result >= 6);
    assert!(obs_result < 100);
}
