use dpr_simulator::static_modifier::StaticModifier;
use dpr_simulator::{HitResult, ModifierBehaviour};

#[test]
fn static_modifier_test_constructor() {
    let exp_value = StaticModifier { value: -2, mod_behaviour: ModifierBehaviour::OnHit };
    let obs_value = StaticModifier::new(-2, ModifierBehaviour::OnHit);

    assert_eq!(exp_value, obs_value);
}

#[test]
fn test_evaluate_result_none() {
    let mod_options: Vec<ModifierBehaviour> = vec![
        ModifierBehaviour::CanCritical,
        ModifierBehaviour::OnCritical,
        ModifierBehaviour::OnHit,
        ModifierBehaviour::OnMiss,
    ];

    for mod_option in mod_options {
        let my_modifier = StaticModifier::new(5, mod_option);
        let obs_value = my_modifier.evaluate_result(None);
        assert_eq!(5, obs_value);
    }
}

#[test]
fn test_evaluate_result_onhit_hit() {
    let my_modifier = StaticModifier::new(5, ModifierBehaviour::OnHit);
    let obs_value = my_modifier.evaluate_result(Some(&HitResult::Hit));

    assert_eq!(5, obs_value);
}

#[test]
fn test_evaluate_result_onhit_crit() {
    let my_modifier = StaticModifier::new(5, ModifierBehaviour::OnHit);
    let obs_value = my_modifier.evaluate_result(Some(&HitResult::CriticalHit));

    assert_eq!(5, obs_value);
}

#[test]
fn test_evaluate_result_onhit_miss() {
    let my_modifier = StaticModifier::new(5, ModifierBehaviour::OnHit);
    let obs_value = my_modifier.evaluate_result(Some(&HitResult::Miss));

    assert_eq!(0, obs_value);
}

#[test]
fn test_evaluate_result_oncrit_crit() {
    let my_modifier = StaticModifier::new(5, ModifierBehaviour::OnCritical);

    let obs_value = my_modifier.evaluate_result(Some(&HitResult::CriticalHit));
    assert_eq!(5, obs_value);
}

#[test]
fn test_evaluate_result_oncrit_hit() {
    let my_modifier = StaticModifier::new(5, ModifierBehaviour::OnCritical);

    let obs_value = my_modifier.evaluate_result(Some(&HitResult::Hit));
    assert_eq!(0, obs_value);
}

#[test]
fn test_evaluate_result_oncrit_miss() {
    let my_modifier = StaticModifier::new(5, ModifierBehaviour::OnCritical);

    let obs_value = my_modifier.evaluate_result(Some(&HitResult::Miss));
    assert_eq!(0, obs_value);
}

#[test]
fn test_evaluate_result_cancrit_crit() {
    let my_modifier = StaticModifier::new(5, ModifierBehaviour::CanCritical);
    let obs_value = my_modifier.evaluate_result(Some(&HitResult::CriticalHit));

    assert_eq!(10, obs_value);
}

#[test]
fn test_evaluate_result_cancrit_hit() {
    let my_modifier = StaticModifier::new(5, ModifierBehaviour::CanCritical);
    let obs_value = my_modifier.evaluate_result(Some(&HitResult::Hit));

    assert_eq!(5, obs_value);
}

#[test]
fn test_evaluate_result_cancrit_miss() {
    let my_modifier = StaticModifier::new(5, ModifierBehaviour::CanCritical);
    let obs_value = my_modifier.evaluate_result(Some(&HitResult::Miss));

    assert_eq!(0, obs_value);
}

#[test]
fn test_evaluate_result_onmiss_crit() {
    let my_modifier = StaticModifier::new(5, ModifierBehaviour::OnMiss);
    let obs_value = my_modifier.evaluate_result(Some(&HitResult::CriticalHit));

    assert_eq!(5, obs_value);
}

#[test]
fn test_evaluate_result_onmiss_hit() {
    let my_modifier = StaticModifier::new(5, ModifierBehaviour::OnMiss);
    let obs_value = my_modifier.evaluate_result(Some(&HitResult::Hit));

    assert_eq!(5, obs_value);
}

#[test]
fn test_evaluate_result_onmiss_miss() {
    let my_modifier = StaticModifier::new(5, ModifierBehaviour::OnMiss);
    let obs_value = my_modifier.evaluate_result(Some(&HitResult::Miss));

    assert_eq!(5, obs_value);
}
