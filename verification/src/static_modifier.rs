//! Fixed integer contributions to a roll, gated by the hit outcome.

use vstd::prelude::*;

use crate::{HitResult, ModifierBehaviour};

verus! {

/// Mathematical model of a static modifier.
pub ghost struct ModSpec {
    pub value: int,
    pub behaviour: ModifierBehaviour,
}

/// A representation of the fixed damage element of an attack equation.
#[derive(Debug, PartialEq)]
pub struct StaticModifier {
    pub value: i32,
    pub mod_behaviour: ModifierBehaviour,
}

impl View for StaticModifier {
    type V = ModSpec;

    open spec fn view(&self) -> ModSpec {
        ModSpec { value: self.value as int, behaviour: self.mod_behaviour }
    }
}

/// The hit condition an evaluation runs under, as seen by specifications.
pub open spec fn cond_view(c: Option<&HitResult>) -> Option<HitResult> {
    match c {
        Option::None => Option::None,
        Option::Some(h) => Option::Some(*h),
    }
}

/// What a modifier contributes for a given hit condition: its value when the
/// condition matches its behaviour, twice its value for a `CanCritical`
/// modifier on a critical hit, its value on every outcome for `OnMiss`,
/// and zero otherwise.  Without a condition the raw value is returned.
pub open spec fn mod_eval(m: ModSpec, cond: Option<HitResult>) -> int {
    match cond {
        Option::None => m.value,
        Option::Some(h) => match (m.behaviour, h) {
            (ModifierBehaviour::CanCritical, HitResult::CriticalHit) => 2 * m.value,
            (ModifierBehaviour::CanCritical, HitResult::Hit) => m.value,
            (ModifierBehaviour::OnCritical, HitResult::CriticalHit) => m.value,
            (ModifierBehaviour::OnHit, HitResult::Hit) => m.value,
            (ModifierBehaviour::OnHit, HitResult::CriticalHit) => m.value,
            (ModifierBehaviour::OnMiss, _) => m.value,
            _ => 0,
        },
    }
}

impl StaticModifier {
    /// Creates a new StaticModifier representation of a fixed damage element.
    pub fn new(value: i32, mod_behaviour: ModifierBehaviour) -> (m: StaticModifier)
        ensures
            m@ == (ModSpec { value: value as int, behaviour: mod_behaviour }),
    {
        StaticModifier { value, mod_behaviour }
    }

    /// The exact contribution under a hit condition, in wide arithmetic;
    /// used when checking that a whole collection stays inside `i32`.
    pub fn evaluate_wide(&self, hit_result: &HitResult) -> (r: i128)
        ensures
            r == mod_eval(self@, Option::Some(*hit_result)),
    {
        match (&self.mod_behaviour, hit_result) {
            (ModifierBehaviour::CanCritical, HitResult::CriticalHit) => (self.value as i128) * 2,
            (ModifierBehaviour::CanCritical, HitResult::Hit) => self.value as i128,
            (ModifierBehaviour::OnCritical, HitResult::CriticalHit) => self.value as i128,
            (ModifierBehaviour::OnHit, HitResult::Hit) => self.value as i128,
            (ModifierBehaviour::OnHit, HitResult::CriticalHit) => self.value as i128,
            (ModifierBehaviour::OnMiss, _) => self.value as i128,
            (_, _) => 0,
        }
    }

    /// Assess the value of the modifier for an instance of application.
    pub fn evaluate_result(&self, hit_condition: Option<&HitResult>) -> (r: i32)
        requires
            i32::MIN <= mod_eval(self@, cond_view(hit_condition)) <= i32::MAX,
        ensures
            r == mod_eval(self@, cond_view(hit_condition)),
    {
        if let Some(hit_result) = hit_condition {
            match (&self.mod_behaviour, hit_result) {
                (ModifierBehaviour::CanCritical, HitResult::CriticalHit) => {
                    let wide: i64 = (self.value as i64) * 2;
                    wide as i32
                },
                (ModifierBehaviour::CanCritical, HitResult::Hit) => self.value,
                (ModifierBehaviour::OnCritical, HitResult::CriticalHit) => self.value,
                (ModifierBehaviour::OnHit, HitResult::Hit) => self.value,
                (ModifierBehaviour::OnHit, HitResult::CriticalHit) => self.value,
                (ModifierBehaviour::OnMiss, _) => self.value,
                (_, _) => 0,
            }
        } else {
            self.value
        }
    }
}

} // verus!
