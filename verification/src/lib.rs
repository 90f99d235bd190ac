//! Combat-round simulation engine: dice notation parsing, reroll and
//! critical-hit mechanics, ruleset-dependent hit resolution, and a
//! Monte Carlo driver that aggregates per-round results.

pub mod attack_profile;
pub mod damageelement;
pub mod dice;
pub mod dicecontext;
pub mod notation;
pub mod rng;
pub mod roll_collection;
pub mod static_modifier;
pub mod weapon;

use vstd::prelude::*;

use crate::attack_profile::{
    ap_rollable, pairs, turn_fits, turn_possible, ApView, AttackProfile,
};
use crate::roll_collection::{collection_spec, notation_ok, RollCollection};

verus! {

/// Outcome of one attack roll against a defense value.
#[derive(Debug, PartialEq, Eq, Structural)]
pub enum HitResult {
    CriticalHit,
    Hit,
    Miss,
}

#[derive(Debug, PartialEq, Eq, Structural)]
pub enum DiceBehaviour {
    Standard,
    Fatal,
    OnCritical,
    OnMiss,
}

/// When a flat modifier contributes to a damage total.
#[derive(Debug, PartialEq, Eq, Structural)]
pub enum ModifierBehaviour {
    OnHit,
    OnCritical,
    OnMiss,
    CanCritical,
}

/// How raw uniform draws combine into one die result.
#[derive(Clone, Copy, Debug, PartialEq, Eq, Structural)]
pub enum RollBehaviour {
    Standard,
    Advantage,
    DoubleAdvantage,
    Disadvantage,
    Fatal,
    ExclusiveCrit,
}

#[derive(Clone, Copy, Debug, PartialEq, Eq, Structural)]
pub enum EvalBehaviour {
    ExclusiveCrit,
    Fatal,
    OnHit,
    OnMiss,
}

/// Which hit-resolution algorithm a roll collection uses.
#[derive(Copy, Clone, Debug, PartialEq, Eq, Structural)]
pub enum Ruleset {
    DND5e,
    PF2e,
}

/// Reroll mechanics of the earlier dice model kept alongside the current
/// one: how several raw draws combine into one result.
#[derive(Clone, Copy, Debug, PartialEq, Eq, Structural)]
pub enum Reroll {
    Standard,
    Advantage,
    DoubleAdvantage,
    Disadvantage,
}

/// One simulated round's tallies: the row the results sink receives.
#[derive(Clone, Copy, Debug, PartialEq, Eq, Structural)]
pub struct TurnRecord {
    pub iteration: i32,
    pub target_ac: i32,
    pub number_hits: i32,
    pub number_crits: i32,
    pub total_damage: i32,
}

/// Every notation string of the list parses within the machine limits.
pub open spec fn notations_ok(xs: Seq<String>, rs: Ruleset) -> bool {
    forall|i: int| 0 <= i < xs.len() ==> notation_ok((#[trigger] xs[i])@)
}

/// The collections a list of notation strings parses to.
pub open spec fn collections_of(xs: Seq<String>, rs: Ruleset) -> Seq<crate::roll_collection::RcView> {
    xs.map_values(|s: String| collection_spec(s@, rs))
}

/// The attack profile that one defense value and the parsed notation
/// lists describe.
pub open spec fn sim_profile(ac: int, h: Seq<String>, w: Seq<String>, rs: Ruleset) -> ApView {
    ApView { target_ac: ac, hits: collections_of(h, rs), dmgs: collections_of(w, rs) }
}

/// The number of rounds a non-negative turn request stands for.
pub open spec fn turns_n(number_turns: i32) -> int {
    if number_turns >= 0 {
        number_turns as int
    } else {
        0
    }
}

/// Everything the simulation driver asks of its inputs: parseable
/// notation, rollable collections, and damage totals inside `i32`.
pub open spec fn sim_inputs_ok(h: Seq<String>, w: Seq<String>, rs: Ruleset) -> bool {
    &&& notations_ok(h, rs)
    &&& notations_ok(w, rs)
    &&& ap_rollable(sim_profile(0, h, w, rs))
    &&& turn_fits(sim_profile(0, h, w, rs))
}

/// One defense value's block of simulation records: round indices count
/// from one, every row names the block's defense value, and each row's
/// tallies are ones its profile can produce in one round.
pub open spec fn block_ok(block: Seq<TurnRecord>, prof: ApView, turns: int) -> bool {
    &&& block.len() == turns
    &&& forall|k: int|
        0 <= k < block.len() ==> {
            let rec = #[trigger] block[k];
            &&& rec.iteration == k + 1
            &&& rec.target_ac == prof.target_ac
            &&& 0 <= rec.number_crits <= rec.number_hits <= pairs(prof)
            &&& turn_possible(
                prof,
                rec.number_crits as int,
                rec.number_hits as int,
                rec.total_damage as int,
            )
        }
}

/// Extend the length of a vector by appending a value a given number of
/// times.
pub fn resize_vector(base_vector: &mut Vec<String>, new_value: String, iterations: usize)
    ensures
        final(base_vector)@.len() == old(base_vector)@.len() + iterations,
        forall|i: int|
            0 <= i < old(base_vector)@.len() ==> final(base_vector)@[i] == old(base_vector)@[i],
        forall|i: int|
            old(base_vector)@.len() <= i < final(base_vector)@.len() ==> final(base_vector)@[i]
                == new_value,
{
    let mut j: usize = 0;
    while j < iterations
        invariant
            j <= iterations,
            base_vector@.len() == old(base_vector)@.len() + j,
            forall|i: int|
                0 <= i < old(base_vector)@.len() ==> base_vector@[i] == old(base_vector)@[i],
            forall|i: int|
                old(base_vector)@.len() <= i < base_vector@.len() ==> base_vector@[i] == new_value,
        decreases iterations - j,
    {
        base_vector.push(new_value.clone());
        j = j + 1;
    }
}

/// Compare the lengths of two input vectors and extend the shorter one by
/// repeating its own last element until both are of equal length.  When
/// the lengths differ, the shorter vector must not be empty, since its
/// last element is what gets repeated.
pub fn equalise_input_vectors(first_vector: &mut Vec<String>, second_vector: &mut Vec<String>)
    requires
        old(first_vector)@.len() > old(second_vector)@.len() ==> old(second_vector)@.len() > 0,
        old(second_vector)@.len() > old(first_vector)@.len() ==> old(first_vector)@.len() > 0,
    ensures
        final(first_vector)@.len() == final(second_vector)@.len(),
        old(first_vector)@.len() >= old(second_vector)@.len() ==> final(first_vector)@ == old(
            first_vector,
        )@ && final(second_vector)@ == old(second_vector)@ + Seq::new(
            (old(first_vector)@.len() - old(second_vector)@.len()) as nat,
            |i: int| old(second_vector)@.last(),
        ),
        old(second_vector)@.len() >= old(first_vector)@.len() ==> final(second_vector)@ == old(
            second_vector,
        )@ && final(first_vector)@ == old(first_vector)@ + Seq::new(
            (old(second_vector)@.len() - old(first_vector)@.len()) as nat,
            |i: int| old(first_vector)@.last(),
        ),
{
    if first_vector.len() > second_vector.len() {
        let length_diff = first_vector.len() - second_vector.len();
        let last_value = second_vector[second_vector.len() - 1].clone();
        resize_vector(second_vector, last_value, length_diff);
        proof {
            assert(second_vector@ =~= old(second_vector)@ + Seq::new(
                (old(first_vector)@.len() - old(second_vector)@.len()) as nat,
                |i: int| old(second_vector)@.last(),
            ));
        }
    } else if second_vector.len() > first_vector.len() {
        let length_diff = second_vector.len() - first_vector.len();
        let last_value = first_vector[first_vector.len() - 1].clone();
        resize_vector(first_vector, last_value, length_diff);
        proof {
            assert(first_vector@ =~= old(first_vector)@ + Seq::new(
                (old(second_vector)@.len() - old(first_vector)@.len()) as nat,
                |i: int| old(first_vector)@.last(),
            ));
        }
    } else {
        proof {
            assert(first_vector@ =~= old(first_vector)@ + Seq::new(
                0nat,
                |i: int| old(first_vector)@.last(),
            ));
            assert(second_vector@ =~= old(second_vector)@ + Seq::new(
                0nat,
                |i: int| old(second_vector)@.last(),
            ));
        }
    }
}

/// Bundles the user input strings and a target defense value into an
/// attack profile, parsing each notation under the given ruleset.
pub fn produce_attackprofile(
    target_ac: i32,
    hit_details: &[String],
    weapon_details: &[String],
    ruleset: &Ruleset,
) -> (ap: AttackProfile)
    requires
        notations_ok(hit_details@, *ruleset),
        notations_ok(weapon_details@, *ruleset),
    ensures
        ap@ == sim_profile(target_ac as int, hit_details@, weapon_details@, *ruleset),
{
    let mut hit_context: Vec<RollCollection> = Vec::new();
    let mut i: usize = 0;
    while i < hit_details.len()
        invariant
            notations_ok(hit_details@, *ruleset),
            i <= hit_details@.len(),
            hit_context@.len() == i,
            forall|k: int|
                0 <= k < i ==> (#[trigger] hit_context@[k])@ == collection_spec(
                    hit_details@[k]@,
                    *ruleset,
                ),
        decreases hit_details@.len() - i,
    {
        let rc = RollCollection::parse_user_input(hit_details[i].as_str(), *ruleset);
        hit_context.push(rc);
        i = i + 1;
    }

    let mut weapon_context: Vec<RollCollection> = Vec::new();
    let mut j: usize = 0;
    while j < weapon_details.len()
        invariant
            notations_ok(weapon_details@, *ruleset),
            j <= weapon_details@.len(),
            weapon_context@.len() == j,
            forall|k: int|
                0 <= k < j ==> (#[trigger] weapon_context@[k])@ == collection_spec(
                    weapon_details@[k]@,
                    *ruleset,
                ),
        decreases weapon_details@.len() - j,
    {
        let rc = RollCollection::parse_user_input(weapon_details[j].as_str(), *ruleset);
        weapon_context.push(rc);
        j = j + 1;
    }

    let ap = AttackProfile::new(target_ac, hit_context, weapon_context);
    proof {
        assert(ap@.hits =~= collections_of(hit_details@, *ruleset));
        assert(ap@.dmgs =~= collections_of(weapon_details@, *ruleset));
    }
    ap
}

/// Create one attack profile per defense value, all sharing the same
/// parsed notation lists.
pub fn map_profiles_to_ac(
    ac_targets: Vec<i32>,
    hit_details: Vec<String>,
    weapon_details: Vec<String>,
    ruleset: Ruleset,
) -> (profiles: Vec<AttackProfile>)
    requires
        notations_ok(hit_details@, ruleset),
        notations_ok(weapon_details@, ruleset),
    ensures
        profiles@.len() == ac_targets@.len(),
        forall|a: int|
            0 <= a < ac_targets@.len() ==> (#[trigger] profiles@[a])@ == sim_profile(
                ac_targets@[a] as int,
                hit_details@,
                weapon_details@,
                ruleset,
            ),
{
    let mut profile_vector: Vec<AttackProfile> = Vec::new();
    let mut a: usize = 0;
    while a < ac_targets.len()
        invariant
            notations_ok(hit_details@, ruleset),
            notations_ok(weapon_details@, ruleset),
            a <= ac_targets@.len(),
            profile_vector@.len() == a,
            forall|k: int|
                0 <= k < a ==> (#[trigger] profile_vector@[k])@ == sim_profile(
                    ac_targets@[k] as int,
                    hit_details@,
                    weapon_details@,
                    ruleset,
                ),
        decreases ac_targets@.len() - a,
    {
        let ap = produce_attackprofile(
            ac_targets[a],
            hit_details.as_slice(),
            weapon_details.as_slice(),
            &ruleset,
        );
        profile_vector.push(ap);
        a = a + 1;
    }
    profile_vector
}

/// Simulate a number of rounds of one attack profile, one record per
/// round, the round index counting from one.
pub fn evaluate_attack_profile(attack_profile: AttackProfile, number_turns: i32) -> (records: Vec<
    TurnRecord,
>)
    requires
        ap_rollable(attack_profile@),
        turn_fits(attack_profile@),
    ensures
        block_ok(records@, attack_profile@, turns_n(number_turns)),
{
    let mut profile = attack_profile;
    let ghost v0 = profile@;
    let mut records: Vec<TurnRecord> = Vec::new();
    let mut t: i32 = 0;
    if number_turns <= 0 {
        return records;
    }
    while t < number_turns
        invariant
            ap_rollable(v0),
            turn_fits(v0),
            profile@ == v0,
            v0 == attack_profile@,
            0 <= t <= number_turns,
            records@.len() == t,
            forall|k: int|
                0 <= k < t ==> {
                    let rec = #[trigger] records@[k];
                    &&& rec.iteration == k + 1
                    &&& rec.target_ac == v0.target_ac
                    &&& 0 <= rec.number_crits <= rec.number_hits <= pairs(v0)
                    &&& turn_possible(
                        v0,
                        rec.number_crits as int,
                        rec.number_hits as int,
                        rec.total_damage as int,
                    )
                },
        decreases number_turns - t,
    {
        let (n_crits, n_hits, damage_rolled) = profile.roll_turn();
        let target_ac = profile.target_ac;
        records.push(
            TurnRecord {
                iteration: t + 1,
                target_ac,
                number_hits: n_hits,
                number_crits: n_crits,
                total_damage: damage_rolled,
            },
        );
        t = t + 1;
    }
    records
}

/// Partition the simulation over the range of defense values and simulate
/// the attack rounds: for each defense value, in the order given, one
/// block of records as `evaluate_attack_profile` produces it.
pub fn process_simulation(
    ac_targets: Vec<i32>,
    hit_details: Vec<String>,
    weapon_details: Vec<String>,
    ruleset: Ruleset,
    number_turns: i32,
) -> (records: Vec<TurnRecord>)
    requires
        sim_inputs_ok(hit_details@, weapon_details@, ruleset),
    ensures
        records@.len() == ac_targets@.len() * turns_n(number_turns),
        forall|a: int|
            #![trigger ac_targets@[a]]
            0 <= a < ac_targets@.len() ==> block_ok(
                records@.subrange(
                    a * turns_n(number_turns),
                    (a + 1) * turns_n(number_turns),
                ),
                sim_profile(ac_targets@[a] as int, hit_details@, weapon_details@, ruleset),
                turns_n(number_turns),
            ),
{
    let ghost turns = turns_n(number_turns);
    let mut records: Vec<TurnRecord> = Vec::new();
    let mut a: usize = 0;
    while a < ac_targets.len()
        invariant
            notations_ok(hit_details@, ruleset),
            notations_ok(weapon_details@, ruleset),
            ap_rollable(sim_profile(0, hit_details@, weapon_details@, ruleset)),
            turn_fits(sim_profile(0, hit_details@, weapon_details@, ruleset)),
            turns == turns_n(number_turns),
            a <= ac_targets@.len(),
            records@.len() == a * turns,
            forall|k: int|
                #![trigger ac_targets@[k]]
                0 <= k < a ==> block_ok(
                    records@.subrange(k * turns, (k + 1) * turns),
                    sim_profile(ac_targets@[k] as int, hit_details@, weapon_details@, ruleset),
                    turns,
                ),
        decreases ac_targets@.len() - a,
    {
        let profile = produce_attackprofile(
            ac_targets[a],
            hit_details.as_slice(),
            weapon_details.as_slice(),
            &ruleset,
        );
        proof {
            let p0 = sim_profile(0, hit_details@, weapon_details@, ruleset);
            assert(profile@.hits == p0.hits);
            assert(profile@.dmgs == p0.dmgs);
            assert(ap_rollable(profile@));
            assert(pairs(profile@) == pairs(p0));
            assert(turn_fits(profile@));
        }
        let ghost records_before = records@;
        let mut block = evaluate_attack_profile(profile, number_turns);
        records.append(&mut block);
        proof {
            assert((a + 1) * turns == a * turns + turns) by (nonlinear_arith);
            assert(records@.subrange(a as int * turns, (a + 1) * turns) =~= records@.subrange(
                records_before.len() as int,
                records@.len() as int,
            ));
            assert forall|k: int|
                #![trigger ac_targets@[k]]
                0 <= k < a implies records@.subrange(k * turns, (k + 1) * turns)
                =~= records_before.subrange(k * turns, (k + 1) * turns) by {
                assert(0 <= k * turns && (k + 1) * turns == k * turns + turns && (k + 1) * turns
                    <= records_before.len()) by (nonlinear_arith)
                    requires
                        0 <= k < a,
                        turns >= 0,
                        records_before.len() == a * turns,
                ;
            }
        }
        a = a + 1;
    }
    proof {
        assert(records@.len() == ac_targets@.len() * turns);
    }
    records
}

/// Decides at run time whether notation lists meet everything the
/// simulation driver asks of them; `true` exactly when they do.
pub fn validate_simulation_inputs(
    hit_details: &Vec<String>,
    weapon_details: &Vec<String>,
    ruleset: &Ruleset,
) -> (b: bool)
    ensures
        b == sim_inputs_ok(hit_details@, weapon_details@, *ruleset),
{
    let mut i: usize = 0;
    while i < hit_details.len()
        invariant
            i <= hit_details@.len(),
            forall|k: int| 0 <= k < i ==> notation_ok((#[trigger] hit_details@[k])@),
        decreases hit_details@.len() - i,
    {
        if !RollCollection::validate_notation(hit_details[i].as_str()) {
            return false;
        }
        i = i + 1;
    }
    let mut j: usize = 0;
    while j < weapon_details.len()
        invariant
            j <= weapon_details@.len(),
            notations_ok(hit_details@, *ruleset),
            forall|k: int| 0 <= k < j ==> notation_ok((#[trigger] weapon_details@[k])@),
        decreases weapon_details@.len() - j,
    {
        if !RollCollection::validate_notation(weapon_details[j].as_str()) {
            return false;
        }
        j = j + 1;
    }

    let profile = produce_attackprofile(
        0,
        hit_details.as_slice(),
        weapon_details.as_slice(),
        ruleset,
    );
    let ghost p0 = sim_profile(0, hit_details@, weapon_details@, *ruleset);

    let mut a: usize = 0;
    while a < profile.hit_collection.len()
        invariant
            profile@ == p0,
            p0 == sim_profile(0, hit_details@, weapon_details@, *ruleset),
            a <= p0.hits.len(),
            forall|k: int| 0 <= k < a ==> crate::roll_collection::rc_rollable(
                #[trigger] p0.hits[k],
            ),
        decreases profile.hit_collection@.len() - a,
    {
        proof {
            assert(p0.hits[a as int] == profile.hit_collection@[a as int]@);
        }
        if !profile.hit_collection[a].collection_rollable() {
            proof {
                assert(!crate::roll_collection::rc_rollable(p0.hits[a as int]));
                assert(!ap_rollable(p0));
            }
            return false;
        }
        a = a + 1;
    }

    let mut d: usize = 0;
    while d < profile.damage_collection.len()
        invariant
            profile@ == p0,
            p0 == sim_profile(0, hit_details@, weapon_details@, *ruleset),
            d <= p0.dmgs.len(),
            forall|k: int| 0 <= k < p0.hits.len() ==> crate::roll_collection::rc_rollable(
                #[trigger] p0.hits[k],
            ),
            forall|k: int|
                0 <= k < d ==> crate::roll_collection::rc_rollable(#[trigger] p0.dmgs[k])
                    && crate::roll_collection::rc_damage_fits(p0.dmgs[k]),
        decreases profile.damage_collection@.len() - d,
    {
        proof {
            assert(p0.dmgs[d as int] == profile.damage_collection@[d as int]@);
        }
        if !profile.damage_collection[d].collection_rollable() {
            proof {
                assert(!crate::roll_collection::rc_rollable(p0.dmgs[d as int]));
                assert(!ap_rollable(p0));
            }
            return false;
        }
        if !profile.damage_collection[d].collection_damage_fits() {
            proof {
                assert(!crate::roll_collection::rc_damage_fits(p0.dmgs[d as int]));
                assert(!ap_rollable(p0));
            }
            return false;
        }
        d = d + 1;
    }

    let n = if profile.hit_collection.len() <= profile.damage_collection.len() {
        profile.hit_collection.len()
    } else {
        profile.damage_collection.len()
    };
    proof {
        assert(n == pairs(p0));
    }
    if n > (i32::MAX as usize) {
        return false;
    }

    let mut turn_lo: i128 = 0;
    let mut turn_hi: i128 = 0;
    let mut t: usize = 0;
    while t < n
        invariant
            profile@ == p0,
            p0 == sim_profile(0, hit_details@, weapon_details@, *ruleset),
            n == pairs(p0),
            n <= p0.dmgs.len(),
            t <= n,
            forall|k: int|
                0 <= k < p0.dmgs.len() ==> crate::roll_collection::rc_rollable(
                    #[trigger] p0.dmgs[k],
                ) && crate::roll_collection::rc_damage_fits(p0.dmgs[k]),
            turn_lo == crate::attack_profile::turn_dmg_lo_to(p0.dmgs, t as int),
            turn_hi == crate::attack_profile::turn_dmg_hi_to(p0.dmgs, t as int),
            -0x8000_0000i128 * (t as int) <= turn_lo <= 0x8000_0000i128 * (t as int),
            -0x8000_0000i128 * (t as int) <= turn_hi <= 0x8000_0000i128 * (t as int),
        decreases n - t,
    {
        proof {
            assert(p0.dmgs[t as int] == profile.damage_collection@[t as int]@);
        }
        let collection = &profile.damage_collection[t];
        let crit_bounds = collection.damage_bounds(&HitResult::CriticalHit);
        let hit_bounds = collection.damage_bounds(&HitResult::Hit);
        let miss_bounds = collection.damage_bounds(&HitResult::Miss);
        let lo = if crit_bounds.0 <= hit_bounds.0 && crit_bounds.0 <= miss_bounds.0 {
            crit_bounds.0
        } else if hit_bounds.0 <= miss_bounds.0 {
            hit_bounds.0
        } else {
            miss_bounds.0
        };
        let hi = if crit_bounds.1 >= hit_bounds.1 && crit_bounds.1 >= miss_bounds.1 {
            crit_bounds.1
        } else if hit_bounds.1 >= miss_bounds.1 {
            hit_bounds.1
        } else {
            miss_bounds.1
        };
        proof {
            assert(lo == crate::attack_profile::dmg_min_any(p0.dmgs[t as int]));
            assert(hi == crate::attack_profile::dmg_max_any(p0.dmgs[t as int]));
            // The per-collection check above already put every outcome's
            // bounds inside `i32`, so the pair just computed is bounded.
            crate::roll_collection::lemma_dmg_lo_le_hi(p0.dmgs[t as int], HitResult::CriticalHit);
            crate::roll_collection::lemma_dmg_lo_le_hi(p0.dmgs[t as int], HitResult::Hit);
            crate::roll_collection::lemma_dmg_lo_le_hi(p0.dmgs[t as int], HitResult::Miss);
            assert(i32::MIN <= lo <= hi <= i32::MAX);
        }
        turn_lo = turn_lo + lo;
        turn_hi = turn_hi + hi;
        t = t + 1;
    }

    (i32::MIN as i128) <= turn_lo && turn_hi <= (i32::MAX as i128)
}

/// Run the simulation only when the inputs meet the driver's demands,
/// reporting a refusal instead of a contract violation otherwise.
pub fn try_process_simulation(
    ac_targets: Vec<i32>,
    hit_details: Vec<String>,
    weapon_details: Vec<String>,
    ruleset: Ruleset,
    number_turns: i32,
) -> (r: Option<Vec<TurnRecord>>)
    ensures
        r is Some <==> sim_inputs_ok(hit_details@, weapon_details@, ruleset),
        r is Some ==> {
            let records = r.unwrap();
            &&& records@.len() == ac_targets@.len() * turns_n(number_turns)
            &&& forall|a: int|
                #![trigger ac_targets@[a]]
                0 <= a < ac_targets@.len() ==> block_ok(
                    records@.subrange(
                        a * turns_n(number_turns),
                        (a + 1) * turns_n(number_turns),
                    ),
                    sim_profile(ac_targets@[a] as int, hit_details@, weapon_details@, ruleset),
                    turns_n(number_turns),
                )
        },
{
    if !validate_simulation_inputs(&hit_details, &weapon_details, &ruleset) {
        return None;
    }
    Some(process_simulation(ac_targets, hit_details, weapon_details, ruleset, number_turns))
}

} // verus!
