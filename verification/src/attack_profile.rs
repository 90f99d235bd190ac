//! One attack entry per round: a to-hit collection paired with a damage
//! collection, resolved together against one fixed defense value.

use vstd::prelude::*;

use crate::roll_collection::{
    dmg_hi, dmg_lo, lemma_roll_sum_to_agree, possible_hit_outcome, rc_damage_fits, rc_rollable,
    roll_sum_to, RcView, RollCollection,
};
use crate::HitResult;

verus! {

/// Mathematical model of an attack profile.
pub ghost struct ApView {
    pub target_ac: int,
    pub hits: Seq<RcView>,
    pub dmgs: Seq<RcView>,
}

/// The models of a sequence of roll collections.
pub open spec fn rc_views(cs: Seq<RollCollection>) -> Seq<RcView> {
    cs.map_values(|c: RollCollection| c@)
}

/// Pairs one collection used for the hit roll with one used for the
/// damage roll, for each attack instance of one round.
#[derive(Debug, PartialEq)]
pub struct AttackProfile {
    pub target_ac: i32,
    pub hit_collection: Vec<RollCollection>,
    pub damage_collection: Vec<RollCollection>,
}

impl View for AttackProfile {
    type V = ApView;

    open spec fn view(&self) -> ApView {
        ApView {
            target_ac: self.target_ac as int,
            hits: rc_views(self.hit_collection@),
            dmgs: rc_views(self.damage_collection@),
        }
    }
}

/// Number of hit/damage pairs a round resolves: the shorter list decides.
pub open spec fn pairs(v: ApView) -> int {
    if v.hits.len() <= v.dmgs.len() {
        v.hits.len() as int
    } else {
        v.dmgs.len() as int
    }
}

/// Every collection of the profile can be rolled, and every damage
/// evaluation stays inside `i32`.
pub open spec fn ap_rollable(v: ApView) -> bool {
    &&& forall|i: int| 0 <= i < v.hits.len() ==> rc_rollable(#[trigger] v.hits[i])
    &&& forall|i: int|
        0 <= i < v.dmgs.len() ==> rc_rollable(#[trigger] v.dmgs[i]) && rc_damage_fits(v.dmgs[i])
}

/// Smallest damage a collection can yield over the three hit outcomes.
pub open spec fn dmg_min_any(c: RcView) -> int {
    let a = dmg_lo(c, HitResult::CriticalHit);
    let b = dmg_lo(c, HitResult::Hit);
    let m = dmg_lo(c, HitResult::Miss);
    if a <= b && a <= m {
        a
    } else if b <= m {
        b
    } else {
        m
    }
}

/// Largest damage a collection can yield over the three hit outcomes.
pub open spec fn dmg_max_any(c: RcView) -> int {
    let a = dmg_hi(c, HitResult::CriticalHit);
    let b = dmg_hi(c, HitResult::Hit);
    let m = dmg_hi(c, HitResult::Miss);
    if a >= b && a >= m {
        a
    } else if b >= m {
        b
    } else {
        m
    }
}

/// Smallest damage total the first `n` damage collections can produce.
pub open spec fn turn_dmg_lo_to(dmgs: Seq<RcView>, n: int) -> int
    decreases n,
{
    if n <= 0 {
        0
    } else {
        turn_dmg_lo_to(dmgs, n - 1) + dmg_min_any(dmgs[n - 1])
    }
}

/// Largest damage total the first `n` damage collections can produce.
pub open spec fn turn_dmg_hi_to(dmgs: Seq<RcView>, n: int) -> int
    decreases n,
{
    if n <= 0 {
        0
    } else {
        turn_dmg_hi_to(dmgs, n - 1) + dmg_max_any(dmgs[n - 1])
    }
}

/// The counters of one round stay inside `i32` and its damage total fits.
pub open spec fn turn_fits(v: ApView) -> bool {
    &&& pairs(v) <= i32::MAX
    &&& i32::MIN <= turn_dmg_lo_to(v.dmgs, pairs(v))
    &&& turn_dmg_hi_to(v.dmgs, pairs(v)) <= i32::MAX
}

/// Critical hits among the first `n` outcomes.
pub open spec fn count_crits_to(outs: Seq<HitResult>, n: int) -> int
    decreases n,
{
    if n <= 0 {
        0
    } else {
        count_crits_to(outs, n - 1) + if outs[n - 1] is CriticalHit {
            1int
        } else {
            0int
        }
    }
}

/// Hits, critical ones included, among the first `n` outcomes.
pub open spec fn count_hits_to(outs: Seq<HitResult>, n: int) -> int
    decreases n,
{
    if n <= 0 {
        0
    } else {
        count_hits_to(outs, n - 1) + if outs[n - 1] is CriticalHit || outs[n - 1] is Hit {
            1int
        } else {
            0int
        }
    }
}

/// Prefix counts only read the entries they cover.
proof fn lemma_counts_agree(a: Seq<HitResult>, b: Seq<HitResult>, n: int)
    requires
        forall|k: int| 0 <= k < n ==> a[k] == b[k],
    ensures
        count_crits_to(a, n) == count_crits_to(b, n),
        count_hits_to(a, n) == count_hits_to(b, n),
    decreases n,
{
    if n > 0 {
        lemma_counts_agree(a, b, n - 1);
    }
}

/// One round's tallies explained: hit outcomes, one per pair and each
/// producible by its hit collection against the target, and damage
/// values, each inside its damage collection's bounds for that pair's
/// outcome, that add up to the reported counters and total.
pub open spec fn round_witnessed(
    v: ApView,
    outs: Seq<HitResult>,
    dvals: Seq<int>,
    crits: int,
    hits: int,
    dmg: int,
) -> bool {
    &&& outs.len() == pairs(v)
    &&& dvals.len() == pairs(v)
    &&& forall|i: int|
        0 <= i < pairs(v) ==> possible_hit_outcome(#[trigger] v.hits[i], v.target_ac, outs[i])
    &&& forall|i: int|
        0 <= i < pairs(v) ==> dmg_lo(v.dmgs[i], outs[i]) <= #[trigger] dvals[i] <= dmg_hi(
            v.dmgs[i],
            outs[i],
        )
    &&& crits == count_crits_to(outs, pairs(v))
    &&& hits == count_hits_to(outs, pairs(v))
    &&& dmg == roll_sum_to(dvals, pairs(v))
}

/// Some sequence of producible outcomes and damage values explains the
/// reported crit count, hit count and damage total of one round.
pub open spec fn turn_possible(v: ApView, crits: int, hits: int, dmg: int) -> bool {
    exists|outs: Seq<HitResult>, dvals: Seq<int>|
        #[trigger] round_witnessed(v, outs, dvals, crits, hits, dmg)
}

impl AttackProfile {
    /// Pair up the hit and damage collections against one defense value.
    pub fn new(
        target_ac: i32,
        hit_collection: Vec<RollCollection>,
        damage_collection: Vec<RollCollection>,
    ) -> (ap: AttackProfile)
        ensures
            ap@ == (ApView {
                target_ac: target_ac as int,
                hits: rc_views(hit_collection@),
                dmgs: rc_views(damage_collection@),
            }),
    {
        AttackProfile { target_ac, hit_collection, damage_collection }
    }

    /// Resolve one round: for each hit/damage pair, roll the hit against
    /// the profile's defense value, roll the paired damage under that
    /// outcome, and tally criticals, hits (a critical counts as both) and
    /// total damage.
    pub fn roll_turn(&mut self) -> (r: (i32, i32, i32))
        requires
            ap_rollable(old(self)@),
            turn_fits(old(self)@),
        ensures
            final(self)@ == old(self)@,
            0 <= r.0 <= r.1 <= pairs(old(self)@),
            turn_possible(old(self)@, r.0 as int, r.1 as int, r.2 as int),
    {
        let ghost v0 = self@;
        let mut crit_counter: i32 = 0;
        let mut hit_counter: i32 = 0;
        let mut damage_total: i128 = 0;

        let n = if self.hit_collection.len() <= self.damage_collection.len() {
            self.hit_collection.len()
        } else {
            self.damage_collection.len()
        };
        proof {
            assert(n == pairs(v0));
        }

        let ghost mut outs: Seq<HitResult> = Seq::empty();
        let ghost mut dvals: Seq<int> = Seq::empty();
        let mut i: usize = 0;
        while i < n
            invariant
                ap_rollable(v0),
                turn_fits(v0),
                n == pairs(v0),
                i <= n,
                self@ == v0,
                n <= self.hit_collection@.len(),
                n <= self.damage_collection@.len(),
                outs.len() == i,
                dvals.len() == i,
                forall|k: int|
                    0 <= k < i ==> possible_hit_outcome(
                        #[trigger] v0.hits[k],
                        v0.target_ac,
                        outs[k],
                    ),
                forall|k: int|
                    0 <= k < i ==> dmg_lo(v0.dmgs[k], outs[k]) <= #[trigger] dvals[k] <= dmg_hi(
                        v0.dmgs[k],
                        outs[k],
                    ),
                crit_counter == count_crits_to(outs, i as int),
                hit_counter == count_hits_to(outs, i as int),
                0 <= crit_counter <= hit_counter <= i,
                damage_total == roll_sum_to(dvals, i as int),
                turn_dmg_lo_to(v0.dmgs, i as int) <= damage_total <= turn_dmg_hi_to(
                    v0.dmgs,
                    i as int,
                ),
                -0x8000_0000i128 * (i as int) <= damage_total <= 0x8000_0000i128 * (i as int),
            decreases n - i,
        {
            proof {
                assert(v0.hits[i as int] == self.hit_collection@[i as int]@);
                assert(v0.dmgs[i as int] == self.damage_collection@[i as int]@);
            }
            let target = self.target_ac;
            let hit_result = self.hit_collection[i].roll_against_armour_class(target);
            proof {
                assert(rc_views(self.hit_collection@) =~= v0.hits);
            }
            proof {
                assert(rc_damage_fits(v0.dmgs[i as int]));
                assert(i32::MIN <= dmg_lo(v0.dmgs[i as int], hit_result));
                assert(dmg_hi(v0.dmgs[i as int], hit_result) <= i32::MAX);
            }
            let dmg = self.damage_collection[i].roll_damage_result(&hit_result);
            proof {
                assert(rc_views(self.damage_collection@) =~= v0.dmgs);
            }

            match hit_result {
                HitResult::CriticalHit => {
                    crit_counter = crit_counter + 1;
                    hit_counter = hit_counter + 1;
                },
                HitResult::Hit => {
                    hit_counter = hit_counter + 1;
                },
                HitResult::Miss => (),
            }
            damage_total = damage_total + (dmg as i128);

            proof {
                let ghost outs_before = outs;
                let ghost dvals_before = dvals;
                outs = outs.push(hit_result);
                dvals = dvals.push(dmg as int);
                lemma_counts_agree(outs, outs_before, i as int);
                lemma_roll_sum_to_agree(dvals, dvals_before, i as int);
            }
            i = i + 1;
        }

        let damage = damage_total as i32;
        proof {
            assert(round_witnessed(
                v0,
                outs,
                dvals,
                crit_counter as int,
                hit_counter as int,
                damage as int,
            ));
        }
        (crit_counter, hit_counter, damage)
    }
}

} // verus!
