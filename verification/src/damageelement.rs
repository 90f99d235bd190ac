//! The earlier damage model kept alongside the current one: a to-hit
//! bonus, a list of homogeneous die groups, and one summed flat modifier.

use vstd::prelude::*;

use crate::dice::{die_group_wf, Die};
use crate::notation::{
    chars_of, digits_val, find_die_match, first_die_match, is_digit_char, lemma_first_die_match,
    lemma_run_end, mods_sum_in_range, mods_value_sum, parse_digits, run_end, scan_run_end,
    sum_static_tokens,
};

verus! {

#[via_fn]
proof fn all_die_matches_decreases(s: Seq<char>, i: int) {
    if 0 <= i < s.len() {
        lemma_first_die_match(s, i);
        let p = first_die_match(s, i);
        if p < s.len() {
            lemma_run_end(s, p);
            let q = run_end(s, p);
            lemma_run_end(s, q + 2);
            assert(run_end(s, q + 1) == run_end(s, q + 2));
        }
    }
}

/// Every `NdS` pattern of the string, leftmost first, later searches
/// resuming where the previous pattern ended: the pairs of dice count and
/// die size, in order.
pub open spec fn all_die_matches(s: Seq<char>, i: int) -> Seq<(int, int)>
    decreases s.len() - i,
    via all_die_matches_decreases
{
    if i < 0 || i >= s.len() {
        Seq::empty()
    } else {
        let p = first_die_match(s, i);
        if p >= s.len() {
            Seq::empty()
        } else {
            let q = run_end(s, p);
            let r = run_end(s, q + 1);
            seq![(digits_val(s, p, q), digits_val(s, q + 1, r))] + all_die_matches(s, r)
        }
    }
}

/// Every die token of the string has a value an `i32` can hold.
pub open spec fn legacy_dice_ok(s: Seq<char>) -> bool {
    forall|j: int|
        0 <= j < all_die_matches(s, 0).len() ==> (#[trigger] all_die_matches(s, 0)[j]).0
            <= i32::MAX && all_die_matches(s, 0)[j].1 <= i32::MAX
}

/// The models of a sequence of die groups.
pub open spec fn die_views(ds: Seq<Die>) -> Seq<(int, int)> {
    ds.map_values(|d: Die| d@)
}

/// Sum of the counts of the first `n` die groups: the least total they
/// can roll.
pub open spec fn groups_lo_to(ds: Seq<(int, int)>, n: int) -> int
    decreases n,
{
    if n <= 0 {
        0
    } else {
        groups_lo_to(ds, n - 1) + ds[n - 1].0
    }
}

/// Sum of count times size of the first `n` die groups: the largest total
/// they can roll.
pub open spec fn groups_hi_to(ds: Seq<(int, int)>, n: int) -> int
    decreases n,
{
    if n <= 0 {
        0
    } else {
        groups_hi_to(ds, n - 1) + ds[n - 1].0 * ds[n - 1].1
    }
}

proof fn lemma_groups_lo_hi(ds: Seq<(int, int)>, n: int)
    requires
        0 <= n <= ds.len(),
        forall|j: int| 0 <= j < ds.len() ==> die_group_wf((#[trigger] ds[j]).0, ds[j].1),
    ensures
        0 <= groups_lo_to(ds, n) <= groups_hi_to(ds, n),
    decreases n,
{
    if n > 0 {
        lemma_groups_lo_hi(ds, n - 1);
        assert(0 <= ds[n - 1].0 && ds[n - 1].0 <= ds[n - 1].0 * ds[n - 1].1) by (nonlinear_arith)
            requires
                die_group_wf(ds[n - 1].0, ds[n - 1].1),
        ;
    }
}

proof fn lemma_groups_hi_mono(ds: Seq<(int, int)>, n: int, m: int)
    requires
        0 <= n <= m <= ds.len(),
        forall|j: int| 0 <= j < ds.len() ==> die_group_wf((#[trigger] ds[j]).0, ds[j].1),
    ensures
        groups_hi_to(ds, n) <= groups_hi_to(ds, m),
    decreases m - n,
{
    if n < m {
        lemma_groups_hi_mono(ds, n, m - 1);
        assert(0 <= ds[m - 1].0 * ds[m - 1].1) by (nonlinear_arith)
            requires
                die_group_wf(ds[m - 1].0, ds[m - 1].1),
        ;
    }
}

/// The earlier representation of a damage expression.
#[derive(Debug, PartialEq)]
pub struct DamageElement {
    pub to_hit: i32,
    pub die_elements: Vec<Die>,
    pub static_element: i32,
}

impl DamageElement {
    pub fn new(to_hit: i32, die_elements: Vec<Die>, static_element: i32) -> (de: DamageElement)
        ensures
            de.to_hit == to_hit,
            de.die_elements == die_elements,
            de.static_element == static_element,
    {
        DamageElement { to_hit, die_elements, static_element }
    }

    /// Extract every `NdS` die token of the string, in order.
    pub fn parse_die_elements(notation: &str) -> (dies: Vec<Die>)
        requires
            legacy_dice_ok(notation@),
        ensures
            die_views(dies@) == all_die_matches(notation@, 0),
    {
        let v = chars_of(notation);
        let ghost s = notation@;
        let mut dies: Vec<Die> = Vec::new();
        let mut i: usize = 0;
        while i < v.len()
            invariant
                v@ == s,
                legacy_dice_ok(s),
                i <= v@.len(),
                die_views(dies@) + all_die_matches(s, i as int) == all_die_matches(s, 0),
            decreases v@.len() - i,
        {
            let p = find_die_match(&v, i);
            if p == v.len() {
                proof {
                    assert(all_die_matches(s, i as int) =~= Seq::<(int, int)>::empty());
                    assert(die_views(dies@) + all_die_matches(s, v@.len() as int) =~= die_views(
                        dies@,
                    ) + all_die_matches(s, i as int));
                }
                i = v.len();
            } else {
                proof {
                    lemma_first_die_match(s, i as int);
                }
                let q = scan_run_end(&v, p);
                proof {
                    lemma_run_end(s, p as int);
                }
                let r = scan_run_end(&v, q + 1);
                proof {
                    lemma_run_end(s, q + 1);
                }
                let ghost head = (digits_val(s, p as int, q as int), digits_val(s, q + 1, r as int));
                proof {
                    assert(all_die_matches(s, i as int) == seq![head] + all_die_matches(
                        s,
                        r as int,
                    ));
                    assert(all_die_matches(s, 0)[die_views(dies@).len() as int] == head);
                }
                let n_die = parse_digits(&v, p, q);
                let s_die = parse_digits(&v, q + 1, r);
                let ghost views_before = die_views(dies@);
                dies.push(Die::new(n_die as i32, s_die as i32));
                proof {
                    assert(die_views(dies@) =~= views_before + seq![head]);
                    assert(die_views(dies@) + all_die_matches(s, r as int) =~= all_die_matches(
                        s,
                        0,
                    ));
                }
                i = r;
            }
        }
        proof {
            assert(all_die_matches(s, v@.len() as int) =~= Seq::<(int, int)>::empty());
            assert(die_views(dies@) =~= all_die_matches(s, 0));
        }
        dies
    }

    /// Sum every signed flat modifier token of the string.
    pub fn parse_static_elements(notation: &str) -> (total: i32)
        requires
            mods_sum_in_range(notation@),
        ensures
            total == mods_value_sum(notation@, 0),
    {
        let v = chars_of(notation);
        sum_static_tokens(&v)
    }

    /// Decompose a notation string into its die tokens and the sum of its
    /// flat modifier tokens, paired with a to-hit bonus.
    pub fn from_notation_string(to_hit: i32, notation: &str) -> (de: DamageElement)
        requires
            legacy_dice_ok(notation@),
            mods_sum_in_range(notation@),
        ensures
            de.to_hit == to_hit,
            die_views(de.die_elements@) == all_die_matches(notation@, 0),
            de.static_element == mods_value_sum(notation@, 0),
    {
        let die_elements = DamageElement::parse_die_elements(notation);
        let static_modifier = DamageElement::parse_static_elements(notation);
        DamageElement::new(to_hit, die_elements, static_modifier)
    }

    /// Roll the damage: the summed die groups and the flat modifier,
    /// reported separately.
    pub fn roll_damage(&self, roll_element: &mut rand::rngs::ThreadRng) -> (r: (i32, i32))
        requires
            forall|j: int|
                0 <= j < die_views(self.die_elements@).len() ==> die_group_wf(
                    (#[trigger] die_views(self.die_elements@)[j]).0,
                    die_views(self.die_elements@)[j].1,
                ),
            groups_hi_to(die_views(self.die_elements@), self.die_elements@.len() as int)
                <= i32::MAX,
        ensures
            groups_lo_to(die_views(self.die_elements@), self.die_elements@.len() as int) <= r.0
                <= groups_hi_to(die_views(self.die_elements@), self.die_elements@.len() as int),
            r.1 == self.static_element,
    {
        let ghost ds = die_views(self.die_elements@);
        let mut dmg_roll: i32 = 0;
        let mut i: usize = 0;
        while i < self.die_elements.len()
            invariant
                ds == die_views(self.die_elements@),
                forall|j: int| 0 <= j < ds.len() ==> die_group_wf((#[trigger] ds[j]).0, ds[j].1),
                groups_hi_to(ds, ds.len() as int) <= i32::MAX,
                i <= ds.len(),
                groups_lo_to(ds, i as int) <= dmg_roll <= groups_hi_to(ds, i as int),
            decreases self.die_elements@.len() - i,
        {
            proof {
                lemma_groups_lo_hi(ds, i + 1);
                lemma_groups_lo_hi(ds, i as int);
                lemma_groups_hi_mono(ds, i + 1, ds.len() as int);
                lemma_groups_hi_mono(ds, i as int, ds.len() as int);
            }
            let roll = self.die_elements[i].roll(roll_element);
            dmg_roll = dmg_roll + roll;
            i = i + 1;
        }
        (dmg_roll, self.static_element)
    }
}

} // verus!
