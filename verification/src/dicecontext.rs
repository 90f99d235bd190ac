//! The earlier roll-context model kept alongside the current one: a list
//! of die groups with reroll and fatal mechanics, plus one summed flat
//! modifier, with its own notation grammar (`NdS` and `NfS~F`).

use vstd::prelude::*;

use crate::dice::{dc_crit_hi, dc_crit_lo, dc_wf, DcSpec, DiceCollection};
use crate::notation::{
    chars_of, digits_val, find_die_match, first_die_match, is_digit_char, is_digit_exec,
    lemma_first_die_match, lemma_run_end, mods_sum_in_range, mods_value_sum, parse_digits,
    run_end, scan_run_end, split_commas, split_commas_exec, sum_static_tokens,
};
use crate::Reroll;

verus! {

/// The `NfS~F` fatal pattern begins at `p`: a digit run, the letter `f`,
/// a digit run, a tilde, a digit.
pub open spec fn fatal_match_at(s: Seq<char>, p: int) -> bool {
    &&& 0 <= p < s.len()
    &&& is_digit_char(s[p])
    &&& run_end(s, p) + 1 < s.len()
    &&& s[run_end(s, p)] == 'f'
    &&& is_digit_char(s[run_end(s, p) + 1])
    &&& run_end(s, run_end(s, p) + 1) + 1 < s.len()
    &&& s[run_end(s, run_end(s, p) + 1)] == '~'
    &&& is_digit_char(s[run_end(s, run_end(s, p) + 1) + 1])
}

/// Leftmost position at or after `i` where the fatal pattern begins, or
/// the length of `s` when there is none.
pub open spec fn first_fatal_match(s: Seq<char>, i: int) -> int
    decreases s.len() - i,
{
    if i < 0 || i >= s.len() {
        s.len() as int
    } else if fatal_match_at(s, i) {
        i
    } else {
        first_fatal_match(s, i + 1)
    }
}

pub proof fn lemma_first_fatal_match(s: Seq<char>, i: int)
    requires
        0 <= i <= s.len(),
    ensures
        i <= first_fatal_match(s, i) <= s.len(),
        first_fatal_match(s, i) < s.len() ==> fatal_match_at(s, first_fatal_match(s, i)),
    decreases s.len() - i,
{
    if i < s.len() && !fatal_match_at(s, i) {
        lemma_first_fatal_match(s, i + 1);
    }
}

/// The regular die tokens of a fragment: count and size of its leftmost
/// `NdS` pattern, when one exists.
pub open spec fn regular_die_spec(s: Seq<char>) -> Option<(int, int)> {
    let p = first_die_match(s, 0);
    if p >= s.len() {
        Option::None
    } else {
        let q = run_end(s, p);
        Option::Some((digits_val(s, p, q), digits_val(s, q + 1, run_end(s, q + 1))))
    }
}

/// The fatal die tokens of a fragment: count, size and fatal size of its
/// leftmost `NfS~F` pattern, when one exists.
pub open spec fn fatal_die_spec(s: Seq<char>) -> Option<(int, int, int)> {
    let p = first_fatal_match(s, 0);
    if p >= s.len() {
        Option::None
    } else {
        let q = run_end(s, p);
        let r = run_end(s, q + 1);
        Option::Some(
            (digits_val(s, p, q), digits_val(s, q + 1, r), digits_val(s, r + 1, run_end(s, r + 1))),
        )
    }
}

/// The reroll flag of a fragment: the leftmost `A` or `D` decides, a
/// doubled `A` meaning double advantage; absent both, a standard roll.
pub open spec fn reroll_spec(s: Seq<char>, i: int) -> Reroll
    decreases s.len() - i,
{
    if i < 0 || i >= s.len() {
        Reroll::Standard
    } else if s[i] == 'A' {
        if i + 1 < s.len() && s[i + 1] == 'A' {
            Reroll::DoubleAdvantage
        } else {
            Reroll::Advantage
        }
    } else if s[i] == 'D' {
        Reroll::Disadvantage
    } else {
        reroll_spec(s, i + 1)
    }
}

/// The die group one fragment contributes: a regular group when the
/// `NdS` pattern is present, otherwise a fatal group when the `NfS~F`
/// pattern is, each with the fragment's reroll flag.
pub open spec fn legacy_frag_spec(s: Seq<char>) -> Option<DcSpec> {
    match regular_die_spec(s) {
        Option::Some(t) => Option::Some(
            DcSpec { count: t.0, size: t.1, reroll: reroll_spec(s, 0), fatal: Option::None },
        ),
        Option::None => match fatal_die_spec(s) {
            Option::Some(t) => Option::Some(
                DcSpec {
                    count: t.0,
                    size: t.1,
                    reroll: reroll_spec(s, 0),
                    fatal: Option::Some(t.2),
                },
            ),
            Option::None => Option::None,
        },
    }
}

/// The die groups contributed by the first `n` fragments, in order,
/// fragments without dice contributing nothing.
pub open spec fn legacy_frags_to(frags: Seq<Seq<char>>, n: int) -> Seq<DcSpec>
    decreases n,
{
    if n <= 0 {
        Seq::empty()
    } else {
        legacy_frags_to(frags, n - 1) + match legacy_frag_spec(frags[n - 1]) {
            Option::Some(d) => seq![d],
            Option::None => Seq::empty(),
        }
    }
}

/// All die groups of a notation string.
pub open spec fn context_dice(s: Seq<char>) -> Seq<DcSpec> {
    legacy_frags_to(split_commas(s), split_commas(s).len() as int)
}

/// Every die token of one fragment has a value an `i32` can hold.
pub open spec fn legacy_frag_ok(s: Seq<char>) -> bool {
    &&& match regular_die_spec(s) {
        Option::Some(t) => t.0 <= i32::MAX && t.1 <= i32::MAX,
        Option::None => true,
    }
    &&& match fatal_die_spec(s) {
        Option::Some(t) => t.0 <= i32::MAX && t.1 <= i32::MAX && t.2 <= i32::MAX,
        Option::None => true,
    }
}

/// Every numeric token of the string fits in `i32`, and the flat
/// modifier tokens sum inside it.
pub open spec fn legacy_notation_ok(s: Seq<char>) -> bool {
    &&& forall|k: int|
        0 <= k < split_commas(s).len() ==> legacy_frag_ok(#[trigger] split_commas(s)[k])
    &&& mods_sum_in_range(s)
}

/// The exec-level pair of die tokens, seen by specifications.
pub open spec fn pair_view(r: Option<(i32, i32)>) -> Option<(int, int)> {
    match r {
        Option::Some(t) => Option::Some((t.0 as int, t.1 as int)),
        Option::None => Option::None,
    }
}

/// The exec-level triple of die tokens, seen by specifications.
pub open spec fn triple_view(r: Option<(i32, i32, i32)>) -> Option<(int, int, int)> {
    match r {
        Option::Some(t) => Option::Some((t.0 as int, t.1 as int, t.2 as int)),
        Option::None => Option::None,
    }
}

/// The models of a sequence of die groups.
pub open spec fn dc_views(ds: Seq<DiceCollection>) -> Seq<DcSpec> {
    ds.map_values(|d: DiceCollection| d@)
}

/// Mathematical model of a roll context.
pub ghost struct CtxView {
    pub dice: Seq<DcSpec>,
    pub static_modifier: int,
}

/// Sum of the counts of the first `n` die groups.
pub open spec fn ctx_lo_to(ds: Seq<DcSpec>, n: int) -> int
    decreases n,
{
    if n <= 0 {
        0
    } else {
        ctx_lo_to(ds, n - 1) + ds[n - 1].count
    }
}

/// Sum of count times size of the first `n` die groups.
pub open spec fn ctx_hi_to(ds: Seq<DcSpec>, n: int) -> int
    decreases n,
{
    if n <= 0 {
        0
    } else {
        ctx_hi_to(ds, n - 1) + ds[n - 1].count * ds[n - 1].size
    }
}

/// Sum of the least critical totals of the first `n` die groups.
pub open spec fn ctx_crit_lo_to(ds: Seq<DcSpec>, n: int) -> int
    decreases n,
{
    if n <= 0 {
        0
    } else {
        ctx_crit_lo_to(ds, n - 1) + dc_crit_lo(ds[n - 1])
    }
}

/// Sum of the largest critical totals of the first `n` die groups.
pub open spec fn ctx_crit_hi_to(ds: Seq<DcSpec>, n: int) -> int
    decreases n,
{
    if n <= 0 {
        0
    } else {
        ctx_crit_hi_to(ds, n - 1) + dc_crit_hi(ds[n - 1])
    }
}

/// Every die group of the context can be rolled without leaving `i32`.
pub open spec fn ctx_rollable(ds: Seq<DcSpec>) -> bool {
    &&& forall|j: int| 0 <= j < ds.len() ==> dc_wf(#[trigger] ds[j])
    &&& ctx_hi_to(ds, ds.len() as int) <= i32::MAX
    &&& ctx_crit_hi_to(ds, ds.len() as int) <= i32::MAX
}

proof fn lemma_ctx_bounds(ds: Seq<DcSpec>, n: int)
    requires
        0 <= n <= ds.len(),
        forall|j: int| 0 <= j < ds.len() ==> dc_wf(#[trigger] ds[j]),
    ensures
        0 <= ctx_lo_to(ds, n) <= ctx_hi_to(ds, n),
        0 <= ctx_crit_lo_to(ds, n) <= ctx_crit_hi_to(ds, n),
    decreases n,
{
    if n > 0 {
        lemma_ctx_bounds(ds, n - 1);
        assert(0 <= ds[n - 1].count && ds[n - 1].count <= ds[n - 1].count * ds[n - 1].size
            && dc_crit_lo(ds[n - 1]) >= 0 && dc_crit_lo(ds[n - 1]) <= dc_crit_hi(ds[n - 1]))
            by (nonlinear_arith)
            requires
                dc_wf(ds[n - 1]),
        ;
    }
}

proof fn lemma_ctx_mono(ds: Seq<DcSpec>, n: int, m: int)
    requires
        0 <= n <= m <= ds.len(),
        forall|j: int| 0 <= j < ds.len() ==> dc_wf(#[trigger] ds[j]),
    ensures
        ctx_hi_to(ds, n) <= ctx_hi_to(ds, m),
        ctx_crit_hi_to(ds, n) <= ctx_crit_hi_to(ds, m),
    decreases m - n,
{
    if n < m {
        lemma_ctx_mono(ds, n, m - 1);
        assert(0 <= ds[m - 1].count * ds[m - 1].size && 0 <= dc_crit_hi(ds[m - 1]))
            by (nonlinear_arith)
            requires
                dc_wf(ds[m - 1]),
        ;
    }
}

/// The earlier representation of one roll expression: die groups and a
/// single summed flat modifier.
#[derive(Debug, PartialEq)]
pub struct DiceContext {
    pub dice: Vec<DiceCollection>,
    pub static_modifier: i32,
}

impl View for DiceContext {
    type V = CtxView;

    open spec fn view(&self) -> CtxView {
        CtxView { dice: dc_views(self.dice@), static_modifier: self.static_modifier as int }
    }
}

impl DiceContext {
    pub fn new(dice: Vec<DiceCollection>, static_modifier: i32) -> (ctx: DiceContext)
        ensures
            ctx@ == (CtxView {
                dice: dc_views(dice@),
                static_modifier: static_modifier as int,
            }),
    {
        DiceContext { dice, static_modifier }
    }

    /// Extracts the count and size of the leftmost regular die token.
    fn regular_die_chars(v: &Vec<char>) -> (r: Option<(i32, i32)>)
        requires
            match regular_die_spec(v@) {
                Option::Some(t) => t.0 <= i32::MAX && t.1 <= i32::MAX,
                Option::None => true,
            },
        ensures
            pair_view(r) == regular_die_spec(v@),
    {
        let p = find_die_match(v, 0);
        if p == v.len() {
            None
        } else {
            proof {
                lemma_first_die_match(v@, 0);
            }
            let q = scan_run_end(v, p);
            proof {
                lemma_run_end(v@, p as int);
            }
            let r = scan_run_end(v, q + 1);
            proof {
                lemma_run_end(v@, q + 1);
            }
            let n_die = parse_digits(v, p, q);
            let s_die = parse_digits(v, q + 1, r);
            Some((n_die as i32, s_die as i32))
        }
    }

    /// Extracts count, size and fatal size of the leftmost fatal token.
    fn fatal_die_chars(v: &Vec<char>) -> (r: Option<(i32, i32, i32)>)
        requires
            match fatal_die_spec(v@) {
                Option::Some(t) => t.0 <= i32::MAX && t.1 <= i32::MAX && t.2 <= i32::MAX,
                Option::None => true,
            },
        ensures
            triple_view(r) == fatal_die_spec(v@),
    {
        let mut p: usize = 0;
        let mut found: bool = false;
        while p < v.len() && !found
            invariant
                p <= v@.len(),
                first_fatal_match(v@, 0) == if found {
                    p as int
                } else {
                    first_fatal_match(v@, p as int)
                },
                found ==> fatal_match_at(v@, p as int),
            decreases v@.len() - p, (if found { 0int } else { 1int }),
        {
            let mut here: bool = false;
            if is_digit_exec(v[p]) {
                let q = scan_run_end(v, p);
                if q < v.len() && v[q] == 'f' && q + 1 < v.len() && is_digit_exec(v[q + 1]) {
                    let r = scan_run_end(v, q + 1);
                    if r < v.len() && v[r] == '~' && r + 1 < v.len() && is_digit_exec(v[r + 1]) {
                        here = true;
                    }
                }
            }
            if here {
                found = true;
            } else {
                proof {
                    assert(!fatal_match_at(v@, p as int));
                }
                p = p + 1;
            }
        }
        if !found {
            return None;
        }
        proof {
            lemma_first_fatal_match(v@, 0);
        }
        let q = scan_run_end(v, p);
        proof {
            lemma_run_end(v@, p as int);
        }
        let r = scan_run_end(v, q + 1);
        proof {
            lemma_run_end(v@, q + 1);
        }
        let fe = scan_run_end(v, r + 1);
        proof {
            lemma_run_end(v@, r + 1);
        }
        let n_die = parse_digits(v, p, q);
        let s_die = parse_digits(v, q + 1, r);
        let f_die = parse_digits(v, r + 1, fe);
        Some((n_die as i32, s_die as i32, f_die as i32))
    }

    /// Finds the fragment's reroll flag.
    fn reroll_chars(v: &Vec<char>) -> (r: Reroll)
        ensures
            r == reroll_spec(v@, 0),
    {
        let mut i: usize = 0;
        while i < v.len()
            invariant
                i <= v@.len(),
                reroll_spec(v@, 0) == reroll_spec(v@, i as int),
            decreases v@.len() - i,
        {
            if v[i] == 'A' {
                if i + 1 < v.len() && v[i + 1] == 'A' {
                    return Reroll::DoubleAdvantage;
                }
                return Reroll::Advantage;
            }
            if v[i] == 'D' {
                return Reroll::Disadvantage;
            }
            i = i + 1;
        }
        Reroll::Standard
    }

    /// Return the count and size of the leftmost regular die token of the
    /// notation string, when one exists.
    pub fn parse_regular_die(notation: &str) -> (r: Option<(i32, i32)>)
        requires
            match regular_die_spec(notation@) {
                Option::Some(t) => t.0 <= i32::MAX && t.1 <= i32::MAX,
                Option::None => true,
            },
        ensures
            pair_view(r) == regular_die_spec(notation@),
    {
        let v = chars_of(notation);
        DiceContext::regular_die_chars(&v)
    }

    /// Return count, standard size and fatal size of the leftmost fatal
    /// die token of the notation string, when one exists.
    pub fn parse_fatal_die(notation: &str) -> (r: Option<(i32, i32, i32)>)
        requires
            match fatal_die_spec(notation@) {
                Option::Some(t) => t.0 <= i32::MAX && t.1 <= i32::MAX && t.2 <= i32::MAX,
                Option::None => true,
            },
        ensures
            triple_view(r) == fatal_die_spec(notation@),
    {
        let v = chars_of(notation);
        DiceContext::fatal_die_chars(&v)
    }

    /// Sum every signed flat modifier token of the string.
    pub fn parse_static_elements(notation: &str) -> (total: i32)
        requires
            mods_sum_in_range(notation@),
        ensures
            total == mods_value_sum(notation@, 0),
    {
        let v = chars_of(notation);
        sum_static_tokens(&v)
    }

    /// Set the reroll flag of a fragment: the leftmost `A` or `D` decides.
    pub fn parse_reroll_elements(notation: &str) -> (r: Reroll)
        ensures
            r == reroll_spec(notation@, 0),
    {
        let v = chars_of(notation);
        DiceContext::reroll_chars(&v)
    }

    /// Parse a notation string into its die groups, fragment by fragment
    /// between commas, and its summed flat modifier.
    pub fn parse_dice_string(notation: &str) -> (ctx: DiceContext)
        requires
            legacy_notation_ok(notation@),
        ensures
            ctx@ == (CtxView {
                dice: context_dice(notation@),
                static_modifier: mods_value_sum(notation@, 0),
            }),
    {
        let chars = chars_of(notation);
        let static_modifier = sum_static_tokens(&chars);

        let frags = split_commas_exec(&chars);
        let mut dice_vector: Vec<DiceCollection> = Vec::new();
        let mut k: usize = 0;
        while k < frags.len()
            invariant
                legacy_notation_ok(notation@),
                k <= frags@.len(),
                frags@.len() == split_commas(notation@).len(),
                forall|t: int| 0 <= t < frags@.len() ==> frags@[t]@ == split_commas(notation@)[t],
                dc_views(dice_vector@) == legacy_frags_to(split_commas(notation@), k as int),
            decreases frags@.len() - k,
        {
            proof {
                assert(frags@[k as int]@ == split_commas(notation@)[k as int]);
                assert(legacy_frag_ok(split_commas(notation@)[k as int]));
            }
            let frag = &frags[k];
            let ghost views_before = dc_views(dice_vector@);
            if let Some((n_die, die_size)) = DiceContext::regular_die_chars(frag) {
                let reroll_modifier = DiceContext::reroll_chars(frag);
                let dc = DiceCollection::new(n_die, die_size, reroll_modifier);
                let ghost dv = dc@;
                dice_vector.push(dc);
                proof {
                    assert(dc_views(dice_vector@) =~= views_before.push(dv));
                    assert(dc_views(dice_vector@) =~= legacy_frags_to(
                        split_commas(notation@),
                        k + 1,
                    ));
                }
            } else if let Some((n_die, die_size, fatal_size)) = DiceContext::fatal_die_chars(
                frag,
            ) {
                let reroll_modifier = DiceContext::reroll_chars(frag);
                let mut f_dice = DiceCollection::new(n_die, die_size, reroll_modifier);
                f_dice.set_fatal(fatal_size);
                let ghost dv = f_dice@;
                dice_vector.push(f_dice);
                proof {
                    assert(dc_views(dice_vector@) =~= views_before.push(dv));
                    assert(dc_views(dice_vector@) =~= legacy_frags_to(
                        split_commas(notation@),
                        k + 1,
                    ));
                }
            } else {
                proof {
                    assert(dc_views(dice_vector@) =~= legacy_frags_to(
                        split_commas(notation@),
                        k + 1,
                    ));
                }
            }
            k = k + 1;
        }
        proof {
            assert(dc_views(dice_vector@) =~= context_dice(notation@));
        }
        DiceContext::new(dice_vector, static_modifier)
    }

    /// Roll every die group and sum the results; the flat modifier does
    /// not take part.
    pub fn roll(&self, roll_element: &mut rand::rngs::ThreadRng) -> (r: i32)
        requires
            ctx_rollable(self@.dice),
        ensures
            ctx_lo_to(self@.dice, self@.dice.len() as int) <= r <= ctx_hi_to(
                self@.dice,
                self@.dice.len() as int,
            ),
    {
        let ghost ds = self@.dice;
        let mut total: i32 = 0;
        let mut i: usize = 0;
        while i < self.dice.len()
            invariant
                ds == self@.dice,
                ctx_rollable(ds),
                i <= ds.len(),
                ctx_lo_to(ds, i as int) <= total <= ctx_hi_to(ds, i as int),
            decreases self.dice@.len() - i,
        {
            proof {
                lemma_ctx_bounds(ds, i as int);
                lemma_ctx_bounds(ds, i + 1);
                lemma_ctx_mono(ds, i + 1, ds.len() as int);
            }
            let roll = self.dice[i].roll(roll_element);
            total = total + roll;
            i = i + 1;
        }
        total
    }

    /// Roll every die group for a critical hit and sum the results; the
    /// flat modifier does not take part.
    pub fn roll_critical(&self, roll_element: &mut rand::rngs::ThreadRng) -> (r: i32)
        requires
            ctx_rollable(self@.dice),
        ensures
            ctx_crit_lo_to(self@.dice, self@.dice.len() as int) <= r <= ctx_crit_hi_to(
                self@.dice,
                self@.dice.len() as int,
            ),
    {
        let ghost ds = self@.dice;
        let mut total: i32 = 0;
        let mut i: usize = 0;
        while i < self.dice.len()
            invariant
                ds == self@.dice,
                ctx_rollable(ds),
                i <= ds.len(),
                ctx_crit_lo_to(ds, i as int) <= total <= ctx_crit_hi_to(ds, i as int),
            decreases self.dice@.len() - i,
        {
            proof {
                lemma_ctx_bounds(ds, i as int);
                lemma_ctx_bounds(ds, i + 1);
                lemma_ctx_mono(ds, i + 1, ds.len() as int);
            }
            let roll = self.dice[i].roll_critical(roll_element);
            total = total + roll;
            i = i + 1;
        }
        total
    }
}

} // verus!
