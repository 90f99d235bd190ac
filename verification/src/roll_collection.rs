//! An ordered bundle of dice and static modifiers with a ruleset tag: the
//! unit that answers whether a roll hits and how much damage it deals.

use vstd::prelude::*;

use crate::dice::{die_fits, die_wf, eval_hi, eval_lo, Dice, DiceBuilder, DieSpec};
use crate::notation::{
    chars_of, check_digits_fit, digits_val, find_die_match, first_die_match, is_digit_char,
    is_digit_exec, lemma_digits_val_nonneg, lemma_first_die_match, lemma_run_end, mod_start,
    mod_value, mods_in_range, parse_digits, run_end, scan_run_end, split_commas,
    split_commas_exec,
};
use crate::static_modifier::{mod_eval, ModSpec, StaticModifier};
use crate::{HitResult, ModifierBehaviour, RollBehaviour, Ruleset};

verus! {

/// Mathematical model of a roll collection.
pub ghost struct RcView {
    pub dice: Seq<DieSpec>,
    pub mods: Seq<ModSpec>,
    pub ruleset: Ruleset,
}

/// The models of a sequence of dice.
pub open spec fn dice_views(ds: Seq<Dice>) -> Seq<DieSpec> {
    ds.map_values(|d: Dice| d@)
}

/// The models of a sequence of static modifiers.
pub open spec fn mods_views(ms: Seq<StaticModifier>) -> Seq<ModSpec> {
    ms.map_values(|m: StaticModifier| m@)
}

/// A representation of a collection of dice and modifiers, defining a roll
/// event.
#[derive(Debug, PartialEq)]
pub struct RollCollection {
    pub dice: Vec<Dice>,
    pub modifiers: Vec<StaticModifier>,
    pub rule_mode: Ruleset,
}

impl View for RollCollection {
    type V = RcView;

    open spec fn view(&self) -> RcView {
        RcView {
            dice: dice_views(self.dice@),
            mods: mods_views(self.modifiers@),
            ruleset: self.rule_mode,
        }
    }
}

/// A doubled modifier value stays inside `i32`.
pub open spec fn mod_fits(m: ModSpec) -> bool {
    i32::MIN <= 2 * m.value <= i32::MAX
}

/// Every die and modifier of the collection can be evaluated without the
/// arithmetic leaving `i32`.
pub open spec fn rc_rollable(v: RcView) -> bool {
    &&& forall|i: int| 0 <= i < v.dice.len() ==> die_wf(#[trigger] v.dice[i]) && die_fits(
        v.dice[i],
    )
    &&& forall|i: int| 0 <= i < v.mods.len() ==> mod_fits(#[trigger] v.mods[i])
}

/// Sum of the first `n` modifier evaluations under a hit condition.
pub open spec fn mods_total_to(mods: Seq<ModSpec>, cond: Option<HitResult>, n: int) -> int
    decreases n,
{
    if n <= 0 {
        0
    } else {
        mods_total_to(mods, cond, n - 1) + mod_eval(mods[n - 1], cond)
    }
}

/// Sum of all modifier evaluations under a hit condition.
pub open spec fn mods_total(mods: Seq<ModSpec>, cond: Option<HitResult>) -> int {
    mods_total_to(mods, cond, mods.len() as int)
}

/// Sum of the first `n` entries of a roll outcome sequence.
pub open spec fn roll_sum_to(rolls: Seq<int>, n: int) -> int
    decreases n,
{
    if n <= 0 {
        0
    } else {
        roll_sum_to(rolls, n - 1) + rolls[n - 1]
    }
}

/// Sum of a roll outcome sequence.
pub open spec fn roll_sum(rolls: Seq<int>) -> int {
    roll_sum_to(rolls, rolls.len() as int)
}

/// Prefix sums only read the entries they cover.
pub proof fn lemma_roll_sum_to_agree(a: Seq<int>, b: Seq<int>, n: int)
    requires
        forall|k: int| 0 <= k < n ==> a[k] == b[k],
    ensures
        roll_sum_to(a, n) == roll_sum_to(b, n),
    decreases n,
{
    if n > 0 {
        lemma_roll_sum_to_agree(a, b, n - 1);
    }
}

/// One raw draw per die: each outcome lies between that die's bounds.
pub open spec fn hit_rolls_valid(dice: Seq<DieSpec>, rolls: Seq<int>) -> bool {
    &&& rolls.len() == dice.len()
    &&& forall|i: int| 0 <= i < dice.len() ==> dice[i].min <= #[trigger] rolls[i] <= dice[i].max
}

/// Some die with a maximum of twenty among the first `n` rolled a twenty.
pub open spec fn has_nat20(dice: Seq<DieSpec>, rolls: Seq<int>, n: int) -> bool {
    exists|i: int| 0 <= i < n && i < dice.len() && i < rolls.len() && dice[i].max == 20 && rolls[i]
        == 20
}

/// Appending one roll extends the natural-twenty test by that one die.
proof fn lemma_nat20_push(dice: Seq<DieSpec>, rolls: Seq<int>, x: int, i: int)
    requires
        rolls.len() == i,
        0 <= i < dice.len(),
    ensures
        has_nat20(dice, rolls.push(x), i + 1) == (has_nat20(dice, rolls, i) || (dice[i].max == 20
            && x == 20)),
{
    let pushed = rolls.push(x);
    if has_nat20(dice, rolls, i) {
        let k = choose|k: int|
            0 <= k < i && k < dice.len() && k < rolls.len() && dice[k].max == 20 && rolls[k] == 20;
        assert(pushed[k] == 20);
        assert(has_nat20(dice, pushed, i + 1));
    }
    if dice[i].max == 20 && x == 20 {
        assert(pushed[i] == 20);
        assert(has_nat20(dice, pushed, i + 1));
    }
    if has_nat20(dice, pushed, i + 1) {
        let k = choose|k: int|
            0 <= k < i + 1 && k < dice.len() && k < pushed.len() && dice[k].max == 20 && pushed[k]
                == 20;
        if k < i {
            assert(rolls[k] == 20);
            assert(has_nat20(dice, rolls, i));
        } else {
            assert(x == 20);
        }
    }
}

/// Hit resolution under the D&D 5e rules: a natural twenty on any
/// twenty-sided die is an unconditional critical hit; otherwise the roll
/// hits exactly when dice plus flat modifiers reach the target.
pub open spec fn dnd_outcome(
    dice: Seq<DieSpec>,
    rolls: Seq<int>,
    mod_total: int,
    target: int,
) -> HitResult {
    if has_nat20(dice, rolls, dice.len() as int) {
        HitResult::CriticalHit
    } else if roll_sum(rolls) + mod_total >= target {
        HitResult::Hit
    } else {
        HitResult::Miss
    }
}

/// The tier adjustment one die contributes under the Pathfinder 2e rules:
/// a natural twenty on a twenty-sided die raises the tier, a natural one
/// lowers it.
pub open spec fn die_delta(d: DieSpec, roll: int) -> int {
    if d.max == 20 && roll == 20 {
        1
    } else if d.max == 20 && roll == 1 {
        -1
    } else {
        0
    }
}

/// Total tier adjustment of the first `n` dice.
pub open spec fn nat_delta_to(dice: Seq<DieSpec>, rolls: Seq<int>, n: int) -> int
    decreases n,
{
    if n <= 0 {
        0
    } else {
        nat_delta_to(dice, rolls, n - 1) + die_delta(dice[n - 1], rolls[n - 1])
    }
}

/// Total tier adjustment of all dice.
pub open spec fn nat_delta(dice: Seq<DieSpec>, rolls: Seq<int>) -> int {
    nat_delta_to(dice, rolls, dice.len() as int)
}

/// The tier adjustment of a prefix only reads the entries it covers.
proof fn lemma_nat_delta_to_agree(dice: Seq<DieSpec>, a: Seq<int>, b: Seq<int>, n: int)
    requires
        forall|k: int| 0 <= k < n ==> a[k] == b[k],
    ensures
        nat_delta_to(dice, a, n) == nat_delta_to(dice, b, n),
    decreases n,
{
    if n > 0 {
        lemma_nat_delta_to_agree(dice, a, b, n - 1);
    }
}

/// Hit resolution under the Pathfinder 2e rules: the margin over the
/// target seeds a tier (ten or more over is the critical tier, zero or
/// more the hit tier), natural twenties and ones shift the tier, and the
/// shifted tier classifies the roll.
pub open spec fn pf_outcome(
    dice: Seq<DieSpec>,
    rolls: Seq<int>,
    mod_total: int,
    target: int,
) -> HitResult {
    let diff = roll_sum(rolls) + mod_total - target;
    let state: int = if diff >= 10 {
        2
    } else if diff >= 0 {
        1
    } else {
        0
    };
    let shifted = state + nat_delta(dice, rolls);
    if shifted > 1 {
        HitResult::CriticalHit
    } else if shifted == 1 {
        HitResult::Hit
    } else {
        HitResult::Miss
    }
}

/// Hit resolution of a collection, dispatched on its ruleset.
pub open spec fn collection_outcome(v: RcView, rolls: Seq<int>, target: int) -> HitResult {
    match v.ruleset {
        Ruleset::DND5e => dnd_outcome(v.dice, rolls, mods_total(v.mods, Option::None), target),
        Ruleset::PF2e => pf_outcome(v.dice, rolls, mods_total(v.mods, Option::None), target),
    }
}

/// A hit result the collection can produce against a target: there are
/// draws, one per die and each within its die's bounds, that the ruleset's
/// resolution maps to this result.
pub open spec fn possible_hit_outcome(v: RcView, target: int, hr: HitResult) -> bool {
    exists|rolls: Seq<int>|
        hit_rolls_valid(v.dice, rolls) && hr == collection_outcome(v, rolls, target)
}

/// Sum of the smallest damage the first `n` dice can produce.
pub open spec fn dice_dmg_lo_to(dice: Seq<DieSpec>, h: HitResult, n: int) -> int
    decreases n,
{
    if n <= 0 {
        0
    } else {
        dice_dmg_lo_to(dice, h, n - 1) + eval_lo(dice[n - 1], Option::Some(h))
    }
}

/// Sum of the largest damage the first `n` dice can produce.
pub open spec fn dice_dmg_hi_to(dice: Seq<DieSpec>, h: HitResult, n: int) -> int
    decreases n,
{
    if n <= 0 {
        0
    } else {
        dice_dmg_hi_to(dice, h, n - 1) + eval_hi(dice[n - 1], Option::Some(h))
    }
}

/// Smallest damage total a collection can produce for a hit result; the
/// modifier part is exact, only the dice part varies.
pub open spec fn dmg_lo(v: RcView, h: HitResult) -> int {
    dice_dmg_lo_to(v.dice, h, v.dice.len() as int) + mods_total(v.mods, Option::Some(h))
}

/// Largest damage total a collection can produce for a hit result.
pub open spec fn dmg_hi(v: RcView, h: HitResult) -> int {
    dice_dmg_hi_to(v.dice, h, v.dice.len() as int) + mods_total(v.mods, Option::Some(h))
}

/// Damage evaluation of the collection stays inside `i32` for every hit
/// result.
pub open spec fn rc_damage_fits(v: RcView) -> bool {
    &&& forall|h: HitResult| i32::MIN <= #[trigger] dmg_lo(v, h)
    &&& forall|h: HitResult| #[trigger] dmg_hi(v, h) <= i32::MAX
}

/// The parsed die group of one notation fragment.
pub ghost struct FragDice {
    pub count: int,
    pub size: int,
    pub behaviour: RollBehaviour,
    pub alt: int,
}

/// Length of the reroll token standing exactly at `r`: `AA` before `A`
/// before `D`, as the notation grammar orders them.
pub open spec fn behaviour_len(s: Seq<char>, r: int) -> int {
    if r + 1 < s.len() && s[r] == 'A' && s[r + 1] == 'A' {
        2
    } else if r < s.len() && (s[r] == 'A' || s[r] == 'D') {
        1
    } else {
        0
    }
}

/// The reroll behaviour named by the token standing exactly at `r`.
pub open spec fn behaviour_kind(s: Seq<char>, r: int) -> RollBehaviour {
    if r + 1 < s.len() && s[r] == 'A' && s[r + 1] == 'A' {
        RollBehaviour::DoubleAdvantage
    } else if r < s.len() && s[r] == 'A' {
        RollBehaviour::Advantage
    } else if r < s.len() && s[r] == 'D' {
        RollBehaviour::Disadvantage
    } else {
        RollBehaviour::Standard
    }
}

/// The die group of one fragment under the grammar
/// `<N>d<S>[AA|A|D]?[~<F>]?`: the leftmost `NdS` pattern provides count
/// and size; a reroll token may follow the size; a fatal token `~F` after
/// that makes the group `Fatal` with alternate maximum `F`, overriding any
/// reroll token.  A fragment without the pattern contributes nothing.
pub open spec fn frag_die_parse(s: Seq<char>) -> Option<FragDice> {
    let p = first_die_match(s, 0);
    if p >= s.len() {
        Option::None
    } else {
        let q = run_end(s, p);
        let rr = run_end(s, q + 1);
        let count = digits_val(s, p, q);
        let size = digits_val(s, q + 1, rr);
        let b = rr + behaviour_len(s, rr);
        if b < s.len() && s[b] == '~' && b + 1 < s.len() && is_digit_char(s[b + 1]) {
            Option::Some(
                FragDice {
                    count,
                    size,
                    behaviour: RollBehaviour::Fatal,
                    alt: digits_val(s, b + 1, run_end(s, b + 1)),
                },
            )
        } else {
            Option::Some(FragDice { count, size, behaviour: behaviour_kind(s, rr), alt: 0 })
        }
    }
}

/// The die a fragment's group describes: minimum one, maximum the parsed
/// size, with the parsed behaviour and alternate maximum.
pub open spec fn frag_die_template(f: FragDice) -> DieSpec {
    DieSpec { min: 1, max: f.size, behaviour: f.behaviour, alt: f.alt }
}

/// The dice one fragment contributes: its count copies of its template.
pub open spec fn dice_of_frag(s: Seq<char>) -> Seq<DieSpec> {
    match frag_die_parse(s) {
        Option::None => Seq::empty(),
        Option::Some(f) => Seq::new(f.count as nat, |i: int| frag_die_template(f)),
    }
}

/// The dice contributed by the first `n` fragments, in order.
pub open spec fn dice_of_frags_to(frags: Seq<Seq<char>>, n: int) -> Seq<DieSpec>
    decreases n,
{
    if n <= 0 {
        Seq::empty()
    } else {
        dice_of_frags_to(frags, n - 1) + dice_of_frag(frags[n - 1])
    }
}

/// All dice of a notation string: the contributions of its comma-separated
/// fragments, in order.
pub open spec fn dice_of_notation(s: Seq<char>) -> Seq<DieSpec> {
    dice_of_frags_to(split_commas(s), split_commas(s).len() as int)
}

/// The modifier behaviour the parser assigns to bare `+N` tokens under a
/// ruleset.
pub open spec fn default_mod_behaviour(rs: Ruleset) -> ModifierBehaviour {
    match rs {
        Ruleset::PF2e => ModifierBehaviour::CanCritical,
        Ruleset::DND5e => ModifierBehaviour::OnHit,
    }
}

/// The static modifiers found at or after `i`, in order of their signs.
pub open spec fn mods_of(s: Seq<char>, i: int, rs: Ruleset) -> Seq<ModSpec>
    decreases s.len() - i,
{
    if i < 0 || i >= s.len() {
        Seq::empty()
    } else if mod_start(s, i) {
        seq![ModSpec { value: mod_value(s, i), behaviour: default_mod_behaviour(rs) }] + mods_of(
            s,
            i + 1,
            rs,
        )
    } else {
        mods_of(s, i + 1, rs)
    }
}

/// Every die token of a fragment has a value a die field can hold.
pub open spec fn frag_tokens_ok(s: Seq<char>) -> bool {
    match frag_die_parse(s) {
        Option::None => true,
        Option::Some(f) => f.count <= i32::MAX && f.size <= i32::MAX && f.alt <= i32::MAX,
    }
}

/// Every numeric token of the notation string fits in `i32`, the one
/// machine limit the parser inherits from the die and modifier fields.
pub open spec fn notation_ok(s: Seq<char>) -> bool {
    &&& forall|k: int|
        0 <= k < split_commas(s).len() ==> frag_tokens_ok(#[trigger] split_commas(s)[k])
    &&& mods_in_range(s)
}

/// The collection a notation string parses to under a ruleset.
pub open spec fn collection_spec(s: Seq<char>, rs: Ruleset) -> RcView {
    RcView { dice: dice_of_notation(s), mods: mods_of(s, 0, rs), ruleset: rs }
}

impl RollCollection {
    /// Creates a new RollCollection representation of a roll event.
    pub fn new(dice_vector: Vec<Dice>, mod_vector: Vec<StaticModifier>, rule_set: Ruleset) -> (rc:
        RollCollection)
        ensures
            rc@ == (RcView {
                dice: dice_views(dice_vector@),
                mods: mods_views(mod_vector@),
                ruleset: rule_set,
            }),
    {
        RollCollection { dice: dice_vector, modifiers: mod_vector, rule_mode: rule_set }
    }

    /// Appends the dice described by one fragment to a vector.
    fn parse_die_elements_chars(dice_vector: &mut Vec<Dice>, v: &Vec<char>)
        requires
            frag_tokens_ok(v@),
        ensures
            dice_views(final(dice_vector)@) == dice_views(old(dice_vector)@) + dice_of_frag(v@),
    {
        let p = find_die_match(v, 0);
        if p == v.len() {
            proof {
                assert(dice_views(dice_vector@) =~= dice_views(dice_vector@) + dice_of_frag(v@));
            }
            return ;
        }
        proof {
            lemma_first_die_match(v@, 0);
        }
        let q = scan_run_end(v, p);
        proof {
            lemma_run_end(v@, p as int);
        }
        let rr = scan_run_end(v, q + 1);
        proof {
            lemma_run_end(v@, q + 1);
        }
        let count_wide = parse_digits(v, p, q);
        let size_wide = parse_digits(v, q + 1, rr);

        let mut token_len: usize = 0;
        let mut reroll = RollBehaviour::Standard;
        if rr < v.len() && v[rr] == 'A' && rr + 1 < v.len() && v[rr + 1] == 'A' {
            token_len = 2;
            reroll = RollBehaviour::DoubleAdvantage;
        } else if rr < v.len() && v[rr] == 'A' {
            token_len = 1;
            reroll = RollBehaviour::Advantage;
        } else if rr < v.len() && v[rr] == 'D' {
            token_len = 1;
            reroll = RollBehaviour::Disadvantage;
        }
        proof {
            assert(token_len == behaviour_len(v@, rr as int));
            assert(reroll == behaviour_kind(v@, rr as int));
        }

        let b = rr + token_len;
        let mut roll_behaviour = reroll;
        let mut modifier: Option<i32> = None;
        if b < v.len() && v[b] == '~' && b + 1 < v.len() && is_digit_exec(v[b + 1]) {
            let fe = scan_run_end(v, b + 1);
            proof {
                lemma_run_end(v@, b + 1);
            }
            let alt_wide = parse_digits(v, b + 1, fe);
            roll_behaviour = RollBehaviour::Fatal;
            modifier = Some(alt_wide as i32);
        }

        let ghost f = frag_die_parse(v@).unwrap();
        let count = count_wide as i32;
        let size = size_wide as i32;
        let ghost template = frag_die_template(f);

        let mut j: i32 = 0;
        while j < count
            invariant
                0 <= j <= count,
                count == f.count,
                size as int == f.size,
                roll_behaviour == f.behaviour,
                (match modifier {
                    Option::Some(a) => a as int,
                    Option::None => 0,
                }) == f.alt,
                template == frag_die_template(f),
                dice_views(dice_vector@) == dice_views(old(dice_vector)@) + Seq::new(
                    j as nat,
                    |k: int| template,
                ),
            decreases count - j,
        {
            let die = DiceBuilder::new().set_roll_max(size).set_roll_behaviour(
                roll_behaviour,
                modifier,
            ).build();
            let ghost dv = die@;
            let ghost views_before = dice_views(dice_vector@);
            dice_vector.push(die);
            proof {
                assert(dv == template);
                assert(dice_views(dice_vector@) =~= views_before.push(dv));
                assert(dice_views(dice_vector@) =~= dice_views(old(dice_vector)@) + Seq::new(
                    (j + 1) as nat,
                    |k: int| template,
                ));
            }
            j = j + 1;
        }
        proof {
            assert(Seq::new(f.count as nat, |k: int| template) =~= dice_of_frag(v@));
        }
    }

    /// Parse a dice notation fragment and append the dice it describes.
    ///
    /// Accepts the grammar `<N>d<S>[AA|A|D]?[~<F>]?` anywhere in the
    /// string; only its leftmost occurrence counts.  A `~F` token makes
    /// the dice `Fatal` with alternate maximum `F`, overriding a reroll
    /// token; otherwise the optional reroll token selects the behaviour.
    pub fn parse_die_elements(dice_vector: &mut Vec<Dice>, notation: &str)
        requires
            frag_tokens_ok(notation@),
        ensures
            dice_views(final(dice_vector)@) == dice_views(old(dice_vector)@) + dice_of_frag(
                notation@,
            ),
    {
        let v = chars_of(notation);
        RollCollection::parse_die_elements_chars(dice_vector, &v);
    }

    /// Appends the static modifiers found in the character vector.
    fn parse_static_elements_chars(
        mod_vector: &mut Vec<StaticModifier>,
        v: &Vec<char>,
        rule_set: &Ruleset,
    )
        requires
            mods_in_range(v@),
        ensures
            mods_views(final(mod_vector)@) == mods_views(old(mod_vector)@) + mods_of(
                v@,
                0,
                *rule_set,
            ),
    {
        let ghost rs = *rule_set;
        let mut i: usize = 0;
        while i < v.len()
            invariant
                i <= v@.len(),
                mods_in_range(v@),
                rs == *rule_set,
                mods_views(old(mod_vector)@) + mods_of(v@, 0, rs) == mods_views(mod_vector@)
                    + mods_of(v@, i as int, rs),
            decreases v@.len() - i,
        {
            let is_sign = v[i] == '+' || v[i] == '-';
            if is_sign && i + 1 < v.len() && is_digit_exec(v[i + 1]) {
                let e = scan_run_end(v, i + 1);
                proof {
                    lemma_run_end(v@, i + 1);
                    assert(mod_start(v@, i as int));
                }
                let mag = parse_digits(v, i + 1, e);
                let value_wide: i64 = if v[i] == '-' {
                    -mag
                } else {
                    mag
                };
                proof {
                    assert(value_wide == mod_value(v@, i as int));
                }
                let value = value_wide as i32;
                let behaviour = match rule_set {
                    Ruleset::PF2e => ModifierBehaviour::CanCritical,
                    Ruleset::DND5e => ModifierBehaviour::OnHit,
                };
                let ghost views_before = mods_views(mod_vector@);
                mod_vector.push(StaticModifier::new(value, behaviour));
                proof {
                    let m = ModSpec { value: value as int, behaviour: default_mod_behaviour(rs) };
                    assert(mods_of(v@, i as int, rs) == seq![m] + mods_of(v@, i + 1, rs));
                    assert(mods_views(mod_vector@) =~= views_before + seq![m]);
                    assert(mods_views(old(mod_vector)@) + mods_of(v@, 0, rs) =~= mods_views(
                        mod_vector@,
                    ) + mods_of(v@, i + 1, rs));
                }
            }
            i = i + 1;
        }
    }

    /// Extract tokens representing static damage modifiers from an input
    /// string: every sign directly followed by digits becomes one
    /// modifier, kept separate rather than summed, with the behaviour the
    /// ruleset assigns to bare bonuses.
    pub fn parse_static_elements(
        mod_vector: &mut Vec<StaticModifier>,
        notation: &str,
        rule_set: &Ruleset,
    )
        requires
            mods_in_range(notation@),
        ensures
            mods_views(final(mod_vector)@) == mods_views(old(mod_vector)@) + mods_of(
                notation@,
                0,
                *rule_set,
            ),
    {
        let v = chars_of(notation);
        RollCollection::parse_static_elements_chars(mod_vector, &v, rule_set);
    }

    /// Take an input string from the user and parse it into the elements
    /// representing the roll: dice fragment by fragment between commas,
    /// static modifiers across the entire string.
    pub fn parse_user_input(notation: &str, rule_mode: Ruleset) -> (rc: RollCollection)
        requires
            notation_ok(notation@),
        ensures
            rc@ == collection_spec(notation@, rule_mode),
    {
        let chars = chars_of(notation);
        let frags = split_commas_exec(&chars);

        let mut dice_vector: Vec<Dice> = Vec::new();
        let mut k: usize = 0;
        while k < frags.len()
            invariant
                notation_ok(notation@),
                k <= frags@.len(),
                frags@.len() == split_commas(notation@).len(),
                forall|t: int| 0 <= t < frags@.len() ==> frags@[t]@ == split_commas(notation@)[t],
                dice_views(dice_vector@) == dice_of_frags_to(split_commas(notation@), k as int),
            decreases frags@.len() - k,
        {
            proof {
                assert(frags@[k as int]@ == split_commas(notation@)[k as int]);
                assert(frag_tokens_ok(split_commas(notation@)[k as int]));
            }
            RollCollection::parse_die_elements_chars(&mut dice_vector, &frags[k]);
            proof {
                assert(dice_views(dice_vector@) == dice_of_frags_to(
                    split_commas(notation@),
                    k + 1,
                ));
            }
            k = k + 1;
        }

        let mut mod_vector: Vec<StaticModifier> = Vec::new();
        RollCollection::parse_static_elements_chars(&mut mod_vector, &chars, &rule_mode);
        proof {
            assert(mods_views(mod_vector@) =~= mods_of(notation@, 0, rule_mode));
            assert(dice_views(dice_vector@) =~= dice_of_notation(notation@));
        }
        RollCollection::new(dice_vector, mod_vector, rule_mode)
    }

    /// Decides whether every die token of one fragment fits the fields.
    fn frag_tokens_fit(v: &Vec<char>) -> (b: bool)
        ensures
            b == frag_tokens_ok(v@),
    {
        let p = find_die_match(v, 0);
        if p == v.len() {
            return true;
        }
        proof {
            lemma_first_die_match(v@, 0);
        }
        let q = scan_run_end(v, p);
        proof {
            lemma_run_end(v@, p as int);
        }
        let rr = scan_run_end(v, q + 1);
        proof {
            lemma_run_end(v@, q + 1);
        }
        if !check_digits_fit(v, p, q, 0x7fff_ffff) {
            return false;
        }
        if !check_digits_fit(v, q + 1, rr, 0x7fff_ffff) {
            return false;
        }

        let mut token_len: usize = 0;
        if rr < v.len() && v[rr] == 'A' && rr + 1 < v.len() && v[rr + 1] == 'A' {
            token_len = 2;
        } else if rr < v.len() && (v[rr] == 'A' || v[rr] == 'D') {
            token_len = 1;
        }
        proof {
            assert(token_len == behaviour_len(v@, rr as int));
        }
        let b_pos = rr + token_len;
        if b_pos < v.len() && v[b_pos] == '~' && b_pos + 1 < v.len() && is_digit_exec(
            v[b_pos + 1],
        ) {
            let fe = scan_run_end(v, b_pos + 1);
            proof {
                lemma_run_end(v@, b_pos + 1);
            }
            return check_digits_fit(v, b_pos + 1, fe, 0x7fff_ffff);
        }
        true
    }

    /// Decides whether every modifier token of the string fits `i32`.
    fn mods_fit(v: &Vec<char>) -> (b: bool)
        ensures
            b == mods_in_range(v@),
    {
        let mut i: usize = 0;
        while i < v.len()
            invariant
                i <= v@.len(),
                forall|j: int|
                    0 <= j < i && #[trigger] mod_start(v@, j) ==> i32::MIN <= mod_value(v@, j)
                        <= i32::MAX,
            decreases v@.len() - i,
        {
            let is_sign = v[i] == '+' || v[i] == '-';
            if is_sign && i + 1 < v.len() && is_digit_exec(v[i + 1]) {
                let e = scan_run_end(v, i + 1);
                proof {
                    lemma_run_end(v@, i + 1);
                    lemma_digits_val_nonneg(v@, i + 1, e as int);
                    assert(mod_start(v@, i as int));
                }
                let limit: i64 = if v[i] == '-' {
                    0x8000_0000
                } else {
                    0x7fff_ffff
                };
                if !check_digits_fit(v, i + 1, e, limit) {
                    proof {
                        assert(!(i32::MIN <= mod_value(v@, i as int) <= i32::MAX));
                    }
                    return false;
                }
            }
            i = i + 1;
        }
        true
    }

    /// Decides whether a notation string parses within the machine
    /// limits, which is exactly what `parse_user_input` asks of it.
    pub fn validate_notation(notation: &str) -> (b: bool)
        ensures
            b == notation_ok(notation@),
    {
        let chars = chars_of(notation);
        let frags = split_commas_exec(&chars);
        let mut k: usize = 0;
        while k < frags.len()
            invariant
                k <= frags@.len(),
                frags@.len() == split_commas(notation@).len(),
                forall|t: int| 0 <= t < frags@.len() ==> frags@[t]@ == split_commas(notation@)[t],
                forall|t: int|
                    0 <= t < k ==> frag_tokens_ok(#[trigger] split_commas(notation@)[t]),
            decreases frags@.len() - k,
        {
            if !RollCollection::frag_tokens_fit(&frags[k]) {
                proof {
                    assert(!frag_tokens_ok(split_commas(notation@)[k as int]));
                }
                return false;
            }
            k = k + 1;
        }
        RollCollection::mods_fit(&chars)
    }

    /// The exact damage bounds of the collection for one hit outcome, in
    /// wide arithmetic.
    pub fn damage_bounds(&self, hit_result: &HitResult) -> (b: (i128, i128))
        ensures
            b.0 == dmg_lo(self@, *hit_result),
            b.1 == dmg_hi(self@, *hit_result),
    {
        let ghost v = self@;
        let ghost h = *hit_result;
        let mut acc_lo: i128 = 0;
        let mut acc_hi: i128 = 0;
        let mut i: usize = 0;
        while i < self.dice.len()
            invariant
                v == self@,
                h == *hit_result,
                i <= v.dice.len(),
                acc_lo == dice_dmg_lo_to(v.dice, h, i as int),
                acc_hi == dice_dmg_hi_to(v.dice, h, i as int),
                -0x1_8000_0000i128 * (i as int) <= acc_lo <= 0x1_8000_0000i128 * (i as int),
                -0x1_8000_0000i128 * (i as int) <= acc_hi <= 0x1_8000_0000i128 * (i as int),
            decreases self.dice@.len() - i,
        {
            proof {
                assert(v.dice[i as int] == self.dice@[i as int]@);
            }
            let bounds = self.dice[i].evaluate_bounds(Some(hit_result));
            acc_lo = acc_lo + bounds.0;
            acc_hi = acc_hi + bounds.1;
            i = i + 1;
        }

        let mut acc_m: i128 = 0;
        let mut j: usize = 0;
        while j < self.modifiers.len()
            invariant
                v == self@,
                h == *hit_result,
                j <= v.mods.len(),
                acc_m == mods_total_to(v.mods, Option::Some(h), j as int),
                -0x1_0000_0000i128 * (j as int) <= acc_m <= 0x1_0000_0000i128 * (j as int),
            decreases self.modifiers@.len() - j,
        {
            proof {
                assert(v.mods[j as int] == self.modifiers@[j as int]@);
            }
            let value = self.modifiers[j].evaluate_wide(hit_result);
            acc_m = acc_m + value;
            j = j + 1;
        }
        (acc_lo + acc_m, acc_hi + acc_m)
    }

    /// Decides whether every die and modifier of the collection can be
    /// evaluated inside `i32`: exactly the rolling precondition.
    pub fn collection_rollable(&self) -> (b: bool)
        ensures
            b == rc_rollable(self@),
    {
        let ghost v = self@;
        let mut i: usize = 0;
        while i < self.dice.len()
            invariant
                v == self@,
                i <= v.dice.len(),
                forall|k: int|
                    0 <= k < i ==> die_wf(#[trigger] v.dice[k]) && die_fits(v.dice[k]),
            decreases self.dice@.len() - i,
        {
            proof {
                assert(v.dice[i as int] == self.dice@[i as int]@);
            }
            let die = &self.dice[i];
            let min = die.min as i64;
            let max = die.max as i64;
            let alt = die.alt_value as i64;
            let fatal = matches!(die.roll_behaviour, RollBehaviour::Fatal);
            let wf_ok = min <= max && (!fatal || min <= alt);
            let fits_ok = (i32::MIN as i64) <= 3 * min && 3 * max <= (i32::MAX as i64) && (!fatal
                || 3 * alt <= (i32::MAX as i64));
            if !(wf_ok && fits_ok) {
                proof {
                    assert(!(die_wf(v.dice[i as int]) && die_fits(v.dice[i as int])));
                }
                return false;
            }
            i = i + 1;
        }

        let mut j: usize = 0;
        while j < self.modifiers.len()
            invariant
                v == self@,
                j <= v.mods.len(),
                forall|k: int| 0 <= k < v.dice.len() ==> die_wf(#[trigger] v.dice[k]) && die_fits(
                    v.dice[k],
                ),
                forall|k: int| 0 <= k < j ==> mod_fits(#[trigger] v.mods[k]),
            decreases self.modifiers@.len() - j,
        {
            proof {
                assert(v.mods[j as int] == self.modifiers@[j as int]@);
            }
            let value = self.modifiers[j].value as i64;
            if !((i32::MIN as i64) <= 2 * value && 2 * value <= (i32::MAX as i64)) {
                proof {
                    assert(!mod_fits(v.mods[j as int]));
                }
                return false;
            }
            j = j + 1;
        }
        true
    }

    /// Decides whether the damage evaluation of the collection stays
    /// inside `i32` for every hit outcome.
    pub fn collection_damage_fits(&self) -> (b: bool)
        ensures
            b == rc_damage_fits(self@),
    {
        let crit_bounds = self.damage_bounds(&HitResult::CriticalHit);
        let hit_bounds = self.damage_bounds(&HitResult::Hit);
        let miss_bounds = self.damage_bounds(&HitResult::Miss);
        let lo_fit = (i32::MIN as i128) <= crit_bounds.0 && (i32::MIN as i128) <= hit_bounds.0 && (
        i32::MIN as i128) <= miss_bounds.0;
        let hi_fit = crit_bounds.1 <= (i32::MAX as i128) && hit_bounds.1 <= (i32::MAX as i128)
            && miss_bounds.1 <= (i32::MAX as i128);
        let ok = lo_fit && hi_fit;
        proof {
            if ok {
                assert forall|h: HitResult| i32::MIN <= #[trigger] dmg_lo(self@, h) by {
                    if h is CriticalHit {
                    } else if h is Hit {
                    } else {
                    }
                }
                assert forall|h: HitResult| #[trigger] dmg_hi(self@, h) <= i32::MAX by {
                    if h is CriticalHit {
                    } else if h is Hit {
                    } else {
                    }
                }
            }
        }
        ok
    }

    /// Sums the modifiers as flat to-hit bonuses (no hit condition).
    fn sum_mods_flat(&self) -> (t: i128)
        ensures
            t == mods_total(self@.mods, Option::<HitResult>::None),
            -0x8000_0000i128 * self@.mods.len() <= t <= 0x8000_0000i128 * self@.mods.len(),
    {
        let mut total: i128 = 0;
        let mut i: usize = 0;
        while i < self.modifiers.len()
            invariant
                i <= self.modifiers@.len(),
                total == mods_total_to(self@.mods, Option::<HitResult>::None, i as int),
                -0x8000_0000i128 * (i as int) <= total <= 0x8000_0000i128 * (i as int),
            decreases self.modifiers@.len() - i,
        {
            let v = self.modifiers[i].evaluate_result(None);
            total = total + (v as i128);
            i = i + 1;
        }
        total
    }

    /// Assess a roll event against a target armour class under D&D 5e
    /// rules.  The result is the 5e resolution of one fresh draw per die
    /// together with the flat modifier total.
    pub fn eval_ac_roll_dnd(&mut self, target_ac: i32) -> (r: HitResult)
        requires
            rc_rollable(old(self)@),
        ensures
            final(self)@ == old(self)@,
            exists|rolls: Seq<int>|
                hit_rolls_valid(old(self)@.dice, rolls) && r == dnd_outcome(
                    old(self)@.dice,
                    rolls,
                    mods_total(old(self)@.mods, Option::<HitResult>::None),
                    target_ac as int,
                ),
    {
        let ghost v0 = self@;
        let nmods = self.modifiers.len();
        let mod_total = self.sum_mods_flat();

        let mut total: i128 = mod_total;
        let mut found20 = false;
        let ghost mut rolls: Seq<int> = Seq::empty();
        let mut i: usize = 0;
        while i < self.dice.len()
            invariant
                rc_rollable(v0),
                i <= self.dice@.len(),
                self@ == v0,
                v0.mods.len() == nmods <= usize::MAX,
                rolls.len() == i,
                forall|k: int|
                    0 <= k < i ==> v0.dice[k].min <= #[trigger] rolls[k] <= v0.dice[k].max,
                total == mods_total(v0.mods, Option::<HitResult>::None) + roll_sum_to(
                    rolls,
                    i as int,
                ),
                -0x8000_0000i128 * (nmods + i) <= total <= 0x8000_0000i128 * (nmods + i),
                found20 == has_nat20(v0.dice, rolls, i as int),
            decreases self.dice@.len() - i,
        {
            assert(v0.dice[i as int] == self.dice@[i as int]@);
            let ghost rolls_before = rolls;
            let roll = self.dice[i].evaluate_result(None);
            proof {
                assert(dice_views(self.dice@) =~= v0.dice);
            }
            let was20 = roll == 20 && self.dice[i].max == 20;
            if was20 {
                found20 = true;
            }
            total = total + (roll as i128);
            proof {
                rolls = rolls.push(roll as int);
                lemma_nat20_push(v0.dice, rolls_before, roll as int, i as int);
                lemma_roll_sum_to_agree(rolls, rolls_before, i as int);
            }
            i = i + 1;
        }

        let r = if found20 {
            HitResult::CriticalHit
        } else if total >= target_ac as i128 {
            HitResult::Hit
        } else {
            HitResult::Miss
        };
        proof {
            assert(hit_rolls_valid(v0.dice, rolls));
            assert(r == dnd_outcome(
                v0.dice,
                rolls,
                mods_total(v0.mods, Option::<HitResult>::None),
                target_ac as int,
            ));
        }
        r
    }

    /// Assess a roll event against a target armour class under Pathfinder
    /// 2e rules.  The result is the tiered resolution of one fresh draw per
    /// die together with the flat modifier total.
    pub fn eval_ac_roll_pathfinder(&mut self, target_ac: i32) -> (r: HitResult)
        requires
            rc_rollable(old(self)@),
        ensures
            final(self)@ == old(self)@,
            exists|rolls: Seq<int>|
                hit_rolls_valid(old(self)@.dice, rolls) && r == pf_outcome(
                    old(self)@.dice,
                    rolls,
                    mods_total(old(self)@.mods, Option::<HitResult>::None),
                    target_ac as int,
                ),
    {
        let ghost v0 = self@;
        let nmods = self.modifiers.len();
        let mod_total = self.sum_mods_flat();

        let mut total: i128 = mod_total;
        let mut success_modifier: i128 = 0;
        let ghost mut rolls: Seq<int> = Seq::empty();
        let mut i: usize = 0;
        while i < self.dice.len()
            invariant
                rc_rollable(v0),
                i <= self.dice@.len(),
                self@ == v0,
                v0.mods.len() == nmods <= usize::MAX,
                rolls.len() == i,
                forall|k: int|
                    0 <= k < i ==> v0.dice[k].min <= #[trigger] rolls[k] <= v0.dice[k].max,
                total == mods_total(v0.mods, Option::<HitResult>::None) + roll_sum_to(
                    rolls,
                    i as int,
                ),
                -0x8000_0000i128 * (nmods + i) <= total <= 0x8000_0000i128 * (nmods + i),
                success_modifier == nat_delta_to(v0.dice, rolls, i as int),
                -(i as int) <= success_modifier <= i as int,
            decreases self.dice@.len() - i,
        {
            assert(v0.dice[i as int] == self.dice@[i as int]@);
            let ghost rolls_before = rolls;
            let roll = self.dice[i].evaluate_result(None);
            proof {
                assert(dice_views(self.dice@) =~= v0.dice);
            }
            if roll == 20 && self.dice[i].max == 20 {
                success_modifier = success_modifier + 1;
            } else if roll == 1 && self.dice[i].max == 20 {
                success_modifier = success_modifier - 1;
            }
            total = total + (roll as i128);
            proof {
                rolls = rolls.push(roll as int);
                lemma_roll_sum_to_agree(rolls, rolls_before, i as int);
                lemma_nat_delta_to_agree(v0.dice, rolls, rolls_before, i as int);
            }
            i = i + 1;
        }

        let diff: i128 = total - (target_ac as i128);
        let state: i128 = if diff >= 10 {
            2
        } else if diff >= 0 {
            1
        } else {
            0
        };
        let shifted: i128 = state + success_modifier;
        let r = if shifted > 1 {
            HitResult::CriticalHit
        } else if shifted == 1 {
            HitResult::Hit
        } else {
            HitResult::Miss
        };
        proof {
            assert(hit_rolls_valid(v0.dice, rolls));
            assert(r == pf_outcome(
                v0.dice,
                rolls,
                mods_total(v0.mods, Option::<HitResult>::None),
                target_ac as int,
            ));
        }
        r
    }

    /// Perform a to-hit roll against a specified armour class, resolved by
    /// the ruleset the collection was built with.
    pub fn roll_against_armour_class(&mut self, target_ac: i32) -> (r: HitResult)
        requires
            rc_rollable(old(self)@),
        ensures
            final(self)@ == old(self)@,
            possible_hit_outcome(old(self)@, target_ac as int, r),
    {
        match self.rule_mode {
            Ruleset::DND5e => self.eval_ac_roll_dnd(target_ac),
            Ruleset::PF2e => self.eval_ac_roll_pathfinder(target_ac),
        }
    }

    /// Roll the collection as a damage roll with a specified hit outcome.
    ///
    /// The modifier contribution is an exact function of the hit outcome;
    /// each die contributes a fresh draw inside its evaluation bounds, so
    /// the total lies between `dmg_lo` and `dmg_hi`.  On a miss only
    /// `OnMiss` modifiers contribute, and the bounds coincide.
    pub fn roll_damage_result(&mut self, hit_result: &HitResult) -> (r: i32)
        requires
            rc_rollable(old(self)@),
            i32::MIN <= dmg_lo(old(self)@, *hit_result),
            dmg_hi(old(self)@, *hit_result) <= i32::MAX,
        ensures
            final(self)@ == old(self)@,
            dmg_lo(old(self)@, *hit_result) <= r <= dmg_hi(old(self)@, *hit_result),
    {
        let ghost v0 = self@;
        let ghost h = *hit_result;

        let mut dice_total: i128 = 0;
        let mut i: usize = 0;
        while i < self.dice.len()
            invariant
                rc_rollable(v0),
                i <= self.dice@.len(),
                self@ == v0,
                hit_result == &h,
                dice_dmg_lo_to(v0.dice, h, i as int) <= dice_total <= dice_dmg_hi_to(
                    v0.dice,
                    h,
                    i as int,
                ),
                -0x8000_0000i128 * (i as int) <= dice_total <= 0x8000_0000i128 * (i as int),
            decreases self.dice@.len() - i,
        {
            assert(v0.dice[i as int] == self.dice@[i as int]@);
            let roll = self.dice[i].evaluate_result(Some(hit_result));
            proof {
                assert(dice_views(self.dice@) =~= v0.dice);
            }
            dice_total = dice_total + (roll as i128);
            i = i + 1;
        }

        let mut mod_total: i128 = 0;
        let mut j: usize = 0;
        while j < self.modifiers.len()
            invariant
                rc_rollable(v0),
                j <= self.modifiers@.len(),
                self@ == v0,
                hit_result == &h,
                mod_total == mods_total_to(v0.mods, Option::Some(h), j as int),
                -0x8000_0000i128 * (j as int) <= mod_total <= 0x8000_0000i128 * (j as int),
            decreases self.modifiers@.len() - j,
        {
            assert(v0.mods[j as int] == self.modifiers@[j as int]@);
            let v = self.modifiers[j].evaluate_result(Some(hit_result));
            mod_total = mod_total + (v as i128);
            j = j + 1;
        }

        let total: i128 = dice_total + mod_total;
        proof {
            assert(dmg_lo(v0, h) <= total <= dmg_hi(v0, h));
        }
        total as i32
    }
}

proof fn lemma_dice_dmg_ordered(dice: Seq<DieSpec>, h: HitResult, n: int)
    requires
        0 <= n <= dice.len(),
        forall|i: int| 0 <= i < dice.len() ==> die_wf(#[trigger] dice[i]),
    ensures
        dice_dmg_lo_to(dice, h, n) <= dice_dmg_hi_to(dice, h, n),
    decreases n,
{
    if n > 0 {
        lemma_dice_dmg_ordered(dice, h, n - 1);
    }
}

/// For a rollable collection the damage bounds are ordered.
pub proof fn lemma_dmg_lo_le_hi(v: RcView, h: HitResult)
    requires
        rc_rollable(v),
    ensures
        dmg_lo(v, h) <= dmg_hi(v, h),
{
    lemma_dice_dmg_ordered(v.dice, h, v.dice.len() as int);
}

/// A natural twenty on any twenty-sided die resolves to a critical hit
/// under the D&D 5e rules, whatever the flat bonus and however large the
/// target value is.
pub proof fn lemma_natural_twenty_is_critical(
    dice: Seq<DieSpec>,
    rolls: Seq<int>,
    mod_total: int,
    target: int,
    k: int,
)
    requires
        hit_rolls_valid(dice, rolls),
        0 <= k < dice.len(),
        dice[k].max == 20,
        rolls[k] == 20,
    ensures
        dnd_outcome(dice, rolls, mod_total, target) == HitResult::CriticalHit,
{
    assert(has_nat20(dice, rolls, dice.len() as int));
}

/// Under the D&D 5e rules, a collection holding a die that can only roll
/// twenty on a twenty-sided face can resolve to nothing but a critical
/// hit, whatever the target: every outcome `roll_against_armour_class`
/// can produce is pinned.
pub proof fn lemma_pinned_twenty_is_critical(v: RcView, target: int, hr: HitResult, k: int)
    requires
        v.ruleset is DND5e,
        0 <= k < v.dice.len(),
        v.dice[k].min == 20,
        v.dice[k].max == 20,
        possible_hit_outcome(v, target, hr),
    ensures
        hr == HitResult::CriticalHit,
{
    let rolls = choose|rolls: Seq<int>|
        hit_rolls_valid(v.dice, rolls) && hr == collection_outcome(v, rolls, target);
    assert(rolls[k] == 20);
    lemma_natural_twenty_is_critical(
        v.dice,
        rolls,
        mods_total(v.mods, Option::<HitResult>::None),
        target,
        k,
    );
}

/// Without any twenty-sided die the tier adjustment vanishes.
proof fn lemma_no_d20_no_delta(dice: Seq<DieSpec>, rolls: Seq<int>, n: int)
    requires
        forall|i: int| 0 <= i < dice.len() ==> #[trigger] dice[i].max != 20,
        n <= dice.len(),
    ensures
        nat_delta_to(dice, rolls, n) == 0,
    decreases n,
{
    if n > 0 {
        lemma_no_d20_no_delta(dice, rolls, n - 1);
    }
}

/// When no twenty-sided die takes part, a margin of at least ten over the
/// target resolves to a critical hit under the Pathfinder 2e rules.
pub proof fn lemma_tiered_margin_is_critical(
    dice: Seq<DieSpec>,
    rolls: Seq<int>,
    mod_total: int,
    target: int,
)
    requires
        hit_rolls_valid(dice, rolls),
        forall|i: int| 0 <= i < dice.len() ==> #[trigger] dice[i].max != 20,
        roll_sum(rolls) + mod_total - target >= 10,
    ensures
        pf_outcome(dice, rolls, mod_total, target) == HitResult::CriticalHit,
{
    lemma_no_d20_no_delta(dice, rolls, dice.len() as int);
}

/// When no twenty-sided die takes part, a total short of the target
/// resolves to a miss under the Pathfinder 2e rules.
pub proof fn lemma_tiered_short_is_miss(
    dice: Seq<DieSpec>,
    rolls: Seq<int>,
    mod_total: int,
    target: int,
)
    requires
        hit_rolls_valid(dice, rolls),
        forall|i: int| 0 <= i < dice.len() ==> #[trigger] dice[i].max != 20,
        roll_sum(rolls) + mod_total - target < 0,
    ensures
        pf_outcome(dice, rolls, mod_total, target) == HitResult::Miss,
{
    lemma_no_d20_no_delta(dice, rolls, dice.len() as int);
}

/// A natural one on a lone twenty-sided die pulls a roll that reached the
/// critical tier down to an ordinary hit under the Pathfinder 2e rules.
pub proof fn lemma_tiered_natural_one_downgrades(
    dice: Seq<DieSpec>,
    rolls: Seq<int>,
    mod_total: int,
    target: int,
)
    requires
        hit_rolls_valid(dice, rolls),
        dice.len() == 1,
        dice[0].max == 20,
        rolls[0] == 1,
        rolls[0] + mod_total - target >= 10,
    ensures
        pf_outcome(dice, rolls, mod_total, target) == HitResult::Hit,
{
    assert(roll_sum_to(rolls, 0) == 0);
    assert(nat_delta_to(dice, rolls, 0) == 0);
    assert(roll_sum(rolls) == rolls[0]);
    assert(nat_delta(dice, rolls) == -1);
}

} // verus!

