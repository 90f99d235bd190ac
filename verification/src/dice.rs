//! The atomic random-number source of a roll: bounds, a reroll behaviour,
//! and an alternate maximum used by `Fatal` dice on critical hits.

use vstd::prelude::*;

use crate::rng::{draw_std, draw_thread, rng_from_os, rng_from_seed};
use crate::{HitResult, Reroll, RollBehaviour};

verus! {

/// Mathematical model of a die: its bounds, behaviour and alternate maximum.
/// The generator state is deliberately absent; no contract depends on it.
pub ghost struct DieSpec {
    pub min: int,
    pub max: int,
    pub behaviour: RollBehaviour,
    pub alt: int,
}

/// A die is well formed when a draw cannot be asked of an empty range.
pub open spec fn die_wf(d: DieSpec) -> bool {
    &&& d.min <= d.max
    &&& d.behaviour is Fatal ==> d.min <= d.alt
}

/// Every result a die can produce fits in `i32`: at most three draws are
/// ever summed, so it is enough that three times each bound does.
pub open spec fn die_fits(d: DieSpec) -> bool {
    &&& i32::MIN <= 3 * d.min
    &&& 3 * d.max <= i32::MAX
    &&& d.behaviour is Fatal ==> 3 * d.alt <= i32::MAX
}

/// Smallest value `evaluate_result` can return under a given hit condition.
pub open spec fn eval_lo(d: DieSpec, cond: Option<HitResult>) -> int {
    match cond {
        Option::None => d.min,
        Option::Some(h) => match h {
            HitResult::Miss => 0,
            HitResult::Hit => if d.behaviour is ExclusiveCrit {
                0
            } else {
                d.min
            },
            HitResult::CriticalHit => match d.behaviour {
                RollBehaviour::Fatal => 3 * d.min,
                RollBehaviour::ExclusiveCrit => d.min,
                _ => 2 * d.min,
            },
        },
    }
}

/// Largest value `evaluate_result` can return under a given hit condition.
pub open spec fn eval_hi(d: DieSpec, cond: Option<HitResult>) -> int {
    match cond {
        Option::None => d.max,
        Option::Some(h) => match h {
            HitResult::Miss => 0,
            HitResult::Hit => if d.behaviour is ExclusiveCrit {
                0
            } else {
                d.max
            },
            HitResult::CriticalHit => match d.behaviour {
                RollBehaviour::Fatal => 3 * d.alt,
                RollBehaviour::ExclusiveCrit => d.max,
                _ => 2 * d.max,
            },
        },
    }
}

/// A representation of a single rollable die with its own generator.
#[derive(Debug)]
pub struct Dice {
    pub max: i32,
    pub min: i32,
    pub roll_behaviour: RollBehaviour,
    pub alt_value: i32,
    pub rng_element: rand::rngs::StdRng,
}

impl View for Dice {
    type V = DieSpec;

    open spec fn view(&self) -> DieSpec {
        DieSpec {
            min: self.min as int,
            max: self.max as int,
            behaviour: self.roll_behaviour,
            alt: self.alt_value as int,
        }
    }
}

// The generator state never takes part in comparisons.
impl PartialEq for Dice {
    fn eq(&self, other: &Self) -> (r: bool) {
        self.min == other.min && self.max == other.max && self.roll_behaviour
            == other.roll_behaviour && self.alt_value == other.alt_value
    }
}

impl vstd::std_specs::cmp::PartialEqSpecImpl for Dice {
    open spec fn obeys_eq_spec() -> bool {
        true
    }

    open spec fn eq_spec(&self, other: &Self) -> bool {
        self@ == other@
    }
}

impl Dice {
    /// Creates a new die with the default 1d4 shape and a fresh generator.
    pub fn new() -> (d: Dice)
        ensures
            d@ == (DieSpec { min: 1, max: 4, behaviour: RollBehaviour::Standard, alt: 0 }),
    {
        Dice {
            min: 1,
            max: 4,
            roll_behaviour: RollBehaviour::Standard,
            alt_value: 0,
            rng_element: rng_from_os(),
        }
    }

    /// Returns the result of a single draw between the regular bounds.
    pub fn make_roll(&mut self) -> (r: i32)
        requires
            old(self)@.min <= old(self)@.max < i32::MAX,
        ensures
            final(self)@ == old(self)@,
            old(self)@.min <= r <= old(self)@.max,
    {
        draw_std(&mut self.rng_element, self.min, self.max)
    }

    /// Returns the result of a single draw up to the alternate maximum.
    pub fn make_alt_roll(&mut self) -> (r: i32)
        requires
            old(self)@.min <= old(self)@.alt < i32::MAX,
        ensures
            final(self)@ == old(self)@,
            old(self)@.min <= r <= old(self)@.alt,
    {
        draw_std(&mut self.rng_element, self.min, self.alt_value)
    }

    /// The smallest and largest value `evaluate_result` can return under
    /// a hit condition, computed at run time in wide arithmetic.
    pub fn evaluate_bounds(&self, hit_condition: Option<&HitResult>) -> (b: (i128, i128))
        ensures
            b.0 == eval_lo(self@, crate::static_modifier::cond_view(hit_condition)),
            b.1 == eval_hi(self@, crate::static_modifier::cond_view(hit_condition)),
    {
        let min = self.min as i128;
        let max = self.max as i128;
        let alt = self.alt_value as i128;
        match hit_condition {
            None => (min, max),
            Some(h) => match h {
                HitResult::Miss => (0, 0),
                HitResult::Hit => match self.roll_behaviour {
                    RollBehaviour::ExclusiveCrit => (0, 0),
                    _ => (min, max),
                },
                HitResult::CriticalHit => match self.roll_behaviour {
                    RollBehaviour::Fatal => (3 * min, 3 * alt),
                    RollBehaviour::ExclusiveCrit => (min, max),
                    _ => (2 * min, 2 * max),
                },
            },
        }
    }

    /// Assess the value of the die for one instance of application.
    ///
    /// Without a hit condition the reroll behaviour selects the best or
    /// worst of up to three draws; with one, the condition and behaviour
    /// select how many draws are summed, `Miss` always giving zero.  The
    /// result always lies between `eval_lo` and `eval_hi`.
    pub fn evaluate_result(&mut self, hit_condition: Option<&HitResult>) -> (r: i32)
        requires
            die_wf(old(self)@),
            die_fits(old(self)@),
        ensures
            final(self)@ == old(self)@,
            eval_lo(old(self)@, crate::static_modifier::cond_view(hit_condition)) <= r <= eval_hi(
                old(self)@,
                crate::static_modifier::cond_view(hit_condition),
            ),
    {
        if let Some(hit_result) = hit_condition {
            match (hit_result, &self.roll_behaviour) {
                (HitResult::CriticalHit, RollBehaviour::Fatal) => {
                    self.make_alt_roll() + self.make_alt_roll() + self.make_alt_roll()
                },
                (HitResult::CriticalHit, RollBehaviour::ExclusiveCrit) => self.make_roll(),
                (HitResult::CriticalHit, _) => self.make_roll() + self.make_roll(),
                (HitResult::Hit, RollBehaviour::ExclusiveCrit) => 0,
                (HitResult::Hit, _) => self.make_roll(),
                (_, _) => 0,
            }
        } else {
            match self.roll_behaviour {
                RollBehaviour::DoubleAdvantage => {
                    let first = self.make_roll();
                    let second = self.make_roll();
                    let third = self.make_roll();
                    let best = if first >= second {
                        first
                    } else {
                        second
                    };
                    if best >= third {
                        best
                    } else {
                        third
                    }
                },
                RollBehaviour::Advantage => {
                    let first = self.make_roll();
                    let second = self.make_roll();
                    if first >= second {
                        first
                    } else {
                        second
                    }
                },
                RollBehaviour::Disadvantage => {
                    let first = self.make_roll();
                    let second = self.make_roll();
                    if first <= second {
                        first
                    } else {
                        second
                    }
                },
                _ => self.make_roll(),
            }
        }
    }
}

/// A homogeneous group of dice of the earlier model: a count of dice of
/// one size, rolled together with a shared external generator.
#[derive(Debug, PartialEq, Eq, Structural, Clone, Copy)]
pub struct Die {
    pub n_die: i32,
    pub die_size: i32,
}

impl View for Die {
    type V = (int, int);

    open spec fn view(&self) -> (int, int) {
        (self.n_die as int, self.die_size as int)
    }
}

/// The group can be rolled: a non-empty group needs a positive die size,
/// and the largest possible total must fit in `i32`.
pub open spec fn die_group_wf(count: int, size: int) -> bool {
    &&& count >= 0
    &&& count > 0 ==> 1 <= size < i32::MAX
    &&& count * size <= i32::MAX
}

impl Die {
    pub fn new(n_die: i32, s_die: i32) -> (d: Die)
        ensures
            d@ == (n_die as int, s_die as int),
    {
        Die { n_die, die_size: s_die }
    }

    /// Roll the group: the sum of one draw in `[1, size]` per die.
    pub fn roll(&self, roll_element: &mut rand::rngs::ThreadRng) -> (r: i32)
        requires
            die_group_wf(self@.0, self@.1),
        ensures
            self@.0 <= r <= self@.0 * self@.1,
    {
        sum_draws(roll_element, self.n_die, self.die_size)
    }
}

/// Sums `count` draws of `[1, size]` from the thread-local generator.
pub(crate) fn sum_draws(
    roll_element: &mut rand::rngs::ThreadRng,
    count: i32,
    size: i32,
) -> (r: i32)
    requires
        die_group_wf(count as int, size as int),
    ensures
        count <= r <= count * size,
{
    let mut acc: i32 = 0;
    let mut k: i32 = 0;
    while k < count
        invariant
            0 <= k <= count,
            die_group_wf(count as int, size as int),
            k <= acc <= k * size,
            k * size <= count * size,
        decreases count - k,
    {
        proof {
            assert((k + 1) * size == k * size + size && (k + 1) * size <= count * size)
                by (nonlinear_arith)
                requires
                    0 <= k < count,
                    size >= 1,
            ;
        }
        let draw = draw_thread(roll_element, 1, size);
        acc = acc + draw;
        k = k + 1;
    }
    acc
}

/// Mathematical model of a die group of the earlier model, with its
/// reroll behaviour and optional fatal size.
pub ghost struct DcSpec {
    pub count: int,
    pub size: int,
    pub reroll: Reroll,
    pub fatal: Option<int>,
}

/// A homogeneous group of dice with a reroll behaviour and an optional
/// fatal size, rolled with a shared external generator.
#[derive(Debug, PartialEq)]
pub struct DiceCollection {
    pub n_die: i32,
    pub die_size: i32,
    pub reroll: Reroll,
    pub fatal_size: Option<i32>,
}

impl View for DiceCollection {
    type V = DcSpec;

    open spec fn view(&self) -> DcSpec {
        DcSpec {
            count: self.n_die as int,
            size: self.die_size as int,
            reroll: self.reroll,
            fatal: match self.fatal_size {
                Option::Some(f) => Option::Some(f as int),
                Option::None => Option::None,
            },
        }
    }
}

/// The group can be rolled, on ordinary and on critical results, without
/// leaving `i32`.
pub open spec fn dc_wf(d: DcSpec) -> bool {
    &&& d.count >= 0
    &&& d.count > 0 ==> 1 <= d.size < i32::MAX
    &&& d.count > 0 ==> (d.fatal matches Option::Some(f) ==> 1 <= f < i32::MAX)
    &&& d.count * d.size <= i32::MAX
    &&& dc_crit_hi(d) <= i32::MAX
}

/// Smallest critical-damage total of the group: three draws per die with
/// a fatal size, two per die otherwise.
pub open spec fn dc_crit_lo(d: DcSpec) -> int {
    match d.fatal {
        Option::Some(f) => 3 * d.count,
        Option::None => 2 * d.count,
    }
}

/// Largest critical-damage total of the group.
pub open spec fn dc_crit_hi(d: DcSpec) -> int {
    match d.fatal {
        Option::Some(f) => 3 * d.count * f,
        Option::None => 2 * d.count * d.size,
    }
}

impl DiceCollection {
    pub fn new(n_die: i32, die_size: i32, reroll: Reroll) -> (d: DiceCollection)
        ensures
            d@ == (DcSpec {
                count: n_die as int,
                size: die_size as int,
                reroll,
                fatal: Option::None,
            }),
    {
        DiceCollection { n_die, die_size, reroll, fatal_size: None }
    }

    /// Mark the group as fatal: critical hits roll it as triple dice of
    /// this larger size.
    pub fn set_fatal(&mut self, fatal_size: i32)
        ensures
            final(self)@ == (DcSpec { fatal: Option::Some(fatal_size as int), ..old(self)@ }),
    {
        self.fatal_size = Some(fatal_size);
    }

    /// One effective draw of a single die of the group, honouring the
    /// reroll behaviour: the best of up to three draws, or the worst of
    /// two, always inside `[1, size]`.
    fn draw_one(&self, roll_element: &mut rand::rngs::ThreadRng) -> (r: i32)
        requires
            1 <= self@.size < i32::MAX,
        ensures
            1 <= r <= self@.size,
    {
        match self.reroll {
            Reroll::Standard => draw_thread(roll_element, 1, self.die_size),
            Reroll::Advantage => {
                let first = draw_thread(roll_element, 1, self.die_size);
                let second = draw_thread(roll_element, 1, self.die_size);
                if first >= second {
                    first
                } else {
                    second
                }
            },
            Reroll::DoubleAdvantage => {
                let first = draw_thread(roll_element, 1, self.die_size);
                let second = draw_thread(roll_element, 1, self.die_size);
                let third = draw_thread(roll_element, 1, self.die_size);
                let best = if first >= second {
                    first
                } else {
                    second
                };
                if best >= third {
                    best
                } else {
                    third
                }
            },
            Reroll::Disadvantage => {
                let first = draw_thread(roll_element, 1, self.die_size);
                let second = draw_thread(roll_element, 1, self.die_size);
                if first <= second {
                    first
                } else {
                    second
                }
            },
        }
    }

    /// Roll the group: one effective draw per die.
    pub fn roll(&self, roll_element: &mut rand::rngs::ThreadRng) -> (r: i32)
        requires
            dc_wf(self@),
        ensures
            self@.count <= r <= self@.count * self@.size,
    {
        let mut acc: i32 = 0;
        let mut k: i32 = 0;
        while k < self.n_die
            invariant
                0 <= k <= self.n_die,
                dc_wf(self@),
                k <= acc <= k * self@.size,
                k * self@.size <= self@.count * self@.size,
            decreases self.n_die - k,
        {
            proof {
                assert((k + 1) * self@.size == k * self@.size + self@.size && (k + 1) * self@.size
                    <= self@.count * self@.size) by (nonlinear_arith)
                    requires
                        0 <= k < self@.count,
                        self@.size >= 1,
                ;
            }
            let draw = self.draw_one(roll_element);
            acc = acc + draw;
            k = k + 1;
        }
        acc
    }

    /// Roll the group for a critical hit: triple dice at the fatal size
    /// when one is set, doubled dice otherwise.
    pub fn roll_critical(&self, roll_element: &mut rand::rngs::ThreadRng) -> (r: i32)
        requires
            dc_wf(self@),
        ensures
            dc_crit_lo(self@) <= r <= dc_crit_hi(self@),
    {
        match self.fatal_size {
            Some(f) => {
                proof {
                    assert(die_group_wf(3 * self@.count, f as int) && 3 * self@.count
                        <= i32::MAX) by (nonlinear_arith)
                        requires
                            dc_wf(self@),
                            self@.fatal == Option::Some(f as int),
                    ;
                }
                let triple = 3 * self.n_die;
                sum_draws(roll_element, triple, f)
            },
            None => {
                let first = self.roll(roll_element);
                let second = self.roll(roll_element);
                proof {
                    assert(2 * self@.count * self@.size == (self@.count * self@.size) + (
                    self@.count * self@.size)) by (nonlinear_arith);
                }
                first + second
            },
        }
    }
}

/// Builder pattern for the Dice struct.
#[derive(Debug, PartialEq)]
pub struct DiceBuilder {
    pub min: i32,
    pub max: i32,
    pub roll_behaviour: RollBehaviour,
    pub alt_value: i32,
    pub rng_seed: Option<u64>,
}

impl View for DiceBuilder {
    type V = DieSpec;

    open spec fn view(&self) -> DieSpec {
        DieSpec {
            min: self.min as int,
            max: self.max as int,
            behaviour: self.roll_behaviour,
            alt: self.alt_value as int,
        }
    }
}

impl DiceBuilder {
    /// Create a new builder with the default 1d4 values.
    pub fn new() -> (b: DiceBuilder)
        ensures
            b@ == (DieSpec { min: 1, max: 4, behaviour: RollBehaviour::Standard, alt: 0 }),
            b.rng_seed is None,
    {
        DiceBuilder {
            min: 1,
            max: 4,
            roll_behaviour: RollBehaviour::Standard,
            alt_value: 0,
            rng_seed: None,
        }
    }

    /// Change the minimum roll value from the default.
    pub fn set_roll_min(self, min: i32) -> (b: DiceBuilder)
        ensures
            b@ == (DieSpec { min: min as int, ..self@ }),
            b.rng_seed == self.rng_seed,
    {
        DiceBuilder { min, ..self }
    }

    /// Change the maximum roll value from the default.
    pub fn set_roll_max(self, max: i32) -> (b: DiceBuilder)
        ensures
            b@ == (DieSpec { max: max as int, ..self@ }),
            b.rng_seed == self.rng_seed,
    {
        DiceBuilder { max, ..self }
    }

    /// Change the roll behaviour, with an alternate maximum for `Fatal`.
    pub fn set_roll_behaviour(self, roll_behaviour: RollBehaviour, alt_value: Option<i32>) -> (b:
        DiceBuilder)
        ensures
            b@ == (DieSpec {
                behaviour: roll_behaviour,
                alt: match alt_value {
                    Option::Some(v) => v as int,
                    Option::None => self@.alt,
                },
                ..self@
            }),
            b.rng_seed == self.rng_seed,
    {
        let mut next = DiceBuilder { roll_behaviour, ..self };
        if let Some(value) = alt_value {
            next.alt_value = value;
        }
        next
    }

    /// Fix the generator seed, making the built die deterministic.
    pub fn set_rng_seed(self, seed: u64) -> (b: DiceBuilder)
        ensures
            b@ == self@,
            b.rng_seed == Some(seed),
    {
        DiceBuilder { rng_seed: Some(seed), ..self }
    }

    /// Return the configured Dice struct.
    pub fn build(self) -> (d: Dice)
        ensures
            d@ == self@,
    {
        let rng_init = match self.rng_seed {
            Some(u) => rng_from_seed(u),
            None => rng_from_os(),
        };

        Dice {
            min: self.min,
            max: self.max,
            roll_behaviour: self.roll_behaviour,
            alt_value: self.alt_value,
            rng_element: rng_init,
        }
    }
}

} // verus!
