//! The earliest weapon model kept alongside the current one: a count of
//! dice of one size and a flat damage modifier, read from the plain
//! `NdS+M` notation.

use vstd::prelude::*;

use crate::dice::{die_group_wf, sum_draws};
use crate::notation::{
    digits_val, is_digit_char, is_digit_exec, chars_of, copy_range, lemma_digits_val_monotone,
    lemma_digits_val_subrange, lemma_run_end, run_end, scan_run_end,
};

verus! {

/// Leftmost `d` or `+` at or after `i`, or the length of `s` when there
/// is none.
pub open spec fn first_sep(s: Seq<char>, i: int) -> int
    decreases s.len() - i,
{
    if i < 0 || i >= s.len() {
        s.len() as int
    } else if s[i] == 'd' || s[i] == '+' {
        i
    } else {
        first_sep(s, i + 1)
    }
}

proof fn lemma_first_sep(s: Seq<char>, i: int)
    requires
        0 <= i <= s.len(),
    ensures
        i <= first_sep(s, i) <= s.len(),
    decreases s.len() - i,
{
    if i < s.len() && !(s[i] == 'd' || s[i] == '+') {
        lemma_first_sep(s, i + 1);
    }
}

#[via_fn]
proof fn split_seps_decreases(s: Seq<char>) {
    lemma_first_sep(s, 0);
}

/// The pieces of a string split at every `d` and `+`, in order, empty
/// pieces kept.
pub open spec fn split_seps(s: Seq<char>) -> Seq<Seq<char>>
    decreases s.len(),
    via split_seps_decreases
{
    let c = first_sep(s, 0);
    if c == s.len() {
        seq![s]
    } else {
        seq![s.subrange(0, c)] + split_seps(s.subrange(c + 1, s.len() as int))
    }
}

/// The digits of a token after its optional sign.
pub open spec fn token_body(t: Seq<char>) -> Seq<char> {
    if t.len() > 0 && (t[0] == '+' || t[0] == '-') {
        t.subrange(1, t.len() as int)
    } else {
        t
    }
}

/// The signed value a token stands for, when it is well formed.
pub open spec fn token_signed(t: Seq<char>) -> int {
    let mag = digits_val(token_body(t), 0, token_body(t).len() as int);
    if t.len() > 0 && t[0] == '-' {
        -mag
    } else {
        mag
    }
}

/// A token parses as an `i32`: an optional sign, at least one digit,
/// nothing else, and a value inside the type's range.
pub open spec fn token_i32(t: Seq<char>) -> Option<int> {
    if token_body(t).len() > 0 && (forall|k: int|
        0 <= k < token_body(t).len() ==> is_digit_char(token_body(t)[k])) && i32::MIN
        <= token_signed(t) <= i32::MAX {
        Option::Some(token_signed(t))
    } else {
        Option::None
    }
}

/// What a weapon notation string describes: exactly three tokens split
/// at `d` and `+`, each a well-formed `i32` — dice count, die size and
/// flat modifier.
pub open spec fn weapon_parse(s: Seq<char>) -> Option<(int, int, int)> {
    let toks = split_seps(s);
    if toks.len() == 3 {
        match (token_i32(toks[0]), token_i32(toks[1]), token_i32(toks[2])) {
            (Option::Some(n), Option::Some(d), Option::Some(m)) => Option::Some((n, d, m)),
            _ => Option::None,
        }
    } else {
        Option::None
    }
}

/// The notation string could not be read as `NdS+M`.
#[derive(Debug, PartialEq, Eq, Structural, Clone, Copy)]
pub struct WeaponParseError;

/// The earliest representation of one weapon's damage expression.
#[derive(Debug, PartialEq)]
pub struct Weapon {
    pub number_die: i32,
    pub max_roll: i32,
    pub damage_modifier: i32,
}

/// Finds the leftmost `d` or `+`, or the length when none exists.
fn find_sep(v: &Vec<char>) -> (c: usize)
    ensures
        c == first_sep(v@, 0),
        c <= v@.len(),
{
    let mut c: usize = 0;
    while c < v.len()
        invariant
            c <= v@.len(),
            first_sep(v@, 0) == first_sep(v@, c as int),
        decreases v@.len() - c,
    {
        if v[c] == 'd' || v[c] == '+' {
            return c;
        }
        c = c + 1;
    }
    c
}

/// Splits a character vector at its `d` and `+` characters.
fn split_seps_exec(v: &Vec<char>) -> (toks: Vec<Vec<char>>)
    ensures
        toks@.len() == split_seps(v@).len(),
        forall|i: int| 0 <= i < toks@.len() ==> toks@[i]@ == split_seps(v@)[i],
    decreases v@.len(),
{
    let c = find_sep(v);
    if c == v.len() {
        let whole = copy_range(v, 0, v.len());
        proof {
            assert(whole@ =~= v@);
        }
        let mut out: Vec<Vec<char>> = Vec::new();
        out.push(whole);
        out
    } else {
        let head = copy_range(v, 0, c);
        let tail = copy_range(v, c + 1, v.len());
        let mut rest = split_seps_exec(&tail);
        let mut out: Vec<Vec<char>> = Vec::new();
        out.push(head);
        out.append(&mut rest);
        out
    }
}

/// Reads a token as an `i32`: an optional sign, digits, nothing else.
fn parse_i32_token(v: &Vec<char>) -> (r: Option<i32>)
    ensures
        match token_i32(v@) {
            Option::Some(x) => r is Some && r.unwrap() as int == x,
            Option::None => r is None,
        },
{
    let ghost t = v@;
    let has_sign = v.len() > 0 && (v[0] == '+' || v[0] == '-');
    let start: usize = if has_sign {
        1
    } else {
        0
    };
    let negative = v.len() > 0 && v[0] == '-';
    proof {
        assert(token_body(t) =~= t.subrange(start as int, t.len() as int));
    }
    if start == v.len() {
        return None;
    }
    let e = scan_run_end(v, start);
    proof {
        lemma_run_end(t, start as int);
    }
    if e != v.len() {
        proof {
            assert(!is_digit_char(token_body(t)[e - start]));
        }
        return None;
    }
    proof {
        assert(forall|k: int|
            0 <= k < token_body(t).len() ==> is_digit_char(#[trigger] token_body(t)[k]));
        lemma_digits_val_subrange(t, start as int, t.len() as int, t.len() - start);
    }

    let mut acc: i64 = 0;
    let mut j: usize = start;
    while j < v.len()
        invariant
            t == v@,
            start <= j <= t.len(),
            forall|k: int| start <= k < t.len() ==> is_digit_char(t[k]),
            acc == digits_val(t, start as int, j as int),
            0 <= acc <= 0x8000_0000,
            token_body(t) =~= t.subrange(start as int, t.len() as int),
            digits_val(token_body(t), 0, token_body(t).len() as int) == digits_val(
                t,
                start as int,
                t.len() as int,
            ),
        decreases t.len() - j,
    {
        let d = (v[j] as u32 - 48) as i64;
        acc = acc * 10 + d;
        j = j + 1;
        if acc > 0x8000_0000 {
            proof {
                lemma_digits_val_monotone(t, start as int, j as int, t.len() as int);
            }
            return None;
        }
    }

    if negative {
        let wide: i64 = -acc;
        Some(wide as i32)
    } else {
        if acc > 0x7fff_ffff {
            return None;
        }
        Some(acc as i32)
    }
}

impl Weapon {
    pub fn new(number_die: i32, die_size: i32, damage_modifier: i32) -> (w: Weapon)
        requires
            die_size < i32::MAX,
        ensures
            w.number_die == number_die,
            w.max_roll == die_size + 1,
            w.damage_modifier == damage_modifier,
    {
        Weapon { number_die, max_roll: die_size + 1, damage_modifier }
    }

    /// A weapon that rolls no dice and adds nothing.
    pub fn create_empty() -> (w: Weapon)
        ensures
            w.number_die == 0,
            w.max_roll == 1,
            w.damage_modifier == 0,
    {
        let number_die: i32 = 0;
        let die_size: i32 = 0;
        let damage_modifier: i32 = 0;
        Weapon::new(number_die, die_size, damage_modifier)
    }

    /// Read a weapon from the plain `NdS+M` notation: exactly the three
    /// numeric tokens that splitting at `d` and `+` leaves, or an error.
    pub fn from_notation_string(notation: &str) -> (r: Result<Weapon, WeaponParseError>)
        requires
            (weapon_parse(notation@) matches Option::Some(t) ==> t.1 < i32::MAX),
        ensures
            r is Ok <==> weapon_parse(notation@) is Some,
            r is Ok ==> {
                let t = weapon_parse(notation@).unwrap();
                &&& r.unwrap().number_die as int == t.0
                &&& r.unwrap().max_roll as int == t.1 + 1
                &&& r.unwrap().damage_modifier as int == t.2
            },
    {
        let v = chars_of(notation);
        let toks = split_seps_exec(&v);
        if toks.len() != 3 {
            return Err(WeaponParseError);
        }
        let number_die = parse_i32_token(&toks[0]);
        let die_size = parse_i32_token(&toks[1]);
        let damage_modifier = parse_i32_token(&toks[2]);
        match (number_die, die_size, damage_modifier) {
            (Some(n), Some(d), Some(m)) => Ok(Weapon::new(n, d, m)),
            _ => Err(WeaponParseError),
        }
    }

    /// Roll the weapon's damage: one draw per die between one and the die
    /// size, plus the flat modifier.
    pub fn roll_damage(&self, dice_roller: &mut rand::rngs::ThreadRng) -> (r: i32)
        requires
            self.number_die >= 0,
            self.number_die > 0 ==> self.max_roll >= 2,
            self.number_die * (self.max_roll - 1) <= i32::MAX,
            self.number_die * (self.max_roll - 1) + self.damage_modifier <= i32::MAX,
            self.number_die + self.damage_modifier >= i32::MIN,
        ensures
            self.number_die + self.damage_modifier <= r <= self.number_die * (self.max_roll - 1)
                + self.damage_modifier,
    {
        let dmg_roll: i32 = if self.number_die > 0 {
            sum_draws(dice_roller, self.number_die, self.max_roll - 1)
        } else {
            0
        };
        dmg_roll + self.damage_modifier
    }
}

} // verus!
