//! Character-level primitives shared by the notation parsers: digit runs,
//! numeric values, the `NdS` die pattern, and comma splitting.  The
//! specification functions here are the authoritative description of the
//! notation grammar; the executable scanners are proved equal to them.

use vstd::prelude::*;
use vstd::string::StrSliceExecFns;

verus! {

/// An ASCII decimal digit.
pub open spec fn is_digit_char(c: char) -> bool {
    48 <= c as u32 <= 57
}

/// The numeric value of one ASCII digit.
pub open spec fn digit_val(c: char) -> int {
    c as u32 - 48
}

/// First position at or after `i` that does not hold a digit, so the
/// maximal digit run starting at `i` is `[i, run_end(s, i))`.
pub open spec fn run_end(s: Seq<char>, i: int) -> int
    decreases s.len() - i,
{
    if i < 0 || i >= s.len() {
        i
    } else if is_digit_char(s[i]) {
        run_end(s, i + 1)
    } else {
        i
    }
}

pub proof fn lemma_run_end(s: Seq<char>, i: int)
    requires
        0 <= i <= s.len(),
    ensures
        i <= run_end(s, i) <= s.len(),
        forall|k: int| i <= k < run_end(s, i) ==> is_digit_char(s[k]),
        run_end(s, i) < s.len() ==> !is_digit_char(s[run_end(s, i)]),
    decreases s.len() - i,
{
    if i < s.len() && is_digit_char(s[i]) {
        lemma_run_end(s, i + 1);
    }
}

/// The value of the digit string `s[i..j)`, most significant digit first.
pub open spec fn digits_val(s: Seq<char>, i: int, j: int) -> int
    decreases j - i,
{
    if j <= i {
        0
    } else {
        digits_val(s, i, j - 1) * 10 + digit_val(s[j - 1])
    }
}

pub proof fn lemma_digits_val_nonneg(s: Seq<char>, i: int, j: int)
    requires
        forall|k: int| i <= k < j ==> is_digit_char(s[k]),
    ensures
        digits_val(s, i, j) >= 0,
    decreases j - i,
{
    if j > i {
        lemma_digits_val_nonneg(s, i, j - 1);
    }
}

/// A digit string's value never shrinks as the string is extended.
pub proof fn lemma_digits_val_monotone(s: Seq<char>, i: int, j: int, k: int)
    requires
        i <= j <= k,
        forall|m: int| i <= m < k ==> is_digit_char(s[m]),
    ensures
        digits_val(s, i, j) <= digits_val(s, i, k),
    decreases k - j,
{
    if j < k {
        lemma_digits_val_monotone(s, i, j, k - 1);
        lemma_digits_val_nonneg(s, i, k - 1);
    }
}

/// A digit string's value does not depend on where its characters sit.
pub proof fn lemma_digits_val_subrange(s: Seq<char>, a: int, b: int, j: int)
    requires
        0 <= a <= b <= s.len(),
        0 <= j <= b - a,
    ensures
        digits_val(s.subrange(a, b), 0, j) == digits_val(s, a, a + j),
    decreases j,
{
    if j > 0 {
        lemma_digits_val_subrange(s, a, b, j - 1);
    }
}

/// The `NdS` pattern begins at `p`: a digit run, the letter `d`, a digit.
pub open spec fn die_match_at(s: Seq<char>, p: int) -> bool {
    &&& 0 <= p < s.len()
    &&& is_digit_char(s[p])
    &&& run_end(s, p) + 1 < s.len()
    &&& s[run_end(s, p)] == 'd'
    &&& is_digit_char(s[run_end(s, p) + 1])
}

/// Leftmost position at or after `i` where the `NdS` pattern begins, or
/// the length of `s` when there is none.
pub open spec fn first_die_match(s: Seq<char>, i: int) -> int
    decreases s.len() - i,
{
    if i < 0 || i >= s.len() {
        s.len() as int
    } else if die_match_at(s, i) {
        i
    } else {
        first_die_match(s, i + 1)
    }
}

pub proof fn lemma_first_die_match(s: Seq<char>, i: int)
    requires
        0 <= i <= s.len(),
    ensures
        i <= first_die_match(s, i) <= s.len(),
        first_die_match(s, i) < s.len() ==> die_match_at(s, first_die_match(s, i)),
        forall|k: int| i <= k < first_die_match(s, i) ==> !die_match_at(s, k),
    decreases s.len() - i,
{
    if i < s.len() && !die_match_at(s, i) {
        lemma_first_die_match(s, i + 1);
    }
}

/// Leftmost comma at or after `i`, or the length of `s` when there is none.
pub open spec fn first_comma(s: Seq<char>, i: int) -> int
    decreases s.len() - i,
{
    if i < 0 || i >= s.len() {
        s.len() as int
    } else if s[i] == ',' {
        i
    } else {
        first_comma(s, i + 1)
    }
}

pub proof fn lemma_first_comma(s: Seq<char>, i: int)
    requires
        0 <= i <= s.len(),
    ensures
        i <= first_comma(s, i) <= s.len(),
    decreases s.len() - i,
{
    if i < s.len() && s[i] != ',' {
        lemma_first_comma(s, i + 1);
    }
}

#[via_fn]
proof fn split_commas_decreases(s: Seq<char>) {
    lemma_first_comma(s, 0);
}

/// The comma-separated fragments of a notation string, in order; a string
/// without commas is one fragment, and empty fragments are kept.
pub open spec fn split_commas(s: Seq<char>) -> Seq<Seq<char>>
    decreases s.len(),
    via split_commas_decreases
{
    let c = first_comma(s, 0);
    if c == s.len() {
        seq![s]
    } else {
        seq![s.subrange(0, c)] + split_commas(s.subrange(c + 1, s.len() as int))
    }
}

/// A static modifier token begins at `i`: a sign directly followed by a
/// digit.
pub open spec fn mod_start(s: Seq<char>, i: int) -> bool {
    &&& 0 <= i
    &&& i + 1 < s.len()
    &&& (s[i] == '+' || s[i] == '-')
    &&& is_digit_char(s[i + 1])
}

/// The signed value of the modifier token beginning at `i`.
pub open spec fn mod_value(s: Seq<char>, i: int) -> int {
    let mag = digits_val(s, i + 1, run_end(s, i + 1));
    if s[i] == '-' {
        -mag
    } else {
        mag
    }
}

/// Sum of all modifier tokens at or after `i`.
pub open spec fn mods_value_sum(s: Seq<char>, i: int) -> int
    decreases s.len() - i,
{
    if i < 0 || i >= s.len() {
        0
    } else if mod_start(s, i) {
        mod_value(s, i) + mods_value_sum(s, i + 1)
    } else {
        mods_value_sum(s, i + 1)
    }
}

/// Sum of the positive modifier tokens at or after `i`.
pub open spec fn mods_pos_sum(s: Seq<char>, i: int) -> int
    decreases s.len() - i,
{
    if i < 0 || i >= s.len() {
        0
    } else if mod_start(s, i) && mod_value(s, i) > 0 {
        mod_value(s, i) + mods_pos_sum(s, i + 1)
    } else {
        mods_pos_sum(s, i + 1)
    }
}

/// Sum of the negative modifier tokens at or after `i`.
pub open spec fn mods_neg_sum(s: Seq<char>, i: int) -> int
    decreases s.len() - i,
{
    if i < 0 || i >= s.len() {
        0
    } else if mod_start(s, i) && mod_value(s, i) < 0 {
        mod_value(s, i) + mods_neg_sum(s, i + 1)
    } else {
        mods_neg_sum(s, i + 1)
    }
}

/// Every modifier token of the string has a value an `i32` can hold.
pub open spec fn mods_in_range(s: Seq<char>) -> bool {
    forall|i: int| #[trigger] mod_start(s, i) ==> i32::MIN <= mod_value(s, i) <= i32::MAX
}

/// The partial sums of the modifier tokens stay inside `i32`: enough that
/// the negative tokens and the positive tokens each sum inside it.
pub open spec fn mods_sum_in_range(s: Seq<char>) -> bool {
    &&& mods_in_range(s)
    &&& i32::MIN <= mods_neg_sum(s, 0)
    &&& mods_pos_sum(s, 0) <= i32::MAX
}

/// Suffix sums of the positive tokens stay non-negative, those of the
/// negative tokens non-positive, and the full suffix sum lies between.
proof fn lemma_mods_sum_signs(s: Seq<char>, i: int)
    requires
        0 <= i <= s.len(),
    ensures
        mods_pos_sum(s, i) >= 0,
        mods_neg_sum(s, i) <= 0,
        mods_neg_sum(s, i) <= mods_value_sum(s, i) <= mods_pos_sum(s, i),
    decreases s.len() - i,
{
    if i < s.len() {
        lemma_mods_sum_signs(s, i + 1);
    }
}

/// Sums every signed modifier token of the string.  The token values and
/// their positive and negative partial sums must fit in `i32`; the result
/// is their exact sum.
pub fn sum_static_tokens(v: &Vec<char>) -> (total: i32)
    requires
        mods_sum_in_range(v@),
    ensures
        total == mods_value_sum(v@, 0),
{
    proof {
        lemma_mods_sum_signs(v@, 0);
    }
    let mut acc: i32 = 0;
    let ghost mut pos_acc: int = 0;
    let ghost mut neg_acc: int = 0;
    let mut i: usize = 0;
    while i < v.len()
        invariant
            mods_sum_in_range(v@),
            i <= v@.len(),
            acc + mods_value_sum(v@, i as int) == mods_value_sum(v@, 0),
            pos_acc + mods_pos_sum(v@, i as int) == mods_pos_sum(v@, 0),
            neg_acc + mods_neg_sum(v@, i as int) == mods_neg_sum(v@, 0),
            neg_acc <= acc <= pos_acc,
            0 <= pos_acc <= i32::MAX,
            i32::MIN <= neg_acc <= 0,
        decreases v@.len() - i,
    {
        proof {
            lemma_mods_sum_signs(v@, i as int);
            lemma_mods_sum_signs(v@, i + 1);
        }
        let is_sign = v[i] == '+' || v[i] == '-';
        if is_sign && i + 1 < v.len() && is_digit_exec(v[i + 1]) {
            let e = scan_run_end(v, i + 1);
            proof {
                lemma_run_end(v@, i + 1);
                assert(mod_start(v@, i as int));
            }
            let mag = parse_digits(v, i + 1, e);
            let value_wide: i64 = if v[i] == '-' {
                -mag
            } else {
                mag
            };
            proof {
                assert(value_wide == mod_value(v@, i as int));
            }
            let value = value_wide as i32;
            proof {
                assert(mods_value_sum(v@, i as int) == mod_value(v@, i as int) + mods_value_sum(
                    v@,
                    i + 1,
                ));
                if value > 0 {
                    assert(mods_pos_sum(v@, i as int) == mod_value(v@, i as int) + mods_pos_sum(
                        v@,
                        i + 1,
                    ));
                    assert(mods_neg_sum(v@, i as int) == mods_neg_sum(v@, i + 1));
                    pos_acc = pos_acc + value as int;
                } else if value < 0 {
                    assert(mods_neg_sum(v@, i as int) == mod_value(v@, i as int) + mods_neg_sum(
                        v@,
                        i + 1,
                    ));
                    assert(mods_pos_sum(v@, i as int) == mods_pos_sum(v@, i + 1));
                    neg_acc = neg_acc + value as int;
                } else {
                    assert(mods_pos_sum(v@, i as int) == mods_pos_sum(v@, i + 1));
                    assert(mods_neg_sum(v@, i as int) == mods_neg_sum(v@, i + 1));
                }
            }
            acc = acc + value;
        } else {
            proof {
                assert(mods_value_sum(v@, i as int) == mods_value_sum(v@, i + 1));
                assert(mods_pos_sum(v@, i as int) == mods_pos_sum(v@, i + 1));
                assert(mods_neg_sum(v@, i as int) == mods_neg_sum(v@, i + 1));
            }
        }
        i = i + 1;
    }
    acc
}

/// The characters of a string, as a vector.
pub fn chars_of(s: &str) -> (v: Vec<char>)
    ensures
        v@ == s@,
{
    let n = s.unicode_len();
    let mut v: Vec<char> = Vec::new();
    let mut i: usize = 0;
    while i < n
        invariant
            n == s@.len(),
            i <= n,
            v@ == s@.subrange(0, i as int),
        decreases n - i,
    {
        v.push(s.get_char(i));
        proof {
            assert(v@ =~= s@.subrange(0, i + 1 as int));
        }
        i = i + 1;
    }
    proof {
        assert(v@ =~= s@);
    }
    v
}

/// Returns whether a character is an ASCII decimal digit.
pub fn is_digit_exec(c: char) -> (b: bool)
    ensures
        b == is_digit_char(c),
{
    let u = c as u32;
    48 <= u && u <= 57
}

/// Scans to the end of the maximal digit run starting at `start`.
pub fn scan_run_end(v: &Vec<char>, start: usize) -> (end: usize)
    requires
        start <= v@.len(),
    ensures
        end == run_end(v@, start as int),
        start <= end <= v@.len(),
{
    let mut i = start;
    while i < v.len() && is_digit_exec(v[i])
        invariant
            start <= i <= v@.len(),
            run_end(v@, start as int) == run_end(v@, i as int),
        decreases v@.len() - i,
    {
        i = i + 1;
    }
    i
}

/// Reads the value of the digit run `v[start..end)`; the caller promises
/// that the value does not exceed `2^31`, so it fits comfortably in `i64`.
pub fn parse_digits(v: &Vec<char>, start: usize, end: usize) -> (r: i64)
    requires
        start <= end <= v@.len(),
        forall|k: int| start <= k < end ==> is_digit_char(v@[k]),
        digits_val(v@, start as int, end as int) <= 0x8000_0000,
    ensures
        r == digits_val(v@, start as int, end as int),
        0 <= r <= 0x8000_0000,
{
    proof {
        lemma_digits_val_nonneg(v@, start as int, end as int);
    }
    let mut acc: i64 = 0;
    let mut j = start;
    while j < end
        invariant
            start <= j <= end <= v@.len(),
            forall|k: int| start <= k < end ==> is_digit_char(v@[k]),
            digits_val(v@, start as int, end as int) <= 0x8000_0000,
            acc == digits_val(v@, start as int, j as int),
            0 <= acc,
        decreases end - j,
    {
        proof {
            lemma_digits_val_monotone(v@, start as int, j + 1, end as int);
            lemma_digits_val_nonneg(v@, start as int, j as int);
        }
        let d = (v[j] as u32 - 48) as i64;
        acc = acc * 10 + d;
        j = j + 1;
    }
    acc
}

/// Decides whether the value of the digit run `v[start..end)` stays
/// within `limit`, without ever computing a value beyond it.
pub fn check_digits_fit(v: &Vec<char>, start: usize, end: usize, limit: i64) -> (b: bool)
    requires
        start <= end <= v@.len(),
        forall|k: int| start <= k < end ==> is_digit_char(v@[k]),
        0 <= limit <= 0x8000_0000,
    ensures
        b == (digits_val(v@, start as int, end as int) <= limit),
{
    proof {
        lemma_digits_val_nonneg(v@, start as int, end as int);
    }
    let mut acc: i64 = 0;
    let mut j = start;
    while j < end
        invariant
            start <= j <= end <= v@.len(),
            forall|k: int| start <= k < end ==> is_digit_char(v@[k]),
            0 <= limit <= 0x8000_0000,
            acc == digits_val(v@, start as int, j as int),
            0 <= acc <= limit,
        decreases end - j,
    {
        let d = (v[j] as u32 - 48) as i64;
        acc = acc * 10 + d;
        j = j + 1;
        if acc > limit {
            proof {
                lemma_digits_val_monotone(v@, start as int, j as int, end as int);
            }
            return false;
        }
    }
    true
}

/// Finds the leftmost start of the `NdS` die pattern at or after `start`,
/// or the length of the vector when the pattern is absent.
pub fn find_die_match(v: &Vec<char>, start: usize) -> (p: usize)
    requires
        start <= v@.len(),
    ensures
        p == first_die_match(v@, start as int),
        start <= p <= v@.len(),
{
    let mut p: usize = start;
    while p < v.len()
        invariant
            start <= p <= v@.len(),
            first_die_match(v@, start as int) == first_die_match(v@, p as int),
        decreases v@.len() - p,
    {
        if is_digit_exec(v[p]) {
            let q = scan_run_end(v, p);
            if q < v.len() && v[q] == 'd' && q + 1 < v.len() && is_digit_exec(v[q + 1]) {
                return p;
            }
        }
        proof {
            assert(!die_match_at(v@, p as int));
        }
        p = p + 1;
    }
    p
}

/// Finds the leftmost comma, or the length of the vector when none exists.
pub fn find_comma(v: &Vec<char>) -> (c: usize)
    ensures
        c == first_comma(v@, 0),
        c <= v@.len(),
{
    let mut c: usize = 0;
    while c < v.len()
        invariant
            c <= v@.len(),
            first_comma(v@, 0) == first_comma(v@, c as int),
        decreases v@.len() - c,
    {
        if v[c] == ',' {
            return c;
        }
        c = c + 1;
    }
    c
}

/// Copies the characters of `v[lo..hi)` into a fresh vector.
pub fn copy_range(v: &Vec<char>, lo: usize, hi: usize) -> (out: Vec<char>)
    requires
        lo <= hi <= v@.len(),
    ensures
        out@ == v@.subrange(lo as int, hi as int),
{
    let mut out: Vec<char> = Vec::new();
    let mut i = lo;
    while i < hi
        invariant
            lo <= i <= hi <= v@.len(),
            out@ == v@.subrange(lo as int, i as int),
        decreases hi - i,
    {
        out.push(v[i]);
        proof {
            assert(out@ =~= v@.subrange(lo as int, i + 1 as int));
        }
        i = i + 1;
    }
    out
}

/// Splits a character vector at its commas; the pieces, in order, are
/// exactly `split_commas` of the input.
pub fn split_commas_exec(v: &Vec<char>) -> (frags: Vec<Vec<char>>)
    ensures
        frags@.len() == split_commas(v@).len(),
        forall|i: int| 0 <= i < frags@.len() ==> frags@[i]@ == split_commas(v@)[i],
    decreases v@.len(),
{
    let c = find_comma(v);
    if c == v.len() {
        let whole = copy_range(v, 0, v.len());
        proof {
            assert(whole@ =~= v@);
        }
        let mut out: Vec<Vec<char>> = Vec::new();
        out.push(whole);
        out
    } else {
        let head = copy_range(v, 0, c);
        let tail = copy_range(v, c + 1, v.len());
        let mut rest = split_commas_exec(&tail);
        let mut out: Vec<Vec<char>> = Vec::new();
        out.push(head);
        out.append(&mut rest);
        out
    }
}

} // verus!
