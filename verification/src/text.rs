//! Reading numbers that a user has typed.
//!
//! A count is a whole number. A quantity, such as a side or a speed, is a
//! decimal number of units, with or without a point, and is read into grid
//! steps: the number times the steps that make one unit, cut towards zero.
//! Blank space around a number is passed over, a sign may stand before it.
//! Anything else is no number, and the caller keeps the value it had.

use vstd::prelude::*;
use vstd::arithmetic::div_mod::{lemma_div_denominator, lemma_hoist_over_denominator};
use vstd::string::StrSliceExecFns;

verus! {

/// Whether `c` is blank space: the characters that Unicode counts as white
/// space.
pub open spec fn is_space(c: char) -> bool {
    let u = c as u32;
    ||| 0x09 <= u <= 0x0d
    ||| u == 0x20
    ||| u == 0x85
    ||| u == 0xa0
    ||| u == 0x1680
    ||| 0x2000 <= u <= 0x200a
    ||| u == 0x2028
    ||| u == 0x2029
    ||| u == 0x202f
    ||| u == 0x205f
    ||| u == 0x3000
}

/// Whether `c` is one of the digits `0` to `9`.
pub open spec fn is_digit(c: char) -> bool {
    0x30 <= c as u32 <= 0x39
}

/// The value of a digit.
pub open spec fn digit_of(c: char) -> nat
    recommends
        is_digit(c),
{
    (c as u32 - 0x30) as nat
}

/// The first place at or after `i` that holds no blank space, or the end.
pub open spec fn skip_spaces(s: Seq<char>, i: int) -> int
    decreases s.len() - i,
{
    if 0 <= i < s.len() && is_space(s[i]) {
        skip_spaces(s, i + 1)
    } else {
        i
    }
}

/// The end of the text `s[lo..j]` once the blank space at its end is cut.
pub open spec fn back_spaces(s: Seq<char>, lo: int, j: int) -> int
    decreases j,
{
    if 0 <= lo < j <= s.len() && is_space(s[j - 1]) {
        back_spaces(s, lo, j - 1)
    } else {
        j
    }
}

/// The text without the blank space at its two ends.
pub open spec fn trimmed(s: Seq<char>) -> Seq<char> {
    let from = skip_spaces(s, 0);
    let to = back_spaces(s, from, s.len() as int);
    s.subrange(from, to)
}

/// Whether the text holds digits and nothing else.
pub open spec fn all_digits(s: Seq<char>) -> bool {
    forall|i: int| 0 <= i < s.len() ==> is_digit(#[trigger] s[i])
}

/// The number that a row of digits writes in base ten.
pub open spec fn decimal(s: Seq<char>) -> nat
    decreases s.len(),
{
    if s.len() == 0 {
        0
    } else {
        decimal(s.drop_last()) * 10 + digit_of(s.last())
    }
}

/// The digits of a trimmed text: what follows the sign, where one of the
/// signs allowed stands first, else all of it.
pub open spec fn digits_part(t: Seq<char>, minus_allowed: bool) -> Seq<char> {
    if t.len() > 0 && (t[0] == '+' || (minus_allowed && t[0] == '-')) {
        t.skip(1)
    } else {
        t
    }
}

/// The count that a text holds: blank space, an optional `+`, at least one
/// digit, blank space; and the number fits `usize`.
pub open spec fn count_of(s: Seq<char>) -> Option<usize> {
    let d = digits_part(trimmed(s), false);
    if d.len() > 0 && all_digits(d) && decimal(d) <= usize::MAX {
        Some(decimal(d) as usize)
    } else {
        None
    }
}

/// Ten to the power of `k`.
pub open spec fn pow10(k: nat) -> nat
    decreases k,
{
    if k == 0 {
        1
    } else {
        10 * pow10((k - 1) as nat)
    }
}

/// The first place at or after `i` that holds a point, or the end.
pub open spec fn first_point(s: Seq<char>, i: int) -> int
    decreases s.len() - i,
{
    if 0 <= i < s.len() && s[i] != '.' {
        first_point(s, i + 1)
    } else {
        i
    }
}

/// What stands before the first point of a number.
pub open spec fn whole_part(body: Seq<char>) -> Seq<char> {
    body.take(first_point(body, 0))
}

/// What stands after the first point of a number; nothing where there is no
/// point.
pub open spec fn frac_part(body: Seq<char>) -> Seq<char> {
    let cut = first_point(body, 0);
    if cut < body.len() {
        body.skip(cut + 1)
    } else {
        Seq::empty()
    }
}

/// The grid steps in the number `whole.frac` of units, cut to whole steps:
/// the digits read as one number, times the steps in a unit, divided by ten
/// for every digit after the point.
pub open spec fn steps_of(whole: Seq<char>, frac: Seq<char>, steps_per_unit: int) -> int {
    (decimal(whole + frac) * steps_per_unit) / (pow10(frac.len()) as int)
}

/// The quantity that a text holds, in grid steps: blank space, an optional
/// `+` or `-`, digits with at most one point among them and at least one
/// digit, blank space; and the number of steps fits `i32`. The steps are cut
/// towards zero.
pub open spec fn quantity_of(s: Seq<char>, steps_per_unit: u32) -> Option<i32> {
    let t = trimmed(s);
    let body = digits_part(t, true);
    let whole = whole_part(body);
    let frac = frac_part(body);
    let size = steps_of(whole, frac, steps_per_unit as int);
    let v = if t.len() > 0 && t[0] == '-' {
        -size
    } else {
        size
    };
    if whole.len() + frac.len() > 0 && all_digits(whole) && all_digits(frac) && i32::MIN <= v
        <= i32::MAX {
        Some(v as i32)
    } else {
        None
    }
}

/// A power of ten is positive.
pub proof fn lemma_pow10_positive(k: nat)
    ensures
        pow10(k) > 0,
    decreases k,
{
    if k > 0 {
        lemma_pow10_positive((k - 1) as nat);
    }
}

/// Digits written after other digits: the first number moves up by one
/// place for each digit that follows.
pub proof fn lemma_decimal_concat(a: Seq<char>, b: Seq<char>)
    ensures
        decimal(a + b) == decimal(a) * pow10(b.len()) + decimal(b),
    decreases b.len(),
{
    if b.len() == 0 {
        assert(a + b =~= a);
    } else {
        assert((a + b).drop_last() =~= a + b.drop_last());
        assert((a + b).last() == b.last());
        lemma_decimal_concat(a, b.drop_last());
        let p = pow10(b.drop_last().len()) as int;
        let da = decimal(a) as int;
        let db = decimal(b.drop_last()) as int;
        assert(pow10(b.len()) == 10 * p);
        assert((da * p + db) * 10 == da * (10 * p) + db * 10) by (nonlinear_arith);
    }
}

/// The steps in a number are those in its whole part and those in its
/// fraction, each cut on its own: the whole part loses nothing.
pub proof fn lemma_steps_split(whole: Seq<char>, frac: Seq<char>, steps_per_unit: int)
    requires
        0 <= steps_per_unit,
    ensures
        steps_of(whole, frac, steps_per_unit) == decimal(whole) * steps_per_unit + steps_of(
            Seq::empty(),
            frac,
            steps_per_unit,
        ),
{
    let p = pow10(frac.len());
    let w = decimal(whole) as int;
    let f = decimal(frac) as int;
    lemma_pow10_positive(frac.len());
    lemma_decimal_concat(whole, frac);
    assert(Seq::<char>::empty() + frac =~= frac);
    assert((w * p + f) * steps_per_unit == f * steps_per_unit + (w * steps_per_unit) * p)
        by (nonlinear_arith);
    lemma_hoist_over_denominator(f * steps_per_unit, w * steps_per_unit, p);
}

/// One more digit before a fraction: its steps come from the digit and from
/// the steps of the fraction behind it, which may be cut first.
pub proof fn lemma_steps_digit(digit: char, rest: Seq<char>, steps_per_unit: int)
    requires
        is_digit(digit),
        0 <= steps_per_unit,
    ensures
        steps_of(Seq::empty(), seq![digit] + rest, steps_per_unit) == (digit_of(digit)
            * steps_per_unit + steps_of(Seq::empty(), rest, steps_per_unit)) / 10,
{
    let p = pow10(rest.len());
    let f = digit_of(digit) as int;
    let r = decimal(rest) as int;
    let all = seq![digit] + rest;
    lemma_pow10_positive(rest.len());
    lemma_decimal_concat(seq![digit], rest);
    assert(seq![digit].drop_last() =~= Seq::<char>::empty());
    assert(seq![digit].last() == digit);
    assert(decimal(Seq::<char>::empty()) == 0);
    assert(decimal(seq![digit]) == f);
    assert(Seq::<char>::empty() + rest =~= rest);
    assert(Seq::<char>::empty() + all =~= all);
    assert(pow10(all.len()) == 10 * p);
    let x = (f * p + r) * steps_per_unit;
    assert(x == r * steps_per_unit + (f * steps_per_unit) * p) by (nonlinear_arith)
        requires
            x == (f * p + r) * steps_per_unit,
    ;
    assert(0 <= x) by (nonlinear_arith)
        requires
            x == (f * p + r) * steps_per_unit,
            0 <= f,
            0 <= r,
            0 < p,
            0 <= steps_per_unit,
    ;
    lemma_hoist_over_denominator(r * steps_per_unit, f * steps_per_unit, p);
    lemma_div_denominator(x, p as int, 10);
    assert((p as int) * 10 == 10 * p);
}

/// More digits never write a smaller number.
pub proof fn lemma_decimal_grows(s: Seq<char>, k: int)
    requires
        0 <= k <= s.len(),
    ensures
        decimal(s.take(k)) <= decimal(s),
    decreases s.len(),
{
    if k == s.len() {
        assert(s.take(k) =~= s);
    } else {
        assert(s.drop_last().take(k) =~= s.take(k));
        lemma_decimal_grows(s.drop_last(), k);
    }
}

/// Tells whether a character is blank space.
pub fn char_is_space(c: char) -> (blank: bool)
    ensures
        blank == is_space(c),
{
    let u: u32 = c as u32;
    (0x09 <= u && u <= 0x0d) || u == 0x20 || u == 0x85 || u == 0xa0 || u == 0x1680 || (0x2000 <= u
        && u <= 0x200a) || u == 0x2028 || u == 0x2029 || u == 0x202f || u == 0x205f || u == 0x3000
}

/// The two ends of the text once the blank space around it is cut.
fn trim_ends(text: &str) -> (ends: (usize, usize))
    ensures
        ends.0 == skip_spaces(text@, 0),
        ends.1 == back_spaces(text@, ends.0 as int, text@.len() as int),
        ends.0 <= ends.1 <= text@.len(),
        trimmed(text@) == text@.subrange(ends.0 as int, ends.1 as int),
{
    let n: usize = text.unicode_len();
    let mut from: usize = 0;
    while from < n && char_is_space(text.get_char(from))
        invariant
            from <= n,
            n == text@.len(),
            skip_spaces(text@, 0) == skip_spaces(text@, from as int),
        decreases n - from,
    {
        from += 1;
    }
    let mut to: usize = n;
    while from < to && char_is_space(text.get_char(to - 1))
        invariant
            from <= to <= n,
            n == text@.len(),
            back_spaces(text@, from as int, n as int) == back_spaces(
                text@,
                from as int,
                to as int,
            ),
        decreases to,
    {
        to -= 1;
    }
    (from, to)
}

/// Reads the digits `text[from..to]` as a number of at most `limit`.
///
/// Gives `None` where a character is no digit and where the number is above
/// `limit`. No digits at all write zero.
fn read_digits(text: &str, from: usize, to: usize, limit: u64) -> (value: Option<u64>)
    requires
        from <= to <= text@.len(),
    ensures
        ({
            let d = text@.subrange(from as int, to as int);
            value == (if all_digits(d) && decimal(d) <= limit {
                Some(decimal(d) as u64)
            } else {
                None
            })
        }),
{
    let ghost d = text@.subrange(from as int, to as int);
    let mut acc: u64 = 0;
    let mut i: usize = from;
    assert(d.take(0) =~= Seq::<char>::empty());
    while i < to
        invariant
            from <= i <= to <= text@.len(),
            d == text@.subrange(from as int, to as int),
            all_digits(d.take(i - from)),
            acc == decimal(d.take(i - from)),
            acc <= limit,
        decreases to - i,
    {
        let c: char = text.get_char(i);
        let u: u32 = c as u32;
        assert(d[i - from] == c);
        if u < 0x30 || u > 0x39 {
            return None;
        }
        let digit: u64 = (u - 0x30) as u64;
        proof {
            let next = d.take(i - from + 1);
            assert(next.drop_last() =~= d.take(i - from));
            assert(next.last() == c);
            assert(decimal(next) == acc * 10 + digit);
            assert forall|k: int| 0 <= k < next.len() implies is_digit(#[trigger] next[k]) by {
                if k < i - from {
                    assert(d.take(i - from)[k] == next[k]);
                }
            }
            lemma_decimal_grows(d, i - from + 1);
        }
        if digit > limit || acc > (limit - digit) / 10 {
            return None;
        }
        acc = acc * 10 + digit;
        i += 1;
    }
    assert(d.take(to - from) =~= d);
    Some(acc)
}

/// Tells whether `text[from..to]` holds digits and nothing else.
fn only_digits(text: &str, from: usize, to: usize) -> (ok: bool)
    requires
        from <= to <= text@.len(),
    ensures
        ok == all_digits(text@.subrange(from as int, to as int)),
{
    let ghost d = text@.subrange(from as int, to as int);
    let mut i: usize = from;
    while i < to
        invariant
            from <= i <= to <= text@.len(),
            d == text@.subrange(from as int, to as int),
            forall|k: int| 0 <= k < i - from ==> is_digit(#[trigger] d[k]),
        decreases to - i,
    {
        let u: u32 = text.get_char(i) as u32;
        if u < 0x30 || u > 0x39 {
            assert(!is_digit(d[i - from]));
            return false;
        }
        i += 1;
    }
    true
}

/// Finds the first point in `text[from..to]`, or `to` where there is none.
fn find_point(text: &str, from: usize, to: usize) -> (cut: usize)
    requires
        from <= to <= text@.len(),
    ensures
        from <= cut <= to,
        cut - from == first_point(text@.subrange(from as int, to as int), 0),
{
    let ghost d = text@.subrange(from as int, to as int);
    let mut i: usize = from;
    while i < to && text.get_char(i) != '.'
        invariant
            from <= i <= to <= text@.len(),
            d == text@.subrange(from as int, to as int),
            first_point(d, 0) == first_point(d, i - from),
        decreases to - i,
    {
        assert(d[i - from] == text@[i as int]);
        i += 1;
    }
    assert(i < to ==> d[i - from] == text@[i as int]);
    i
}

/// The grid steps in the fraction whose digits are `text[from..to]`.
///
/// The digits are gone through from the last to the first, so that nothing
/// is lost however many there are.
fn fraction_steps(text: &str, from: usize, to: usize, steps_per_unit: u32) -> (steps: u64)
    requires
        from <= to <= text@.len(),
        all_digits(text@.subrange(from as int, to as int)),
    ensures
        steps == steps_of(
            Seq::empty(),
            text@.subrange(from as int, to as int),
            steps_per_unit as int,
        ),
        steps <= steps_per_unit,
{
    let ghost d = text@.subrange(from as int, to as int);
    let mut acc: u64 = 0;
    let mut i: usize = to;
    proof {
        assert(d.skip(to - from) =~= Seq::<char>::empty());
        assert(Seq::<char>::empty() + Seq::<char>::empty() =~= Seq::<char>::empty());
        assert(pow10(0) == 1);
        assert(decimal(Seq::<char>::empty()) == 0);
        assert(0 * (steps_per_unit as int) == 0);
    }
    while i > from
        invariant
            from <= i <= to <= text@.len(),
            d == text@.subrange(from as int, to as int),
            all_digits(d),
            acc == steps_of(Seq::empty(), d.skip(i - from), steps_per_unit as int),
            acc <= steps_per_unit,
        decreases i,
    {
        i -= 1;
        let c: char = text.get_char(i);
        assert(d[i - from] == c);
        assert(is_digit(c));
        let digit: u64 = (c as u32 - 0x30) as u64;
        proof {
            assert(d.skip(i - from) =~= seq![c] + d.skip(i - from + 1));
            lemma_steps_digit(c, d.skip(i - from + 1), steps_per_unit as int);
        }
        assert(digit * (steps_per_unit as u64) <= 9 * 0xffff_ffff) by (nonlinear_arith)
            requires
                digit <= 9,
                steps_per_unit <= 0xffff_ffff,
        ;
        assert((digit * steps_per_unit + acc) / 10 <= steps_per_unit) by (nonlinear_arith)
            requires
                digit <= 9,
                0 <= acc <= steps_per_unit,
        ;
        acc = (digit * (steps_per_unit as u64) + acc) / 10;
    }
    assert(d.skip(0) =~= d);
    acc
}

/// Reads a count from a text field.
pub fn parse_count(text: &str) -> (count: Option<usize>)
    ensures
        count == count_of(text@),
{
    let (from, to) = trim_ends(text);
    let ghost t = trimmed(text@);
    let start: usize = if from < to && text.get_char(from) == '+' {
        from + 1
    } else {
        from
    };
    assert(digits_part(t, false) =~= text@.subrange(start as int, to as int));
    if start == to {
        return None;
    }
    match read_digits(text, start, to, usize::MAX as u64) {
        Some(v) => Some(v as usize),
        None => None,
    }
}

/// Reads a quantity, such as a side or a speed, from a text field, into grid
/// steps.
pub fn parse_quantity(text: &str, steps_per_unit: u32) -> (quantity: Option<i32>)
    ensures
        quantity == quantity_of(text@, steps_per_unit),
{
    let (from, to) = trim_ends(text);
    let ghost t = trimmed(text@);
    let first: char = if from < to {
        text.get_char(from)
    } else {
        ' '
    };
    let minus: bool = from < to && first == '-';
    let start: usize = if from < to && (first == '+' || first == '-') {
        from + 1
    } else {
        from
    };
    let ghost body = digits_part(t, true);
    assert(body =~= text@.subrange(start as int, to as int));
    let cut: usize = find_point(text, start, to);
    let after: usize = if cut < to {
        cut + 1
    } else {
        to
    };
    let ghost whole = whole_part(body);
    let ghost frac = frac_part(body);
    assert(whole =~= text@.subrange(start as int, cut as int));
    assert(frac =~= text@.subrange(after as int, to as int));
    if cut - start == 0 && to - after == 0 {
        return None;
    }
    if !only_digits(text, start, cut) || !only_digits(text, after, to) {
        return None;
    }
    proof {
        lemma_steps_split(whole, frac, steps_per_unit as int);
    }
    let part: u64 = fraction_steps(text, after, to, steps_per_unit);
    if steps_per_unit == 0 {
        assert(decimal(whole) * 0 == 0);
        return Some(0);
    }
    let units: u64 = match read_digits(text, start, cut, 0x8000_0000) {
        Some(w) => w,
        None => {
            assert(decimal(whole) * steps_per_unit > 0x8000_0000) by (nonlinear_arith)
                requires
                    decimal(whole) > 0x8000_0000,
                    steps_per_unit >= 1,
            ;
            return None;
        },
    };
    assert(units * steps_per_unit <= 0x8000_0000 * 0xffff_ffff) by (nonlinear_arith)
        requires
            units <= 0x8000_0000,
            steps_per_unit <= 0xffff_ffff,
    ;
    let size: u64 = units * (steps_per_unit as u64) + part;
    if minus {
        if size > 0x8000_0000 {
            None
        } else {
            Some((-(size as i64)) as i32)
        }
    } else {
        if size > 0x7fff_ffff {
            None
        } else {
            Some(size as i32)
        }
    }
}

} // verus!
