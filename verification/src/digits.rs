//! Digit classification and positional-weight arithmetic shared by the
//! numeric literal rules.

use vstd::prelude::*;

verus! {

/// The numeric value of a digit byte; 16 when the byte is no digit at all,
/// so that it fails the digit test of every supported base.
pub open spec fn digit_value(b: u8) -> int {
    if 48 <= b <= 57 {
        b - 48
    } else if 65 <= b <= 70 {
        b - 55
    } else if 97 <= b <= 102 {
        b - 87
    } else {
        16
    }
}

/// Whether `b` is a digit of the given base (one of 2, 8, 10 or 16).
pub open spec fn is_digit(b: u8, base: int) -> bool {
    digit_value(b) < base
}

/// The numeric value of a digit byte; 16 when the byte is no digit.
pub fn digit_of(b: u8) -> (d: u8)
    ensures
        d == digit_value(b),
{
    if 48 <= b && b <= 57 {
        b - 48
    } else if 65 <= b && b <= 70 {
        b - 55
    } else if 97 <= b && b <= 102 {
        b - 87
    } else {
        16
    }
}

/// The first position at or after `i` that holds no digit of `base`; the
/// input's length when digits reach to the end.
pub open spec fn digit_run_end(s: Seq<u8>, i: int, base: int) -> int
    decreases s.len() - i,
    when 0 <= i <= s.len()
{
    if i < s.len() && is_digit(s[i], base) {
        digit_run_end(s, i + 1, base)
    } else {
        i
    }
}

/// Every byte before `digit_run_end(s, i, base)` is a digit of `base`, and
/// the byte at that position, if any, is not.
pub proof fn lemma_digit_run_end(s: Seq<u8>, i: int, base: int)
    requires
        0 <= i <= s.len(),
    ensures
        i <= digit_run_end(s, i, base) <= s.len(),
        forall|j: int| i <= j < digit_run_end(s, i, base) ==> is_digit(#[trigger] s[j], base),
        digit_run_end(s, i, base) < s.len() ==> !is_digit(s[digit_run_end(s, i, base)], base),
    decreases s.len() - i,
{
    if i < s.len() && is_digit(s[i], base) {
        lemma_digit_run_end(s, i + 1, base);
    }
}

/// The value of a digit string under positional-weight arithmetic.
pub open spec fn base_value(digits: Seq<u8>, base: int) -> int
    decreases digits.len(),
{
    if digits.len() == 0 {
        0
    } else {
        base_value(digits.drop_last(), base) * base + digit_value(digits.last())
    }
}

pub proof fn lemma_base_value_nonneg(digits: Seq<u8>, base: int)
    requires
        base >= 2,
    ensures
        base_value(digits, base) >= 0,
    decreases digits.len(),
{
    if digits.len() > 0 {
        lemma_base_value_nonneg(digits.drop_last(), base);
        assert(base_value(digits.drop_last(), base) * base >= 0) by (nonlinear_arith)
            requires
                base >= 2,
                base_value(digits.drop_last(), base) >= 0,
        ;
    }
}

/// A digit string is worth at least as much as any of its prefixes, so a
/// prefix that already overflows settles the whole string's fate.
pub proof fn lemma_base_value_prefix(digits: Seq<u8>, k: int, base: int)
    requires
        base >= 2,
        0 <= k <= digits.len(),
    ensures
        base_value(digits.subrange(0, k), base) <= base_value(digits, base),
    decreases digits.len() - k,
{
    if k == digits.len() {
        assert(digits.subrange(0, k) =~= digits);
    } else {
        let shorter = digits.subrange(0, k);
        let longer = digits.subrange(0, k + 1);
        assert(longer.drop_last() =~= shorter);
        lemma_base_value_nonneg(shorter, base);
        assert(base_value(shorter, base) * base + digit_value(longer.last()) >= base_value(
            shorter,
            base,
        )) by (nonlinear_arith)
            requires
                base >= 2,
                base_value(shorter, base) >= 0,
                digit_value(longer.last()) >= 0,
        ;
        lemma_base_value_prefix(digits, k + 1, base);
    }
}

/// The end of the run of base-`base` digits that starts at `start`.
pub(crate) fn scan_digits(input: &[u8], start: usize, base: u64) -> (e: usize)
    requires
        base == 2 || base == 8 || base == 10 || base == 16,
        start <= input@.len(),
    ensures
        e == digit_run_end(input@, start as int, base as int),
        start <= e <= input@.len(),
{
    let mut j = start;
    while j < input.len() && (digit_of(input[j]) as u64) < base
        invariant
            start <= j <= input@.len(),
            base == 2 || base == 8 || base == 10 || base == 16,
            digit_run_end(input@, start as int, base as int) == digit_run_end(
                input@,
                j as int,
                base as int,
            ),
        decreases input@.len() - j,
    {
        proof {
            assert(is_digit(input@[j as int], base as int));
            assert(digit_run_end(input@, j as int, base as int) == digit_run_end(
                input@,
                j + 1,
                base as int,
            ));
        }
        j = j + 1;
    }
    proof {
        assert(digit_run_end(input@, j as int, base as int) == j as int);
    }
    j
}

/// Converts the digit run `input[start..end]` to a 64-bit value; `None` when
/// the run's value does not fit in 64 bits.
pub(crate) fn digits_to_u64(input: &[u8], start: usize, end: usize, base: u64) -> (r: Option<u64>)
    requires
        base == 2 || base == 8 || base == 10 || base == 16,
        start <= end <= input@.len(),
        forall|j: int| start <= j < end ==> is_digit(#[trigger] input@[j], base as int),
    ensures
        match r {
            Some(v) => v == base_value(input@.subrange(start as int, end as int), base as int),
            None => base_value(input@.subrange(start as int, end as int), base as int) > u64::MAX,
        },
{
    let mut acc: u64 = 0;
    let mut j = start;
    while j < end
        invariant
            base == 2 || base == 8 || base == 10 || base == 16,
            start <= j <= end <= input@.len(),
            forall|k: int| start <= k < end ==> is_digit(#[trigger] input@[k], base as int),
            acc == base_value(input@.subrange(start as int, j as int), base as int),
        decreases end - j,
    {
        let d = digit_of(input[j]);
        proof {
            let done = input@.subrange(start as int, j as int);
            let next = input@.subrange(start as int, j + 1);
            assert(next.drop_last() =~= done);
            assert(base_value(next, base as int) == acc * base + digit_value(input@[j as int]));
        }
        let wide = match acc.checked_mul(base) {
            Some(w) => w,
            None => {
                proof {
                    overflow_settles(input@, start as int, j as int, end as int, base as int);
                }
                return None;
            },
        };
        let grown = match wide.checked_add(d as u64) {
            Some(g) => g,
            None => {
                proof {
                    overflow_settles(input@, start as int, j as int, end as int, base as int);
                }
                return None;
            },
        };
        acc = grown;
        j = j + 1;
    }
    proof {
        assert(input@.subrange(start as int, j as int) =~= input@.subrange(
            start as int,
            end as int,
        ));
    }
    Some(acc)
}

/// The decimal digit string of a nonnegative number, most significant digit
/// first, with no leading zero except for the number zero itself.
pub open spec fn dec_digits(n: int) -> Seq<u8>
    decreases n,
    when n >= 0
{
    if n <= 9 {
        seq![(n + 48) as u8]
    } else {
        dec_digits(n / 10).push((n % 10 + 48) as u8)
    }
}

/// The decimal digit string of a number holds only decimal digits, starts
/// with a nonzero digit when the number is positive, and is worth the
/// number itself.
pub proof fn lemma_dec_digits(n: int)
    requires
        n >= 0,
    ensures
        dec_digits(n).len() >= 1,
        forall|j: int| 0 <= j < dec_digits(n).len() ==> is_digit(#[trigger] dec_digits(n)[j], 10),
        n >= 1 ==> 49 <= dec_digits(n)[0] <= 57,
        base_value(dec_digits(n), 10) == n,
    decreases n,
{
    if n <= 9 {
        let d = dec_digits(n);
        assert(d == seq![(n + 48) as u8]);
        assert(d.drop_last() =~= Seq::<u8>::empty());
        assert(base_value(d.drop_last(), 10) == 0);
        assert(base_value(d, 10) == digit_value((n + 48) as u8));
    } else {
        lemma_dec_digits(n / 10);
        let prefix = dec_digits(n / 10);
        let whole = dec_digits(n);
        assert(whole.drop_last() =~= prefix);
        assert(whole.last() == (n % 10 + 48) as u8);
        vstd::arithmetic::div_mod::lemma_fundamental_div_mod(n, 10);
        assert(base_value(whole, 10) == (n / 10) * 10 + (n % 10));
    }
}

/// Digits reach from `i` to the end exactly when every byte from `i` on is
/// a digit.
pub proof fn lemma_digit_run_full(s: Seq<u8>, i: int, base: int)
    requires
        0 <= i <= s.len(),
        forall|j: int| i <= j < s.len() ==> is_digit(#[trigger] s[j], base),
    ensures
        digit_run_end(s, i, base) == s.len(),
    decreases s.len() - i,
{
    if i < s.len() {
        lemma_digit_run_full(s, i + 1, base);
    }
}

/// The decimal digit string of a 64-bit number, as `dec_digits` gives it.
pub fn decimal_digits(n: u64) -> (out: Vec<u8>)
    ensures
        out@ == dec_digits(n as int),
    decreases n,
{
    if n <= 9 {
        let mut out: Vec<u8> = Vec::new();
        out.push((n as u8) + 48);
        proof {
            assert(out@ =~= dec_digits(n as int));
        }
        out
    } else {
        let mut out = decimal_digits(n / 10);
        out.push(((n % 10) as u8) + 48);
        proof {
            assert(out@ =~= dec_digits(n as int));
        }
        out
    }
}

/// When the digits up to and including position `j` are already worth more
/// than `u64::MAX`, so is the whole run.
proof fn overflow_settles(s: Seq<u8>, start: int, j: int, end: int, base: int)
    requires
        base >= 2,
        0 <= start <= j < end <= s.len(),
        base_value(s.subrange(start, j + 1), base) > u64::MAX,
    ensures
        base_value(s.subrange(start, end), base) > u64::MAX,
{
    let run = s.subrange(start, end);
    assert(run.subrange(0, j + 1 - start) =~= s.subrange(start, j + 1));
    lemma_base_value_prefix(run, j + 1 - start, base);
}

} // verus!
