//! Numbers written in a fixed base: what the orientation coordinates are made of.
use vstd::prelude::*;

verus! {

/// `base` to the power `n`.
pub open spec fn power(base: int, n: nat) -> int
    decreases n,
{
    if n == 0 {
        1
    } else {
        base * power(base, (n - 1) as nat)
    }
}

/// The number whose digits in the given base are the first `n` entries of
/// `digits`, the first entry being the most significant.
pub open spec fn horner(digits: Seq<int>, base: int, n: nat) -> int
    decreases n,
{
    if n == 0 {
        0
    } else {
        horner(digits, base, (n - 1) as nat) * base + digits[n - 1]
    }
}

/// The digit of `index` in the given base that has `back` digits after it.
pub open spec fn digit(index: int, base: int, back: nat) -> int
    decreases back,
{
    if back == 0 {
        index % base
    } else {
        digit(index / base, base, (back - 1) as nat)
    }
}

/// The sum of the last `n` digits of `index` in the given base.
pub open spec fn digit_sum(index: int, base: int, n: nat) -> int
    decreases n,
{
    if n == 0 {
        0
    } else {
        index % base + digit_sum(index / base, base, (n - 1) as nat)
    }
}

/// The sum of the first `n` entries.
pub open spec fn sum(digits: Seq<int>, n: nat) -> int
    decreases n,
{
    if n == 0 {
        0
    } else {
        sum(digits, (n - 1) as nat) + digits[n - 1]
    }
}

/// The last `n` digits of `index` in the given base, the most significant first.
pub open spec fn digits(index: int, base: int, n: nat) -> Seq<int> {
    Seq::new(n, |k: int| digit(index, base, (n - 1 - k) as nat))
}

/// Every entry of the first `n` is a digit in the given base.
pub open spec fn all_digits(digits: Seq<int>, base: int, n: nat) -> bool {
    n <= digits.len() && forall|k: int| 0 <= k < n ==> 0 <= #[trigger] digits[k] < base
}

/// `index` divided `n` times by the base: what is left when the last `n`
/// digits are dropped.
pub open spec fn shifted(index: int, base: int, n: nat) -> int
    decreases n,
{
    if n == 0 {
        index
    } else {
        shifted(index / base, base, (n - 1) as nat)
    }
}

/// The digits of a number come off one by one from the end.
pub proof fn lemma_digit_step(index: int, base: int, n: nat)
    ensures
        shifted(index, base, n + 1) == shifted(index, base, n) / base,
        digit(index, base, n) == shifted(index, base, n) % base,
        digit_sum(index, base, n + 1) == digit_sum(index, base, n) + digit(index, base, n),
    decreases n,
{
    if n > 0 {
        lemma_digit_step(index / base, base, (n - 1) as nat);
    } else {
        assert(shifted(index, base, 1) == shifted(index / base, base, 0));
        assert(digit_sum(index, base, 1) == index % base + digit_sum(index / base, base, 0));
    }
}

/// The powers of 2 and of 3 that the coordinates need.
pub proof fn lemma_powers()
    ensures
        power(3, 0) == 1,
        power(3, 1) == 3,
        power(3, 2) == 9,
        power(3, 3) == 27,
        power(3, 4) == 81,
        power(3, 5) == 243,
        power(3, 6) == 729,
        power(3, 7) == 2187,
        power(2, 0) == 1,
        power(2, 1) == 2,
        power(2, 2) == 4,
        power(2, 3) == 8,
        power(2, 4) == 16,
        power(2, 5) == 32,
        power(2, 6) == 64,
        power(2, 7) == 128,
        power(2, 8) == 256,
        power(2, 9) == 512,
        power(2, 10) == 1024,
        power(2, 11) == 2048,
{
    reveal_with_fuel(power, 2);
    assert(power(3, 1) == 3);
    assert(power(3, 2) == 9);
    assert(power(3, 3) == 27);
    assert(power(3, 4) == 81);
    assert(power(3, 5) == 243);
    assert(power(3, 6) == 729);
    assert(power(2, 1) == 2);
    assert(power(2, 2) == 4);
    assert(power(2, 3) == 8);
    assert(power(2, 4) == 16);
    assert(power(2, 5) == 32);
    assert(power(2, 6) == 64);
    assert(power(2, 7) == 128);
    assert(power(2, 8) == 256);
    assert(power(2, 9) == 512);
    assert(power(2, 10) == 1024);
}

/// What a number is depends on its digits only.
pub proof fn lemma_horner_ext(a: Seq<int>, b: Seq<int>, base: int, n: nat)
    requires
        forall|k: int| 0 <= k < n ==> a[k] == b[k],
    ensures
        horner(a, base, n) == horner(b, base, n),
        sum(a, n) == sum(b, n),
    decreases n,
{
    if n > 0 {
        lemma_horner_ext(a, b, base, (n - 1) as nat);
    }
}

/// A number of `n` digits is less than the base to the power `n`.
pub proof fn lemma_horner_bound(ds: Seq<int>, base: int, n: nat)
    requires
        base >= 2,
        all_digits(ds, base, n),
    ensures
        0 <= horner(ds, base, n) < power(base, n),
    decreases n,
{
    if n > 0 {
        lemma_horner_bound(ds, base, (n - 1) as nat);
        let h = horner(ds, base, (n - 1) as nat);
        let p = power(base, (n - 1) as nat);
        assert(h * base + ds[n - 1] < base * p && 0 <= h * base) by (nonlinear_arith)
            requires
                0 <= h < p,
                0 <= ds[n - 1] < base,
        ;
    }
}

/// Dividing by the base drops the last digit, and the remainder is that digit.
pub proof fn lemma_shift(h: int, d: int, base: int)
    requires
        base >= 2,
        0 <= h,
        0 <= d < base,
    ensures
        (h * base + d) / base == h,
        (h * base + d) % base == d,
{
    vstd::arithmetic::div_mod::lemma_fundamental_div_mod_converse(h * base + d, base, h, d);
}

/// Writing down the digits of a number and reading them gives the number.
pub proof fn lemma_horner_of_digits(index: int, base: int, n: nat)
    requires
        base >= 2,
        0 <= index < power(base, n),
    ensures
        horner(digits(index, base, n), base, n) == index,
        all_digits(digits(index, base, n), base, n),
        sum(digits(index, base, n), n) == digit_sum(index, base, n),
    decreases n,
{
    if n > 0 {
        let rest = index / base;
        let p = power(base, (n - 1) as nat);
        assert(0 <= rest < p && index == rest * base + index % base && 0 <= index % base < base)
            by (nonlinear_arith)
            requires
                base >= 2,
                0 <= index < base * p,
                rest == index / base,
        ;
        lemma_horner_of_digits(rest, base, (n - 1) as nat);
        lemma_horner_ext(
            digits(index, base, n),
            digits(rest, base, (n - 1) as nat),
            base,
            (n - 1) as nat,
        );
        assert(digits(index, base, n)[n - 1] == index % base);
        assert forall|k: int| 0 <= k < n implies 0 <= #[trigger] digits(index, base, n)[k]
            < base by {
            if k < n - 1 {
                assert(digits(index, base, n)[k] == digits(rest, base, (n - 1) as nat)[k]);
            }
        }
        lemma_digit_sum_order(index, base, n);
    }
}

/// The sum of the digits, taken from the first or from the last.
proof fn lemma_digit_sum_order(index: int, base: int, n: nat)
    ensures
        sum(digits(index, base, n), n) == digit_sum(index, base, n),
    decreases n,
{
    if n > 0 {
        lemma_digit_sum_order(index / base, base, (n - 1) as nat);
        lemma_horner_ext(
            digits(index, base, n),
            digits(index / base, base, (n - 1) as nat),
            base,
            (n - 1) as nat,
        );
    }
}

/// Reading digits as a number and writing down its digits gives the digits.
pub proof fn lemma_digits_of_horner(ds: Seq<int>, base: int, n: nat, back: nat)
    requires
        base >= 2,
        all_digits(ds, base, n),
        back < n,
    ensures
        digit(horner(ds, base, n), base, back) == ds[n - 1 - back],
    decreases n,
{
    let h = horner(ds, base, (n - 1) as nat);
    lemma_horner_bound(ds, base, (n - 1) as nat);
    lemma_shift(h, ds[n - 1], base);
    if back > 0 {
        lemma_digits_of_horner(ds, base, (n - 1) as nat, (back - 1) as nat);
    }
}

} // verus!
