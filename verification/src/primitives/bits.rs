//! Single bits of numbers, stated over division by powers of two.

use vstd::arithmetic::div_mod::{
    lemma_basic_div, lemma_div_denominator, lemma_div_multiples_vanish,
    lemma_fundamental_div_mod, lemma_fundamental_div_mod_converse, lemma_hoist_over_denominator,
    lemma_mod_division_less_than_divisor,
};
use vstd::arithmetic::power2::{
    lemma_pow2_adds, lemma_pow2_pos, lemma_pow2_strictly_increases, lemma_pow2_unfold, pow2,
};
use vstd::prelude::*;

verus! {

/// Whether bit `i` of `x` is 1.
pub open spec fn bit_is_set(x: nat, i: nat) -> bool {
    (x / pow2(i)) % 2 == 1
}

/// `x` with bit `i` toggled.
pub open spec fn flip_bit(x: nat, i: nat) -> nat {
    if bit_is_set(x, i) {
        (x - pow2(i)) as nat
    } else {
        x + pow2(i)
    }
}

/// The highest set bit of `x` among the bits `0..=top`, if there is one.
pub open spec fn highest_set_bit_at_or_below(x: nat, top: nat) -> Option<nat>
    decreases top,
{
    if bit_is_set(x, top) {
        Some(top)
    } else if top == 0 {
        None
    } else {
        highest_set_bit_at_or_below(x, (top - 1) as nat)
    }
}

/// The lowest set bit of `x` among the bits `bottom..=255`, if there is one.
pub open spec fn lowest_set_bit_at_or_above(x: nat, bottom: nat) -> Option<nat>
    decreases 256 - bottom,
{
    if bottom >= 256 {
        None
    } else if bit_is_set(x, bottom) {
        Some(bottom)
    } else {
        lowest_set_bit_at_or_above(x, bottom + 1)
    }
}

/// `2^a * k` divided by `2^b` is `2^(a - b) * k`, for `a >= b`.
pub proof fn lemma_pow2_multiple_div(k: int, a: nat, b: nat)
    requires
        a >= b,
    ensures
        (pow2(a) * k) / (pow2(b) as int) == pow2((a - b) as nat) * k,
        pow2(a) * k == pow2(b) * (pow2((a - b) as nat) * k),
{
    lemma_pow2_adds(b, (a - b) as nat);
    lemma_pow2_pos(b);
    let pb = pow2(b) as int;
    let pd = pow2((a - b) as nat) as int;
    assert(pow2(a) * k == pb * (pd * k)) by (nonlinear_arith)
        requires
            pow2(a) == pb * pd,
    ;
    lemma_div_multiples_vanish(pd * k, pb);
}

/// Adding a multiple of `2^a` shifts the quotient by `2^b`, for `a >= b`, by a multiple of `2^(a - b)`.
pub proof fn lemma_pow2_hoist(x: int, k: int, a: nat, b: nat)
    requires
        a >= b,
    ensures
        (x + pow2(a) * k) / (pow2(b) as int) == x / (pow2(b) as int) + pow2((a - b) as nat) * k,
{
    lemma_pow2_multiple_div(k, a, b);
    lemma_pow2_pos(b);
    let pb = pow2(b);
    let j = pow2((a - b) as nat) * k;
    lemma_hoist_over_denominator(x, j, pb);
    assert(j * pb == pow2(a) * k) by (nonlinear_arith)
        requires
            pow2(a) * k == pb * j,
    ;
}

/// A positive power of two is even.
pub proof fn lemma_pow2_even(e: nat)
    requires
        e > 0,
    ensures
        pow2(e) == 2 * pow2((e - 1) as nat),
{
    lemma_pow2_unfold(e);
}

/// The quotient by `2^(i + n)` is the quotient by `2^i` divided by `2^n`.
pub proof fn lemma_div_pow2_twice(x: nat, i: nat, n: nat)
    ensures
        (x / pow2(i)) / pow2(n) == x / pow2(i + n),
{
    lemma_pow2_pos(i);
    lemma_pow2_pos(n);
    lemma_pow2_adds(i, n);
    lemma_div_denominator(x as int, pow2(i) as int, pow2(n) as int);
}

/// Zero has no set bit.
pub proof fn lemma_bit_of_zero(i: nat)
    ensures
        !bit_is_set(0, i),
{
    lemma_pow2_pos(i);
    lemma_basic_div(0, pow2(i) as int);
}

/// Toggling bit `i` changes bit `i` and no other bit.
pub proof fn lemma_flip_bit(x: nat, i: nat, j: nat)
    ensures
        bit_is_set(flip_bit(x, i), j) == (if j == i {
            !bit_is_set(x, i)
        } else {
            bit_is_set(x, j)
        }),
        bit_is_set(x, i) ==> x >= pow2(i),
{
    lemma_pow2_pos(i);
    lemma_pow2_pos(j);
    let pi = pow2(i) as int;
    let q = (x as int) / pi;
    let r = (x as int) % pi;
    lemma_fundamental_div_mod(x as int, pi);
    lemma_mod_division_less_than_divisor(x as int, pi);
    let sign: int = if bit_is_set(x, i) {
        -1
    } else {
        1
    };
    if bit_is_set(x, i) {
        assert(q >= 1);
        assert(pi * q >= pi) by (nonlinear_arith)
            requires
                q >= 1,
                pi > 0,
        ;
    }
    let y = flip_bit(x, i);
    assert(y == x + pi * sign) by (nonlinear_arith)
        requires
            y == (if sign == -1 {
                x - pi
            } else {
                x + pi
            }),
            sign == 1 || sign == -1,
    ;
    if j <= i {
        lemma_pow2_hoist(x as int, sign, i, j);
        if j < i {
            lemma_pow2_even((i - j) as nat);
            assert(pow2((i - j) as nat) * sign == 2 * (pow2((i - j - 1) as nat) * sign))
                by (nonlinear_arith)
                requires
                    pow2((i - j) as nat) == 2 * pow2((i - j - 1) as nat),
            ;
        } else {
            vstd::arithmetic::power2::lemma2_to64();
            assert(pow2(0) * sign == sign);
        }
    } else {
        lemma_pow2_hoist(x as int, sign, i, i);
        vstd::arithmetic::power2::lemma2_to64();
        assert(pow2(0) * sign == sign);
        assert((y as int) / pi == q + sign);
        assert((q + sign) / 2 == q / 2);
        lemma_div_pow2_twice(x, i, 1);
        lemma_div_pow2_twice(y, i, 1);
        assert(y / pow2(i + 1) == x / pow2(i + 1));
        lemma_div_pow2_twice(x, i + 1, (j - i - 1) as nat);
        lemma_div_pow2_twice(y, i + 1, (j - i - 1) as nat);
    }
}

/// Toggling a bit twice gives the number back.
pub proof fn lemma_flip_bit_twice(x: nat, i: nat)
    ensures
        flip_bit(flip_bit(x, i), i) == x,
{
    lemma_flip_bit(x, i, i);
    lemma_pow2_pos(i);
}

/// Toggling a bit below 256 keeps a number below 2^256.
pub proof fn lemma_flip_bit_bound(x: nat, i: nat)
    requires
        x < pow2(256),
        i < 256,
    ensures
        flip_bit(x, i) < pow2(256),
{
    lemma_pow2_pos(i);
    lemma_flip_bit(x, i, i);
    if !bit_is_set(x, i) {
        let pi = pow2(i) as int;
        let q = (x as int) / pi;
        let r = (x as int) % pi;
        lemma_fundamental_div_mod(x as int, pi);
        lemma_mod_division_less_than_divisor(x as int, pi);
        lemma_pow2_adds(i, (256 - i) as nat);
        let top = pow2((256 - i) as nat) as int;
        lemma_pow2_even((256 - i) as nat);
        assert(q < top) by (nonlinear_arith)
            requires
                pi * q + r < pi * top,
                r >= 0,
                pi > 0,
        ;
        assert(q + 1 < top);
        assert(pi * (q + 1) + r < pi * top) by (nonlinear_arith)
            requires
                q + 2 <= top,
                r < pi,
                pi > 0,
        ;
        assert(x + pi == pi * (q + 1) + r) by (nonlinear_arith)
            requires
                x == pi * q + r,
        ;
    }
}

/// Below `n`, the bits of `x % 2^n` are those of `x`; from `n` on they are clear.
pub proof fn lemma_bit_of_low_bits(x: nat, n: nat, j: nat)
    ensures
        bit_is_set(x % pow2(n), j) == (j < n && bit_is_set(x, j)),
{
    lemma_pow2_pos(n);
    lemma_pow2_pos(j);
    let pn = pow2(n) as int;
    let a = (x as int) / pn;
    let m = (x as int) % pn;
    lemma_fundamental_div_mod(x as int, pn);
    lemma_mod_division_less_than_divisor(x as int, pn);
    if j < n {
        lemma_pow2_hoist(m, a, n, j);
        lemma_pow2_even((n - j) as nat);
        assert(pow2((n - j) as nat) * a == 2 * (pow2((n - j - 1) as nat) * a)) by (nonlinear_arith)
            requires
                pow2((n - j) as nat) == 2 * pow2((n - j - 1) as nat),
        ;
        assert(m + pow2(n) * a == x) by (nonlinear_arith)
            requires
                x == pn * a + m,
                pn == pow2(n),
        ;
    } else {
        if j > n {
            lemma_pow2_strictly_increases(n, j);
        }
        lemma_basic_div(m, pow2(j) as int);
    }
}

/// A number between `2^r` and `2^(r + 1)` has bit `r` set and no bit above it.
pub proof fn lemma_bits_of_bounded(m: nat, r: nat, j: nat)
    requires
        pow2(r) <= m < pow2(r + 1),
    ensures
        bit_is_set(m, r),
        j > r ==> !bit_is_set(m, j),
{
    lemma_pow2_pos(r);
    lemma_pow2_unfold(r + 1);
    lemma_fundamental_div_mod_converse(m as int, pow2(r) as int, 1, m - pow2(r));
    if j > r {
        if j > r + 1 {
            lemma_pow2_strictly_increases(r + 1, j);
        }
        lemma_basic_div(m as int, pow2(j) as int);
    }
}

/// From `n` on, the bits of `x - x % 2^n` are those of `x`; below `n` they are clear.
pub proof fn lemma_bit_of_high_bits(x: nat, n: nat, j: nat)
    ensures
        x >= x % pow2(n),
        bit_is_set((x - x % pow2(n)) as nat, j) == (j >= n && bit_is_set(x, j)),
{
    lemma_pow2_pos(n);
    lemma_pow2_pos(j);
    let pn = pow2(n) as int;
    let a = (x as int) / pn;
    let m = (x as int) % pn;
    lemma_fundamental_div_mod(x as int, pn);
    lemma_mod_division_less_than_divisor(x as int, pn);
    let h = (x - x % pow2(n)) as nat;
    assert(h == pow2(n) * a);
    if j < n {
        lemma_pow2_multiple_div(a, n, j);
        lemma_pow2_even((n - j) as nat);
        assert(pow2((n - j) as nat) * a == 2 * (pow2((n - j - 1) as nat) * a)) by (nonlinear_arith)
            requires
                pow2((n - j) as nat) == 2 * pow2((n - j - 1) as nat),
        ;
    } else {
        lemma_div_multiples_vanish(a, pn);
        assert(h / pow2(n) == x / pow2(n));
        lemma_div_pow2_twice(x, n, (j - n) as nat);
        lemma_div_pow2_twice(h, n, (j - n) as nat);
    }
}

/// A multiple of `2^r` has no set bit below `r`.
pub proof fn lemma_bit_of_multiple(m: nat, r: nat, j: nat)
    requires
        m % pow2(r) == 0,
        j < r,
    ensures
        !bit_is_set(m, j),
{
    lemma_pow2_pos(r);
    let pr = pow2(r) as int;
    let k = (m as int) / pr;
    lemma_fundamental_div_mod(m as int, pr);
    lemma_pow2_multiple_div(k, r, j);
    lemma_pow2_even((r - j) as nat);
    assert(pow2((r - j) as nat) * k == 2 * (pow2((r - j - 1) as nat) * k)) by (nonlinear_arith)
        requires
            pow2((r - j) as nat) == 2 * pow2((r - j - 1) as nat),
    ;
}

/// The highest set bit among `0..=top` is `r` when bit `r` is set and the bits above it, up to `top`, are clear.
pub proof fn lemma_highest_is(x: nat, top: nat, r: nat)
    requires
        r <= top,
        bit_is_set(x, r),
        forall|j: nat| r < j <= top ==> !bit_is_set(x, j),
    ensures
        highest_set_bit_at_or_below(x, top) == Some(r),
    decreases top,
{
    if top > r {
        lemma_highest_is(x, (top - 1) as nat, r);
    }
}

/// There is no set bit among `0..=top` when all of them are clear.
pub proof fn lemma_highest_is_none(x: nat, top: nat)
    requires
        forall|j: nat| j <= top ==> !bit_is_set(x, j),
    ensures
        highest_set_bit_at_or_below(x, top) is None,
    decreases top,
{
    if top > 0 {
        lemma_highest_is_none(x, (top - 1) as nat);
    }
}

/// The lowest set bit among `bottom..=255` is `r` when bit `r` is set and the bits below it, from `bottom`, are clear.
pub proof fn lemma_lowest_is(x: nat, bottom: nat, r: nat)
    requires
        bottom <= r < 256,
        bit_is_set(x, r),
        forall|j: nat| bottom <= j < r ==> !bit_is_set(x, j),
    ensures
        lowest_set_bit_at_or_above(x, bottom) == Some(r),
    decreases r - bottom,
{
    if bottom < r {
        lemma_lowest_is(x, bottom + 1, r);
    }
}

/// There is no set bit among `bottom..=255` when all of them are clear.
pub proof fn lemma_lowest_is_none(x: nat, bottom: nat)
    requires
        forall|j: nat| bottom <= j < 256 ==> !bit_is_set(x, j),
    ensures
        lowest_set_bit_at_or_above(x, bottom) is None,
    decreases 256 - bottom,
{
    if bottom < 256 {
        lemma_lowest_is_none(x, bottom + 1);
    }
}

} // verus!
