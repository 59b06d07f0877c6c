//! Arithmetic in double precision, with whole numbers.
//!
//! A number is held as a fraction. Every operation gives the number of 53
//! binary digits that is nearest to the true result.

use vstd::prelude::*;

verus! {

/// The least significand of 53 binary digits.
pub const LEAST: u128 = 0x10_0000_0000_0000;

/// What all significands of 53 binary digits lie below.
pub const BEYOND: u128 = 0x20_0000_0000_0000;

/// The whole number nearest to a fraction; of two that are equally near, the
/// even one.
pub open spec fn nearest(n: nat, d: nat) -> nat {
    let below = n / d;
    let rest = n % d;
    if 2 * rest > d || 2 * rest == d && below % 2 == 1 {
        below + 1
    } else {
        below
    }
}

/// The number of 53 binary digits nearest to a fraction, as a fraction.
pub open spec fn rounded(n: nat, d: nat) -> (nat, nat)
    decreases
            if n >= BEYOND * d {
                n / d
            } else {
                0
            },
            if n < LEAST * d {
                (LEAST * d - n) as nat
            } else {
                0
            },
    when n > 0 && d > 0
    via rounding_ends
{
    if n >= BEYOND * d {
        let r = rounded(n, 2 * d);
        (2 * r.0, r.1)
    } else if n < LEAST * d {
        let r = rounded(2 * n, d);
        (r.0, 2 * r.1)
    } else {
        (nearest(n, d), 1)
    }
}

#[via_fn]
proof fn rounding_ends(n: nat, d: nat) {
    if n >= BEYOND * d {
        quotient_halves(n, d);
    }
}

proof fn quotient_halves(n: nat, d: nat)
    requires
        d > 0,
        n >= BEYOND * d,
    ensures
        n / (2 * d) < n / d,
{
    assert(n / (2 * d) < n / d) by (nonlinear_arith)
        requires
            d > 0,
            n >= 0x20_0000_0000_0000 * d,
    ;
}

/// The whole part of a number of seconds, given in nanoseconds, times a rate,
/// in double precision: the fraction of the second is divided out, the whole
/// seconds are added, and the sum is multiplied.
pub open spec fn seconds_times(nanos: nat, rate: nat) -> nat {
    let secs = nanos / 1_000_000_000;
    let sub = nanos % 1_000_000_000;
    if nanos == 0 || rate == 0 {
        0
    } else {
        let part = if sub == 0 {
            (0nat, 1nat)
        } else {
            rounded(sub, 1_000_000_000)
        };
        let seconds = rounded(secs * part.1 + part.0, part.1);
        let product = rounded(seconds.0 * rate, seconds.1);
        product.0 / product.1
    }
}

/// Dividing by two until it no longer goes leaves a small number.
spec fn small_odd(d: nat) -> bool
    decreases d,
{
    if d > 0 && d % 2 == 0 {
        small_odd(d / 2)
    } else {
        d <= 0x4000_0000
    }
}

proof fn nearest_of_doubles(n: nat, d: nat)
    requires
        d > 0,
    ensures
        nearest(2 * n, 2 * d) == nearest(n, d),
{
    vstd::arithmetic::div_mod::lemma_fundamental_div_mod(n as int, d as int);
    vstd::arithmetic::div_mod::lemma_mod_bound(n as int, d as int);
    let q = n / d;
    let r = n % d;
    assert(2 * n == q * (2 * d) + 2 * r) by (nonlinear_arith)
        requires
            n == d * q + r,
    ;
    vstd::arithmetic::div_mod::lemma_fundamental_div_mod_converse(
        2 * n as int,
        2 * d as int,
        q as int,
        2 * r as int,
    );
}

proof fn rounded_of_doubles(n: nat, d: nat)
    requires
        n > 0,
        d > 0,
    ensures
        rounded(2 * n, 2 * d) == rounded(n, d),
    decreases
            if n >= BEYOND * d {
                n / d
            } else {
                0
            },
            if n < LEAST * d {
                (LEAST * d - n) as nat
            } else {
                0
            },
{
    if n >= BEYOND * d {
        quotient_halves(n, d);
        rounded_of_doubles(n, 2 * d);
    } else if n < LEAST * d {
        rounded_of_doubles(2 * n, d);
    } else {
        nearest_of_doubles(n, d);
    }
}

/// A number is not rounded below a whole number that it reaches.
proof fn rounded_reaches(n: nat, d: nat, k: nat)
    requires
        n > 0,
        d > 0,
        k <= BEYOND,
        n >= k * d,
    ensures
        rounded(n, d).0 >= k * rounded(n, d).1,
        rounded(n, d).1 > 0,
    decreases
            if n >= BEYOND * d {
                n / d
            } else {
                0
            },
            if n < LEAST * d {
                (LEAST * d - n) as nat
            } else {
                0
            },
{
    if n >= BEYOND * d {
        quotient_halves(n, d);
        rounded_reaches(n, 2 * d, LEAST as nat);
        let r = rounded(n, 2 * d);
        assert(2 * r.0 >= k * r.1) by (nonlinear_arith)
            requires
                r.0 >= 0x10_0000_0000_0000 * r.1,
                k <= 0x20_0000_0000_0000,
        ;
    } else if n < LEAST * d {
        assert(k < LEAST) by (nonlinear_arith)
            requires
                k * d <= n,
                n < 0x10_0000_0000_0000 * d,
                LEAST == 0x10_0000_0000_0000,
        ;
        assert(2 * n >= (2 * k) * d) by (nonlinear_arith)
            requires
                n >= k * d,
        ;
        rounded_reaches(2 * n, d, 2 * k);
        let r = rounded(2 * n, d);
        assert(r.0 >= k * (2 * r.1)) by (nonlinear_arith)
            requires
                r.0 >= (2 * k) * r.1,
        ;
    } else {
        assert(n / d >= k) by (nonlinear_arith)
            requires
                n >= k * d,
                d > 0,
        ;
    }
}

proof fn whole_part_reaches(n: nat, d: nat, k: nat)
    requires
        n > 0,
        d > 0,
        k <= BEYOND,
        n >= k * d,
    ensures
        rounded(n, d).1 > 0,
        rounded(n, d).0 / rounded(n, d).1 >= k,
{
    rounded_reaches(n, d, k);
    let r = rounded(n, d);
    assert(r.0 / r.1 >= k) by (nonlinear_arith)
        requires
            r.0 >= k * r.1,
            r.1 > 0,
    ;
}

/// A number is not rounded above a whole number that it does not exceed.
proof fn rounded_stays(n: nat, d: nat, k: nat)
    requires
        n > 0,
        d > 0,
        n < BEYOND * d,
        n <= k * d,
    ensures
        rounded(n, d).0 <= k * rounded(n, d).1,
    decreases
            if n < LEAST * d {
                (LEAST * d - n) as nat
            } else {
                0
            },
{
    if n < LEAST * d {
        assert(2 * n <= (2 * k) * d) by (nonlinear_arith)
            requires
                n <= k * d,
        ;
        rounded_stays(2 * n, d, 2 * k);
        let r = rounded(2 * n, d);
        assert(r.0 <= k * (2 * r.1)) by (nonlinear_arith)
            requires
                r.0 <= (2 * k) * r.1,
        ;
    } else {
        vstd::arithmetic::div_mod::lemma_fundamental_div_mod(n as int, d as int);
        let q = n / d;
        let r = n % d;
        assert(q < k || q == k && r == 0) by (nonlinear_arith)
            requires
                n == d * q + r,
                n <= k * d,
                d > 0,
                r >= 0,
        ;
    }
}

/// Rounds a fraction that is below the greatest significands.
fn round(n: u128, d: u128) -> (r: (u128, u128))
    requires
        0 < n < BEYOND * d,
        0 < d <= n * 0x8000_0000_0000,
        small_odd(d as nat),
    ensures
        (r.0 as nat, r.1 as nat) == rounded(n as nat, d as nat),
        LEAST <= r.0 <= BEYOND,
        r.1 > 0,
        r.1 * n <= BEYOND * d,
        small_odd(r.1 as nat),
{
    let ghost n0 = n as nat;
    let ghost d0 = d as nat;
    let mut n: u128 = n;
    let mut d: u128 = d;
    let mut y: u128 = 1;
    while n / d < LEAST
        invariant
            n0 > 0,
            d0 > 0,
            d0 <= n0 * 0x8000_0000_0000,
            0 < n < BEYOND * d,
            0 < d,
            0 < y,
            small_odd(d as nat),
            small_odd(y as nat),
            y * n0 <= BEYOND * d0,
            y * n0 * d <= n * d0,
            rounded(n0, d0) == (
                rounded(n as nat, d as nat).0,
                rounded(n as nat, d as nat).1 * y as nat,
            ),
        decreases
                (if n < LEAST * d {
                    LEAST * d - n
                } else {
                    0
                }),
    {
        proof {
            assert(n < LEAST * d) by (nonlinear_arith)
                requires
                    n / d < 0x10_0000_0000_0000u128,
                    d > 0,
                    LEAST == 0x10_0000_0000_0000,
            ;
            assert(y * n0 < LEAST * d0) by (nonlinear_arith)
                requires
                    y * n0 * d <= n * d0,
                    n < LEAST * d,
                    d > 0,
                    d0 > 0,
            ;
            assert(y < 0x8_0000_0000_0000_0000_0000_0000) by (nonlinear_arith)
                requires
                    y * n0 < 0x10_0000_0000_0000 * d0,
                    d0 <= n0 * 0x8000_0000_0000,
                    n0 > 0,
            ;
            assert((2 * y) * n0 <= BEYOND * d0) by (nonlinear_arith)
                requires
                    y * n0 < LEAST * d0,
                    BEYOND == 2 * LEAST,
            ;
            assert(rounded(n as nat, d as nat) == (
                rounded((2 * n) as nat, d as nat).0,
                2 * rounded((2 * n) as nat, d as nat).1,
            ));
        }
        let ghost r = rounded((2 * n) as nat, d as nat);
        let ghost y_before = y as nat;
        assert((2 * r.1) * y_before == r.1 * (2 * y_before)) by (nonlinear_arith);
        assert(small_odd((2 * y) as nat));
        if d % 2 == 0 {
            let ghost d_before = d as nat;
            let half: u128 = d / 2;
            proof {
                rounded_of_doubles(n as nat, half as nat);
                assert((2 * y) * n0 * half == y * n0 * d) by (nonlinear_arith)
                    requires
                        d == 2 * half,
                ;
            }
            d = half;
        } else {
            proof {
                assert((2 * y) * n0 * d == 2 * (y * n0 * d)) by (nonlinear_arith);
                assert((2 * n) * d0 == 2 * (n * d0)) by (nonlinear_arith);
            }
            n = n * 2;
        }
        y = y * 2;
    }
    let below: u128 = n / d;
    let rest: u128 = n % d;
    let up = rest > d - rest || rest == d - rest && below % 2 == 1;
    proof {
        assert(n >= LEAST * d) by (nonlinear_arith)
            requires
                n / d >= 0x10_0000_0000_0000u128,
                d > 0,
                LEAST == 0x10_0000_0000_0000,
        ;
        assert(below < BEYOND) by (nonlinear_arith)
            requires
                below == n / d,
                n < 0x20_0000_0000_0000 * d,
                d > 0,
                BEYOND == 0x20_0000_0000_0000,
        ;
    }
    assert(rounded(n as nat, d as nat) == (nearest(n as nat, d as nat), 1nat));
    assert(up == (2 * rest > d || 2 * rest == d && below % 2 == 1));
    assert(1nat * y as nat == y as nat);
    if up {
        (below + 1, y)
    } else {
        (below, y)
    }
}

/// What no product needs to be told apart from.
pub const ENOUGH: u64 = 0x2_0000_0000;

/// The whole part of a number of seconds times a rate, in double precision, or
/// [`ENOUGH`] where it is more.
pub fn seconds_times_up_to(nanos: u128, rate: u32) -> (product: u64)
    ensures
        product == if seconds_times(nanos as nat, rate as nat) <= ENOUGH {
            seconds_times(nanos as nat, rate as nat)
        } else {
            ENOUGH as nat
        },
{
    if nanos == 0 || rate == 0 {
        return 0;
    }
    let secs: u128 = nanos / 1_000_000_000;
    let sub: u128 = nanos % 1_000_000_000;
    let part: (u128, u128) = if sub == 0 {
        (0, 1)
    } else {
        proof {
            reveal_with_fuel(small_odd, 10);
            assert(small_odd(1_000_000_000));
        }
        round(sub, 1_000_000_000)
    };
    let ghost seconds_spec = rounded(
        (secs * part.1 + part.0) as nat,
        part.1 as nat,
    );
    proof {
        reveal_with_fuel(small_odd, 2);
        assert(small_odd(1));
        assert(part.1 <= 0x20_0000_0000_0000 * 1_000_000_000) by {
            if sub > 0 {
                assert(part.1 <= part.1 * sub) by (nonlinear_arith)
                    requires
                        sub >= 1,
                ;
            }
        }
        assert(secs * part.1 + part.0 > 0) by {
            if sub == 0 {
                assert(secs > 0);
            } else {
                assert(secs * part.1 >= 0) by (nonlinear_arith);
            }
        }
    }
    if secs >= 0x2_0000_0000 {
        proof {
            let n = (secs * part.1 + part.0) as nat;
            assert(n >= 0x2_0000_0000nat * part.1 as nat) by (nonlinear_arith)
                requires
                    n == secs * part.1 + part.0,
                    secs >= 0x2_0000_0000,
            ;
            rounded_reaches(n, part.1 as nat, 0x2_0000_0000);
            assert(seconds_spec.0 * rate as nat >= 0x2_0000_0000nat * seconds_spec.1)
                by (nonlinear_arith)
                requires
                    seconds_spec.0 >= 0x2_0000_0000nat * seconds_spec.1,
                    rate >= 1,
            ;
            assert(seconds_spec.0 * rate as nat > 0) by (nonlinear_arith)
                requires
                    seconds_spec.0 * rate as nat >= 0x2_0000_0000nat * seconds_spec.1,
                    seconds_spec.1 > 0,
            ;
            whole_part_reaches(seconds_spec.0 * rate as nat, seconds_spec.1, 0x2_0000_0000);
        }
        return ENOUGH;
    }
    assert(secs * part.1 <= 0x2_0000_0000 * part.1) by (nonlinear_arith)
        requires
            secs < 0x2_0000_0000,
    ;
    let n: u128 = secs * part.1 + part.0;
    proof {
        if sub > 0 {
            rounded_stays(sub as nat, 1_000_000_000, 1);
        }
        assert(n < BEYOND * part.1) by (nonlinear_arith)
            requires
                n == secs * part.1 + part.0,
                secs < 0x2_0000_0000,
                part.0 <= part.1,
                part.1 >= 1,
                BEYOND == 0x20_0000_0000_0000,
        ;
        assert(sub == 0 ==> part.1 <= n);
        assert(sub > 0 ==> n >= LEAST) by (nonlinear_arith)
            requires
                sub > 0 ==> part.0 >= LEAST,
                n == secs * part.1 + part.0,
        ;
    }
    let seconds = round(n, part.1);
    proof {
        assert(seconds.1 <= 0x40_0000_0000_0000 * 1_000_000_000) by (nonlinear_arith)
            requires
                seconds.1 * n <= 0x20_0000_0000_0000 * part.1,
                sub > 0 ==> n >= 0x10_0000_0000_0000,
                sub == 0 ==> part.1 == 1 && n >= 1,
                part.1 <= 0x20_0000_0000_0000 * 1_000_000_000,
        ;
        assert(seconds.0 * rate <= 0x20_0000_0000_0000 * 0x1_0000_0000) by (nonlinear_arith)
            requires
                seconds.0 <= 0x20_0000_0000_0000,
                rate <= 0xffff_ffff,
        ;
        assert(seconds.0 * rate >= LEAST) by (nonlinear_arith)
            requires
                seconds.0 >= LEAST,
                rate >= 1,
        ;
    }
    let times: u128 = seconds.0 * rate as u128;
    if times / seconds.1 >= BEYOND {
        proof {
            assert(times >= BEYOND * seconds.1) by (nonlinear_arith)
                requires
                    times / seconds.1 >= BEYOND,
                    seconds.1 > 0,
            ;
            whole_part_reaches(times as nat, seconds.1 as nat, BEYOND as nat);
        }
        return ENOUGH;
    }
    proof {
        assert(times < BEYOND * seconds.1) by (nonlinear_arith)
            requires
                times / seconds.1 < BEYOND,
                seconds.1 > 0,
        ;
    }
    let product = round(times, seconds.1);
    let whole: u128 = product.0 / product.1;
    if whole > ENOUGH as u128 {
        ENOUGH
    } else {
        whole as u64
    }
}

/// The nearest whole number is no further than half of one away, and of two
/// that are as near the even one is taken.
pub proof fn the_nearest_number_is_near(n: nat, d: nat)
    requires
        d > 0,
    ensures
        2 * (nearest(n, d) * d - n) <= d,
        2 * (n - nearest(n, d) * d) <= d,
        2 * (nearest(n, d) * d - n) == d || 2 * (n - nearest(n, d) * d) == d ==> nearest(n, d) % 2
            == 0,
{
    vstd::arithmetic::div_mod::lemma_fundamental_div_mod(n as int, d as int);
    let below = n / d;
    assert(below * d == d * below) by (nonlinear_arith);
    assert((below + 1) * d == below * d + d) by (nonlinear_arith);
}

/// A rounded number differs from the true one by no more than one part in as
/// many as there are significands.
pub proof fn rounding_stays_near(n: nat, d: nat)
    requires
        n > 0,
        d > 0,
    ensures
        rounded(n, d).1 > 0,
        BEYOND * (rounded(n, d).0 * d - n * rounded(n, d).1) <= n * rounded(n, d).1,
        BEYOND * (n * rounded(n, d).1 - rounded(n, d).0 * d) <= n * rounded(n, d).1,
    decreases
            if n >= BEYOND * d {
                n / d
            } else {
                0
            },
            if n < LEAST * d {
                (LEAST * d - n) as nat
            } else {
                0
            },
{
    if n >= BEYOND * d {
        quotient_halves(n, d);
        assert(2 * d > 0);
        rounding_stays_near(n, 2 * d);
        let r = rounded(n, 2 * d);
        assert(2 * r.0 * d == r.0 * (2 * d)) by (nonlinear_arith);
    } else if n < LEAST * d {
        rounding_stays_near(2 * n, d);
        let r = rounded(2 * n, d);
        assert(n * (2 * r.1) == 2 * n * r.1) by (nonlinear_arith);
    } else {
        the_nearest_number_is_near(n, d);
        let m = nearest(n, d);
        assert(n * 1 == n);
    }
}

proof fn whole_numbers_are_exact(n: nat, d: nat, q: nat)
    requires
        n > 0,
        d > 0,
        n == q * d,
        q < BEYOND,
    ensures
        rounded(n, d).1 > 0,
        rounded(n, d).0 == q * rounded(n, d).1,
    decreases
            if n < LEAST * d {
                (LEAST * d - n) as nat
            } else {
                0
            },
{
    assert(n < BEYOND * d) by (nonlinear_arith)
        requires
            n == q * d,
            q < BEYOND,
            d > 0,
    ;
    if n < LEAST * d {
        assert(2 * n == (2 * q) * d) by (nonlinear_arith)
            requires
                n == q * d,
        ;
        assert(q < LEAST) by (nonlinear_arith)
            requires
                q * d < LEAST * d,
                d > 0,
        ;
        whole_numbers_are_exact(2 * n, d, 2 * q);
        let r = rounded(2 * n, d);
        assert(2 * q * r.1 == q * (2 * r.1)) by (nonlinear_arith);
    } else {
        vstd::arithmetic::div_mod::lemma_fundamental_div_mod_converse(
            n as int,
            d as int,
            q as int,
            0,
        );
        assert(nearest(n, d) == q);
    }
}

/// Whole seconds times a rate are exact, as long as the result can be held.
pub proof fn whole_seconds_are_exact(secs: nat, rate: nat)
    requires
        secs < BEYOND,
        secs * rate < BEYOND,
    ensures
        seconds_times(secs * 1_000_000_000, rate) == secs * rate,
{
    let nanos = secs * 1_000_000_000;
    vstd::arithmetic::div_mod::lemma_fundamental_div_mod_converse(
        nanos as int,
        1_000_000_000,
        secs as int,
        0,
    );
    if secs == 0 || rate == 0 {
        assert(secs * rate == 0) by (nonlinear_arith)
            requires
                secs == 0 || rate == 0,
        ;
    } else {
        whole_numbers_are_exact(secs * 1 + 0, 1, secs);
        let seconds = rounded(secs, 1);
        assert(seconds.0 * rate == (secs * rate) * seconds.1) by (nonlinear_arith)
            requires
                seconds.0 == secs * seconds.1,
        ;
        assert(seconds.0 * rate > 0) by (nonlinear_arith)
            requires
                seconds.0 == secs * seconds.1,
                secs > 0,
                seconds.1 > 0,
                rate > 0,
        ;
        whole_numbers_are_exact(seconds.0 * rate, seconds.1, secs * rate);
        let product = rounded(seconds.0 * rate, seconds.1);
        vstd::arithmetic::div_mod::lemma_fundamental_div_mod_converse(
            product.0 as int,
            product.1 as int,
            (secs * rate) as int,
            0,
        );
    }
}

} // verus!
