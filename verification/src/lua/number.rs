//! The engine keeps every number as a double. Integers travel through it: within 53 bits
//! they pass unchanged, wider ones are rounded to the nearest value a double can hold.

use vstd::prelude::*;

verus! {

/// Largest magnitude below which every integer is a double.
pub const EXACT_LIMIT: i128 = 0x20_0000_0000_0000;

/// Largest magnitude that this library hands to the engine: 2^64.
pub const NUMBER_LIMIT: i128 = 0x1_0000_0000_0000_0000;

/// The spacing of doubles around the magnitude `m`: a power of two, 1 up to 2^53.
pub open spec fn spacing(m: nat) -> nat
    decreases m,
{
    if m < EXACT_LIMIT as nat {
        1
    } else {
        2 * spacing(m / 2)
    }
}

/// `m` rounded to the nearest multiple of `unit`, a tie going to the even multiple.
pub open spec fn nearest_multiple(m: nat, unit: nat) -> nat {
    let q = m / unit;
    let r = m % unit;
    if 2 * r > unit || (2 * r == unit && q % 2 == 1) {
        (q + 1) * unit
    } else {
        q * unit
    }
}

/// The double nearest to the integer `n`, as an integer.
pub open spec fn double_of(n: int) -> int {
    if n >= 0 {
        nearest_multiple(n as nat, spacing(n as nat)) as int
    } else {
        -(nearest_multiple((-n) as nat, spacing((-n) as nat)) as int)
    }
}

/// Whether the engine can hold `n` without rounding.
pub open spec fn is_exact(n: int) -> bool {
    double_of(n) == n
}

/// `n` held to the range `lo..=hi`, as a cast from a double to an integer type does.
pub open spec fn saturate(n: int, lo: int, hi: int) -> int {
    if n < lo {
        lo
    } else if n > hi {
        hi
    } else {
        n
    }
}

/// Integers of at most 53 bits are doubles.
pub proof fn lemma_small_is_exact(n: int)
    requires
        -EXACT_LIMIT < n < EXACT_LIMIT,
    ensures
        is_exact(n),
{
    let m: nat = if n >= 0 { n as nat } else { (-n) as nat };
    assert(spacing(m) == 1);
    assert(m / 1 == m && m % 1 == 0);
}

proof fn lemma_spacing_positive(m: nat)
    ensures
        1 <= spacing(m),
    decreases m,
{
    if m >= EXACT_LIMIT as nat {
        lemma_spacing_positive(m / 2);
    }
}

proof fn lemma_spacing_bounds(m: nat, k: nat)
    requires
        m < EXACT_LIMIT as nat * vstd::arithmetic::power2::pow2(k),
    ensures
        1 <= spacing(m) <= vstd::arithmetic::power2::pow2(k),
    decreases k,
{
    vstd::arithmetic::power2::lemma_pow2_pos(k);
    if m < EXACT_LIMIT as nat {
    } else {
        if k == 0 {
            vstd::arithmetic::power2::lemma2_to64();
        } else {
            vstd::arithmetic::power2::lemma_pow2_unfold(k);
            assert(m / 2 < EXACT_LIMIT as nat * vstd::arithmetic::power2::pow2((k - 1) as nat)) by (nonlinear_arith)
                requires
                    m < EXACT_LIMIT as nat * (2 * vstd::arithmetic::power2::pow2((k - 1) as nat)),
            ;
            lemma_spacing_bounds(m / 2, (k - 1) as nat);
        }
    }
}

/// The spacing of doubles around `m`.
fn spacing_of(m: u128) -> (unit: u128)
    requires
        m <= NUMBER_LIMIT,
    ensures
        unit == spacing(m as nat),
        1 <= unit <= 4096,
{
    proof {
        vstd::arithmetic::power2::lemma2_to64();
        lemma_spacing_bounds(m as nat, 12);
    }
    let mut rest: u128 = m;
    let mut unit: u128 = 1;
    while rest >= EXACT_LIMIT as u128
        invariant
            unit * spacing(rest as nat) == spacing(m as nat),
            1 <= unit,
            1 <= spacing(m as nat) <= 4096,
            1 <= spacing(rest as nat),
        decreases rest,
    {
        proof {
            let g = spacing((rest / 2) as nat);
            assert(spacing(rest as nat) == 2 * g);
            assert(unit * (2 * g) == (unit * 2) * g) by (nonlinear_arith);
            lemma_spacing_positive((rest / 2) as nat);
            assert(unit * 2 <= 4096) by (nonlinear_arith)
                requires
                    (unit * 2) * g <= 4096,
                    1 <= g,
                    1 <= unit,
            ;
        }
        rest = rest / 2;
        unit = unit * 2;
    }
    proof {
        assert(spacing(rest as nat) == 1);
        assert(unit * 1 == unit) by (nonlinear_arith);
    }
    unit
}

/// Rounds an integer as the engine does when it stores it.
pub fn round_to_double(n: i128) -> (d: i128)
    requires
        -NUMBER_LIMIT <= n <= NUMBER_LIMIT,
    ensures
        d == double_of(n as int),
        -NUMBER_LIMIT <= d <= NUMBER_LIMIT,
{
    let negative: bool = n < 0;
    let m: u128 = if negative { (-n) as u128 } else { n as u128 };
    let unit: u128 = spacing_of(m);
    let q: u128 = m / unit;
    let r: u128 = m % unit;
    assert(q * unit <= m) by (nonlinear_arith)
        requires
            q == m / unit,
            unit > 0,
    ;
    assert(q * unit + r == m) by (nonlinear_arith)
        requires
            q == m / unit,
            r == m % unit,
            unit > 0,
    ;
    let up: bool = 2 * r > unit || (2 * r == unit && q % 2 == 1);
    let rounded: u128 = if up {
        assert((q + 1) * unit == q * unit + unit) by (nonlinear_arith);
        (q + 1) * unit
    } else {
        q * unit
    };
    proof {
        lemma_rounded_within_limit(m as nat, unit as nat);
    }
    if negative { -(rounded as i128) } else { rounded as i128 }
}

/// Rounding never leaves the range that it started in, because the limit is itself a double
/// on every spacing in use.
proof fn lemma_rounded_within_limit(m: nat, unit: nat)
    requires
        m <= NUMBER_LIMIT,
        unit == spacing(m),
        1 <= unit <= 4096,
    ensures
        nearest_multiple(m, unit) <= NUMBER_LIMIT,
{
    lemma_spacing_divides_limit(m);
    let q = m / unit;
    let r = m % unit;
    let top = NUMBER_LIMIT as nat / unit;
    assert(top * unit == NUMBER_LIMIT as nat) by (nonlinear_arith)
        requires
            top == NUMBER_LIMIT as nat / unit,
            NUMBER_LIMIT as nat % unit == 0,
            unit > 0,
    ;
    assert(q * unit + r == m && r < unit) by (nonlinear_arith)
        requires
            q == m / unit,
            r == m % unit,
            unit > 0,
    ;
    if r == 0 {
        assert(q * unit <= top * unit);
    } else {
        assert(q < top) by (nonlinear_arith)
            requires
                q * unit + r <= top * unit,
                r > 0,
                unit > 0,
        ;
        assert((q + 1) * unit <= top * unit) by (nonlinear_arith)
            requires
                q + 1 <= top,
                unit > 0,
        ;
        assert(q * unit <= (q + 1) * unit) by (nonlinear_arith);
    }
}

proof fn lemma_spacing_divides_limit(m: nat)
    requires
        m <= NUMBER_LIMIT,
    ensures
        NUMBER_LIMIT as nat % spacing(m) == 0,
{
    let s = spacing(m);
    vstd::arithmetic::power2::lemma2_to64();
    lemma_spacing_is_small_power(m, 12);
    let j = choose|j: nat| j <= 12 && spacing(m) == vstd::arithmetic::power2::pow2(j);
    assert(j == 0 || j == 1 || j == 2 || j == 3 || j == 4 || j == 5 || j == 6 || j == 7 || j == 8
        || j == 9 || j == 10 || j == 11 || j == 12);
    assert(s == 1 || s == 2 || s == 4 || s == 8 || s == 16 || s == 32 || s == 64 || s == 128
        || s == 256 || s == 512 || s == 1024 || s == 2048 || s == 4096);
}

proof fn lemma_spacing_is_small_power(m: nat, k: nat)
    requires
        m < EXACT_LIMIT as nat * vstd::arithmetic::power2::pow2(k),
    ensures
        exists|j: nat| j <= k && spacing(m) == vstd::arithmetic::power2::pow2(j),
    decreases k,
{
    if m < EXACT_LIMIT as nat {
        vstd::arithmetic::power2::lemma2_to64();
        assert(spacing(m) == vstd::arithmetic::power2::pow2(0));
    } else {
        if k == 0 {
            vstd::arithmetic::power2::lemma2_to64();
        } else {
            vstd::arithmetic::power2::lemma_pow2_unfold(k);
            assert(m / 2 < EXACT_LIMIT as nat * vstd::arithmetic::power2::pow2((k - 1) as nat)) by (nonlinear_arith)
                requires
                    m < EXACT_LIMIT as nat * (2 * vstd::arithmetic::power2::pow2((k - 1) as nat)),
            ;
            lemma_spacing_is_small_power(m / 2, (k - 1) as nat);
            let j = choose|j: nat| j <= k - 1 && spacing(m / 2) == vstd::arithmetic::power2::pow2(j);
            vstd::arithmetic::power2::lemma_pow2_unfold(j + 1);
            assert(spacing(m) == vstd::arithmetic::power2::pow2(j + 1));
        }
    }
}

} // verus!
