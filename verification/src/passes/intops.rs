//! WebAssembly integer semantics used by constant folding: truncating
//! division and remainder, rotations and bit counts.
use vstd::prelude::*;

verus! {

/// Magnitude of an integer.
pub open spec fn abs_int(x: int) -> int {
    if x < 0 { -x } else { x }
}

/// Division rounding toward zero.
pub open spec fn trunc_div(a: int, b: int) -> int {
    let q = abs_int(a) / abs_int(b);
    if (a < 0) == (b < 0) { q } else { -q }
}

/// Remainder of the division rounding toward zero; it has the sign of `a`.
pub open spec fn trunc_rem(a: int, b: int) -> int {
    let r = abs_int(a) % abs_int(b);
    if a < 0 { -r } else { r }
}

/// The `i32` quotient rounding toward zero; the one overflowing quotient,
/// `MIN / -1`, wraps to `MIN`.
pub open spec fn i32_div_result(a: i32, b: i32) -> int {
    if trunc_div(a as int, b as int) > i32::MAX { i32::MIN as int } else { trunc_div(a as int, b as int) }
}

/// The `i64` quotient rounding toward zero; `MIN / -1` wraps to `MIN`.
pub open spec fn i64_div_result(a: i64, b: i64) -> int {
    if trunc_div(a as int, b as int) > i64::MAX { i64::MIN as int } else { trunc_div(a as int, b as int) }
}

/// `i32` division rounding toward zero, wrapping `MIN / -1` to `MIN`.
pub fn i32_wrapping_div(a: i32, b: i32) -> (r: i32)
    requires
        b != 0,
    ensures
        r as int == i32_div_result(a, b),
{
    let ua: u64 = if a < 0 { (-(a as i64)) as u64 } else { a as u64 };
    let ub: u64 = if b < 0 { (-(b as i64)) as u64 } else { b as u64 };
    let q: u64 = ua / ub;
    assert(q as int == abs_int(a as int) / abs_int(b as int));
    assert(q <= 0x8000_0000) by {
        assert(ua <= 0x8000_0000);
        assert(ub >= 1);
        assert(q <= ua) by (nonlinear_arith)
            requires ub >= 1, q == ua / ub;
    }
    if (a < 0) == (b < 0) {
        if q > 0x7fff_ffff {
            i32::MIN
        } else {
            q as i32
        }
    } else {
        (-(q as i64)) as i32
    }
}

/// `i32` remainder with the sign of `a`.
pub fn i32_wrapping_rem(a: i32, b: i32) -> (r: i32)
    requires
        b != 0,
    ensures
        r as int == trunc_rem(a as int, b as int),
{
    let ua: u64 = if a < 0 { (-(a as i64)) as u64 } else { a as u64 };
    let ub: u64 = if b < 0 { (-(b as i64)) as u64 } else { b as u64 };
    let m: u64 = ua % ub;
    assert(m as int == abs_int(a as int) % abs_int(b as int));
    assert(m < 0x8000_0000) by {
        assert(ub <= 0x8000_0000);
    }
    if a < 0 {
        (-(m as i64)) as i32
    } else {
        m as i32
    }
}

/// `i64` division rounding toward zero, wrapping `MIN / -1` to `MIN`.
pub fn i64_wrapping_div(a: i64, b: i64) -> (r: i64)
    requires
        b != 0,
    ensures
        r as int == i64_div_result(a, b),
{
    let ua: u128 = if a < 0 { (-(a as i128)) as u128 } else { a as u128 };
    let ub: u128 = if b < 0 { (-(b as i128)) as u128 } else { b as u128 };
    let q: u128 = ua / ub;
    assert(q as int == abs_int(a as int) / abs_int(b as int));
    assert(q <= 0x8000_0000_0000_0000) by {
        assert(ua <= 0x8000_0000_0000_0000);
        assert(q <= ua) by (nonlinear_arith)
            requires ub >= 1, q == ua / ub;
    }
    if (a < 0) == (b < 0) {
        if q > 0x7fff_ffff_ffff_ffff {
            i64::MIN
        } else {
            q as i64
        }
    } else {
        (-(q as i128)) as i64
    }
}

/// `i64` remainder with the sign of `a`.
pub fn i64_wrapping_rem(a: i64, b: i64) -> (r: i64)
    requires
        b != 0,
    ensures
        r as int == trunc_rem(a as int, b as int),
{
    let ua: u128 = if a < 0 { (-(a as i128)) as u128 } else { a as u128 };
    let ub: u128 = if b < 0 { (-(b as i128)) as u128 } else { b as u128 };
    let m: u128 = ua % ub;
    assert(m as int == abs_int(a as int) % abs_int(b as int));
    assert(m < 0x8000_0000_0000_0000) by {
        assert(ub <= 0x8000_0000_0000_0000);
    }
    if a < 0 {
        (-(m as i128)) as i64
    } else {
        m as i64
    }
}

/// Number of set bits.
pub open spec fn popcount(x: nat) -> nat
    decreases x,
{
    if x == 0 { 0 } else { (x % 2) + popcount(x / 2) }
}

/// Number of set bits of a 32-bit pattern.
pub fn count_ones_u32(x: u32) -> (r: u32)
    ensures
        r as nat == popcount(x as nat),
        r <= 32,
{
    let mut v = x;
    let mut c: u32 = 0;
    let mut k: u32 = 0;
    proof {
        reveal_with_fuel(pow2_u64, 33);
        assert(pow2_u64(32) == 0x1_0000_0000);
    }
    while v > 0
        invariant
            c as nat + popcount(v as nat) == popcount(x as nat),
            k <= 32,
            c <= k,
            v < pow2_u64((32 - k) as nat),
            x as nat <= u32::MAX,
        decreases v,
    {
        assert(k < 32) by {
            if k >= 32 {
                assert(pow2_u64((32 - k) as nat) == 1);
            }
        }
        assert(v / 2 < pow2_u64((32 - (k + 1)) as nat)) by {
            lemma_pow2_step((32 - (k + 1)) as nat);
        }
        c = c + (v % 2);
        v = v / 2;
        k = k + 1;
    }
    c
}

/// Number of set bits of a 64-bit pattern.
pub fn count_ones_u64(x: u64) -> (r: u32)
    ensures
        r as nat == popcount(x as nat),
        r <= 64,
{
    let mut v = x;
    let mut c: u32 = 0;
    let mut k: u32 = 0;
    proof {
        reveal_with_fuel(pow2_u64, 65);
        assert(pow2_u64(64) == 0x1_0000_0000_0000_0000);
    }
    while v > 0
        invariant
            c as nat + popcount(v as nat) == popcount(x as nat),
            k <= 64,
            c <= k,
            v < pow2_u64((64 - k) as nat),
        decreases v,
    {
        assert(k < 64) by {
            if k >= 64 {
                assert(pow2_u64((64 - k) as nat) == 1);
            }
        }
        assert(v / 2 < pow2_u64((64 - (k + 1)) as nat)) by {
            lemma_pow2_step((64 - (k + 1)) as nat);
        }
        c = c + (v % 2) as u32;
        v = v / 2;
        k = k + 1;
    }
    c
}

/// Two to the power `n`.
pub open spec fn pow2_u64(n: nat) -> nat
    decreases n,
{
    if n == 0 { 1 } else { 2 * pow2_u64((n - 1) as nat) }
}

proof fn lemma_pow2_step(n: nat)
    ensures
        pow2_u64(n + 1) == 2 * pow2_u64(n),
{
}

} // verus!
