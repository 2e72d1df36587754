//! Simplification pass: integer constant folding, algebraic simplification,
//! dead code elimination and conversion of `block { br_if ...; rest }` into
//! `if (!cond) { rest }`.
//!
//! Folding of floating-point arithmetic and of conversions between integers
//! and floats is not done here: it needs floating-point computation.
use vstd::prelude::*;
use vstd::wrapping::{i32_specs, i64_specs, u32_specs, u64_specs};
use vstd::arithmetic::div_mod::{lemma_fundamental_div_mod, lemma_mod_pos_bound, lemma_div_pos_is_pos};
use crate::ir::{BranchTarget, 
    BinOp, Block, BlockV, CmpOp, ConvertOp, Expr, ExprKind, ExprKindV, ExprV, Function, InferredType, Module, Stmt,
    StmtV, UnaryOp, expr_view, exprs_view, stmt_view, stmts_view, block_view, lemma_exprs_view, lemma_exprs_view_push,
    lemma_stmts_view, lemma_stmts_view_push,
};
use crate::passes::PassContext;
use crate::passes::mem_resolve::bodies_rewritten;
use crate::passes::intops::{
    abs_int, trunc_div, i32_div_result, i64_div_result, trunc_rem, i32_wrapping_div, i32_wrapping_rem, i64_wrapping_div, i64_wrapping_rem,
    popcount, count_ones_u32, count_ones_u64,
};

verus! {

/// Simplification pass
pub struct SimplifyPass;

/// Rotate a 32-bit pattern left by `r` bits (modulo 32).
pub open spec fn rotl32(x: u32, r: u32) -> u32 {
    let s = r % 32;
    if s == 0 { x } else { ((x << s) | (x >> ((32 - s) as u32))) as u32 }
}

/// Rotate a 32-bit pattern right by `r` bits (modulo 32).
pub open spec fn rotr32(x: u32, r: u32) -> u32 {
    let s = r % 32;
    if s == 0 { x } else { ((x >> s) | (x << ((32 - s) as u32))) as u32 }
}

/// Rotate a 64-bit pattern left by `r` bits (modulo 64).
pub open spec fn rotl64(x: u64, r: u32) -> u64 {
    let s = r % 64;
    if s == 0 { x } else { ((x << s) | (x >> ((64 - s) as u32))) as u64 }
}

/// Rotate a 64-bit pattern right by `r` bits (modulo 64).
pub open spec fn rotr64(x: u64, r: u32) -> u64 {
    let s = r % 64;
    if s == 0 { x } else { ((x >> s) | (x << ((64 - s) as u32))) as u64 }
}

fn rotate_left_u32(x: u32, r: u32) -> (v: u32)
    ensures
        v == rotl32(x, r),
{
    let s = r % 32;
    if s == 0 { x } else { (x << s) | (x >> (32 - s)) }
}

fn rotate_right_u32(x: u32, r: u32) -> (v: u32)
    ensures
        v == rotr32(x, r),
{
    let s = r % 32;
    if s == 0 { x } else { (x >> s) | (x << (32 - s)) }
}

fn rotate_left_u64(x: u64, r: u32) -> (v: u64)
    ensures
        v == rotl64(x, r),
{
    let s = r % 64;
    if s == 0 { x } else { (x << s) | (x >> (64 - s)) }
}

fn rotate_right_u64(x: u64, r: u32) -> (v: u64)
    ensures
        v == rotr64(x, r),
{
    let s = r % 64;
    if s == 0 { x } else { (x >> s) | (x << (64 - s)) }
}

/// The value of a binary integer operation on two `i32` constants, if it
/// folds (division and remainder by zero do not).
pub open spec fn fold_i32(op: BinOp, a: i32, b: i32) -> Option<i32> {
    match op {
        BinOp::Add => Some(i32_specs::wrapping_add(a, b)),
        BinOp::Sub => Some(i32_specs::wrapping_sub(a, b)),
        BinOp::Mul => Some(i32_specs::wrapping_mul(a, b)),
        BinOp::DivS => if b != 0 { Some(i32_div_result(a, b) as i32) } else { None },
        BinOp::DivU => if b != 0 { Some(((a as u32) / (b as u32)) as i32) } else { None },
        BinOp::RemS => if b != 0 { Some(trunc_rem(a as int, b as int) as i32) } else { None },
        BinOp::RemU => if b != 0 { Some(((a as u32) % (b as u32)) as i32) } else { None },
        BinOp::And => Some(a & b),
        BinOp::Or => Some(a | b),
        BinOp::Xor => Some(a ^ b),
        BinOp::Shl => Some(i32_specs::wrapping_shl(a, b as u32)),
        BinOp::ShrS => Some(i32_specs::wrapping_shr(a, b as u32)),
        BinOp::ShrU => Some(u32_specs::wrapping_shr(a as u32, b as u32) as i32),
        BinOp::Rotl => Some(rotl32(a as u32, b as u32) as i32),
        BinOp::Rotr => Some(rotr32(a as u32, b as u32) as i32),
        _ => None,
    }
}

/// The value of a binary integer operation on two `i64` constants, if it folds.
pub open spec fn fold_i64(op: BinOp, a: i64, b: i64) -> Option<i64> {
    match op {
        BinOp::Add => Some(i64_specs::wrapping_add(a, b)),
        BinOp::Sub => Some(i64_specs::wrapping_sub(a, b)),
        BinOp::Mul => Some(i64_specs::wrapping_mul(a, b)),
        BinOp::DivS => if b != 0 { Some(i64_div_result(a, b) as i64) } else { None },
        BinOp::DivU => if b != 0 { Some(((a as u64) / (b as u64)) as i64) } else { None },
        BinOp::RemS => if b != 0 { Some(trunc_rem(a as int, b as int) as i64) } else { None },
        BinOp::RemU => if b != 0 { Some(((a as u64) % (b as u64)) as i64) } else { None },
        BinOp::And => Some(a & b),
        BinOp::Or => Some(a | b),
        BinOp::Xor => Some(a ^ b),
        BinOp::Shl => Some(i64_specs::wrapping_shl(a, b as u32)),
        BinOp::ShrS => Some(i64_specs::wrapping_shr(a, b as u32)),
        BinOp::ShrU => Some(u64_specs::wrapping_shr(a as u64, b as u32) as i64),
        BinOp::Rotl => Some(rotl64(a as u64, b as u32) as i64),
        BinOp::Rotr => Some(rotr64(a as u64, b as u32) as i64),
        _ => None,
    }
}

/// Truncating division and its remainder put `a` back together: the
/// remainder is smaller than the divisor and has the sign of `a`, and the
/// quotient is no larger than `a` (at most half of it when the divisor is
/// larger than one).
proof fn lemma_trunc_div_rem(a: int, b: int)
    requires
        b != 0,
    ensures
        a == trunc_div(a, b) * b + trunc_rem(a, b),
        abs_int(trunc_rem(a, b)) < abs_int(b),
        trunc_rem(a, b) == 0 || (trunc_rem(a, b) < 0) == (a < 0),
        abs_int(trunc_div(a, b)) <= abs_int(a),
        abs_int(b) >= 2 ==> 2 * abs_int(trunc_div(a, b)) <= abs_int(a),
{
    let x = abs_int(a);
    let d = abs_int(b);
    let q = x / d;
    let r = x % d;
    lemma_fundamental_div_mod(x, d);
    lemma_mod_pos_bound(x, d);
    assert(x == d * q + r);
    assert(q >= 0) by {
        lemma_div_pos_is_pos(x, d);
    }
    assert(q <= x) by (nonlinear_arith)
        requires
            x == d * q + r,
            d >= 1,
            q >= 0,
            r >= 0,
    ;
    assert(d >= 2 ==> 2 * q <= x) by (nonlinear_arith)
        requires
            x == d * q + r,
            q >= 0,
            r >= 0,
    ;
    if a >= 0 && b > 0 {
        assert(a == q * b + r) by (nonlinear_arith)
            requires
                x == d * q + r,
                x == a,
                d == b,
        ;
    } else if a >= 0 && b < 0 {
        assert(a == (-q) * b + r) by (nonlinear_arith)
            requires
                x == d * q + r,
                x == a,
                d == -b,
        ;
    } else if a < 0 && b > 0 {
        assert(a == (-q) * b + (-r)) by (nonlinear_arith)
            requires
                x == d * q + r,
                x == -a,
                d == b,
        ;
    } else {
        assert(a == q * b + (-r)) by (nonlinear_arith)
            requires
                x == d * q + r,
                x == -a,
                d == -b,
        ;
    }
}

/// Law: folding two `i64` constants gives the wasm value of the operation:
/// sums, differences and products modulo 2^64; division and remainder only by
/// a non-zero divisor, the quotient and remainder putting the dividend back
/// together (signed: rounding toward zero, the remainder taking the
/// dividend's sign, `MIN / -1` wrapping to `MIN`; unsigned: on the unsigned
/// readings of the bits).
pub proof fn lemma_fold_i64_arithmetic(a: i64, b: i64)
    ensures
        fold_i64(BinOp::Add, a, b) matches Some(r) && (r - (a + b)) % 0x1_0000_0000_0000_0000int == 0,
        fold_i64(BinOp::Sub, a, b) matches Some(r) && (r - (a - b)) % 0x1_0000_0000_0000_0000int == 0,
        fold_i64(BinOp::Mul, a, b) matches Some(r) && (r - a * b) % 0x1_0000_0000_0000_0000int == 0,
        b == 0 ==> fold_i64(BinOp::DivS, a, b) is None && fold_i64(BinOp::DivU, a, b) is None
            && fold_i64(BinOp::RemS, a, b) is None && fold_i64(BinOp::RemU, a, b) is None,
        b != 0 ==> (fold_i64(BinOp::DivS, a, b) matches Some(q) && fold_i64(BinOp::RemS, a, b) matches Some(m) && {
            &&& (a == i64::MIN && b == -1) ==> q == i64::MIN && m == 0
            &&& !(a == i64::MIN && b == -1) ==> a == q * b + m
            &&& abs_int(m as int) < abs_int(b as int)
            &&& m == 0 || (m < 0) == (a < 0)
        }),
        b != 0 ==> (fold_i64(BinOp::DivU, a, b) matches Some(q) && fold_i64(BinOp::RemU, a, b) matches Some(m)
            && a as u64 == (q as u64) * (b as u64) + (m as u64) && (m as u64) < (b as u64)),
{
    if b != 0 {
        lemma_trunc_div_rem(a as int, b as int);
        let ub = b as u64;
        let ua = a as u64;
        assert(ub != 0) by (bit_vector)
            requires
                ub == b as u64,
                b != 0,
        ;
        lemma_fundamental_div_mod(ua as int, ub as int);
        lemma_mod_pos_bound(ua as int, ub as int);
        lemma_div_pos_is_pos(ua as int, ub as int);
        let uq = ua / ub;
        let um = ua % ub;
        assert(((uq as i64) as u64) == uq && ((um as i64) as u64) == um) by (bit_vector);
        assert(ua as int == (uq as int) * (ub as int) + (um as int)) by (nonlinear_arith)
            requires
                ua as int == (ub as int) * (uq as int) + (um as int),
        ;
        let td = trunc_div(a as int, b as int);
        if !(a == i64::MIN && b == -1) {
            assert(td <= i64::MAX) by {
                if abs_int(b as int) >= 2 {
                } else {
                    assert(b == 1 || b == -1);
                }
            }
        } else {
            assert(abs_int(a as int) == 0x8000_0000_0000_0000int);
            assert(abs_int(b as int) == 1);
            assert(0x8000_0000_0000_0000int / 1 == 0x8000_0000_0000_0000int);
            assert(td == 0x8000_0000_0000_0000int);
        }
    }
}

/// Law: folding two `i32` constants gives the wasm value of the operation
/// (see `lemma_fold_i64_arithmetic`), modulo 2^32.
pub proof fn lemma_fold_i32_arithmetic(a: i32, b: i32)
    ensures
        fold_i32(BinOp::Add, a, b) matches Some(r) && (r - (a + b)) % 0x1_0000_0000int == 0,
        fold_i32(BinOp::Sub, a, b) matches Some(r) && (r - (a - b)) % 0x1_0000_0000int == 0,
        fold_i32(BinOp::Mul, a, b) matches Some(r) && (r - a * b) % 0x1_0000_0000int == 0,
        b == 0 ==> fold_i32(BinOp::DivS, a, b) is None && fold_i32(BinOp::DivU, a, b) is None
            && fold_i32(BinOp::RemS, a, b) is None && fold_i32(BinOp::RemU, a, b) is None,
        b != 0 ==> (fold_i32(BinOp::DivS, a, b) matches Some(q) && fold_i32(BinOp::RemS, a, b) matches Some(m) && {
            &&& (a == i32::MIN && b == -1) ==> q == i32::MIN && m == 0
            &&& !(a == i32::MIN && b == -1) ==> a == q * b + m
            &&& abs_int(m as int) < abs_int(b as int)
            &&& m == 0 || (m < 0) == (a < 0)
        }),
        b != 0 ==> (fold_i32(BinOp::DivU, a, b) matches Some(q) && fold_i32(BinOp::RemU, a, b) matches Some(m)
            && a as u32 == (q as u32) * (b as u32) + (m as u32) && (m as u32) < (b as u32)),
{
    if b != 0 {
        lemma_trunc_div_rem(a as int, b as int);
        let ub = b as u32;
        let ua = a as u32;
        assert(ub != 0) by (bit_vector)
            requires
                ub == b as u32,
                b != 0,
        ;
        lemma_fundamental_div_mod(ua as int, ub as int);
        lemma_mod_pos_bound(ua as int, ub as int);
        lemma_div_pos_is_pos(ua as int, ub as int);
        let uq = ua / ub;
        let um = ua % ub;
        assert(((uq as i32) as u32) == uq && ((um as i32) as u32) == um) by (bit_vector);
        assert(ua as int == (uq as int) * (ub as int) + (um as int)) by (nonlinear_arith)
            requires
                ua as int == (ub as int) * (uq as int) + (um as int),
        ;
        let td = trunc_div(a as int, b as int);
        if !(a == i32::MIN && b == -1) {
            assert(td <= i32::MAX) by {
                if abs_int(b as int) >= 2 {
                } else {
                    assert(b == 1 || b == -1);
                }
            }
        } else {
            assert(abs_int(a as int) == 0x8000_0000int);
            assert(abs_int(b as int) == 1);
            assert(0x8000_0000int / 1 == 0x8000_0000int);
            assert(td == 0x8000_0000int);
        }
    }
}

/// Bit `i` of a 64-bit pattern.
pub open spec fn bit64(x: u64, i: u64) -> bool {
    (x >> i) & 1 == 1
}

/// Law: folding two `i64` constants with a bitwise operator gives the wasm
/// value bit by bit: `and`, `or` and `xor` combine the operands' bits in the
/// same place; a shift by `k` (the count modulo 64) moves bit `i - k` (left),
/// or bit `i + k` (right, zero or sign bits coming in), to place `i`; a
/// rotation moves bits around, none lost.
pub proof fn lemma_fold_i64_bits(a: i64, b: i64, i: u64)
    requires
        i < 64,
    ensures
        ({
            let x = a as u64;
            let y = b as u64;
            let k = ((b as u32) % 64) as u64;
            &&& fold_i64(BinOp::And, a, b) matches Some(r) && bit64(r as u64, i) == (bit64(x, i) && bit64(y, i))
            &&& fold_i64(BinOp::Or, a, b) matches Some(r) && bit64(r as u64, i) == (bit64(x, i) || bit64(y, i))
            &&& fold_i64(BinOp::Xor, a, b) matches Some(r) && bit64(r as u64, i) == (bit64(x, i) != bit64(y, i))
            &&& fold_i64(BinOp::Shl, a, b) matches Some(r) && bit64(r as u64, i) == (i >= k && bit64(x, (i - k) as u64))
            &&& fold_i64(BinOp::ShrU, a, b) matches Some(r) && bit64(r as u64, i) == (i + k < 64 && bit64(x, (i + k) as u64))
            &&& fold_i64(BinOp::ShrS, a, b) matches Some(r) && bit64(r as u64, i) == bit64(x, if i + k < 64 { (i + k) as u64 } else { 63 })
            &&& fold_i64(BinOp::Rotl, a, b) matches Some(r) && bit64(r as u64, i) == bit64(x, ((i + 64 - k) % 64) as u64)
            &&& fold_i64(BinOp::Rotr, a, b) matches Some(r) && bit64(r as u64, i) == bit64(x, ((i + k) % 64) as u64)
        }),
{
    let x = a as u64;
    let y = b as u64;
    let k = ((b as u32) % 64) as u64;
    assert(bit64((a & b) as u64, i) == (bit64(x, i) && bit64(y, i))) by (bit_vector)
        requires x == a as u64, y == b as u64, i < 64;
    assert(bit64((a | b) as u64, i) == (bit64(x, i) || bit64(y, i))) by (bit_vector)
        requires x == a as u64, y == b as u64, i < 64;
    assert(bit64((a ^ b) as u64, i) == (bit64(x, i) != bit64(y, i))) by (bit_vector)
        requires x == a as u64, y == b as u64, i < 64;
    let s = (b as u32) % 64;
    assert(k == s as u64 && s < 64);
    assert(bit64((a << s) as u64, i) == (i >= k && bit64(x, (i - k) as u64))) by (bit_vector)
        requires x == a as u64, k == s as u64, s < 64, i < 64;
    assert(bit64((a >> s) as u64, i) == bit64(x, if i + k < 64 { (i + k) as u64 } else { 63 })) by (bit_vector)
        requires x == a as u64, k == s as u64, s < 64, i < 64;
    assert(bit64(((x >> s) as i64) as u64, i) == (i + k < 64 && bit64(x, (i + k) as u64))) by (bit_vector)
        requires k == s as u64, s < 64, i < 64;
    assert(bit64((rotl64(x, b as u32) as i64) as u64, i) == bit64(x, ((i + 64 - k) % 64) as u64)) by {
        if s == 0 {
            assert(bit64((x as i64) as u64, i) == bit64(x, ((i + 64 - k) % 64) as u64)) by (bit_vector)
                requires k == 0, i < 64;
        } else {
            assert(bit64((((x << s) | (x >> ((64 - s) as u32))) as i64) as u64, i) == bit64(x, ((i + 64 - k) % 64) as u64))
                by (bit_vector)
                requires k == s as u64, 0 < s < 64, i < 64;
        }
    }
    assert(bit64((rotr64(x, b as u32) as i64) as u64, i) == bit64(x, ((i + k) % 64) as u64)) by {
        if s == 0 {
            assert(bit64((x as i64) as u64, i) == bit64(x, ((i + k) % 64) as u64)) by (bit_vector)
                requires k == 0, i < 64;
        } else {
            assert(bit64((((x >> s) | (x << ((64 - s) as u32))) as i64) as u64, i) == bit64(x, ((i + k) % 64) as u64))
                by (bit_vector)
                requires k == s as u64, 0 < s < 64, i < 64;
        }
    }
}

/// Bit `i` of a 32-bit pattern.
pub open spec fn bit32(x: u32, i: u32) -> bool {
    (x >> i) & 1 == 1
}

/// Law: folding two `i32` constants with a bitwise operator gives the wasm
/// value bit by bit: `and`, `or` and `xor` combine the operands' bits in the
/// same place; a shift by `k` (the count modulo 32) moves bit `i - k` (left),
/// or bit `i + k` (right, zero or sign bits coming in), to place `i`; a
/// rotation moves bits around, none lost.
pub proof fn lemma_fold_i32_bits(a: i32, b: i32, i: u32)
    requires
        i < 32,
    ensures
        ({
            let x = a as u32;
            let y = b as u32;
            let k = ((b as u32) % 32) as u32;
            &&& fold_i32(BinOp::And, a, b) matches Some(r) && bit32(r as u32, i) == (bit32(x, i) && bit32(y, i))
            &&& fold_i32(BinOp::Or, a, b) matches Some(r) && bit32(r as u32, i) == (bit32(x, i) || bit32(y, i))
            &&& fold_i32(BinOp::Xor, a, b) matches Some(r) && bit32(r as u32, i) == (bit32(x, i) != bit32(y, i))
            &&& fold_i32(BinOp::Shl, a, b) matches Some(r) && bit32(r as u32, i) == (i >= k && bit32(x, (i - k) as u32))
            &&& fold_i32(BinOp::ShrU, a, b) matches Some(r) && bit32(r as u32, i) == (i + k < 32 && bit32(x, (i + k) as u32))
            &&& fold_i32(BinOp::ShrS, a, b) matches Some(r) && bit32(r as u32, i) == bit32(x, if i + k < 32 { (i + k) as u32 } else { 31 })
            &&& fold_i32(BinOp::Rotl, a, b) matches Some(r) && bit32(r as u32, i) == bit32(x, ((i + 32 - k) % 32) as u32)
            &&& fold_i32(BinOp::Rotr, a, b) matches Some(r) && bit32(r as u32, i) == bit32(x, ((i + k) % 32) as u32)
        }),
{
    let x = a as u32;
    let y = b as u32;
    let k = ((b as u32) % 32) as u32;
    assert(bit32((a & b) as u32, i) == (bit32(x, i) && bit32(y, i))) by (bit_vector)
        requires x == a as u32, y == b as u32, i < 32;
    assert(bit32((a | b) as u32, i) == (bit32(x, i) || bit32(y, i))) by (bit_vector)
        requires x == a as u32, y == b as u32, i < 32;
    assert(bit32((a ^ b) as u32, i) == (bit32(x, i) != bit32(y, i))) by (bit_vector)
        requires x == a as u32, y == b as u32, i < 32;
    let s = (b as u32) % 32;
    assert(k == s as u32 && s < 32);
    assert(bit32((a << s) as u32, i) == (i >= k && bit32(x, (i - k) as u32))) by (bit_vector)
        requires x == a as u32, k == s as u32, s < 32, i < 32;
    assert(bit32((a >> s) as u32, i) == bit32(x, if i + k < 32 { (i + k) as u32 } else { 31 })) by (bit_vector)
        requires x == a as u32, k == s as u32, s < 32, i < 32;
    assert(bit32(((x >> s) as i32) as u32, i) == (i + k < 32 && bit32(x, (i + k) as u32))) by (bit_vector)
        requires k == s as u32, s < 32, i < 32;
    assert(bit32((rotl32(x, b as u32) as i32) as u32, i) == bit32(x, ((i + 32 - k) % 32) as u32)) by {
        if s == 0 {
            assert(bit32((x as i32) as u32, i) == bit32(x, ((i + 32 - k) % 32) as u32)) by (bit_vector)
                requires k == 0, i < 32;
        } else {
            assert(bit32((((x << s) | (x >> ((32 - s) as u32))) as i32) as u32, i) == bit32(x, ((i + 32 - k) % 32) as u32))
                by (bit_vector)
                requires k == s as u32, 0 < s < 32, i < 32;
        }
    }
    assert(bit32((rotr32(x, b as u32) as i32) as u32, i) == bit32(x, ((i + k) % 32) as u32)) by {
        if s == 0 {
            assert(bit32((x as i32) as u32, i) == bit32(x, ((i + k) % 32) as u32)) by (bit_vector)
                requires k == 0, i < 32;
        } else {
            assert(bit32((((x >> s) | (x << ((32 - s) as u32))) as i32) as u32, i) == bit32(x, ((i + k) % 32) as u32))
                by (bit_vector)
                requires k == s as u32, 0 < s < 32, i < 32;
        }
    }
}

/// An `i32` constant expression.
pub open spec fn i32c(v: i32) -> ExprV {
    ExprV { kind: ExprKindV::I32Const(v), ty: InferredType::I32 }
}

/// An `i64` constant expression.
pub open spec fn i64c(v: i64) -> ExprV {
    ExprV { kind: ExprKindV::I64Const(v), ty: InferredType::I64 }
}

/// Constant folding of a binary operation on two integer constants of the same width.
pub open spec fn spec_fold_binop(op: BinOp, a: ExprV, b: ExprV) -> Option<ExprV> {
    match (a.kind, b.kind) {
        (ExprKindV::I32Const(x), ExprKindV::I32Const(y)) => match fold_i32(op, x, y) {
            Some(v) => Some(i32c(v)),
            None => None,
        },
        (ExprKindV::I64Const(x), ExprKindV::I64Const(y)) => match fold_i64(op, x, y) {
            Some(v) => Some(i64c(v)),
            None => None,
        },
        _ => None,
    }
}

/// The expression is the integer constant zero (of either width).
pub open spec fn is_zero(e: ExprV) -> bool {
    e.kind == ExprKindV::I32Const(0) || e.kind == ExprKindV::I64Const(0)
}

/// The expression is the integer constant one (of either width).
pub open spec fn is_one(e: ExprV) -> bool {
    e.kind == ExprKindV::I32Const(1) || e.kind == ExprKindV::I64Const(1)
}

/// Algebraic simplifications: `x + 0`, `x - 0`, `x | 0`, `x ^ 0` and the
/// commuted forms of `+ | ^` give `x`; `x * 0` gives 0; `x * 1` and `1 * x`
/// give `x`; `x & 0` gives 0; `x & -1` gives `x`; shifts by 0 give `x`.
pub open spec fn spec_algebraic(op: BinOp, a: ExprV, b: ExprV) -> Option<ExprV> {
    match op {
        BinOp::Add | BinOp::Sub | BinOp::Or | BinOp::Xor => if is_zero(b) {
            Some(a)
        } else if is_zero(a) && op != BinOp::Sub {
            Some(b)
        } else {
            None
        },
        BinOp::Mul => if b.kind == ExprKindV::I32Const(0) || a.kind == ExprKindV::I32Const(0) {
            Some(i32c(0))
        } else if b.kind == ExprKindV::I64Const(0) || a.kind == ExprKindV::I64Const(0) {
            Some(i64c(0))
        } else if is_one(b) {
            Some(a)
        } else if is_one(a) {
            Some(b)
        } else {
            None
        },
        BinOp::And => if b.kind == ExprKindV::I32Const(0) {
            Some(i32c(0))
        } else if b.kind == ExprKindV::I64Const(0) {
            Some(i64c(0))
        } else if b.kind == ExprKindV::I32Const(-1i32) || b.kind == ExprKindV::I64Const(-1i64) {
            Some(a)
        } else {
            None
        },
        BinOp::Shl | BinOp::ShrS | BinOp::ShrU => if is_zero(b) { Some(a) } else { None },
        _ => None,
    }
}

/// Constant folding of an integer unary operation.
pub open spec fn spec_fold_unaryop(op: UnaryOp, a: ExprV) -> Option<ExprV> {
    match a.kind {
        ExprKindV::I32Const(v) => match op {
            UnaryOp::Clz => Some(i32c(vstd::std_specs::bits::u32_leading_zeros(v as u32) as i32)),
            UnaryOp::Ctz => Some(i32c(vstd::std_specs::bits::u32_trailing_zeros(v as u32) as i32)),
            UnaryOp::Popcnt => Some(i32c(popcount((v as u32) as nat) as i32)),
            UnaryOp::Eqz => Some(i32c(if v == 0 { 1 } else { 0 })),
            _ => None,
        },
        ExprKindV::I64Const(v) => match op {
            UnaryOp::Clz => Some(i64c(vstd::std_specs::bits::u64_leading_zeros(v as u64) as i64)),
            UnaryOp::Ctz => Some(i64c(vstd::std_specs::bits::u64_trailing_zeros(v as u64) as i64)),
            UnaryOp::Popcnt => Some(i64c(popcount((v as u64) as nat) as i64)),
            UnaryOp::Eqz => Some(i64c(if v == 0 { 1 } else { 0 })),
            _ => None,
        },
        _ => None,
    }
}

/// Constant folding of an integer comparison of two constants of the same
/// width: 1 when it holds, 0 when it does not.
pub open spec fn spec_fold_compare(op: CmpOp, a: ExprV, b: ExprV) -> Option<ExprV> {
    match (a.kind, b.kind) {
        (ExprKindV::I32Const(x), ExprKindV::I32Const(y)) => match int_compare(op, x as int, y as int, (x as u32) as int, (y as u32) as int) {
            Some(t) => Some(i32c(if t { 1 } else { 0 })),
            None => None,
        },
        (ExprKindV::I64Const(x), ExprKindV::I64Const(y)) => match int_compare(op, x as int, y as int, (x as u64) as int, (y as u64) as int) {
            Some(t) => Some(i32c(if t { 1 } else { 0 })),
            None => None,
        },
        _ => None,
    }
}

/// An integer comparison, given the signed (`x`, `y`) and unsigned (`ux`,
/// `uy`) readings of the operands; `None` for the float comparisons.
pub open spec fn int_compare(op: CmpOp, x: int, y: int, ux: int, uy: int) -> Option<bool> {
    match op {
        CmpOp::Eq => Some(x == y),
        CmpOp::Ne => Some(x != y),
        CmpOp::LtS => Some(x < y),
        CmpOp::LtU => Some(ux < uy),
        CmpOp::GtS => Some(x > y),
        CmpOp::GtU => Some(ux > uy),
        CmpOp::LeS => Some(x <= y),
        CmpOp::LeU => Some(ux <= uy),
        CmpOp::GeS => Some(x >= y),
        CmpOp::GeU => Some(ux >= uy),
        _ => None,
    }
}

/// Law: folding an integer conversion keeps the value where it fits and
/// otherwise its low bits: a signed extension keeps the value; an unsigned one
/// gives the non-negative number below 2^32 with the same bits; a wrap keeps
/// the low 32 bits; `extend8_s`/`extend16_s`/`extend32_s` give a value of that
/// many bits with the same low bits. Reinterpreting an integer as a float and
/// back gives the integer again.
pub proof fn lemma_fold_convert_values(v: i32, w: i64)
    ensures
        spec_fold_convert(ConvertOp::I64ExtendI32S, i32c(v)) matches Some(r) && r.kind matches ExprKindV::I64Const(x) && x == v,
        spec_fold_convert(ConvertOp::I64ExtendI32U, i32c(v)) matches Some(r) && r.kind matches ExprKindV::I64Const(x)
            && 0 <= x < 0x1_0000_0000 && (x as u64) & 0xffff_ffff == (v as u32) as u64,
        spec_fold_convert(ConvertOp::I32WrapI64, i64c(w)) matches Some(r) && r.kind matches ExprKindV::I32Const(x)
            && (x as u32) as u64 == (w as u64) & 0xffff_ffff,
        spec_fold_convert(ConvertOp::I32Extend8S, i32c(v)) matches Some(r) && r.kind matches ExprKindV::I32Const(x)
            && -128 <= x < 128 && (x as u32) & 0xff == (v as u32) & 0xff,
        spec_fold_convert(ConvertOp::I32Extend16S, i32c(v)) matches Some(r) && r.kind matches ExprKindV::I32Const(x)
            && -32768 <= x < 32768 && (x as u32) & 0xffff == (v as u32) & 0xffff,
        spec_fold_convert(ConvertOp::I64Extend8S, i64c(w)) matches Some(r) && r.kind matches ExprKindV::I64Const(x)
            && -128 <= x < 128 && (x as u64) & 0xff == (w as u64) & 0xff,
        spec_fold_convert(ConvertOp::I64Extend16S, i64c(w)) matches Some(r) && r.kind matches ExprKindV::I64Const(x)
            && -32768 <= x < 32768 && (x as u64) & 0xffff == (w as u64) & 0xffff,
        spec_fold_convert(ConvertOp::I64Extend32S, i64c(w)) matches Some(r) && r.kind matches ExprKindV::I64Const(x)
            && i32::MIN <= x <= i32::MAX && (x as u64) & 0xffff_ffff == (w as u64) & 0xffff_ffff,
        spec_fold_convert(ConvertOp::F32ReinterpretI32, i32c(v)) matches Some(f)
            && spec_fold_convert(ConvertOp::I32ReinterpretF32, f) == Some(i32c(v)),
        spec_fold_convert(ConvertOp::F64ReinterpretI64, i64c(w)) matches Some(f)
            && spec_fold_convert(ConvertOp::I64ReinterpretF64, f) == Some(i64c(w)),
{
    assert(((v as u32) as i32) == v) by (bit_vector);
    assert(((w as u64) as i64) == w) by (bit_vector);
    assert((((v as u32) as i64) as u64) & 0xffff_ffff == (v as u32) as u64) by (bit_vector);
    assert(((w as i32) as u32) as u64 == (w as u64) & 0xffff_ffff) by (bit_vector);
    assert((((v as i8) as i32) as u32) & 0xff == (v as u32) & 0xff) by (bit_vector);
    assert((((v as i16) as i32) as u32) & 0xffff == (v as u32) & 0xffff) by (bit_vector);
    assert((((w as i8) as i64) as u64) & 0xff == (w as u64) & 0xff) by (bit_vector);
    assert((((w as i16) as i64) as u64) & 0xffff == (w as u64) & 0xffff) by (bit_vector);
    assert((((w as i32) as i64) as u64) & 0xffff_ffff == (w as u64) & 0xffff_ffff) by (bit_vector);
}

/// Law: `eqz` of a constant folds to the value that comparing it with zero
/// folds to (as a constant of the operand's width).
pub proof fn lemma_eqz_is_compare_with_zero(v: i32, w: i64)
    ensures
        spec_fold_unaryop(UnaryOp::Eqz, i32c(v)) == spec_fold_compare(CmpOp::Eq, i32c(v), i32c(0)),
        spec_fold_unaryop(UnaryOp::Eqz, i64c(w)) matches Some(r) && spec_fold_compare(CmpOp::Eq, i64c(w), i64c(0)) matches Some(c)
            && r.kind matches ExprKindV::I64Const(x) && c.kind matches ExprKindV::I32Const(y) && x == y,
{
}

/// The comparison that holds of `(y, x)` exactly when `op` holds of `(x, y)`.
pub open spec fn swapped_compare(op: CmpOp) -> CmpOp {
    match op {
        CmpOp::LtS => CmpOp::GtS,
        CmpOp::GtS => CmpOp::LtS,
        CmpOp::LtU => CmpOp::GtU,
        CmpOp::GtU => CmpOp::LtU,
        CmpOp::LeS => CmpOp::GeS,
        CmpOp::GeS => CmpOp::LeS,
        CmpOp::LeU => CmpOp::GeU,
        CmpOp::GeU => CmpOp::LeU,
        CmpOp::FLt => CmpOp::FGt,
        CmpOp::FGt => CmpOp::FLt,
        CmpOp::FLe => CmpOp::FGe,
        CmpOp::FGe => CmpOp::FLe,
        _ => op,
    }
}

/// A comparison of floats.
pub open spec fn is_float_compare(op: CmpOp) -> bool {
    op is FEq || op is FNe || op is FLt || op is FGt || op is FLe || op is FGe
}

/// Law: the integer comparisons behave as orders: each one and its negation
/// give opposite answers; turning the operands around turns `<` into `>`
/// (and `<=` into `>=`); a value is equal to, at most and at least itself but
/// neither below nor above it; `lt_s` and `lt_u` compare the signed and the
/// unsigned readings.
pub proof fn lemma_integer_compare_laws(op: CmpOp, x: int, y: int, ux: int, uy: int)
    requires
        !is_float_compare(op),
    ensures
        int_compare(op, x, y, ux, uy) matches Some(t) && int_compare(negated_compare(op), x, y, ux, uy) == Some(!t),
        int_compare(swapped_compare(op), y, x, uy, ux) == int_compare(op, x, y, ux, uy),
        int_compare(op, x, x, ux, ux) == Some(op is Eq || op is LeS || op is LeU || op is GeS || op is GeU),
        int_compare(CmpOp::LtS, x, y, ux, uy) == Some(x < y),
        int_compare(CmpOp::LtU, x, y, ux, uy) == Some(ux < uy),
{
}

/// Law: the algebraic rules agree with arithmetic: where both apply to two
/// constants, a rule gives the constant that folding computes.
pub proof fn lemma_algebraic_agrees_with_folding(op: BinOp, a: ExprV, b: ExprV)
    requires
        spec_fold_binop(op, a, b) is Some,
        spec_algebraic(op, a, b) is Some,
    ensures
        spec_algebraic(op, a, b)->0.kind == spec_fold_binop(op, a, b)->0.kind,
{
    match (a.kind, b.kind) {
        (ExprKindV::I32Const(x), ExprKindV::I32Const(y)) => {
            lemma_identities_i32(x);
            lemma_identities_i32(y);
        },
        (ExprKindV::I64Const(x), ExprKindV::I64Const(y)) => {
            lemma_identities_i64(x);
            lemma_identities_i64(y);
        },
        _ => {},
    }
}

proof fn lemma_identities_i32(x: i32)
    ensures
        fold_i32(BinOp::Add, x, 0) == Some(x) && fold_i32(BinOp::Add, 0, x) == Some(x),
        fold_i32(BinOp::Sub, x, 0) == Some(x),
        fold_i32(BinOp::Or, x, 0) == Some(x) && fold_i32(BinOp::Or, 0, x) == Some(x),
        fold_i32(BinOp::Xor, x, 0) == Some(x) && fold_i32(BinOp::Xor, 0, x) == Some(x),
        fold_i32(BinOp::Mul, x, 0) == Some(0i32) && fold_i32(BinOp::Mul, 0, x) == Some(0i32),
        fold_i32(BinOp::Mul, x, 1) == Some(x) && fold_i32(BinOp::Mul, 1, x) == Some(x),
        fold_i32(BinOp::And, x, 0) == Some(0i32) && fold_i32(BinOp::And, x, -1i32) == Some(x),
        fold_i32(BinOp::Shl, x, 0) == Some(x) && fold_i32(BinOp::ShrS, x, 0) == Some(x) && fold_i32(BinOp::ShrU, x, 0) == Some(x),
{
    let z: i32 = 0;
    let m: i32 = -1i32;
    assert(x << 0u32 == x) by (bit_vector);
    assert(x >> 0u32 == x) by (bit_vector);
    assert((((x as u32) >> 0u32) as i32) == x) by (bit_vector);
    assert(x | z == x && z | x == x && x ^ z == x && z ^ x == x && x & z == z && x & m == x) by (bit_vector)
        requires z == 0, m == -1;
    assert(0u32 % 32 == 0);
    assert(i32_specs::wrapping_mul(x, 1) == x);
    assert(i32_specs::wrapping_mul(1, x) == x);
    assert(i32_specs::wrapping_mul(x, 0) == 0);
    assert(i32_specs::wrapping_mul(0, x) == 0);
}

proof fn lemma_identities_i64(x: i64)
    ensures
        fold_i64(BinOp::Add, x, 0) == Some(x) && fold_i64(BinOp::Add, 0, x) == Some(x),
        fold_i64(BinOp::Sub, x, 0) == Some(x),
        fold_i64(BinOp::Or, x, 0) == Some(x) && fold_i64(BinOp::Or, 0, x) == Some(x),
        fold_i64(BinOp::Xor, x, 0) == Some(x) && fold_i64(BinOp::Xor, 0, x) == Some(x),
        fold_i64(BinOp::Mul, x, 0) == Some(0i64) && fold_i64(BinOp::Mul, 0, x) == Some(0i64),
        fold_i64(BinOp::Mul, x, 1) == Some(x) && fold_i64(BinOp::Mul, 1, x) == Some(x),
        fold_i64(BinOp::And, x, 0) == Some(0i64) && fold_i64(BinOp::And, x, -1i64) == Some(x),
        fold_i64(BinOp::Shl, x, 0) == Some(x) && fold_i64(BinOp::ShrS, x, 0) == Some(x) && fold_i64(BinOp::ShrU, x, 0) == Some(x),
{
    let z: i64 = 0;
    let m: i64 = -1i64;
    assert(x << 0u32 == x) by (bit_vector);
    assert(x >> 0u32 == x) by (bit_vector);
    assert((((x as u64) >> 0u32) as i64) == x) by (bit_vector);
    assert(x | z == x && z | x == x && x ^ z == x && z ^ x == x && x & z == z && x & m == x) by (bit_vector)
        requires z == 0, m == -1;
    assert(0u32 % 64 == 0);
    assert(i64_specs::wrapping_mul(x, 1) == x);
    assert(i64_specs::wrapping_mul(1, x) == x);
    assert(i64_specs::wrapping_mul(x, 0) == 0);
    assert(i64_specs::wrapping_mul(0, x) == 0);
}

/// An `f32` constant expression given by its bit pattern.
pub open spec fn f32c(bits: u32) -> ExprV {
    ExprV { kind: ExprKindV::F32Const(bits), ty: InferredType::F32 }
}

/// An `f64` constant expression given by its bit pattern.
pub open spec fn f64c(bits: u64) -> ExprV {
    ExprV { kind: ExprKindV::F64Const(bits), ty: InferredType::F64 }
}

/// Constant folding of a conversion: integer extensions and wraps, and the
/// bit reinterpretations between integers and floats.
pub open spec fn spec_fold_convert(op: ConvertOp, a: ExprV) -> Option<ExprV> {
    match a.kind {
        ExprKindV::I32Const(v) => match op {
            ConvertOp::I64ExtendI32S => Some(i64c(v as i64)),
            ConvertOp::I64ExtendI32U => Some(i64c((v as u32) as i64)),
            ConvertOp::I32Extend8S => Some(i32c((v as i8) as i32)),
            ConvertOp::I32Extend16S => Some(i32c((v as i16) as i32)),
            ConvertOp::F32ReinterpretI32 => Some(f32c(v as u32)),
            _ => None,
        },
        ExprKindV::I64Const(v) => match op {
            ConvertOp::I32WrapI64 => Some(i32c(v as i32)),
            ConvertOp::I64Extend8S => Some(i64c((v as i8) as i64)),
            ConvertOp::I64Extend16S => Some(i64c((v as i16) as i64)),
            ConvertOp::I64Extend32S => Some(i64c((v as i32) as i64)),
            ConvertOp::F64ReinterpretI64 => Some(f64c(v as u64)),
            _ => None,
        },
        ExprKindV::F32Const(bits) => match op {
            ConvertOp::I32ReinterpretF32 => Some(i32c(bits as i32)),
            _ => None,
        },
        ExprKindV::F64Const(bits) => match op {
            ConvertOp::I64ReinterpretF64 => Some(i64c(bits as i64)),
            _ => None,
        },
        _ => None,
    }
}

/// A binary operation after its operands were simplified: folded, else
/// simplified algebraically, else rebuilt.
pub open spec fn simplify_binop(op: BinOp, a: ExprV, b: ExprV, ty: InferredType) -> ExprV {
    match spec_fold_binop(op, a, b) {
        Some(r) => r,
        None => match spec_algebraic(op, a, b) {
            Some(r) => r,
            None => ExprV { kind: ExprKindV::BinOp(op, Box::new(a), Box::new(b)), ty },
        },
    }
}

/// An expression after simplification, bottom up.
pub open spec fn spec_simplify_expr(e: ExprV) -> ExprV
    decreases e,
{
    match e.kind {
        ExprKindV::BinOp(op, a, b) => simplify_binop(op, spec_simplify_expr(*a), spec_simplify_expr(*b), e.ty),
        ExprKindV::UnaryOp(op, a) => {
            let sa = spec_simplify_expr(*a);
            match spec_fold_unaryop(op, sa) {
                Some(r) => r,
                None => ExprV { kind: ExprKindV::UnaryOp(op, Box::new(sa)), ty: e.ty },
            }
        },
        ExprKindV::Compare(op, a, b, t) => {
            let sa = spec_simplify_expr(*a);
            let sb = spec_simplify_expr(*b);
            match spec_fold_compare(op, sa, sb) {
                Some(r) => r,
                None => ExprV { kind: ExprKindV::Compare(op, Box::new(sa), Box::new(sb), t), ty: e.ty },
            }
        },
        ExprKindV::Load { addr, offset, size, signed } => ExprV {
            kind: ExprKindV::Load { addr: Box::new(spec_simplify_expr(*addr)), offset, size, signed },
            ty: e.ty,
        },
        ExprKindV::Call { func, args } => ExprV { kind: ExprKindV::Call { func, args: spec_simplify_exprs(args) }, ty: e.ty },
        ExprKindV::CallIndirect { type_idx, table_idx, index, args } => ExprV {
            kind: ExprKindV::CallIndirect {
                type_idx,
                table_idx,
                index: Box::new(spec_simplify_expr(*index)),
                args: spec_simplify_exprs(args),
            },
            ty: e.ty,
        },
        ExprKindV::Select { cond, then_val, else_val } => {
            let c = spec_simplify_expr(*cond);
            let t = spec_simplify_expr(*then_val);
            let f = spec_simplify_expr(*else_val);
            match c.kind {
                ExprKindV::I32Const(v) => if v != 0 { t } else { f },
                _ => ExprV {
                    kind: ExprKindV::Select { cond: Box::new(c), then_val: Box::new(t), else_val: Box::new(f) },
                    ty: e.ty,
                },
            }
        },
        ExprKindV::Convert { op, expr } => {
            let si = spec_simplify_expr(*expr);
            match spec_fold_convert(op, si) {
                Some(r) => r,
                None => ExprV { kind: ExprKindV::Convert { op, expr: Box::new(si) }, ty: e.ty },
            }
        },
        ExprKindV::GoString { ptr, len } => ExprV {
            kind: ExprKindV::GoString { ptr: Box::new(spec_simplify_expr(*ptr)), len: Box::new(spec_simplify_expr(*len)) },
            ty: e.ty,
        },
        ExprKindV::GoSlice { ptr, len, cap } => ExprV {
            kind: ExprKindV::GoSlice {
                ptr: Box::new(spec_simplify_expr(*ptr)),
                len: Box::new(spec_simplify_expr(*len)),
                cap: Box::new(spec_simplify_expr(*cap)),
            },
            ty: e.ty,
        },
        ExprKindV::GoInterface { type_ptr, data } => ExprV {
            kind: ExprKindV::GoInterface {
                type_ptr: Box::new(spec_simplify_expr(*type_ptr)),
                data: Box::new(spec_simplify_expr(*data)),
            },
            ty: e.ty,
        },
        _ => e,
    }
}

/// Each expression of a list after simplification.
pub open spec fn spec_simplify_exprs(s: Seq<ExprV>) -> Seq<ExprV>
    decreases s,
{
    if s.len() == 0 {
        Seq::empty()
    } else {
        spec_simplify_exprs(s.drop_last()).push(spec_simplify_expr(s.last()))
    }
}

/// The expression calls a function somewhere inside it.
pub open spec fn spec_has_side_effects(e: ExprV) -> bool
    decreases e,
{
    match e.kind {
        ExprKindV::Call { .. } | ExprKindV::CallIndirect { .. } => true,
        ExprKindV::BinOp(_, a, b) => spec_has_side_effects(*a) || spec_has_side_effects(*b),
        ExprKindV::UnaryOp(_, a) => spec_has_side_effects(*a),
        ExprKindV::Compare(_, a, b, _) => spec_has_side_effects(*a) || spec_has_side_effects(*b),
        ExprKindV::Load { addr, .. } => spec_has_side_effects(*addr),
        ExprKindV::Select { cond, then_val, else_val } =>
            spec_has_side_effects(*cond) || spec_has_side_effects(*then_val) || spec_has_side_effects(*else_val),
        ExprKindV::Convert { expr, .. } => spec_has_side_effects(*expr),
        ExprKindV::GoString { ptr, len } => spec_has_side_effects(*ptr) || spec_has_side_effects(*len),
        ExprKindV::GoSlice { ptr, len, cap } =>
            spec_has_side_effects(*ptr) || spec_has_side_effects(*len) || spec_has_side_effects(*cap),
        ExprKindV::GoInterface { type_ptr, data } => spec_has_side_effects(*type_ptr) || spec_has_side_effects(*data),
        _ => false,
    }
}

/// A statement without effect: a `nop`, or an expression statement or drop
/// whose expression has no side effects.
pub open spec fn spec_is_dead(s: StmtV) -> bool {
    match s {
        StmtV::Nop => true,
        StmtV::Drop(e) => !spec_has_side_effects(e),
        StmtV::Expr(e) => !spec_has_side_effects(e),
        _ => false,
    }
}

/// Some statement of the list, or of a block, loop or conditional nested in
/// it, branches to `label` (by `br`, `br_if` or a `br_table` target).
pub open spec fn spec_branches_to(stmts: Seq<StmtV>, label: u32) -> bool
    decreases stmts,
{
    if stmts.len() == 0 {
        false
    } else {
        spec_branches_to(stmts.drop_last(), label) || spec_stmt_branches_to(stmts.last(), label)
    }
}

/// A branch table with these targets and default has `label` among them.
pub open spec fn table_branches_to(targets: Seq<BranchTarget>, default: BranchTarget, label: u32) -> bool {
    default.label == label || exists|i: int| 0 <= i < targets.len() && (#[trigger] targets[i]).label == label
}

/// The statement, or a statement nested in it, branches to `label`.
pub open spec fn spec_stmt_branches_to(s: StmtV, label: u32) -> bool
    decreases s,
{
    match s {
        StmtV::Br { label: l, .. } => l == label,
        StmtV::BrIf { label: l, .. } => l == label,
        StmtV::BrTable { targets, default, .. } => table_branches_to(targets, default, label),
        StmtV::Block { body, .. } => spec_branches_to(body.stmts, label),
        StmtV::Loop { body, .. } => spec_branches_to(body.stmts, label),
        StmtV::DoWhile { body, .. } => spec_branches_to(body.stmts, label),
        StmtV::While { body, .. } => spec_branches_to(body.stmts, label),
        StmtV::If { then_block, else_block, .. } => spec_branches_to(then_block.stmts, label) || match else_block {
            Some(b) => spec_branches_to(b.stmts, label),
            None => false,
        },
        _ => false,
    }
}

/// A block labelled `label` opens with a forward `br_if` out of itself,
/// has more after it, and nothing after it branches to `label`.
pub open spec fn spec_can_transform_block_to_if(body: BlockV, label: u32) -> bool {
    &&& body.stmts.len() >= 2
    &&& body.stmts[0] matches StmtV::BrIf { label: l, is_loop, .. } && l == label && !is_loop
    &&& !spec_branches_to(body.stmts.subrange(1, body.stmts.len() as int), label)
}

/// The comparison that holds exactly when `op` does not (for floats, as the
/// decompiler reads them).
pub open spec fn negated_compare(op: CmpOp) -> CmpOp {
    match op {
        CmpOp::Eq => CmpOp::Ne,
        CmpOp::Ne => CmpOp::Eq,
        CmpOp::LtS => CmpOp::GeS,
        CmpOp::LtU => CmpOp::GeU,
        CmpOp::GtS => CmpOp::LeS,
        CmpOp::GtU => CmpOp::LeU,
        CmpOp::LeS => CmpOp::GtS,
        CmpOp::LeU => CmpOp::GtU,
        CmpOp::GeS => CmpOp::LtS,
        CmpOp::GeU => CmpOp::LtU,
        CmpOp::FEq => CmpOp::FNe,
        CmpOp::FNe => CmpOp::FEq,
        CmpOp::FLt => CmpOp::FGe,
        CmpOp::FGt => CmpOp::FLe,
        CmpOp::FLe => CmpOp::FGt,
        CmpOp::FGe => CmpOp::FLt,
    }
}

/// The negation of a condition: a comparison with the operator inverted, the
/// operand of an `eqz`, or else `eqz` of the condition.
pub open spec fn spec_negate_condition(c: ExprV) -> ExprV {
    match c.kind {
        ExprKindV::Compare(op, a, b, t) => ExprV { kind: ExprKindV::Compare(negated_compare(op), a, b, t), ty: InferredType::Bool },
        ExprKindV::UnaryOp(UnaryOp::Eqz, inner) => *inner,
        _ => ExprV { kind: ExprKindV::UnaryOp(UnaryOp::Eqz, Box::new(c)), ty: InferredType::Bool },
    }
}

/// `block L { br_if L c; rest }` becomes `if (!c) { rest }` where it can;
/// any other statement is kept.
pub open spec fn spec_block_to_if(s: StmtV) -> StmtV {
    match s {
        StmtV::Block { label, body } => if spec_can_transform_block_to_if(body, label) {
            match body.stmts[0] {
                StmtV::BrIf { cond, .. } => StmtV::If {
                    cond: spec_negate_condition(cond),
                    then_block: BlockV { stmts: body.stmts.subrange(1, body.stmts.len() as int) },
                    else_block: None,
                },
                _ => s,
            }
        } else {
            s
        },
        _ => s,
    }
}

/// An optional expression after simplification.
pub open spec fn spec_simplify_opt(e: Option<ExprV>) -> Option<ExprV> {
    match e {
        Some(x) => Some(spec_simplify_expr(x)),
        None => None,
    }
}

/// A statement after simplification: its expressions are simplified and its
/// nested blocks simplified as blocks.
pub open spec fn spec_simplify_stmt(s: StmtV) -> StmtV
    decreases s,
{
    match s {
        StmtV::LocalSet { local, value } => StmtV::LocalSet { local, value: spec_simplify_expr(value) },
        StmtV::GlobalSet { global, value } => StmtV::GlobalSet { global, value: spec_simplify_expr(value) },
        StmtV::Store { addr, offset, value, size } => StmtV::Store {
            addr: spec_simplify_expr(addr),
            offset,
            value: spec_simplify_expr(value),
            size,
        },
        StmtV::Expr(e) => StmtV::Expr(spec_simplify_expr(e)),
        StmtV::Return(v) => StmtV::Return(spec_simplify_opt(v)),
        StmtV::If { cond, then_block, else_block } => StmtV::If {
            cond: spec_simplify_expr(cond),
            then_block: spec_simplify_block(then_block),
            else_block: match else_block {
                Some(b) => Some(spec_simplify_block(b)),
                None => None,
            },
        },
        StmtV::Block { label, body } => StmtV::Block { label, body: spec_simplify_block(body) },
        StmtV::Loop { label, body } => StmtV::Loop { label, body: spec_simplify_block(body) },
        StmtV::DoWhile { body, cond } => StmtV::DoWhile { body: spec_simplify_block(body), cond: spec_simplify_expr(cond) },
        StmtV::While { cond, body } => StmtV::While { cond: spec_simplify_expr(cond), body: spec_simplify_block(body) },
        StmtV::BrIf { label, cond, is_loop } => StmtV::BrIf { label, cond: spec_simplify_expr(cond), is_loop },
        StmtV::BrTable { index, targets, default } => StmtV::BrTable { index: spec_simplify_expr(index), targets, default },
        StmtV::Drop(e) => StmtV::Drop(spec_simplify_expr(e)),
        _ => s,
    }
}

/// A block after simplification: each statement is simplified, the dead
/// ones are removed, and `block`s that open with a `br_if` out of themselves
/// become `if`s.
pub open spec fn spec_simplify_block(b: BlockV) -> BlockV
    decreases b,
{
    BlockV { stmts: spec_finish_stmts(spec_simplify_stmts(b.stmts)) }
}

/// Simplified statements with the dead ones removed and `block`s that open
/// with a `br_if` out of themselves turned into `if`s.
pub open spec fn spec_finish_stmts(s: Seq<StmtV>) -> Seq<StmtV> {
    s.filter(|x: StmtV| !spec_is_dead(x)).map_values(|x: StmtV| spec_block_to_if(x))
}

/// Each statement of a list after simplification.
pub open spec fn spec_simplify_stmts(s: Seq<StmtV>) -> Seq<StmtV>
    decreases s,
{
    if s.len() == 0 {
        Seq::empty()
    } else {
        spec_simplify_stmts(s.drop_last()).push(spec_simplify_stmt(s.last()))
    }
}

fn fold_i32_exec(op: BinOp, a: i32, b: i32) -> (r: Option<i32>)
    ensures
        r == fold_i32(op, a, b),
{
    let ub = b as u32;
    assert(b != 0 ==> ub != 0) by (bit_vector)
        requires
            ub == b as u32,
    ;
    match op {
        BinOp::Add => Some(a.wrapping_add(b)),
        BinOp::Sub => Some(a.wrapping_sub(b)),
        BinOp::Mul => Some(a.wrapping_mul(b)),
        BinOp::DivS => if b != 0 { Some(i32_wrapping_div(a, b)) } else { None },
        BinOp::DivU => if b != 0 { Some(((a as u32) / ub) as i32) } else { None },
        BinOp::RemS => if b != 0 { Some(i32_wrapping_rem(a, b)) } else { None },
        BinOp::RemU => if b != 0 { Some(((a as u32) % ub) as i32) } else { None },
        BinOp::And => Some(a & b),
        BinOp::Or => Some(a | b),
        BinOp::Xor => Some(a ^ b),
        BinOp::Shl => Some(a.wrapping_shl(b as u32)),
        BinOp::ShrS => Some(a.wrapping_shr(b as u32)),
        BinOp::ShrU => Some((a as u32).wrapping_shr(b as u32) as i32),
        BinOp::Rotl => Some(rotate_left_u32(a as u32, b as u32) as i32),
        BinOp::Rotr => Some(rotate_right_u32(a as u32, b as u32) as i32),
        _ => None,
    }
}

fn fold_i64_exec(op: BinOp, a: i64, b: i64) -> (r: Option<i64>)
    ensures
        r == fold_i64(op, a, b),
{
    let ub = b as u64;
    assert(b != 0 ==> ub != 0) by (bit_vector)
        requires
            ub == b as u64,
    ;
    match op {
        BinOp::Add => Some(a.wrapping_add(b)),
        BinOp::Sub => Some(a.wrapping_sub(b)),
        BinOp::Mul => Some(a.wrapping_mul(b)),
        BinOp::DivS => if b != 0 { Some(i64_wrapping_div(a, b)) } else { None },
        BinOp::DivU => if b != 0 { Some(((a as u64) / ub) as i64) } else { None },
        BinOp::RemS => if b != 0 { Some(i64_wrapping_rem(a, b)) } else { None },
        BinOp::RemU => if b != 0 { Some(((a as u64) % ub) as i64) } else { None },
        BinOp::And => Some(a & b),
        BinOp::Or => Some(a | b),
        BinOp::Xor => Some(a ^ b),
        BinOp::Shl => Some(a.wrapping_shl(b as u32)),
        BinOp::ShrS => Some(a.wrapping_shr(b as u32)),
        BinOp::ShrU => Some((a as u64).wrapping_shr(b as u32) as i64),
        BinOp::Rotl => Some(rotate_left_u64(a as u64, b as u32) as i64),
        BinOp::Rotr => Some(rotate_right_u64(a as u64, b as u32) as i64),
        _ => None,
    }
}

/// Constant folding of a binary operation on two integer constants.
fn fold_binop(op: BinOp, a: &Expr, b: &Expr) -> (r: Option<Expr>)
    ensures
        r matches Some(x) ==> spec_fold_binop(op, a@, b@) == Some(x@),
        r is None ==> spec_fold_binop(op, a@, b@) is None,
{
    match (&a.kind, &b.kind) {
        (ExprKind::I32Const(x), ExprKind::I32Const(y)) => match fold_i32_exec(op, *x, *y) {
            Some(v) => Some(Expr::i32_const(v)),
            None => None,
        },
        (ExprKind::I64Const(x), ExprKind::I64Const(y)) => match fold_i64_exec(op, *x, *y) {
            Some(v) => Some(Expr::i64_const(v)),
            None => None,
        },
        _ => None,
    }
}

fn is_zero_exec(e: &Expr) -> (r: bool)
    ensures
        r == is_zero(e@),
{
    matches!(e.kind, ExprKind::I32Const(0) | ExprKind::I64Const(0))
}

fn is_one_exec(e: &Expr) -> (r: bool)
    ensures
        r == is_one(e@),
{
    matches!(e.kind, ExprKind::I32Const(1) | ExprKind::I64Const(1))
}

/// Algebraic simplifications with an identity or absorbing constant operand.
fn algebraic_simplify(op: BinOp, a: &Expr, b: &Expr) -> (r: Option<Expr>)
    ensures
        r matches Some(x) ==> spec_algebraic(op, a@, b@) == Some(x@),
        r is None ==> spec_algebraic(op, a@, b@) is None,
{
    match op {
        BinOp::Add | BinOp::Sub | BinOp::Or | BinOp::Xor => {
            if is_zero_exec(b) {
                Some(a.duplicate())
            } else if is_zero_exec(a) && !matches!(op, BinOp::Sub) {
                Some(b.duplicate())
            } else {
                None
            }
        },
        BinOp::Mul => {
            if matches!(b.kind, ExprKind::I32Const(0)) || matches!(a.kind, ExprKind::I32Const(0)) {
                Some(Expr::i32_const(0))
            } else if matches!(b.kind, ExprKind::I64Const(0)) || matches!(a.kind, ExprKind::I64Const(0)) {
                Some(Expr::i64_const(0))
            } else if is_one_exec(b) {
                Some(a.duplicate())
            } else if is_one_exec(a) {
                Some(b.duplicate())
            } else {
                None
            }
        },
        BinOp::And => {
            if matches!(b.kind, ExprKind::I32Const(0)) {
                Some(Expr::i32_const(0))
            } else if matches!(b.kind, ExprKind::I64Const(0)) {
                Some(Expr::i64_const(0))
            } else if matches!(b.kind, ExprKind::I32Const(-1i32)) || matches!(b.kind, ExprKind::I64Const(-1i64)) {
                Some(a.duplicate())
            } else {
                None
            }
        },
        BinOp::Shl | BinOp::ShrS | BinOp::ShrU => if is_zero_exec(b) { Some(a.duplicate()) } else { None },
        _ => None,
    }
}

/// Constant folding of an integer unary operation.
fn fold_unaryop(op: UnaryOp, a: &Expr) -> (r: Option<Expr>)
    ensures
        r matches Some(x) ==> spec_fold_unaryop(op, a@) == Some(x@),
        r is None ==> spec_fold_unaryop(op, a@) is None,
{
    match &a.kind {
        ExprKind::I32Const(v) => {
            let u = *v as u32;
            match op {
                UnaryOp::Clz => Some(Expr::i32_const(u.leading_zeros() as i32)),
                UnaryOp::Ctz => Some(Expr::i32_const(u.trailing_zeros() as i32)),
                UnaryOp::Popcnt => Some(Expr::i32_const(count_ones_u32(u) as i32)),
                UnaryOp::Eqz => Some(Expr::i32_const(if *v == 0 { 1 } else { 0 })),
                _ => None,
            }
        },
        ExprKind::I64Const(v) => {
            let u = *v as u64;
            match op {
                UnaryOp::Clz => Some(Expr::i64_const(u.leading_zeros() as i64)),
                UnaryOp::Ctz => Some(Expr::i64_const(u.trailing_zeros() as i64)),
                UnaryOp::Popcnt => Some(Expr::i64_const(count_ones_u64(u) as i64)),
                UnaryOp::Eqz => Some(Expr::i64_const(if *v == 0 { 1 } else { 0 })),
                _ => None,
            }
        },
        _ => None,
    }
}

fn int_compare_exec(op: CmpOp, lt: bool, eq: bool, ult: bool) -> (r: Option<bool>)
    ensures
        r matches Some(t) ==> t == match op {
            CmpOp::Eq => eq,
            CmpOp::Ne => !eq,
            CmpOp::LtS => lt,
            CmpOp::LtU => ult,
            CmpOp::GtS => !lt && !eq,
            CmpOp::GtU => !ult && !eq,
            CmpOp::LeS => lt || eq,
            CmpOp::LeU => ult || eq,
            CmpOp::GeS => !lt,
            CmpOp::GeU => !ult,
            _ => false,
        },
        r is None <==> (op is FEq || op is FNe || op is FLt || op is FGt || op is FLe || op is FGe),
{
    match op {
        CmpOp::Eq => Some(eq),
        CmpOp::Ne => Some(!eq),
        CmpOp::LtS => Some(lt),
        CmpOp::LtU => Some(ult),
        CmpOp::GtS => Some(!lt && !eq),
        CmpOp::GtU => Some(!ult && !eq),
        CmpOp::LeS => Some(lt || eq),
        CmpOp::LeU => Some(ult || eq),
        CmpOp::GeS => Some(!lt),
        CmpOp::GeU => Some(!ult),
        _ => None,
    }
}

/// Constant folding of an integer comparison.
fn fold_compare(op: CmpOp, a: &Expr, b: &Expr) -> (r: Option<Expr>)
    ensures
        r matches Some(x) ==> spec_fold_compare(op, a@, b@) == Some(x@),
        r is None ==> spec_fold_compare(op, a@, b@) is None,
{
    match (&a.kind, &b.kind) {
        (ExprKind::I32Const(x), ExprKind::I32Const(y)) => {
            let (ux, uy) = (*x as u32, *y as u32);
            assert(((x as u32) as int == (y as u32) as int) <==> (x == y)) by (bit_vector);
            match int_compare_exec(op, *x < *y, *x == *y, ux < uy) {
                Some(t) => Some(Expr::i32_const(if t { 1 } else { 0 })),
                None => None,
            }
        },
        (ExprKind::I64Const(x), ExprKind::I64Const(y)) => {
            let (ux, uy) = (*x as u64, *y as u64);
            assert(((x as u64) as int == (y as u64) as int) <==> (x == y)) by (bit_vector);
            match int_compare_exec(op, *x < *y, *x == *y, ux < uy) {
                Some(t) => Some(Expr::i32_const(if t { 1 } else { 0 })),
                None => None,
            }
        },
        _ => None,
    }
}

/// Constant folding of an integer extension, wrap or bit reinterpretation.
fn fold_convert(op: ConvertOp, a: &Expr) -> (r: Option<Expr>)
    ensures
        r matches Some(x) ==> spec_fold_convert(op, a@) == Some(x@),
        r is None ==> spec_fold_convert(op, a@) is None,
{
    match &a.kind {
        ExprKind::I32Const(v) => match op {
            ConvertOp::I64ExtendI32S => Some(Expr::i64_const(*v as i64)),
            ConvertOp::I64ExtendI32U => Some(Expr::i64_const((*v as u32) as i64)),
            ConvertOp::I32Extend8S => Some(Expr::i32_const((*v as i8) as i32)),
            ConvertOp::I32Extend16S => Some(Expr::i32_const((*v as i16) as i32)),
            ConvertOp::F32ReinterpretI32 => Some(Expr::f32_const(*v as u32)),
            _ => None,
        },
        ExprKind::I64Const(v) => match op {
            ConvertOp::I32WrapI64 => Some(Expr::i32_const(*v as i32)),
            ConvertOp::I64Extend8S => Some(Expr::i64_const((*v as i8) as i64)),
            ConvertOp::I64Extend16S => Some(Expr::i64_const((*v as i16) as i64)),
            ConvertOp::I64Extend32S => Some(Expr::i64_const((*v as i32) as i64)),
            ConvertOp::F64ReinterpretI64 => Some(Expr::f64_const(*v as u64)),
            _ => None,
        },
        ExprKind::F32Const(bits) => match op {
            ConvertOp::I32ReinterpretF32 => Some(Expr::i32_const(*bits as i32)),
            _ => None,
        },
        ExprKind::F64Const(bits) => match op {
            ConvertOp::I64ReinterpretF64 => Some(Expr::i64_const(*bits as i64)),
            _ => None,
        },
        _ => None,
    }
}

proof fn lemma_simplify_exprs_push(s: Seq<ExprV>, e: ExprV)
    ensures
        spec_simplify_exprs(s.push(e)) == spec_simplify_exprs(s).push(spec_simplify_expr(e)),
{
    assert(s.push(e).drop_last() =~= s);
}

/// Simplify an expression bottom up: fold constants, apply algebraic
/// identities and pick the branch of a `select` on a constant.
#[verifier::rlimit(40)]
fn simplify_expr(e: &Expr) -> (r: Expr)
    ensures
        r@ == spec_simplify_expr(e@),
    decreases e,
{
    let ty = e.ty.duplicate();
    match &e.kind {
        ExprKind::BinOp(op, a, b) => {
            let a = simplify_expr(a);
            let b = simplify_expr(b);
            match fold_binop(*op, &a, &b) {
                Some(r) => r,
                None => match algebraic_simplify(*op, &a, &b) {
                    Some(r) => r,
                    None => Expr { kind: ExprKind::BinOp(*op, Box::new(a), Box::new(b)), ty },
                },
            }
        },
        ExprKind::UnaryOp(op, a) => {
            let a = simplify_expr(a);
            match fold_unaryop(*op, &a) {
                Some(r) => r,
                None => Expr { kind: ExprKind::UnaryOp(*op, Box::new(a)), ty },
            }
        },
        ExprKind::Compare(op, a, b, t) => {
            let a = simplify_expr(a);
            let b = simplify_expr(b);
            match fold_compare(*op, &a, &b) {
                Some(r) => r,
                None => Expr { kind: ExprKind::Compare(*op, Box::new(a), Box::new(b), t.duplicate()), ty },
            }
        },
        ExprKind::Load { addr, offset, size, signed } => {
            let addr = simplify_expr(addr);
            Expr { kind: ExprKind::Load { addr: Box::new(addr), offset: *offset, size: *size, signed: *signed }, ty }
        },
        ExprKind::Call { func, args } => {
            let args = simplify_exprs(args);
            Expr { kind: ExprKind::Call { func: *func, args }, ty }
        },
        ExprKind::CallIndirect { type_idx, table_idx, index, args } => {
            let index = simplify_expr(index);
            let args = simplify_exprs(args);
            Expr { kind: ExprKind::CallIndirect { type_idx: *type_idx, table_idx: *table_idx, index: Box::new(index), args }, ty }
        },
        ExprKind::Select { cond, then_val, else_val } => {
            let cond = simplify_expr(cond);
            let then_val = simplify_expr(then_val);
            let else_val = simplify_expr(else_val);
            match &cond.kind {
                ExprKind::I32Const(v) => if *v != 0 { then_val } else { else_val },
                _ => Expr {
                    kind: ExprKind::Select { cond: Box::new(cond), then_val: Box::new(then_val), else_val: Box::new(else_val) },
                    ty,
                },
            }
        },
        ExprKind::Convert { op, expr } => {
            let inner = simplify_expr(expr);
            match fold_convert(*op, &inner) {
                Some(r) => r,
                None => Expr { kind: ExprKind::Convert { op: *op, expr: Box::new(inner) }, ty },
            }
        },
        ExprKind::GoString { ptr, len } => {
            let ptr = simplify_expr(ptr);
            let len = simplify_expr(len);
            Expr { kind: ExprKind::GoString { ptr: Box::new(ptr), len: Box::new(len) }, ty }
        },
        ExprKind::GoSlice { ptr, len, cap } => {
            let ptr = simplify_expr(ptr);
            let len = simplify_expr(len);
            let cap = simplify_expr(cap);
            Expr { kind: ExprKind::GoSlice { ptr: Box::new(ptr), len: Box::new(len), cap: Box::new(cap) }, ty }
        },
        ExprKind::GoInterface { type_ptr, data } => {
            let type_ptr = simplify_expr(type_ptr);
            let data = simplify_expr(data);
            Expr { kind: ExprKind::GoInterface { type_ptr: Box::new(type_ptr), data: Box::new(data) }, ty }
        },
        _ => e.duplicate(),
    }
}

/// Simplify each expression of a list.
fn simplify_exprs(v: &Vec<Expr>) -> (r: Vec<Expr>)
    ensures
        exprs_view(r@) == spec_simplify_exprs(exprs_view(v@)),
    decreases v,
{
    let mut out: Vec<Expr> = Vec::new();
    let mut k: usize = 0;
    while k < v.len()
        invariant
            k <= v@.len(),
            exprs_view(out@) == spec_simplify_exprs(exprs_view(v@.subrange(0, k as int))),
        decreases v@.len() - k,
    {
        assert(decreases_to!(v => v@[k as int]));
        let r = simplify_expr(&v[k]);
        proof {
            lemma_exprs_view_push(out@, r);
            lemma_exprs_view_push(v@.subrange(0, k as int), v@[k as int]);
            assert(v@.subrange(0, k as int).push(v@[k as int]) =~= v@.subrange(0, k + 1));
            lemma_simplify_exprs_push(exprs_view(v@.subrange(0, k as int)), expr_view(v@[k as int]));
        }
        out.push(r);
        k += 1;
    }
    assert(v@.subrange(0, k as int) =~= v@);
    out
}

/// Whether an expression calls a function anywhere inside it.
fn has_side_effects(e: &Expr) -> (r: bool)
    ensures
        r == spec_has_side_effects(e@),
    decreases e,
{
    match &e.kind {
        ExprKind::Call { .. } | ExprKind::CallIndirect { .. } => true,
        ExprKind::BinOp(_, a, b) => has_side_effects(a) || has_side_effects(b),
        ExprKind::UnaryOp(_, a) => has_side_effects(a),
        ExprKind::Compare(_, a, b, _) => has_side_effects(a) || has_side_effects(b),
        ExprKind::Load { addr, .. } => has_side_effects(addr),
        ExprKind::Select { cond, then_val, else_val } =>
            has_side_effects(cond) || has_side_effects(then_val) || has_side_effects(else_val),
        ExprKind::Convert { expr, .. } => has_side_effects(expr),
        ExprKind::GoString { ptr, len } => has_side_effects(ptr) || has_side_effects(len),
        ExprKind::GoSlice { ptr, len, cap } => has_side_effects(ptr) || has_side_effects(len) || has_side_effects(cap),
        ExprKind::GoInterface { type_ptr, data } => has_side_effects(type_ptr) || has_side_effects(data),
        _ => false,
    }
}

/// Whether a statement has no effect.
fn is_dead_stmt(s: &Stmt) -> (r: bool)
    ensures
        r == spec_is_dead(s@),
{
    match s {
        Stmt::Nop => true,
        Stmt::Drop(e) => !has_side_effects(e),
        Stmt::Expr(e) => !has_side_effects(e),
        _ => false,
    }
}

/// `spec_branches_to` holds exactly when some statement of the list branches.
pub proof fn lemma_branches_to_exists(stmts: Seq<StmtV>, label: u32)
    ensures
        spec_branches_to(stmts, label) <==> exists|i: int| 0 <= i < stmts.len() && spec_stmt_branches_to(#[trigger] stmts[i], label),
    decreases stmts.len(),
{
    if stmts.len() > 0 {
        let d = stmts.drop_last();
        lemma_branches_to_exists(d, label);
        if spec_branches_to(stmts, label) {
            if spec_branches_to(d, label) {
                let i = choose|i: int| 0 <= i < d.len() && spec_stmt_branches_to(#[trigger] d[i], label);
                assert(stmts[i] == d[i]);
            } else {
                assert(spec_stmt_branches_to(stmts[stmts.len() - 1], label));
            }
        }
        if exists|i: int| 0 <= i < stmts.len() && spec_stmt_branches_to(#[trigger] stmts[i], label) {
            let i = choose|i: int| 0 <= i < stmts.len() && spec_stmt_branches_to(#[trigger] stmts[i], label);
            if i < stmts.len() - 1 {
                assert(d[i] == stmts[i]);
            }
        }
    }
}

/// Whether some statement of `stmts`, from index `start` on, branches to `label`.
fn branches_to_from(stmts: &Vec<Stmt>, start: usize, label: u32) -> (r: bool)
    requires
        start <= stmts@.len(),
    ensures
        r == spec_branches_to(stmts_view(stmts@).subrange(start as int, stmts@.len() as int), label),
        start == 0 ==> r == spec_branches_to(stmts_view(stmts@), label),
    decreases stmts,
{
    let ghost sv = stmts_view(stmts@);
    proof {
        lemma_stmts_view(stmts@);
        assert(sv.subrange(0, stmts@.len() as int) =~= sv);
    }
    let mut k: usize = start;
    while k < stmts.len()
        invariant
            start <= k <= stmts@.len(),
            sv == stmts_view(stmts@),
            sv.len() == stmts@.len(),
            forall|i: int| 0 <= i < stmts@.len() ==> #[trigger] sv[i] == stmt_view(stmts@[i]),
            forall|i: int| start <= i < k ==> !spec_stmt_branches_to(#[trigger] sv[i], label),
        decreases stmts@.len() - k,
    {
        assert(decreases_to!(stmts => stmts@[k as int]));
        if stmt_branches_to(&stmts[k], label) {
            proof {
                let sub = sv.subrange(start as int, stmts@.len() as int);
                assert(sub[k - start] == sv[k as int]);
                lemma_branches_to_exists(sub, label);
                assert(sv.subrange(0, stmts@.len() as int) =~= sv);
            }
            return true;
        }
        k += 1;
    }
    proof {
        let sub = sv.subrange(start as int, stmts@.len() as int);
        lemma_branches_to_exists(sub, label);
        assert forall|i: int| 0 <= i < sub.len() implies !spec_stmt_branches_to(#[trigger] sub[i], label) by {
            assert(sub[i] == sv[start + i]);
        }
    }
    false
}

/// Whether a statement, or one nested in it, branches to `label`.
fn stmt_branches_to(s: &Stmt, label: u32) -> (r: bool)
    ensures
        r == spec_stmt_branches_to(s@, label),
    decreases s,
{
    match s {
        Stmt::Br { label: l, .. } => *l == label,
        Stmt::BrIf { label: l, .. } => *l == label,
        Stmt::BrTable { index, targets, default } => {
            if default.label == label {
                return true;
            }
            assert(s@ == StmtV::BrTable { index: index@, targets: targets@, default: *default });
            let mut k: usize = 0;
            while k < targets.len()
                invariant
                    s@ == (StmtV::BrTable { index: index@, targets: targets@, default: *default }),
                    default.label != label,
                    k <= targets@.len(),
                    forall|i: int| 0 <= i < k ==> (#[trigger] targets@[i]).label != label,
                decreases targets@.len() - k,
            {
                if targets[k].label == label {
                    proof {
                        lemma_table_branches(index@, targets@, *default, label, k as int);
                    }
                    return true;
                }
                k += 1;
            }
            false
        },
        Stmt::Block { body, .. } => branches_to_from(&body.stmts, 0, label),
        Stmt::Loop { body, .. } => branches_to_from(&body.stmts, 0, label),
        Stmt::DoWhile { body, .. } => branches_to_from(&body.stmts, 0, label),
        Stmt::While { body, .. } => branches_to_from(&body.stmts, 0, label),
        Stmt::If { then_block, else_block, .. } => {
            if branches_to_from(&then_block.stmts, 0, label) {
                true
            } else {
                match else_block {
                    Some(b) => branches_to_from(&b.stmts, 0, label),
                    None => false,
                }
            }
        },
        _ => false,
    }
}

proof fn lemma_table_branches(ix: ExprV, t: Seq<BranchTarget>, d: BranchTarget, label: u32, k: int)
    requires
        0 <= k < t.len(),
        t[k].label == label,
    ensures
        spec_stmt_branches_to(StmtV::BrTable { index: ix, targets: t, default: d }, label),
{
    assert(table_branches_to(t, d, label));
}
/// Whether `block label { body }` has the shape that becomes an `if`.
fn can_transform_block_to_if(body: &Block, label: u32) -> (r: bool)
    ensures
        r == spec_can_transform_block_to_if(body@, label),
{
    proof {
        lemma_stmts_view(body.stmts@);
    }
    if body.stmts.len() < 2 {
        return false;
    }
    match &body.stmts[0] {
        Stmt::BrIf { label: l, is_loop, .. } => {
            if *l != label || *is_loop {
                return false;
            }
        },
        _ => {
            return false;
        },
    }
    !branches_to_from(&body.stmts, 1, label)
}

/// Invert a comparison operator.
pub fn negate_compare(op: CmpOp) -> (r: CmpOp)
    ensures
        r == negated_compare(op),
{
    match op {
        CmpOp::Eq => CmpOp::Ne,
        CmpOp::Ne => CmpOp::Eq,
        CmpOp::LtS => CmpOp::GeS,
        CmpOp::LtU => CmpOp::GeU,
        CmpOp::GtS => CmpOp::LeS,
        CmpOp::GtU => CmpOp::LeU,
        CmpOp::LeS => CmpOp::GtS,
        CmpOp::LeU => CmpOp::GtU,
        CmpOp::GeS => CmpOp::LtS,
        CmpOp::GeU => CmpOp::LtU,
        CmpOp::FEq => CmpOp::FNe,
        CmpOp::FNe => CmpOp::FEq,
        CmpOp::FLt => CmpOp::FGe,
        CmpOp::FGt => CmpOp::FLe,
        CmpOp::FLe => CmpOp::FGt,
        CmpOp::FGe => CmpOp::FLt,
    }
}

/// Negate a condition: invert a comparison, drop an `eqz`, or wrap in `eqz`.
pub fn negate_condition(cond: Expr) -> (r: Expr)
    ensures
        r@ == spec_negate_condition(cond@),
{
    match cond {
        Expr { kind: ExprKind::Compare(op, a, b, t), .. } => Expr {
            kind: ExprKind::Compare(negate_compare(op), a, b, t),
            ty: InferredType::Bool,
        },
        Expr { kind: ExprKind::UnaryOp(UnaryOp::Eqz, inner), .. } => *inner,
        other => Expr { kind: ExprKind::UnaryOp(UnaryOp::Eqz, Box::new(other)), ty: InferredType::Bool },
    }
}

/// Inverting a comparison twice gives it back.
pub proof fn lemma_negated_compare_involutive(op: CmpOp)
    ensures
        negated_compare(negated_compare(op)) == op,
{
}

/// Negating a comparison twice gives back the comparison, read as a boolean.
pub proof fn lemma_negate_compare_twice(op: CmpOp, a: ExprV, b: ExprV, t: InferredType, ty: InferredType)
    ensures
        spec_negate_condition(spec_negate_condition(ExprV { kind: ExprKindV::Compare(op, Box::new(a), Box::new(b), t), ty }))
            == (ExprV { kind: ExprKindV::Compare(op, Box::new(a), Box::new(b), t), ty: InferredType::Bool }),
{
}

/// Negating a condition that is no comparison and no `eqz` twice gives it back.
pub proof fn lemma_negate_condition_twice(c: ExprV)
    requires
        !(c.kind is Compare),
        !(c.kind matches ExprKindV::UnaryOp(op, _) && op == UnaryOp::Eqz),
    ensures
        spec_negate_condition(spec_negate_condition(c)) == c,
{
}

/// Turn `block L { br_if L c; rest }` into `if (!c) { rest }` where it can.
fn block_to_if(s: Stmt) -> (r: Stmt)
    ensures
        r@ == spec_block_to_if(s@),
{
    match s {
        Stmt::Block { label, body } => {
            if can_transform_block_to_if(&body, label) {
                let ghost old_stmts = body.stmts@;
                let mut stmts = body.stmts;
                let first = stmts.remove(0);
                proof {
                    lemma_stmts_view(old_stmts);
                    lemma_stmts_view(stmts@);
                    assert(stmts_view(stmts@) =~= stmts_view(old_stmts).subrange(1, old_stmts.len() as int));
                }
                match first {
                    Stmt::BrIf { cond, .. } => {
                        let c = negate_condition(cond);
                        Stmt::If { cond: c, then_block: Block { stmts }, else_block: None }
                    },
                    _ => {
                        stmts.insert(0, first);
                        Stmt::Block { label, body: Block { stmts } }
                    },
                }
            } else {
                Stmt::Block { label, body }
            }
        },
        _ => s,
    }
}

proof fn lemma_simplify_stmts_push(s: Seq<StmtV>, e: StmtV)
    ensures
        spec_simplify_stmts(s.push(e)) == spec_simplify_stmts(s).push(spec_simplify_stmt(e)),
{
    assert(s.push(e).drop_last() =~= s);
}

proof fn lemma_finish_push(s: Seq<StmtV>, e: StmtV)
    ensures
        spec_finish_stmts(s.push(e)) == if spec_is_dead(e) {
            spec_finish_stmts(s)
        } else {
            spec_finish_stmts(s).push(spec_block_to_if(e))
        },
{
    let p = |x: StmtV| !spec_is_dead(x);
    let f = |x: StmtV| spec_block_to_if(x);
    s.lemma_filter_push(e, p);
    let fs = s.filter(p);
    if !spec_is_dead(e) {
        assert(fs.push(e).map_values(f) =~= fs.map_values(f).push(f(e)));
    }
}

/// Simplify a statement: its expressions, and its nested blocks as blocks.
#[verifier::rlimit(40)]
fn simplify_stmt(s: &Stmt) -> (r: Stmt)
    ensures
        r@ == spec_simplify_stmt(s@),
    decreases s,
{
    match s {
        Stmt::LocalSet { local, value } => Stmt::LocalSet { local: *local, value: simplify_expr(value) },
        Stmt::GlobalSet { global, value } => Stmt::GlobalSet { global: *global, value: simplify_expr(value) },
        Stmt::Store { addr, offset, value, size } => Stmt::Store {
            addr: simplify_expr(addr),
            offset: *offset,
            value: simplify_expr(value),
            size: *size,
        },
        Stmt::Expr(e) => Stmt::Expr(simplify_expr(e)),
        Stmt::Return(v) => Stmt::Return(
            match v {
                Some(e) => Some(simplify_expr(e)),
                None => None,
            },
        ),
        Stmt::If { cond, then_block, else_block } => Stmt::If {
            cond: simplify_expr(cond),
            then_block: simplify_block(then_block),
            else_block: match else_block {
                Some(b) => Some(simplify_block(b)),
                None => None,
            },
        },
        Stmt::Block { label, body } => Stmt::Block { label: *label, body: simplify_block(body) },
        Stmt::Loop { label, body } => Stmt::Loop { label: *label, body: simplify_block(body) },
        Stmt::DoWhile { body, cond } => Stmt::DoWhile { body: simplify_block(body), cond: simplify_expr(cond) },
        Stmt::While { cond, body } => Stmt::While { cond: simplify_expr(cond), body: simplify_block(body) },
        Stmt::BrIf { label, cond, is_loop } => Stmt::BrIf { label: *label, cond: simplify_expr(cond), is_loop: *is_loop },
        Stmt::BrTable { index, targets, default } => Stmt::BrTable {
            index: simplify_expr(index),
            targets: crate::ir::copy_targets(targets),
            default: *default,
        },
        Stmt::Drop(e) => Stmt::Drop(simplify_expr(e)),
        _ => s.duplicate(),
    }
}

/// Simplify a block: simplify each statement, drop the dead ones, and turn
/// `block`s that open with a `br_if` out of themselves into `if`s.
fn simplify_block(b: &Block) -> (r: Block)
    ensures
        r@ == spec_simplify_block(b@),
    decreases b,
{
    let v = &b.stmts;
    let mut out: Vec<Stmt> = Vec::new();
    let mut k: usize = 0;
    while k < v.len()
        invariant
            *v == b.stmts,
            k <= v@.len(),
            stmts_view(out@) == spec_finish_stmts(spec_simplify_stmts(stmts_view(v@.subrange(0, k as int)))),
        decreases v@.len() - k,
    {
        assert(decreases_to!(b => b.stmts@[k as int]));
        let r = simplify_stmt(&v[k]);
        let ghost rv = r@;
        proof {
            lemma_stmts_view_push(v@.subrange(0, k as int), v@[k as int]);
            assert(v@.subrange(0, k as int).push(v@[k as int]) =~= v@.subrange(0, k + 1));
            lemma_simplify_stmts_push(stmts_view(v@.subrange(0, k as int)), stmt_view(v@[k as int]));
            lemma_finish_push(spec_simplify_stmts(stmts_view(v@.subrange(0, k as int))), rv);
        }
        if !is_dead_stmt(&r) {
            let t = block_to_if(r);
            proof {
                lemma_stmts_view_push(out@, t);
            }
            out.push(t);
        }
        k += 1;
    }
    assert(v@.subrange(0, k as int) =~= v@);
    Block { stmts: out }
}

impl SimplifyPass {
    /// The pass's name, as logs show it.
    pub fn name(&self) -> (r: &'static str)
        ensures
            r@ == "simplify"@,
    {
        "simplify"
    }

    /// Simplify the body of every function the module defines.
    #[verifier::rlimit(100)]
    #[verifier::spinoff_prover]
    pub fn run(&self, module: &mut Module, ctx: &mut PassContext)
        ensures
            bodies_rewritten(old(module).functions@, final(module).functions@, |b: BlockV| spec_simplify_block(b)),
            final(module).memory == old(module).memory,
            final(module).globals == old(module).globals,
            final(module).exports == old(module).exports,
            final(module).imports == old(module).imports,
            final(module).data_segments == old(module).data_segments,
            final(module).types == old(module).types,
            final(module).func_types == old(module).func_types,
            final(module).elements == old(module).elements,
            final(module).memory_pages == old(module).memory_pages,
            final(module).table_size == old(module).table_size,
            *final(ctx) == *old(ctx),
    {
        let ghost fs0 = module.functions@;
        let n = module.functions.len();
        let mut i: usize = 0;
        while i < n
            invariant
                n == fs0.len(),
                i <= n,
                fs0 == old(module).functions@,
                module.memory == old(module).memory,
                module.globals == old(module).globals,
                module.exports == old(module).exports,
                module.imports == old(module).imports,
                module.data_segments == old(module).data_segments,
                module.types == old(module).types,
                module.func_types == old(module).func_types,
                module.elements == old(module).elements,
                module.memory_pages == old(module).memory_pages,
                module.table_size == old(module).table_size,
                module.functions@.len() == n,
                forall|k: int| i <= k < n ==> #[trigger] module.functions@[k] == fs0[k],
                forall|k: int| 0 <= k < i ==> {
                    let o = #[trigger] fs0[k];
                    let m = module.functions@[k];
                    &&& m.index == o.index
                    &&& m.name == o.name
                    &&& m.params == o.params
                    &&& m.results == o.results
                    &&& m.locals == o.locals
                    &&& m.is_import == o.is_import
                    &&& m.body@ == if o.is_import { o.body@ } else { spec_simplify_block(o.body@) }
                },
            decreases n - i,
        {
            if !module.functions[i].is_import {
                let body = simplify_block(&module.functions[i].body);
                let mut f = module.functions.remove(i);
                f.body = body;
                module.functions.insert(i, f);
            }
            i += 1;
        }
        proof {
            let f = |b: BlockV| spec_simplify_block(b);
            assert forall|k: int| 0 <= k < fs0.len() implies #[trigger] module.functions@[k].body@ == if fs0[k].is_import { fs0[k].body@ } else { f(fs0[k].body@) } by {}
        }
    }
}

} // verus!
