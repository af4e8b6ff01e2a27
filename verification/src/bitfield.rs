//! Fields of a register, as numbers.
//!
//! A field of `n` bits whose lowest bit is bit `s` of the register is given by
//! the weight `lo = 2^s` of that bit and by the number `width = 2^n` of values
//! that the field can hold.
use vstd::prelude::*;

verus! {

/// The value of the field in `x`.
pub open spec fn field(x: int, lo: int, width: int) -> int {
    (x / lo) % width
}

/// `x` with `v` in place of what the field held.
pub open spec fn with_field(x: int, lo: int, width: int, v: int) -> int {
    x + (v - field(x, lo, width)) * lo
}

/// Splits `x` into what lies above a field, the field, and what lies below.
proof fn lemma_split(x: int, lo: int, width: int)
    requires
        0 <= x,
        0 < lo,
        0 < width,
    ensures
        x == (x / (lo * width)) * (lo * width) + field(x, lo, width) * lo + x % lo,
        0 <= field(x, lo, width) < width,
        0 <= x % lo < lo,
        0 <= x / (lo * width),
        (x / lo) / width == x / (lo * width),
{
    vstd::arithmetic::div_mod::lemma_fundamental_div_mod(x, lo);
    vstd::arithmetic::div_mod::lemma_fundamental_div_mod(x / lo, width);
    vstd::arithmetic::div_mod::lemma_div_denominator(x, lo, width);
    vstd::arithmetic::div_mod::lemma_div_pos_is_pos(x, lo * width);
    let h = x / (lo * width);
    let f = field(x, lo, width);
    assert(0 < lo * width) by (nonlinear_arith)
        requires
            0 < lo,
            0 < width,
    ;
    vstd::arithmetic::div_mod::lemma_div_pos_is_pos(x, lo * width);
    assert(x == h * (lo * width) + f * lo + x % lo) by (nonlinear_arith)
        requires
            x == lo * (x / lo) + x % lo,
            x / lo == width * h + f,
    ;
}

/// A number put together from three parts has these parts.
proof fn lemma_parts(h: int, f: int, r: int, lo: int, width: int)
    requires
        0 <= h,
        0 <= f < width,
        0 <= r < lo,
    ensures
        (h * (lo * width) + f * lo + r) % lo == r,
        (h * (lo * width) + f * lo + r) / lo == h * width + f,
        field(h * (lo * width) + f * lo + r, lo, width) == f,
        (h * (lo * width) + f * lo + r) / (lo * width) == h,
{
    let x = h * (lo * width) + f * lo + r;
    let q = h * width + f;
    assert(x == q * lo + r) by (nonlinear_arith)
        requires
            x == h * (lo * width) + f * lo + r,
            q == h * width + f,
    ;
    vstd::arithmetic::div_mod::lemma_fundamental_div_mod_converse(x, lo, q, r);
    vstd::arithmetic::div_mod::lemma_fundamental_div_mod_converse(q, width, h, f);
    assert(0 <= q) by (nonlinear_arith)
        requires
            q == h * width + f,
            0 <= h,
            0 <= f < width,
    ;
    assert(0 <= x) by (nonlinear_arith)
        requires
            x == q * lo + r,
            0 <= q,
            0 <= r < lo,
    ;
    vstd::arithmetic::div_mod::lemma_div_denominator(x, lo, width);
}

/// What was put into a field is what the field then holds.
pub proof fn law_field_set_get(x: int, lo: int, width: int, v: int)
    requires
        0 <= x,
        0 < lo,
        0 <= v < width,
    ensures
        field(with_field(x, lo, width, v), lo, width) == v,
        0 <= with_field(x, lo, width, v),
{
    lemma_split(x, lo, width);
    let h = x / (lo * width);
    let r = x % lo;
    lemma_with(x, lo, width, v);
    lemma_parts(h, v, r, lo, width);
    assert(0 <= h * (lo * width) + v * lo + r) by (nonlinear_arith)
        requires
            0 <= h,
            0 < lo,
            0 <= v < width,
            0 <= r,
    ;
}

/// `with_field` replaces the middle one of the three parts.
proof fn lemma_with(x: int, lo: int, width: int, v: int)
    requires
        0 <= x,
        0 < lo,
        0 < width,
    ensures
        with_field(x, lo, width, v) == (x / (lo * width)) * (lo * width) + v * lo + x % lo,
{
    lemma_split(x, lo, width);
    let f = field(x, lo, width);
    assert((v - f) * lo == v * lo - f * lo) by (nonlinear_arith);
}

/// A field keeps its value when a field above it is set.
pub proof fn law_field_set_above(x: int, lo: int, width: int, v: int, lo2: int, width2: int)
    requires
        0 <= x,
        0 < lo2,
        0 < width2,
        0 < lo,
        lo % (lo2 * width2) == 0,
        0 <= v < width,
    ensures
        field(with_field(x, lo, width, v), lo2, width2) == field(x, lo2, width2),
{
    let d = lo2 * width2;
    assert(0 < d) by (nonlinear_arith)
        requires
            d == lo2 * width2,
            0 < lo2,
            0 < width2,
    ;
    let k = lo / d;
    vstd::arithmetic::div_mod::lemma_fundamental_div_mod(lo, d);
    let y = with_field(x, lo, width, v);
    let m = (v - field(x, lo, width)) * k;
    assert(y == x + m * d) by (nonlinear_arith)
        requires
            y == x + (v - field(x, lo, width)) * lo,
            lo == d * k,
            m == (v - field(x, lo, width)) * k,
    ;
    law_field_set_get(x, lo, width, v);
    lemma_split(x, lo2, width2);
    lemma_split(y, lo2, width2);
    vstd::arithmetic::div_mod::lemma_mod_multiples_vanish(m, x, d);
    assert(d * m + x == y) by (nonlinear_arith)
        requires
            y == x + m * d,
    ;
    assert(y % d == x % d);
    lemma_low_part(x, lo2, width2);
    lemma_low_part(y, lo2, width2);
}

/// A field only depends on the bits up to its own highest one.
proof fn lemma_low_part(x: int, lo: int, width: int)
    requires
        0 <= x,
        0 < lo,
        0 < width,
    ensures
        field(x, lo, width) == (x % (lo * width)) / lo,
{
    lemma_split(x, lo, width);
    let d = lo * width;
    let f = field(x, lo, width);
    let r = x % lo;
    assert(0 <= f * lo + r < d) by (nonlinear_arith)
        requires
            d == lo * width,
            0 <= f < width,
            0 <= r < lo,
    ;
    vstd::arithmetic::div_mod::lemma_fundamental_div_mod_converse(x, d, x / d, f * lo + r);
    vstd::arithmetic::div_mod::lemma_fundamental_div_mod_converse(f * lo + r, lo, f, r);
}

/// A field keeps its value when a field below it is set.
pub proof fn law_field_set_below(x: int, lo: int, width: int, v: int, lo2: int, width2: int)
    requires
        0 <= x,
        0 < lo,
        0 <= v < width,
        0 < lo2,
        0 < width2,
        lo2 % (lo * width) == 0,
    ensures
        field(with_field(x, lo, width, v), lo2, width2) == field(x, lo2, width2),
{
    let d = lo * width;
    assert(0 < d) by (nonlinear_arith)
        requires
            d == lo * width,
            0 < lo,
            0 < width,
    ;
    let k = lo2 / d;
    vstd::arithmetic::div_mod::lemma_fundamental_div_mod(lo2, d);
    assert(0 < k) by (nonlinear_arith)
        requires
            lo2 == d * k,
            0 < lo2,
            0 < d,
    ;
    let y = with_field(x, lo, width, v);
    law_field_set_get(x, lo, width, v);
    lemma_split(x, lo, width);
    lemma_with(x, lo, width, v);
    lemma_parts(x / d, v, x % lo, lo, width);
    assert(y / d == x / d);
    vstd::arithmetic::div_mod::lemma_div_denominator(x, d, k);
    vstd::arithmetic::div_mod::lemma_div_denominator(y, d, k);
    assert(x / lo2 == y / lo2);
}

/// Setting a field that lies within a register leaves a value of the register.
pub proof fn lemma_with_field_range(x: int, lo: int, width: int, v: int, total: int)
    requires
        0 <= x < total,
        0 < lo,
        0 <= v < width,
        total % (lo * width) == 0,
    ensures
        0 <= with_field(x, lo, width, v) < total,
        field(x, lo, width) * lo <= x,
{
    let d = lo * width;
    assert(0 < d) by (nonlinear_arith)
        requires
            d == lo * width,
            0 < lo,
            0 < width,
    ;
    lemma_split(x, lo, width);
    lemma_with(x, lo, width, v);
    law_field_set_get(x, lo, width, v);
    vstd::arithmetic::div_mod::lemma_fundamental_div_mod(total, d);
    let h = x / d;
    let k = total / d;
    let r = x % lo;
    let f = field(x, lo, width);
    assert(0 <= h * d + f * lo + r - f * lo) by (nonlinear_arith)
        requires
            0 <= h,
            0 < d,
            0 <= r,
    ;
    assert(h < k) by (nonlinear_arith)
        requires
            h * d <= x,
            x < d * k,
            0 < d,
    {
    }
    assert(h * d + v * lo + r < d * k) by (nonlinear_arith)
        requires
            h + 1 <= k,
            d == lo * width,
            0 <= v < width,
            0 <= r < lo,
            0 < lo,
    ;
}

/// The value of a field of a 64-bit register.
pub fn get_field(x: u64, lo: u64, width: u64) -> (r: u64)
    requires
        0 < lo,
        0 < width,
    ensures
        r == field(x as int, lo as int, width as int),
        r < width,
{
    (x / lo) % width
}

/// Sets a field of a register of which `total` is the number of values.
pub(crate) fn set_field(x: u64, lo: u64, width: u64, v: u64, Ghost(total): Ghost<int>) -> (r: u64)
    requires
        0 < lo,
        0 < width,
        x < total <= 0x1_0000_0000_0000_0000,
        total % (lo * width) == 0,
    ensures
        r == with_field(x as int, lo as int, width as int, (v % width) as int),
        r < total,
{
    let v: u64 = v % width;
    let old_v: u64 = (x / lo) % width;
    proof {
        lemma_with_field_range(x as int, lo as int, width as int, v as int, total);
        lemma_split(x as int, lo as int, width as int);
        lemma_with(x as int, lo as int, width as int, v as int);
        lemma_with(x as int, lo as int, width as int, 0);
        assert((0 - old_v) * lo == -(old_v * lo)) by (nonlinear_arith);
        assert(0 <= (x as int) / (lo * width) * (lo * width)) by (nonlinear_arith)
            requires
                0 < lo,
                0 < width,
        ;
        assert(0 <= v * lo) by (nonlinear_arith);
        assert(0 <= old_v * lo) by (nonlinear_arith);
    }
    (x - old_v * lo) + v * lo
}

} // verus!
