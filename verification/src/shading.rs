//! The per-fragment lookup of the shading stage, in whole numbers: from a
//! position inside a chunk to a cell of its grid, and from the position
//! inside that cell to a texel of the tile's rectangle.
//!
//! A position along an axis is a fraction of the chunk's extent. A fraction
//! that lies outside the chunk, as positions on its very edge may, is taken
//! for the nearest cell and the nearest texel.

use vstd::arithmetic::div_mod::{lemma_fundamental_div_mod, lemma_fundamental_div_mod_converse};
use vstd::prelude::*;

verus! {

/// `v` where it lies in `0..n`, else the nearest end of that range.
pub open spec fn clamped(v: int, n: int) -> int {
    if v < 0 {
        0
    } else if v >= n {
        n - 1
    } else {
        v
    }
}

/// A position along one axis of a chunk: `num / den` of the chunk's extent.
#[derive(Clone, Copy, Debug, PartialEq, Eq)]
pub struct Fraction {
    pub num: i64,
    pub den: u64,
}

impl Fraction {
    /// The denominator is not zero.
    pub open spec fn valid(self) -> bool {
        self.den > 0
    }

    /// The cell, of `n` along the axis, that the position falls in.
    pub open spec fn cell_along(self, n: u32) -> int {
        clamped((self.num * n) / (self.den as int), n as int)
    }

    /// How far the position lies into its cell, in parts of which `den`
    /// make a whole cell. Negative or more than a cell where the position
    /// lies outside the chunk.
    pub open spec fn into_cell(self, n: u32) -> int {
        self.num * n - self.cell_along(n) * self.den
    }

    /// The texel, of `size` along the axis of the tile's rectangle, that
    /// the position falls on.
    pub open spec fn texel_along(self, n: u32, size: u32) -> int {
        if size == 0 {
            0
        } else {
            clamped((self.into_cell(n) * size) / (self.den as int), size as int)
        }
    }
}

/// A quotient is negative where the dividend is and the divisor is not.
proof fn lemma_div_of_negative(a: int, d: int)
    requires
        a < 0,
        d > 0,
    ensures
        a / d < 0,
{
    lemma_fundamental_div_mod(a, d);
    assert(a / d < 0) by (nonlinear_arith)
        requires
            a == d * (a / d) + a % d,
            0 <= a % d < d,
            a < 0,
            d > 0,
    ;
}

/// A quotient reaches `n` where the dividend reaches `n` times the divisor,
/// and stays below it where the dividend does.
proof fn lemma_div_bounds(a: int, d: int, n: int)
    requires
        d > 0,
    ensures
        a >= n * d ==> a / d >= n,
        a < n * d ==> a / d < n,
{
    lemma_fundamental_div_mod(a, d);
    if a >= n * d {
        assert(a / d >= n) by (nonlinear_arith)
            requires
                a == d * (a / d) + a % d,
                0 <= a % d < d,
                a >= n * d,
                d > 0,
        ;
    } else {
        assert(a / d < n) by (nonlinear_arith)
            requires
                a == d * (a / d) + a % d,
                0 <= a % d < d,
                a < n * d,
                d > 0,
        ;
    }
}

/// The cell that a position falls in is one of the `n` cells, and the
/// texel one of the `size` texels.
pub proof fn lemma_along_in_range(f: Fraction, n: u32, size: u32)
    requires
        n > 0,
    ensures
        0 <= f.cell_along(n) < n,
        size > 0 ==> 0 <= f.texel_along(n, size) < size,
        size == 0 ==> f.texel_along(n, size) == 0,
{
}

/// The cell, of `n` along the axis, that the position `f` falls in.
pub fn locate(f: Fraction, n: u32) -> (cell: u32)
    requires
        f.valid(),
        n > 0,
    ensures
        cell == f.cell_along(n),
{
    if f.num < 0 {
        proof {
            assert(f.num * n < 0) by (nonlinear_arith)
                requires
                    f.num < 0,
                    n > 0,
            ;
            lemma_div_of_negative(f.num * n, f.den as int);
        }
        return 0;
    }
    proof {
        assert(0 <= f.num * n <= 0x7FFF_FFFF_FFFF_FFFF * 0xFFFF_FFFF) by (nonlinear_arith)
            requires
                0 <= f.num <= 0x7FFF_FFFF_FFFF_FFFF,
                0 < n <= 0xFFFF_FFFF,
        ;
    }
    let scaled: u128 = (f.num as u128) * (n as u128);
    let q: u128 = scaled / (f.den as u128);
    proof {
        lemma_fundamental_div_mod(scaled as int, f.den as int);
        lemma_div_bounds(scaled as int, f.den as int, 0);
    }
    if q >= n as u128 {
        n - 1
    } else {
        q as u32
    }
}

/// The texel, of `size` along the axis of the tile's rectangle, that the
/// position `f` falls on, where the chunk has `n` cells along the axis.
pub fn locate_texel(f: Fraction, n: u32, size: u32) -> (texel: u32)
    requires
        f.valid(),
        n > 0,
    ensures
        texel == f.texel_along(n, size),
{
    if size == 0 {
        return 0;
    }
    let ghost d = f.den as int;
    if f.num < 0 {
        proof {
            assert(f.num * n < 0) by (nonlinear_arith)
                requires
                    f.num < 0,
                    n > 0,
            ;
            lemma_div_of_negative(f.num * n, d);
            assert(f.into_cell(n) == f.num * n);
            assert(f.into_cell(n) * size < 0) by (nonlinear_arith)
                requires
                    f.into_cell(n) < 0,
                    size > 0,
            ;
            lemma_div_of_negative(f.into_cell(n) * size, d);
        }
        return 0;
    }
    proof {
        assert(0 <= f.num * n <= 0x7FFF_FFFF_FFFF_FFFF * 0xFFFF_FFFF) by (nonlinear_arith)
            requires
                0 <= f.num <= 0x7FFF_FFFF_FFFF_FFFF,
                0 < n <= 0xFFFF_FFFF,
        ;
    }
    let scaled: u128 = (f.num as u128) * (n as u128);
    let den: u128 = f.den as u128;
    let q: u128 = scaled / den;
    proof {
        lemma_fundamental_div_mod(scaled as int, d);
        lemma_div_bounds(scaled as int, d, 0);
    }
    if q >= n as u128 {
        proof {
            let into = f.into_cell(n);
            assert(f.cell_along(n) == n - 1);
            assert(into >= d) by (nonlinear_arith)
                requires
                    scaled == d * q + (scaled as int) % d,
                    0 <= (scaled as int) % d,
                    q >= n,
                    d > 0,
                    into == scaled - (n - 1) * d,
            ;
            assert(into * size >= size * d) by (nonlinear_arith)
                requires
                    into >= d,
                    size > 0,
            ;
            lemma_div_bounds(into * size, d, size as int);
        }
        size - 1
    } else {
        let into: u128 = scaled % den;
        proof {
            assert(f.cell_along(n) == q);
            assert(f.into_cell(n) == into) by (nonlinear_arith)
                requires
                    scaled == d * q + into,
                    f.into_cell(n) == scaled - q * d,
            ;
            assert(0 <= into * size < size * d) by (nonlinear_arith)
                requires
                    0 <= into < d,
                    size > 0,
            ;
            assert(into * size <= 0xFFFF_FFFF_FFFF_FFFF * 0xFFFF_FFFF) by (nonlinear_arith)
                requires
                    0 <= into <= 0xFFFF_FFFF_FFFF_FFFF,
                    0 < size <= 0xFFFF_FFFF,
            ;
            lemma_div_bounds(into * size, d, size as int);
            lemma_div_bounds(into * size, d, 0);
        }
        let t: u128 = into * (size as u128) / den;
        t as u32
    }
}

/// A quotient does not change where dividend and divisor are multiplied by
/// the same positive number.
proof fn lemma_div_scaled(a: int, d: int, k: int)
    requires
        d > 0,
        k > 0,
    ensures
        (k * a) / (k * d) == a / d,
{
    lemma_fundamental_div_mod(a, d);
    let q = a / d;
    let r = a % d;
    assert(k * a == (k * d) * q + k * r) by (nonlinear_arith)
        requires
            a == d * q + r,
    ;
    assert(0 <= k * r < k * d) by (nonlinear_arith)
        requires
            0 <= r < d,
            k > 0,
    ;
    lemma_fundamental_div_mod_converse(k * a, k * d, q, k * r);
}

/// The cell and the texel that a position falls on depend on the value of
/// the fraction alone: `g`, which is `f` with numerator and denominator
/// multiplied by `k`, falls where `f` does.
pub proof fn lemma_scale_invariant(f: Fraction, g: Fraction, k: int, n: u32, size: u32)
    requires
        f.valid(),
        k > 0,
        g.num == k * f.num,
        g.den == k * f.den,
    ensures
        g.cell_along(n) == f.cell_along(n),
        g.texel_along(n, size) == f.texel_along(n, size),
{
    let d = f.den as int;
    let a = f.num * n;
    assert(g.num * n == k * a) by (nonlinear_arith)
        requires
            g.num == k * f.num,
            a == f.num * n,
    ;
    lemma_div_scaled(a, d, k);
    assert(g.cell_along(n) == f.cell_along(n));
    let cell = f.cell_along(n);
    assert(g.into_cell(n) == k * f.into_cell(n)) by (nonlinear_arith)
        requires
            g.into_cell(n) == k * a - cell * (k * d),
            f.into_cell(n) == a - cell * d,
    ;
    assert(g.into_cell(n) * size == k * (f.into_cell(n) * size)) by (nonlinear_arith)
        requires
            g.into_cell(n) == k * f.into_cell(n),
    ;
    lemma_div_scaled(f.into_cell(n) * size, d, k);
}

} // verus!
