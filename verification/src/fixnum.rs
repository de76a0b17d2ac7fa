//! Unsigned and signed fixed-point numbers with 10 fractional bits.
//!
//! A coordinate is stored as its raw bit pattern: a `UNum` with bits `b`
//! stands for the rational `b / 1024`; an `INum` is the signed counterpart.
//! All arithmetic here saturates instead of wrapping: a clipped value is
//! harmless to the machine, a wrapped one would command a runaway move.

use vstd::prelude::*;

verus! {

/// Clip a mathematical integer into the `u32` range.
pub open spec fn sat_u32(x: int) -> int {
    if x > u32::MAX {
        u32::MAX as int
    } else if x < 0 {
        0
    } else {
        x
    }
}

/// Clip a mathematical integer into `-i32::MAX ..= i32::MAX`.
///
/// The smallest magnitude is clipped at `-i32::MAX` (not `i32::MIN`) so that
/// every representable value has a representable negation.
pub open spec fn sat_i32(x: int) -> int {
    if x > i32::MAX {
        i32::MAX as int
    } else if x < -i32::MAX {
        -i32::MAX as int
    } else {
        x
    }
}

/// Floor square root, defined by counting up: the largest `r` with `r * r <= x`.
pub open spec fn sqrt_floor(x: nat) -> nat
    decreases x,
{
    if x == 0 {
        0
    } else {
        let r = sqrt_floor((x - 1) as nat);
        if (r + 1) * (r + 1) <= x {
            r + 1
        } else {
            r
        }
    }
}

/// `sqrt_floor` is indeed the floor of the square root.
pub proof fn lemma_sqrt_floor_bounds(x: nat)
    ensures
        sqrt_floor(x) * sqrt_floor(x) <= x,
        x < (sqrt_floor(x) + 1) * (sqrt_floor(x) + 1),
    decreases x,
{
    if x > 0 {
        lemma_sqrt_floor_bounds((x - 1) as nat);
        let r = sqrt_floor((x - 1) as nat);
        if (r + 1) * (r + 1) <= x {
            assert(sqrt_floor(x) == r + 1);
            assert((r + 1) * (r + 1) < (r + 2) * (r + 2)) by (nonlinear_arith)
                requires
                    r >= 0,
            ;
            assert(x < (r + 2) * (r + 2));
            assert(x < (sqrt_floor(x) + 1) * (sqrt_floor(x) + 1));
        } else {
            assert(sqrt_floor(x) == r);
            assert(r * r <= x);
            assert(x < (sqrt_floor(x) + 1) * (sqrt_floor(x) + 1));
        }
    } else {
        assert(x == 0);
        assert(sqrt_floor(0) == 0);
        assert(x < (sqrt_floor(x) + 1) * (sqrt_floor(x) + 1)) by (nonlinear_arith)
            requires
                x == 0,
                sqrt_floor(x) == 0,
        ;
    }
}

/// A lower bound on the square carries to the square root.
pub proof fn lemma_sqrt_floor_at_least(x: nat, b: nat)
    requires
        b * b <= x,
    ensures
        sqrt_floor(x) >= b,
{
    lemma_sqrt_floor_bounds(x);
    let s = sqrt_floor(x);
    if s < b {
        assert((s + 1) * (s + 1) <= b * b) by (nonlinear_arith)
            requires
                s + 1 <= b,
        ;
    }
}

/// Any `r` bracketed by its own square and the next square is `sqrt_floor(x)`.
pub proof fn lemma_sqrt_floor_unique(x: nat, r: nat)
    requires
        r * r <= x,
        x < (r + 1) * (r + 1),
    ensures
        r == sqrt_floor(x),
{
    lemma_sqrt_floor_bounds(x);
    let s = sqrt_floor(x);
    if r < s {
        assert((r + 1) * (r + 1) <= s * s) by (nonlinear_arith)
            requires
                r + 1 <= s,
        ;
    }
    if s < r {
        assert((s + 1) * (s + 1) <= r * r) by (nonlinear_arith)
            requires
                s + 1 <= r,
        ;
    }
}

/// Floor square root of a `u64`, by binary search on the answer.
pub fn isqrt_u64(x: u64) -> (r: u64)
    ensures
        r == sqrt_floor(x as nat),
{
    let mut lo: u64 = 0;
    let mut hi: u64 = 0x1_0000_0000;
    proof {
        assert(x < 0x1_0000_0000u64 * 0x1_0000_0000u64) by (nonlinear_arith);
    }
    while hi - lo > 1
        invariant
            lo < hi <= 0x1_0000_0000,
            (lo as int) * (lo as int) <= x as int,
            (x as int) < (hi as int) * (hi as int),
        decreases hi - lo,
    {
        let mid = lo + (hi - lo) / 2;
        proof {
            assert(mid < 0x1_0000_0000);
            assert((mid as int) * (mid as int) < 0x1_0000_0000_0000_0000) by (nonlinear_arith)
                requires
                    0 <= mid < 0x1_0000_0000,
            ;
        }
        if mid * mid <= x {
            lo = mid;
        } else {
            hi = mid;
        }
    }
    proof {
        lemma_sqrt_floor_unique(x as nat, lo as nat);
    }
    lo
}

/// Saturating fixed-point product, over raw bits.
pub open spec fn fx_mul(a: int, b: int) -> int {
    sat_u32((a * b) / 1024)
}

/// Saturating fixed-point sum, over raw bits.
pub open spec fn fx_add(a: int, b: int) -> int {
    sat_u32(a + b)
}

/// Fixed-point difference clipped at zero, over raw bits.
pub open spec fn fx_sub(a: int, b: int) -> int {
    sat_u32(a - b)
}

/// Saturating fixed-point quotient, over raw bits.
pub open spec fn fx_div(a: int, b: int) -> int {
    sat_u32((a * 1024) / b)
}

/// Fixed-point floor square root, over raw bits.
pub open spec fn fx_sqrt(a: int) -> int {
    sqrt_floor((a * 1024) as nat) as int
}

/// Unsigned fixed point: `bits / 1024`.
#[derive(Clone, Copy, Debug, PartialEq, Eq, Structural)]
pub struct UNum {
    pub bits: u32,
}

/// Signed fixed point: `bits / 1024`.
#[derive(Clone, Copy, Debug, PartialEq, Eq, Structural)]
pub struct INum {
    pub bits: i32,
}

impl UNum {
    /// The value zero.
    pub fn zero() -> (r: UNum)
        ensures
            r.bits == 0,
    {
        UNum { bits: 0 }
    }

    /// The value with exactly the given raw bits.
    pub fn from_bits(bits: u32) -> (r: UNum)
        ensures
            r.bits == bits,
    {
        UNum { bits }
    }

    /// The integer `n` as a fixed-point value, clipped to the representable range.
    pub fn from_num(n: u32) -> (r: UNum)
        ensures
            r.bits == sat_u32(n * 1024),
    {
        if n > u32::MAX / 1024 {
            UNum { bits: u32::MAX }
        } else {
            UNum { bits: n * 1024 }
        }
    }

    /// Saturating sum.
    pub fn sat_add(self, other: UNum) -> (r: UNum)
        ensures
            r.bits == sat_u32(self.bits + other.bits),
    {
        UNum { bits: if self.bits > u32::MAX - other.bits { u32::MAX } else { self.bits + other.bits } }
    }

    /// Difference, clipped at zero.
    pub fn sat_sub(self, other: UNum) -> (r: UNum)
        ensures
            r.bits == sat_u32(self.bits - other.bits),
    {
        UNum { bits: if self.bits < other.bits { 0 } else { self.bits - other.bits } }
    }

    /// Saturating fixed-point product: `(a * b) / 1024`, rounded down.
    pub fn sat_mul(self, other: UNum) -> (r: UNum)
        ensures
            r.bits == sat_u32((self.bits * other.bits) / 1024),
    {
        proof {
            assert((self.bits as int) * (other.bits as int) <= (u32::MAX as int) * (u32::MAX as int))
                by (nonlinear_arith)
                requires
                    self.bits <= u32::MAX,
                    other.bits <= u32::MAX,
            ;
        }
        let p: u64 = (self.bits as u64) * (other.bits as u64) / 1024;
        UNum { bits: if p > u32::MAX as u64 { u32::MAX } else { p as u32 } }
    }

    /// Saturating fixed-point quotient: `(a * 1024) / b`, rounded down.
    pub fn div_floor(self, other: UNum) -> (r: UNum)
        requires
            other.bits != 0,
        ensures
            r.bits == sat_u32((self.bits * 1024) / (other.bits as int)),
    {
        let q: u64 = (self.bits as u64) * 1024 / (other.bits as u64);
        UNum { bits: if q > u32::MAX as u64 { u32::MAX } else { q as u32 } }
    }

    /// Fixed-point floor square root: the result's bits are `sqrt_floor(bits * 1024)`.
    pub fn sqrt(self) -> (r: UNum)
        ensures
            r.bits == sqrt_floor((self.bits * 1024) as nat),
            r.bits * r.bits <= self.bits * 1024,
    {
        let s = isqrt_u64((self.bits as u64) * 1024);
        proof {
            lemma_sqrt_floor_bounds((self.bits * 1024) as nat);
            assert(sqrt_floor((self.bits * 1024) as nat) * sqrt_floor((self.bits * 1024) as nat)
                <= (self.bits * 1024) as nat);
            assert(s as int <= 0x200000int) by {
                if s > 0x200000 {
                    assert(0x200000int * 0x200000int <= (s as int) * (s as int)) by (nonlinear_arith)
                        requires
                            0x200000int <= s as int,
                    ;
                }
            }
        }
        UNum { bits: s as u32 }
    }

    /// The whole part: the value rounded down to an integer.
    pub fn to_int_floor(self) -> (r: u32)
        ensures
            r == self.bits / 1024,
    {
        self.bits / 1024
    }

    /// This unsigned value as a signed one, clipped to the signed range.
    pub fn cast_signed_sat(self) -> (r: INum)
        ensures
            r.bits == sat_i32(self.bits as int),
    {
        if self.bits > i32::MAX as u32 {
            INum { bits: i32::MAX }
        } else {
            INum { bits: self.bits as i32 }
        }
    }
}

impl INum {
    /// The value zero.
    pub fn zero() -> (r: INum)
        ensures
            r.bits == 0,
    {
        INum { bits: 0 }
    }

    /// The value with exactly the given raw bits.
    pub fn from_bits(bits: i32) -> (r: INum)
        ensures
            r.bits == bits,
    {
        INum { bits }
    }

    /// The integer `n` as a fixed-point value, clipped to the representable range.
    pub fn from_num(n: i32) -> (r: INum)
        ensures
            r.bits == sat_i32(n * 1024),
    {
        if n > i32::MAX / 1024 {
            INum { bits: i32::MAX }
        } else if n < -(i32::MAX / 1024) {
            INum { bits: -i32::MAX }
        } else {
            INum { bits: n * 1024 }
        }
    }

    pub fn is_zero(self) -> (r: bool)
        ensures
            r == (self.bits == 0),
    {
        self.bits == 0
    }

    pub fn lt(self, other: INum) -> (r: bool)
        ensures
            r == (self.bits < other.bits),
    {
        self.bits < other.bits
    }

    /// Saturating negation; `i32::MIN` never occurs in results of this module,
    /// but is handled anyway.
    pub fn sat_neg(self) -> (r: INum)
        ensures
            r.bits == sat_i32(-(self.bits as int)),
    {
        if self.bits == i32::MIN {
            INum { bits: i32::MAX }
        } else {
            INum { bits: -self.bits }
        }
    }

    /// Saturating sum.
    pub fn sat_add(self, other: INum) -> (r: INum)
        ensures
            r.bits == sat_i32(self.bits + other.bits),
    {
        let s: i64 = (self.bits as i64) + (other.bits as i64);
        if s > i32::MAX as i64 {
            INum { bits: i32::MAX }
        } else if s < -(i32::MAX as i64) {
            INum { bits: -i32::MAX }
        } else {
            INum { bits: s as i32 }
        }
    }

    /// Absolute value, saturating (`i32::MIN` clips to `i32::MAX`).
    pub fn abs(self) -> (r: INum)
        ensures
            r.bits == sat_i32(if self.bits < 0 { -(self.bits as int) } else { self.bits as int }),
    {
        if self.bits == i32::MIN {
            INum { bits: i32::MAX }
        } else if self.bits < 0 {
            INum { bits: -self.bits }
        } else {
            INum { bits: self.bits }
        }
    }

    /// The magnitude as raw unsigned bits.
    pub fn unsigned_abs(self) -> (r: u32)
        ensures
            r == (if self.bits < 0 { -(self.bits as int) } else { self.bits as int }),
    {
        if self.bits < 0 {
            (-(self.bits as i64)) as u32
        } else {
            self.bits as u32
        }
    }

    /// The magnitude as an unsigned fixed-point value.
    pub fn abs_unum(self) -> (r: UNum)
        ensures
            r.bits == (if self.bits < 0 { -(self.bits as int) } else { self.bits as int }),
    {
        UNum { bits: self.unsigned_abs() }
    }

    /// Absolute difference of two signed values.
    pub fn abs_diff(self, other: INum) -> (r: INum)
        ensures
            r.bits == sat_i32(if self.bits >= other.bits {
                self.bits - other.bits
            } else {
                other.bits - self.bits
            }),
    {
        let a: i64 = self.bits as i64;
        let b: i64 = other.bits as i64;
        let d: i64 = if a >= b { a - b } else { b - a };
        if d > i32::MAX as i64 {
            INum { bits: i32::MAX }
        } else {
            INum { bits: d as i32 }
        }
    }
}

} // verus!
