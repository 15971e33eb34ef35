//! 256-bit intermediates for fixed-point arithmetic on `u128` values.

use vstd::arithmetic::div_mod::lemma_fundamental_div_mod_converse;
use vstd::arithmetic::power2::{lemma2_to64, lemma_pow2_adds, lemma_pow2_unfold, pow2};
use vstd::prelude::*;

verus! {

/// 2^64.
pub open spec fn two64() -> int {
    0x1_0000_0000_0000_0000
}

/// 2^128.
pub open spec fn two128() -> int {
    0x1_0000_0000_0000_0000_0000_0000_0000_0000int
}

/// An unsigned 256-bit integer held as two 128-bit halves.
#[derive(Clone, Copy, Debug)]
pub struct Wide {
    pub hi: u128,
    pub lo: u128,
}

impl View for Wide {
    type V = int;

    open spec fn view(&self) -> int {
        self.hi * two128() + self.lo
    }
}

proof fn lemma_mul_distributes(x: int, y: int, z: int)
    by (nonlinear_arith)
    ensures
        (x + y) * z == x * z + y * z,
        z * (x + y) == z * x + z * y,
{
}

proof fn lemma_mul_regroup(x: int, y: int, k: int)
    by (nonlinear_arith)
    ensures
        (x * k) * (y * k) == (x * y) * (k * k),
        (x * k) * y == (x * y) * k,
        x * (y * k) == (x * y) * k,
{
}

proof fn lemma_product_of_limbs(a: int, b: int, a1: int, a0: int, b1: int, b0: int, k: int)
    requires
        a == a1 * k + a0,
        b == b1 * k + b0,
    ensures
        a * b == (a1 * b1) * (k * k) + (a0 * b1) * k + (a1 * b0) * k + a0 * b0,
{
    lemma_mul_distributes(a1 * k, a0, b);
    lemma_mul_distributes(b1 * k, b0, a1 * k);
    lemma_mul_distributes(b1 * k, b0, a0);
    lemma_mul_regroup(a1, b1, k);
    lemma_mul_regroup(a1, b0, k);
    lemma_mul_regroup(a0, b1, k);
}

proof fn lemma_limb_product_bound(x: int, y: int)
    by (nonlinear_arith)
    requires
        0 <= x < 0x1_0000_0000_0000_0000,
        0 <= y < 0x1_0000_0000_0000_0000,
    ensures
        0 <= x * y <= 0xffff_ffff_ffff_fffe_0000_0000_0000_0001,
{
}

/// The product of two 128-bit values is below 2^256.
pub proof fn lemma_product_fits_wide(x: int, y: int)
    by (nonlinear_arith)
    requires
        0 <= x <= u128::MAX,
        0 <= y <= u128::MAX,
    ensures
        0 <= x * y <= u128::MAX * two128(),
{
}

/// The full product of two 128-bit values.
pub fn wide_mul(a: u128, b: u128) -> (w: Wide)
    ensures
        w@ == a * b,
{
    let k: u128 = 0x1_0000_0000_0000_0000;
    let a0: u128 = a % k;
    let a1: u128 = a / k;
    let b0: u128 = b % k;
    let b1: u128 = b / k;
    proof {
        lemma_limb_product_bound(a0 as int, b0 as int);
        lemma_limb_product_bound(a0 as int, b1 as int);
        lemma_limb_product_bound(a1 as int, b0 as int);
        lemma_limb_product_bound(a1 as int, b1 as int);
        lemma_product_fits_wide(a as int, b as int);
        lemma_product_of_limbs(a as int, b as int, a1 as int, a0 as int, b1 as int, b0 as int, two64());
    }
    let ll: u128 = a0 * b0;
    let lh: u128 = a0 * b1;
    let hl: u128 = a1 * b0;
    let hh: u128 = a1 * b1;
    let cross: u128 = ll / k + lh % k + hl % k;
    let lo: u128 = (cross % k) * k + ll % k;
    assert((hh + lh / k + hl / k + cross / k) * two128() + lo == a * b);
    let hi: u128 = hh + lh / k + hl / k + cross / k;
    Wide { hi, lo }
}

proof fn lemma_double(x: int, p: int)
    by (nonlinear_arith)
    ensures
        x * (2 * p) == 2 * (x * p),
        (2 * x) * p == 2 * (x * p),
        (2 * x + 1) * p == 2 * (x * p) + p,
{
}

proof fn lemma_pow2_128()
    ensures
        pow2(127) == 0x8000_0000_0000_0000_0000_0000_0000_0000,
        pow2(128) == two128(),
{
    lemma2_to64();
    lemma_pow2_adds(64, 63);
    lemma_pow2_unfold(64);
    lemma_pow2_unfold(128);
}

proof fn lemma_pow2_le_127(i: nat)
    requires
        i <= 127,
    ensures
        0 < pow2(i) <= 0x8000_0000_0000_0000_0000_0000_0000_0000,
    decreases 127 - i,
{
    lemma_pow2_128();
    if i < 127 {
        lemma_pow2_le_127(i + 1);
        lemma_pow2_unfold(i + 1);
    }
}

/// Divides the two-limb value `hi * 2^128 + lo` by `d`, where the quotient is
/// known to fit one limb because `hi < d`.
fn div_two_limbs(hi: u128, lo: u128, d: u128) -> (res: (u128, u128))
    requires
        hi < d,
    ensures
        res.0 * d + res.1 == hi * two128() + lo,
        res.1 < d,
{
    let half: u128 = 0x8000_0000_0000_0000_0000_0000_0000_0000;
    let mut q: u128 = 0;
    let mut r: u128 = hi;
    let mut rest: u128 = lo;
    let mut i: u32 = 0;
    let ghost mut top: int = 0;
    let ghost mut p: int = 1;
    proof {
        lemma2_to64();
    }
    while i < 128
        invariant
            i <= 128,
            half == 0x8000_0000_0000_0000_0000_0000_0000_0000,
            p == pow2(i as nat),
            0 <= top,
            lo * p == top * two128() + rest,
            hi * p + top == q * d + r,
            r < d,
            q < p,
        decreases 128 - i,
    {
        let bit: u128 = rest / half;
        let shifted: u128 = (rest % half) * 2;
        let gap: u128 = d - r - bit;
        proof {
            lemma_pow2_le_127(i as nat);
            lemma_pow2_unfold((i + 1) as nat);
            lemma_double(lo as int, p);
            lemma_double(hi as int, p);
            lemma_double(q as int, d as int);
        }
        if r >= gap {
            r = r - gap;
            q = q + q + 1;
        } else {
            r = r + r + bit;
            q = q + q;
        }
        rest = shifted;
        i = i + 1;
        proof {
            top = 2 * top + bit;
            p = 2 * p;
        }
    }
    proof {
        lemma_pow2_128();
        assert(lo * p == lo * two128());
    }
    (q, r)
}

impl Wide {
    /// Widens one limb.
    pub fn from_u128(x: u128) -> (w: Wide)
        ensures
            w@ == x,
    {
        Wide { hi: 0, lo: x }
    }

    /// The value as one limb, if it fits.
    pub fn to_u128(&self) -> (r: Option<u128>)
        ensures
            r == (if self@ <= u128::MAX {
                Some(self@ as u128)
            } else {
                None
            }),
    {
        if self.hi == 0 {
            Some(self.lo)
        } else {
            None
        }
    }

    /// Whether `self` is strictly below `other`.
    pub fn lt(&self, other: &Wide) -> (b: bool)
        ensures
            b == (self@ < other@),
    {
        self.hi < other.hi || (self.hi == other.hi && self.lo < other.lo)
    }

    /// The sum, or `None` when it reaches 2^256.
    pub fn checked_add(&self, other: &Wide) -> (r: Option<Wide>)
        ensures
            match r {
                Some(w) => w@ == self@ + other@,
                None => self@ + other@ >= two128() * two128(),
            },
    {
        let (lo, carry): (u128, u128) = if self.lo <= u128::MAX - other.lo {
            (self.lo + other.lo, 0)
        } else {
            (self.lo - (u128::MAX - other.lo) - 1, 1)
        };
        if self.hi > u128::MAX - other.hi {
            return None;
        }
        let hi: u128 = self.hi + other.hi;
        if hi > u128::MAX - carry {
            return None;
        }
        Some(Wide { hi: hi + carry, lo })
    }

    /// The difference, or `None` when `other` exceeds `self`.
    pub fn checked_sub(&self, other: &Wide) -> (r: Option<Wide>)
        ensures
            match r {
                Some(w) => w@ == self@ - other@,
                None => self@ < other@,
            },
    {
        if self.lt(other) {
            return None;
        }
        if self.lo >= other.lo {
            Some(Wide { hi: self.hi - other.hi, lo: self.lo - other.lo })
        } else {
            Some(Wide { hi: self.hi - other.hi - 1, lo: u128::MAX - other.lo + self.lo + 1 })
        }
    }

    /// Quotient and remainder of the division by a nonzero limb.
    pub fn div_rem(&self, d: u128) -> (res: (Wide, u128))
        requires
            d > 0,
        ensures
            res.0@ == self@ / (d as int),
            res.1 == self@ % (d as int),
    {
        let q_hi: u128 = self.hi / d;
        let r_hi: u128 = self.hi % d;
        let (q_lo, r) = div_two_limbs(r_hi, self.lo, d);
        let q = Wide { hi: q_hi, lo: q_lo };
        proof {
            lemma_mul_distributes(q_hi * two128(), q_lo as int, d as int);
            lemma_mul_distributes(q_hi * d, r_hi as int, two128());
            lemma_mul_regroup(q_hi as int, d as int, two128());
            assert((q_hi * two128()) * d == (q_hi * d) * two128()) by (nonlinear_arith);
            assert(self.hi == q_hi * d + r_hi) by (nonlinear_arith)
                requires
                    d > 0,
                    q_hi == self.hi / d,
                    r_hi == self.hi % d,
            ;
            assert(q@ * d + r == self@);
            lemma_fundamental_div_mod_converse(self@, d as int, q@, r as int);
        }
        (q, r)
    }
}

} // verus!
