//! Exact comparison of IEEE-754 binary64 values, carried by their bit
//! patterns.
//!
//! The library never does arithmetic on costs or bounds; it only compares
//! them (clamping into a box, ranking a population). Those comparisons are
//! fully determined by the binary64 encoding: a value is NaN when all
//! exponent bits are set and the mantissa is non-zero, and the non-NaN
//! values are ordered by their sign and magnitude bits, with `+0` and `−0`
//! comparing equal. [`FloatBits`] holds the bit pattern (what
//! `f64::to_bits` returns) and states each comparison over it.

use vstd::prelude::*;

verus! {

/// The sign bit of a binary64 pattern.
pub const SIGN_BIT: u64 = 0x8000_0000_0000_0000u64;

/// The pattern of `+∞`: every exponent bit set, mantissa zero. Magnitudes
/// above it are NaN.
pub const POSITIVE_INFINITY_BITS: u64 = 0x7FF0_0000_0000_0000u64;

/// An IEEE-754 binary64 value, held by its bit pattern.
#[derive(Debug, Clone, Copy, PartialEq, Eq, Structural)]
pub struct FloatBits(pub u64);

/// The IEEE-754 `clamp(x, lo, hi)`: `lo` when `x < lo`, `hi` when
/// `x > hi`, `x` otherwise (so a NaN `x` is returned unchanged).
pub open spec fn clamp_spec(x: FloatBits, lo: FloatBits, hi: FloatBits) -> FloatBits {
    if x.lt_spec(lo) {
        lo
    } else if hi.lt_spec(x) {
        hi
    } else {
        x
    }
}

impl FloatBits {
    /// The pattern without its sign bit.
    pub open spec fn magnitude(self) -> int {
        (self.0 % SIGN_BIT) as int
    }

    /// Whether the sign bit is set.
    pub open spec fn sign_set(self) -> bool {
        self.0 >= SIGN_BIT
    }

    /// Whether the value is a NaN.
    pub open spec fn is_nan_spec(self) -> bool {
        self.magnitude() > POSITIVE_INFINITY_BITS
    }

    /// The position of a non-NaN value on the real line, as an integer
    /// with the same order: magnitude, negated when the sign is set
    /// (so `+0` and `−0` share the key `0`).
    pub open spec fn key(self) -> int {
        if self.sign_set() {
            -self.magnitude()
        } else {
            self.magnitude()
        }
    }

    /// IEEE-754 `<`: false whenever either side is NaN.
    pub open spec fn lt_spec(self, other: FloatBits) -> bool {
        !self.is_nan_spec() && !other.is_nan_spec() && self.key() < other.key()
    }

    /// IEEE-754 `<=`: false whenever either side is NaN.
    pub open spec fn le_spec(self, other: FloatBits) -> bool {
        !self.is_nan_spec() && !other.is_nan_spec() && self.key() <= other.key()
    }

    /// IEEE-754 `==`: false whenever either side is NaN.
    pub open spec fn eq_spec(self, other: FloatBits) -> bool {
        !self.is_nan_spec() && !other.is_nan_spec() && self.key() == other.key()
    }

    /// The total ranking used to order costs: the IEEE order on non-NaN
    /// values, with every NaN ranked after every number.
    pub open spec fn rank_spec(self) -> int {
        if self.is_nan_spec() {
            SIGN_BIT as int
        } else {
            self.key()
        }
    }

    /// Whether the value is a NaN.
    pub fn is_nan(&self) -> (r: bool)
        ensures
            r == self.is_nan_spec(),
    {
        self.0 % SIGN_BIT > POSITIVE_INFINITY_BITS
    }

    /// The integer key of [`key`](Self::key), for a non-NaN value.
    fn key_exec(&self) -> (r: i128)
        ensures
            r == self.key(),
    {
        let m = self.0 % SIGN_BIT;
        if self.0 >= SIGN_BIT {
            -(m as i128)
        } else {
            m as i128
        }
    }

    /// The ranking of [`rank_spec`](Self::rank_spec).
    pub fn rank(&self) -> (r: i128)
        ensures
            r == self.rank_spec(),
    {
        if self.is_nan() {
            SIGN_BIT as i128
        } else {
            self.key_exec()
        }
    }

    /// IEEE-754 `self < other`.
    pub fn lt(&self, other: &FloatBits) -> (r: bool)
        ensures
            r == self.lt_spec(*other),
    {
        !self.is_nan() && !other.is_nan() && self.key_exec() < other.key_exec()
    }

    /// IEEE-754 `self <= other`.
    pub fn le(&self, other: &FloatBits) -> (r: bool)
        ensures
            r == self.le_spec(*other),
    {
        !self.is_nan() && !other.is_nan() && self.key_exec() <= other.key_exec()
    }

    /// IEEE-754 `clamp(self, min, max)`.
    ///
    /// The caller must pass non-NaN bounds with `min <= max`; these are the
    /// inputs on which `f64::clamp` does not panic.
    pub fn clamp(self, min: FloatBits, max: FloatBits) -> (r: FloatBits)
        requires
            !min.is_nan_spec(),
            !max.is_nan_spec(),
            min.le_spec(max),
        ensures
            r == clamp_spec(self, min, max),
    {
        let mut x = self;
        if x.lt(&min) {
            x = min;
        }
        if max.lt(&x) {
            x = max;
        }
        x
    }
}

/// A clamped non-NaN value lies in the box: `lo ≤ clamp(x, lo, hi) ≤ hi`.
pub proof fn lemma_clamp_within_bounds(x: FloatBits, lo: FloatBits, hi: FloatBits)
    requires
        !x.is_nan_spec(),
        lo.le_spec(hi),
    ensures
        lo.le_spec(clamp_spec(x, lo, hi)),
        clamp_spec(x, lo, hi).le_spec(hi),
{
}

/// Clamping a value that already lies in the box leaves it unchanged.
pub proof fn lemma_clamp_inside_is_identity(x: FloatBits, lo: FloatBits, hi: FloatBits)
    requires
        lo.le_spec(x),
        x.le_spec(hi),
    ensures
        clamp_spec(x, lo, hi) == x,
{
}

/// Clamping twice is clamping once.
pub proof fn lemma_clamp_idempotent(x: FloatBits, lo: FloatBits, hi: FloatBits)
    requires
        lo.le_spec(hi),
    ensures
        clamp_spec(clamp_spec(x, lo, hi), lo, hi) == clamp_spec(x, lo, hi),
{
}

/// With equal bounds, every non-NaN value is pinned to the bound (equal
/// to it as a number; `±0` keep their sign).
pub proof fn lemma_clamp_equal_bounds_pins(x: FloatBits, b: FloatBits)
    requires
        !x.is_nan_spec(),
        !b.is_nan_spec(),
    ensures
        clamp_spec(x, b, b).eq_spec(b),
{
}

/// A value below the box is moved to the lower bound, one above it to the
/// upper bound: only offending components change.
pub proof fn lemma_clamp_pins_offenders(x: FloatBits, lo: FloatBits, hi: FloatBits)
    requires
        lo.le_spec(hi),
    ensures
        x.lt_spec(lo) ==> clamp_spec(x, lo, hi) == lo,
        hi.lt_spec(x) ==> clamp_spec(x, lo, hi) == hi,
        !x.lt_spec(lo) && !hi.lt_spec(x) ==> clamp_spec(x, lo, hi) == x,
{
}

/// The ranking extends the IEEE order: on non-NaN values it agrees with
/// `<=`, and every NaN ranks after every number.
pub proof fn lemma_rank_extends_order(a: FloatBits, b: FloatBits)
    ensures
        !a.is_nan_spec() && !b.is_nan_spec() ==> (a.le_spec(b) <==> a.rank_spec() <= b.rank_spec()),
        !a.is_nan_spec() && b.is_nan_spec() ==> a.rank_spec() < b.rank_spec(),
{
    assert(a.magnitude() < SIGN_BIT as int);
}

/// IEEE-754 `<` on binary64 patterns, stated over the raw bits: between
/// two non-NaN positive patterns (sign bit clear) the smaller pattern is
/// the smaller number; between two negative ones (sign bit set) the larger
/// pattern is the smaller number; every negative number is below every
/// positive one except that `−0` and `+0` are equal; no positive pattern is
/// below a negative one.
pub proof fn lemma_lt_by_bits(a: FloatBits, b: FloatBits)
    requires
        !a.is_nan_spec(),
        !b.is_nan_spec(),
    ensures
        a.0 < SIGN_BIT && b.0 < SIGN_BIT ==> (a.lt_spec(b) <==> a.0 < b.0),
        a.0 >= SIGN_BIT && b.0 >= SIGN_BIT ==> (a.lt_spec(b) <==> a.0 > b.0),
        a.0 >= SIGN_BIT && b.0 < SIGN_BIT ==> (a.lt_spec(b) <==> !(a.0 == SIGN_BIT && b.0 == 0)),
        a.0 < SIGN_BIT && b.0 >= SIGN_BIT ==> !a.lt_spec(b),
{
    if a.0 >= SIGN_BIT {
        assert(a.magnitude() == a.0 - SIGN_BIT);
    } else {
        assert(a.magnitude() == a.0);
    }
    if b.0 >= SIGN_BIT {
        assert(b.magnitude() == b.0 - SIGN_BIT);
    } else {
        assert(b.magnitude() == b.0);
    }
}

/// IEEE-754 `==` on binary64 patterns: two non-NaN values are equal
/// exactly when their patterns are, or when both are zeros (`+0 == −0`).
pub proof fn lemma_eq_by_bits(a: FloatBits, b: FloatBits)
    requires
        !a.is_nan_spec(),
        !b.is_nan_spec(),
    ensures
        a.eq_spec(b) <==> (a.0 == b.0 || (a.0 % SIGN_BIT == 0 && b.0 % SIGN_BIT == 0)),
{
    if a.0 >= SIGN_BIT {
        assert(a.magnitude() == a.0 - SIGN_BIT);
    } else {
        assert(a.magnitude() == a.0);
    }
    if b.0 >= SIGN_BIT {
        assert(b.magnitude() == b.0 - SIGN_BIT);
    } else {
        assert(b.magnitude() == b.0);
    }
}

/// The IEEE order is total on numbers: of two non-NaN values exactly one
/// of `a < b`, `a == b`, `b < a` holds. So two distinct numbers never tie
/// in the ranking the sort uses.
pub proof fn lemma_order_trichotomy(a: FloatBits, b: FloatBits)
    requires
        !a.is_nan_spec(),
        !b.is_nan_spec(),
    ensures
        a.lt_spec(b) || a.eq_spec(b) || b.lt_spec(a),
        !(a.lt_spec(b) && a.eq_spec(b)),
        !(a.lt_spec(b) && b.lt_spec(a)),
        !(a.eq_spec(b) && b.lt_spec(a)),
        a.rank_spec() == b.rank_spec() <==> a.eq_spec(b),
        a.rank_spec() < b.rank_spec() <==> a.lt_spec(b),
{
}

} // verus!
