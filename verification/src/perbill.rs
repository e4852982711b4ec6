//! Parts-per-billion fractions in `[0, 1]`, as used for basket weights,
//! governance thresholds and tax rates.
use vstd::prelude::*;

verus! {

/// One whole, in parts per billion.
pub const BILLION: u32 = 1_000_000_000;

/// A fraction `parts / 10^9`, never above one.
#[derive(Clone, Copy, Debug, PartialEq, Eq, Structural)]
pub struct Perbill {
    parts: u32,
}

/// `p / q` in parts per billion, rounded down; one whole when `q` is zero or
/// `p > q`.
pub open spec fn rational_parts(p: int, q: int) -> int {
    if q == 0 || p > q {
        BILLION as int
    } else {
        (p * BILLION) / q
    }
}

/// A fraction's parts are never negative.
pub proof fn lemma_value_nonneg(p: Perbill)
    ensures
        p.value() >= 0,
{
}

impl Perbill {
    #[verifier::type_invariant]
    spec fn at_most_one(self) -> bool {
        self.parts <= BILLION
    }

    /// The number of parts per billion.
    pub closed spec fn value(self) -> int {
        self.parts as int
    }

    pub fn deconstruct(&self) -> (r: u32)
        ensures
            r == self.value(),
            r <= BILLION,
    {
        proof {
            use_type_invariant(self);
        }
        self.parts
    }

    /// From a number of parts, capped at one whole.
    pub fn from_parts(parts: u32) -> (r: Self)
        ensures
            r.value() == if parts > BILLION { BILLION as int } else { parts as int },
    {
        if parts > BILLION {
            Perbill { parts: BILLION }
        } else {
            Perbill { parts }
        }
    }

    pub fn zero() -> (r: Self)
        ensures
            r.value() == 0,
    {
        Perbill { parts: 0 }
    }

    pub fn one() -> (r: Self)
        ensures
            r.value() == BILLION,
    {
        Perbill { parts: BILLION }
    }

    /// `x` percent, with `x` capped at 100.
    pub fn from_percent(x: u32) -> (r: Self)
        ensures
            r.value() == (if x > 100 { 100 } else { x as int }) * 10_000_000,
    {
        let a: u32 = if x > 100 { 100 } else { x };
        Perbill { parts: a * 10_000_000 }
    }

    /// `p / q` rounded down; one whole when `q == 0` or `p > q`.
    pub fn from_rational(p: u32, q: u32) -> (r: Self)
        ensures
            r.value() == rational_parts(p as int, q as int),
    {
        if q == 0 || p > q {
            return Perbill { parts: BILLION };
        }
        assert((p as u64) * (BILLION as u64) <= 4_294_967_295u64 * 1_000_000_000u64) by (nonlinear_arith)
            requires p <= 4_294_967_295u64;
        let num: u64 = (p as u64) * (BILLION as u64);
        let v: u64 = num / (q as u64);
        proof {
            assert(v <= BILLION) by (nonlinear_arith)
                requires
                    v == num / (q as u64),
                    num == p * BILLION,
                    p <= q,
                    q > 0,
            ;
        }
        Perbill { parts: v as u32 }
    }

    /// Sum capped at one whole.
    pub fn saturating_add(self, rhs: Self) -> (r: Self)
        ensures
            r.value() == if self.value() + rhs.value() > BILLION {
                BILLION as int
            } else {
                self.value() + rhs.value()
            },
    {
        proof {
            use_type_invariant(&self);
            use_type_invariant(&rhs);
        }
        let s = self.parts + rhs.parts;
        if s > BILLION {
            Perbill { parts: BILLION }
        } else {
            Perbill { parts: s }
        }
    }

    /// `self >= other`.
    pub fn ge(&self, other: &Self) -> (r: bool)
        ensures
            r == (self.value() >= other.value()),
    {
        self.parts >= other.parts
    }

    /// `self == other`.
    pub fn same(&self, other: &Self) -> (r: bool)
        ensures
            r == (self.value() == other.value()),
    {
        self.parts == other.parts
    }
}

} // verus!
