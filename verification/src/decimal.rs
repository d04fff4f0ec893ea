//! The decimal value type and its exact operations: ordering, stepping,
//! bounds, sign algebra, identities, and saturating arithmetic.

use vstd::prelude::*;
use vstd::arithmetic::div_mod::{
    lemma_div_is_ordered, lemma_div_multiples_vanish, lemma_div_pos_is_pos,
    lemma_fundamental_div_mod,
};

verus! {

/// Number of quanta (`10^-6` steps) in the multiplicative identity.
pub const ONE_UNITS: i128 = 1_000_000;

/// Largest number of quanta a finite `Decimal` may hold; the largest finite
/// value is therefore `10^20` and the smallest positive one is `10^-6`.
pub const MAX_UNITS: i128 = 100_000_000_000_000_000_000_000_000;

/// A fixed-width decimal number: either an infinity or a finite signed
/// multiple of the quantum `10^-6`, stored as that multiple (its `units`).
///
/// The representable values form a discrete chain
/// `NegInfinity < Finite(-MAX_UNITS) < ... < Finite(MAX_UNITS) < PosInfinity`,
/// so every value except the infinities has both a successor and a
/// predecessor one quantum away.  Arithmetic that would leave the finite
/// range saturates to the infinity of the result's sign; there is no
/// not-a-number value, and operations whose result would be undefined state
/// in their contracts which representable value stands in for it.
#[derive(Clone, Copy, Debug, PartialEq, Eq, Structural)]
pub enum Decimal {
    NegInfinity,
    Finite(i128),
    PosInfinity,
}

impl Decimal {
    /// A finite payload must fit the representable range.
    pub open spec fn wf(self) -> bool {
        match self {
            Decimal::Finite(u) => -MAX_UNITS <= u <= MAX_UNITS,
            _ => true,
        }
    }

    /// Position of a value in the discrete chain of representable values;
    /// the chain's total order is the integer order of these positions.
    pub open spec fn ord(self) -> int {
        match self {
            Decimal::NegInfinity => -(MAX_UNITS + 1) as int,
            Decimal::Finite(u) => u as int,
            Decimal::PosInfinity => MAX_UNITS as int + 1,
        }
    }

    /// Whether the representation is within the representable range.
    pub fn well_formed(self) -> (r: bool)
        ensures
            r == self.wf(),
    {
        match self {
            Decimal::Finite(u) => -MAX_UNITS <= u && u <= MAX_UNITS,
            _ => true,
        }
    }

    /// Chain position as a machine integer.
    pub fn ord_units(self) -> (r: i128)
        requires
            self.wf(),
        ensures
            r as int == self.ord(),
    {
        match self {
            Decimal::NegInfinity => -(MAX_UNITS + 1),
            Decimal::Finite(u) => u,
            Decimal::PosInfinity => MAX_UNITS + 1,
        }
    }

    /// The additive identity.
    pub fn zero() -> (r: Decimal)
        ensures
            r == Decimal::Finite(0),
    {
        Decimal::Finite(0)
    }

    /// The multiplicative identity.
    pub fn one() -> (r: Decimal)
        ensures
            r == Decimal::Finite(ONE_UNITS),
    {
        Decimal::Finite(ONE_UNITS)
    }

    pub fn pos_infinity() -> (r: Decimal)
        ensures
            r == Decimal::PosInfinity,
    {
        Decimal::PosInfinity
    }

    pub fn neg_infinity() -> (r: Decimal)
        ensures
            r == Decimal::NegInfinity,
    {
        Decimal::NegInfinity
    }

    /// Builds the finite value of `units` quanta, or `None` when that many
    /// quanta lie outside the representable range.
    pub fn from_units(units: i128) -> (r: Option<Decimal>)
        ensures
            r == if -MAX_UNITS <= units <= MAX_UNITS {
                Some(Decimal::Finite(units))
            } else {
                None::<Decimal>
            },
            r is Some ==> r->Some_0.wf(),
    {
        if -MAX_UNITS <= units && units <= MAX_UNITS {
            Some(Decimal::Finite(units))
        } else {
            None
        }
    }

    pub open spec fn from_i64_spec(n: i64) -> Decimal {
        Decimal::Finite((n as int * ONE_UNITS as int) as i128)
    }

    /// Exact conversion from a signed 64-bit integer; every input is
    /// representable, so the result is always `Some`.
    pub fn from_i64(n: i64) -> (r: Option<Decimal>)
        ensures
            r == Some(Decimal::from_i64_spec(n)),
            r->Some_0.wf(),
    {
        Some(Decimal::Finite((n as i128) * ONE_UNITS))
    }

    pub open spec fn from_u64_spec(n: u64) -> Decimal {
        Decimal::Finite((n as int * ONE_UNITS as int) as i128)
    }

    /// Exact conversion from an unsigned 64-bit integer; every input is
    /// representable, so the result is always `Some`.
    pub fn from_u64(n: u64) -> (r: Option<Decimal>)
        ensures
            r == Some(Decimal::from_u64_spec(n)),
            r->Some_0.wf(),
    {
        Some(Decimal::Finite((n as i128) * ONE_UNITS))
    }

    pub open spec fn next_spec(self) -> Decimal {
        match self {
            Decimal::NegInfinity => Decimal::Finite((-MAX_UNITS) as i128),
            Decimal::Finite(u) => if u == MAX_UNITS {
                Decimal::PosInfinity
            } else {
                Decimal::Finite((u + 1) as i128)
            },
            Decimal::PosInfinity => Decimal::PosInfinity,
        }
    }

    /// Successor in the chain of representable values; positive infinity is
    /// its own successor.
    pub fn next(self) -> (r: Decimal)
        requires
            self.wf(),
        ensures
            r == self.next_spec(),
            r.wf(),
            self != Decimal::PosInfinity ==> r.ord() == self.ord() + 1,
    {
        match self {
            Decimal::NegInfinity => Decimal::Finite(-MAX_UNITS),
            Decimal::Finite(u) => if u == MAX_UNITS {
                Decimal::PosInfinity
            } else {
                Decimal::Finite(u + 1)
            },
            Decimal::PosInfinity => Decimal::PosInfinity,
        }
    }

    pub open spec fn previous_spec(self) -> Decimal {
        match self {
            Decimal::PosInfinity => Decimal::Finite(MAX_UNITS),
            Decimal::Finite(u) => if u == -MAX_UNITS {
                Decimal::NegInfinity
            } else {
                Decimal::Finite((u - 1) as i128)
            },
            Decimal::NegInfinity => Decimal::NegInfinity,
        }
    }

    /// Predecessor in the chain of representable values; negative infinity
    /// is its own predecessor.
    pub fn previous(self) -> (r: Decimal)
        requires
            self.wf(),
        ensures
            r == self.previous_spec(),
            r.wf(),
            self != Decimal::NegInfinity ==> r.ord() == self.ord() - 1,
    {
        match self {
            Decimal::PosInfinity => Decimal::Finite(MAX_UNITS),
            Decimal::Finite(u) => if u == -MAX_UNITS {
                Decimal::NegInfinity
            } else {
                Decimal::Finite(u - 1)
            },
            Decimal::NegInfinity => Decimal::NegInfinity,
        }
    }

    /// Largest finite representable value: the step-predecessor of positive
    /// infinity.
    pub fn max_value() -> (r: Decimal)
        ensures
            r == Decimal::PosInfinity.previous_spec(),
            r == Decimal::Finite(MAX_UNITS),
    {
        Decimal::Finite(MAX_UNITS)
    }

    /// Smallest finite representable value: the step-successor of negative
    /// infinity.
    pub fn min_value() -> (r: Decimal)
        ensures
            r == Decimal::NegInfinity.next_spec(),
            r == Decimal::Finite((-MAX_UNITS) as i128),
    {
        Decimal::Finite(-MAX_UNITS)
    }

    /// Whether `self` equals the additive identity exactly.
    pub fn is_zero(self) -> (r: bool)
        ensures
            r == (self == Decimal::Finite(0)),
    {
        match self {
            Decimal::Finite(u) => u == 0,
            _ => false,
        }
    }

    /// Whether `self` is strictly above zero (both infinities are signed).
    pub fn is_positive(self) -> (r: bool)
        requires
            self.wf(),
        ensures
            r == (self.ord() > 0),
    {
        match self {
            Decimal::NegInfinity => false,
            Decimal::Finite(u) => u > 0,
            Decimal::PosInfinity => true,
        }
    }

    /// Whether `self` is strictly below zero (both infinities are signed).
    pub fn is_negative(self) -> (r: bool)
        requires
            self.wf(),
        ensures
            r == (self.ord() < 0),
    {
        match self {
            Decimal::NegInfinity => true,
            Decimal::Finite(u) => u < 0,
            Decimal::PosInfinity => false,
        }
    }

    pub open spec fn is_infinite_spec(self) -> bool {
        self is NegInfinity || self is PosInfinity
    }

    pub fn is_infinite(self) -> (r: bool)
        ensures
            r == self.is_infinite_spec(),
    {
        match self {
            Decimal::Finite(_) => false,
            _ => true,
        }
    }

    /// Order comparison: `self <= other` in the chain's total order.
    pub fn le(self, other: Decimal) -> (r: bool)
        requires
            self.wf(),
            other.wf(),
        ensures
            r == (self.ord() <= other.ord()),
    {
        self.ord_units() <= other.ord_units()
    }

    /// Order comparison: `self < other` in the chain's total order.
    pub fn lt(self, other: Decimal) -> (r: bool)
        requires
            self.wf(),
            other.wf(),
        ensures
            r == (self.ord() < other.ord()),
    {
        self.ord_units() < other.ord_units()
    }

    pub open spec fn neg_spec(self) -> Decimal {
        match self {
            Decimal::NegInfinity => Decimal::PosInfinity,
            Decimal::Finite(u) => Decimal::Finite((-u) as i128),
            Decimal::PosInfinity => Decimal::NegInfinity,
        }
    }

    /// Exact negation; the representable range is symmetric, so negation
    /// never saturates.
    pub fn neg(self) -> (r: Decimal)
        requires
            self.wf(),
        ensures
            r == self.neg_spec(),
            r.wf(),
            r.ord() == -self.ord(),
    {
        match self {
            Decimal::NegInfinity => Decimal::PosInfinity,
            Decimal::Finite(u) => Decimal::Finite(-u),
            Decimal::PosInfinity => Decimal::NegInfinity,
        }
    }

    pub open spec fn abs_spec(self) -> Decimal {
        if self.ord() >= 0 {
            self
        } else {
            self.neg_spec()
        }
    }

    /// Non-negative magnitude: `self` itself when `self` is non-negative,
    /// its exact negation otherwise.
    pub fn abs(self) -> (r: Decimal)
        requires
            self.wf(),
        ensures
            r == self.abs_spec(),
            r.wf(),
            r.ord() >= 0,
            self.ord() >= 0 ==> r == self,
            self.ord() < 0 ==> r == self.neg_spec(),
    {
        match self {
            Decimal::NegInfinity => Decimal::PosInfinity,
            Decimal::Finite(u) => if u < 0 {
                Decimal::Finite(-u)
            } else {
                Decimal::Finite(u)
            },
            Decimal::PosInfinity => Decimal::PosInfinity,
        }
    }

    pub open spec fn signum_spec(self) -> Decimal {
        if self.ord() > 0 {
            Decimal::Finite(ONE_UNITS)
        } else if self.ord() < 0 {
            Decimal::Finite((-ONE_UNITS) as i128)
        } else {
            Decimal::Finite(0)
        }
    }

    /// Sign classification: the multiplicative identity for strictly
    /// positive values, its negation for strictly negative values, and the
    /// additive identity for zero; the three cases partition the domain.
    pub fn signum(self) -> (r: Decimal)
        requires
            self.wf(),
        ensures
            r == self.signum_spec(),
            r.wf(),
            self.ord() > 0 ==> r == Decimal::Finite(ONE_UNITS),
            self.ord() < 0 ==> r == Decimal::Finite((-ONE_UNITS) as i128),
            self.ord() == 0 ==> r == Decimal::Finite(0),
    {
        if self.is_positive() {
            Decimal::Finite(ONE_UNITS)
        } else if self.is_negative() {
            Decimal::Finite(-ONE_UNITS)
        } else {
            Decimal::Finite(0)
        }
    }

    pub open spec fn add_spec(self, other: Decimal) -> Decimal {
        match (self, other) {
            (Decimal::Finite(a), Decimal::Finite(b)) => Decimal::saturate_spec(a as int + b as int),
            (Decimal::PosInfinity, Decimal::NegInfinity) => Decimal::Finite(0),
            (Decimal::NegInfinity, Decimal::PosInfinity) => Decimal::Finite(0),
            (Decimal::PosInfinity, _) => Decimal::PosInfinity,
            (Decimal::NegInfinity, _) => Decimal::NegInfinity,
            (_, Decimal::PosInfinity) => Decimal::PosInfinity,
            (_, Decimal::NegInfinity) => Decimal::NegInfinity,
        }
    }

    /// The finite value of `units` quanta, saturated to the infinity of its
    /// sign when it falls outside the representable range.
    pub open spec fn saturate_spec(units: int) -> Decimal {
        if units > MAX_UNITS {
            Decimal::PosInfinity
        } else if units < -MAX_UNITS {
            Decimal::NegInfinity
        } else {
            Decimal::Finite(units as i128)
        }
    }

    /// Saturating addition.  An infinity absorbs any other operand of the
    /// same or finite sign; the sum of two opposite infinities is undefined
    /// and the additive identity stands in for it.
    pub fn add(self, other: Decimal) -> (r: Decimal)
        requires
            self.wf(),
            other.wf(),
        ensures
            r == self.add_spec(other),
            r.wf(),
    {
        match (self, other) {
            (Decimal::Finite(a), Decimal::Finite(b)) => {
                let s: i128 = a + b;
                if s > MAX_UNITS {
                    Decimal::PosInfinity
                } else if s < -MAX_UNITS {
                    Decimal::NegInfinity
                } else {
                    Decimal::Finite(s)
                }
            },
            (Decimal::PosInfinity, Decimal::NegInfinity) => Decimal::Finite(0),
            (Decimal::NegInfinity, Decimal::PosInfinity) => Decimal::Finite(0),
            (Decimal::PosInfinity, _) => Decimal::PosInfinity,
            (Decimal::NegInfinity, _) => Decimal::NegInfinity,
            (_, Decimal::PosInfinity) => Decimal::PosInfinity,
            (_, Decimal::NegInfinity) => Decimal::NegInfinity,
        }
    }

    pub open spec fn sub_spec(self, other: Decimal) -> Decimal {
        self.add_spec(other.neg_spec())
    }

    /// Saturating subtraction: addition of the exact negation.
    pub fn sub(self, other: Decimal) -> (r: Decimal)
        requires
            self.wf(),
            other.wf(),
        ensures
            r == self.sub_spec(other),
            r.wf(),
    {
        self.add(other.neg())
    }

    pub open spec fn abs_diff_spec(self, other: Decimal) -> Decimal {
        match (self, other) {
            (Decimal::Finite(a), Decimal::Finite(b)) => Decimal::saturate_spec(
                if a >= b {
                    a as int - b as int
                } else {
                    b as int - a as int
                },
            ),
            _ => Decimal::PosInfinity,
        }
    }

    /// Magnitude of the difference, saturating at the representable range.
    /// When either operand is infinite the difference is treated as
    /// unboundedly large — positive infinity — even for two like
    /// infinities, whose difference is undefined.
    pub fn abs_diff(self, other: Decimal) -> (r: Decimal)
        requires
            self.wf(),
            other.wf(),
        ensures
            r == self.abs_diff_spec(other),
            r.wf(),
            r.ord() >= 0,
    {
        match (self, other) {
            (Decimal::Finite(a), Decimal::Finite(b)) => {
                let d: i128 = if a >= b {
                    a - b
                } else {
                    b - a
                };
                if d > MAX_UNITS {
                    Decimal::PosInfinity
                } else {
                    Decimal::Finite(d)
                }
            },
            _ => Decimal::PosInfinity,
        }
    }

    /// Magnitude of a chain position.
    pub open spec fn abs_ord(self) -> int {
        if self.ord() >= 0 {
            self.ord()
        } else {
            -self.ord()
        }
    }

    pub open spec fn mul_spec(self, other: Decimal) -> Decimal {
        if self.ord() == 0 || other.ord() == 0 {
            Decimal::Finite(0)
        } else if self.is_infinite_spec() || other.is_infinite_spec() {
            if (self.ord() > 0) == (other.ord() > 0) {
                Decimal::PosInfinity
            } else {
                Decimal::NegInfinity
            }
        } else {
            let m = (self.abs_ord() * other.abs_ord()) / (ONE_UNITS as int);
            if (self.ord() > 0) == (other.ord() > 0) {
                if m > MAX_UNITS {
                    Decimal::PosInfinity
                } else {
                    Decimal::Finite(m as i128)
                }
            } else {
                if m > MAX_UNITS {
                    Decimal::NegInfinity
                } else {
                    Decimal::Finite((-m) as i128)
                }
            }
        }
    }

    /// Saturating multiplication in quanta: the product of the magnitudes is
    /// rescaled by the quantum (truncating toward zero), given the sign of
    /// the operands' sign product, and saturated to the infinity of that
    /// sign when it leaves the representable range.  A zero operand makes
    /// the product zero even against an infinity, whose product with zero is
    /// undefined.
    pub fn mul(self, other: Decimal) -> (r: Decimal)
        requires
            self.wf(),
            other.wf(),
        ensures
            r == self.mul_spec(other),
            r.wf(),
    {
        match (self, other) {
            (Decimal::Finite(x), Decimal::Finite(y)) => {
                if x == 0 || y == 0 {
                    Decimal::Finite(0)
                } else {
                    let a: i128 = if x < 0 { -x } else { x };
                    let b: i128 = if y < 0 { -y } else { y };
                    let positive: bool = (x > 0) == (y > 0);
                    // The product in quanta overflows the range exactly when
                    // a * b reaches (MAX_UNITS + 1) * ONE_UNITS.
                    let cap: i128 = (MAX_UNITS + 1) * ONE_UNITS - 1;
                    let quot: i128 = cap / b;
                    let ghost gr: int = (cap as int) % (b as int);
                    proof {
                        lemma_fundamental_div_mod(cap as int, b as int);
                        assert(quot as int == (cap as int) / (b as int));
                        assert(cap as int == (b as int) * (quot as int) + gr);
                        assert(0 <= gr < b as int);
                    }
                    if a > quot {
                        proof {
                            assert((a as int) * (b as int) >= cap as int + 1)
                                by (nonlinear_arith)
                                requires
                                    a as int >= quot as int + 1,
                                    b as int >= 1,
                                    cap as int == (b as int) * (quot as int) + gr,
                                    0 <= gr < b as int,
                            ;
                            lemma_div_is_ordered(
                                cap as int + 1,
                                (a as int) * (b as int),
                                ONE_UNITS as int,
                            );
                            lemma_div_multiples_vanish(
                                MAX_UNITS as int + 1,
                                ONE_UNITS as int,
                            );
                            assert((cap as int + 1) / (ONE_UNITS as int) == MAX_UNITS as int + 1);
                        }
                        if positive {
                            Decimal::PosInfinity
                        } else {
                            Decimal::NegInfinity
                        }
                    } else {
                        proof {
                            assert(1 <= (a as int) * (b as int) <= cap as int)
                                by (nonlinear_arith)
                                requires
                                    1 <= a as int <= quot as int,
                                    b as int >= 1,
                                    cap as int == (b as int) * (quot as int) + gr,
                                    0 <= gr,
                            ;
                            lemma_div_is_ordered(
                                (a as int) * (b as int),
                                cap as int,
                                ONE_UNITS as int,
                            );
                        }
                        let p: i128 = a * b;
                        let m: i128 = p / ONE_UNITS;
                        proof {
                            lemma_div_pos_is_pos(p as int, ONE_UNITS as int);
                        }
                        if positive {
                            Decimal::Finite(m)
                        } else {
                            Decimal::Finite(-m)
                        }
                    }
                }
            },
            (Decimal::Finite(x), Decimal::PosInfinity) => {
                if x == 0 {
                    Decimal::Finite(0)
                } else if x > 0 {
                    Decimal::PosInfinity
                } else {
                    Decimal::NegInfinity
                }
            },
            (Decimal::Finite(x), Decimal::NegInfinity) => {
                if x == 0 {
                    Decimal::Finite(0)
                } else if x > 0 {
                    Decimal::NegInfinity
                } else {
                    Decimal::PosInfinity
                }
            },
            (Decimal::PosInfinity, Decimal::Finite(y)) => {
                if y == 0 {
                    Decimal::Finite(0)
                } else if y > 0 {
                    Decimal::PosInfinity
                } else {
                    Decimal::NegInfinity
                }
            },
            (Decimal::NegInfinity, Decimal::Finite(y)) => {
                if y == 0 {
                    Decimal::Finite(0)
                } else if y > 0 {
                    Decimal::NegInfinity
                } else {
                    Decimal::PosInfinity
                }
            },
            (Decimal::PosInfinity, Decimal::PosInfinity) => Decimal::PosInfinity,
            (Decimal::NegInfinity, Decimal::NegInfinity) => Decimal::PosInfinity,
            (Decimal::PosInfinity, Decimal::NegInfinity) => Decimal::NegInfinity,
            (Decimal::NegInfinity, Decimal::PosInfinity) => Decimal::NegInfinity,
        }
    }

    pub open spec fn abs_sub_spec(self, other: Decimal) -> Decimal {
        if self.ord() <= other.ord() {
            Decimal::Finite(0)
        } else {
            self.sub_spec(other)
        }
    }

    /// Subtraction floored at zero: `self - other` when `self > other`, the
    /// additive identity otherwise.  The result is never negative.
    pub fn abs_sub(self, other: Decimal) -> (r: Decimal)
        requires
            self.wf(),
            other.wf(),
        ensures
            r == self.abs_sub_spec(other),
            r.wf(),
            r.ord() >= 0,
            self.ord() <= other.ord() ==> r == Decimal::Finite(0),
            self.ord() > other.ord() ==> r == self.sub_spec(other),
    {
        if self.le(other) {
            Decimal::Finite(0)
        } else {
            self.sub(other)
        }
    }
}

} // verus!
