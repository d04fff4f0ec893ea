//! Approximate equality: absolute-difference, relative, and step-count
//! comparison, with the defaults a decimal type owes them.
//!
//! The default tolerance for both the absolute and the relative comparison
//! is the smallest representable value above zero — one quantum.  The
//! step-count comparison generalizes "units in the last place": it counts
//! positions along the chain of representable values, so one step is one
//! quantum between finite values and one more step reaches an infinity
//! from the finite value at its side of the range.

use vstd::prelude::*;
use crate::decimal::Decimal;

verus! {

impl Decimal {
    /// Default absolute tolerance: the step-successor of zero, the smallest
    /// representable value above it.
    pub fn default_epsilon() -> (r: Decimal)
        ensures
            r == Decimal::Finite(0).next_spec(),
            r == Decimal::Finite(1),
    {
        Decimal::Finite(1)
    }

    /// Default relative tolerance, matching the default epsilon.
    pub fn default_max_relative() -> (r: Decimal)
        ensures
            r == Decimal::Finite(0).next_spec(),
            r == Decimal::Finite(1),
    {
        Decimal::Finite(1)
    }

    /// Default bound on the step count for [`Decimal::ulps_eq`].
    pub fn default_max_ulps() -> (r: u32)
        ensures
            r == 4u32,
    {
        4
    }

    pub open spec fn abs_diff_eq_spec(self, other: Decimal, epsilon: Decimal) -> bool {
        self.abs_diff_spec(other).ord() <= epsilon.ord()
    }

    /// Absolute-difference equality: the magnitude of the difference is at
    /// most `epsilon`.
    pub fn abs_diff_eq(self, other: Decimal, epsilon: Decimal) -> (r: bool)
        requires
            self.wf(),
            other.wf(),
            epsilon.wf(),
        ensures
            r == self.abs_diff_eq_spec(other, epsilon),
    {
        self.abs_diff(other).le(epsilon)
    }

    pub open spec fn relative_eq_spec(
        self,
        other: Decimal,
        epsilon: Decimal,
        max_relative: Decimal,
    ) -> bool {
        if self.is_infinite_spec() || other.is_infinite_spec() {
            false
        } else if self == other {
            true
        } else if self.abs_diff_spec(other).ord() <= epsilon.ord() {
            true
        } else {
            let largest = if other.abs_spec().ord() > self.abs_spec().ord() {
                other.abs_spec()
            } else {
                self.abs_spec()
            };
            self.abs_diff_spec(other).ord() <= largest.mul_spec(max_relative).ord()
        }
    }

    /// Relative equality.  An infinite operand is never relatively equal to
    /// anything, itself included.  Finite operands are equal when they are
    /// identical, when their difference is within `epsilon`, or when it is
    /// within `max_relative` of the larger of the two magnitudes.
    pub fn relative_eq(
        self,
        other: Decimal,
        epsilon: Decimal,
        max_relative: Decimal,
    ) -> (r: bool)
        requires
            self.wf(),
            other.wf(),
            epsilon.wf(),
            max_relative.wf(),
        ensures
            r == self.relative_eq_spec(other, epsilon, max_relative),
    {
        if self.is_infinite() || other.is_infinite() {
            return false;
        }
        if self == other {
            return true;
        }
        let diff = self.abs_diff(other);
        if diff.le(epsilon) {
            return true;
        }
        let abs_self = self.abs();
        let abs_other = other.abs();
        let largest = if abs_other.lt(abs_self) {
            abs_self
        } else {
            abs_other
        };
        diff.le(largest.mul(max_relative))
    }

    /// Number of steps separating two values along the chain of
    /// representable values.
    pub open spec fn step_distance(self, other: Decimal) -> int {
        if self.ord() >= other.ord() {
            self.ord() - other.ord()
        } else {
            other.ord() - self.ord()
        }
    }

    pub open spec fn ulps_eq_spec(
        self,
        other: Decimal,
        epsilon: Decimal,
        max_ulps: u32,
    ) -> bool {
        if self.abs_diff_spec(other).ord() <= epsilon.ord() {
            true
        } else if self.signum_spec() != other.signum_spec() {
            false
        } else {
            self.step_distance(other) <= max_ulps as int
        }
    }

    /// Step-count equality.  Values within `epsilon` are accepted outright;
    /// otherwise a sign mismatch is never close, and values of one sign are
    /// equal when at most `max_ulps` successor steps separate them.
    pub fn ulps_eq(self, other: Decimal, epsilon: Decimal, max_ulps: u32) -> (r: bool)
        requires
            self.wf(),
            other.wf(),
            epsilon.wf(),
        ensures
            r == self.ulps_eq_spec(other, epsilon, max_ulps),
    {
        if self.abs_diff(other).le(epsilon) {
            return true;
        }
        if self.signum() != other.signum() {
            return false;
        }
        let o1: i128 = self.ord_units();
        let o2: i128 = other.ord_units();
        let dist: i128 = if o1 >= o2 {
            o1 - o2
        } else {
            o2 - o1
        };
        dist <= max_ulps as i128
    }
}

} // verus!
