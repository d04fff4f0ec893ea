//! General laws of the capability layer, proved once over the spec-level
//! operations that the executable functions are contracted against.

use vstd::prelude::*;
use vstd::arithmetic::div_mod::lemma_div_multiples_vanish;
use crate::decimal::{Decimal, MAX_UNITS, ONE_UNITS};

verus! {

/// Sign classification partitions the domain: signum yields the
/// multiplicative identity exactly on the strictly positive values, its
/// negation exactly on the strictly negative ones, and the additive
/// identity exactly on zero — one case per value, no overlap and no gap.
pub proof fn lemma_signum_partition(x: Decimal)
    requires
        x.wf(),
    ensures
        (x.signum_spec() == Decimal::Finite(ONE_UNITS)) <==> (x.ord() > 0),
        (x.signum_spec() == Decimal::Finite((-ONE_UNITS) as i128)) <==> (x.ord() < 0),
        (x.signum_spec() == Decimal::Finite(0)) <==> (x.ord() == 0),
{
}

/// The bounds flank the infinities: the largest finite value is the
/// step-predecessor of positive infinity and strictly below it, and the
/// smallest finite value is the step-successor of negative infinity and
/// strictly above it.
pub proof fn lemma_bounds_flank_infinities()
    ensures
        Decimal::PosInfinity.previous_spec() == Decimal::Finite(MAX_UNITS),
        Decimal::Finite(MAX_UNITS).ord() < Decimal::PosInfinity.ord(),
        Decimal::Finite(MAX_UNITS).next_spec() == Decimal::PosInfinity,
        Decimal::NegInfinity.next_spec() == Decimal::Finite((-MAX_UNITS) as i128),
        Decimal::Finite((-MAX_UNITS) as i128).ord() > Decimal::NegInfinity.ord(),
        Decimal::Finite((-MAX_UNITS) as i128).previous_spec() == Decimal::NegInfinity,
{
}

/// The multiplicative identity is neutral: `one * x == x` for every
/// representable value, the infinities included.
pub proof fn lemma_one_mul(x: Decimal)
    requires
        x.wf(),
    ensures
        Decimal::Finite(ONE_UNITS).mul_spec(x) == x,
{
    match x {
        Decimal::Finite(u) => {
            if u != 0 {
                let au: int = if u >= 0 {
                    u as int
                } else {
                    -(u as int)
                };
                lemma_div_multiples_vanish(au, ONE_UNITS as int);
                assert(Decimal::Finite(ONE_UNITS).abs_ord() * x.abs_ord() == ONE_UNITS as int
                    * au);
            }
        },
        _ => {},
    }
}

/// The additive identity is neutral: `zero + x == x` for every
/// representable value, the infinities included.
pub proof fn lemma_zero_add(x: Decimal)
    requires
        x.wf(),
    ensures
        Decimal::Finite(0).add_spec(x) == x,
{
}

/// A finite value is relatively equal to itself under any non-negative
/// tolerances.
pub proof fn lemma_relative_eq_self(x: Decimal, epsilon: Decimal, max_relative: Decimal)
    requires
        x.wf(),
        epsilon.wf(),
        max_relative.wf(),
        !x.is_infinite_spec(),
        epsilon.ord() >= 0,
        max_relative.ord() >= 0,
    ensures
        x.relative_eq_spec(x, epsilon, max_relative),
{
}

/// An infinite operand is never relatively equal to anything, itself
/// included.
pub proof fn lemma_relative_eq_infinite(
    x: Decimal,
    y: Decimal,
    epsilon: Decimal,
    max_relative: Decimal,
)
    requires
        x.is_infinite_spec() || y.is_infinite_spec(),
    ensures
        !x.relative_eq_spec(y, epsilon, max_relative),
{
}

/// Values whose signs differ are never step-count equal.  The one
/// exception, excluded here, is the outright acceptance of a difference
/// within `epsilon`, which is checked before the signs.
pub proof fn lemma_ulps_eq_sign_mismatch(x: Decimal, y: Decimal, epsilon: Decimal, max_ulps: u32)
    requires
        x.wf(),
        y.wf(),
        x.signum_spec() != y.signum_spec(),
        x != y,
        !(x.abs_diff_spec(y).ord() <= epsilon.ord()),
    ensures
        !x.ulps_eq_spec(y, epsilon, max_ulps),
{
}

/// One quantum above zero — the default epsilon — is the smallest
/// representable positive value.
pub proof fn lemma_epsilon_smallest_positive(d: Decimal)
    requires
        d.wf(),
        d.ord() > 0,
    ensures
        Decimal::Finite(0).next_spec().ord() <= d.ord(),
{
}

} // verus!
