//! A fixed-width decimal number type together with the numeric capability
//! functions that generic numeric frameworks expect of such a type: finite
//! bounds, sign algebra, identity elements, construction from integers and
//! from radix-10 literals, and approximate (epsilon / relative / step-count)
//! equality.
//!
//! A [`Decimal`] is either an infinity or a finite multiple of the fixed
//! quantum `10^-6`; the finite values form a discrete chain, which gives the
//! type an exact successor/predecessor operation and hence an exact notion of
//! step distance between any two values.

pub mod approx_eq;
pub mod decimal;
pub mod laws;
pub mod parse;

pub use decimal::Decimal;
pub use parse::DecimalErrorKind;
pub use parse::ParseDecimalError;
