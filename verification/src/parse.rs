//! Radix-10 parsing of decimal literals.
//!
//! The accepted literal grammar is an optional sign, then digits with at
//! most one decimal point among them (at least one digit in total, at most
//! 34 of them), then an optional exponent: `e` or `E`, an optional sign,
//! and one to four digits.  Whitespace is never part of a literal; an input
//! that is empty or all whitespace is reported as [`DecimalErrorKind::Empty`],
//! and every other input outside the grammar — including any literal in an
//! unsupported radix, that is any radix other than ten — as
//! [`DecimalErrorKind::Invalid`].
//!
//! The denoted value is truncated toward zero to a whole number of quanta
//! (`10^-6`), and saturates to the infinity of its sign when it falls
//! outside the representable range.

use vstd::prelude::*;
use vstd::string::*;
use vstd::arithmetic::div_mod::{lemma_basic_div, lemma_div_is_ordered, lemma_div_pos_is_pos};
use vstd::arithmetic::mul::{
    lemma_mul_inequality, lemma_mul_is_associative, lemma_mul_is_distributive_add_other_way,
    lemma_mul_nonnegative,
};
use crate::decimal::{Decimal, MAX_UNITS};

verus! {

/// Why a string failed to parse as a decimal literal.
#[derive(Clone, Copy, Debug, PartialEq, Eq, Structural)]
pub enum DecimalErrorKind {
    /// The input had no content: it was empty or held only whitespace.
    Empty,
    /// The input had content that is not a decimal literal in the given
    /// radix, or the radix itself is unsupported.
    Invalid,
}

/// Error returned when a string cannot be parsed as a decimal literal.
#[derive(Clone, Copy, Debug, PartialEq, Eq, Structural)]
pub struct ParseDecimalError {
    pub kind: DecimalErrorKind,
}

/// Position of the literal scanner within the grammar.
#[derive(Clone, Copy, Debug, PartialEq, Eq, Structural)]
pub enum ScanMode {
    /// Nothing consumed yet.
    Start,
    /// A leading sign was consumed.
    AfterSign,
    /// Inside the digits before any decimal point.
    IntDigits,
    /// A decimal point arrived before any digit; digits must follow.
    DotOnly,
    /// Past the decimal point, with at least one digit seen so far.
    FracDigits,
    /// The exponent mark `e`/`E` was just consumed.
    ExpMark,
    /// The exponent's sign was just consumed.
    ExpSign,
    /// Inside the exponent's digits.
    ExpDigits,
    /// The input left the grammar.
    Bad,
}

/// Everything the scanner has gathered: the grammar position, the
/// mantissa's sign, value and digit counts, and the exponent's sign, value
/// and digit count.
pub ghost struct ScanState {
    pub mode: ScanMode,
    pub negative: bool,
    pub mant: int,
    pub digits: int,
    pub frac: int,
    pub exp_negative: bool,
    pub exp: int,
    pub exp_digits: int,
}

pub open spec fn is_space_char(c: char) -> bool {
    c == ' ' || c == '\t' || c == '\n' || c == '\r'
}

/// Whether the whole input is insignificant whitespace.
pub open spec fn all_space(s: Seq<char>) -> bool
    decreases s.len(),
{
    if s.len() == 0 {
        true
    } else {
        all_space(s.drop_last()) && is_space_char(s.last())
    }
}

pub open spec fn is_digit_char(c: char) -> bool {
    48 <= c as u32 <= 57
}

pub open spec fn digit_value(c: char) -> int {
    c as u32 - 48
}

/// `10^n`.
pub open spec fn pow10(n: nat) -> int
    decreases n,
{
    if n == 0 {
        1
    } else {
        10 * pow10((n - 1) as nat)
    }
}

pub open spec fn scan_init() -> ScanState {
    ScanState {
        mode: ScanMode::Start,
        negative: false,
        mant: 0,
        digits: 0,
        frac: 0,
        exp_negative: false,
        exp: 0,
        exp_digits: 0,
    }
}

/// One scanner transition.  Mantissa digits beyond the 34th and exponent
/// digits beyond the 4th leave the grammar.
pub open spec fn scan_step(st: ScanState, c: char) -> ScanState {
    match st.mode {
        ScanMode::Start => {
            if c == '+' {
                ScanState { mode: ScanMode::AfterSign, ..st }
            } else if c == '-' {
                ScanState { mode: ScanMode::AfterSign, negative: true, ..st }
            } else if c == '.' {
                ScanState { mode: ScanMode::DotOnly, ..st }
            } else if is_digit_char(c) {
                ScanState { mode: ScanMode::IntDigits, mant: digit_value(c), digits: 1, ..st }
            } else {
                ScanState { mode: ScanMode::Bad, ..st }
            }
        },
        ScanMode::AfterSign => {
            if c == '.' {
                ScanState { mode: ScanMode::DotOnly, ..st }
            } else if is_digit_char(c) {
                ScanState { mode: ScanMode::IntDigits, mant: digit_value(c), digits: 1, ..st }
            } else {
                ScanState { mode: ScanMode::Bad, ..st }
            }
        },
        ScanMode::IntDigits => {
            if c == '.' {
                ScanState { mode: ScanMode::FracDigits, ..st }
            } else if c == 'e' || c == 'E' {
                ScanState { mode: ScanMode::ExpMark, ..st }
            } else if is_digit_char(c) {
                if st.digits == 34 {
                    ScanState { mode: ScanMode::Bad, ..st }
                } else {
                    ScanState {
                        mant: st.mant * 10 + digit_value(c),
                        digits: st.digits + 1,
                        ..st
                    }
                }
            } else {
                ScanState { mode: ScanMode::Bad, ..st }
            }
        },
        ScanMode::DotOnly => {
            if is_digit_char(c) {
                ScanState {
                    mode: ScanMode::FracDigits,
                    mant: digit_value(c),
                    digits: 1,
                    frac: 1,
                    ..st
                }
            } else {
                ScanState { mode: ScanMode::Bad, ..st }
            }
        },
        ScanMode::FracDigits => {
            if c == 'e' || c == 'E' {
                ScanState { mode: ScanMode::ExpMark, ..st }
            } else if is_digit_char(c) {
                if st.digits == 34 {
                    ScanState { mode: ScanMode::Bad, ..st }
                } else {
                    ScanState {
                        mant: st.mant * 10 + digit_value(c),
                        digits: st.digits + 1,
                        frac: st.frac + 1,
                        ..st
                    }
                }
            } else {
                ScanState { mode: ScanMode::Bad, ..st }
            }
        },
        ScanMode::ExpMark => {
            if c == '+' {
                ScanState { mode: ScanMode::ExpSign, ..st }
            } else if c == '-' {
                ScanState { mode: ScanMode::ExpSign, exp_negative: true, ..st }
            } else if is_digit_char(c) {
                ScanState { mode: ScanMode::ExpDigits, exp: digit_value(c), exp_digits: 1, ..st }
            } else {
                ScanState { mode: ScanMode::Bad, ..st }
            }
        },
        ScanMode::ExpSign => {
            if is_digit_char(c) {
                ScanState { mode: ScanMode::ExpDigits, exp: digit_value(c), exp_digits: 1, ..st }
            } else {
                ScanState { mode: ScanMode::Bad, ..st }
            }
        },
        ScanMode::ExpDigits => {
            if is_digit_char(c) {
                if st.exp_digits == 4 {
                    ScanState { mode: ScanMode::Bad, ..st }
                } else {
                    ScanState {
                        exp: st.exp * 10 + digit_value(c),
                        exp_digits: st.exp_digits + 1,
                        ..st
                    }
                }
            } else {
                ScanState { mode: ScanMode::Bad, ..st }
            }
        },
        ScanMode::Bad => st,
    }
}

/// The scanner's state after the whole input.
pub open spec fn scan(s: Seq<char>) -> ScanState
    decreases s.len(),
{
    if s.len() == 0 {
        scan_init()
    } else {
        scan_step(scan(s.drop_last()), s.last())
    }
}

/// The scanner accepts exactly when the input ends inside a digit run.
pub open spec fn scan_accepts(st: ScanState) -> bool {
    st.mode is IntDigits || st.mode is FracDigits || st.mode is ExpDigits
}

/// Signed number of quanta denoted by an accepted literal: the mantissa
/// shifted by the exponent, the fractional digits, and the quantum's six
/// decimal places, truncated toward zero.
pub open spec fn literal_units(st: ScanState) -> int {
    let e = (if st.exp_negative { -st.exp } else { st.exp }) - st.frac + 6;
    let m = if e >= 0 { st.mant * pow10(e as nat) } else { st.mant / pow10((-e) as nat) };
    if st.negative { -m } else { m }
}

/// What parsing returns, for every input and radix.
pub open spec fn parse_spec(s: Seq<char>, radix: u32) -> Result<Decimal, ParseDecimalError> {
    if all_space(s) {
        Err(ParseDecimalError { kind: DecimalErrorKind::Empty })
    } else if radix != 10 {
        Err(ParseDecimalError { kind: DecimalErrorKind::Invalid })
    } else if scan_accepts(scan(s)) {
        Ok(Decimal::saturate_spec(literal_units(scan(s))))
    } else {
        Err(ParseDecimalError { kind: DecimalErrorKind::Invalid })
    }
}

/// Ranges every reachable scanner state stays within, by grammar position:
/// before the first digit everything is still zero, inside the mantissa the
/// accumulator stays below `10^digits`, and likewise for the exponent.
pub open spec fn scan_inv(st: ScanState) -> bool {
    match st.mode {
        ScanMode::Start | ScanMode::AfterSign | ScanMode::DotOnly => {
            st.mant == 0 && st.digits == 0 && st.frac == 0 && st.exp == 0 && st.exp_digits == 0
        },
        ScanMode::IntDigits => {
            &&& 1 <= st.digits <= 34
            &&& st.frac == 0
            &&& 0 <= st.mant < pow10(st.digits as nat)
            &&& st.exp == 0
            &&& st.exp_digits == 0
        },
        ScanMode::FracDigits | ScanMode::ExpMark | ScanMode::ExpSign => {
            &&& 1 <= st.digits <= 34
            &&& 0 <= st.frac <= st.digits
            &&& 0 <= st.mant < pow10(st.digits as nat)
            &&& st.exp == 0
            &&& st.exp_digits == 0
        },
        ScanMode::ExpDigits => {
            &&& 1 <= st.digits <= 34
            &&& 0 <= st.frac <= st.digits
            &&& 0 <= st.mant < pow10(st.digits as nat)
            &&& 1 <= st.exp_digits <= 4
            &&& 0 <= st.exp < pow10(st.exp_digits as nat)
        },
        ScanMode::Bad => true,
    }
}

pub proof fn lemma_pow10_pos(n: nat)
    ensures
        pow10(n) >= 1,
    decreases n,
{
    if n > 0 {
        lemma_pow10_pos((n - 1) as nat);
    }
}

pub proof fn lemma_pow10_mono(a: nat, b: nat)
    requires
        a <= b,
    ensures
        pow10(a) <= pow10(b),
    decreases b,
{
    if a < b {
        lemma_pow10_mono(a, (b - 1) as nat);
        lemma_pow10_pos((b - 1) as nat);
    }
}

pub proof fn lemma_pow10_adds(a: nat, b: nat)
    ensures
        pow10(a + b) == pow10(a) * pow10(b),
    decreases a,
{
    if a > 0 {
        lemma_pow10_adds((a - 1) as nat, b);
        lemma_mul_is_associative(10, pow10((a - 1) as nat), pow10(b));
    }
}

/// Concrete powers the parser's bounds come down to.
pub proof fn lemma_pow10_literals()
    ensures
        pow10(3) == 1_000,
        pow10(4) == 10_000,
        pow10(6) == 1_000_000,
        pow10(26) == MAX_UNITS as int,
        pow10(27) == 10 * MAX_UNITS as int,
        pow10(33) == 1_000_000_000_000_000_000_000_000_000_000_000int,
        pow10(34) == 10_000_000_000_000_000_000_000_000_000_000_000int,
{
    reveal_with_fuel(pow10, 35);
}

/// Numeric value of a run of digits, highest digit first.
pub open spec fn digits_val(s: Seq<char>) -> int
    decreases s.len(),
{
    if s.len() == 0 {
        0
    } else {
        digits_val(s.drop_last()) * 10 + digit_value(s.last())
    }
}

pub open spec fn all_digits(s: Seq<char>) -> bool
    decreases s.len(),
{
    if s.len() == 0 {
        true
    } else {
        all_digits(s.drop_last()) && is_digit_char(s.last())
    }
}

proof fn lemma_digits_not_space(s: Seq<char>)
    requires
        s.len() >= 1,
        all_digits(s),
    ensures
        !all_space(s),
{
}

proof fn lemma_scan_digit_run(s: Seq<char>)
    requires
        1 <= s.len() <= 34,
        all_digits(s),
    ensures
        scan(s) == (ScanState {
            mode: ScanMode::IntDigits,
            negative: false,
            mant: digits_val(s),
            digits: s.len() as int,
            frac: 0,
            exp_negative: false,
            exp: 0,
            exp_digits: 0,
        }),
    decreases s.len(),
{
    if s.len() == 1 {
        assert(scan(s.drop_last()) == scan_init());
    } else {
        lemma_scan_digit_run(s.drop_last());
    }
    assert(scan(s) == scan_step(scan(s.drop_last()), s.last()));
}

/// The grammar read declaratively, in its simplest corner: a plain run of
/// up to 34 digits is accepted and denotes its whole-number value.
pub proof fn lemma_parse_digit_run(s: Seq<char>)
    requires
        1 <= s.len() <= 34,
        all_digits(s),
    ensures
        parse_spec(s, 10) == Ok::<Decimal, ParseDecimalError>(
            Decimal::saturate_spec(digits_val(s) * 1_000_000),
        ),
{
    lemma_digits_not_space(s);
    lemma_scan_digit_run(s);
    lemma_pow10_literals();
}

/// Every scanner state reached from the initial one keeps its counters and
/// accumulators within [`scan_inv`]'s ranges.
pub proof fn lemma_scan_inv(s: Seq<char>)
    ensures
        scan_inv(scan(s)),
    decreases s.len(),
{
    if s.len() > 0 {
        lemma_scan_inv(s.drop_last());
        let st = scan(s.drop_last());
        if 0 <= st.digits {
            assert(pow10((st.digits + 1) as nat) == 10 * pow10(st.digits as nat));
        }
        if 0 <= st.exp_digits {
            assert(pow10((st.exp_digits + 1) as nat) == 10 * pow10(st.exp_digits as nat));
        }
        assert(scan(s) == scan_step(st, s.last()));
    }
}

/// `10^e` in machine arithmetic.
fn pow10_units(e: u32) -> (r: i128)
    requires
        e <= 34,
    ensures
        r as int == pow10(e as nat),
        r >= 1,
{
    let mut r: i128 = 1;
    let mut i: u32 = 0;
    while i < e
        invariant
            i <= e <= 34,
            r as int == pow10(i as nat),
        decreases e - i,
    {
        proof {
            lemma_pow10_pos(i as nat);
            lemma_pow10_mono(i as nat, 33);
            lemma_pow10_literals();
            assert(pow10((i + 1) as nat) == 10 * pow10(i as nat));
        }
        r = r * 10;
        i = i + 1;
    }
    proof {
        lemma_pow10_pos(e as nat);
    }
    r
}

impl Decimal {
    /// Parses a decimal literal, yielding exactly what [`parse_spec`] says:
    /// `Empty` for an input without content, `Invalid` for any radix other
    /// than ten or any input outside the literal grammar, and otherwise the
    /// denoted value truncated to the quantum and saturated to the
    /// representable range.
    pub fn from_str_radix(src: &str, radix: u32) -> (r: Result<Decimal, ParseDecimalError>)
        ensures
            r == parse_spec(src@, radix),
            r is Ok ==> r->Ok_0.wf(),
    {
        let n: usize = src.unicode_len();

        let mut only_space: bool = true;
        let mut i: usize = 0;
        while i < n
            invariant
                n as int == src@.len(),
                i <= n,
                only_space == all_space(src@.take(i as int)),
            decreases n - i,
        {
            let c: char = src.get_char(i);
            proof {
                assert(src@.take(i as int + 1).drop_last() =~= src@.take(i as int));
            }
            let sp: bool = c == ' ' || c == '\t' || c == '\n' || c == '\r';
            only_space = only_space && sp;
            i = i + 1;
        }
        proof {
            assert(src@.take(n as int) =~= src@);
        }
        if only_space {
            return Err(ParseDecimalError { kind: DecimalErrorKind::Empty });
        }
        if radix != 10 {
            return Err(ParseDecimalError { kind: DecimalErrorKind::Invalid });
        }

        let mut mode: ScanMode = ScanMode::Start;
        let mut negative: bool = false;
        let mut mant: i128 = 0;
        let mut digits: u32 = 0;
        let mut frac: u32 = 0;
        let mut exp_negative: bool = false;
        let mut exp: i128 = 0;
        let mut exp_digits: u32 = 0;
        let mut i: usize = 0;
        while i < n
            invariant
                n as int == src@.len(),
                i <= n,
                scan(src@.take(i as int)) == (ScanState {
                    mode,
                    negative,
                    mant: mant as int,
                    digits: digits as int,
                    frac: frac as int,
                    exp_negative,
                    exp: exp as int,
                    exp_digits: exp_digits as int,
                }),
            decreases n - i,
        {
            let c: char = src.get_char(i);
            proof {
                assert(src@.take(i as int + 1).drop_last() =~= src@.take(i as int));
                lemma_scan_inv(src@.take(i as int));
                lemma_pow10_literals();
                if digits as int <= 33 {
                    lemma_pow10_mono(digits as nat, 33);
                }
                if exp_digits as int <= 3 {
                    lemma_pow10_mono(exp_digits as nat, 3);
                }
            }
            let v: u32 = c as u32;
            let dig: bool = 48 <= v && v <= 57;
            match mode {
                ScanMode::Start => {
                    if c == '+' {
                        mode = ScanMode::AfterSign;
                    } else if c == '-' {
                        mode = ScanMode::AfterSign;
                        negative = true;
                    } else if c == '.' {
                        mode = ScanMode::DotOnly;
                    } else if dig {
                        mode = ScanMode::IntDigits;
                        mant = (v - 48) as i128;
                        digits = 1;
                    } else {
                        mode = ScanMode::Bad;
                    }
                },
                ScanMode::AfterSign => {
                    if c == '.' {
                        mode = ScanMode::DotOnly;
                    } else if dig {
                        mode = ScanMode::IntDigits;
                        mant = (v - 48) as i128;
                        digits = 1;
                    } else {
                        mode = ScanMode::Bad;
                    }
                },
                ScanMode::IntDigits => {
                    if c == '.' {
                        mode = ScanMode::FracDigits;
                    } else if c == 'e' || c == 'E' {
                        mode = ScanMode::ExpMark;
                    } else if dig {
                        if digits == 34 {
                            mode = ScanMode::Bad;
                        } else {
                            mant = mant * 10 + ((v - 48) as i128);
                            digits = digits + 1;
                        }
                    } else {
                        mode = ScanMode::Bad;
                    }
                },
                ScanMode::DotOnly => {
                    if dig {
                        mode = ScanMode::FracDigits;
                        mant = (v - 48) as i128;
                        digits = 1;
                        frac = 1;
                    } else {
                        mode = ScanMode::Bad;
                    }
                },
                ScanMode::FracDigits => {
                    if c == 'e' || c == 'E' {
                        mode = ScanMode::ExpMark;
                    } else if dig {
                        if digits == 34 {
                            mode = ScanMode::Bad;
                        } else {
                            mant = mant * 10 + ((v - 48) as i128);
                            digits = digits + 1;
                            frac = frac + 1;
                        }
                    } else {
                        mode = ScanMode::Bad;
                    }
                },
                ScanMode::ExpMark => {
                    if c == '+' {
                        mode = ScanMode::ExpSign;
                    } else if c == '-' {
                        mode = ScanMode::ExpSign;
                        exp_negative = true;
                    } else if dig {
                        mode = ScanMode::ExpDigits;
                        exp = (v - 48) as i128;
                        exp_digits = 1;
                    } else {
                        mode = ScanMode::Bad;
                    }
                },
                ScanMode::ExpSign => {
                    if dig {
                        mode = ScanMode::ExpDigits;
                        exp = (v - 48) as i128;
                        exp_digits = 1;
                    } else {
                        mode = ScanMode::Bad;
                    }
                },
                ScanMode::ExpDigits => {
                    if dig {
                        if exp_digits == 4 {
                            mode = ScanMode::Bad;
                        } else {
                            exp = exp * 10 + ((v - 48) as i128);
                            exp_digits = exp_digits + 1;
                        }
                    } else {
                        mode = ScanMode::Bad;
                    }
                },
                ScanMode::Bad => {},
            }
            i = i + 1;
        }
        proof {
            assert(src@.take(n as int) =~= src@);
            lemma_scan_inv(src@);
            lemma_pow10_literals();
        }

        let accept: bool = match mode {
            ScanMode::IntDigits => true,
            ScanMode::FracDigits => true,
            ScanMode::ExpDigits => true,
            _ => false,
        };
        if !accept {
            return Err(ParseDecimalError { kind: DecimalErrorKind::Invalid });
        }

        proof {
            lemma_pow10_mono(digits as nat, 34);
            lemma_pow10_mono(exp_digits as nat, 4);
        }
        let e_val: i128 = if exp_negative { -exp } else { exp };
        let e: i128 = e_val - (frac as i128) + 6;
        let out: Decimal = if mant == 0 {
            proof {
                if e < 0 {
                    lemma_pow10_pos((-(e as int)) as nat);
                    lemma_basic_div(0, pow10((-(e as int)) as nat));
                }
            }
            Decimal::Finite(0)
        } else if e >= 27 {
            proof {
                lemma_pow10_mono(27, e as nat);
                lemma_pow10_pos(e as nat);
                lemma_mul_inequality(1, mant as int, pow10(e as nat));
            }
            if negative {
                Decimal::NegInfinity
            } else {
                Decimal::PosInfinity
            }
        } else if e >= 0 {
            let p10: i128 = pow10_units(e as u32);
            let limit: i128 = pow10_units((26 - e) as u32);
            proof {
                lemma_pow10_adds((26 - e as int) as nat, e as nat);
            }
            if mant > limit {
                proof {
                    lemma_mul_inequality(limit as int + 1, mant as int, pow10(e as nat));
                    lemma_mul_is_distributive_add_other_way(
                        pow10(e as nat),
                        limit as int,
                        1,
                    );
                }
                if negative {
                    Decimal::NegInfinity
                } else {
                    Decimal::PosInfinity
                }
            } else {
                proof {
                    lemma_mul_inequality(mant as int, limit as int, pow10(e as nat));
                    lemma_mul_nonnegative(mant as int, pow10(e as nat));
                }
                let units: i128 = mant * p10;
                if negative {
                    Decimal::Finite(-units)
                } else {
                    Decimal::Finite(units)
                }
            }
        } else {
            let k: i128 = -e;
            if k >= 34 {
                proof {
                    lemma_pow10_mono(34, k as nat);
                    lemma_basic_div(mant as int, pow10(k as nat));
                }
                Decimal::Finite(0)
            } else {
                let p10: i128 = pow10_units(k as u32);
                let m: i128 = mant / p10;
                proof {
                    lemma_div_pos_is_pos(mant as int, pow10(k as nat));
                    lemma_div_is_ordered(mant as int, pow10(34), pow10(k as nat));
                }
                if m > MAX_UNITS {
                    if negative {
                        Decimal::NegInfinity
                    } else {
                        Decimal::PosInfinity
                    }
                } else {
                    if negative {
                        Decimal::Finite(-m)
                    } else {
                        Decimal::Finite(m)
                    }
                }
            }
        };
        Ok(out)
    }
}

} // verus!
