//! Decimal numbers from text.
//!
//! The reading of a decimal literal is left to `fpdec`; what the literal
//! is worth in units of `10^-8` is decided here.

use core::str::FromStr;
use vstd::prelude::*;
use crate::decimal::{Decimal, in_range, pow10};

verus! {

/// Why `fpdec` refuses a text as a decimal literal.
#[derive(Clone, Copy, Debug, PartialEq, Eq, Structural, Hash)]
pub enum LiteralError {
    /// The text is empty.
    Empty,
    /// The text has not the form of a decimal literal.
    Invalid,
    /// The literal has more fractional digits than `fpdec` keeps.
    FracDigitLimitExceeded,
    /// The literal is too large for `fpdec`.
    InternalOverflow,
}

/// What `fpdec::Decimal::from_str` makes of a text: the coefficient and
/// the number of fractional digits of the decimal that it reads, or the
/// reason for which it refuses the text.
pub uninterp spec fn literal_reading(text: Seq<char>) -> Result<(int, int), LiteralError>;

/// Why a text did not yield a decimal number.
#[derive(Clone, Copy, Debug, PartialEq, Eq, Structural, Hash)]
pub enum ParseError {
    /// The text is empty.
    Empty,
    /// The text has not the form of a decimal literal.
    Invalid,
    /// The literal has more than eight fractional digits or is too large.
    NotRepresentable,
}

/// Raw value of the number `coeff * 10^-n_frac_digits`, if it has at most
/// eight fractional digits and is representable.
pub open spec fn parts_value(coeff: int, n_frac_digits: int) -> Option<int> {
    if n_frac_digits <= 8 && in_range(coeff * pow10(8 - n_frac_digits)) {
        Some(coeff * pow10(8 - n_frac_digits))
    } else {
        None
    }
}

/// What a text is worth: the value of what `fpdec` reads from it. A
/// literal that is too long or too large for `fpdec` is not representable
/// here either.
pub open spec fn literal_value(text: Seq<char>) -> Result<int, ParseError> {
    match literal_reading(text) {
        Err(LiteralError::Empty) => Err(ParseError::Empty),
        Err(LiteralError::Invalid) => Err(ParseError::Invalid),
        Err(LiteralError::FracDigitLimitExceeded) => Err(ParseError::NotRepresentable),
        Err(LiteralError::InternalOverflow) => Err(ParseError::NotRepresentable),
        Ok((coeff, n_frac_digits)) => match parts_value(coeff, n_frac_digits) {
            None => Err(ParseError::NotRepresentable),
            Some(raw) => Ok(raw),
        },
    }
}

/// A reading with its numbers as mathematical integers.
pub open spec fn reading_of(r: Result<(i128, u8), LiteralError>) -> Result<
    (int, int),
    LiteralError,
> {
    match r {
        Ok((coeff, n_frac_digits)) => Ok((coeff as int, n_frac_digits as int)),
        Err(e) => Err(e),
    }
}

/// Calls `fpdec::Decimal::from_str` on the text and takes the decimal or
/// the error that comes back apart. The contract claims that the outcome
/// is a function of the text, and that the empty text, and no other, is
/// refused as empty.
#[verifier::external_body]
fn read_literal(text: &str) -> (r: Result<(i128, u8), LiteralError>)
    ensures
        reading_of(r) == literal_reading(text@),
        (r.is_err() && r.unwrap_err() == LiteralError::Empty) <==> text@.len() == 0,
{
    match fpdec::Decimal::from_str(text) {
        Ok(d) => Ok((d.coefficient(), d.n_frac_digits())),
        Err(fpdec::ParseDecimalError::Empty) => Err(LiteralError::Empty),
        Err(fpdec::ParseDecimalError::Invalid) => Err(LiteralError::Invalid),
        Err(fpdec::ParseDecimalError::FracDigitLimitExceeded) => Err(
            LiteralError::FracDigitLimitExceeded,
        ),
        Err(fpdec::ParseDecimalError::InternalOverflow) => Err(LiteralError::InternalOverflow),
    }
}

impl Decimal {
    /// The number `coeff * 10^-n_frac_digits`, or `None` if it has more
    /// than eight fractional digits or is too large.
    pub fn from_parts(coeff: i128, n_frac_digits: u8) -> (r: Option<Decimal>)
        ensures
            match parts_value(coeff as int, n_frac_digits as int) {
                Some(raw) => r.is_some() && r.unwrap()@ == raw,
                None => r.is_none(),
            },
    {
        if n_frac_digits > 8 {
            return None;
        }
        if coeff < -0x7fff_ffff_ffff_ffff || coeff > 0x7fff_ffff_ffff_ffff {
            proof {
                let p = pow10(8 - n_frac_digits);
                assert(p >= 1);
                if coeff > 0 {
                    assert(coeff * p >= coeff) by (nonlinear_arith)
                        requires
                            coeff > 0,
                            p >= 1,
                    ;
                } else {
                    assert(coeff * p <= coeff) by (nonlinear_arith)
                        requires
                            coeff < 0,
                            p >= 1,
                    ;
                }
            }
            return None;
        }
        Decimal::new(coeff as i64, n_frac_digits)
    }

    /// The number that the decimal literal `text` denotes. The literal has
    /// the form that `fpdec` reads: an optional sign, digits with an
    /// optional point, and an optional exponent. The empty text is refused
    /// as empty.
    pub fn parse(text: &str) -> (r: Result<Decimal, ParseError>)
        ensures
            match literal_value(text@) {
                Ok(raw) => r.is_ok() && r.unwrap()@ == raw,
                Err(e) => r == Err::<Decimal, ParseError>(e),
            },
            text@.len() == 0 ==> r == Err::<Decimal, ParseError>(ParseError::Empty),
    {
        match read_literal(text) {
            Err(LiteralError::Empty) => Err(ParseError::Empty),
            Err(LiteralError::Invalid) => Err(ParseError::Invalid),
            Err(LiteralError::FracDigitLimitExceeded) => Err(ParseError::NotRepresentable),
            Err(LiteralError::InternalOverflow) => Err(ParseError::NotRepresentable),
            Ok((coeff, n_frac_digits)) => match Decimal::from_parts(coeff, n_frac_digits) {
                Some(d) => Ok(d),
                None => Err(ParseError::NotRepresentable),
            },
        }
    }
}

} // verus!
