//! Integers above zero, and reading one from text.

use crate::text::{parse_i64, signed_decimal, within};
use vstd::prelude::*;

verus! {

/// An integer above zero.
#[derive(PartialEq, Debug)]
pub struct PositiveNonzeroInteger(pub u64);

/// Why a number is no integer above zero.
#[derive(PartialEq, Debug)]
pub enum CreationError {
    Negative,
    Zero,
}

/// Why a text gives no integer above zero: its number is none, or it is no
/// number at all.
#[derive(PartialEq, Debug)]
pub enum ParsePosNonzeroError {
    Creation(CreationError),
    ParseInt(std::num::ParseIntError),
}

impl ParsePosNonzeroError {
    /// The error for a number that is no integer above zero.
    pub fn from_creation(err: CreationError) -> (error: ParsePosNonzeroError)
        ensures
            error == ParsePosNonzeroError::Creation(err),
    {
        ParsePosNonzeroError::Creation(err)
    }

    /// The error for a text that is no number.
    pub fn from_parseint(err: std::num::ParseIntError) -> (error: ParsePosNonzeroError)
        ensures
            error == ParsePosNonzeroError::ParseInt(err),
    {
        ParsePosNonzeroError::ParseInt(err)
    }
}

impl PositiveNonzeroInteger {
    /// `value` as an integer above zero, or why it is none.
    pub fn new(value: i64) -> (made: Result<PositiveNonzeroInteger, CreationError>)
        ensures
            value < 0 ==> made == Err::<PositiveNonzeroInteger, CreationError>(
                CreationError::Negative,
            ),
            value == 0 ==> made == Err::<PositiveNonzeroInteger, CreationError>(
                CreationError::Zero,
            ),
            value > 0 ==> made == Ok::<PositiveNonzeroInteger, CreationError>(
                PositiveNonzeroInteger(value as u64),
            ),
    {
        if value < 0 {
            Err(CreationError::Negative)
        } else if value == 0 {
            Err(CreationError::Zero)
        } else {
            Ok(PositiveNonzeroInteger(value as u64))
        }
    }
}

/// What reading an integer above zero from the text `s` gives, where `s` is
/// a number that fits the machine.
pub open spec fn read(s: Seq<char>) -> Result<PositiveNonzeroInteger, CreationError> {
    let number = signed_decimal(s)->0;
    if number < 0 {
        Err(CreationError::Negative)
    } else if number == 0 {
        Err(CreationError::Zero)
    } else {
        Ok(PositiveNonzeroInteger(number as u64))
    }
}

/// Reads an integer above zero from `s`: an optional sign and decimal
/// digits, and nothing else.
pub fn parse_pos_nonzero(s: &str) -> (parsed: Result<PositiveNonzeroInteger, ParsePosNonzeroError>)
    ensures
        within(signed_decimal(s@), i64::MIN as int, i64::MAX as int) ==> match read(s@) {
            Ok(number) => parsed == Ok::<PositiveNonzeroInteger, ParsePosNonzeroError>(number),
            Err(error) => parsed == Err::<PositiveNonzeroInteger, ParsePosNonzeroError>(
                ParsePosNonzeroError::Creation(error),
            ),
        },
        !within(signed_decimal(s@), i64::MIN as int, i64::MAX as int) ==> parsed matches Err(
            ParsePosNonzeroError::ParseInt(_),
        ),
{
    let x: i64 = match parse_i64(s) {
        Ok(number) => number,
        Err(error) => {
            return Err(ParsePosNonzeroError::from_parseint(error));
        },
    };
    match PositiveNonzeroInteger::new(x) {
        Ok(number) => Ok(number),
        Err(error) => Err(ParsePosNonzeroError::from_creation(error)),
    }
}

} // verus!
