//! An integer value carried together with the inclusive bounds it was
//! checked against at construction.

use vstd::prelude::*;
use crate::text::{dec_int, i64_to_string};

verus! {

/// Relies on `directories::ProjectDirs::from` with the qualifier `dev`,
/// organization `tdonovan` and application `MuDiBot`: it consults the
/// environment for the OS-conventional directories, so nothing more is
/// promised than that, when one is found, this returns its configuration
/// directory as a path string.
#[verifier::external_body]
pub fn get_project_dir() -> Option<String> {
    directories::ProjectDirs::from("dev", "tdonovan", "MuDiBot")
        .map(|p| p.config_dir().to_string_lossy().into_owned())
}

#[derive(Debug, PartialEq)]
pub enum StartupError {
    MissingToken,
}

/// Picks the token the bot starts with: the environment's, else the
/// configured one, else a startup error.
pub fn choose_token(env: Option<String>, cfg: Option<String>) -> (r: Result<String, StartupError>)
    ensures
        env matches Some(t) ==> r == Ok::<String, StartupError>(t),
        env is None ==> (match cfg {
            Some(t) => r == Ok::<String, StartupError>(t),
            None => r == Err::<String, StartupError>(StartupError::MissingToken),
        }),
{
    match env {
        Some(t) => Ok(t),
        None => match cfg {
            Some(t) => Ok(t),
            None => Err(StartupError::MissingToken),
        },
    }
}

#[derive(Debug, PartialEq)]
pub enum BoundedIntegerError {
    InvalidBound,
    TooSmall(String),
    TooBig(String),
}

#[derive(Debug, Copy, Clone, PartialEq)]
pub struct BoundedInteger {
    value: i64,
    lower_bound: i64,
    upper_bound: i64,
}

impl BoundedInteger {
    /// The value held.
    pub closed spec fn spec_value(&self) -> int {
        self.value as int
    }

    /// The inclusive lower bound the value was checked against.
    pub closed spec fn spec_lower(&self) -> int {
        self.lower_bound as int
    }

    /// The inclusive upper bound the value was checked against.
    pub closed spec fn spec_upper(&self) -> int {
        self.upper_bound as int
    }

    /// Accepts `value` exactly when `lower <= value <= upper`; a bound pair with
    /// `lower > upper` is itself rejected. The value and both bounds are kept
    /// unchanged in the result, and the out-of-range errors carry the decimal
    /// rendering of the offending value.
    pub fn new(value: i64, lower: i64, upper: i64) -> (r: Result<Self, BoundedIntegerError>)
        ensures
            match r {
                Ok(b) => lower <= upper && lower <= value <= upper && b.spec_value() == value
                    && b.spec_lower() == lower && b.spec_upper() == upper,
                Err(BoundedIntegerError::InvalidBound) => lower > upper,
                Err(BoundedIntegerError::TooSmall(s)) => lower <= upper && value < lower && s@
                    == dec_int(value as int),
                Err(BoundedIntegerError::TooBig(s)) => lower <= upper && value > upper && s@
                    == dec_int(value as int),
            },
    {
        if lower <= upper {
            if value >= lower {
                if value <= upper {
                    Ok(Self { value, lower_bound: lower, upper_bound: upper })
                } else {
                    Err(BoundedIntegerError::TooBig(i64_to_string(value)))
                }
            } else {
                Err(BoundedIntegerError::TooSmall(i64_to_string(value)))
            }
        } else {
            Err(BoundedIntegerError::InvalidBound)
        }
    }

    pub fn value(&self) -> (r: i64)
        ensures
            r as int == self.spec_value(),
    {
        self.value
    }
}

} // verus!
