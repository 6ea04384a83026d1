//! The reasons for which a mode string is refused.
use vstd::prelude::*;
use vstd::std_specs::convert::FromSpecImpl;

verus! {

/// `std::num::ParseIntError`, the error of std's integer parsing. Nothing is
/// known of its contents here; it is carried inside [`Error::ParseIntError`].
#[verifier::external_type_specification]
#[verifier::external_body]
pub struct ExParseIntError(std::num::ParseIntError);

/// Why a mode string could not be read.
#[derive(Debug, PartialEq)]
pub enum Error {
    /// The text is neither an octal mode nor a symbolic mode.
    InvalidModeString,
    /// A decimal digit above 7 stood where an octal digit was expected.
    DigitTooLarge(usize),
    /// A character that is no decimal digit stood where a digit was expected.
    ParseIntError(std::num::ParseIntError),
}

impl From<std::num::ParseIntError> for Error {
    fn from(error: std::num::ParseIntError) -> (e: Error) {
        Error::ParseIntError(error)
    }
}

impl FromSpecImpl<std::num::ParseIntError> for Error {
    open spec fn obeys_from_spec() -> bool {
        true
    }

    open spec fn from_spec(error: std::num::ParseIntError) -> Error {
        Error::ParseIntError(error)
    }
}

} // verus!
