//! Telling the two spellings of a mode apart.
use vstd::prelude::*;
use crate::error::Error;
use crate::text::chars_of;

verus! {

/// Which spelling a mode string uses.
#[derive(Debug, PartialEq, Eq, Clone, Copy)]
pub enum ModeType {
    /// Nine characters such as `rwxr-xr-x`.
    FileMode,
    /// Octal digits such as `0755`.
    OctalNumeric,
}

/// The digits `0` to `7`.
pub open spec fn is_octal_char(c: char) -> bool {
    '0' <= c <= '7'
}

/// The characters that a symbolic mode is written with.
pub open spec fn is_mode_char(c: char) -> bool {
    c == '-' || c == 'r' || c == 'w' || c == 'x' || c == 's' || c == 'S' || c == 't' || c == 'T'
}

/// Whether `c` may stand at position `i` of a symbolic mode: the third slot of
/// the user and group triplets takes `-xsS`, the third slot of the other
/// triplet takes `-xtT`, every other slot takes `-rw`.
pub open spec fn slot_allows(i: int, c: char) -> bool {
    if i == 2 || i == 5 {
        c == '-' || c == 'x' || c == 's' || c == 'S'
    } else if i == 8 {
        c == '-' || c == 'x' || c == 't' || c == 'T'
    } else {
        c == '-' || c == 'r' || c == 'w'
    }
}

/// The lengths that a mode string can have.
pub open spec fn has_mode_length(s: Seq<char>) -> bool {
    s.len() == 3 || s.len() == 4 || s.len() == 9
}

/// Every character of `s` is an octal digit.
pub open spec fn is_octal_text(s: Seq<char>) -> bool {
    forall|i: int| 0 <= i < s.len() ==> is_octal_char(#[trigger] s[i])
}

/// Every character of `s` is one that a symbolic mode is written with.
pub open spec fn is_mode_text(s: Seq<char>) -> bool {
    forall|i: int| 0 <= i < s.len() ==> is_mode_char(#[trigger] s[i])
}

/// `s` is a symbolic mode: nine characters, each allowed in its slot.
pub open spec fn is_symbolic_text(s: Seq<char>) -> bool {
    &&& s.len() == 9
    &&& forall|i: int| 0 <= i < 9 ==> slot_allows(i, #[trigger] s[i])
}

/// The spelling of `s`, or the reason for which it is none: a string of
/// length 3, 4 or 9 is octal when all its characters are octal digits, and
/// else symbolic when it is a symbolic mode.
pub open spec fn classify_spec(s: Seq<char>) -> Result<ModeType, Error> {
    if !has_mode_length(s) {
        Err(Error::InvalidModeString)
    } else if is_octal_text(s) {
        Ok(ModeType::OctalNumeric)
    } else if is_symbolic_text(s) {
        Ok(ModeType::FileMode)
    } else {
        Err(Error::InvalidModeString)
    }
}

fn is_octal_digit(c: char) -> (r: bool)
    ensures
        r == is_octal_char(c),
{
    '0' <= c && c <= '7'
}

fn is_mode_symbol(c: char) -> (r: bool)
    ensures
        r == is_mode_char(c),
{
    c == '-' || c == 'r' || c == 'w' || c == 'x' || c == 's' || c == 'S' || c == 't' || c == 'T'
}

fn slot_accepts(i: usize, c: char) -> (r: bool)
    ensures
        r == slot_allows(i as int, c),
{
    if i == 2 || i == 5 {
        c == '-' || c == 'x' || c == 's' || c == 'S'
    } else if i == 8 {
        c == '-' || c == 'x' || c == 't' || c == 'T'
    } else {
        c == '-' || c == 'r' || c == 'w'
    }
}

fn all_octal(s: &[char]) -> (r: bool)
    ensures
        r == is_octal_text(s@),
{
    let n: usize = s.len();
    let mut i: usize = 0;
    while i < n
        invariant
            i <= n,
            n == s@.len(),
            forall|j: int| 0 <= j < i ==> is_octal_char(#[trigger] s@[j]),
        decreases n - i,
    {
        if !is_octal_digit(s[i]) {
            return false;
        }
        i += 1;
    }
    true
}

fn all_mode_symbols(s: &[char]) -> (r: bool)
    ensures
        r == is_mode_text(s@),
{
    let n: usize = s.len();
    let mut i: usize = 0;
    while i < n
        invariant
            i <= n,
            n == s@.len(),
            forall|j: int| 0 <= j < i ==> is_mode_char(#[trigger] s@[j]),
        decreases n - i,
    {
        if !is_mode_symbol(s[i]) {
            return false;
        }
        i += 1;
    }
    true
}

/// Classifies text that has no white space around it.
pub fn classify_chars(s: &[char]) -> (r: Result<ModeType, Error>)
    ensures
        r == classify_spec(s@),
{
    let n: usize = s.len();
    if n != 3 && n != 4 && n != 9 {
        return Err(Error::InvalidModeString);
    }
    if all_octal(s) {
        return Ok(ModeType::OctalNumeric);
    }
    if n == 9 && all_mode_symbols(s) {
        let mut i: usize = 0;
        while i < 9
            invariant
                i <= 9,
                s@.len() == 9,
                !is_octal_text(s@),
                forall|j: int| 0 <= j < i ==> slot_allows(j, #[trigger] s@[j]),
            decreases 9 - i,
        {
            if !slot_accepts(i, s[i]) {
                assert(!slot_allows(i as int, s@[i as int]));
                return Err(Error::InvalidModeString);
            }
            i += 1;
        }
        return Ok(ModeType::FileMode);
    }
    proof {
        if is_symbolic_text(s@) {
            assert forall|j: int| 0 <= j < s@.len() implies is_mode_char(#[trigger] s@[j]) by {
                assert(slot_allows(j, s@[j]));
            }
        }
    }
    Err(Error::InvalidModeString)
}

/// Classifies a mode string. White space is not taken away first: text with
/// white space around it is refused.
pub fn classify(input: &str) -> (r: Result<ModeType, Error>)
    ensures
        r == classify_spec(input@),
{
    let chars = chars_of(input);
    classify_chars(chars.as_slice())
}

impl std::str::FromStr for ModeType {
    type Err = Error;

    fn from_str(input: &str) -> (r: Result<ModeType, Error>)
        ensures
            r == classify_spec(input@),
    {
        classify(input)
    }
}

} // verus!
