//! The permission bits of a file, read from text and written as text.
use vstd::prelude::*;
use crate::error::Error;
use crate::mode_type::{
    classify_chars, classify_spec, is_octal_char, is_octal_text, is_symbolic_text, slot_allows,
    ModeType,
};
use crate::text::{chars_of, octal_digits, octal_string_padded, trim, trimmed, zero_padded};

verus! {

/// Selects one triplet once it is shifted down to the lowest bits.
pub const BITS_MASK: usize = 0o7;

/// The sticky bit.
pub const S_ISVTX: usize = 0o1000;

/// The set-group-id bit.
pub const S_ISGID: usize = 0o2000;

/// The set-user-id bit.
pub const S_ISUID: usize = 0o4000;

/// The execute bit of the user.
pub const S_IXUSR: usize = 0o100;

/// The execute bit of the group.
pub const S_IXGRP: usize = 0o010;

/// The execute bit of the others.
pub const S_IXOTH: usize = 0o001;

/// Where the triplet of the others starts.
pub const SHIFT_OTH: usize = 0;

/// Where the triplet of the group starts.
pub const SHIFT_GRP: usize = 3;

/// Where the triplet of the user starts.
pub const SHIFT_USR: usize = 6;

/// The permission bits of a file: bits 0 to 2 are execute, write and read of
/// the others, bits 3 to 5 those of the group, bits 6 to 8 those of the user,
/// bit 9 is the sticky bit, bit 10 set-group-id and bit 11 set-user-id.
#[derive(Debug, Clone, Copy, PartialEq, Eq)]
pub struct Mode(usize);

impl View for Mode {
    type V = usize;

    closed spec fn view(&self) -> usize {
        self.0
    }
}

/// Two modes with the same bits are equal.
pub proof fn lemma_view_is_injective(a: Mode, b: Mode)
    requires
        a@ == b@,
    ensures
        a == b,
{
}

/// The three characters of a triplet whose bits are `index`.
pub open spec fn triplet(index: usize) -> Seq<char> {
    if index == 0 {
        seq!['-', '-', '-']
    } else if index == 1 {
        seq!['-', '-', 'x']
    } else if index == 2 {
        seq!['-', 'w', '-']
    } else if index == 3 {
        seq!['-', 'w', 'x']
    } else if index == 4 {
        seq!['r', '-', '-']
    } else if index == 5 {
        seq!['r', '-', 'x']
    } else if index == 6 {
        seq!['r', 'w', '-']
    } else {
        seq!['r', 'w', 'x']
    }
}

/// The triplet of the three bits of `v` that start at bit `shift`.
pub open spec fn permission_spec(v: usize, shift: usize) -> Seq<char> {
    triplet((v >> shift) & BITS_MASK)
}

/// `base` with its third character replaced where `special` is set: by
/// `lower` where the execute bit is set too, by `upper` where it is not.
pub open spec fn overlaid(base: Seq<char>, special: bool, exec: bool, lower: char, upper: char)
    -> Seq<char> {
    if special {
        base.update(2, if exec { lower } else { upper })
    } else {
        base
    }
}

/// The triplet of the user, with `s` or `S` for set-user-id.
pub open spec fn user_spec(v: usize) -> Seq<char> {
    overlaid(permission_spec(v, SHIFT_USR), v & S_ISUID != 0, v & S_IXUSR != 0, 's', 'S')
}

/// The triplet of the group, with `s` or `S` for set-group-id.
pub open spec fn group_spec(v: usize) -> Seq<char> {
    overlaid(permission_spec(v, SHIFT_GRP), v & S_ISGID != 0, v & S_IXGRP != 0, 's', 'S')
}

/// The triplet of the others, with `t` or `T` for the sticky bit.
pub open spec fn other_spec(v: usize) -> Seq<char> {
    overlaid(permission_spec(v, SHIFT_OTH), v & S_ISVTX != 0, v & S_IXOTH != 0, 't', 'T')
}

/// The nine characters of the symbolic spelling of `v`.
pub open spec fn symbolic_spec(v: usize) -> Seq<char> {
    user_spec(v) + group_spec(v) + other_spec(v)
}

/// The text that a mode is shown as: its value in base 8 with at least three
/// digits, a colon and a space, and its symbolic spelling.
pub open spec fn display_spec(v: usize) -> Seq<char> {
    zero_padded(octal_digits(v as nat), 3) + seq![':', ' '] + symbolic_spec(v)
}

/// The number that the decimal digit `c` stands for.
pub open spec fn digit_value(c: char) -> int {
    c as int - '0' as int
}

/// The number that the digits `s` write in base 8.
pub open spec fn octal_value(s: Seq<char>) -> int
    decreases s.len(),
{
    if s.len() == 0 {
        0
    } else {
        8 * octal_value(s.drop_last()) + digit_value(s.last())
    }
}

/// The special bit that is written in slot `i` of a symbolic mode:
/// set-user-id in the last slot of the user, set-group-id in the last slot of
/// the group, the sticky bit in the last slot of the others, and none in the
/// other slots.
pub open spec fn special_mask(i: int) -> usize {
    if i == 2 {
        S_ISUID
    } else if i == 5 {
        S_ISGID
    } else if i == 8 {
        S_ISVTX
    } else {
        0
    }
}

/// The bits that the character `c` in slot `i` of a symbolic mode sets:
/// slot `i` stands for bit `8 - i`, which `r`, `w`, `x`, `s` and `t` set;
/// `s`, `S`, `t` and `T` set the special bit of the slot.
pub open spec fn slot_value(i: int, c: char) -> usize {
    let own = 1usize << ((8 - i) as usize);
    if c == 'r' || c == 'w' || c == 'x' {
        own
    } else if c == 's' || c == 't' {
        special_mask(i) | own
    } else if c == 'S' || c == 'T' {
        special_mask(i)
    } else {
        0
    }
}

/// The bits that the first `n` characters of a symbolic mode set.
pub open spec fn symbolic_bits(s: Seq<char>, n: int) -> usize
    decreases n,
{
    if n <= 0 {
        0
    } else {
        symbolic_bits(s, n - 1) | slot_value(n - 1, s[n - 1])
    }
}

/// The bits that the symbolic mode `s` sets.
pub open spec fn symbolic_value(s: Seq<char>) -> usize {
    symbolic_bits(s, 9)
}

/// What a mode string is read as: white space around it is taken away, and
/// what is left is read as octal digits or as a symbolic mode, whichever it
/// is; text that is neither is refused.
pub open spec fn parse_spec(input: Seq<char>) -> Result<int, Error> {
    let s = trimmed(input);
    match classify_spec(s) {
        Ok(ModeType::OctalNumeric) => Ok(octal_value(s)),
        Ok(ModeType::FileMode) => Ok(symbolic_value(s) as int),
        Err(e) => Err(e),
    }
}

/// The text of the triplet with the bits `index`.
fn triplet_str(index: usize) -> (s: &'static str)
    requires
        index < 8,
    ensures
        s@ == triplet(index),
{
    proof {
        reveal_strlit("---");
        reveal_strlit("--x");
        reveal_strlit("-w-");
        reveal_strlit("-wx");
        reveal_strlit("r--");
        reveal_strlit("r-x");
        reveal_strlit("rw-");
        reveal_strlit("rwx");
    }
    let s = if index == 0 {
        "---"
    } else if index == 1 {
        "--x"
    } else if index == 2 {
        "-w-"
    } else if index == 3 {
        "-wx"
    } else if index == 4 {
        "r--"
    } else if index == 5 {
        "r-x"
    } else if index == 6 {
        "rw-"
    } else {
        "rwx"
    };
    assert(s@ =~= triplet(index));
    s
}

/// Puts `mark` in place of the third character of a triplet.
fn replace_exec_slot(base: String, mark: &str) -> (out: String)
    requires
        base@.len() == 3,
        mark@.len() == 1,
    ensures
        out@ == base@.update(2, mark@[0]),
{
    let head = base.as_str().substring_char(0, 2);
    let out = String::from_str(head).concat(mark);
    assert(out@ =~= base@.update(2, mark@[0]));
    out
}

impl Mode {
    /// The mode with the bits `mode`, taken as they are.
    pub fn new(mode: usize) -> (m: Mode)
        ensures
            m@ == mode,
    {
        Mode(mode)
    }

    /// The stored bits.
    pub fn value(&self) -> (v: usize)
        ensures
            v == self@,
    {
        self.0
    }

    /// The triplet of the three bits that start at bit `shift`.
    pub fn permission(&self, shift: usize) -> (s: String)
        requires
            shift < usize::BITS,
        ensures
            s@ == permission_spec(self@, shift),
    {
        let bits: usize = self.0 >> shift;
        let index: usize = bits & BITS_MASK;
        assert(bits & 0o7 < 8) by (bit_vector);
        String::from_str(triplet_str(index))
    }

    /// The triplet of the group.
    pub fn group(&self) -> (s: String)
        ensures
            s@ == group_spec(self@),
    {
        let s = self.permission(SHIFT_GRP);
        if self.is_sgid() {
            proof {
                reveal_strlit("s");
                reveal_strlit("S");
            }
            let replacement = if self.is_exec(S_IXGRP) {
                "s"
            } else {
                "S"
            };
            replace_exec_slot(s, replacement)
        } else {
            s
        }
    }

    /// The triplet of the others.
    pub fn other(&self) -> (s: String)
        ensures
            s@ == other_spec(self@),
    {
        let s = self.permission(SHIFT_OTH);
        if self.is_sticky() {
            proof {
                reveal_strlit("t");
                reveal_strlit("T");
            }
            let replacement = if self.is_exec(S_IXOTH) {
                "t"
            } else {
                "T"
            };
            replace_exec_slot(s, replacement)
        } else {
            s
        }
    }

    /// The triplet of the user.
    pub fn user(&self) -> (s: String)
        ensures
            s@ == user_spec(self@),
    {
        let s = self.permission(SHIFT_USR);
        if self.is_suid() {
            proof {
                reveal_strlit("s");
                reveal_strlit("S");
            }
            let replacement = if self.is_exec(S_IXUSR) {
                "s"
            } else {
                "S"
            };
            replace_exec_slot(s, replacement)
        } else {
            s
        }
    }

    /// Whether the set-group-id bit is set.
    pub fn is_sgid(&self) -> (r: bool)
        ensures
            r == (self@ & S_ISGID != 0),
    {
        self.0 & S_ISGID > 0
    }

    /// Whether the set-user-id bit is set.
    pub fn is_suid(&self) -> (r: bool)
        ensures
            r == (self@ & S_ISUID != 0),
    {
        self.0 & S_ISUID > 0
    }

    /// Whether the sticky bit is set.
    pub fn is_sticky(&self) -> (r: bool)
        ensures
            r == (self@ & S_ISVTX != 0),
    {
        self.0 & S_ISVTX > 0
    }

    /// Whether one of the bits of `mask` is set.
    pub fn is_exec(&self, mask: usize) -> (r: bool)
        ensures
            r == (self@ & mask != 0),
    {
        self.0 & mask > 0
    }

    /// Sets the bits of `bits` and keeps those that are set.
    pub fn set_bits(&mut self, bits: usize)
        ensures
            final(self)@ == old(self)@ | bits,
    {
        self.0 |= bits
    }

    /// The text that the mode is shown as.
    pub fn to_string(&self) -> (s: String)
        ensures
            s@ == display_spec(self@),
    {
        proof {
            reveal_strlit(": ");
        }
        let mut out = octal_string_padded(self.0);
        out.append(": ");
        let user = self.user();
        out.append(user.as_str());
        let group = self.group();
        out.append(group.as_str());
        let other = self.other();
        out.append(other.as_str());
        assert(out@ =~= display_spec(self@));
        out
    }
}

/// The text that `mode` is shown as, such as `755: rwxr-xr-x`.
pub fn format_mode(mode: Mode) -> (s: String)
    ensures
        s@ == display_spec(mode@),
{
    mode.to_string()
}

/// `str::parse::<usize>`, applied to the string that holds `c` alone. As std
/// documents it, the parse succeeds exactly on the decimal digits `0` to `9`
/// and then gives the digit's number; on any other character it gives a
/// `ParseIntError`.
#[verifier::external_body]
fn parse_decimal(c: char) -> (r: Result<usize, std::num::ParseIntError>)
    ensures
        r is Ok <==> '0' <= c <= '9',
        r is Ok ==> r->Ok_0 == digit_value(c),
{
    c.to_string().parse::<usize>()
}

/// The number of the octal digit `c`. A decimal digit above 7 is refused as
/// too large, and a character that is no decimal digit with the error of the
/// failed parse.
pub fn octal_digit(c: char) -> (r: Result<usize, Error>)
    ensures
        is_octal_char(c) ==> r == Ok::<usize, Error>(digit_value(c) as usize),
        '8' <= c <= '9' ==> r == Err::<usize, Error>(
            Error::DigitTooLarge(digit_value(c) as usize),
        ),
        !('0' <= c <= '9') ==> r is Err && r->Err_0 is ParseIntError,
        r is Ok ==> r->Ok_0 < 8,
{
    match parse_decimal(c) {
        Ok(digit) => {
            if digit > 7 {
                Err(Error::DigitTooLarge(digit))
            } else {
                Ok(digit)
            }
        },
        Err(e) => Err(Error::from(e)),
    }
}

/// Eight to the power `n`.
pub open spec fn pow8(n: nat) -> int
    decreases n,
{
    if n == 0 {
        1
    } else {
        8 * pow8((n - 1) as nat)
    }
}

/// A digit in front of `t` counts eight to the power of the length of `t`.
proof fn lemma_octal_value_prepend(c: char, t: Seq<char>)
    ensures
        octal_value(seq![c] + t) == digit_value(c) * pow8(t.len()) + octal_value(t),
    decreases t.len(),
{
    let all = seq![c] + t;
    let d = digit_value(c);
    let whole = pow8(t.len());
    if t.len() == 0 {
        assert(all.drop_last() =~= Seq::<char>::empty());
        assert(all.last() == c);
        assert(octal_value(all.drop_last()) == 0);
        assert(d * whole == d) by (nonlinear_arith)
            requires
                whole == 1,
        ;
    } else {
        let shorter = t.drop_last();
        lemma_octal_value_prepend(c, shorter);
        assert(all.drop_last() =~= seq![c] + shorter);
        assert(all.last() == t.last());
        let p = pow8(shorter.len());
        let rest = octal_value(shorter);
        assert(octal_value(all.drop_last()) == d * p + rest);
        assert(8 * (d * p + rest) == d * whole + 8 * rest) by (nonlinear_arith)
            requires
                whole == 8 * p,
        ;
    }
}

/// Reads octal digits from the last to the first: the digit that stands `i`
/// places before the end goes to the bits `3 * i` and above.
fn parse_octal(s: &[char]) -> (r: Result<Mode, Error>)
    requires
        is_octal_text(s@),
        s@.len() <= 9,
    ensures
        r is Ok,
        r->Ok_0@ == octal_value(s@),
{
    let n: usize = s.len();
    let mut mode = Mode::new(0);
    let mut i: usize = 0;
    assert(1usize << 0usize == 1) by (bit_vector);
    assert(s@.subrange(n as int, n as int).len() == 0);
    while i < n
        invariant
            i <= n <= 9,
            n == s@.len(),
            is_octal_text(s@),
            mode@ == octal_value(s@.subrange(n - i, n as int)),
            mode@ < (1usize << ((3 * i) as usize)),
            (1usize << ((3 * i) as usize)) == pow8(i as nat),
        decreases n - i,
    {
        let c = s[n - 1 - i];
        assert(is_octal_char(s@[n - 1 - i]));
        let digit: usize = match octal_digit(c) {
            Ok(d) => d,
            // Not taken: every character here is an octal digit.
            Err(e) => {
                return Err(e);
            },
        };
        let ghost before: usize = mode@;
        let shift: usize = 3 * i;
        let bits: usize = digit << shift;
        assert({
            &&& (before | bits) == before + digit * (1usize << shift)
            &&& (before | bits) < (1usize << ((shift + 3) as usize))
            &&& (1usize << ((shift + 3) as usize)) == 8 * (1usize << shift)
        }) by (bit_vector)
            requires
                shift <= 24,
                before < (1usize << shift),
                digit < 8,
                bits == digit << shift,
        ;
        mode.set_bits(bits);
        proof {
            let done = s@.subrange(n - i, n as int);
            lemma_octal_value_prepend(c, done);
            assert(seq![c] + done =~= s@.subrange(n - 1 - i, n as int));
            let place: int = (1usize << shift) as int;
            let power = pow8(done.len());
            let value = digit_value(c);
            assert(value * power == digit * place) by (nonlinear_arith)
                requires
                    value == digit,
                    power == place,
            ;
        }
        i += 1;
    }
    assert(s@.subrange(0, n as int) =~= s@);
    Ok(mode)
}

/// Reads a symbolic mode, slot by slot.
fn parse_symbolic(s: &[char]) -> (m: Mode)
    requires
        is_symbolic_text(s@),
    ensures
        m@ == symbolic_value(s@),
{
    let mut mode = Mode::new(0);
    let mut i: usize = 0;
    while i < 9
        invariant
            i <= 9,
            is_symbolic_text(s@),
            mode@ == symbolic_bits(s@, i as int),
        decreases 9 - i,
    {
        let c = s[i];
        let index: usize = 8 - i;
        let ghost before: usize = mode@;
        let own: usize = 1usize << index;
        assert(slot_allows(i as int, s@[i as int]));
        if c == 'r' || c == 'w' || c == 'x' {
            mode.set_bits(own);
        } else if c == 's' || c == 'S' {
            let bit: usize = if i == 2 {
                S_ISUID
            } else {
                S_ISGID
            };
            mode.set_bits(bit);
            if c == 's' {
                mode.set_bits(own);
                assert((before | bit) | own == before | (bit | own)) by (bit_vector);
            }
        } else if c == 't' || c == 'T' {
            mode.set_bits(S_ISVTX);
            if c == 't' {
                mode.set_bits(own);
                assert((before | 0o1000usize) | own == before | (0o1000usize | own))
                    by (bit_vector);
            }
        } else {
            assert(before | 0usize == before) by (bit_vector);
        }
        assert(mode@ == before | slot_value(i as int, c));
        i += 1;
    }
    mode
}

/// Reads text that has no white space around it.
pub fn parse_chars(s: &[char]) -> (r: Result<Mode, Error>)
    ensures
        match classify_spec(s@) {
            Ok(ModeType::OctalNumeric) => r is Ok && r->Ok_0@ == octal_value(s@),
            Ok(ModeType::FileMode) => r is Ok && r->Ok_0@ == symbolic_value(s@),
            Err(e) => r == Err::<Mode, Error>(e),
        },
{
    match classify_chars(s) {
        Ok(ModeType::OctalNumeric) => parse_octal(s),
        Ok(ModeType::FileMode) => Ok(parse_symbolic(s)),
        Err(e) => Err(e),
    }
}

/// Reads a mode string, octal or symbolic, with or without white space
/// around it.
pub fn parse_mode(input: &str) -> (r: Result<Mode, Error>)
    ensures
        match parse_spec(input@) {
            Ok(v) => r is Ok && r->Ok_0@ == v,
            Err(e) => r == Err::<Mode, Error>(e),
        },
{
    let chars = chars_of(input);
    parse_chars(trim(chars.as_slice()))
}

impl std::str::FromStr for Mode {
    type Err = Error;

    fn from_str(input: &str) -> (r: Result<Mode, Error>)
        ensures
            match parse_spec(input@) {
                Ok(v) => r is Ok && r->Ok_0@ == v,
                Err(e) => r == Err::<Mode, Error>(e),
            },
    {
        parse_mode(input)
    }
}

} // verus!
