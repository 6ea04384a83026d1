//! What holds of reading and writing modes together.
use vstd::prelude::*;
use crate::error::Error;
use crate::mode::{
    display_spec, group_spec, octal_value, other_spec, parse_spec, permission_spec, slot_value,
    symbolic_bits, symbolic_spec, symbolic_value, user_spec, Mode,
};
use crate::mode_type::{
    classify_spec, is_octal_char, is_octal_text, is_symbolic_text, slot_allows, ModeType,
};
use crate::text::{is_whitespace, lemma_octal_digits_len, octal_digits, trimmed, zero_padded};

verus! {

/// The character of a slot that stands for read or write permission.
pub open spec fn plain_char(set: bool, letter: char) -> char {
    if set {
        letter
    } else {
        '-'
    }
}

/// The character of a slot that stands for execute permission and a special
/// bit.
pub open spec fn exec_char(special: bool, exec: bool, lower: char, upper: char) -> char {
    if special {
        if exec {
            lower
        } else {
            upper
        }
    } else if exec {
        'x'
    } else {
        '-'
    }
}

/// The three characters of a triplet, each by its own bit.
proof fn lemma_triplet_chars(v: usize, shift: usize, r: usize, w: usize, x: usize)
    requires
        (shift == 0 && r == 0o4 && w == 0o2 && x == 0o1) || (shift == 3 && r == 0o40 && w == 0o20
            && x == 0o10) || (shift == 6 && r == 0o400 && w == 0o200 && x == 0o100),
    ensures
        permission_spec(v, shift).len() == 3,
        permission_spec(v, shift)[0] == plain_char(v & r != 0, 'r'),
        permission_spec(v, shift)[1] == plain_char(v & w != 0, 'w'),
        permission_spec(v, shift)[2] == plain_char(v & x != 0, 'x'),
{
    let index = (v >> shift) & 0o7;
    assert({
        &&& index < 8
        &&& (index == 4 || index == 5 || index == 6 || index == 7) <==> v & r != 0
        &&& (index == 2 || index == 3 || index == 6 || index == 7) <==> v & w != 0
        &&& (index == 1 || index == 3 || index == 5 || index == 7) <==> v & x != 0
    }) by (bit_vector)
        requires
            index == (v >> shift) & 0o7,
            (shift == 0 && r == 0o4 && w == 0o2 && x == 0o1) || (shift == 3 && r == 0o40 && w
                == 0o20 && x == 0o10) || (shift == 6 && r == 0o400 && w == 0o200 && x == 0o100),
    ;
}

/// Each of the nine characters of the symbolic spelling, by the bits that
/// decide it.
pub proof fn lemma_symbolic_chars(v: usize)
    ensures
        symbolic_spec(v).len() == 9,
        symbolic_spec(v)[0] == plain_char(v & 0o400 != 0, 'r'),
        symbolic_spec(v)[1] == plain_char(v & 0o200 != 0, 'w'),
        symbolic_spec(v)[2] == exec_char(v & 0o4000 != 0, v & 0o100 != 0, 's', 'S'),
        symbolic_spec(v)[3] == plain_char(v & 0o040 != 0, 'r'),
        symbolic_spec(v)[4] == plain_char(v & 0o020 != 0, 'w'),
        symbolic_spec(v)[5] == exec_char(v & 0o2000 != 0, v & 0o010 != 0, 's', 'S'),
        symbolic_spec(v)[6] == plain_char(v & 0o004 != 0, 'r'),
        symbolic_spec(v)[7] == plain_char(v & 0o002 != 0, 'w'),
        symbolic_spec(v)[8] == exec_char(v & 0o1000 != 0, v & 0o001 != 0, 't', 'T'),
{
    lemma_triplet_chars(v, 6, 0o400, 0o200, 0o100);
    lemma_triplet_chars(v, 3, 0o40, 0o20, 0o10);
    lemma_triplet_chars(v, 0, 0o4, 0o2, 0o1);
    let u = user_spec(v);
    let g = group_spec(v);
    let o = other_spec(v);
    assert(u.len() == 3 && g.len() == 3 && o.len() == 3);
    let s = symbolic_spec(v);
    assert(s[0] == u[0] && s[1] == u[1] && s[2] == u[2]);
    assert(s[3] == g[0] && s[4] == g[1] && s[5] == g[2]);
    assert(s[6] == o[0] && s[7] == o[1] && s[8] == o[2]);
}

/// The symbolic spelling of any bits is a symbolic mode, and is classified
/// as one.
pub proof fn lemma_symbolic_is_file_mode(v: usize)
    ensures
        is_symbolic_text(symbolic_spec(v)),
        classify_spec(symbolic_spec(v)) == Ok::<ModeType, Error>(ModeType::FileMode),
{
    lemma_symbolic_chars(v);
    let s = symbolic_spec(v);
    assert(!is_octal_char(s[0]));
}

/// Trimming leaves text alone that neither starts nor ends with white space.
pub proof fn lemma_trimmed_unchanged(s: Seq<char>)
    requires
        s.len() > 0 ==> !is_whitespace(s.first()) && !is_whitespace(s.last()),
    ensures
        trimmed(s) == s,
{
}

/// Reading the symbolic spelling of `v` gives the twelve permission bits of
/// `v`.
pub proof fn lemma_symbolic_value(v: usize)
    ensures
        symbolic_value(symbolic_spec(v)) == v & 0o7777,
{
    lemma_symbolic_chars(v);
    let s = symbolic_spec(v);
    let x0 = slot_value(0, s[0]);
    let x1 = slot_value(1, s[1]);
    let x2 = slot_value(2, s[2]);
    let x3 = slot_value(3, s[3]);
    let x4 = slot_value(4, s[4]);
    let x5 = slot_value(5, s[5]);
    let x6 = slot_value(6, s[6]);
    let x7 = slot_value(7, s[7]);
    let x8 = slot_value(8, s[8]);
    reveal_with_fuel(symbolic_bits, 10);
    assert(symbolic_bits(s, 9) == ((((((((0usize | x0) | x1) | x2) | x3) | x4) | x5) | x6) | x7)
        | x8);
    assert(((((((((0usize | x0) | x1) | x2) | x3) | x4) | x5) | x6) | x7) | x8 == v & 0o7777)
        by (bit_vector)
        requires
            x0 == (if v & 0o400 != 0 { 1usize << 8usize } else { 0usize }),
            x1 == (if v & 0o200 != 0 { 1usize << 7usize } else { 0usize }),
            x2 == (if v & 0o4000 != 0 {
                if v & 0o100 != 0 { 0o4000usize | (1usize << 6usize) } else { 0o4000usize }
            } else if v & 0o100 != 0 {
                1usize << 6usize
            } else {
                0usize
            }),
            x3 == (if v & 0o040 != 0 { 1usize << 5usize } else { 0usize }),
            x4 == (if v & 0o020 != 0 { 1usize << 4usize } else { 0usize }),
            x5 == (if v & 0o2000 != 0 {
                if v & 0o010 != 0 { 0o2000usize | (1usize << 3usize) } else { 0o2000usize }
            } else if v & 0o010 != 0 {
                1usize << 3usize
            } else {
                0usize
            }),
            x6 == (if v & 0o004 != 0 { 1usize << 2usize } else { 0usize }),
            x7 == (if v & 0o002 != 0 { 1usize << 1usize } else { 0usize }),
            x8 == (if v & 0o1000 != 0 {
                if v & 0o001 != 0 { 0o1000usize | (1usize << 0usize) } else { 0o1000usize }
            } else if v & 0o001 != 0 {
                1usize << 0usize
            } else {
                0usize
            }),
    ;
}

/// Reading back the symbolic part of what a mode is shown as gives the mode
/// again: for bits `v` of at most `0o7777`, the shown text starts with octal
/// digits, what follows their colon and space is the symbolic spelling, and
/// the symbolic spelling is read as `v`.
pub proof fn lemma_symbolic_round_trip(v: usize)
    requires
        v <= 0o7777,
    ensures
        is_octal_text(zero_padded(octal_digits(v as nat), 3)),
        display_spec(v).skip(zero_padded(octal_digits(v as nat), 3).len() as int + 2)
            == symbolic_spec(v),
        is_symbolic_text(symbolic_spec(v)),
        parse_spec(symbolic_spec(v)) == Ok::<int, Error>(v as int),
{
    let s = symbolic_spec(v);
    let head = zero_padded(octal_digits(v as nat), 3);
    lemma_padded_is_octal_text(v as nat);
    assert(display_spec(v).skip(head.len() as int + 2) =~= s);
    lemma_symbolic_chars(v);
    lemma_trimmed_unchanged(s);
    lemma_symbolic_is_file_mode(v);
    lemma_symbolic_value(v);
    assert(v & 0o7777 == v) by (bit_vector)
        requires
            v <= 0o7777,
    ;
}

/// The base-8 numeral of `v` is made of octal digits, and they write `v`.
pub proof fn lemma_octal_digits_value(v: nat)
    ensures
        is_octal_text(octal_digits(v)),
        octal_value(octal_digits(v)) == v,
    decreases v,
{
    let d = octal_digits(v);
    if v < 8 {
        assert(d.drop_last().len() == 0);
        assert(octal_value(d.drop_last()) == 0);
    } else {
        lemma_octal_digits_value(v / 8);
        assert(d.drop_last() =~= octal_digits(v / 8));
        assert forall|i: int| 0 <= i < d.len() implies is_octal_char(#[trigger] d[i]) by {
            if i < d.len() - 1 {
                assert(d[i] == octal_digits(v / 8)[i]);
            }
        }
    }
}

/// Zeros in front of digits do not change the number that they write.
pub proof fn lemma_leading_zeros(k: nat, d: Seq<char>)
    ensures
        octal_value(Seq::new(k, |i: int| '0') + d) == octal_value(d),
    decreases d.len(), k,
{
    let zeros = Seq::new(k, |i: int| '0');
    let all = zeros + d;
    if d.len() > 0 {
        lemma_leading_zeros(k, d.drop_last());
        assert(all.drop_last() =~= zeros + d.drop_last());
    } else if k > 0 {
        lemma_leading_zeros((k - 1) as nat, d);
        assert(all.drop_last() =~= Seq::new((k - 1) as nat, |i: int| '0') + d);
    } else {
        assert(all =~= d);
    }
}

/// The octal part of what a mode is shown as holds octal digits only, three
/// of them or more.
pub proof fn lemma_padded_is_octal_text(v: nat)
    ensures
        zero_padded(octal_digits(v), 3).len() >= 3,
        is_octal_text(zero_padded(octal_digits(v), 3)),
{
    let d = octal_digits(v);
    let head = zero_padded(d, 3);
    lemma_octal_digits_len(v);
    lemma_octal_digits_value(v);
    assert forall|i: int| 0 <= i < head.len() implies is_octal_char(#[trigger] head[i]) by {
        if d.len() < 3 && i >= 3 - d.len() {
            assert(head[i] == d[i - (3 - d.len())]);
        }
    }
}

/// Reading back the octal part of what a mode is shown as gives the mode
/// again: for bits `v` of at most `0o7777`, what stands before the colon in
/// the shown text is read as `v`.
pub proof fn lemma_octal_round_trip(v: usize)
    requires
        v <= 0o7777,
    ensures
        display_spec(v).take(zero_padded(octal_digits(v as nat), 3).len() as int) == zero_padded(
            octal_digits(v as nat),
            3,
        ),
        parse_spec(zero_padded(octal_digits(v as nat), 3)) == Ok::<int, Error>(v as int),
{
    let d = octal_digits(v as nat);
    let head = zero_padded(d, 3);
    assert(display_spec(v).take(head.len() as int) =~= head);
    lemma_octal_digits_len(v as nat);
    lemma_octal_digits_value(v as nat);
    lemma_leading_zeros((3 - d.len()) as nat, d);
    lemma_padded_is_octal_text(v as nat);
    assert(head.len() == 3 || head.len() == 4);
    assert(is_octal_char(head.first()) && is_octal_char(head.last()));
    lemma_trimmed_unchanged(head);
}

/// The bits of one slot of a symbolic mode lie within the twelve permission
/// bits.
proof fn lemma_slot_bounded(i: int, c: char)
    requires
        0 <= i <= 8,
    ensures
        slot_value(i, c) <= 0o7777,
{
    let k = (8 - i) as usize;
    assert({
        &&& (1usize << k) <= 0o7777
        &&& (0usize | (1usize << k)) <= 0o7777
        &&& (0o4000usize | (1usize << k)) <= 0o7777
        &&& (0o2000usize | (1usize << k)) <= 0o7777
        &&& (0o1000usize | (1usize << k)) <= 0o7777
    }) by (bit_vector)
        requires
            k <= 8,
    ;
}

/// The bits of the first `n` slots of a symbolic mode lie within the twelve
/// permission bits.
proof fn lemma_symbolic_bits_bounded(s: Seq<char>, n: int)
    requires
        0 <= n <= 9,
    ensures
        symbolic_bits(s, n) <= 0o7777,
    decreases n,
{
    if n > 0 {
        lemma_symbolic_bits_bounded(s, n - 1);
        lemma_slot_bounded(n - 1, s[n - 1]);
        let a = symbolic_bits(s, n - 1);
        let b = slot_value(n - 1, s[n - 1]);
        assert(a | b <= 0o7777) by (bit_vector)
            requires
                a <= 0o7777,
                b <= 0o7777,
        ;
    }
}

/// Up to four octal digits write a number of at most `0o7777`.
proof fn lemma_short_octal_bounded(s: Seq<char>)
    requires
        is_octal_text(s),
        s.len() <= 4,
    ensures
        0 <= octal_value(s) <= 0o7777,
{
    reveal_with_fuel(octal_value, 5);
    if s.len() >= 1 {
        let a = s.drop_last();
        assert(is_octal_char(s[s.len() - 1]));
        if a.len() >= 1 {
            let b = a.drop_last();
            assert(a.last() == s[s.len() - 2] && is_octal_char(s[s.len() - 2]));
            if b.len() >= 1 {
                let c = b.drop_last();
                assert(b.last() == s[s.len() - 3] && is_octal_char(s[s.len() - 3]));
                if c.len() >= 1 {
                    assert(c.last() == s[s.len() - 4] && is_octal_char(s[s.len() - 4]));
                }
            }
        }
    }
}

/// Text that is read as a mode gives no bit beyond the twelve permission
/// bits, unless it is made of nine octal digits.
pub proof fn lemma_parsed_bits_bounded(input: Seq<char>)
    requires
        parse_spec(input) is Ok,
        trimmed(input).len() != 9 || !is_octal_text(trimmed(input)),
    ensures
        0 <= parse_spec(input)->Ok_0 <= 0o7777,
{
    let s = trimmed(input);
    if is_octal_text(s) {
        lemma_short_octal_bounded(s);
    } else {
        lemma_symbolic_bits_bounded(s, 9);
    }
}

/// A string whose length is not 3, 4 or 9 is no mode string.
pub proof fn lemma_other_lengths_refused(s: Seq<char>)
    requires
        s.len() != 3,
        s.len() != 4,
        s.len() != 9,
    ensures
        classify_spec(s) == Err::<ModeType, Error>(Error::InvalidModeString),
{
}

/// A string of nine characters, not all of them octal digits, is refused
/// when one of the first two slots of a triplet holds a character other than
/// `-`, `r`, `w` and `x`.
pub proof fn lemma_misplaced_character_refused(s: Seq<char>, i: int)
    requires
        s.len() == 9,
        !is_octal_text(s),
        i == 0 || i == 1 || i == 3 || i == 4 || i == 6 || i == 7,
        s[i] != '-' && s[i] != 'r' && s[i] != 'w' && s[i] != 'x',
    ensures
        classify_spec(s) == Err::<ModeType, Error>(Error::InvalidModeString),
{
    assert(!slot_allows(i, s[i]));
}

/// Showing a mode twice gives the same text both times: whatever two calls of
/// `format_mode` return for modes with the same bits holds the same
/// characters.
pub proof fn lemma_format_is_repeatable(a: Mode, b: Mode, first: String, second: String)
    requires
        a@ == b@,
        first@ == display_spec(a@),
        second@ == display_spec(b@),
    ensures
        first@ == second@,
{
}

} // verus!
