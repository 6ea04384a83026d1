//! Text helpers: the characters of a string, trimming of white space, and
//! base-8 numerals.
use vstd::prelude::*;
use vstd::slice::slice_subrange;

verus! {

/// The code points with Unicode's `White_Space` property.
pub open spec fn is_whitespace(c: char) -> bool {
    let n = c as u32;
    ||| 0x09 <= n <= 0x0D
    ||| n == 0x20
    ||| n == 0x85
    ||| n == 0xA0
    ||| n == 0x1680
    ||| 0x2000 <= n <= 0x200A
    ||| n == 0x2028
    ||| n == 0x2029
    ||| n == 0x202F
    ||| n == 0x205F
    ||| n == 0x3000
}

/// `s` without its leading white space.
pub open spec fn trim_start(s: Seq<char>) -> Seq<char>
    decreases s.len(),
{
    if s.len() > 0 && is_whitespace(s.first()) {
        trim_start(s.drop_first())
    } else {
        s
    }
}

/// `s` without its trailing white space.
pub open spec fn trim_end(s: Seq<char>) -> Seq<char>
    decreases s.len(),
{
    if s.len() > 0 && is_whitespace(s.last()) {
        trim_end(s.drop_last())
    } else {
        s
    }
}

/// `s` without its leading and trailing white space.
pub open spec fn trimmed(s: Seq<char>) -> Seq<char> {
    trim_end(trim_start(s))
}

/// The character that writes the octal digit `d`.
pub open spec fn digit_char(d: nat) -> char {
    if d == 0 {
        '0'
    } else if d == 1 {
        '1'
    } else if d == 2 {
        '2'
    } else if d == 3 {
        '3'
    } else if d == 4 {
        '4'
    } else if d == 5 {
        '5'
    } else if d == 6 {
        '6'
    } else {
        '7'
    }
}

/// The base-8 numeral of `v`, most significant digit first, without leading
/// zeros (a single `0` for zero).
pub open spec fn octal_digits(v: nat) -> Seq<char>
    decreases v,
{
    if v < 8 {
        seq![digit_char(v)]
    } else {
        octal_digits(v / 8).push(digit_char(v % 8))
    }
}

/// `digits` filled up with zeros on the left to at least `width` characters.
pub open spec fn zero_padded(digits: Seq<char>, width: nat) -> Seq<char> {
    if digits.len() < width {
        Seq::new((width - digits.len()) as nat, |i: int| '0') + digits
    } else {
        digits
    }
}

/// Whether `c` is white space.
pub fn is_space(c: char) -> (r: bool)
    ensures
        r == is_whitespace(c),
{
    let n: u32 = c as u32;
    (0x09 <= n && n <= 0x0D) || n == 0x20 || n == 0x85 || n == 0xA0 || n == 0x1680 || (0x2000 <= n
        && n <= 0x200A) || n == 0x2028 || n == 0x2029 || n == 0x202F || n == 0x205F || n == 0x3000
}

/// The characters of `s`, in order.
pub fn chars_of(s: &str) -> (out: Vec<char>)
    ensures
        out@ == s@,
{
    let mut out: Vec<char> = Vec::new();
    for c in it: s.chars()
        invariant
            it.seq() == s@,
            out@ == s@.subrange(0, it.index() as int),
    {
        out.push(c);
        assert(out@ =~= s@.subrange(0, it.index() + 1));
    }
    assert(out@ =~= s@);
    out
}

/// Dropping `k` leading white-space characters does not change what
/// `trim_start` gives.
proof fn lemma_trim_start_skip(s: Seq<char>, k: int)
    requires
        0 <= k <= s.len(),
        forall|j: int| 0 <= j < k ==> is_whitespace(s[j]),
    ensures
        trim_start(s) == trim_start(s.subrange(k, s.len() as int)),
    decreases k,
{
    if k == 0 {
        assert(s.subrange(0, s.len() as int) =~= s);
    } else {
        let t = s.drop_first();
        lemma_trim_start_skip(t, k - 1);
        assert(t.subrange(k - 1, t.len() as int) =~= s.subrange(k, s.len() as int));
    }
}

/// Dropping trailing white-space characters down to length `k` does not
/// change what `trim_end` gives.
proof fn lemma_trim_end_take(s: Seq<char>, k: int)
    requires
        0 <= k <= s.len(),
        forall|j: int| k <= j < s.len() ==> is_whitespace(s[j]),
    ensures
        trim_end(s) == trim_end(s.subrange(0, k)),
    decreases s.len() - k,
{
    if k == s.len() {
        assert(s.subrange(0, k) =~= s);
    } else {
        let t = s.drop_last();
        lemma_trim_end_take(t, k);
        assert(t.subrange(0, k) =~= s.subrange(0, k));
    }
}

/// The part of `s` that is left when leading and trailing white space is
/// taken away.
pub fn trim<'a>(s: &'a [char]) -> (out: &'a [char])
    ensures
        out@ == trimmed(s@),
{
    let n: usize = s.len();
    let mut lo: usize = 0;
    while lo < n && is_space(s[lo])
        invariant
            lo <= n,
            n == s@.len(),
            forall|j: int| 0 <= j < lo ==> is_whitespace(s@[j]),
        decreases n - lo,
    {
        lo += 1;
    }
    let mut hi: usize = n;
    while hi > lo && is_space(s[hi - 1])
        invariant
            lo <= hi <= n,
            n == s@.len(),
            forall|j: int| hi <= j < n ==> is_whitespace(s@[j]),
        decreases hi,
    {
        hi -= 1;
    }
    proof {
        let rest = s@.subrange(lo as int, n as int);
        lemma_trim_start_skip(s@, lo as int);
        assert(trim_start(rest) == rest);
        assert(trim_start(s@) == rest);
        assert forall|j: int| hi - lo <= j < rest.len() implies is_whitespace(rest[j]) by {
            assert(rest[j] == s@[j + lo]);
        }
        lemma_trim_end_take(rest, hi - lo);
        let kept = rest.subrange(0, hi - lo);
        assert(kept =~= s@.subrange(lo as int, hi as int));
        assert(trim_end(kept) == kept);
    }
    slice_subrange(s, lo, hi)
}

/// The `&str` of one octal digit.
fn digit_str(d: usize) -> (s: &'static str)
    requires
        d < 8,
    ensures
        s@ == seq![digit_char(d as nat)],
{
    proof {
        reveal_strlit("0");
        reveal_strlit("1");
        reveal_strlit("2");
        reveal_strlit("3");
        reveal_strlit("4");
        reveal_strlit("5");
        reveal_strlit("6");
        reveal_strlit("7");
    }
    let s = if d == 0 {
        "0"
    } else if d == 1 {
        "1"
    } else if d == 2 {
        "2"
    } else if d == 3 {
        "3"
    } else if d == 4 {
        "4"
    } else if d == 5 {
        "5"
    } else if d == 6 {
        "6"
    } else {
        "7"
    };
    assert(s@ =~= seq![digit_char(d as nat)]);
    s
}

/// Writes `v` in base 8, without leading zeros.
pub fn octal_string(v: usize) -> (out: String)
    ensures
        out@ == octal_digits(v as nat),
    decreases v,
{
    if v < 8 {
        let out = String::from_str(digit_str(v));
        out
    } else {
        let mut out = octal_string(v / 8);
        out.append(digit_str(v % 8));
        assert(out@ =~= octal_digits(v as nat));
        out
    }
}

/// Writes `v` in base 8 with at least three digits.
pub fn octal_string_padded(v: usize) -> (out: String)
    ensures
        out@ == zero_padded(octal_digits(v as nat), 3),
{
    let digits = octal_string(v);
    proof {
        lemma_octal_digits_len(v as nat);
    }
    if v < 8 {
        proof {
            reveal_strlit("00");
        }
        let out = String::from_str("00").concat(digits.as_str());
        assert(out@ =~= zero_padded(octal_digits(v as nat), 3));
        out
    } else if v < 64 {
        proof {
            reveal_strlit("0");
        }
        let out = String::from_str("0").concat(digits.as_str());
        assert(out@ =~= zero_padded(octal_digits(v as nat), 3));
        out
    } else {
        digits
    }
}

/// How many digits the base-8 numeral of `v` has, for small and large `v`.
pub proof fn lemma_octal_digits_len(v: nat)
    ensures
        octal_digits(v).len() >= 1,
        v < 8 ==> octal_digits(v).len() == 1,
        8 <= v < 64 ==> octal_digits(v).len() == 2,
        64 <= v < 512 ==> octal_digits(v).len() == 3,
        512 <= v < 4096 ==> octal_digits(v).len() == 4,
        v >= 64 ==> octal_digits(v).len() >= 3,
    decreases v,
{
    if v >= 8 {
        lemma_octal_digits_len(v / 8);
    }
}

} // verus!
