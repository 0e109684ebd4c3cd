//! Small verified helpers on characters, strings and decimal numerals that
//! the rest of the crate shares: character classes, string equality and
//! construction, and conversion between `i64` values and their decimal
//! renderings.
//!
//! The character classes fix a choice the language leaves to the host:
//! letters are the ASCII alphabetic characters, so identifiers and
//! keywords are ASCII-letter runs and any other alphabetic character
//! lexes as ILLEGAL. This keeps the whole tokenizer an exact function of
//! the input characters.

use vstd::prelude::*;

verus! {

/// Whitespace as the lexer understands it: space, tab, newline, carriage
/// return.
pub open spec fn spec_is_ws(c: char) -> bool {
    c == ' ' || c == '\t' || c == '\n' || c == '\r'
}

pub fn is_ws(c: char) -> (r: bool)
    ensures
        r == spec_is_ws(c),
{
    c == ' ' || c == '\t' || c == '\n' || c == '\r'
}

/// Letters as the lexer understands them: ASCII alphabetic characters.
/// Identifiers and keywords are runs of these.
pub open spec fn spec_is_letter(c: char) -> bool {
    ('a' <= c && c <= 'z') || ('A' <= c && c <= 'Z')
}

pub fn is_letter(c: char) -> (r: bool)
    ensures
        r == spec_is_letter(c),
{
    ('a' <= c && c <= 'z') || ('A' <= c && c <= 'Z')
}

/// Decimal digits.
pub open spec fn spec_is_digit(c: char) -> bool {
    '0' <= c && c <= '9'
}

pub fn is_digit(c: char) -> (r: bool)
    ensures
        r == spec_is_digit(c),
{
    '0' <= c && c <= '9'
}

/// Relies on `String::push`: appends exactly one character.
#[verifier::external_body]
pub fn push_char(s: &mut String, c: char)
    ensures
        final(s)@ == old(s)@.push(c),
{
    s.push(c);
}

/// Appends the characters of `other` to `out`.
pub fn append_str(out: &mut String, other: &str)
    ensures
        final(out)@ == old(out)@ + other@,
{
    let n: usize = other.unicode_len();
    let mut i: usize = 0;
    while i < n
        invariant
            n == other@.len(),
            i <= n,
            out@ == old(out)@ + other@.subrange(0, i as int),
        decreases n - i,
    {
        let c = other.get_char(i);
        push_char(out, c);
        assert(old(out)@ + other@.subrange(0, i + 1 as int) =~= (old(out)@ + other@.subrange(
            0,
            i as int,
        )).push(other@[i as int]));
        i = i + 1;
    }
    assert(other@.subrange(0, n as int) =~= other@);
}

/// Builds a `String` holding exactly the characters of `v`.
pub fn chars_to_string(v: &Vec<char>) -> (s: String)
    ensures
        s@ == v@,
{
    let mut s = String::new();
    let mut i: usize = 0;
    while i < v.len()
        invariant
            i <= v.len(),
            s@ == v@.subrange(0, i as int),
        decreases v.len() - i,
    {
        push_char(&mut s, v[i]);
        assert(v@.subrange(0, i + 1 as int) =~= v@.subrange(0, i as int).push(v@[i as int]));
        i = i + 1;
    }
    assert(v@.subrange(0, v@.len() as int) =~= v@);
    s
}

/// Collects the characters of a `&str` into a vector.
pub fn str_to_chars(s: &str) -> (v: Vec<char>)
    ensures
        v@ == s@,
{
    let n: usize = s.unicode_len();
    let mut v: Vec<char> = Vec::new();
    let mut i: usize = 0;
    while i < n
        invariant
            n == s@.len(),
            i <= n,
            v@ == s@.subrange(0, i as int),
        decreases n - i,
    {
        let c = s.get_char(i);
        v.push(c);
        assert(s@.subrange(0, i + 1 as int) =~= s@.subrange(0, i as int).push(s@[i as int]));
        i = i + 1;
    }
    assert(s@.subrange(0, n as int) =~= s@);
    v
}

/// Character-for-character equality of two string slices.
pub fn str_eq(a: &str, b: &str) -> (r: bool)
    ensures
        r == (a@ == b@),
{
    let na: usize = a.unicode_len();
    let nb: usize = b.unicode_len();
    if na != nb {
        assert(a@ != b@);
        return false;
    }
    let mut i: usize = 0;
    while i < na
        invariant
            na == a@.len(),
            na == b@.len(),
            i <= na,
            forall|j: int| 0 <= j < i ==> a@[j] == b@[j],
        decreases na - i,
    {
        if a.get_char(i) != b.get_char(i) {
            return false;
        }
        i = i + 1;
    }
    assert(a@ =~= b@);
    true
}

/// The digit character for a value in 0..=9.
pub open spec fn spec_digit_char(d: int) -> char {
    ((d + 48) as u8) as char
}

/// The decimal numeral of a natural number, most significant digit first.
pub open spec fn spec_dec_nat(n: nat) -> Seq<char>
    decreases n,
{
    if n < 10 {
        seq![spec_digit_char(n as int)]
    } else {
        spec_dec_nat(n / 10) + seq![spec_digit_char((n % 10) as int)]
    }
}

/// The decimal rendering of a signed value: a minus sign before the
/// numeral of its magnitude.
pub open spec fn spec_dec_i64(v: int) -> Seq<char> {
    if v < 0 {
        seq!['-'] + spec_dec_nat((-v) as nat)
    } else {
        spec_dec_nat(v as nat)
    }
}

/// Appends the decimal numeral of `n` to `out`.
fn push_dec_u64(out: &mut String, n: u64)
    ensures
        final(out)@ == old(out)@ + spec_dec_nat(n as nat),
    decreases n,
{
    if n < 10 {
        push_char(out, ((n as u8) + 48) as char);
        assert(old(out)@.push(spec_digit_char(n as int)) =~= old(out)@ + spec_dec_nat(n as nat));
    } else {
        push_dec_u64(out, n / 10);
        push_char(out, (((n % 10) as u8) + 48) as char);
        assert((old(out)@ + spec_dec_nat((n / 10) as nat)).push(
            spec_digit_char((n % 10) as int),
        ) =~= old(out)@ + spec_dec_nat(n as nat));
    }
}

/// The decimal rendering of an `i64`, as `ToString` would produce it.
pub fn i64_to_string(v: i64) -> (s: String)
    ensures
        s@ == spec_dec_i64(v as int),
{
    let mut s = String::new();
    if v >= 0 {
        push_dec_u64(&mut s, v as u64);
        assert(Seq::<char>::empty() + spec_dec_nat(v as nat) =~= spec_dec_i64(v as int));
    } else {
        push_char(&mut s, '-');
        let m: u64 = if v == i64::MIN {
            9_223_372_036_854_775_808u64
        } else {
            (-v) as u64
        };
        assert(m == -(v as int));
        push_dec_u64(&mut s, m);
        assert(Seq::<char>::empty().push('-') + spec_dec_nat(m as nat) =~= spec_dec_i64(v as int));
    }
    s
}

/// The numeric value of a digit character.
pub open spec fn spec_digit_val(c: char) -> int {
    c as int - 48
}

/// Whether every character of `s` is a decimal digit.
pub open spec fn spec_all_digits(s: Seq<char>) -> bool {
    forall|i: int| 0 <= i < s.len() ==> spec_is_digit(#[trigger] s[i])
}

/// The value of a digit string read as a decimal numeral.
pub open spec fn spec_digits_val(s: Seq<char>) -> int
    decreases s.len(),
{
    if s.len() == 0 {
        0
    } else {
        spec_digits_val(s.drop_last()) * 10 + spec_digit_val(s.last())
    }
}

/// A digit string's value only grows as the string is extended.
proof fn lemma_digits_val_prefix_le(s: Seq<char>, i: int)
    requires
        0 <= i <= s.len(),
        spec_all_digits(s),
    ensures
        spec_digits_val(s.subrange(0, i)) <= spec_digits_val(s),
        spec_digits_val(s) >= 0,
    decreases s.len(),
{
    if s.len() == 0 {
        assert(s.subrange(0, i) =~= s);
    } else {
        lemma_digits_val_prefix_le(s.drop_last(), if i <= s.len() - 1 {
            i
        } else {
            s.len() - 1
        });
        assert(spec_digit_val(s.last()) >= 0);
        assert(spec_digits_val(s.drop_last()) * 10 >= spec_digits_val(s.drop_last())) by {
            lemma_digits_val_nonneg(s.drop_last());
        }
        if i <= s.len() - 1 {
            assert(s.drop_last().subrange(0, i) =~= s.subrange(0, i));
        } else {
            assert(s.subrange(0, i) =~= s);
        }
    }
}

proof fn lemma_digits_val_nonneg(s: Seq<char>)
    ensures
        spec_all_digits(s) ==> spec_digits_val(s) >= 0,
    decreases s.len(),
{
    if s.len() > 0 {
        lemma_digits_val_nonneg(s.drop_last());
    }
}

/// Parses a string of decimal digits into an `i64`.
///
/// Returns `Some(v)` exactly when the string is non-empty, holds digits
/// only, and its value fits in an `i64`; `v` is then that value. A minus
/// sign is not accepted: negative literals are formed by the parser from a
/// prefix operator.
pub fn parse_i64_digits(s: &str) -> (r: Option<i64>)
    ensures
        match r {
            Some(v) => s@.len() > 0 && spec_all_digits(s@) && spec_digits_val(s@) == v as int,
            None => s@.len() == 0 || !spec_all_digits(s@) || spec_digits_val(s@) > i64::MAX as int,
        },
{
    let n: usize = s.unicode_len();
    if n == 0 {
        return None;
    }
    let mut acc: u64 = 0;
    let mut i: usize = 0;
    while i < n
        invariant
            n == s@.len(),
            0 < n,
            i <= n,
            spec_all_digits(s@.subrange(0, i as int)),
            acc as int == spec_digits_val(s@.subrange(0, i as int)),
            acc <= i64::MAX as u64,
        decreases n - i,
    {
        let c = s.get_char(i);
        if !is_digit(c) {
            assert(!spec_is_digit(s@[i as int]));
            return None;
        }
        let d: u64 = (c as u32 - 48) as u64;
        assert(d <= 9);
        if acc > (9_223_372_036_854_775_807u64 - d) / 10 {
            assert(acc * 10 + d > i64::MAX as int) by (nonlinear_arith)
                requires
                    acc > (9_223_372_036_854_775_807u64 - d) / 10,
                    d <= 9,
            ;
            proof {
                assert(s@.subrange(0, i + 1 as int).drop_last() =~= s@.subrange(0, i as int));
                assert(s@.subrange(0, i + 1 as int).last() == s@[i as int]);
                assert(spec_digits_val(s@.subrange(0, i + 1 as int)) == acc * 10 + d);
                if spec_all_digits(s@) {
                    lemma_digits_val_prefix_le(s@, i + 1 as int);
                    assert(spec_digits_val(s@.subrange(0, i + 1 as int)) <= spec_digits_val(s@));
                }
            }
            return None;
        }
        assert(acc * 10 + d <= i64::MAX as int) by (nonlinear_arith)
            requires
                acc <= (9_223_372_036_854_775_807u64 - d) / 10,
                d <= 9,
        ;
        proof {
            assert(s@.subrange(0, i + 1 as int).drop_last() =~= s@.subrange(0, i as int));
            assert(s@.subrange(0, i + 1 as int).last() == s@[i as int]);
        }
        acc = acc * 10 + d;
        i = i + 1;
    }
    assert(s@.subrange(0, n as int) =~= s@);
    Some(acc as i64)
}

} // verus!
