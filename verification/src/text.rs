//! Strings of characters: the operations of `str` that the rules need, and the
//! texts that they are stated over.

use vstd::prelude::*;

verus! {

/// `part` occurs somewhere in `whole`.
pub open spec fn occurs_in(part: Seq<char>, whole: Seq<char>) -> bool {
    exists|at: int|
        0 <= at <= whole.len() - part.len() && #[trigger] whole.subrange(at, at + part.len())
            == part
}

/// `whole` without the characters `a` and `b` at its end.
pub open spec fn trim_end(whole: Seq<char>, a: char, b: char) -> Seq<char>
    decreases whole.len(),
{
    if whole.len() > 0 && (whole.last() == a || whole.last() == b) {
        trim_end(whole.drop_last(), a, b)
    } else {
        whole
    }
}

/// An ASCII capital as its small letter, any other character as it is.
pub open spec fn ascii_lower(c: char) -> char {
    if 'A' <= c <= 'Z' {
        (c as u32 + 32) as char
    } else {
        c
    }
}

/// The character of a digit below sixteen, in small letters.
pub open spec fn digit(n: int) -> char
    recommends
        0 <= n < 16,
{
    if n < 10 {
        ('0' as int + n) as char
    } else {
        ('a' as int + n - 10) as char
    }
}

/// A natural number in decimal, without leading zeros.
pub open spec fn decimal_nat(n: nat) -> Seq<char>
    decreases n,
{
    if n < 10 {
        seq![digit(n as int)]
    } else {
        decimal_nat(n / 10).push(digit((n % 10) as int))
    }
}

/// An integer in decimal.
pub open spec fn decimal(n: int) -> Seq<char> {
    if n < 0 {
        seq!['-'] + decimal_nat((-n) as nat)
    } else {
        decimal_nat(n as nat)
    }
}

/// Bytes in hexadecimal, two small digits each.
pub open spec fn lower_hex(bytes: Seq<u8>) -> Seq<char> {
    Seq::new(
        2 * bytes.len(),
        |i: int|
            if i % 2 == 0 {
                digit(bytes[i / 2] as int / 16)
            } else {
                digit(bytes[i / 2] as int % 16)
            },
    )
}

proof fn lemma_digits_apart(a: int, b: int)
    requires
        0 <= a < 16,
        0 <= b < 16,
        digit(a) == digit(b),
    ensures
        a == b,
{
}

proof fn lemma_decimal_nat_starts_with_digit(n: nat)
    ensures
        decimal_nat(n).len() > 0,
        '0' <= decimal_nat(n)[0] <= '9',
    decreases n,
{
    if n >= 10 {
        lemma_decimal_nat_starts_with_digit(n / 10);
    }
}

proof fn lemma_decimal_nat_apart(a: nat, b: nat)
    requires
        decimal_nat(a) == decimal_nat(b),
    ensures
        a == b,
    decreases a,
{
    lemma_decimal_nat_starts_with_digit(a / 10);
    lemma_decimal_nat_starts_with_digit(b / 10);
    if a < 10 {
        assert(b < 10) by {
            if b >= 10 {
                assert(decimal_nat(b).len() >= 2);
            }
        }
        assert(decimal_nat(a)[0] == digit(a as int));
        assert(decimal_nat(b)[0] == digit(b as int));
        lemma_digits_apart(a as int, b as int);
    } else {
        assert(b >= 10) by {
            if b < 10 {
                assert(decimal_nat(a).len() >= 2);
            }
        }
        assert(decimal_nat(a).last() == digit((a % 10) as int));
        assert(decimal_nat(b).last() == digit((b % 10) as int));
        lemma_digits_apart((a % 10) as int, (b % 10) as int);
        assert(decimal_nat(a).drop_last() =~= decimal_nat(a / 10));
        assert(decimal_nat(b).drop_last() =~= decimal_nat(b / 10));
        lemma_decimal_nat_apart(a / 10, b / 10);
    }
}

/// Different integers are written differently.
pub proof fn lemma_decimal_tells_integers_apart(a: int, b: int)
    requires
        decimal(a) == decimal(b),
    ensures
        a == b,
{
    let x = if a < 0 { (-a) as nat } else { a as nat };
    let y = if b < 0 { (-b) as nat } else { b as nat };
    lemma_decimal_nat_starts_with_digit(x);
    lemma_decimal_nat_starts_with_digit(y);
    assert(decimal(a)[0] == decimal(b)[0]);
    if a < 0 {
        assert(decimal(a).skip(1) =~= decimal_nat(x));
        assert(decimal(b).skip(1) =~= decimal_nat(y));
    }
    lemma_decimal_nat_apart(x, y);
}

/// A decimal number begins with a digit or a minus sign.
pub proof fn lemma_decimal_begins(n: int)
    ensures
        decimal(n).len() > 0,
        decimal(n)[0] == '-' || '0' <= decimal(n)[0] <= '9',
{
    lemma_decimal_nat_starts_with_digit(if n < 0 { (-n) as nat } else { n as nat });
}

/// Different bytes are written differently in hexadecimal.
pub proof fn lemma_hex_tells_bytes_apart(a: Seq<u8>, b: Seq<u8>)
    requires
        lower_hex(a) == lower_hex(b),
    ensures
        a == b,
{
    assert(lower_hex(a).len() == 2 * a.len());
    assert(lower_hex(b).len() == 2 * b.len());
    assert forall|i: int| 0 <= i < a.len() implies a[i] == b[i] by {
        assert(lower_hex(a)[2 * i] == digit(a[i] as int / 16));
        assert(lower_hex(b)[2 * i] == digit(b[i] as int / 16));
        assert(lower_hex(a)[2 * i + 1] == digit(a[i] as int % 16));
        assert(lower_hex(b)[2 * i + 1] == digit(b[i] as int % 16));
        lemma_digits_apart(a[i] as int / 16, b[i] as int / 16);
        lemma_digits_apart(a[i] as int % 16, b[i] as int % 16);
    }
    assert(a =~= b);
}

/// Equal texts have equal bytes, and no others have.
pub proof fn lemma_bytes_tell_texts_apart(a: Seq<char>, b: Seq<char>)
    ensures
        vstd::utf8::encode_utf8(a) == vstd::utf8::encode_utf8(b) <==> a == b,
{
    vstd::utf8::encode_utf8_decode_utf8(a);
    vstd::utf8::encode_utf8_decode_utf8(b);
}

/// Whether two strings are equal.
pub fn same_text(a: &str, b: &str) -> (r: bool)
    ensures
        r == (a@ == b@),
{
    proof {
        lemma_bytes_tell_texts_apart(a@, b@);
    }
    let x = a.as_bytes();
    let y = b.as_bytes();
    if x.len() != y.len() {
        return false;
    }
    let mut i: usize = 0;
    while i < x.len()
        invariant
            i <= x.len(),
            x.len() == y.len(),
            x@ == vstd::utf8::encode_utf8(a@),
            y@ == vstd::utf8::encode_utf8(b@),
            vstd::utf8::encode_utf8(a@) == vstd::utf8::encode_utf8(b@) <==> a@ == b@,
            forall|j: int| 0 <= j < i ==> x[j] == y[j],
        decreases x.len() - i,
    {
        if x[i] != y[i] {
            return false;
        }
        i += 1;
    }
    assert(x@ =~= y@);
    true
}

/// `std::str::from_utf8`: the text that the bytes encode, and nothing where they
/// are not UTF-8.
#[verifier::external_body]
pub(crate) fn utf8_text<'a>(bytes: &'a [u8]) -> (r: Option<&'a str>)
    ensures
        match r {
            Some(s) => vstd::utf8::valid_utf8(bytes@) && s@ == vstd::utf8::decode_utf8(bytes@),
            None => !vstd::utf8::valid_utf8(bytes@),
        },
{
    std::str::from_utf8(bytes).ok()
}

/// `str::starts_with` with a string pattern: `prefix` begins `s`.
#[verifier::external_body]
pub(crate) fn begins_with(s: &str, prefix: &str) -> (r: bool)
    ensures
        r == prefix@.is_prefix_of(s@),
{
    s.starts_with(prefix)
}

/// `str::contains` with a string pattern: `needle` occurs in `s`.
#[verifier::external_body]
pub(crate) fn has_part(s: &str, needle: &str) -> (r: bool)
    ensures
        r == occurs_in(needle@, s@),
{
    s.contains(needle)
}

/// `str::trim_end_matches` with a pattern of two characters: every one of them
/// at the end of `s` is removed.
#[verifier::external_body]
pub(crate) fn without_trailing<'a>(s: &'a str, a: char, b: char) -> (r: &'a str)
    ensures
        r@ == trim_end(s@, a, b),
{
    s.trim_end_matches([a, b])
}

/// `str::to_ascii_lowercase`: each ASCII capital becomes its small letter.
#[verifier::external_body]
pub(crate) fn lowercase_ascii(s: &str) -> (r: String)
    ensures
        r@ == s@.map_values(|c: char| ascii_lower(c)),
{
    s.to_ascii_lowercase()
}

/// A text that does not end in one of two characters is what is left of it when
/// any number of them that follow it are removed.
pub proof fn law_ends_are_trimmed(t: Seq<char>, ends: Seq<char>, a: char, b: char)
    requires
        t.len() > 0 ==> t.last() != a && t.last() != b,
        forall|i: int| 0 <= i < ends.len() ==> #[trigger] ends[i] == a || ends[i] == b,
    ensures
        trim_end(t + ends, a, b) == t,
    decreases ends.len(),
{
    if ends.len() == 0 {
        assert(t + ends =~= t);
    } else {
        let fewer = ends.drop_last();
        assert forall|i: int| 0 <= i < fewer.len() implies #[trigger] fewer[i] == a || fewer[i]
            == b by {
            assert(fewer[i] == ends[i]);
        }
        law_ends_are_trimmed(t, fewer, a, b);
        assert((t + ends).drop_last() =~= t + fewer);
        assert((t + ends).last() == ends[ends.len() - 1]);
    }
}

/// What occurs in a text stands between what comes before it and what comes
/// after it.
pub proof fn law_what_occurs_stands_between(part: Seq<char>, whole: Seq<char>)
    ensures
        occurs_in(part, whole) <==> exists|before: Seq<char>, after: Seq<char>|
            whole == #[trigger] (before + part + after),
{
    if occurs_in(part, whole) {
        let at = choose|at: int|
            0 <= at <= whole.len() - part.len() && #[trigger] whole.subrange(at, at + part.len())
                == part;
        let before = whole.subrange(0, at);
        let after = whole.subrange(at + part.len(), whole.len() as int);
        assert(whole =~= before + part + after);
    }
    if exists|before: Seq<char>, after: Seq<char>| whole == #[trigger] (before + part + after) {
        let (before, after) = choose|before: Seq<char>, after: Seq<char>|
            whole == #[trigger] (before + part + after);
        let at = before.len() as int;
        assert(whole.subrange(at, at + part.len()) =~= part);
    }
}

/// Bytes are written in hexadecimal one after the other, each as its two digits.
pub proof fn law_hex_is_byte_by_byte(first: Seq<u8>, byte: u8, rest: Seq<u8>)
    ensures
        lower_hex(first + rest) == lower_hex(first) + lower_hex(rest),
        lower_hex(seq![byte]) == seq![digit(byte as int / 16), digit(byte as int % 16)],
{
    let a = lower_hex(first);
    let b = lower_hex(rest);
    let c = lower_hex(first + rest);
    assert forall|i: int| 0 <= i < c.len() implies c[i] == (a + b)[i] by {
        if i < a.len() {
            assert((first + rest)[i / 2] == first[i / 2]);
        } else {
            let j = i - a.len();
            assert((first + rest)[i / 2] == rest[j / 2]);
        }
    }
    assert(c =~= a + b);
    assert(lower_hex(seq![byte]) =~= seq![digit(byte as int / 16), digit(byte as int % 16)]);
}

/// A number is written in decimal digit by digit, a negative one behind a minus
/// sign.
pub proof fn law_decimal_goes_digit_by_digit(n: nat, d: nat)
    requires
        d < 10,
    ensures
        decimal(d as int) == seq![digit(d as int)],
        n > 0 ==> decimal((10 * n + d) as int) == decimal(n as int).push(digit(d as int)),
        n > 0 ==> decimal(-(n as int)) == seq!['-'] + decimal(n as int),
        digit(d as int) as int == '0' as int + d,
{
    if n > 0 {
        let k: nat = 10 * n + d;
        assert(k / 10 == n && k % 10 == d);
    }
}

/// Only the ASCII capitals have another small letter than themselves, each its
/// own.
pub proof fn law_only_capitals_become_small(c: char)
    ensures
        'A' <= c <= 'Z' ==> ascii_lower(c) as int == c as int + 32,
        !('A' <= c <= 'Z') ==> ascii_lower(c) == c,
{
}

} // verus!
