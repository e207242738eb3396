//! The version token: three non-negative numbers, read from and written as
//! `major.minor.patch`.

use vstd::prelude::*;
use crate::error::VersionError;
use crate::text::{chars_of, split, split_chars, string_of, lemma_split_nonempty, views};

verus! {

/// A version as its three numbers.
#[derive(Debug, Clone, Copy, PartialEq, Eq, Structural)]
pub struct VersionToken {
    pub major: usize,
    pub minor: usize,
    pub patch: usize,
}

/// `c` is one of '0' to '9'.
pub open spec fn is_digit(c: char) -> bool {
    48 <= c as u32 && c as u32 <= 57
}

/// The value of the decimal digit `c`.
pub open spec fn digit_value(c: char) -> nat {
    (c as u32 - 48) as nat
}

/// The decimal digit for `d`, below ten.
pub open spec fn digit_char(d: nat) -> char {
    if d == 0 { '0' }
    else if d == 1 { '1' }
    else if d == 2 { '2' }
    else if d == 3 { '3' }
    else if d == 4 { '4' }
    else if d == 5 { '5' }
    else if d == 6 { '6' }
    else if d == 7 { '7' }
    else if d == 8 { '8' }
    else { '9' }
}

/// Every character of `s` is a decimal digit.
pub open spec fn all_digits(s: Seq<char>) -> bool {
    forall|i: int| 0 <= i < s.len() ==> is_digit(#[trigger] s[i])
}

/// The number that the digits `s` write in base ten.
pub open spec fn digits_value(s: Seq<char>) -> nat
    decreases s.len(),
{
    if s.len() == 0 {
        0
    } else {
        digits_value(s.drop_last()) * 10 + digit_value(s.last())
    }
}

/// The digits of a number part: one leading '+' is allowed, as for `usize::from_str`.
pub open spec fn unsigned_digits(s: Seq<char>) -> Seq<char> {
    if s.len() > 0 && s[0] == '+' {
        s.drop_first()
    } else {
        s
    }
}

/// Reads one number part of a version.
pub open spec fn parse_component(s: Seq<char>) -> Result<usize, VersionError> {
    let d = unsigned_digits(s);
    if d.len() == 0 || !all_digits(d) {
        Err(VersionError::InvalidDigit)
    } else if digits_value(d) > usize::MAX {
        Err(VersionError::Overflow)
    } else {
        Ok(digits_value(d) as usize)
    }
}

/// Reads a version: the first three '.'-separated parts are its numbers; parts
/// after the third are ignored.
pub open spec fn version_of(s: Seq<char>) -> Result<VersionToken, VersionError> {
    let parts = split(s, '.');
    if parts.len() < 3 {
        Err(VersionError::InvalidFormat)
    } else {
        match parse_component(parts[0]) {
            Err(e) => Err(e),
            Ok(major) => match parse_component(parts[1]) {
                Err(e) => Err(e),
                Ok(minor) => match parse_component(parts[2]) {
                    Err(e) => Err(e),
                    Ok(patch) => Ok(VersionToken { major, minor, patch }),
                },
            },
        }
    }
}

/// `n` in decimal, without leading zeros.
pub open spec fn decimal(n: nat) -> Seq<char>
    decreases n,
{
    if n < 10 {
        seq![digit_char(n)]
    } else {
        decimal(n / 10).push(digit_char(n % 10))
    }
}

/// The text of a version: `major.minor.patch`.
pub open spec fn version_text(v: VersionToken) -> Seq<char> {
    decimal(v.major as nat) + seq!['.'] + decimal(v.minor as nat) + seq!['.'] + decimal(
        v.patch as nat,
    )
}

/// The first `k` digits of `s` never write a larger number than all of them.
pub proof fn lemma_digits_prefix_le(s: Seq<char>, k: int)
    requires
        0 <= k <= s.len(),
    ensures
        digits_value(s.take(k)) <= digits_value(s),
    decreases s.len(),
{
    if k == s.len() {
        assert(s.take(k) =~= s);
    } else {
        assert(s.drop_last().take(k) =~= s.take(k));
        lemma_digits_prefix_le(s.drop_last(), k);
    }
}

proof fn lemma_step_bound(v: int, d: int, m: int)
    requires
        0 <= v,
        0 <= d <= m,
    ensures
        v > (m - d) / 10 <==> v * 10 + d > m,
{
    assert(v > (m - d) / 10 <==> v * 10 + d > m) by (nonlinear_arith)
        requires
            0 <= v,
            0 <= d <= m,
    ;
}

/// Whether `c` is a decimal digit.
fn is_digit_exec(c: char) -> (r: bool)
    ensures
        r == is_digit(c),
{
    let u = c as u32;
    48 <= u && u <= 57
}

/// Reads one number part of a version.
pub fn parse_component_exec(s: &Vec<char>) -> (r: Result<usize, VersionError>)
    ensures
        r == parse_component(s@),
{
    let n = s.len();
    let start: usize = if n > 0 && s[0] == '+' {
        1
    } else {
        0
    };
    let ghost d = unsigned_digits(s@);
    assert(d =~= s@.subrange(start as int, n as int));
    if start == n {
        return Err(VersionError::InvalidDigit);
    }
    let mut i: usize = start;
    while i < n
        invariant
            start <= i <= n == s@.len(),
            d == unsigned_digits(s@),
            d == s@.subrange(start as int, n as int),
            forall|j: int| start <= j < i ==> is_digit(#[trigger] s@[j]),
        decreases n - i,
    {
        if !is_digit_exec(s[i]) {
            assert(!is_digit(d[i - start]));
            return Err(VersionError::InvalidDigit);
        }
        i = i + 1;
    }
    assert(all_digits(d)) by {
        assert forall|j: int| 0 <= j < d.len() implies is_digit(#[trigger] d[j]) by {
            assert(d[j] == s@[start + j]);
        }
    }
    let mut val: usize = 0;
    i = start;
    assert(s@.subrange(start as int, start as int) =~= Seq::<char>::empty());
    while i < n
        invariant
            start <= i <= n == s@.len(),
            d == unsigned_digits(s@),
            d == s@.subrange(start as int, n as int),
            all_digits(d),
            val == digits_value(s@.subrange(start as int, i as int)),
        decreases n - i,
    {
        assert(d[i - start] == s@[i as int]);
        assert(is_digit(s@[i as int]));
        let dv = (s[i] as u32 - 48) as usize;
        assert(dv == digit_value(s@[i as int]));
        let ghost prefix = s@.subrange(start as int, i + 1);
        assert(prefix.drop_last() =~= s@.subrange(start as int, i as int));
        assert(is_digit(d[i - start]));
        assert(prefix.last() == s@[i as int]);
        proof {
            lemma_step_bound(val as int, dv as int, usize::MAX as int);
        }
        if val > (usize::MAX - dv) / 10 {
            proof {
                assert(d.take(i + 1 - start) =~= prefix);
                lemma_digits_prefix_le(d, i + 1 - start);
            }
            return Err(VersionError::Overflow);
        }
        val = val * 10 + dv;
        i = i + 1;
    }
    assert(s@.subrange(start as int, n as int) =~= d);
    Ok(val)
}

/// Reads a version from its characters.
pub fn parse_chars(s: &Vec<char>) -> (r: Result<VersionToken, VersionError>)
    ensures
        r == version_of(s@),
{
    let parts = split_chars(s, '.');
    proof {
        assert(views(parts@).len() == parts@.len());
    }
    if parts.len() < 3 {
        return Err(VersionError::InvalidFormat);
    }
    assert(views(parts@)[0] == parts@[0]@);
    assert(views(parts@)[1] == parts@[1]@);
    assert(views(parts@)[2] == parts@[2]@);
    let major = parse_component_exec(&parts[0])?;
    let minor = parse_component_exec(&parts[1])?;
    let patch = parse_component_exec(&parts[2])?;
    Ok(VersionToken { major, minor, patch })
}

/// Reads a version from text such as `1.4.2`.
pub fn parse_version(text: &str) -> (r: Result<VersionToken, VersionError>)
    ensures
        r == version_of(text@),
{
    parse_chars(&chars_of(text))
}

/// The three '.'-separated parts that a version is read from, as text.
pub fn get_version_as_tuple(version: &str) -> (r: Result<(String, String, String), VersionError>)
    ensures
        match r {
            Ok((a, b, c)) => split(version@, '.').len() >= 3 && a@ == split(version@, '.')[0]
                && b@ == split(version@, '.')[1] && c@ == split(version@, '.')[2],
            Err(e) => split(version@, '.').len() < 3 && e == VersionError::InvalidFormat,
        },
{
    let parts = split_chars(&chars_of(version), '.');
    proof {
        assert(views(parts@).len() == parts@.len());
    }
    if parts.len() < 3 {
        return Err(VersionError::InvalidFormat);
    }
    assert(views(parts@)[0] == parts@[0]@);
    assert(views(parts@)[1] == parts@[1]@);
    assert(views(parts@)[2] == parts@[2]@);
    Ok((string_of(&parts[0]), string_of(&parts[1]), string_of(&parts[2])))
}

/// The decimal digit for `d`.
fn digit_char_exec(d: usize) -> (r: char)
    requires
        d < 10,
    ensures
        r == digit_char(d as nat),
{
    if d == 0 { '0' }
    else if d == 1 { '1' }
    else if d == 2 { '2' }
    else if d == 3 { '3' }
    else if d == 4 { '4' }
    else if d == 5 { '5' }
    else if d == 6 { '6' }
    else if d == 7 { '7' }
    else if d == 8 { '8' }
    else { '9' }
}

/// Appends `n` in decimal to `out`.
fn push_decimal(out: &mut Vec<char>, n: usize)
    ensures
        final(out)@ == old(out)@ + decimal(n as nat),
    decreases n,
{
    if n >= 10 {
        push_decimal(out, n / 10);
    }
    out.push(digit_char_exec(n % 10));
    assert(final(out)@ =~= old(out)@ + decimal(n as nat));
}

/// The characters of `major.minor.patch`.
pub fn format_chars(v: VersionToken) -> (r: Vec<char>)
    ensures
        r@ == version_text(v),
{
    let mut out: Vec<char> = Vec::new();
    push_decimal(&mut out, v.major);
    out.push('.');
    push_decimal(&mut out, v.minor);
    out.push('.');
    push_decimal(&mut out, v.patch);
    assert(out@ =~= version_text(v));
    out
}

/// Writes a version as `major.minor.patch`.
pub fn format_version(v: VersionToken) -> (r: String)
    ensures
        r@ == version_text(v),
{
    string_of(&format_chars(v))
}

proof fn lemma_digit_char(d: nat)
    requires
        d < 10,
    ensures
        is_digit(digit_char(d)),
        digit_value(digit_char(d)) == d,
        digit_char(d) != '+',
        digit_char(d) != '.',
{
}

/// The decimal text of a number is a non-empty run of digits that reads back
/// as the number.
pub proof fn lemma_decimal(n: nat)
    ensures
        decimal(n).len() > 0,
        all_digits(decimal(n)),
        digits_value(decimal(n)) == n,
    decreases n,
{
    lemma_digit_char(n % 10);
    if n >= 10 {
        lemma_decimal(n / 10);
        assert(n == (n / 10) * 10 + n % 10);
        assert(decimal(n).drop_last() =~= decimal(n / 10));
        assert(decimal(n).last() == digit_char(n % 10));
        assert(digits_value(decimal(n)) == digits_value(decimal(n / 10)) * 10 + digit_value(
            digit_char(n % 10),
        ));
        assert(digits_value(decimal(n / 10)) * 10 == (n / 10) * 10);
        assert(all_digits(decimal(n)));
    } else {
        assert(decimal(n).drop_last() =~= Seq::<char>::empty());
        assert(digits_value(Seq::<char>::empty()) == 0);
        assert(digits_value(decimal(n)) == n);
    }
}

/// A text without the separator is a single piece.
pub proof fn lemma_split_single(x: Seq<char>, sep: char)
    requires
        forall|i: int| 0 <= i < x.len() ==> x[i] != sep,
    ensures
        split(x, sep) == seq![x],
    decreases x.len(),
{
    if x.len() > 0 {
        lemma_split_single(x.drop_last(), sep);
        assert(x.drop_last().push(x.last()) =~= x);
        assert(split(x, sep) =~= seq![x]);
    } else {
        assert(x =~= Seq::<char>::empty());
    }
}

/// Splitting two texts joined by the separator gives the pieces of each.
pub proof fn lemma_split_join(x: Seq<char>, y: Seq<char>, sep: char)
    ensures
        split(x + seq![sep] + y, sep) == split(x, sep) + split(y, sep),
    decreases y.len(),
{
    let z = x + seq![sep] + y;
    lemma_split_nonempty(x, sep);
    if y.len() == 0 {
        assert(z.drop_last() =~= x);
        assert(split(z, sep) =~= split(x, sep) + split(y, sep));
    } else {
        assert(z.drop_last() =~= x + seq![sep] + y.drop_last());
        lemma_split_join(x, y.drop_last(), sep);
        lemma_split_nonempty(y.drop_last(), sep);
        assert(split(z, sep) =~= split(x, sep) + split(y, sep));
    }
}

proof fn lemma_component_of_decimal(n: usize)
    ensures
        parse_component(decimal(n as nat)) == Ok::<usize, VersionError>(n),
        forall|i: int| 0 <= i < decimal(n as nat).len() ==> decimal(n as nat)[i] != '.',
{
    lemma_decimal(n as nat);
    let d = decimal(n as nat);
    assert(is_digit(d[0]));
    assert(unsigned_digits(d) == d);
    assert forall|i: int| 0 <= i < d.len() implies d[i] != '.' by {
        assert(is_digit(d[i]));
    }
}

/// Reading the text of a version gives the version back.
pub proof fn lemma_parse_format_round_trip(v: VersionToken)
    ensures
        version_of(version_text(v)) == Ok::<VersionToken, VersionError>(v),
{
    let a = decimal(v.major as nat);
    let b = decimal(v.minor as nat);
    let c = decimal(v.patch as nat);
    lemma_component_of_decimal(v.major);
    lemma_component_of_decimal(v.minor);
    lemma_component_of_decimal(v.patch);
    lemma_split_single(a, '.');
    lemma_split_single(b, '.');
    lemma_split_single(c, '.');
    lemma_split_join(a, b, '.');
    lemma_split_join(a + seq!['.'] + b, c, '.');
    let parts = split(version_text(v), '.');
    assert(parts =~= seq![a, b, c]);
}

} // verus!
