//! Character-level text utilities: equality, decimal numerals and
//! pattern replacement, each stated over the character sequence of a string.

use vstd::prelude::*;

verus! {

/// `c` is an ASCII decimal digit.
pub open spec fn is_digit(c: char) -> bool {
    '0' <= c && c <= '9'
}

/// The value of an ASCII decimal digit.
pub open spec fn digit_value(c: char) -> nat {
    (c as int - '0' as int) as nat
}

/// Every character of `s` is a decimal digit.
pub open spec fn all_digits(s: Seq<char>) -> bool {
    forall|i: int| 0 <= i < s.len() ==> #[trigger] is_digit(s[i])
}

/// The number that a sequence of decimal digits denotes (most significant first).
pub open spec fn digits_value(s: Seq<char>) -> nat
    decreases s.len(),
{
    if s.len() == 0 {
        0
    } else {
        digits_value(s.drop_last()) * 10 + digit_value(s.last())
    }
}

/// Two strings compare equal exactly when they hold the same characters.
pub fn text_eq(a: &str, b: &str) -> (r: bool)
    ensures
        r == (a@ == b@),
{
    let n = a.unicode_len();
    if n != b.unicode_len() {
        return false;
    }
    let mut i: usize = 0;
    while i < n
        invariant
            n == a@.len(),
            n == b@.len(),
            0 <= i <= n,
            forall|j: int| 0 <= j < i ==> a@[j] == b@[j],
        decreases n - i,
    {
        if a.get_char(i) != b.get_char(i) {
            return false;
        }
        i = i + 1;
    }
    assert(a@ =~= b@);
    true
}


/// Why a decimal numeral was refused: the kinds of failure that std's
/// integer parsing (`str::parse`) reports.
#[derive(Clone, Copy, Debug, PartialEq, Eq, Structural)]
pub enum NumberError {
    /// The text is empty.
    Empty,
    /// A character other than a digit (after an optional sign) was found,
    /// or the sign stands alone.
    InvalidDigit,
    /// The value is larger than the target type holds.
    PosOverflow,
    /// The value is smaller than the target type holds.
    NegOverflow,
}

/// `j` is the position of the first character of `d` that is not a digit.
pub open spec fn first_non_digit(d: Seq<char>, j: int) -> bool {
    &&& 0 <= j < d.len()
    &&& all_digits(d.take(j))
    &&& !is_digit(d[j])
}

/// Reading the digits `d` from left to right with the magnitude limit `max`:
/// a non-digit is reported if it comes before the value has passed `max`,
/// a value above `max` is reported as `too_big`.
pub open spec fn read_digits(d: Seq<char>, max: nat, too_big: NumberError) -> Result<nat, NumberError> {
    if exists|j: int| first_non_digit(d, j) && digits_value(d.take(j)) <= max {
        Err(NumberError::InvalidDigit)
    } else if all_digits(d) && digits_value(d) <= max {
        Ok(digits_value(d))
    } else {
        Err(too_big)
    }
}

/// The integer that `s` denotes as a decimal numeral for a type whose values
/// are `min ..= max` (with `min <= 0 <= max`): an optional `+` sign, or a `-`
/// sign where `min < 0`, followed by digits.
pub open spec fn parse_integer(s: Seq<char>, min: int, max: int) -> Result<int, NumberError> {
    if s.len() == 0 {
        Err(NumberError::Empty)
    } else if s.len() == 1 && (s[0] == '+' || s[0] == '-') {
        Err(NumberError::InvalidDigit)
    } else if s[0] == '-' && min < 0 {
        match read_digits(s.skip(1), (-min) as nat, NumberError::NegOverflow) {
            Ok(v) => Ok(-v),
            Err(e) => Err(e),
        }
    } else {
        let d = if s[0] == '+' { s.skip(1) } else { s };
        match read_digits(d, max as nat, NumberError::PosOverflow) {
            Ok(v) => Ok(v as int),
            Err(e) => Err(e),
        }
    }
}

/// The value of one more digit appended to a run of digits.
proof fn lemma_digits_value_step(d: Seq<char>, i: int)
    requires
        0 <= i < d.len(),
    ensures
        digits_value(d.take(i + 1)) == digits_value(d.take(i)) * 10 + digit_value(d[i]),
{
    assert(d.take(i + 1).drop_last() =~= d.take(i));
}

/// Over a run of digits, longer prefixes never denote smaller values.
proof fn lemma_digits_value_monotone(d: Seq<char>, k: int, m: int)
    requires
        0 <= k <= m <= d.len(),
        all_digits(d.take(m)),
    ensures
        digits_value(d.take(k)) <= digits_value(d.take(m)),
    decreases m - k,
{
    if k < m {
        lemma_digits_value_step(d, m - 1);
        assert(all_digits(d.take(m - 1))) by {
            assert forall|i: int| 0 <= i < d.take(m - 1).len() implies #[trigger] is_digit(
                d.take(m - 1)[i],
            ) by {
                assert(d.take(m - 1)[i] == d.take(m)[i]);
            }
        }
        lemma_digits_value_monotone(d, k, m - 1);
    }
}

/// Reads the characters of `s` from position `start` on as digits, with the
/// magnitude limit `max`.
fn read_digits_from(s: &str, start: usize, max: u128, too_big: NumberError) -> (r: Result<
    u128,
    NumberError,
>)
    requires
        start <= s@.len(),
    ensures
        (match read_digits(s@.skip(start as int), max as nat, too_big) {
            Ok(v) => r == Ok::<u128, NumberError>(v as u128),
            Err(e) => r == Err::<u128, NumberError>(e),
        }),
{
    let n = s.unicode_len();
    let ghost d = s@.skip(start as int);
    let mut i: usize = start;
    let mut acc: u128 = 0;
    assert(d.take(0) =~= Seq::<char>::empty());
    while i < n
        invariant
            n == s@.len(),
            d == s@.skip(start as int),
            start <= i <= n,
            all_digits(d.take(i - start)),
            acc as nat == digits_value(d.take(i - start)),
            acc <= max,
        decreases n - i,
    {
        let c = s.get_char(i);
        let k: usize = i - start;
        assert(c == d[k as int]);
        if !('0' <= c && c <= '9') {
            assert(first_non_digit(d, k as int));
            return Err(NumberError::InvalidDigit);
        }
        let dv: u128 = (c as u32 - '0' as u32) as u128;
        proof {
            lemma_digits_value_step(d, k as int);
        }
        let next = match acc.checked_mul(10) {
            Some(m) => m.checked_add(dv),
            None => None,
        };
        let over = match next {
            Some(v) => v > max,
            None => true,
        };
        if over {
            proof {
                assert(all_digits(d.take(k + 1))) by {
                    assert forall|j: int| 0 <= j < d.take(k + 1).len() implies #[trigger] is_digit(
                        d.take(k + 1)[j],
                    ) by {
                        if j < k {
                            assert(d.take(k + 1)[j] == d.take(k as int)[j]);
                        }
                    }
                }
                assert(digits_value(d.take(k + 1)) > max);
                assert forall|j: int| first_non_digit(d, j) implies digits_value(d.take(j)) > max by {
                    if j <= k {
                        assert(is_digit(d.take(k + 1)[j]));
                        assert(d.take(k + 1)[j] == d[j]);
                    }
                    lemma_digits_value_monotone(d, k + 1, j);
                }
                if all_digits(d) {
                    assert(d.take(d.len() as int) =~= d);
                    lemma_digits_value_monotone(d, k + 1, d.len() as int);
                }
            }
            return Err(too_big);
        }
        acc = match next {
            Some(v) => v,
            None => 0,
        };
        proof {
            assert(all_digits(d.take(k + 1))) by {
                assert forall|j: int| 0 <= j < d.take(k + 1).len() implies #[trigger] is_digit(
                    d.take(k + 1)[j],
                ) by {
                    if j < k {
                        assert(d.take(k + 1)[j] == d.take(k as int)[j]);
                    }
                }
            }
        }
        i = i + 1;
    }
    assert(d.take(d.len() as int) =~= d);
    assert(!exists|j: int| first_non_digit(d, j) && digits_value(d.take(j)) <= max);
    Ok(acc)
}

/// Reads `s` as a decimal numeral for a type whose values are
/// `-neg_limit ..= max`: the result is the sign (true for `-`) and the magnitude.
fn read_integer(s: &str, neg_limit: u128, max: u128) -> (r: Result<(bool, u128), NumberError>)
    ensures
        (match parse_integer(s@, -(neg_limit as int), max as int) {
            Ok(v) => r == Ok::<(bool, u128), NumberError>(
                if v < 0 { (true, (-v) as u128) } else { (false, v as u128) },
            ) || (v == 0 && r == Ok::<(bool, u128), NumberError>((true, 0u128))),
            Err(e) => r == Err::<(bool, u128), NumberError>(e),
        }),
{
    let n = s.unicode_len();
    if n == 0 {
        return Err(NumberError::Empty);
    }
    let first = s.get_char(0);
    if n == 1 && (first == '+' || first == '-') {
        return Err(NumberError::InvalidDigit);
    }
    if first == '-' && neg_limit > 0 {
        match read_digits_from(s, 1, neg_limit, NumberError::NegOverflow) {
            Ok(v) => Ok((true, v)),
            Err(e) => Err(e),
        }
    } else if first == '+' {
        match read_digits_from(s, 1, max, NumberError::PosOverflow) {
            Ok(v) => Ok((false, v)),
            Err(e) => Err(e),
        }
    } else {
        assert(s@.skip(0) =~= s@);
        match read_digits_from(s, 0, max, NumberError::PosOverflow) {
            Ok(v) => Ok((false, v)),
            Err(e) => Err(e),
        }
    }
}

/// Reads `s` as a decimal `u32` the way `str::parse::<u32>` does.
pub fn parse_u32(s: &str) -> (r: Result<u32, NumberError>)
    ensures
        (match parse_integer(s@, 0, u32::MAX as int) {
            Ok(v) => r == Ok::<u32, NumberError>(v as u32),
            Err(e) => r == Err::<u32, NumberError>(e),
        }),
{
    match read_integer(s, 0, u32::MAX as u128) {
        Ok((_, v)) => Ok(v as u32),
        Err(e) => Err(e),
    }
}

/// Reads `s` as a decimal `u128` the way `str::parse::<u128>` does.
pub fn parse_u128(s: &str) -> (r: Result<u128, NumberError>)
    ensures
        (match parse_integer(s@, 0, u128::MAX as int) {
            Ok(v) => r == Ok::<u128, NumberError>(v as u128),
            Err(e) => r == Err::<u128, NumberError>(e),
        }),
{
    match read_integer(s, 0, u128::MAX) {
        Ok((_, v)) => Ok(v),
        Err(e) => Err(e),
    }
}

/// Reads `s` as a decimal `i32` the way `str::parse::<i32>` does.
pub fn parse_i32(s: &str) -> (r: Result<i32, NumberError>)
    ensures
        (match parse_integer(s@, i32::MIN as int, i32::MAX as int) {
            Ok(v) => r == Ok::<i32, NumberError>(v as i32),
            Err(e) => r == Err::<i32, NumberError>(e),
        }),
{
    match read_integer(s, 0x8000_0000u128, i32::MAX as u128) {
        Ok((neg, v)) => {
            if neg {
                if v == 0x8000_0000u128 {
                    Ok(i32::MIN)
                } else {
                    Ok(-(v as i32))
                }
            } else {
                Ok(v as i32)
            }
        },
        Err(e) => Err(e),
    }
}


/// The digit character for a value below ten.
pub open spec fn digit_char(d: nat) -> char {
    (('0' as int) + d) as char
}

/// The decimal numeral of `n`, without sign or leading zeros.
pub open spec fn decimal_text(n: nat) -> Seq<char>
    decreases n,
{
    if n < 10 {
        seq![digit_char(n)]
    } else {
        decimal_text(n / 10).push(digit_char(n % 10))
    }
}

/// `String::push`: appends one character at the end.
#[verifier::external_body]
pub(crate) fn push_char(s: &mut String, c: char)
    ensures
        final(s)@ == old(s)@.push(c),
{
    s.push(c);
}

fn digit_to_char(d: u128) -> (c: char)
    requires
        d < 10,
    ensures
        c == digit_char(d as nat),
{
    match d {
        0 => '0',
        1 => '1',
        2 => '2',
        3 => '3',
        4 => '4',
        5 => '5',
        6 => '6',
        7 => '7',
        8 => '8',
        _ => '9',
    }
}

/// Writes `n` in decimal, as `n.to_string()` does.
pub fn decimal_string(n: u128) -> (s: String)
    ensures
        s@ == decimal_text(n as nat),
    decreases n,
{
    if n < 10 {
        let mut s = String::new();
        push_char(&mut s, digit_to_char(n));
        assert(s@ =~= seq![digit_char(n as nat)]);
        s
    } else {
        let mut s = decimal_string(n / 10);
        push_char(&mut s, digit_to_char(n % 10));
        s
    }
}

proof fn lemma_digit_char_value(d: nat)
    requires
        d < 10,
    ensures
        is_digit(digit_char(d)),
        digit_value(digit_char(d)) == d,
{
    assert((('0' as int) + d) as char as int == ('0' as int) + d);
}

/// A decimal numeral is a nonempty run of digits denoting its number.
pub proof fn lemma_decimal_text_digits(n: nat)
    ensures
        decimal_text(n).len() > 0,
        all_digits(decimal_text(n)),
        digits_value(decimal_text(n)) == n,
    decreases n,
{
    lemma_digit_char_value((n % 10) as nat);
    if n < 10 {
        let t = decimal_text(n);
        assert(t.drop_last() =~= Seq::<char>::empty());
        assert(t.last() == digit_char(n));
        assert(digits_value(t) == digits_value(t.drop_last()) * 10 + digit_value(t.last()));
    } else {
        lemma_decimal_text_digits(n / 10);
        let t = decimal_text(n);
        assert(t.drop_last() =~= decimal_text(n / 10));
        assert(t.last() == digit_char((n % 10) as nat));
        assert(digits_value(t) == digits_value(t.drop_last()) * 10 + digit_value(t.last()));
        assert(digits_value(t) == (n / 10) * 10 + n % 10);
        assert forall|i: int| 0 <= i < t.len() implies #[trigger] is_digit(t[i]) by {
            if i < t.len() - 1 {
                assert(t[i] == decimal_text(n / 10)[i]);
            }
        }
    }
}

/// A decimal numeral has no leading zero: the numeral of zero is `0` alone,
/// and the numeral of any other number starts with a digit other than `0`.
pub proof fn lemma_decimal_text_canonical(n: nat)
    ensures
        decimal_text(0) == seq!['0'],
        n > 0 ==> decimal_text(n)[0] != '0',
    decreases n,
{
    assert((('0' as int) + 0) as char == '0');
    if n > 0 {
        if n < 10 {
            lemma_digit_char_value(n);
            assert(digit_value('0') == 0);
        } else {
            lemma_decimal_text_canonical(n / 10);
            assert(decimal_text(n)[0] == decimal_text(n / 10)[0]);
        }
    }
}

/// Reading back a written number gives that number: for every `n` up to the
/// type's maximum, the numeral that `decimal_string` writes parses to `n`.
pub proof fn lemma_parse_decimal_text(n: nat, min: int, max: int)
    requires
        min <= 0,
        n <= max,
    ensures
        parse_integer(decimal_text(n), min, max) == Ok::<int, NumberError>(n as int),
{
    lemma_decimal_text_digits(n);
    let t = decimal_text(n);
    assert(is_digit(t[0]));
    assert(t.take(t.len() as int) =~= t);
    assert forall|j: int| !(first_non_digit(t, j)) by {
        if 0 <= j < t.len() {
            assert(is_digit(t[j]));
        }
    }
}


/// Reading the digits of a written number against a limit gives the number
/// when it is within the limit, and the overflow error otherwise.
proof fn lemma_read_decimal_text(n: nat, max: nat, too_big: NumberError)
    ensures
        read_digits(decimal_text(n), max, too_big) == if n <= max {
            Ok::<nat, NumberError>(n)
        } else {
            Err::<nat, NumberError>(too_big)
        },
{
    lemma_decimal_text_digits(n);
    let t = decimal_text(n);
    assert forall|j: int| !(first_non_digit(t, j)) by {
        if 0 <= j < t.len() {
            assert(is_digit(t[j]));
        }
    }
}

/// How numerals read, as std's integer parsing reads them: empty text is
/// refused as empty; a written number with a `+` sign reads as itself; with
/// a `-` sign it reads as its negation for a signed type and is refused as an
/// invalid digit for an unsigned one; and a number beyond the type's range is
/// refused as a positive or negative overflow.
pub proof fn lemma_parse_signs(n: nat, min: int, max: int)
    requires
        min <= 0 <= max,
    ensures
        parse_integer(Seq::empty(), min, max) == Err::<int, NumberError>(NumberError::Empty),
        n <= max ==> parse_integer(seq!['+'] + decimal_text(n), min, max) == Ok::<
            int,
            NumberError,
        >(n as int),
        min < 0 && n <= -min ==> parse_integer(seq!['-'] + decimal_text(n), min, max) == Ok::<
            int,
            NumberError,
        >(-n),
        min == 0 ==> parse_integer(seq!['-'] + decimal_text(n), min, max) == Err::<
            int,
            NumberError,
        >(NumberError::InvalidDigit),
        n > max ==> parse_integer(decimal_text(n), min, max) == Err::<int, NumberError>(
            NumberError::PosOverflow,
        ),
        min < 0 && n > -min ==> parse_integer(seq!['-'] + decimal_text(n), min, max) == Err::<
            int,
            NumberError,
        >(NumberError::NegOverflow),
{
    lemma_decimal_text_digits(n);
    let t = decimal_text(n);
    assert(is_digit(t[0]));
    let plus = seq!['+'] + t;
    let minus = seq!['-'] + t;
    assert(plus.skip(1) =~= t);
    assert(minus.skip(1) =~= t);
    assert(plus[0] == '+');
    assert(minus[0] == '-');
    lemma_read_decimal_text(n, max as nat, NumberError::PosOverflow);
    if min < 0 {
        lemma_read_decimal_text(n, (-min) as nat, NumberError::NegOverflow);
    } else {
        assert(minus.take(0) =~= Seq::<char>::empty());
        assert(first_non_digit(minus, 0));
    }
}

/// `s` with every occurrence of `pat` replaced by `rep`, occurrences being
/// found from left to right without overlap, as `str::replace` does.
pub open spec fn replace_all(s: Seq<char>, pat: Seq<char>, rep: Seq<char>) -> Seq<char>
    decreases s.len(),
{
    if pat.len() == 0 || s.len() < pat.len() {
        s
    } else if s.take(pat.len() as int) == pat {
        rep + replace_all(s.skip(pat.len() as int), pat, rep)
    } else {
        seq![s[0]] + replace_all(s.skip(1), pat, rep)
    }
}

/// `pat` occurs nowhere in `s`.
pub open spec fn never_occurs(s: Seq<char>, pat: Seq<char>) -> bool {
    forall|i: int| 0 <= i && i + pat.len() <= s.len() ==> #[trigger] s.subrange(i, i + pat.len()) != pat
}

/// How replacement works: an occurrence at the start is replaced and the
/// search goes on right after it; text in which the pattern does not occur
/// is left as it is; and replacing a pattern by itself changes nothing.
pub proof fn lemma_replace_all_laws(s: Seq<char>, pat: Seq<char>, rep: Seq<char>)
    requires
        pat.len() > 0,
    ensures
        replace_all(pat + s, pat, rep) == rep + replace_all(s, pat, rep),
        never_occurs(s, pat) ==> replace_all(s, pat, rep) == s,
        replace_all(s, pat, pat) == s,
    decreases s.len(),
{
    let t = pat + s;
    assert(t.take(pat.len() as int) =~= pat);
    assert(t.skip(pat.len() as int) =~= s);
    if s.len() >= pat.len() {
        if s.take(pat.len() as int) == pat {
            lemma_replace_all_laws(s.skip(pat.len() as int), pat, rep);
            assert(s.subrange(0, pat.len() as int) == s.take(pat.len() as int));
            assert(pat + s.skip(pat.len() as int) =~= s);
        } else {
            lemma_replace_all_laws(s.skip(1), pat, rep);
            assert(seq![s[0]] + s.skip(1) =~= s);
            if never_occurs(s, pat) {
                assert forall|i: int|
                    0 <= i && i + pat.len() <= s.skip(1).len() implies #[trigger] s.skip(1).subrange(
                    i,
                    i + pat.len(),
                ) != pat by {
                    assert(s.skip(1).subrange(i, i + pat.len()) =~= s.subrange(
                        i + 1,
                        i + 1 + pat.len(),
                    ));
                }
            }
        }
    }
}

/// `pat` occurs in `s` at position `i`.
fn occurs_at(s: &str, n: usize, i: usize, pat: &str, m: usize) -> (r: bool)
    requires
        n == s@.len(),
        m == pat@.len(),
        i + m <= n,
    ensures
        r == (s@.subrange(i as int, i + m) == pat@),
{
    let mut k: usize = 0;
    while k < m
        invariant
            n == s@.len(),
            m == pat@.len(),
            i + m <= n,
            0 <= k <= m,
            forall|j: int| 0 <= j < k ==> s@[i + j] == pat@[j],
        decreases m - k,
    {
        if s.get_char(i + k) != pat.get_char(k) {
            assert(s@.subrange(i as int, i + m)[k as int] != pat@[k as int]);
            return false;
        }
        k = k + 1;
    }
    assert(s@.subrange(i as int, i + m) =~= pat@);
    true
}

/// Replaces every occurrence of the nonempty pattern `pat` in `s` by `rep`,
/// as `s.replace(pat, rep)` does.
pub fn replace_text(s: &str, pat: &str, rep: &str) -> (r: String)
    requires
        pat@.len() > 0,
    ensures
        r@ == replace_all(s@, pat@, rep@),
{
    let n = s.unicode_len();
    let m = pat.unicode_len();
    let mut out = String::new();
    let mut i: usize = 0;
    assert(s@.skip(0) =~= s@);
    while i < n
        invariant
            n == s@.len(),
            m == pat@.len(),
            m > 0,
            0 <= i <= n,
            replace_all(s@, pat@, rep@) == out@ + replace_all(s@.skip(i as int), pat@, rep@),
        decreases n - i,
    {
        let ghost rest = s@.skip(i as int);
        let ghost before = out@;
        if n - i >= m && occurs_at(s, n, i, pat, m) {
            proof {
                assert(rest.take(m as int) =~= s@.subrange(i as int, i + m));
                assert(rest.skip(m as int) =~= s@.skip(i + m));
            }
            out.append(rep);
            i = i + m;
            assert(before + replace_all(rest, pat@, rep@) =~= out@ + replace_all(
                s@.skip(i as int),
                pat@,
                rep@,
            ));
        } else {
            let c = s.get_char(i);
            proof {
                if n - i >= m {
                    assert(rest.take(m as int) =~= s@.subrange(i as int, i + m));
                }
                assert(rest.skip(1) =~= s@.skip(i + 1));
                assert(rest[0] == c);
                if rest.len() < m as nat {
                    assert(rest =~= seq![c] + rest.skip(1));
                }
            }
            push_char(&mut out, c);
            assert(before + replace_all(rest, pat@, rep@) =~= out@ + replace_all(
                s@.skip(i + 1),
                pat@,
                rep@,
            ));
            i = i + 1;
        }
    }
    assert(s@.skip(n as int) =~= Seq::<char>::empty());
    assert(out@ + Seq::<char>::empty() =~= out@);
    out
}


} // verus!
