//! Character-level helpers shared by the string-building code: decimal
//! rendering and parsing with the same rules as std's integer `parse`.

use vstd::prelude::*;

verus! {

broadcast use vstd::string::group_string_axioms;

/// Appends one character to a string.
/// Trusted: `String::push`, documented to append the given char to the end.
#[verifier::external_body]
pub(crate) fn push_char(s: &mut String, c: char)
    ensures
        final(s)@ == old(s)@.push(c),
{
    s.push(c);
}

/// The characters of a string slice, in order.
pub fn chars_of(s: &str) -> (r: Vec<char>)
    ensures
        r@ == s@,
{
    let mut r: Vec<char> = Vec::new();
    for c in it: s.chars()
        invariant
            r@ == it.seq().take(it.index() as int),
    {
        r.push(c);
    }
    r
}

/// The character of a decimal digit value.
pub open spec fn digit_char(d: int) -> char {
    if d == 0 { '0' } else if d == 1 { '1' } else if d == 2 { '2' } else if d == 3 { '3' }
    else if d == 4 { '4' } else if d == 5 { '5' } else if d == 6 { '6' } else if d == 7 { '7' }
    else if d == 8 { '8' } else { '9' }
}

/// The value of a decimal digit character.
pub open spec fn digit_value(c: char) -> int {
    (c as int) - ('0' as int)
}

pub open spec fn is_digit(c: char) -> bool {
    '0' <= c && c <= '9'
}

/// Decimal rendering of a natural number, without leading zeros.
pub open spec fn decimal(n: nat) -> Seq<char>
    decreases n,
{
    if n < 10 {
        seq![digit_char(n as int)]
    } else {
        decimal(n / 10).push(digit_char((n % 10) as int))
    }
}

/// Decimal rendering left-padded with zeros to at least two characters.
pub open spec fn decimal_pad2(n: nat) -> Seq<char> {
    if n < 10 { seq!['0'] + decimal(n) } else { decimal(n) }
}

fn digit_to_char(d: u64) -> (c: char)
    requires
        d < 10,
    ensures
        c == digit_char(d as int),
{
    if d == 0 { '0' } else if d == 1 { '1' } else if d == 2 { '2' } else if d == 3 { '3' }
    else if d == 4 { '4' } else if d == 5 { '5' } else if d == 6 { '6' } else if d == 7 { '7' }
    else if d == 8 { '8' } else { '9' }
}

/// Appends the decimal rendering of `n`.
pub fn push_decimal(s: &mut String, n: u64)
    ensures
        final(s)@ == old(s)@ + decimal(n as nat),
    decreases n,
{
    if n >= 10 {
        push_decimal(s, n / 10);
    }
    push_char(s, digit_to_char(n % 10));
    proof {
        if n >= 10 {
            assert(old(s)@ + decimal((n / 10) as nat) + seq![digit_char((n % 10) as int)]
                =~= old(s)@ + decimal(n as nat));
        } else {
            assert(old(s)@ + seq![digit_char((n % 10) as int)] =~= old(s)@ + decimal(n as nat));
        }
    }
}

/// Appends the decimal rendering of `n`, zero-padded to two characters.
pub fn push_decimal_pad2(s: &mut String, n: u64)
    ensures
        final(s)@ == old(s)@ + decimal_pad2(n as nat),
{
    if n < 10 {
        push_char(s, '0');
    }
    push_decimal(s, n);
    proof {
        if n < 10 {
            assert(old(s)@.push('0') + decimal(n as nat) =~= old(s)@ + decimal_pad2(n as nat));
        }
    }
}

/// Decimal rendering of an integer, with a leading `-` when negative.
pub open spec fn signed_decimal(i: int) -> Seq<char> {
    if i < 0 { seq!['-'] + decimal((-i) as nat) } else { decimal(i as nat) }
}

/// Appends the decimal rendering of `i`.
pub fn push_signed_decimal(s: &mut String, i: i64)
    ensures
        final(s)@ == old(s)@ + signed_decimal(i as int),
{
    if i < 0 {
        push_char(s, '-');
        let m: u64 = if i == i64::MIN { 9223372036854775808u64 } else { (-i) as u64 };
        push_decimal(s, m);
        proof {
            assert(old(s)@.push('-') + decimal(m as nat) =~= old(s)@ + signed_decimal(i as int));
        }
    } else {
        push_decimal(s, i as u64);
    }
}

/// Value of a sequence of decimal digits (most significant first).
pub open spec fn digits_value(s: Seq<char>) -> nat
    decreases s.len(),
{
    if s.len() == 0 {
        0
    } else {
        (digits_value(s.drop_last()) * 10 + digit_value(s.last())) as nat
    }
}

pub open spec fn all_digits(s: Seq<char>) -> bool {
    forall|i: int| 0 <= i < s.len() ==> is_digit(#[trigger] s[i])
}

/// The text an unsigned integer `parse` reads digits from: an optional
/// leading `+` is dropped.
pub open spec fn unsigned_digits(s: Seq<char>) -> Seq<char> {
    if s.len() > 0 && s[0] == '+' { s.drop_first() } else { s }
}

/// What `str::parse` gives for an unsigned integer type whose largest value
/// is `max`: an optional `+`, then at least one decimal digit, the value not
/// above `max`.
pub open spec fn parse_unsigned_spec(s: Seq<char>, max: nat) -> Option<nat> {
    let d = unsigned_digits(s);
    if d.len() > 0 && all_digits(d) && digits_value(d) <= max {
        Some(digits_value(d))
    } else {
        None
    }
}

/// What `str::parse` gives for a signed integer type with range
/// `-(max + 1)..=max`: an optional sign, then at least one decimal digit.
pub open spec fn parse_signed_spec(s: Seq<char>, max: nat) -> Option<int> {
    if s.len() > 0 && s[0] == '-' {
        let d = s.drop_first();
        if d.len() > 0 && all_digits(d) && digits_value(d) <= max + 1 {
            Some(-(digits_value(d) as int))
        } else {
            None
        }
    } else {
        match parse_unsigned_spec(s, max) {
            Some(v) => Some(v as int),
            None => None,
        }
    }
}

proof fn lemma_digits_value_push(s: Seq<char>, c: char)
    requires
        is_digit(c),
    ensures
        digits_value(s.push(c)) == digits_value(s) * 10 + digit_value(c),
{
    assert(s.push(c).drop_last() =~= s);
}

/// Reads a run of decimal digits, saturating at `cap`.
/// Returns `None` when some character is not a digit or the run is empty.
fn read_digits(s: &Vec<char>, start: usize, cap: u128) -> (r: Option<u128>)
    requires
        start <= s@.len(),
        1 <= cap <= u64::MAX as u128 + 1,
    ensures
        ({
            let d = s@.subrange(start as int, s@.len() as int);
            match r {
                Some(v) => d.len() > 0 && all_digits(d) && v == (if digits_value(d) < cap {
                    digits_value(d) as int
                } else {
                    cap as int
                }),
                None => !(d.len() > 0 && all_digits(d)),
            }
        }),
{
    if start == s.len() {
        return None;
    }
    let mut acc: u128 = 0;
    let mut i = start;
    while i < s.len()
        invariant
            start <= i <= s@.len(),
            1 <= cap <= u64::MAX as u128 + 1,
            all_digits(s@.subrange(start as int, i as int)),
            acc as int == (if digits_value(s@.subrange(start as int, i as int)) < cap {
                digits_value(s@.subrange(start as int, i as int)) as int
            } else {
                cap as int
            }),
        decreases s@.len() - i,
    {
        let c = s[i];
        if !('0' <= c && c <= '9') {
            proof {
                let d = s@.subrange(start as int, s@.len() as int);
                assert(d[i - start] == c);
            }
            return None;
        }
        let dv = (c as u128) - ('0' as u128);
        let ghost pre = s@.subrange(start as int, i as int);
        proof {
            assert(s@.subrange(start as int, i + 1) =~= pre.push(c));
            lemma_digits_value_push(pre, c);
        }
        if acc >= cap {
            proof {
                assert(digits_value(pre) * 10 + digit_value(c) >= cap) by (nonlinear_arith)
                    requires digits_value(pre) >= cap, digit_value(c) >= 0, cap >= 1;
            }
        } else {
            proof {
                assert(acc * 10 + dv < u128::MAX) by (nonlinear_arith)
                    requires acc < cap, cap <= u64::MAX as u128 + 1, dv <= 9;
            }
            let next = acc * 10 + dv;
            acc = if next >= cap { cap } else { next };
        }
        i = i + 1;
    }
    proof {
        assert(s@.subrange(start as int, i as int) =~= s@.subrange(start as int, s@.len() as int));
    }
    Some(acc)
}

/// Parses `cs[from..to]` as an unsigned integer the way `str::parse` does
/// for a type whose largest value is `max`.
pub fn parse_unsigned_range(cs: &Vec<char>, from: usize, to: usize, max: u64) -> (r: Option<u64>)
    requires
        from <= to <= cs@.len(),
    ensures
        match parse_unsigned_spec(cs@.subrange(from as int, to as int), max as nat) {
            Some(v) => r == Some(v as u64),
            None => r is None,
        },
{
    let ghost t = cs@.subrange(from as int, to as int);
    let start: usize = if from < to && cs[from] == '+' { from + 1 } else { from };
    let mut part: Vec<char> = Vec::new();
    let mut k = start;
    while k < to
        invariant
            start <= k <= to <= cs@.len(),
            part@ == cs@.subrange(start as int, k as int),
        decreases to - k,
    {
        part.push(cs[k]);
        proof {
            assert(cs@.subrange(start as int, k + 1) =~= cs@.subrange(start as int, k as int).push(
                cs@[k as int],
            ));
        }
        k = k + 1;
    }
    proof {
        assert(unsigned_digits(t) =~= part@.subrange(0, part@.len() as int));
    }
    match read_digits(&part, 0, max as u128 + 1) {
        Some(v) => if v <= max as u128 { Some(v as u64) } else { None },
        None => None,
    }
}

/// Parses `cs[from..to]` as a signed integer the way `str::parse` does for a
/// type with range `-(max + 1)..=max`.
pub fn parse_signed_range(cs: &Vec<char>, from: usize, to: usize, max: u64) -> (r: Option<i128>)
    requires
        from <= to <= cs@.len(),
        max < u64::MAX,
    ensures
        match parse_signed_spec(cs@.subrange(from as int, to as int), max as nat) {
            Some(v) => r == Some(v as i128),
            None => r is None,
        },
{
    let ghost t = cs@.subrange(from as int, to as int);
    if from < to && cs[from] == '-' {
        proof {
            assert(t.drop_first() =~= cs@.subrange(from + 1, to as int));
        }
        if from + 1 < to && cs[from + 1] == '+' {
            proof {
                assert(!is_digit(t.drop_first()[0]));
            }
            return None;
        }
        match parse_unsigned_range(cs, from + 1, to, max + 1) {
            Some(v) => Some(-(v as i128)),
            None => None,
        }
    } else {
        match parse_unsigned_range(cs, from, to, max) {
            Some(v) => Some(v as i128),
            None => None,
        }
    }
}

/// Parses an unsigned decimal integer the way `str::parse` does for an
/// unsigned type whose largest value is `max`.
pub fn parse_unsigned(s: &str, max: u64) -> (r: Option<u64>)
    ensures
        match parse_unsigned_spec(s@, max as nat) {
            Some(v) => r == Some(v as u64),
            None => r is None,
        },
{
    let cs = chars_of(s);
    proof {
        assert(cs@.subrange(0, cs@.len() as int) =~= s@);
    }
    parse_unsigned_range(&cs, 0, cs.len(), max)
}

/// Whether a non-ASCII character has the Unicode `Alphabetic` property or
/// a numeric general category (`Nd`, `Nl`, `No`).
pub uninterp spec fn unicode_alphanumeric(c: char) -> bool;

/// An ASCII letter or digit.
pub open spec fn ascii_alphanumeric(c: char) -> bool {
    ('0' <= c && c <= '9') || ('a' <= c && c <= 'z') || ('A' <= c && c <= 'Z')
}

/// What `char::is_alphanumeric` answers: exactly the letters and digits
/// among ASCII characters, and the Unicode properties beyond.
pub open spec fn alphanumeric(c: char) -> bool {
    if (c as u32) < 128 {
        ascii_alphanumeric(c)
    } else {
        unicode_alphanumeric(c)
    }
}

/// The characters with the Unicode `White_Space` property.
pub open spec fn unicode_whitespace(c: char) -> bool {
    let n = c as u32;
    ||| 0x9 <= n && n <= 0xd
    ||| n == 0x20
    ||| n == 0x85
    ||| n == 0xa0
    ||| n == 0x1680
    ||| 0x2000 <= n && n <= 0x200a
    ||| n == 0x2028
    ||| n == 0x2029
    ||| n == 0x202f
    ||| n == 0x205f
    ||| n == 0x3000
}

/// Unicode lower-case mapping of a text.
pub uninterp spec fn unicode_lowercase(s: Seq<char>) -> Seq<char>;

/// Trusted: `char::is_alphanumeric`, which answers whether the character is
/// alphabetic or numeric in Unicode's sense. Among ASCII characters these
/// are exactly the letters and the digits; beyond ASCII the answer is named,
/// not stated.
#[verifier::external_body]
pub fn is_alphanumeric(c: char) -> (r: bool)
    ensures
        (c as u32) < 128 ==> r == ascii_alphanumeric(c),
        (c as u32) >= 128 ==> r == unicode_alphanumeric(c),
{
    c.is_alphanumeric()
}

/// Trusted: `char::is_whitespace`, which answers whether the character has
/// the Unicode `White_Space` property; that set is stated in full.
#[verifier::external_body]
pub fn is_whitespace(c: char) -> (r: bool)
    ensures
        r == unicode_whitespace(c),
{
    c.is_whitespace()
}

/// Trusted: `str::to_lowercase`; the result is named, not stated.
#[verifier::external_body]
pub fn to_lowercase(s: &str) -> (r: String)
    ensures
        r@ == unicode_lowercase(s@),
{
    s.to_lowercase()
}

/// `lit` occurs somewhere in `s`.
pub open spec fn contains_text(s: Seq<char>, lit: Seq<char>) -> bool {
    exists|k: int| 0 <= k && k + lit.len() <= s.len() && #[trigger] s.subrange(k, k + lit.len()) == lit
}

/// Whether `lit` occurs somewhere in `s`.
pub fn contains_chars(s: &Vec<char>, lit: &Vec<char>) -> (r: bool)
    ensures
        r == contains_text(s@, lit@),
{
    if lit.len() > s.len() {
        return false;
    }
    let n = s.len();
    let last = s.len() - lit.len();
    let mut k: usize = 0;
    while k <= last
        invariant
            n == s@.len(),
            last == s@.len() - lit@.len(),
            k <= last + 1,
            forall|j: int|
                0 <= j < k ==> #[trigger] s@.subrange(j, j + lit@.len()) != lit@,
        decreases last + 1 - k,
    {
        let mut t: usize = 0;
        let mut same = true;
        while t < lit.len()
            invariant
                t <= lit@.len(),
                n == s@.len(),
                k <= last,
                last == s@.len() - lit@.len(),
                same == forall|u: int| 0 <= u < t ==> s@[k + u] == lit@[u],
            decreases lit@.len() - t,
        {
            if s[k + t] != lit[t] {
                same = false;
            }
            t = t + 1;
        }
        if same {
            proof {
                assert(s@.subrange(k as int, k + lit@.len()) =~= lit@);
            }
            return true;
        }
        proof {
            let u = choose|u: int| 0 <= u < lit@.len() && s@[k + u] != lit@[u];
            assert(s@.subrange(k as int, k + lit@.len())[u] != lit@[u]);
        }
        if k == last {
            proof {
                assert forall|j: int| 0 <= j && j + lit@.len() <= s@.len() implies #[trigger] s@.subrange(
                    j,
                    j + lit@.len(),
                ) != lit@ by {
                    assert(j < k + 1);
                }
            }
            return false;
        }
        k = k + 1;
    }
    false
}

/// `suffix` ends `s`.
pub open spec fn ends_with_text(s: Seq<char>, suffix: Seq<char>) -> bool {
    suffix.len() <= s.len() && s.subrange(s.len() - suffix.len(), s.len() as int) == suffix
}

/// `prefix` begins `s`.
pub open spec fn starts_with_text(s: Seq<char>, prefix: Seq<char>) -> bool {
    prefix.len() <= s.len() && s.subrange(0, prefix.len() as int) == prefix
}

pub fn ends_with_chars(s: &Vec<char>, suffix: &Vec<char>) -> (r: bool)
    ensures
        r == ends_with_text(s@, suffix@),
{
    if suffix.len() > s.len() {
        return false;
    }
    let n = s.len();
    let off = s.len() - suffix.len();
    let mut t: usize = 0;
    while t < suffix.len()
        invariant
            n == s@.len(),
            t <= suffix@.len(),
            off == s@.len() - suffix@.len(),
            forall|u: int| 0 <= u < t ==> s@[off + u] == suffix@[u],
        decreases suffix@.len() - t,
    {
        if s[off + t] != suffix[t] {
            proof {
                assert(s@.subrange(off as int, s@.len() as int)[t as int] != suffix@[t as int]);
            }
            return false;
        }
        t = t + 1;
    }
    proof {
        assert(s@.subrange(off as int, s@.len() as int) =~= suffix@);
    }
    true
}

pub fn starts_with_chars(s: &Vec<char>, prefix: &Vec<char>) -> (r: bool)
    ensures
        r == starts_with_text(s@, prefix@),
{
    if prefix.len() > s.len() {
        return false;
    }
    let mut t: usize = 0;
    while t < prefix.len()
        invariant
            t <= prefix@.len() <= s@.len(),
            forall|u: int| 0 <= u < t ==> s@[u] == prefix@[u],
        decreases prefix@.len() - t,
    {
        if s[t] != prefix[t] {
            proof {
                assert(s@.subrange(0, prefix@.len() as int)[t as int] != prefix@[t as int]);
            }
            return false;
        }
        t = t + 1;
    }
    proof {
        assert(s@.subrange(0, prefix@.len() as int) =~= prefix@);
    }
    true
}

/// The texts of a list of strings.
pub open spec fn views(v: Seq<String>) -> Seq<Seq<char>> {
    v.map_values(|s: String| s@)
}

/// Owned copies of a list of string slices.
pub fn strings_of(items: &Vec<&str>) -> (r: Vec<String>)
    ensures
        r@.len() == items@.len(),
        forall|i: int| 0 <= i < items@.len() ==> (#[trigger] r@[i])@ == items@[i]@,
{
    let mut r: Vec<String> = Vec::new();
    let mut k: usize = 0;
    while k < items.len()
        invariant
            k <= items@.len(),
            r@.len() == k,
            forall|i: int| 0 <= i < k ==> (#[trigger] r@[i])@ == items@[i]@,
        decreases items@.len() - k,
    {
        r.push(String::from_str(items[k]));
        k = k + 1;
    }
    r
}

/// A string holding the given characters.
pub fn string_of_chars(cs: &Vec<char>) -> (r: String)
    ensures
        r@ == cs@,
{
    let mut r = String::new();
    let mut k: usize = 0;
    while k < cs.len()
        invariant
            k <= cs@.len(),
            r@ == cs@.take(k as int),
        decreases cs@.len() - k,
    {
        push_char(&mut r, cs[k]);
        proof {
            assert(cs@.take(k + 1) =~= cs@.take(k as int).push(cs@[k as int]));
        }
        k = k + 1;
    }
    proof {
        assert(cs@.take(cs@.len() as int) =~= cs@);
    }
    r
}

} // verus!
