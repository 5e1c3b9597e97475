//! Character-level text helpers shared by the parsers and the renderers:
//! decimal and hexadecimal formatting, integer parsing with the rules of
//! Rust's `FromStr`, Unicode whitespace trimming and ASCII case mapping.
use vstd::prelude::*;
use vstd::utf8::*;
use vstd::slice::slice_subrange;

verus! {

/// Mathematical model of `str::from_utf8_lossy` on arbitrary bytes.
pub uninterp spec fn lossy_utf8(bytes: Seq<u8>) -> Seq<char>;

/// Mathematical model of `char::to_uppercase` (the full Unicode mapping).
pub uninterp spec fn unicode_uppercase(c: char) -> Seq<char>;

/// Calls `String::from_utf8_lossy`. Claimed: the result is a function of the
/// bytes alone, and on valid UTF-8 it is exactly the decoded text (the
/// replacement of invalid sequences by U+FFFD is left unsaid).
#[verifier::external_body]
pub(crate) fn utf8_lossy(bytes: &[u8]) -> (s: String)
    ensures
        s@ == lossy_utf8(bytes@),
        valid_utf8(bytes@) ==> s@ == decode_utf8(bytes@),
{
    String::from_utf8_lossy(bytes).into_owned()
}

/// Calls `char::to_uppercase` and collects the mapping. Claimed: the result
/// depends on the character alone, and an ASCII lower-case letter maps to the
/// single matching upper-case letter.
#[verifier::external_body]
pub(crate) fn char_uppercase(c: char) -> (s: String)
    ensures
        s@ == unicode_uppercase(c),
        'a' <= c <= 'z' ==> s@ == seq![((c as u32) - 32) as char],
{
    c.to_uppercase().collect::<String>()
}

/// Calls `String::push`. Claimed: the character is appended at the end.
#[verifier::external_body]
pub(crate) fn push_char(s: &mut String, c: char)
    ensures
        final(s)@ == old(s)@.push(c),
{
    s.push(c);
}

/// The characters of a string slice, collected into a vector.
pub fn chars_of(s: &str) -> (v: Vec<char>)
    ensures
        v@ == s@,
{
    let mut v: Vec<char> = Vec::new();
    for c in it: s.chars()
        invariant
            v@ == it.seq().take(it.index() as int),
    {
        v.push(c);
    }
    v
}

/// Appends a sequence of characters to a string.
pub fn push_chars(out: &mut String, cs: &[char])
    ensures
        final(out)@ == old(out)@ + cs@,
{
    let mut i: usize = 0;
    while i < cs.len()
        invariant
            i <= cs.len(),
            out@ == old(out)@ + cs@.take(i as int),
        decreases cs.len() - i,
    {
        push_char(out, cs[i]);
        assert(cs@.take(i + 1) == cs@.take(i as int).push(cs@[i as int]));
        i = i + 1;
    }
    assert(cs@.take(cs.len() as int) == cs@);
}

/// A string holding exactly the given characters.
pub fn string_from_chars(cs: &[char]) -> (s: String)
    ensures
        s@ == cs@,
{
    let mut s = String::new();
    push_chars(&mut s, cs);
    s
}

/// Whether two string slices hold the same characters.
pub fn str_eq(a: &str, b: &str) -> (r: bool)
    ensures
        r == (a@ == b@),
{
    let x = chars_of(a);
    let y = chars_of(b);
    chars_eq(&x, &y)
}

/// Whether two character slices are equal.
pub fn chars_eq(x: &[char], y: &[char]) -> (r: bool)
    ensures
        r == (x@ == y@),
{
    if x.len() != y.len() {
        return false;
    }
    let mut i: usize = 0;
    while i < x.len()
        invariant
            x.len() == y.len(),
            i <= x.len(),
            forall|j: int| 0 <= j < i ==> x@[j] == y@[j],
        decreases x.len() - i,
    {
        if x[i] != y[i] {
            return false;
        }
        i = i + 1;
    }
    assert(x@ == y@);
    true
}

/// The ASCII digit character for a value below ten.
pub open spec fn digit_char(d: int) -> char {
    (48 + d) as char
}

/// Decimal representation of a natural number, without leading zeros.
pub open spec fn decimal(n: nat) -> Seq<char>
    decreases n,
{
    if n < 10 {
        seq![digit_char(n as int)]
    } else {
        decimal(n / 10).push(digit_char((n % 10) as int))
    }
}

/// Decimal representation of an integer, with a leading '-' when negative.
pub open spec fn signed_decimal(n: int) -> Seq<char> {
    if n < 0 {
        seq!['-'] + decimal((-n) as nat)
    } else {
        decimal(n as nat)
    }
}

/// Appends the decimal representation of `n`.
pub fn push_u64(out: &mut String, n: u64)
    ensures
        final(out)@ == old(out)@ + decimal(n as nat),
    decreases n,
{
    if n >= 10 {
        push_u64(out, n / 10);
    }
    let d = (n % 10) as u32;
    let c = char_from_digit(d);
    push_char(out, c);
}

/// The ASCII digit for a value below ten.
pub(crate) fn char_from_digit(d: u32) -> (c: char)
    requires
        d < 10,
    ensures
        c == digit_char(d as int),
{
    match d {
        0 => '0',
        1 => '1',
        2 => '2',
        3 => '3',
        4 => '4',
        5 => '5',
        6 => '6',
        7 => '7',
        8 => '8',
        _ => '9',
    }
}

/// Appends the decimal representation of a signed number.
pub fn push_i64(out: &mut String, n: i64)
    ensures
        final(out)@ == old(out)@ + signed_decimal(n as int),
{
    if n < 0 {
        push_char(out, '-');
        let m: u64 = if n == i64::MIN {
            9223372036854775808u64
        } else {
            (-n) as u64
        };
        push_u64(out, m);
        assert(old(out)@ + signed_decimal(n as int) == old(out)@.push('-') + decimal(m as nat));
    } else {
        push_u64(out, n as u64);
    }
}

/// The decimal representation of a signed number as a new string.
pub fn i64_to_string(n: i64) -> (s: String)
    ensures
        s@ == signed_decimal(n as int),
{
    let mut s = String::new();
    push_i64(&mut s, n);
    s
}

/// The hexadecimal digit for a value below sixteen.
pub open spec fn hex_digit(d: int, upper: bool) -> char {
    if d < 10 {
        digit_char(d)
    } else if upper {
        (55 + d) as char
    } else {
        (87 + d) as char
    }
}

/// The `width` least significant hexadecimal digits of `n`, most significant
/// first (zero-padded), as `format!("{:0width$x}")` prints a value that fits.
pub open spec fn hex_fixed(n: nat, width: nat, upper: bool) -> Seq<char>
    decreases width,
{
    if width == 0 {
        seq![]
    } else {
        hex_fixed(n / 16, (width - 1) as nat, upper).push(hex_digit((n % 16) as int, upper))
    }
}

fn hex_char(d: u64, upper: bool) -> (c: char)
    requires
        d < 16,
    ensures
        c == hex_digit(d as int, upper),
{
    if d < 10 {
        char_from_digit(d as u32)
    } else {
        let code: u32 = if upper {
            55 + d as u32
        } else {
            87 + d as u32
        };
        match code {
            65 => 'A',
            66 => 'B',
            67 => 'C',
            68 => 'D',
            69 => 'E',
            70 => 'F',
            97 => 'a',
            98 => 'b',
            99 => 'c',
            100 => 'd',
            101 => 'e',
            _ => 'f',
        }
    }
}

/// Appends the `width` least significant hexadecimal digits of `n`.
pub fn push_hex(out: &mut String, n: u64, width: usize, upper: bool)
    ensures
        final(out)@ == old(out)@ + hex_fixed(n as nat, width as nat, upper),
    decreases width,
{
    if width > 0 {
        push_hex(out, n / 16, width - 1, upper);
        let c = hex_char(n % 16, upper);
        push_char(out, c);
    }
}

/// Whether a character is an ASCII decimal digit.
pub open spec fn is_digit(c: char) -> bool {
    '0' <= c <= '9'
}

/// Value of a sequence of ASCII digits, read left to right.
pub open spec fn digits_value(s: Seq<char>) -> nat
    decreases s.len(),
{
    if s.len() == 0 {
        0
    } else {
        digits_value(s.drop_last()) * 10 + ((s.last() as u32) - 48) as nat
    }
}

/// Whether a non-empty sequence consists of ASCII digits only.
pub open spec fn all_digits(s: Seq<char>) -> bool {
    s.len() > 0 && forall|i: int| 0 <= i < s.len() ==> is_digit(#[trigger] s[i])
}

/// The number that `str::parse` yields for an unsigned integer type, before
/// the range check: an optional '+' followed by one or more ASCII digits.
pub open spec fn parse_unsigned(s: Seq<char>) -> Option<nat> {
    let d = if s.len() > 0 && s[0] == '+' {
        s.drop_first()
    } else {
        s
    };
    if all_digits(d) {
        Some(digits_value(d))
    } else {
        None
    }
}

/// The number that `str::parse` yields for a signed integer type, before the
/// range check: an optional '+' or '-' followed by one or more ASCII digits.
pub open spec fn parse_signed(s: Seq<char>) -> Option<int> {
    if s.len() > 0 && s[0] == '-' {
        if all_digits(s.drop_first()) {
            Some(-(digits_value(s.drop_first()) as int))
        } else {
            None
        }
    } else {
        match parse_unsigned(s) {
            Some(v) => Some(v as int),
            None => None,
        }
    }
}

/// `s.parse::<usize>()`, as a partial function.
pub open spec fn parse_usize_spec(s: Seq<char>) -> Option<nat> {
    match parse_unsigned(s) {
        Some(v) => if v <= usize::MAX {
            Some(v)
        } else {
            None
        },
        None => None,
    }
}

/// `s.parse::<u64>()`, as a partial function.
pub open spec fn parse_u64_spec(s: Seq<char>) -> Option<nat> {
    match parse_unsigned(s) {
        Some(v) => if v <= u64::MAX {
            Some(v)
        } else {
            None
        },
        None => None,
    }
}

/// `s.parse::<i32>()`, as a partial function.
pub open spec fn parse_i32_spec(s: Seq<char>) -> Option<int> {
    match parse_signed(s) {
        Some(v) => if i32::MIN <= v <= i32::MAX {
            Some(v)
        } else {
            None
        },
        None => None,
    }
}

proof fn lemma_digits_value_prefix_monotone(s: Seq<char>, i: int, j: int)
    requires
        0 <= i <= j <= s.len(),
        forall|k: int| 0 <= k < s.len() ==> is_digit(#[trigger] s[k]),
    ensures
        digits_value(s.take(i)) <= digits_value(s.take(j)),
    decreases j - i,
{
    if i < j {
        lemma_digits_value_prefix_monotone(s, i, j - 1);
        assert(s.take(j).drop_last() == s.take(j - 1));
        assert(s.take(j).last() == s[j - 1]);
    }
}

/// Reads the value of a run of ASCII digits, provided it does not exceed
/// `limit`.
fn digits_up_to(d: &[char], limit: u64) -> (r: Option<u64>)
    requires
        limit >= 9,
    ensures
        match r {
            Some(v) => all_digits(d@) && v == digits_value(d@) && v <= limit,
            None => !all_digits(d@) || digits_value(d@) > limit,
        },
{
    if d.len() == 0 {
        return None;
    }
    let mut acc: u64 = 0;
    let mut i: usize = 0;
    while i < d.len()
        invariant
            i <= d.len(),
            d.len() > 0,
            forall|k: int| 0 <= k < i ==> is_digit(#[trigger] d@[k]),
            acc == digits_value(d@.take(i as int)),
            acc <= limit,
            limit >= 9,
        decreases d.len() - i,
    {
        let c = d[i];
        if !('0' <= c && c <= '9') {
            return None;
        }
        let digit = (c as u32 - 48) as u64;
        assert(d@.take(i + 1).drop_last() == d@.take(i as int));
        if acc > (limit - digit) / 10 {
            proof {
                let ghost full = d@;
                if all_digits(full) {
                    assert(digits_value(full.take(i + 1)) > limit) by (nonlinear_arith)
                        requires
                            digits_value(full.take(i + 1)) == acc * 10 + digit,
                            acc > (limit - digit) / 10,
                            digit <= limit,
                            digit < 10,
                    {
                    }
                    lemma_digits_value_prefix_monotone(full, i + 1, full.len() as int);
                    assert(full.take(full.len() as int) == full);
                }
            }
            return None;
        }
        assert(acc * 10 + digit <= limit) by (nonlinear_arith)
            requires
                acc <= (limit - digit) / 10,
                digit <= limit,
        ;
        acc = acc * 10 + digit;
        i = i + 1;
    }
    assert(d@.take(d.len() as int) == d@);
    Some(acc)
}

/// `s.parse::<usize>()` on a run of characters.
pub fn parse_usize(s: &[char]) -> (r: Option<usize>)
    ensures
        match r {
            Some(v) => parse_usize_spec(s@) == Some(v as nat),
            None => parse_usize_spec(s@) is None,
        },
{
    let d: &[char] = if s.len() > 0 && s[0] == '+' {
        slice_skip_first(s)
    } else {
        s
    };
    match digits_up_to(d, usize::MAX as u64) {
        Some(v) => Some(v as usize),
        None => None,
    }
}

/// `s.parse::<u64>()` on a run of characters.
pub fn parse_u64(s: &[char]) -> (r: Option<u64>)
    ensures
        match r {
            Some(v) => parse_u64_spec(s@) == Some(v as nat),
            None => parse_u64_spec(s@) is None,
        },
{
    let d: &[char] = if s.len() > 0 && s[0] == '+' {
        slice_skip_first(s)
    } else {
        s
    };
    digits_up_to(d, u64::MAX)
}

/// `s.parse::<i32>()` on a run of characters.
pub fn parse_i32(s: &[char]) -> (r: Option<i32>)
    ensures
        match r {
            Some(v) => parse_i32_spec(s@) == Some(v as int),
            None => parse_i32_spec(s@) is None,
        },
{
    if s.len() > 0 && s[0] == '-' {
        let d = slice_skip_first(s);
        match digits_up_to(d, 2147483648u64) {
            Some(v) => Some((0 - (v as i64)) as i32),
            None => None,
        }
    } else {
        let d: &[char] = if s.len() > 0 && s[0] == '+' {
            slice_skip_first(s)
        } else {
            s
        };
        match digits_up_to(d, 2147483647u64) {
            Some(v) => Some(v as i32),
            None => None,
        }
    }
}

/// The slice without its first element.
pub fn slice_skip_first(s: &[char]) -> (r: &[char])
    requires
        s.len() > 0,
    ensures
        r@ == s@.drop_first(),
{
    slice_subrange(s, 1, s.len())
}

/// Whether `char::is_whitespace` holds: the Unicode `White_Space` property.
pub open spec fn is_whitespace(c: char) -> bool {
    ||| '\u{9}' <= c <= '\u{d}'
    ||| c == ' '
    ||| c == '\u{85}'
    ||| c == '\u{a0}'
    ||| c == '\u{1680}'
    ||| '\u{2000}' <= c <= '\u{200a}'
    ||| c == '\u{2028}'
    ||| c == '\u{2029}'
    ||| c == '\u{202f}'
    ||| c == '\u{205f}'
    ||| c == '\u{3000}'
}

/// Executable form of `is_whitespace`.
pub fn char_is_whitespace(c: char) -> (r: bool)
    ensures
        r == is_whitespace(c),
{
    ('\u{9}' <= c && c <= '\u{d}') || c == ' ' || c == '\u{85}' || c == '\u{a0}' || c
        == '\u{1680}' || ('\u{2000}' <= c && c <= '\u{200a}') || c == '\u{2028}' || c
        == '\u{2029}' || c == '\u{202f}' || c == '\u{205f}' || c == '\u{3000}'
}

/// Number of leading whitespace characters.
pub open spec fn leading_ws(s: Seq<char>) -> nat
    decreases s.len(),
{
    if s.len() > 0 && is_whitespace(s[0]) {
        1 + leading_ws(s.drop_first())
    } else {
        0
    }
}

/// Number of trailing whitespace characters.
pub open spec fn trailing_ws(s: Seq<char>) -> nat
    decreases s.len(),
{
    if s.len() > 0 && is_whitespace(s.last()) {
        1 + trailing_ws(s.drop_last())
    } else {
        0
    }
}

/// `str::trim`: the text without leading and trailing whitespace.
pub open spec fn trim(s: Seq<char>) -> Seq<char> {
    let a = s.skip(leading_ws(s) as int);
    a.take(a.len() - trailing_ws(a))
}

proof fn lemma_leading_ws(s: Seq<char>, i: int)
    requires
        0 <= i <= s.len(),
        forall|k: int| 0 <= k < i ==> is_whitespace(#[trigger] s[k]),
        i == s.len() || !is_whitespace(s[i]),
    ensures
        leading_ws(s) == i,
    decreases i,
{
    if i > 0 {
        lemma_leading_ws(s.drop_first(), i - 1);
    }
}

proof fn lemma_trailing_ws(s: Seq<char>, i: int)
    requires
        0 <= i <= s.len(),
        forall|k: int| s.len() - i <= k < s.len() ==> is_whitespace(#[trigger] s[k]),
        i == s.len() || !is_whitespace(s[s.len() - i - 1]),
    ensures
        trailing_ws(s) == i,
    decreases i,
{
    if i > 0 {
        lemma_trailing_ws(s.drop_last(), i - 1);
    }
}

/// `str::trim` on a run of characters.
pub fn trim_chars(s: &[char]) -> (r: Vec<char>)
    ensures
        r@ == trim(s@),
{
    let mut start: usize = 0;
    while start < s.len() && char_is_whitespace(s[start])
        invariant
            start <= s.len(),
            forall|k: int| 0 <= k < start ==> is_whitespace(#[trigger] s@[k]),
        decreases s.len() - start,
    {
        start = start + 1;
    }
    proof {
        lemma_leading_ws(s@, start as int);
    }
    let mut end: usize = s.len();
    while end > start && char_is_whitespace(s[end - 1])
        invariant
            start <= end <= s.len(),
            forall|k: int| end <= k < s.len() ==> is_whitespace(#[trigger] s@[k]),
        decreases end,
    {
        end = end - 1;
    }
    proof {
        let a = s@.skip(start as int);
        lemma_trailing_ws(a, (s.len() - end) as int);
    }
    let mut r: Vec<char> = Vec::new();
    let mut i: usize = start;
    while i < end
        invariant
            start <= i <= end <= s.len(),
            r@ == s@.subrange(start as int, i as int),
        decreases end - i,
    {
        r.push(s[i]);
        i = i + 1;
    }
    assert(r@ == trim(s@));
    r
}

/// ASCII upper-casing of a single character.
pub open spec fn ascii_upper(c: char) -> char {
    if 'a' <= c <= 'z' {
        ((c as u32) - 32) as char
    } else {
        c
    }
}

/// Executable form of `ascii_upper`.
pub fn char_ascii_upper(c: char) -> (r: char)
    ensures
        r == ascii_upper(c),
{
    if 'a' <= c && c <= 'z' {
        let code = (c as u32) - 32;
        char_from_ascii_upper(code)
    } else {
        c
    }
}

pub(crate) fn char_from_ascii_upper(code: u32) -> (c: char)
    requires
        65 <= code <= 90,
    ensures
        c == code as char,
{
    match code {
        65 => 'A',
        66 => 'B',
        67 => 'C',
        68 => 'D',
        69 => 'E',
        70 => 'F',
        71 => 'G',
        72 => 'H',
        73 => 'I',
        74 => 'J',
        75 => 'K',
        76 => 'L',
        77 => 'M',
        78 => 'N',
        79 => 'O',
        80 => 'P',
        81 => 'Q',
        82 => 'R',
        83 => 'S',
        84 => 'T',
        85 => 'U',
        86 => 'V',
        87 => 'W',
        88 => 'X',
        89 => 'Y',
        _ => 'Z',
    }
}

/// `capitalize`: the Unicode upper-case mapping of the first character
/// followed by the rest unchanged; empty text stays empty.
pub open spec fn capitalized(s: Seq<char>) -> Seq<char> {
    if s.len() == 0 {
        seq![]
    } else {
        unicode_uppercase(s[0]) + s.drop_first()
    }
}

/// Upper-cases the first character of a text.
pub fn capitalize(value: &str) -> (r: String)
    ensures
        r@ == capitalized(value@),
{
    let cs = chars_of(value);
    if cs.len() == 0 {
        return String::new();
    }
    let mut r = char_uppercase(cs[0]);
    let rest = slice_skip_first(cs.as_slice());
    push_chars(&mut r, rest);
    r
}

} // verus!
