//! HTTP-facing pieces that compute: status lines, route errors and redirects,
//! form decoding, URL encoding and request-head parsing.
use vstd::prelude::*;
use vstd::utf8::{encode_utf8, encode_utf8_decode_utf8, encode_utf8_valid_utf8};
use crate::piet::token_views;
use crate::text::{
    chars_eq, chars_of, char_ascii_upper, ascii_upper, lossy_utf8, push_char, push_chars, push_hex,
    hex_digit, hex_fixed, string_from_chars, trim, trim_chars, utf8_lossy,
};
use crate::track::{split_chars, split_on};

verus! {

/// The HTTP statuses the game answers with.
#[derive(Clone, Copy, Debug, PartialEq, Eq, Structural)]
pub enum Status {
    Success,
    SeeOther,
    BadRequest,
    Forbidden,
    NotFound,
    Conflict,
    PayloadTooLarge,
    UriTooLong,
    InternalServerError,
    ServiceUnavailable,
}

/// The status line text of a status.
pub open spec fn status_text(s: Status) -> Seq<char> {
    match s {
        Status::Success => "200 OK"@,
        Status::SeeOther => "303 See Other"@,
        Status::BadRequest => "400 Bad Request"@,
        Status::Forbidden => "403 Forbidden"@,
        Status::NotFound => "404 Not Found"@,
        Status::Conflict => "409 Conflict"@,
        Status::PayloadTooLarge => "413 Payload Too Large"@,
        Status::UriTooLong => "414 URI Too Long"@,
        Status::InternalServerError => "500 Internal Server Error"@,
        Status::ServiceUnavailable => "503 Service Unavailable"@,
    }
}

impl Status {
    /// The status line text, such as `404 Not Found`.
    pub fn text(&self) -> (r: &'static str)
        ensures
            r@ == status_text(*self),
    {
        match self {
            Status::Success => "200 OK",
            Status::SeeOther => "303 See Other",
            Status::BadRequest => "400 Bad Request",
            Status::Forbidden => "403 Forbidden",
            Status::NotFound => "404 Not Found",
            Status::Conflict => "409 Conflict",
            Status::PayloadTooLarge => "413 Payload Too Large",
            Status::UriTooLong => "414 URI Too Long",
            Status::InternalServerError => "500 Internal Server Error",
            Status::ServiceUnavailable => "503 Service Unavailable",
        }
    }
}

/// A refused request: the status and the message shown to the player.
#[derive(Clone, Debug)]
pub struct RouteError {
    pub status: Status,
    pub message: String,
}

/// Whether a route error has the given status and message.
pub open spec fn is_error(e: RouteError, status: Status, message: Seq<char>) -> bool {
    e.status == status && e.message@ == message
}

/// Builds a route error from a status and a literal message.
pub fn route_error(status: Status, message: &str) -> (e: RouteError)
    ensures
        is_error(e, status, message@),
{
    RouteError { status, message: message.to_owned() }
}

/// The error for a request that finds the game state unavailable.
pub fn internal_error() -> (e: RouteError)
    ensures
        is_error(e, Status::InternalServerError, "Game state is temporarily unavailable."@),
{
    route_error(Status::InternalServerError, "Game state is temporarily unavailable.")
}

// ---------------------------------------------------------------------------
// URL decoding and encoding
// ---------------------------------------------------------------------------

/// The value of an ASCII hexadecimal digit.
pub open spec fn hex_value_of(b: u8) -> Option<u8> {
    if 48 <= b <= 57 {
        Some((b - 48) as u8)
    } else if 97 <= b <= 102 {
        Some((b - 97 + 10) as u8)
    } else if 65 <= b <= 70 {
        Some((b - 65 + 10) as u8)
    } else {
        None
    }
}

/// The value of an ASCII hexadecimal digit.
pub fn hex_value(byte: u8) -> (r: Option<u8>)
    ensures
        r == hex_value_of(byte),
{
    if 48u8 <= byte && byte <= 57u8 {
        Some(byte - 48u8)
    } else if 97u8 <= byte && byte <= 102u8 {
        Some(byte - 97u8 + 10)
    } else if 65u8 <= byte && byte <= 70u8 {
        Some(byte - 65u8 + 10)
    } else {
        None
    }
}

/// Form decoding of bytes: '+' becomes a space, `%` with two hexadecimal
/// digits becomes that byte, every other byte is kept.
pub open spec fn percent_decode(b: Seq<u8>) -> Seq<u8>
    decreases b.len(),
{
    if b.len() == 0 {
        seq![]
    } else if b[0] == 43 {
        seq![32u8] + percent_decode(b.drop_first())
    } else if b[0] == 37 && 2 < b.len() && hex_value_of(b[1]) is Some && hex_value_of(b[2]) is Some {
        seq![(hex_value_of(b[1])->0 * 16 + hex_value_of(b[2])->0) as u8] + percent_decode(b.skip(3))
    } else {
        seq![b[0]] + percent_decode(b.drop_first())
    }
}

/// The text a form-encoded value stands for.
pub open spec fn url_decoded(value: Seq<char>) -> Seq<char> {
    lossy_utf8(percent_decode(encode_utf8(value)))
}

/// Decodes a form-encoded value. Decoding undoes `url_encode`: the
/// encoding of any text decodes to that text.
pub fn url_decode(value: &str) -> (s: String)
    ensures
        s@ == url_decoded(value@),
        forall|t: Seq<char>| #[trigger] url_encoded(encode_utf8(t)) == value@ ==> s@ == t,
{
    let bytes = value.as_bytes();
    let mut output: Vec<u8> = Vec::new();
    let mut index: usize = 0;
    assert(bytes@.skip(0) == bytes@);
    assert(output@ + percent_decode(bytes@) == percent_decode(bytes@));
    while index < bytes.len()
        invariant
            index <= bytes@.len(),
            bytes@ == encode_utf8(value@),
            output@ + percent_decode(bytes@.skip(index as int)) == percent_decode(bytes@),
        decreases bytes.len() - index,
    {
        let ghost rest = bytes@.skip(index as int);
        let ghost before = output@;
        assert(rest.drop_first() == bytes@.skip(index + 1));
        let byte = bytes[index];
        if byte == 43u8 {
            output.push(32u8);
            index = index + 1;
            assert(before + (seq![32u8] + percent_decode(rest.drop_first())) == output@
                + percent_decode(bytes@.skip(index as int)));
        } else if byte == 37u8 && bytes.len() - index > 2 {
            let high = hex_value(bytes[index + 1]);
            let low = hex_value(bytes[index + 2]);
            if high.is_some() && low.is_some() {
                let h = high.unwrap();
                let l = low.unwrap();
                output.push(h * 16 + l);
                assert(rest.skip(3) == bytes@.skip(index + 3));
                index = index + 3;
                assert(before + (seq![(h * 16 + l) as u8] + percent_decode(rest.skip(3)))
                    == output@ + percent_decode(bytes@.skip(index as int)));
            } else {
                output.push(byte);
                index = index + 1;
                assert(before + (seq![byte] + percent_decode(rest.drop_first())) == output@
                    + percent_decode(bytes@.skip(index as int)));
            }
        } else {
            output.push(byte);
            index = index + 1;
            assert(before + (seq![byte] + percent_decode(rest.drop_first())) == output@
                + percent_decode(bytes@.skip(index as int)));
        }
    }
    assert(bytes@.skip(index as int) == Seq::<u8>::empty());
    assert(output@ == percent_decode(bytes@));
    let s = utf8_lossy(output.as_slice());
    proof {
        assert forall|t: Seq<char>| #[trigger] url_encoded(encode_utf8(t)) == value@ implies s@
            == t by {
            let b = encode_utf8(t);
            lemma_encoded_text_bytes(b);
            lemma_decode_encoded(b);
            encode_utf8_valid_utf8(t);
            encode_utf8_decode_utf8(t);
        }
    }
    s
}

/// The hexadecimal digit byte for a value below sixteen (upper case).
pub open spec fn hex_byte(d: nat) -> u8 {
    if d < 10 {
        (48 + d) as u8
    } else {
        (55 + d) as u8
    }
}

/// The bytes `encode_byte` writes for one byte.
pub open spec fn byte_code(x: u8) -> Seq<u8> {
    if url_safe(x) {
        seq![x]
    } else {
        seq![37u8, hex_byte(x as nat / 16), hex_byte(x as nat % 16)]
    }
}

/// The bytes of the URL encoding of a run of bytes.
pub open spec fn encoded_bytes(b: Seq<u8>) -> Seq<u8>
    decreases b.len(),
{
    if b.len() == 0 {
        seq![]
    } else {
        encoded_bytes(b.drop_last()) + byte_code(b.last())
    }
}

proof fn lemma_encode_utf8_concat(a: Seq<char>, b: Seq<char>)
    ensures
        encode_utf8(a + b) == encode_utf8(a) + encode_utf8(b),
    decreases a.len(),
{
    if a.len() > 0 {
        assert((a + b).drop_first() == a.drop_first() + b);
        assert((a + b)[0] == a[0]);
        lemma_encode_utf8_concat(a.drop_first(), b);
    } else {
        assert(a + b == b);
    }
}

proof fn lemma_ascii_char(c: char)
    requires
        (c as u32) < 128,
    ensures
        encode_utf8(seq![c]) == seq![(c as u32) as u8],
{
    let v = c as u32;
    assert((v & 0x7F) as u8 == v as u8) by (bit_vector)
        requires
            v < 128,
    ;
    let one = seq![c];
    assert(one.drop_first() == Seq::<char>::empty());
    assert(one[0] == c);
    assert(vstd::utf8::has_width_1_encoding(v));
    assert(vstd::utf8::encode_scalar(v) == seq![(v & 0x7F) as u8]);
    assert(encode_utf8(one) == vstd::utf8::encode_scalar(v) + encode_utf8(one.drop_first()));
    assert(encode_utf8(Seq::<char>::empty()) == Seq::<u8>::empty());
}

proof fn lemma_encode_one_byte(x: u8)
    ensures
        encode_utf8(encode_byte(x)) == byte_code(x),
{
    if url_safe(x) {
        lemma_ascii_char(x as char);
    } else {
        let hi = (x as nat / 16) as nat;
        let lo = (x as nat % 16) as nat;
        let h = hex_fixed(x as nat, 2, true);
        assert(hex_fixed(x as nat / 16, 1, true) == hex_fixed((x as nat / 16) / 16, 0, true).push(
            hex_digit(((x as nat / 16) % 16) as int, true),
        ));
        assert((x as nat / 16) % 16 == hi);
        assert(h == seq![hex_digit(hi as int, true), hex_digit(lo as int, true)]);
        let c1 = hex_digit(hi as int, true);
        let c2 = hex_digit(lo as int, true);
        assert((c1 as u32) < 128 && (c1 as u32) as u8 == hex_byte(hi));
        assert((c2 as u32) < 128 && (c2 as u32) as u8 == hex_byte(lo));
        lemma_ascii_char('%');
        lemma_ascii_char(c1);
        lemma_ascii_char(c2);
        assert(encode_byte(x) == seq!['%'] + (seq![c1] + seq![c2]));
        lemma_encode_utf8_concat(seq![c1], seq![c2]);
        lemma_encode_utf8_concat(seq!['%'], seq![c1] + seq![c2]);
        assert(byte_code(x) == seq![37u8] + (seq![hex_byte(hi)] + seq![hex_byte(lo)]));
    }
}

/// The text `url_encode` produces is the encoding's bytes, character for
/// byte.
proof fn lemma_encoded_text_bytes(b: Seq<u8>)
    ensures
        encode_utf8(url_encoded(b)) == encoded_bytes(b),
    decreases b.len(),
{
    if b.len() > 0 {
        lemma_encoded_text_bytes(b.drop_last());
        lemma_encode_utf8_concat(url_encoded(b.drop_last()), encode_byte(b.last()));
        lemma_encode_one_byte(b.last());
    }
}

proof fn lemma_encoded_bytes_first(b: Seq<u8>)
    requires
        b.len() > 0,
    ensures
        encoded_bytes(b) == byte_code(b[0]) + encoded_bytes(b.drop_first()),
    decreases b.len(),
{
    if b.len() == 1 {
        assert(b.drop_last() == Seq::<u8>::empty());
        assert(b.drop_first() == Seq::<u8>::empty());
        assert(b.last() == b[0]);
    } else {
        lemma_encoded_bytes_first(b.drop_last());
        assert(b.drop_last()[0] == b[0]);
        assert(b.drop_last().drop_first() == b.drop_first().drop_last());
        assert(b.drop_first().last() == b.last());
    }
}

proof fn lemma_decode_one_byte(x: u8, rest: Seq<u8>)
    ensures
        percent_decode(byte_code(x) + rest) == seq![x] + percent_decode(rest),
{
    let all = byte_code(x) + rest;
    if url_safe(x) {
        assert(all[0] == x);
        assert(all.drop_first() == rest);
    } else {
        let hi = x as nat / 16;
        let lo = x as nat % 16;
        assert(all[0] == 37u8);
        assert(all[1] == hex_byte(hi));
        assert(all[2] == hex_byte(lo));
        assert(hex_value_of(hex_byte(hi)) == Some(hi as u8));
        assert(hex_value_of(hex_byte(lo)) == Some(lo as u8));
        assert(all.skip(3) == rest);
        assert((hi * 16 + lo) as u8 == x);
    }
}

/// Decoding the bytes of an encoding gives back the encoded bytes.
proof fn lemma_decode_encoded(b: Seq<u8>)
    ensures
        percent_decode(encoded_bytes(b)) == b,
    decreases b.len(),
{
    if b.len() > 0 {
        lemma_encoded_bytes_first(b);
        lemma_decode_one_byte(b[0], encoded_bytes(b.drop_first()));
        lemma_decode_encoded(b.drop_first());
        assert(seq![b[0]] + b.drop_first() == b);
    }
}

/// Whether a byte is sent unescaped in a URL: letters, digits, '-' and '_'.
pub open spec fn url_safe(b: u8) -> bool {
    (65 <= b <= 90) || (97 <= b <= 122) || (48 <= b <= 57) || b == 45 || b == 95
}

/// The URL encoding of one byte.
pub open spec fn encode_byte(b: u8) -> Seq<char> {
    if url_safe(b) {
        seq![b as char]
    } else {
        seq!['%'] + hex_fixed(b as nat, 2, true)
    }
}

/// The URL encoding of a run of bytes.
pub open spec fn url_encoded(b: Seq<u8>) -> Seq<char>
    decreases b.len(),
{
    if b.len() == 0 {
        seq![]
    } else {
        url_encoded(b.drop_last()) + encode_byte(b.last())
    }
}

/// Whether a character may appear in an encoding: an ASCII letter or digit,
/// '-', '_' or '%'.
pub open spec fn url_char(c: char) -> bool {
    ('A' <= c <= 'Z') || ('a' <= c <= 'z') || ('0' <= c <= '9') || c == '-' || c == '_' || c == '%'
}

/// An encoding holds only letters, digits, '-', '_' and '%': no space, '&',
/// '=', '?' or '+' that would change how a query reads.
pub proof fn law_url_encoded_characters(b: Seq<u8>)
    ensures
        forall|i: int| 0 <= i < url_encoded(b).len() ==> url_char(#[trigger] url_encoded(b)[i]),
    decreases b.len(),
{
    if b.len() > 0 {
        law_url_encoded_characters(b.drop_last());
        let x = b.last();
        let pre = url_encoded(b.drop_last());
        let tail = encode_byte(x);
        assert forall|i: int| 0 <= i < tail.len() implies url_char(#[trigger] tail[i]) by {
            if url_safe(x) {
                assert(tail[i] == x as char);
            } else {
                let hi = x as nat / 16;
                let lo = x as nat % 16;
                assert(hex_fixed(x as nat / 16, 1, true) == hex_fixed((x as nat / 16) / 16, 0, true).push(
                    hex_digit(((x as nat / 16) % 16) as int, true),
                ));
                assert((x as nat / 16) % 16 == hi);
                assert(tail == seq!['%'] + seq![hex_digit(hi as int, true), hex_digit(lo as int, true)]);
            }
        }
        assert forall|i: int| 0 <= i < url_encoded(b).len() implies url_char(#[trigger] url_encoded(b)[i]) by {
            if i < pre.len() {
                assert(url_encoded(b)[i] == pre[i]);
            } else {
                assert(url_encoded(b)[i] == tail[i - pre.len()]);
            }
        }
    }
}

/// Encodes text for a URL query: every UTF-8 byte other than letters,
/// digits, '-' and '_' becomes `%XX` with upper-case hexadecimal digits.
pub fn url_encode(value: &str) -> (s: String)
    ensures
        s@ == url_encoded(encode_utf8(value@)),
        forall|i: int| 0 <= i < s@.len() ==> url_char(#[trigger] s@[i]),
{
    proof {
        law_url_encoded_characters(encode_utf8(value@));
    }
    let bytes = value.as_bytes();
    let mut out = String::new();
    let mut i: usize = 0;
    while i < bytes.len()
        invariant
            i <= bytes@.len(),
            out@ == url_encoded(bytes@.take(i as int)),
        decreases bytes.len() - i,
    {
        let byte = bytes[i];
        if (65u8 <= byte && byte <= 90u8) || (97u8 <= byte && byte <= 122u8) || (48u8 <= byte && byte
            <= 57u8) || byte == 45u8 || byte == 95u8 {
            push_char(&mut out, byte as char);
        } else {
            push_char(&mut out, '%');
            push_hex(&mut out, byte as u64, 2, true);
        }
        assert(bytes@.take(i + 1).drop_last() == bytes@.take(i as int));
        i = i + 1;
    }
    assert(bytes@.take(bytes@.len() as int) == bytes@);
    out
}

// ---------------------------------------------------------------------------
// Forms
// ---------------------------------------------------------------------------

/// Position of the first `c` in a text, if any.
pub open spec fn first_of(p: Seq<char>, c: char) -> Option<int> {
    if exists|i: int| 0 <= i < p.len() && p[i] == c {
        Some(choose|i: int| 0 <= i < p.len() && p[i] == c && forall|j: int| 0 <= j < i ==> p[j] != c)
    } else {
        None
    }
}

/// The key and value of one `key=value` pair, still encoded.
pub open spec fn split_pair(p: Seq<char>) -> (Seq<char>, Seq<char>) {
    match first_of(p, '=') {
        Some(i) => (p.take(i), p.skip(i + 1)),
        None => (p, seq![]),
    }
}

/// The decoded pairs of a form body or query, in order, skipping empty
/// pieces between `&` separators.
pub open spec fn form_pairs(s: Seq<char>) -> Seq<(Seq<char>, Seq<char>)> {
    let pieces = split_on(s, '&', seq![]).filter(|p: Seq<char>| p.len() > 0);
    Seq::new(
        pieces.len(),
        |i: int| (url_decoded(split_pair(pieces[i]).0), url_decoded(split_pair(pieces[i]).1)),
    )
}

/// The value a form holds for a key: the last pair with that key wins.
pub open spec fn form_lookup(pairs: Seq<(Seq<char>, Seq<char>)>, key: Seq<char>) -> Option<Seq<char>>
    decreases pairs.len(),
{
    if pairs.len() == 0 {
        None
    } else if pairs.last().0 == key {
        Some(pairs.last().1)
    } else {
        form_lookup(pairs.drop_last(), key)
    }
}

/// Decoded form fields.
#[derive(Clone, Debug)]
pub struct Form {
    pub pairs: Vec<(String, String)>,
}

/// The decoded pairs of a form.
pub open spec fn form_view(f: Form) -> Seq<(Seq<char>, Seq<char>)> {
    Seq::new(f.pairs@.len(), |i: int| (f.pairs@[i].0@, f.pairs@[i].1@))
}

impl Form {
    /// The value for a key; when a key repeats, the last value wins.
    pub fn get(&self, key: &str) -> (r: Option<&String>)
        ensures
            match r {
                Some(v) => form_lookup(form_view(*self), key@) == Some(v@),
                None => form_lookup(form_view(*self), key@) is None,
            },
    {
        let mut i = self.pairs.len();
        assert(form_view(*self).take(i as int) == form_view(*self));
        while i > 0
            invariant
                i <= self.pairs@.len(),
                form_lookup(form_view(*self), key@) == form_lookup(form_view(*self).take(i as int), key@),
            decreases i,
        {
            let ghost pre = form_view(*self).take(i as int);
            assert(pre.last() == (self.pairs@[i - 1].0@, self.pairs@[i - 1].1@));
            assert(pre.drop_last() == form_view(*self).take(i - 1));
            if crate::text::str_eq(self.pairs[i - 1].0.as_str(), key) {
                return Some(&self.pairs[i - 1].1);
            }
            i = i - 1;
        }
        None
    }
}

/// Position of the first `c` in a run of characters.
pub fn find_char(p: &[char], c: char) -> (r: Option<usize>)
    ensures
        match r {
            Some(i) => first_of(p@, c) == Some(i as int) && i < p@.len(),
            None => first_of(p@, c) is None,
        },
{
    let mut i: usize = 0;
    while i < p.len()
        invariant
            i <= p@.len(),
            forall|j: int| 0 <= j < i ==> p@[j] != c,
        decreases p.len() - i,
    {
        if p[i] == c {
            proof {
                let k = first_of(p@, c)->0;
                assert(p@[i as int] == c);
                if k < i {
                } else if k > i {
                }
            }
            return Some(i);
        }
        i = i + 1;
    }
    None
}

/// Decodes characters as a form-encoded value.
fn decode_chars(cs: &[char]) -> (s: String)
    ensures
        s@ == url_decoded(cs@),
{
    let t = string_from_chars(cs);
    url_decode(t.as_str())
}

/// Parses a form body or query string (`a=1&b=two+words`).
pub fn parse_form(value: &str) -> (f: Form)
    ensures
        form_view(f) == form_pairs(value@),
{
    let chars = chars_of(value);
    let pieces = split_chars(chars.as_slice(), '&');
    let ghost pv = token_views(pieces@);
    let ghost kept = pv.filter(|p: Seq<char>| p.len() > 0);
    let mut pairs: Vec<(String, String)> = Vec::new();
    let mut i: usize = 0;
    assert(pv.take(0).filter(|p: Seq<char>| p.len() > 0) == Seq::<Seq<char>>::empty());
    assert(form_view(Form { pairs }) =~= Seq::<(Seq<char>, Seq<char>)>::empty());
    while i < pieces.len()
        invariant
            i <= pieces@.len(),
            pv == token_views(pieces@),
            pv == split_on(value@, '&', seq![]),
            form_view(Form { pairs }) == ({
                let k = pv.take(i as int).filter(|p: Seq<char>| p.len() > 0);
                Seq::new(
                    k.len(),
                    |j: int| (url_decoded(split_pair(k[j]).0), url_decoded(split_pair(k[j]).1)),
                )
            }),
        decreases pieces.len() - i,
    {
        let piece = &pieces[i];
        assert(pv[i as int] == piece@);
        let ghost kb = pv.take(i as int).filter(|p: Seq<char>| p.len() > 0);
        assert(pv.take(i + 1).drop_last() == pv.take(i as int));
        reveal_with_fuel(Seq::filter, 1);
        if piece.len() > 0 {
            let (key, val) = match find_char(piece.as_slice(), '=') {
                Some(k) => {
                    let key_chars = vstd::slice::slice_subrange(piece.as_slice(), 0, k);
                    let val_chars = vstd::slice::slice_subrange(piece.as_slice(), k + 1, piece.len());
                    assert(key_chars@ == piece@.take(k as int));
                    assert(val_chars@ == piece@.skip(k + 1));
                    (decode_chars(key_chars), decode_chars(val_chars))
                },
                None => {
                    let empty: [char; 0] = [];
                    assert(empty@ == Seq::<char>::empty());
                    (decode_chars(piece.as_slice()), decode_chars(empty.as_slice()))
                },
            };
            let ghost before = form_view(Form { pairs });
            pairs.push((key, val));
            assert(pv.take(i + 1).filter(|p: Seq<char>| p.len() > 0) == kb.push(piece@));
            assert(form_view(Form { pairs }) =~= before.push(
                (url_decoded(split_pair(piece@).0), url_decoded(split_pair(piece@).1)),
            ));
        } else {
            assert(pv.take(i + 1).filter(|p: Seq<char>| p.len() > 0) == kb);
        }
        i = i + 1;
    }
    assert(pv.take(pieces@.len() as int) == pv);
    Form { pairs }
}

// ---------------------------------------------------------------------------
// Requests
// ---------------------------------------------------------------------------

/// A parsed request: method, path, query fields and body fields.
#[derive(Clone, Debug)]
pub struct HttpRequest {
    pub method: String,
    pub path: String,
    pub query: Form,
    pub body: Form,
}

/// Position of the first occurrence of `needle` in `haystack`.
#[verifier::opaque]
pub open spec fn first_match(haystack: Seq<u8>, needle: Seq<u8>) -> Option<int> {
    if exists|i: int|
        0 <= i && i + needle.len() <= haystack.len() && #[trigger] haystack.subrange(
            i,
            i + needle.len(),
        ) == needle {
        Some(
            choose|i: int|
                0 <= i && i + needle.len() <= haystack.len() && #[trigger] haystack.subrange(
                    i,
                    i + needle.len(),
                ) == needle && forall|j: int|
                    0 <= j < i ==> #[trigger] haystack.subrange(j, j + needle.len()) != needle,
        )
    } else {
        None
    }
}

fn matches_at(haystack: &[u8], needle: &[u8], i: usize) -> (r: bool)
    requires
        i + needle@.len() <= haystack@.len(),
    ensures
        r == (haystack@.subrange(i as int, i + needle@.len()) == needle@),
{
    let hl = haystack.len();
    let mut k: usize = 0;
    while k < needle.len()
        invariant
            i + needle@.len() <= haystack@.len(),
            hl == haystack@.len(),
            k <= needle@.len(),
            forall|m: int| 0 <= m < k ==> haystack@[i + m] == needle@[m],
        decreases needle.len() - k,
    {
        if haystack[i + k] != needle[k] {
            assert(haystack@.subrange(i as int, i + needle@.len())[k as int] != needle@[k as int]);
            return false;
        }
        k = k + 1;
    }
    assert(haystack@.subrange(i as int, i + needle@.len()) == needle@);
    true
}

/// Finds the first occurrence of a non-empty byte pattern.
pub fn find_bytes(haystack: &[u8], needle: &[u8]) -> (r: Option<usize>)
    requires
        needle@.len() > 0,
    ensures
        match r {
            Some(i) => first_match(haystack@, needle@) == Some(i as int) && i + needle@.len()
                <= haystack@.len(),
            None => first_match(haystack@, needle@) is None,
        },
{
    reveal(first_match);
    if needle.len() > haystack.len() {
        return None;
    }
    let last = haystack.len() - needle.len();
    let mut i: usize = 0;
    while i <= last
        invariant
            last == haystack@.len() - needle@.len(),
            last < usize::MAX,
            i <= last + 1,
            forall|j: int| 0 <= j < i ==> #[trigger] haystack@.subrange(j, j + needle@.len()) != needle@,
        decreases last + 1 - i,
    {
        if matches_at(haystack, needle, i) {
            proof {
                reveal(first_match);
                let w = first_match(haystack@, needle@)->0;
                if w < i {
                } else if w > i {
                }
            }
            return Some(i);
        }
        i = i + 1;
    }
    proof {
        reveal(first_match);
    }
    None
}

/// The request line, request target and declared body length of a request
/// head.
#[derive(Clone, Debug)]
pub struct RequestHead {
    pub method: String,
    pub target: String,
    pub content_length: usize,
}

/// ASCII lower-casing of a single character.
pub open spec fn ascii_lower(c: char) -> char {
    if 'A' <= c <= 'Z' {
        ((c as u32) + 32) as char
    } else {
        c
    }
}

/// ASCII lower-casing of a text.
pub open spec fn ascii_lowercase(s: Seq<char>) -> Seq<char> {
    Seq::new(s.len(), |i: int| ascii_lower(s[i]))
}

/// The body length a header line declares, if it is a readable
/// `Content-Length` header (the name in any ASCII case).
pub open spec fn declared_length(line: Seq<char>) -> Option<nat> {
    match first_of(line, ':') {
        Some(i) => if ascii_lowercase(line.take(i)) == "content-length"@ {
            crate::text::parse_usize_spec(trim(line.skip(i + 1)))
        } else {
            None
        },
        None => None,
    }
}

/// The first readable `Content-Length` among the header lines from `i` on,
/// or zero.
pub open spec fn content_length_from(lines: Seq<Seq<char>>, i: int) -> nat
    decreases lines.len() - i,
{
    if i < 0 || i >= lines.len() {
        0
    } else {
        match declared_length(lines[i]) {
            Some(n) => n,
            None => content_length_from(lines, i + 1),
        }
    }
}

/// The head a request's header text describes: the method and target are
/// the first two words of the first line (empty and `/` when missing).
pub open spec fn head_of(text: Seq<char>) -> Option<(Seq<char>, Seq<char>, nat)> {
    let lines = crate::track::text_lines(text);
    if lines.len() == 0 {
        None
    } else {
        let words = crate::piet::split_ws(lines[0], seq![]);
        let method = if words.len() > 0 {
            words[0]
        } else {
            seq![]
        };
        let target = if words.len() > 1 {
            words[1]
        } else {
            "/"@
        };
        Some((method, target, content_length_from(lines, 1)))
    }
}

fn lower_chars(s: &[char]) -> (r: Vec<char>)
    ensures
        r@ == ascii_lowercase(s@),
{
    let mut r: Vec<char> = Vec::new();
    let mut i: usize = 0;
    while i < s.len()
        invariant
            i <= s@.len(),
            r@ == ascii_lowercase(s@.take(i as int)),
        decreases s.len() - i,
    {
        let c = s[i];
        let l = if 'A' <= c && c <= 'Z' {
            char_ascii_lower(c)
        } else {
            c
        };
        r.push(l);
        assert(ascii_lowercase(s@.take(i + 1)) == ascii_lowercase(s@.take(i as int)).push(ascii_lower(c)));
        i = i + 1;
    }
    assert(s@.take(s@.len() as int) == s@);
    r
}

fn char_ascii_lower(c: char) -> (r: char)
    requires
        'A' <= c <= 'Z',
    ensures
        r == ascii_lower(c),
{
    let code = c as u32 + 32;
    match code {
        97 => 'a',
        98 => 'b',
        99 => 'c',
        100 => 'd',
        101 => 'e',
        102 => 'f',
        103 => 'g',
        104 => 'h',
        105 => 'i',
        106 => 'j',
        107 => 'k',
        108 => 'l',
        109 => 'm',
        110 => 'n',
        111 => 'o',
        112 => 'p',
        113 => 'q',
        114 => 'r',
        115 => 's',
        116 => 't',
        117 => 'u',
        118 => 'v',
        119 => 'w',
        120 => 'x',
        121 => 'y',
        _ => 'z',
    }
}

fn header_length(line: &Vec<char>) -> (r: Option<usize>)
    ensures
        match r {
            Some(n) => declared_length(line@) == Some(n as nat),
            None => declared_length(line@) is None,
        },
{
    let n = line.len();
    match find_char(line.as_slice(), ':') {
        None => None,
        Some(i) => {
            let name = vstd::slice::slice_subrange(line.as_slice(), 0, i);
            let value = vstd::slice::slice_subrange(line.as_slice(), i + 1, line.len());
            let lowered = lower_chars(name);
            let target = chars_of("content-length");
            if chars_eq(lowered.as_slice(), target.as_slice()) {
                let trimmed = trim_chars(value);
                crate::text::parse_usize(trimmed.as_slice())
            } else {
                None
            }
        },
    }
}

/// Longest request target accepted, in characters.
pub const MAX_TARGET_CHARS: usize = 2_048;

/// Largest request body accepted, in bytes.
pub const MAX_BODY_BYTES: usize = 16_384;

/// Reads the method, target and `Content-Length` from the bytes of a request
/// head (decoded leniently as UTF-8). A target longer than
/// `MAX_TARGET_CHARS` is refused with 414 and a declared body longer than
/// `MAX_BODY_BYTES` with 413, so no body beyond the limit is ever read.
pub fn parse_request_head(head: &[u8]) -> (r: Result<RequestHead, RouteError>)
    ensures
        match head_of(lossy_utf8(head@)) {
            Some((m, t, n)) => if t.len() > MAX_TARGET_CHARS {
                r matches Err(e) && is_error(e, Status::UriTooLong, "Request URI is too long."@)
            } else if n > MAX_BODY_BYTES {
                r matches Err(e) && is_error(
                    e,
                    Status::PayloadTooLarge,
                    "Request body is too large."@,
                )
            } else {
                r matches Ok(h) && h.method@ == m && h.target@ == t && h.content_length == n
            },
            None => r matches Err(e) && is_error(e, Status::BadRequest, "Missing request line."@),
        },
        r matches Ok(h) ==> h.content_length <= MAX_BODY_BYTES,
{
    let h = read_head(head)?;
    if h.target.as_str().unicode_len() > MAX_TARGET_CHARS {
        return Err(route_error(Status::UriTooLong, "Request URI is too long."));
    }
    if h.content_length > MAX_BODY_BYTES {
        return Err(route_error(Status::PayloadTooLarge, "Request body is too large."));
    }
    Ok(h)
}

fn read_head(head: &[u8]) -> (r: Result<RequestHead, RouteError>)
    ensures
        match head_of(lossy_utf8(head@)) {
            Some((m, t, n)) => r matches Ok(h) && h.method@ == m && h.target@ == t
                && h.content_length == n,
            None => r matches Err(e) && is_error(e, Status::BadRequest, "Missing request line."@),
        },
{
    let text = utf8_lossy(head);
    let chars = chars_of(text.as_str());
    let lines = crate::track::lines_of(chars.as_slice());
    let ghost lv = token_views(lines@);
    if lines.len() == 0 {
        return Err(route_error(Status::BadRequest, "Missing request line."));
    }
    assert(lv[0] == lines@[0]@);
    let words = crate::piet::tokenize_words(lines[0].as_slice());
    let ghost wv = token_views(words@);
    assert(lv == crate::track::text_lines(lossy_utf8(head@)));
    assert(lv.len() > 0);
    assert(head_of(lossy_utf8(head@)) is Some);
    assert(wv == crate::piet::split_ws(lv[0], seq![]));
    let method = if words.len() > 0 {
        assert(wv[0] == words@[0]@);
        string_from_chars(words[0].as_slice())
    } else {
        String::new()
    };
    let target = if words.len() > 1 {
        assert(wv[1] == words@[1]@);
        string_from_chars(words[1].as_slice())
    } else {
        "/".to_owned()
    };
    let mut i: usize = 1;
    assert(head_of(lossy_utf8(head@)) == Some((method@, target@, content_length_from(lv, 1))));
    while i < lines.len()
        invariant
            1 <= i <= lines@.len(),
            lv == token_views(lines@),
            head_of(lossy_utf8(head@)) == Some((method@, target@, content_length_from(lv, 1))),
            content_length_from(lv, 1) == content_length_from(lv, i as int),
        decreases lines.len() - i,
    {
        assert(lv[i as int] == lines@[i as int]@);
        match header_length(&lines[i]) {
            Some(n) => {
                let content_length = n;
                assert(content_length_from(lv, i as int) == n);
                assert(head_of(lossy_utf8(head@)) == Some((method@, target@, n as nat)));
                return Ok(RequestHead { method, target, content_length });
            },
            None => {},
        }
        i = i + 1;
    }
    assert(content_length_from(lv, i as int) == 0);
    assert(head_of(lossy_utf8(head@)) == Some((method@, target@, 0nat)));
    Ok(RequestHead { method, target, content_length: 0 })
}

/// The path and query text of a request target, split at the first `?`.
pub open spec fn split_target(t: Seq<char>) -> (Seq<char>, Seq<char>) {
    match first_of(t, '?') {
        Some(i) => (t.take(i), t.skip(i + 1)),
        None => (t, seq![]),
    }
}

/// Builds a request from its method, target and the bytes of its body.
pub fn build_request(method: String, target: &str, body: &[u8]) -> (r: HttpRequest)
    ensures
        r.method == method,
        r.path@ == split_target(target@).0,
        form_view(r.query) == form_pairs(split_target(target@).1),
        form_view(r.body) == form_pairs(lossy_utf8(body@)),
{
    let body_text = utf8_lossy(body);
    let t = chars_of(target);
    let tl = t.len();
    let (path, query_text) = match find_char(t.as_slice(), '?') {
        Some(i) => {
            let p = vstd::slice::slice_subrange(t.as_slice(), 0, i);
            let q = vstd::slice::slice_subrange(t.as_slice(), i + 1, t.len());
            (string_from_chars(p), string_from_chars(q))
        },
        None => (string_from_chars(t.as_slice()), String::new()),
    };
    HttpRequest {
        method,
        path,
        query: parse_form(query_text.as_str()),
        body: parse_form(body_text.as_str()),
    }
}

/// Most bytes read while looking for the end of a request head.
pub const MAX_HEAD_BYTES: usize = 65_536;

/// The blank line that ends a request head.
pub open spec fn head_terminator() -> Seq<u8> {
    seq![13u8, 10u8, 13u8, 10u8]
}

/// Where the body starts: just after the first blank line, if the bytes read
/// so far contain one.
pub fn head_end(buffer: &[u8]) -> (r: Option<usize>)
    ensures
        match r {
            Some(e) => 4 <= e <= buffer@.len() && first_match(buffer@, head_terminator()) == Some(
                e - 4,
            ),
            None => first_match(buffer@, head_terminator()) is None,
        },
{
    let mut needle: Vec<u8> = Vec::new();
    needle.push(13u8);
    needle.push(10u8);
    needle.push(13u8);
    needle.push(10u8);
    assert(needle@ =~= head_terminator());
    assert(needle@.len() == 4);
    let pattern = needle.as_slice();
    let n = buffer.len();
    assert(pattern@.len() == 4);
    match find_bytes(buffer, pattern) {
        Some(i) => {
            assert(i + 4 <= buffer@.len());
            Some(i + 4)
        },
        None => None,
    }
}

/// What to do after a read while looking for the end of a request head.
pub enum HeadStep {
    /// The head is complete; the body starts at this offset.
    Complete(usize),
    /// Read more bytes.
    ReadMore,
    /// Give up on the request.
    Refused(RouteError),
}

/// Decides after each read of a request head: complete once the bytes read
/// hold a blank line; refused as malformed when the sender stopped or
/// `MAX_HEAD_BYTES` were read without one; otherwise read more.
pub fn head_read_step(buffer: &[u8], at_end: bool) -> (r: HeadStep)
    ensures
        match first_match(buffer@, head_terminator()) {
            Some(i) => r == HeadStep::Complete((i + 4) as usize) && i + 4 <= buffer@.len(),
            None => if at_end || buffer@.len() >= MAX_HEAD_BYTES {
                r matches HeadStep::Refused(e) && is_error(
                    e,
                    Status::BadRequest,
                    "Malformed HTTP request."@,
                )
            } else {
                r is ReadMore
            },
        },
{
    match head_end(buffer) {
        Some(e) => HeadStep::Complete(e),
        None => if at_end || buffer.len() >= MAX_HEAD_BYTES {
            HeadStep::Refused(route_error(Status::BadRequest, "Malformed HTTP request."))
        } else {
            HeadStep::ReadMore
        },
    }
}

/// Whether more of the body must be read: fewer than `content_length` bytes
/// (never more than `MAX_BODY_BYTES`) follow the head.
pub fn needs_more_body(buffer_len: usize, head_end: usize, content_length: usize) -> (r: bool)
    requires
        head_end <= buffer_len,
        content_length <= MAX_BODY_BYTES,
    ensures
        r == (buffer_len < head_end + content_length),
{
    buffer_len - head_end < content_length
}

/// The request a complete read describes: the head's method and target, and
/// as body the declared number of bytes after the head, or as many as
/// arrived.
pub fn finish_request(buffer: &[u8], head_end: usize, head: RequestHead) -> (r: HttpRequest)
    requires
        head_end <= buffer@.len(),
        head.content_length <= MAX_BODY_BYTES,
    ensures
        ({
            let end = if head_end + head.content_length <= buffer@.len() {
                head_end + head.content_length
            } else {
                buffer@.len() as int
            };
            &&& r.method == head.method
            &&& r.path@ == split_target(head.target@).0
            &&& form_view(r.query) == form_pairs(split_target(head.target@).1)
            &&& form_view(r.body) == form_pairs(lossy_utf8(buffer@.subrange(head_end as int, end)))
        }),
{
    let available = buffer.len() - head_end;
    let end = if head.content_length <= available {
        head_end + head.content_length
    } else {
        buffer.len()
    };
    let body = vstd::slice::slice_subrange(buffer, head_end, end);
    build_request(head.method, head.target.as_str(), body)
}

/// The request the readiness check sends.
pub const HEALTH_REQUEST: &'static str = "GET /health HTTP/1.1\r\nHost: localhost\r\nConnection: close\r\n\r\n";

/// The start of a successful reply.
pub open spec fn ok_status_line() -> Seq<u8> {
    seq![72u8, 84u8, 84u8, 80u8, 47u8, 49u8, 46u8, 49u8, 32u8, 50u8, 48u8, 48u8]
}

/// Whether a reply to the readiness check reports success: it starts with
/// `HTTP/1.1 200`.
pub fn healthy_reply(reply: &[u8]) -> (r: bool)
    ensures
        r == (reply@.len() >= 12 && reply@.subrange(0, 12) == ok_status_line()),
{
    let expected: [u8; 12] = [72, 84, 84, 80, 47, 49, 46, 49, 32, 50, 48, 48];
    assert(expected@ == ok_status_line());
    if reply.len() < 12 {
        return false;
    }
    let mut i: usize = 0;
    while i < 12
        invariant
            i <= 12,
            reply@.len() >= 12,
            expected@ == ok_status_line(),
            forall|k: int| 0 <= k < i ==> reply@[k] == expected@[k],
        decreases 12 - i,
    {
        if reply[i] != expected[i] {
            assert(reply@.subrange(0, 12)[i as int] != ok_status_line()[i as int]);
            return false;
        }
        i = i + 1;
    }
    assert(reply@.subrange(0, 12) =~= ok_status_line());
    true
}

// ---------------------------------------------------------------------------
// Validating fields
// ---------------------------------------------------------------------------

/// Longest racer name, in characters.
pub const MAX_NAME_CHARS: usize = 24;

/// The trimmed name a field holds, or why it is refused: a blank name, or
/// one longer than 24 characters.
pub open spec fn cleaned_name(value: Option<Seq<char>>) -> Result<Seq<char>, Seq<char>> {
    let name = match value {
        Some(v) => trim(v),
        None => seq![],
    };
    if name.len() == 0 {
        Err("Enter a racer name."@)
    } else if name.len() > MAX_NAME_CHARS {
        Err("Racer names are limited to 24 characters."@)
    } else {
        Ok(name)
    }
}

/// Trims and checks a racer name.
pub fn clean_name(value: Option<&String>) -> (r: Result<String, RouteError>)
    ensures
        match cleaned_name(match value {
            Some(v) => Some(v@),
            None => None,
        }) {
            Ok(n) => r matches Ok(s) && s@ == n,
            Err(m) => r matches Err(e) && is_error(e, Status::BadRequest, m),
        },
{
    let name: Vec<char> = match value {
        Some(v) => {
            let cs = chars_of(v.as_str());
            trim_chars(cs.as_slice())
        },
        None => Vec::new(),
    };
    if name.len() == 0 {
        return Err(route_error(Status::BadRequest, "Enter a racer name."));
    }
    if name.len() > MAX_NAME_CHARS {
        return Err(route_error(Status::BadRequest, "Racer names are limited to 24 characters."));
    }
    Ok(string_from_chars(name.as_slice()))
}

/// Whether a character can appear in a room code: upper-case letters and
/// digits, without the easily confused I, O, 0 and 1.
pub open spec fn room_code_char(c: char) -> bool {
    (('A' <= c <= 'Z') && c != 'I' && c != 'O') || ('2' <= c <= '9')
}

/// Whether a text is a room code: six room-code characters.
pub open spec fn is_room_code(s: Seq<char>) -> bool {
    s.len() == 6 && forall|i: int| 0 <= i < 6 ==> room_code_char(#[trigger] s[i])
}

/// The ASCII upper-casing of a text.
pub open spec fn ascii_uppercase(s: Seq<char>) -> Seq<char> {
    Seq::new(s.len(), |i: int| ascii_upper(s[i]))
}

/// The room code a field holds: trimmed and upper-cased, it must be a room
/// code.
pub open spec fn cleaned_room_code(value: Seq<char>) -> Option<Seq<char>> {
    let code = ascii_uppercase(trim(value));
    if is_room_code(code) {
        Some(code)
    } else {
        None
    }
}

/// Executable form of `room_code_char`.
pub fn is_room_code_char(c: char) -> (r: bool)
    ensures
        r == room_code_char(c),
{
    (('A' <= c && c <= 'Z') && c != 'I' && c != 'O') || ('2' <= c && c <= '9')
}

/// Normalises and checks a room code typed by a player.
pub fn clean_room_code(value: &str) -> (r: Result<String, RouteError>)
    ensures
        match cleaned_room_code(value@) {
            Some(c) => r matches Ok(s) && s@ == c,
            None => r matches Err(e) && is_error(
                e,
                Status::BadRequest,
                "Room codes are six letters or digits."@,
            ),
        },
{
    let cs = chars_of(value);
    let trimmed = trim_chars(cs.as_slice());
    let mut code: Vec<char> = Vec::new();
    let mut i: usize = 0;
    while i < trimmed.len()
        invariant
            i <= trimmed@.len(),
            code@ == ascii_uppercase(trimmed@.take(i as int)),
        decreases trimmed.len() - i,
    {
        let c = char_ascii_upper(trimmed[i]);
        code.push(c);
        assert(ascii_uppercase(trimmed@.take(i + 1)) == ascii_uppercase(trimmed@.take(i as int)).push(
            ascii_upper(trimmed@[i as int]),
        ));
        i = i + 1;
    }
    assert(trimmed@.take(trimmed@.len() as int) == trimmed@);
    let mut ok = code.len() == 6;
    let mut k: usize = 0;
    while ok && k < code.len()
        invariant
            k <= code@.len(),
            ok ==> code@.len() == 6 && forall|m: int| 0 <= m < k ==> room_code_char(#[trigger] code@[m]),
            !ok ==> !is_room_code(code@),
        decreases code.len() - k,
    {
        if !is_room_code_char(code[k]) {
            ok = false;
        }
        k = k + 1;
    }
    if !ok {
        return Err(route_error(Status::BadRequest, "Room codes are six letters or digits."));
    }
    Ok(string_from_chars(code.as_slice()))
}

/// The message for a missing or empty field.
pub open spec fn missing_message(key: Seq<char>) -> Seq<char> {
    "Missing "@ + key + "."@
}

/// The non-empty value of a form field, or a 400 naming the field.
pub fn required_field(form: &Form, key: &str) -> (r: Result<String, RouteError>)
    ensures
        match form_lookup(form_view(*form), key@) {
            Some(v) => if v.len() > 0 {
                r matches Ok(s) && s@ == v
            } else {
                r matches Err(e) && is_error(e, Status::BadRequest, missing_message(key@))
            },
            None => r matches Err(e) && is_error(e, Status::BadRequest, missing_message(key@)),
        },
{
    match form.get(key) {
        Some(v) => {
            if v.as_str().unicode_len() > 0 {
                return Ok(v.clone());
            }
        },
        None => {},
    }
    let mut message = "Missing ".to_owned();
    message.append(key);
    message.append(".");
    Err(RouteError { status: Status::BadRequest, message })
}

/// The non-empty query field `key`.
pub fn required_query(request: &HttpRequest, key: &str) -> (r: Result<String, RouteError>)
    ensures
        match form_lookup(form_view(request.query), key@) {
            Some(v) => if v.len() > 0 {
                r matches Ok(s) && s@ == v
            } else {
                r matches Err(e) && is_error(e, Status::BadRequest, missing_message(key@))
            },
            None => r matches Err(e) && is_error(e, Status::BadRequest, missing_message(key@)),
        },
{
    required_field(&request.query, key)
}

/// The non-empty body field `key`.
pub fn required_body(request: &HttpRequest, key: &str) -> (r: Result<String, RouteError>)
    ensures
        match form_lookup(form_view(request.body), key@) {
            Some(v) => if v.len() > 0 {
                r matches Ok(s) && s@ == v
            } else {
                r matches Err(e) && is_error(e, Status::BadRequest, missing_message(key@))
            },
            None => r matches Err(e) && is_error(e, Status::BadRequest, missing_message(key@)),
        },
{
    required_field(&request.body, key)
}

// ---------------------------------------------------------------------------
// Responses
// ---------------------------------------------------------------------------

/// A response: status, content type, body and extra headers.
#[derive(Clone, Debug)]
pub struct Response {
    pub status: Status,
    pub content_type: &'static str,
    pub body: String,
    pub headers: Vec<(String, String)>,
}

/// The headers every response carries against caching, framing and content
/// injection.
pub const SECURITY_HEADERS: &'static str = "Cache-Control: no-store\r\nContent-Security-Policy: default-src 'none'; img-src 'self' data:; style-src 'unsafe-inline'; form-action 'self'; base-uri 'none'; frame-ancestors 'none'\r\nReferrer-Policy: no-referrer\r\nX-Frame-Options: DENY\r\nPermissions-Policy: camera=(), microphone=(), geolocation=()\r\nCross-Origin-Opener-Policy: same-origin\r\nCross-Origin-Resource-Policy: same-origin\r\n";

/// A 303 redirect to `location`.
pub fn redirect(location: String) -> (r: Response)
    ensures
        r.status == Status::SeeOther,
        r.content_type@ == "text/plain; charset=utf-8"@,
        r.body@ == "Redirecting\u{2026}"@,
        r.headers@.len() == 1,
        r.headers@[0].0@ == "Location"@,
        r.headers@[0].1 == location,
{
    let mut headers: Vec<(String, String)> = Vec::new();
    headers.push(("Location".to_owned(), location));
    Response {
        status: Status::SeeOther,
        content_type: "text/plain; charset=utf-8",
        body: "Redirecting\u{2026}".to_owned(),
        headers,
    }
}

/// The location of a race page for a room and token.
pub open spec fn game_location(page: Seq<char>, code: Seq<char>, token: Seq<char>) -> Seq<char> {
    page + "?room="@ + url_encoded(encode_utf8(code)) + "&token="@ + url_encoded(encode_utf8(token))
}

fn location(page: &str, code: &str, token: &str) -> (s: String)
    ensures
        s@ == game_location(page@, code@, token@),
{
    let mut s = page.to_owned();
    s.append("?room=");
    let c = url_encode(code);
    s.append(c.as_str());
    s.append("&token=");
    let t = url_encode(token);
    s.append(t.as_str());
    s
}

/// The redirect to an online race page.
pub fn redirect_to_game(code: &str, token: &str) -> (r: Response)
    ensures
        r.status == Status::SeeOther,
        r.headers@.len() == 1,
        r.headers@[0].0@ == "Location"@,
        r.headers@[0].1@ == game_location("/game"@, code@, token@),
{
    redirect(location("/game", code, token))
}

/// The redirect to a local race page.
pub fn redirect_to_local_game(code: &str, token: &str) -> (r: Response)
    ensures
        r.status == Status::SeeOther,
        r.headers@.len() == 1,
        r.headers@[0].0@ == "Location"@,
        r.headers@[0].1@ == game_location("/local-game"@, code@, token@),
{
    redirect(location("/local-game", code, token))
}

/// The extra header lines of a response.
pub open spec fn header_lines(h: Seq<(String, String)>) -> Seq<char>
    decreases h.len(),
{
    if h.len() == 0 {
        seq![]
    } else {
        header_lines(h.drop_last()) + h.last().0@ + ": "@ + h.last().1@ + "\r\n"@
    }
}

/// The status line and headers sent before a body of `body_len` bytes.
pub open spec fn response_head_text(
    status: Status,
    content_type: Seq<char>,
    body_len: nat,
    headers: Seq<(String, String)>,
) -> Seq<char> {
    "HTTP/1.1 "@ + status_text(status) + "\r\nContent-Type: "@ + content_type
        + "\r\nContent-Length: "@ + crate::text::decimal(body_len)
        + "\r\nConnection: close\r\nX-Content-Type-Options: nosniff\r\n"@ + SECURITY_HEADERS@
        + header_lines(headers) + "\r\n"@
}

/// The status line and headers of a response whose body is `body`; the
/// length is the body's size in UTF-8 bytes.
pub fn response_head(
    status: Status,
    content_type: &str,
    body: &str,
    headers: &Vec<(String, String)>,
) -> (s: String)
    ensures
        s@ == response_head_text(
            status,
            content_type@,
            (encode_utf8(body@).len() as usize) as nat,
            headers@,
        ),
{
    let mut s = "HTTP/1.1 ".to_owned();
    s.append(status.text());
    s.append("\r\nContent-Type: ");
    s.append(content_type);
    s.append("\r\nContent-Length: ");
    crate::text::push_u64(&mut s, body.len() as u64);
    s.append("\r\nConnection: close\r\nX-Content-Type-Options: nosniff\r\n");
    s.append(SECURITY_HEADERS);
    let ghost prefix = s@;
    let mut i: usize = 0;
    while i < headers.len()
        invariant
            i <= headers@.len(),
            s@ == prefix + header_lines(headers@.take(i as int)),
        decreases headers.len() - i,
    {
        assert(headers@.take(i + 1).drop_last() == headers@.take(i as int));
        s.append(headers[i].0.as_str());
        s.append(": ");
        s.append(headers[i].1.as_str());
        s.append("\r\n");
        i = i + 1;
    }
    assert(headers@.take(headers@.len() as int) == headers@);
    s.append("\r\n");
    s
}

} // verus!
