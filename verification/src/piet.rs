//! The boost oracle: an interpreter for one-row Piet programs stored as
//! ASCII PPM (`P3`) images.
//!
//! The program is read left to right. Each colour block (a run of equal
//! codels) is compared with the next block; the change in hue and lightness
//! selects a stack command, exactly as in Piet. The first number written by
//! `out(number)` is the result; without one, the top of the stack is used.
use vstd::prelude::*;
use crate::text::{
    chars_eq, chars_of, char_is_whitespace, decimal, is_whitespace, parse_i32, parse_i32_spec,
    parse_usize, parse_usize_spec, push_i64, push_u64, signed_decimal,
};

verus! {

/// A codel colour of the Piet palette.
#[derive(Clone, Copy, Debug, PartialEq, Eq, Structural)]
pub enum PietColor {
    Chromatic { hue: u8, lightness: u8 },
    White,
    Black,
}

/// The header or pixel field that a PPM token stands for.
#[derive(Clone, Copy, Debug, PartialEq, Eq, Structural)]
pub enum PpmField {
    Width,
    Height,
    MaxValue,
    Red,
    Green,
    Blue,
}

/// Why a Piet program could not produce a number.
#[derive(Clone, Copy, Debug, PartialEq, Eq, Structural)]
pub enum PietError {
    /// The source does not start with the `P3` magic token.
    NotPpm,
    /// A header or pixel token is missing.
    Missing(PpmField),
    /// A header or pixel token is not a number of the expected type.
    Invalid(PpmField),
    /// The image is not one row of at least two codels with range 255.
    BadShape,
    /// A pixel has a colour outside the Piet palette.
    UnsupportedColor(i32, i32, i32),
    /// `in(number)` ran past the supplied inputs.
    MissingInput(usize),
    /// A colour change selects a command this linear runtime lacks.
    UnsupportedCommand(u8, u8),
    /// An arithmetic command left the 32-bit range.
    Overflow,
    /// The program ended without output and with an empty stack.
    NoNumber,
}

/// The name of a PPM field in messages.
pub open spec fn field_label(f: PpmField) -> Seq<char> {
    match f {
        PpmField::Width => "width"@,
        PpmField::Height => "height"@,
        PpmField::MaxValue => "max value"@,
        PpmField::Red => "red"@,
        PpmField::Green => "green"@,
        PpmField::Blue => "blue"@,
    }
}

/// The message a Piet error is reported with.
pub open spec fn piet_error_text(e: PietError) -> Seq<char> {
    match e {
        PietError::NotPpm => "Piet source must be an ASCII PPM (P3)"@,
        PietError::Missing(f) => "missing "@ + field_label(f),
        PietError::Invalid(f) => "invalid "@ + field_label(f),
        PietError::BadShape => "oracle expects a one-row, 255-range PPM"@,
        PietError::UnsupportedColor(r, g, b) => "unsupported Piet color ("@ + signed_decimal(r as int)
            + ", "@ + signed_decimal(g as int) + ", "@ + signed_decimal(b as int) + ")"@,
        PietError::MissingInput(i) => "Piet requested missing numeric input "@ + decimal(i as nat),
        PietError::UnsupportedCommand(h, l) => "unsupported linear Piet command ("@ + decimal(h as nat)
            + ", "@ + decimal(l as nat) + ")"@,
        PietError::Overflow => "Piet arithmetic left the 32-bit range"@,
        PietError::NoNumber => "Piet program produced no number"@,
    }
}

fn label_text(f: PpmField) -> (s: &'static str)
    ensures
        s@ == field_label(f),
{
    match f {
        PpmField::Width => "width",
        PpmField::Height => "height",
        PpmField::MaxValue => "max value",
        PpmField::Red => "red",
        PpmField::Green => "green",
        PpmField::Blue => "blue",
    }
}

impl PietError {
    /// The message the error is reported with.
    pub fn message(&self) -> (s: String)
        ensures
            s@ == piet_error_text(*self),
    {
        match *self {
            PietError::NotPpm => "Piet source must be an ASCII PPM (P3)".to_owned(),
            PietError::Missing(f) => {
                let mut s = "missing ".to_owned();
                s.append(label_text(f));
                s
            },
            PietError::Invalid(f) => {
                let mut s = "invalid ".to_owned();
                s.append(label_text(f));
                s
            },
            PietError::BadShape => "oracle expects a one-row, 255-range PPM".to_owned(),
            PietError::UnsupportedColor(r, g, b) => {
                let mut s = "unsupported Piet color (".to_owned();
                push_i64(&mut s, r as i64);
                s.append(", ");
                push_i64(&mut s, g as i64);
                s.append(", ");
                push_i64(&mut s, b as i64);
                s.append(")");
                s
            },
            PietError::MissingInput(i) => {
                let mut s = "Piet requested missing numeric input ".to_owned();
                push_u64(&mut s, i as u64);
                s
            },
            PietError::UnsupportedCommand(h, l) => {
                let mut s = "unsupported linear Piet command (".to_owned();
                push_u64(&mut s, h as u64);
                s.append(", ");
                push_u64(&mut s, l as u64);
                s.append(")");
                s
            },
            PietError::Overflow => "Piet arithmetic left the 32-bit range".to_owned(),
            PietError::NoNumber => "Piet program produced no number".to_owned(),
        }
    }
}

/// The arithmetic and comparison commands that pop two values.
#[derive(Clone, Copy, Debug, PartialEq, Eq, Structural)]
pub enum BinaryOp {
    Add,
    Subtract,
    Multiply,
    Divide,
    Modulo,
    Greater,
}

/// The palette colour of an RGB triple, if it is one.
pub open spec fn color_of(red: int, green: int, blue: int) -> Option<PietColor> {
    if red == 255 && green == 255 && blue == 255 {
        Some(PietColor::White)
    } else if red == 0 && green == 0 && blue == 0 {
        Some(PietColor::Black)
    } else {
        match chromatic_of(red, green, blue) {
            Some((h, l)) => Some(PietColor::Chromatic { hue: h as u8, lightness: l as u8 }),
            None => None,
        }
    }
}

/// Hue (0 red .. 5 magenta) and lightness (0 light, 1 normal, 2 dark) of a
/// chromatic palette colour.
pub open spec fn chromatic_of(red: int, green: int, blue: int) -> Option<(int, int)> {
    let t = (red, green, blue);
    if t == (255int, 192int, 192int) {
        Some((0int, 0int))
    } else if t == (255int, 0int, 0int) {
        Some((0, 1))
    } else if t == (192int, 0int, 0int) {
        Some((0, 2))
    } else if t == (255int, 255int, 192int) {
        Some((1, 0))
    } else if t == (255int, 255int, 0int) {
        Some((1, 1))
    } else if t == (192int, 192int, 0int) {
        Some((1, 2))
    } else if t == (192int, 255int, 192int) {
        Some((2, 0))
    } else if t == (0int, 255int, 0int) {
        Some((2, 1))
    } else if t == (0int, 192int, 0int) {
        Some((2, 2))
    } else if t == (192int, 255int, 255int) {
        Some((3, 0))
    } else if t == (0int, 255int, 255int) {
        Some((3, 1))
    } else if t == (0int, 192int, 192int) {
        Some((3, 2))
    } else if t == (192int, 192int, 255int) {
        Some((4, 0))
    } else if t == (0int, 0int, 255int) {
        Some((4, 1))
    } else if t == (0int, 0int, 192int) {
        Some((4, 2))
    } else if t == (255int, 192int, 255int) {
        Some((5, 0))
    } else if t == (255int, 0int, 255int) {
        Some((5, 1))
    } else if t == (192int, 0int, 192int) {
        Some((5, 2))
    } else {
        None
    }
}

/// Whether a colour belongs to the Piet palette.
pub open spec fn in_palette(c: PietColor) -> bool {
    match c {
        PietColor::Chromatic { hue, lightness } => hue < 6 && lightness < 3,
        _ => true,
    }
}

/// Maps an RGB triple to its Piet colour.
pub fn piet_color(red: i32, green: i32, blue: i32) -> (r: Result<PietColor, PietError>)
    ensures
        r == (match color_of(red as int, green as int, blue as int) {
            Some(c) => Ok(c),
            None => Err(PietError::UnsupportedColor(red, green, blue)),
        }),
        r matches Ok(c) ==> in_palette(c),
{
    let chromatic = |hue: u8, lightness: u8| -> (c: PietColor)
        ensures
            c == (PietColor::Chromatic { hue, lightness }),
        { PietColor::Chromatic { hue, lightness } };
    if red == 255 && green == 255 && blue == 255 {
        Ok(PietColor::White)
    } else if red == 0 && green == 0 && blue == 0 {
        Ok(PietColor::Black)
    } else if red == 255 && green == 192 && blue == 192 {
        Ok(chromatic(0, 0))
    } else if red == 255 && green == 0 && blue == 0 {
        Ok(chromatic(0, 1))
    } else if red == 192 && green == 0 && blue == 0 {
        Ok(chromatic(0, 2))
    } else if red == 255 && green == 255 && blue == 192 {
        Ok(chromatic(1, 0))
    } else if red == 255 && green == 255 && blue == 0 {
        Ok(chromatic(1, 1))
    } else if red == 192 && green == 192 && blue == 0 {
        Ok(chromatic(1, 2))
    } else if red == 192 && green == 255 && blue == 192 {
        Ok(chromatic(2, 0))
    } else if red == 0 && green == 255 && blue == 0 {
        Ok(chromatic(2, 1))
    } else if red == 0 && green == 192 && blue == 0 {
        Ok(chromatic(2, 2))
    } else if red == 192 && green == 255 && blue == 255 {
        Ok(chromatic(3, 0))
    } else if red == 0 && green == 255 && blue == 255 {
        Ok(chromatic(3, 1))
    } else if red == 0 && green == 192 && blue == 192 {
        Ok(chromatic(3, 2))
    } else if red == 192 && green == 192 && blue == 255 {
        Ok(chromatic(4, 0))
    } else if red == 0 && green == 0 && blue == 255 {
        Ok(chromatic(4, 1))
    } else if red == 0 && green == 0 && blue == 192 {
        Ok(chromatic(4, 2))
    } else if red == 255 && green == 192 && blue == 255 {
        Ok(chromatic(5, 0))
    } else if red == 255 && green == 0 && blue == 255 {
        Ok(chromatic(5, 1))
    } else if red == 192 && green == 0 && blue == 192 {
        Ok(chromatic(5, 2))
    } else {
        Err(PietError::UnsupportedColor(red, green, blue))
    }
}

// ---------------------------------------------------------------------------
// Tokenising the PPM text
// ---------------------------------------------------------------------------

/// The source with every comment character (from '#' to the end of its line)
/// replaced by a space; `in_comment` says whether a comment is open.
pub open spec fn strip_comments(s: Seq<char>, in_comment: bool) -> Seq<char>
    decreases s.len(),
{
    if s.len() == 0 {
        seq![]
    } else if s[0] == '\n' {
        seq!['\n'] + strip_comments(s.drop_first(), false)
    } else if in_comment || s[0] == '#' {
        seq![' '] + strip_comments(s.drop_first(), true)
    } else {
        seq![s[0]] + strip_comments(s.drop_first(), false)
    }
}

/// The maximal runs of non-whitespace characters of `s`, where `cur` is the
/// run already started.
pub open spec fn split_ws(s: Seq<char>, cur: Seq<char>) -> Seq<Seq<char>>
    decreases s.len(),
{
    if s.len() == 0 {
        if cur.len() == 0 {
            seq![]
        } else {
            seq![cur]
        }
    } else if is_whitespace(s[0]) {
        (if cur.len() == 0 {
            seq![]
        } else {
            seq![cur]
        }) + split_ws(s.drop_first(), seq![])
    } else {
        split_ws(s.drop_first(), cur.push(s[0]))
    }
}

/// The whitespace-separated tokens of a PPM text after dropping comments.
pub open spec fn ppm_tokens(source: Seq<char>) -> Seq<Seq<char>> {
    split_ws(strip_comments(source, false), seq![])
}

/// The character views of a vector of tokens.
pub open spec fn token_views(v: Seq<Vec<char>>) -> Seq<Seq<char>> {
    Seq::new(v.len(), |i: int| v[i]@)
}

fn strip_comment_chars(s: &[char]) -> (r: Vec<char>)
    ensures
        r@ == strip_comments(s@, false),
{
    let mut out: Vec<char> = Vec::new();
    let mut in_comment = false;
    let mut i: usize = 0;
    assert(s@.skip(0) == s@);
    assert(out@ + strip_comments(s@, false) == strip_comments(s@, false));
    while i < s.len()
        invariant
            i <= s.len(),
            out@ + strip_comments(s@.skip(i as int), in_comment) == strip_comments(s@, false),
        decreases s.len() - i,
    {
        let c = s[i];
        let ghost rest = s@.skip(i as int);
        assert(rest.drop_first() == s@.skip(i + 1));
        assert(rest[0] == c);
        let ghost old_out = out@;
        let ghost old_flag = in_comment;
        if c == '\n' {
            out.push('\n');
            in_comment = false;
        } else if in_comment || c == '#' {
            out.push(' ');
            in_comment = true;
        } else {
            out.push(c);
            in_comment = false;
        }
        assert(strip_comments(rest, old_flag) == seq![out@.last()] + strip_comments(
            s@.skip(i + 1),
            in_comment,
        ));
        assert(out@ == old_out.push(out@.last()));
        assert(old_out + (seq![out@.last()] + strip_comments(s@.skip(i + 1), in_comment)) == out@
            + strip_comments(s@.skip(i + 1), in_comment));
        i = i + 1;
    }
    assert(s@.skip(s.len() as int) == Seq::<char>::empty());
    assert(out@ + Seq::<char>::empty() == out@);
    out
}

fn split_whitespace_chars(s: &[char]) -> (r: Vec<Vec<char>>)
    ensures
        token_views(r@) == split_ws(s@, seq![]),
{
    let mut tokens: Vec<Vec<char>> = Vec::new();
    let mut cur: Vec<char> = Vec::new();
    let mut i: usize = 0;
    assert(s@.skip(0) == s@);
    assert(token_views(tokens@) == Seq::<Seq<char>>::empty());
    assert(token_views(tokens@) + split_ws(s@, seq![]) == split_ws(s@, seq![]));
    while i < s.len()
        invariant
            i <= s.len(),
            token_views(tokens@) + split_ws(s@.skip(i as int), cur@) == split_ws(s@, seq![]),
        decreases s.len() - i,
    {
        let c = s[i];
        let ghost rest = s@.skip(i as int);
        assert(rest.drop_first() == s@.skip(i + 1));
        assert(rest[0] == c);
        let ghost old_tokens = token_views(tokens@);
        if char_is_whitespace(c) {
            if cur.len() > 0 {
                let ghost cv = cur@;
                let done = cur;
                tokens.push(done);
                cur = Vec::new();
                assert(token_views(tokens@) == old_tokens.push(cv));
                assert(old_tokens + (seq![cv] + split_ws(s@.skip(i + 1), seq![])) == token_views(
                    tokens@,
                ) + split_ws(s@.skip(i + 1), seq![]));
            } else {
                assert(split_ws(rest, cur@) == seq![] + split_ws(s@.skip(i + 1), seq![]));
                assert(seq![] + split_ws(s@.skip(i + 1), seq![]) == split_ws(
                    s@.skip(i + 1),
                    seq![],
                ));
                assert(cur@ == Seq::<char>::empty());
            }
        } else {
            cur.push(c);
        }
        i = i + 1;
    }
    assert(s@.skip(s.len() as int) == Seq::<char>::empty());
    if cur.len() > 0 {
        let ghost old_tokens = token_views(tokens@);
        let ghost cv = cur@;
        tokens.push(cur);
        assert(token_views(tokens@) == old_tokens.push(cv));
    } else {
        assert(token_views(tokens@) + seq![] == token_views(tokens@));
    }
    tokens
}

/// The whitespace-separated words of a run of characters.
pub fn tokenize_words(s: &[char]) -> (r: Vec<Vec<char>>)
    ensures
        token_views(r@) == split_ws(s@, seq![]),
{
    split_whitespace_chars(s)
}

/// Tokenises a PPM text.
pub fn tokenize_ppm(source: &str) -> (r: Vec<Vec<char>>)
    ensures
        token_views(r@) == ppm_tokens(source@),
{
    let chars = chars_of(source);
    let stripped = strip_comment_chars(chars.as_slice());
    split_whitespace_chars(stripped.as_slice())
}

// ---------------------------------------------------------------------------
// Parsing the header and the pixels
// ---------------------------------------------------------------------------

/// The unsigned header field at position `i`.
pub open spec fn field_usize(tokens: Seq<Seq<char>>, i: int, f: PpmField) -> Result<nat, PietError> {
    if i >= tokens.len() {
        Err(PietError::Missing(f))
    } else {
        match parse_usize_spec(tokens[i]) {
            Some(v) => Ok(v),
            None => Err(PietError::Invalid(f)),
        }
    }
}

/// The signed field at position `i`.
pub open spec fn field_i32(tokens: Seq<Seq<char>>, i: int, f: PpmField) -> Result<int, PietError> {
    if i >= tokens.len() {
        Err(PietError::Missing(f))
    } else {
        match parse_i32_spec(tokens[i]) {
            Some(v) => Ok(v),
            None => Err(PietError::Invalid(f)),
        }
    }
}

/// The colour of the pixel whose three channels start at token `pos`.
pub open spec fn pixel_at(tokens: Seq<Seq<char>>, pos: int) -> Result<PietColor, PietError> {
    match field_i32(tokens, pos, PpmField::Red) {
        Err(e) => Err(e),
        Ok(r) => match field_i32(tokens, pos + 1, PpmField::Green) {
            Err(e) => Err(e),
            Ok(g) => match field_i32(tokens, pos + 2, PpmField::Blue) {
                Err(e) => Err(e),
                Ok(b) => match color_of(r, g, b) {
                    None => Err(PietError::UnsupportedColor(r as i32, g as i32, b as i32)),
                    Some(c) => Ok(c),
                },
            },
        },
    }
}

/// The colours of `count` pixels whose channels start at token `pos`.
pub open spec fn decode_pixels(tokens: Seq<Seq<char>>, pos: int, count: nat) -> Result<
    Seq<PietColor>,
    PietError,
>
    decreases count,
{
    if count == 0 {
        Ok(seq![])
    } else {
        match pixel_at(tokens, pos) {
            Err(e) => Err(e),
            Ok(c) => match decode_pixels(tokens, pos + 3, (count - 1) as nat) {
                Err(e) => Err(e),
                Ok(rest) => Ok(seq![c] + rest),
            },
        }
    }
}

/// The codels of a one-row PPM program.
pub open spec fn parse_ppm(tokens: Seq<Seq<char>>) -> Result<Seq<PietColor>, PietError> {
    if tokens.len() == 0 || tokens[0] != seq!['P', '3'] {
        Err(PietError::NotPpm)
    } else {
        match field_usize(tokens, 1, PpmField::Width) {
            Err(e) => Err(e),
            Ok(width) => match field_usize(tokens, 2, PpmField::Height) {
                Err(e) => Err(e),
                Ok(height) => match field_i32(tokens, 3, PpmField::MaxValue) {
                    Err(e) => Err(e),
                    Ok(max_value) => if height != 1 || width < 2 || max_value != 255 {
                        Err(PietError::BadShape)
                    } else {
                        decode_pixels(tokens, 4, width)
                    },
                },
            },
        }
    }
}

/// Reads the unsigned field at token `i`.
pub fn parse_next_usize(tokens: &Vec<Vec<char>>, i: usize, f: PpmField) -> (r: Result<
    usize,
    PietError,
>)
    ensures
        match r {
            Ok(v) => field_usize(token_views(tokens@), i as int, f) == Ok::<nat, PietError>(
                v as nat,
            ),
            Err(e) => field_usize(token_views(tokens@), i as int, f) == Err::<nat, PietError>(e),
        },
{
    if i >= tokens.len() {
        return Err(PietError::Missing(f));
    }
    assert(token_views(tokens@)[i as int] == tokens@[i as int]@);
    match parse_usize(tokens[i].as_slice()) {
        Some(v) => Ok(v),
        None => Err(PietError::Invalid(f)),
    }
}

/// Reads the signed field at token `i`.
pub fn parse_next_i32(tokens: &Vec<Vec<char>>, i: usize, f: PpmField) -> (r: Result<
    i32,
    PietError,
>)
    ensures
        match r {
            Ok(v) => field_i32(token_views(tokens@), i as int, f) == Ok::<int, PietError>(v as int),
            Err(e) => field_i32(token_views(tokens@), i as int, f) == Err::<int, PietError>(e),
        },
        r is Ok ==> i < tokens@.len(),
{
    if i >= tokens.len() {
        return Err(PietError::Missing(f));
    }
    assert(token_views(tokens@)[i as int] == tokens@[i as int]@);
    match parse_i32(tokens[i].as_slice()) {
        Some(v) => Ok(v),
        None => Err(PietError::Invalid(f)),
    }
}

/// Reads the pixel whose channels start at token `pos`.
fn parse_pixel(tokens: &Vec<Vec<char>>, pos: usize) -> (r: Result<PietColor, PietError>)
    ensures
        r == pixel_at(token_views(tokens@), pos as int),
        r matches Ok(c) ==> in_palette(c) && pos + 2 < tokens@.len(),
{
    let n = tokens.len();
    let red = match parse_next_i32(tokens, pos, PpmField::Red) {
        Ok(v) => v,
        Err(e) => {
            return Err(e);
        },
    };
    if pos + 1 >= n {
        return Err(PietError::Missing(PpmField::Green));
    }
    let green = match parse_next_i32(tokens, pos + 1, PpmField::Green) {
        Ok(v) => v,
        Err(e) => {
            return Err(e);
        },
    };
    if pos + 2 >= n {
        return Err(PietError::Missing(PpmField::Blue));
    }
    let blue = match parse_next_i32(tokens, pos + 2, PpmField::Blue) {
        Ok(v) => v,
        Err(e) => {
            return Err(e);
        },
    };
    piet_color(red, green, blue)
}

/// Prepends known codels to the outcome of decoding the remaining pixels.
pub open spec fn prepend_colors(prefix: Seq<PietColor>, r: Result<Seq<PietColor>, PietError>) -> Result<
    Seq<PietColor>,
    PietError,
> {
    match r {
        Ok(rest) => Ok(prefix + rest),
        Err(e) => Err(e),
    }
}

/// Parses the header and pixels of a PPM program.
pub fn parse_ppm_program(tokens: &Vec<Vec<char>>) -> (r: Result<Vec<PietColor>, PietError>)
    ensures
        match r {
            Ok(colors) => parse_ppm(token_views(tokens@)) == Ok::<Seq<PietColor>, PietError>(
                colors@,
            ) && forall|i: int| 0 <= i < colors@.len() ==> in_palette(#[trigger] colors@[i]),
            Err(e) => parse_ppm(token_views(tokens@)) == Err::<Seq<PietColor>, PietError>(e),
        },
{
    let ghost tv = token_views(tokens@);
    if tokens.len() == 0 {
        return Err(PietError::NotPpm);
    }
    assert(tv[0] == tokens@[0]@);
    let magic: [char; 2] = ['P', '3'];
    if !chars_eq(tokens[0].as_slice(), magic.as_slice()) {
        assert(magic@ == seq!['P', '3']);
        return Err(PietError::NotPpm);
    }
    assert(magic@ == seq!['P', '3']);
    let width = parse_next_usize(tokens, 1, PpmField::Width)?;
    let height = parse_next_usize(tokens, 2, PpmField::Height)?;
    let max_value = parse_next_i32(tokens, 3, PpmField::MaxValue)?;
    if height != 1 || width < 2 || max_value != 255 {
        return Err(PietError::BadShape);
    }
    assert(parse_ppm(tv) == decode_pixels(tv, 4, width as nat));
    assert(Seq::<PietColor>::empty() + decode_pixels(tv, 4, width as nat)->Ok_0 == decode_pixels(
        tv,
        4,
        width as nat,
    )->Ok_0);
    let mut colors: Vec<PietColor> = Vec::new();
    let mut k: usize = 0;
    let mut pos: usize = 4;
    while k < width
        invariant
            tv == token_views(tokens@),
            parse_ppm(tv) == decode_pixels(tv, 4, width as nat),
            k <= width,
            pos == 4 + 3 * k,
            pos <= 4 + 3 * tokens@.len(),
            forall|i: int| 0 <= i < colors@.len() ==> in_palette(#[trigger] colors@[i]),
            decode_pixels(tv, 4, width as nat) == prepend_colors(
                colors@,
                decode_pixels(tv, pos as int, (width - k) as nat),
            ),
        decreases width - k,
    {
        let ghost before = colors@;
        let color = match parse_pixel(tokens, pos) {
            Ok(c) => c,
            Err(e) => {
                return Err(e);
            },
        };
        let n = tokens.len();
        assert(pos + 2 < n);
        colors.push(color);
        proof {
            let r2 = decode_pixels(tv, pos + 3, (width - k - 1) as nat);
            match r2 {
                Ok(rest) => {
                    assert(before + (seq![color] + rest) == colors@ + rest);
                },
                Err(e) => {},
            }
        }
        k = k + 1;
        pos = pos + 3;
    }
    Ok(colors)
}

// ---------------------------------------------------------------------------
// Running the program
// ---------------------------------------------------------------------------

/// The end of the colour block that starts at `c`, scanning from `i`.
pub open spec fn block_end_from(colors: Seq<PietColor>, c: int, i: int) -> int
    decreases colors.len() - i,
{
    if 0 <= i < colors.len() && colors[i] == colors[c] {
        block_end_from(colors, c, i + 1)
    } else {
        i
    }
}

/// A block never ends before the position its scan starts from.
pub proof fn lemma_block_end_from_ge(colors: Seq<PietColor>, c: int, i: int)
    ensures
        block_end_from(colors, c, i) >= i,
    decreases colors.len() - i,
{
    if 0 <= i < colors.len() && colors[i] == colors[c] {
        lemma_block_end_from_ge(colors, c, i + 1);
    }
}

/// The index just past the colour block that starts at `c`.
pub open spec fn block_end(colors: Seq<PietColor>, c: int) -> int {
    block_end_from(colors, c, c + 1)
}

/// Rust's `/` on integers: the quotient rounded toward zero.
pub open spec fn trunc_div(a: int, b: int) -> int {
    let q = abs(a) / abs(b);
    if (a < 0) == (b < 0) {
        q
    } else {
        -q
    }
}

/// Rust's `%` on integers: the remainder with the sign of the dividend.
pub open spec fn trunc_rem(a: int, b: int) -> int {
    a - b * trunc_div(a, b)
}

/// Absolute value.
pub open spec fn abs(a: int) -> int {
    if a < 0 {
        -a
    } else {
        a
    }
}

/// The exact value a binary command computes from `a` (second from top) and
/// `b` (top); a zero divisor leaves `a`.
pub open spec fn binary_value(op: BinaryOp, a: int, b: int) -> int {
    match op {
        BinaryOp::Add => a + b,
        BinaryOp::Subtract => a - b,
        BinaryOp::Multiply => a * b,
        BinaryOp::Divide => if b == 0 {
            a
        } else {
            trunc_div(a, b)
        },
        BinaryOp::Modulo => if b == 0 {
            a
        } else {
            trunc_rem(a, b)
        },
        BinaryOp::Greater => if a > b {
            1
        } else {
            0
        },
    }
}

/// Whether an integer fits in `i32`.
pub open spec fn fits_i32(v: int) -> bool {
    i32::MIN <= v <= i32::MAX
}

/// The stack after a binary command: with fewer than two values it is
/// unchanged; otherwise the two top values are replaced by the result.
pub open spec fn binary_stack(op: BinaryOp, stack: Seq<i32>) -> Result<Seq<i32>, PietError> {
    if stack.len() < 2 {
        Ok(stack)
    } else {
        let v = binary_value(op, stack[stack.len() - 2] as int, stack.last() as int);
        if fits_i32(v) {
            Ok(stack.take(stack.len() - 2).push(v as i32))
        } else {
            Err(PietError::Overflow)
        }
    }
}

/// The machine state between two commands.
pub struct PietMachine {
    pub stack: Seq<i32>,
    pub output: Seq<i32>,
    pub input_index: nat,
}

/// The effect of the command selected by a hue change `h` and lightness
/// change `l`, leaving a block of `size` codels.
pub open spec fn step_command(
    h: int,
    l: int,
    size: int,
    m: PietMachine,
    inputs: Seq<i32>,
) -> Result<PietMachine, PietError> {
    let s = m.stack;
    if h == 0 && l == 0 {
        Ok(m)
    } else if h == 0 && l == 1 {
        Ok(PietMachine { stack: s.push(size as i32), ..m })
    } else if h == 0 && l == 2 {
        Ok(PietMachine { stack: if s.len() > 0 { s.drop_last() } else { s }, ..m })
    } else if (h == 1 && l == 0) || (h == 1 && l == 1) || (h == 1 && l == 2) || (h == 2 && l == 0)
        || (h == 2 && l == 1) || (h == 3 && l == 0) {
        let op = if h == 1 && l == 0 {
            BinaryOp::Add
        } else if h == 1 && l == 1 {
            BinaryOp::Subtract
        } else if h == 1 {
            BinaryOp::Multiply
        } else if h == 2 && l == 0 {
            BinaryOp::Divide
        } else if h == 2 {
            BinaryOp::Modulo
        } else {
            BinaryOp::Greater
        };
        match binary_stack(op, s) {
            Ok(ns) => Ok(PietMachine { stack: ns, ..m }),
            Err(e) => Err(e),
        }
    } else if h == 2 && l == 2 {
        Ok(
            PietMachine {
                stack: if s.len() > 0 {
                    s.drop_last().push(
                        if s.last() == 0 {
                            1i32
                        } else {
                            0i32
                        },
                    )
                } else {
                    s
                },
                ..m
            },
        )
    } else if h == 4 && l == 0 {
        Ok(PietMachine { stack: if s.len() > 0 { s.push(s.last()) } else { s }, ..m })
    } else if h == 4 && l == 2 {
        if m.input_index < inputs.len() {
            Ok(
                PietMachine {
                    stack: s.push(inputs[m.input_index as int]),
                    input_index: m.input_index + 1,
                    ..m
                },
            )
        } else {
            Err(PietError::MissingInput(m.input_index as usize))
        }
    } else if h == 5 && l == 1 {
        Ok(
            if s.len() > 0 {
                PietMachine { stack: s.drop_last(), output: m.output.push(s.last()), ..m }
            } else {
                m
            },
        )
    } else {
        Err(PietError::UnsupportedCommand(h as u8, l as u8))
    }
}

/// The number a finished run yields.
pub open spec fn finish(m: PietMachine) -> Result<i32, PietError> {
    if m.output.len() > 0 {
        Ok(m.output[0])
    } else if m.stack.len() > 0 {
        Ok(m.stack.last())
    } else {
        Err(PietError::NoNumber)
    }
}

/// Runs the program from the block that starts at `cursor`.
pub open spec fn run_from(
    colors: Seq<PietColor>,
    inputs: Seq<i32>,
    cursor: int,
    m: PietMachine,
) -> Result<i32, PietError>
    decreases colors.len() - cursor,
{
    if cursor < 0 || cursor >= colors.len() {
        finish(m)
    } else {
        let be = block_end(colors, cursor);
        if be >= colors.len() {
            finish(m)
        } else {
            proof {
                lemma_block_end_from_ge(colors, cursor, cursor + 1);
            }
            match (colors[cursor], colors[be]) {
                (
                    PietColor::Chromatic { hue, lightness },
                    PietColor::Chromatic { hue: nh, lightness: nl },
                ) => {
                    let h = (nh + 6 - hue) % 6;
                    let l = (nl + 3 - lightness) % 3;
                    match step_command(h, l, be - cursor, m, inputs) {
                        Err(e) => Err(e),
                        Ok(next) => run_from(colors, inputs, be, next),
                    }
                },
                _ => run_from(colors, inputs, be, m),
            }
        }
    }
}

/// The number a Piet program computes from the given inputs.
pub open spec fn run_program(colors: Seq<PietColor>, inputs: Seq<i32>) -> Result<i32, PietError> {
    run_from(colors, inputs, 0, PietMachine { stack: seq![], output: seq![], input_index: 0 })
}

/// The outcome of running a PPM source text on the given inputs.
pub open spec fn piet_result(source: Seq<char>, inputs: Seq<i32>) -> Result<i32, PietError> {
    match parse_ppm(ppm_tokens(source)) {
        Err(e) => Err(e),
        Ok(colors) => run_program(colors, inputs),
    }
}

fn magnitude(a: i32) -> (r: u64)
    ensures
        r as int == abs(a as int),
{
    if a < 0 {
        (0i64 - a as i64) as u64
    } else {
        a as u64
    }
}

/// Applies a binary command to the stack.
pub fn binary_stack_op(stack: &mut Vec<i32>, op: BinaryOp) -> (r: Result<(), PietError>)
    ensures
        match binary_stack(op, old(stack)@) {
            Ok(ns) => r == Ok::<(), PietError>(()) && final(stack)@ == ns,
            Err(e) => r == Err::<(), PietError>(e),
        },
{
    if stack.len() < 2 {
        return Ok(());
    }
    let b = stack.pop().unwrap();
    let a = stack.pop().unwrap();
    assert(stack@ == old(stack)@.take(old(stack)@.len() - 2));
    let wide_a = a as i64;
    let wide_b = b as i64;
    let v: i64 = match op {
        BinaryOp::Add => wide_a + wide_b,
        BinaryOp::Subtract => wide_a - wide_b,
        BinaryOp::Multiply => {
            assert(-2147483648 * 2147483648 <= wide_a * wide_b <= 2147483648 * 2147483648)
                by (nonlinear_arith)
                requires
                    -2147483648 <= wide_a <= 2147483647,
                    -2147483648 <= wide_b <= 2147483647,
            ;
            wide_a * wide_b
        },
        BinaryOp::Divide | BinaryOp::Modulo => {
            if b == 0 {
                wide_a
            } else {
                let ma = magnitude(a);
                let mb = magnitude(b);
                let q = ma / mb;
                assert(q <= ma) by (nonlinear_arith)
                    requires
                        q == ma / mb,
                        mb >= 1,
                ;
                let sq: i64 = if (a < 0) == (b < 0) {
                    q as i64
                } else {
                    0 - q as i64
                };
                assert(sq == trunc_div(a as int, b as int));
                if op == BinaryOp::Divide {
                    sq
                } else {
                    assert(-2147483648 * 2147483648 <= wide_b * sq <= 2147483648 * 2147483648)
                        by (nonlinear_arith)
                        requires
                            -2147483648 <= wide_b <= 2147483647,
                            -2147483648 <= sq <= 2147483648,
                    ;
                    wide_a - wide_b * sq
                }
            }
        },
        BinaryOp::Greater => if a > b {
            1
        } else {
            0
        },
    };
    assert(v as int == binary_value(op, a as int, b as int));
    if v < i32::MIN as i64 || v > i32::MAX as i64 {
        return Err(PietError::Overflow);
    }
    stack.push(v as i32);
    Ok(())
}

/// Applies the command selected by a colour change to the machine.
fn apply_command(
    h: u8,
    l: u8,
    size: usize,
    stack: &mut Vec<i32>,
    output: &mut Vec<i32>,
    input_index: &mut usize,
    inputs: &[i32],
) -> (r: Result<(), PietError>)
    requires
        h < 6,
        l < 3,
    ensures
        match step_command(
            h as int,
            l as int,
            size as int,
            PietMachine {
                stack: old(stack)@,
                output: old(output)@,
                input_index: *old(input_index) as nat,
            },
            inputs@,
        ) {
            Ok(m) => r == Ok::<(), PietError>(()) && m == PietMachine {
                stack: final(stack)@,
                output: final(output)@,
                input_index: *final(input_index) as nat,
            },
            Err(e) => r == Err::<(), PietError>(e),
        },
{
    if h == 0 && l == 0 {
    } else if h == 0 && l == 1 {
        stack.push(size as i32);
    } else if h == 0 && l == 2 {
        stack.pop();
    } else if h == 1 && l == 0 {
        binary_stack_op(stack, BinaryOp::Add)?;
    } else if h == 1 && l == 1 {
        binary_stack_op(stack, BinaryOp::Subtract)?;
    } else if h == 1 && l == 2 {
        binary_stack_op(stack, BinaryOp::Multiply)?;
    } else if h == 2 && l == 0 {
        binary_stack_op(stack, BinaryOp::Divide)?;
    } else if h == 2 && l == 1 {
        binary_stack_op(stack, BinaryOp::Modulo)?;
    } else if h == 2 && l == 2 {
        if let Some(value) = stack.pop() {
            stack.push(
                if value == 0 {
                    1
                } else {
                    0
                },
            );
        }
    } else if h == 3 && l == 0 {
        binary_stack_op(stack, BinaryOp::Greater)?;
    } else if h == 4 && l == 0 {
        if stack.len() > 0 {
            let value = stack[stack.len() - 1];
            stack.push(value);
        }
    } else if h == 4 && l == 2 {
        if *input_index >= inputs.len() {
            return Err(PietError::MissingInput(*input_index));
        }
        let value = inputs[*input_index];
        *input_index = *input_index + 1;
        stack.push(value);
    } else if h == 5 && l == 1 {
        if let Some(value) = stack.pop() {
            output.push(value);
        }
    } else {
        return Err(PietError::UnsupportedCommand(h, l));
    }
    Ok(())
}

/// Runs a parsed program.
pub fn run_colors(colors: &Vec<PietColor>, inputs: &[i32]) -> (r: Result<i32, PietError>)
    requires
        forall|i: int| 0 <= i < colors@.len() ==> in_palette(#[trigger] colors@[i]),
    ensures
        r == run_program(colors@, inputs@),
{
    let mut stack: Vec<i32> = Vec::new();
    let mut output: Vec<i32> = Vec::new();
    let mut input_index: usize = 0;
    let mut cursor: usize = 0;
    while cursor < colors.len()
        invariant
            cursor <= colors.len(),
            input_index <= inputs.len(),
            forall|i: int| 0 <= i < colors@.len() ==> in_palette(#[trigger] colors@[i]),
            run_program(colors@, inputs@) == run_from(
                colors@,
                inputs@,
                cursor as int,
                PietMachine { stack: stack@, output: output@, input_index: input_index as nat },
            ),
        decreases colors.len() - cursor,
    {
        let current = colors[cursor];
        let mut end: usize = cursor + 1;
        while end < colors.len() && colors[end] == current
            invariant
                cursor < end <= colors.len(),
                current == colors@[cursor as int],
                block_end_from(colors@, cursor as int, cursor + 1) == block_end_from(
                    colors@,
                    cursor as int,
                    end as int,
                ),
            decreases colors.len() - end,
        {
            end = end + 1;
        }
        assert(end as int == block_end(colors@, cursor as int));
        if end >= colors.len() {
            return finish_machine(&stack, &output);
        }
        let next = colors[end];
        match (current, next) {
            (
                PietColor::Chromatic { hue, lightness },
                PietColor::Chromatic { hue: next_hue, lightness: next_lightness },
            ) => {
                let h = (next_hue + 6 - hue) % 6;
                let l = (next_lightness + 3 - lightness) % 3;
                apply_command(
                    h,
                    l,
                    end - cursor,
                    &mut stack,
                    &mut output,
                    &mut input_index,
                    inputs,
                )?;
            },
            _ => {},
        }
        cursor = end;
    }
    finish_machine(&stack, &output)
}

fn finish_machine(stack: &Vec<i32>, output: &Vec<i32>) -> (r: Result<i32, PietError>)
    ensures
        r == finish(PietMachine { stack: stack@, output: output@, input_index: 0 }),
{
    if output.len() > 0 {
        Ok(output[0])
    } else if stack.len() > 0 {
        Ok(stack[stack.len() - 1])
    } else {
        Err(PietError::NoNumber)
    }
}

/// Runs a Piet PPM program on the given numeric inputs.
pub fn run_piet_source_with_inputs(source: &str, inputs: &[i32]) -> (r: Result<i32, PietError>)
    ensures
        r == piet_result(source@, inputs@),
{
    let tokens = tokenize_ppm(source);
    let colors = parse_ppm_program(&tokens)?;
    run_colors(&colors, inputs)
}

/// Runs a Piet PPM program that reads no input.
pub fn run_piet_source(source: &str) -> (r: Result<i32, PietError>)
    ensures
        r == piet_result(source@, seq![]),
{
    let none: [i32; 0] = [];
    assert(none@ == Seq::<i32>::empty());
    run_piet_source_with_inputs(source, none.as_slice())
}

/// The inputs the start-up boost is computed for: round 1, a straight, no
/// gap, one energy.
pub open spec fn startup_inputs() -> Seq<i32> {
    seq![1i32, 0i32, 0i32, 1i32]
}

/// Runs the boost oracle program on the start-up inputs; its output is the
/// boost used when the per-turn oracle cannot run.
pub fn run_piet_oracle(source: &str) -> (r: Result<i32, PietError>)
    ensures
        r == piet_result(source@, startup_inputs()),
{
    let inputs: [i32; 4] = [1, 0, 0, 1];
    assert(inputs@ == startup_inputs());
    run_piet_source_with_inputs(source, inputs.as_slice())
}

// ---------------------------------------------------------------------------
// Laws of the commands
// ---------------------------------------------------------------------------

/// The arithmetic commands take the second value from the top as the left
/// operand and the top value as the right one: with `a` under `b` on the
/// stack, add (hue 1, lightness 0) leaves `a + b`, subtract (1, 1) `a - b`,
/// multiply (1, 2) `a * b`, and greater (3, 0) one when `a > b`, else zero;
/// in (4, 2) pushes the next input and out (5, 1) moves the top to the output.
/// Push (0, 1) pushes the size of the block left, pop (0, 2) drops the top,
/// not (2, 2) turns a zero top into one and any other into zero, duplicate
/// (4, 0) pushes a copy of the top, and no change (0, 0) does nothing.
pub proof fn law_piet_commands(s: Seq<i32>, a: i32, b: i32, size: int, m: PietMachine, inputs: Seq<i32>)
    requires
        m.stack == s.push(a).push(b),
    ensures
        i32::MIN <= a + b <= i32::MAX ==> step_command(1, 0, size, m, inputs) == Ok::<
            PietMachine,
            PietError,
        >(PietMachine { stack: s.push((a + b) as i32), ..m }),
        i32::MIN <= a - b <= i32::MAX ==> step_command(1, 1, size, m, inputs) == Ok::<
            PietMachine,
            PietError,
        >(PietMachine { stack: s.push((a - b) as i32), ..m }),
        i32::MIN <= a * b <= i32::MAX ==> step_command(1, 2, size, m, inputs) == Ok::<
            PietMachine,
            PietError,
        >(PietMachine { stack: s.push((a * b) as i32), ..m }),
        step_command(3, 0, size, m, inputs) == Ok::<PietMachine, PietError>(
            PietMachine { stack: s.push(if a > b { 1i32 } else { 0i32 }), ..m },
        ),
        m.input_index < inputs.len() ==> step_command(4, 2, size, m, inputs) == Ok::<
            PietMachine,
            PietError,
        >(
            PietMachine {
                stack: m.stack.push(inputs[m.input_index as int]),
                input_index: m.input_index + 1,
                ..m
            },
        ),
        step_command(5, 1, size, m, inputs) == Ok::<PietMachine, PietError>(
            PietMachine { stack: s.push(a), output: m.output.push(b), ..m },
        ),
        step_command(0, 1, size, m, inputs) == Ok::<PietMachine, PietError>(
            PietMachine { stack: m.stack.push(size as i32), ..m },
        ),
        step_command(0, 2, size, m, inputs) == Ok::<PietMachine, PietError>(
            PietMachine { stack: s.push(a), ..m },
        ),
        step_command(2, 2, size, m, inputs) == Ok::<PietMachine, PietError>(
            PietMachine { stack: s.push(a).push(if b == 0 { 1i32 } else { 0i32 }), ..m },
        ),
        step_command(4, 0, size, m, inputs) == Ok::<PietMachine, PietError>(
            PietMachine { stack: m.stack.push(b), ..m },
        ),
        step_command(0, 0, size, m, inputs) == Ok::<PietMachine, PietError>(m),
{
    let st = s.push(a).push(b);
    assert(st[st.len() - 2] == a);
    assert(st.last() == b);
    assert(st.take(st.len() - 2) == s);
    assert(st.drop_last() == s.push(a));
}

/// Rust's truncating division, as the divide and modulo commands use it: the
/// quotient `q` and remainder `r` of `a` by a nonzero `b` satisfy
/// `a == q * b + r`, with `|r| < |b|` and `r` zero or of the sign of `a`.
proof fn lemma_trunc_div_rem(a: int, b: int)
    requires
        b != 0,
    ensures
        a == trunc_div(a, b) * b + trunc_rem(a, b),
        abs(trunc_rem(a, b)) < abs(b),
        trunc_rem(a, b) == 0 || (trunc_rem(a, b) < 0) == (a < 0),
        abs(trunc_div(a, b)) <= abs(a),
        abs(trunc_div(a, b)) == abs(a) && a != 0 ==> abs(b) == 1,
{
    let aa = abs(a);
    let bb = abs(b);
    let q = aa / bb;
    let r0 = aa % bb;
    assert(aa == q * bb + r0 && 0 <= r0 < bb && 0 <= q) by (nonlinear_arith)
        requires
            aa >= 0,
            bb > 0,
            q == aa / bb,
            r0 == aa % bb,
    ;
    assert(q <= aa && (q == aa && aa > 0 ==> bb == 1)) by (nonlinear_arith)
        requires
            aa == q * bb + r0,
            0 <= r0 < bb,
            q >= 0,
            bb >= 1,
    ;
    let t = trunc_div(a, b);
    let r = trunc_rem(a, b);
    assert(t * b == b * t) by (nonlinear_arith);
    if (a < 0) == (b < 0) {
        assert(t == q);
        if a < 0 {
            assert(b * q == -(q * bb)) by (nonlinear_arith)
                requires
                    bb == -b,
            ;
            assert(r == -r0);
        } else {
            assert(b * q == q * bb) by (nonlinear_arith)
                requires
                    bb == b,
            ;
            assert(r == r0);
        }
    } else {
        assert(t == -q);
        if a < 0 {
            assert(b * (-q) == -(q * bb)) by (nonlinear_arith)
                requires
                    bb == b,
            ;
            assert(r == -r0);
        } else {
            assert(b * (-q) == q * bb) by (nonlinear_arith)
                requires
                    bb == -b,
            ;
            assert(r == r0);
        }
    }
}

/// Division and modulo: with `a` under a nonzero `b` (and not the one quotient
/// that leaves `i32`, `i32::MIN` by -1), divide (hue 2, lightness 0) leaves a
/// quotient `q` and modulo (2, 1) a remainder `r` with `a == q * b + r`,
/// `|r| < |b|` and `r` zero or of the sign of `a`; a zero divisor leaves `a`.
pub proof fn law_piet_division(s: Seq<i32>, a: i32, b: i32, size: int, m: PietMachine, inputs: Seq<i32>)
    requires
        m.stack == s.push(a).push(b),
    ensures
        b == 0 ==> step_command(2, 0, size, m, inputs) == Ok::<PietMachine, PietError>(
            PietMachine { stack: s.push(a), ..m },
        ),
        b == 0 ==> step_command(2, 1, size, m, inputs) == Ok::<PietMachine, PietError>(
            PietMachine { stack: s.push(a), ..m },
        ),
        b != 0 && !(a == i32::MIN && b == -1) ==> exists|q: i32, r: i32|
            {
                &&& #[trigger] step_command(2, 0, size, m, inputs) == Ok::<PietMachine, PietError>(
                    PietMachine { stack: s.push(q), ..m },
                )
                &&& #[trigger] step_command(2, 1, size, m, inputs) == Ok::<PietMachine, PietError>(
                    PietMachine { stack: s.push(r), ..m },
                )
                &&& a == q * b + r
                &&& abs(r as int) < abs(b as int)
                &&& (r == 0 || (r < 0) == (a < 0))
            },
{
    let st = s.push(a).push(b);
    assert(st[st.len() - 2] == a);
    assert(st.last() == b);
    assert(st.take(st.len() - 2) == s);
    if b != 0 && !(a == i32::MIN && b == -1) {
        lemma_trunc_div_rem(a as int, b as int);
        let qi = trunc_div(a as int, b as int);
        let ri = trunc_rem(a as int, b as int);
        assert(fits_i32(qi));
        assert(fits_i32(ri));
        let q = qi as i32;
        let r = ri as i32;
        assert(step_command(2, 0, size, m, inputs) == Ok::<PietMachine, PietError>(
            PietMachine { stack: s.push(q), ..m },
        ));
        assert(step_command(2, 1, size, m, inputs) == Ok::<PietMachine, PietError>(
            PietMachine { stack: s.push(r), ..m },
        ));
    }
}

/// The colour of a hue and lightness.
pub open spec fn chromatic(hue: u8, lightness: u8) -> PietColor {
    PietColor::Chromatic { hue, lightness }
}

/// The five codels light red, dark blue, green, dark cyan, light green: the
/// colour changes are in, in, subtract, out.
pub open spec fn subtract_program() -> Seq<PietColor> {
    seq![chromatic(0, 0), chromatic(4, 2), chromatic(2, 1), chromatic(3, 2), chromatic(2, 0)]
}

/// Reading `x` then `y` and subtracting prints `x - y`: the number read
/// first, which lies below, minus the number read second.
pub proof fn law_piet_subtract_program(x: i32, y: i32)
    requires
        i32::MIN <= x - y <= i32::MAX,
    ensures
        run_program(subtract_program(), seq![x, y]) == Ok::<i32, PietError>((x - y) as i32),
{
    let c = subtract_program();
    let inputs = seq![x, y];
    let e: Seq<i32> = seq![];
    let m0 = PietMachine { stack: e, output: e, input_index: 0 };
    let m1 = PietMachine { stack: seq![x], output: e, input_index: 1 };
    let m2 = PietMachine { stack: seq![x, y], output: e, input_index: 2 };
    let m3 = PietMachine { stack: seq![(x - y) as i32], output: e, input_index: 2 };
    let m4 = PietMachine { stack: e, output: seq![(x - y) as i32], input_index: 2 };
    assert(c.len() == 5);
    assert forall|k: int| 0 <= k < 4 implies #[trigger] block_end(c, k) == k + 1 by {
        assert(c[k] != c[k + 1]);
    }
    assert(block_end_from(c, 4, 5) == 5);
    assert(block_end(c, 4) == 5);
    assert(seq![x].push(y) == seq![x, y]);
    assert(e.push(x) == seq![x]);
    assert(step_command(4, 2, 1, m0, inputs) == Ok::<PietMachine, PietError>(m1));
    assert(step_command(4, 2, 1, m1, inputs) == Ok::<PietMachine, PietError>(m2));
    law_piet_commands(e, x, y, 1, m2, inputs);
    assert(e.push((x - y) as i32) == seq![(x - y) as i32]);
    assert(step_command(1, 1, 1, m2, inputs) == Ok::<PietMachine, PietError>(m3));
    assert(seq![(x - y) as i32].drop_last() == e);
    assert(e.push((x - y) as i32) == seq![(x - y) as i32]);
    assert(step_command(5, 1, 1, m3, inputs) == Ok::<PietMachine, PietError>(m4));
    assert(run_from(c, inputs, 4, m4) == finish(m4));
    assert(run_from(c, inputs, 3, m3) == run_from(c, inputs, 4, m4));
    assert(run_from(c, inputs, 2, m2) == run_from(c, inputs, 3, m3));
    assert(run_from(c, inputs, 1, m1) == run_from(c, inputs, 2, m2));
    assert(run_from(c, inputs, 0, m0) == run_from(c, inputs, 1, m1));
}

/// `k` codels of one colour followed by the same hue one step darker (the
/// lightest again after the darkest): a single push command.
pub open spec fn push_program(hue: u8, lightness: u8, k: nat) -> Seq<PietColor> {
    Seq::new(k, |i: int| chromatic(hue, lightness)).push(
        chromatic(hue, ((lightness + 1) % 3) as u8),
    )
}

proof fn lemma_push_block_end(hue: u8, lightness: u8, k: nat, i: int)
    requires
        lightness < 3,
        1 <= i <= k,
    ensures
        block_end_from(push_program(hue, lightness, k), 0, i) == k,
    decreases k - i,
{
    let c = push_program(hue, lightness, k);
    assert(c.len() == k + 1);
    assert(c[0] == chromatic(hue, lightness));
    if i < k {
        assert(c[i] == c[0]);
        lemma_push_block_end(hue, lightness, k, i + 1);
    } else {
        assert(c[k as int] == chromatic(hue, ((lightness + 1) % 3) as u8));
        assert(c[i] != c[0]);
    }
}

/// A block's size is what the push command pushes: a program of `k` codels of
/// one colour followed by its next darker shade yields `k`, whatever the
/// colour. The push is told apart by the change of hue and lightness between
/// the blocks, not by the colours themselves.
pub proof fn law_piet_block_size(hue: u8, lightness: u8, k: nat)
    requires
        hue < 6,
        lightness < 3,
        1 <= k <= i32::MAX,
    ensures
        run_program(push_program(hue, lightness, k), seq![]) == Ok::<i32, PietError>(k as i32),
{
    let c = push_program(hue, lightness, k);
    let inputs: Seq<i32> = seq![];
    let e: Seq<i32> = seq![];
    let m0 = PietMachine { stack: e, output: e, input_index: 0 };
    let m1 = PietMachine { stack: seq![k as i32], output: e, input_index: 0 };
    assert(c.len() == k + 1);
    lemma_push_block_end(hue, lightness, k, 1);
    assert(block_end(c, 0) == k);
    assert(block_end_from(c, k as int, (k + 1) as int) == k + 1);
    assert(block_end(c, k as int) == k + 1);
    let nl = ((lightness + 1) % 3) as u8;
    assert(c[0] == chromatic(hue, lightness));
    assert(c[k as int] == chromatic(hue, nl));
    assert((hue + 6 - hue) % 6 == 0);
    assert((nl + 3 - lightness) % 3 == 1);
    assert(e.push(k as i32) == seq![k as i32]);
    assert(step_command(0, 1, k as int, m0, inputs) == Ok::<PietMachine, PietError>(m1));
    assert(run_from(c, inputs, k as int, m1) == finish(m1));
    assert(run_from(c, inputs, 0, m0) == run_from(c, inputs, k as int, m1));
}

/// The value of a lit channel at a lightness: light, normal or dark.
pub open spec fn lit_level(lightness: int) -> int {
    if lightness == 2 {
        192
    } else {
        255
    }
}

/// The value of an unlit channel at a lightness.
pub open spec fn unlit_level(lightness: int) -> int {
    if lightness == 0 {
        192
    } else {
        0
    }
}

/// The RGB triple of a hue and lightness in the Piet palette: red is lit for
/// red, yellow and magenta; green for yellow, green and cyan; blue for cyan,
/// blue and magenta.
pub open spec fn palette_rgb(hue: int, lightness: int) -> (int, int, int) {
    let ch = |lit: bool| if lit { lit_level(lightness) } else { unlit_level(lightness) };
    (ch(hue == 0 || hue == 1 || hue == 5), ch(1 <= hue <= 3), ch(3 <= hue <= 5))
}

/// The palette is the Piet palette: each of the eighteen colours is read as
/// its hue and lightness, and a colour read as a hue and lightness is that
/// hue's colour at that lightness.
pub proof fn law_piet_palette(hue: int, lightness: int, red: int, green: int, blue: int)
    ensures
        0 <= hue < 6 && 0 <= lightness < 3 ==> ({
            let t = palette_rgb(hue, lightness);
            chromatic_of(t.0, t.1, t.2) == Some((hue, lightness))
        }),
        chromatic_of(red, green, blue) == Some((hue, lightness)) ==> 0 <= hue < 6 && 0 <= lightness
            < 3 && palette_rgb(hue, lightness) == (red, green, blue),
{
}

} // verus!
