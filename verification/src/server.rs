//! The in-memory game server: rooms, random codes and tokens, and the
//! request routes. Reading the clock, locking and the sockets happen around
//! these functions; they receive the current time and the parsed request.
use vstd::prelude::*;
use crate::game::{
    add_rival, context_wf, new_player, rematch_allowed, rematch_allowed_spec, reset_race, room_wf,
    submit_local_move, submit_online_move, ensure_local_access, player_position, token_position,
    local_token_matches, GameMode, Room, RoundContext, TrackSegment, MAX_TRACK_SEGMENTS,
    RaceAction, action_named,
};
use crate::http::{
    clean_name, clean_room_code, cleaned_name, cleaned_room_code, form_lookup, form_view, is_error,
    missing_message, redirect_to_game, redirect_to_local_game, required_body, required_query,
    is_room_code, room_code_char,
    route_error, HttpRequest, Response, RouteError, Status,
};
use crate::render::{
    online_page, local_page, page, render_error_page, render_favicon_svg, render_landing_page,
    render_local_game_page, render_online_game_page, source_view, error_content, FAVICON_SVG,
    LANDING_CONTENT,
};
use crate::text::{
    char_from_ascii_upper, char_from_digit, chars_of, digit_char, hex_digit, hex_fixed, push_hex,
    str_eq,
};
use crate::track::{
    identity_order, is_anchored_permutation, mix, mix_spec, shuffle_order, shuffle_steps, swap_seq,
    track_for_room,
};

verus! {

/// The state shared by all requests.
#[derive(Debug)]
pub struct AppState {
    pub rooms: Vec<Room>,
    pub track: Vec<TrackSegment>,
    pub piet_boost: i32,
    pub piet_program: Option<String>,
    pub announcements: Vec<String>,
    pub entropy: u64,
    pub random_bytes: Vec<u8>,
    pub max_rooms: usize,
    pub room_ttl_seconds: u64,
}

/// The invariant of the server state: a usable circuit, no more rooms than
/// the room limit (itself at most the number of room codes), every room well-formed, and no two rooms sharing a code.
pub open spec fn app_wf(app: AppState) -> bool {
    &&& 1 <= app.track@.len() <= MAX_TRACK_SEGMENTS
    &&& app.rooms@.len() <= app.max_rooms
    &&& app.max_rooms <= CODE_SPACE
    &&& forall|i: int| 0 <= i < app.rooms@.len() ==> room_wf(#[trigger] app.rooms@[i], app.track@.len() as int)
    &&& codes_distinct(app.rooms@)
}

/// Whether no two rooms share a code.
pub open spec fn codes_distinct(rooms: Seq<Room>) -> bool {
    forall|i: int, j: int|
        0 <= i < rooms.len() && 0 <= j < rooms.len() && i != j ==> #[trigger] rooms[i].code@
            != #[trigger] rooms[j].code@
}

/// Whether two states agree on everything but rooms and entropy.
pub open spec fn same_config(a: AppState, b: AppState) -> bool {
    &&& a.track == b.track
    &&& a.piet_boost == b.piet_boost
    &&& a.piet_program == b.piet_program
    &&& a.announcements == b.announcements
    &&& a.max_rooms == b.max_rooms
    &&& a.room_ttl_seconds == b.room_ttl_seconds
}

// ---------------------------------------------------------------------------
// Randomness: seeds, room codes and tokens
// ---------------------------------------------------------------------------

/// Advances the generator and returns its new value.
pub fn next_random(app: &mut AppState) -> (r: u64)
    ensures
        r == mix_spec(old(app).entropy),
        final(app).entropy == r,
        final(app).rooms == old(app).rooms,
        final(app).random_bytes == old(app).random_bytes,
        same_config(*old(app), *final(app)),
{
    app.entropy = mix(app.entropy);
    app.entropy
}

/// Number of distinct room codes: six characters out of thirty-two.
pub const CODE_SPACE: usize = 1_073_741_824;

/// The room-code character for a value below thirty-two, in the order
/// `ABCDEFGHJKLMNPQRSTUVWXYZ23456789`: the letters without I and O, then the
/// digits from 2.
pub open spec fn code_char(d: int) -> char {
    if d < 8 {
        (65 + d) as char
    } else if d < 13 {
        (66 + d) as char
    } else if d < 24 {
        (67 + d) as char
    } else {
        (26 + d) as char
    }
}

/// The room-code character for a value below thirty-two.
pub fn room_code_char_of(d: u64) -> (c: char)
    requires
        d < 32,
    ensures
        c == code_char(d as int),
{
    let x = d as u32;
    if x < 8 {
        char_from_ascii_upper(65 + x)
    } else if x < 13 {
        char_from_ascii_upper(66 + x)
    } else if x < 24 {
        char_from_ascii_upper(67 + x)
    } else {
        let c = char_from_digit(x - 22);
        assert(digit_char((x - 22) as int) == (26 + x) as char);
        c
    }
}

/// The `k` base-32 digits of `v`, least significant first, as room-code
/// characters.
pub open spec fn code_digits(v: nat, k: nat) -> Seq<char>
    decreases k,
{
    if k == 0 {
        seq![]
    } else {
        seq![code_char((v % 32) as int)] + code_digits(v / 32, (k - 1) as nat)
    }
}

/// The room code a generator value stands for.
pub open spec fn code_of(v: u64) -> Seq<char> {
    code_digits(v as nat, 6)
}

/// The room code a generator value stands for.
pub fn room_code_of(v: u64) -> (s: String)
    ensures
        s@ == code_of(v),
{
    let mut value = v;
    let mut code: Vec<char> = Vec::new();
    let mut i: usize = 0;
    while i < 6
        invariant
            i <= 6,
            code@ + code_digits(value as nat, (6 - i) as nat) == code_digits(v as nat, 6),
        decreases 6 - i,
    {
        let d = value % 32;
        let ghost before = code@;
        code.push(room_code_char_of(d));
        assert(code_digits(value as nat, (6 - i) as nat) == seq![code_char(d as int)]
            + code_digits((value / 32) as nat, (6 - i - 1) as nat));
        assert(before + (seq![code_char(d as int)] + code_digits(
            (value / 32) as nat,
            (6 - i - 1) as nat,
        )) == code@ + code_digits((value / 32) as nat, (6 - i - 1) as nat));
        value = value / 32;
        i = i + 1;
    }
    assert(code@ + Seq::<char>::empty() == code@);
    crate::text::string_from_chars(code.as_slice())
}

/// Every generated room code is a valid room code.
pub proof fn law_generated_codes_are_valid(v: u64)
    ensures
        is_room_code(code_of(v)),
{
    lemma_code_digits(v as nat, 6);
}

proof fn lemma_code_digits(v: nat, k: nat)
    ensures
        code_digits(v, k).len() == k,
        forall|i: int| 0 <= i < k ==> room_code_char(#[trigger] code_digits(v, k)[i]),
    decreases k,
{
    if k > 0 {
        lemma_code_digits(v / 32, (k - 1) as nat);
        let d = (v % 32) as int;
        assert(room_code_char(code_char(d)));
        assert forall|i: int| 0 <= i < k implies room_code_char(#[trigger] code_digits(v, k)[i]) by {
            if i > 0 {
                assert(code_digits(v, k)[i] == code_digits(v / 32, (k - 1) as nat)[i - 1]);
            }
        }
    }
}

/// Thirty-two to the power `k`.
pub open spec fn pow32(k: nat) -> nat
    decreases k,
{
    if k == 0 {
        1
    } else {
        32 * pow32((k - 1) as nat)
    }
}

/// Distinct values below `32^k` have distinct `k`-digit codes.
proof fn lemma_code_digits_injective(v: nat, w: nat, k: nat)
    requires
        v < pow32(k),
        w < pow32(k),
        code_digits(v, k) == code_digits(w, k),
    ensures
        v == w,
    decreases k,
{
    if k > 0 {
        let a = (v % 32) as int;
        let b = (w % 32) as int;
        assert(code_digits(v, k)[0] == code_char(a));
        assert(code_digits(w, k)[0] == code_char(b));
        assert((code_char(a) as u32) == (code_char(b) as u32));
        assert(a == b);
        assert(code_digits(v / 32, (k - 1) as nat) == code_digits(v, k).drop_first());
        assert(code_digits(w / 32, (k - 1) as nat) == code_digits(w, k).drop_first());
        assert(v / 32 < pow32((k - 1) as nat)) by (nonlinear_arith)
            requires
                v < 32 * pow32((k - 1) as nat),
        ;
        assert(w / 32 < pow32((k - 1) as nat)) by (nonlinear_arith)
            requires
                w < 32 * pow32((k - 1) as nat),
        ;
        lemma_code_digits_injective(v / 32, w / 32, (k - 1) as nat);
        assert(v == 32 * (v / 32) + v % 32) by (nonlinear_arith);
        assert(w == 32 * (w / 32) + w % 32) by (nonlinear_arith);
    }
}

/// Distinct values below `CODE_SPACE` have distinct room codes.
pub proof fn lemma_code_of_injective(v: u64, w: u64)
    requires
        v < CODE_SPACE,
        w < CODE_SPACE,
        code_of(v) == code_of(w),
    ensures
        v == w,
{
    reveal_with_fuel(pow32, 7);
    assert(pow32(6) == CODE_SPACE);
    lemma_code_digits_injective(v as nat, w as nat, 6);
}

/// Position of the room with a code.
pub open spec fn room_index(rooms: Seq<Room>, code: Seq<char>) -> Option<int> {
    if exists|i: int| 0 <= i < rooms.len() && #[trigger] rooms[i].code@ == code {
        Some(choose|i: int| 0 <= i < rooms.len() && #[trigger] rooms[i].code@ == code)
    } else {
        None
    }
}

/// Finds the room with a code.
pub fn find_room(rooms: &Vec<Room>, code: &str) -> (r: Option<usize>)
    ensures
        match r {
            Some(i) => i < rooms@.len() && rooms@[i as int].code@ == code@,
            None => room_index(rooms@, code@) is None,
        },
        codes_distinct(rooms@) ==> match r {
            Some(i) => room_index(rooms@, code@) == Some(i as int),
            None => true,
        },
{
    let mut i: usize = 0;
    while i < rooms.len()
        invariant
            i <= rooms@.len(),
            forall|j: int| 0 <= j < i ==> #[trigger] rooms@[j].code@ != code@,
        decreases rooms.len() - i,
    {
        if str_eq(rooms[i].code.as_str(), code) {
            proof {
                if codes_distinct(rooms@) {
                    let k = room_index(rooms@, code@)->0;
                    assert(rooms@[i as int].code@ == code@);
                    if k != i {
                        assert(rooms@[k].code@ != rooms@[i as int].code@);
                    }
                }
            }
            return Some(i);
        }
        i = i + 1;
    }
    None
}

/// The first value in `k..=limit` whose room code no room holds.
pub open spec fn first_free_value(rooms: Seq<Room>, k: nat, limit: nat) -> Option<nat>
    decreases limit + 1 - k,
{
    if k > limit {
        None
    } else if room_index(rooms, code_of(k as u64)) is None {
        Some(k)
    } else {
        first_free_value(rooms, k + 1, limit)
    }
}

proof fn lemma_first_free_value(rooms: Seq<Room>, k: nat, limit: nat)
    ensures
        first_free_value(rooms, k, limit) matches Some(v) ==> k <= v <= limit && room_index(
            rooms,
            code_of(v as u64),
        ) is None,
        first_free_value(rooms, k, limit) is None ==> forall|v: nat|
            k <= v <= limit ==> room_index(rooms, code_of(#[trigger] (v as u64))) is Some,
    decreases limit + 1 - k,
{
    if k <= limit {
        lemma_first_free_value(rooms, k + 1, limit);
        if first_free_value(rooms, k, limit) is None {
            assert forall|v: nat| k <= v <= limit implies room_index(
                rooms,
                code_of(#[trigger] (v as u64)),
            ) is Some by {
                if v > k {
                }
            }
        }
    }
}

/// Fewer rooms than room codes leave a free code among the first
/// `rooms.len() + 1` values: they have distinct codes, more than the rooms
/// hold.
proof fn lemma_free_value_exists(rooms: Seq<Room>)
    requires
        rooms.len() < CODE_SPACE,
    ensures
        first_free_value(rooms, 0, rooms.len()) is Some,
{
    let n = rooms.len();
    lemma_first_free_value(rooms, 0, n);
    if first_free_value(rooms, 0, n) is None {
        let codes = rooms.map_values(|r: Room| r.code@);
        let held = codes.to_set();
        codes.lemma_cardinality_of_set();
        vstd::seq_lib::seq_to_set_is_finite(codes);
        let range = vstd::set_lib::set_int_range(0, n as int + 1);
        vstd::set_lib::lemma_int_range(0, n as int + 1);
        let f = |v: int| code_of(v as u64);
        assert(vstd::relations::injective_on(f, range)) by {
            assert forall|a: int, b: int|
                range.contains(a) && range.contains(b) && #[trigger] f(a) == #[trigger] f(b) implies a
                == b by {
                lemma_code_of_injective(a as u64, b as u64);
            }
        }
        let image = range.map(f);
        vstd::set_lib::lemma_map_size(range, image, f);
        assert(image.subset_of(held)) by {
            assert forall|c: Seq<char>| image.contains(c) implies held.contains(c) by {
                let v = choose|v: int| range.contains(v) && f(v) == c;
                let w = v as nat;
                assert(room_index(rooms, code_of(w as u64)) is Some);
                let i = choose|i: int| 0 <= i < rooms.len() && #[trigger] rooms[i].code@ == code_of(
                    w as u64,
                );
                assert(codes[i] == c);
                assert(codes.contains(c));
            }
        }
        vstd::set_lib::lemma_len_subset(image, held);
        assert(false);
    }
}

/// The generator value after `k` further steps.
pub open spec fn mix_n(e: u64, k: nat) -> u64
    decreases k,
{
    if k == 0 {
        e
    } else {
        mix_spec(mix_n(e, (k - 1) as nat))
    }
}

/// The first of the draws `k..=limit` whose room code no room holds.
pub open spec fn first_free_draw(rooms: Seq<Room>, e: u64, k: nat, limit: nat) -> Option<nat>
    decreases limit + 1 - k,
{
    if k > limit {
        None
    } else if room_index(rooms, code_of(mix_n(e, k))) is None {
        Some(k)
    } else {
        first_free_draw(rooms, e, k + 1, limit)
    }
}

/// The generator value after drawing a room code, and the code:
/// `unique_room_code`'s result.
pub open spec fn drawn_code(rooms: Seq<Room>, e: u64) -> (u64, Seq<char>) {
    let n = rooms.len();
    match first_free_draw(rooms, e, 1, (n + 1) as nat) {
        Some(k) => (mix_n(e, k), code_of(mix_n(e, k))),
        None => (mix_n(e, (n + 1) as nat), code_of(first_free_value(rooms, 0, n)->0 as u64)),
    }
}

/// A free room code: the first free one among `rooms.len() + 1` draws of
/// the generator (every draw advances it), or, when every draw collides, the
/// first free code in the fixed order `code_of(0), code_of(1), ...`, where
/// one is always found among the first `rooms.len() + 1`.
pub fn unique_room_code(app: &mut AppState) -> (r: String)
    requires
        old(app).rooms@.len() < CODE_SPACE,
    ensures
        final(app).rooms == old(app).rooms,
        final(app).random_bytes == old(app).random_bytes,
        same_config(*old(app), *final(app)),
        (final(app).entropy, r@) == drawn_code(old(app).rooms@, old(app).entropy),
        room_index(old(app).rooms@, r@) is None,
        is_room_code(r@),
{
    let attempts = app.rooms.len();
    let ghost e0 = app.entropy;
    let ghost limit = (attempts + 1) as nat;
    let mut tried: usize = 0;
    while tried <= attempts
        invariant
            tried <= attempts + 1,
            attempts == old(app).rooms@.len(),
            attempts < CODE_SPACE,
            limit == attempts + 1,
            app.rooms == old(app).rooms,
            app.random_bytes == old(app).random_bytes,
            same_config(*old(app), *app),
            e0 == old(app).entropy,
            mix_n(e0, tried as nat) == app.entropy,
            first_free_draw(old(app).rooms@, e0, 1, limit) == first_free_draw(
                old(app).rooms@,
                e0,
                (tried + 1) as nat,
                limit,
            ),
        decreases attempts + 1 - tried,
    {
        let value = next_random(app);
        assert(mix_n(e0, (tried + 1) as nat) == value);
        let code = room_code_of(value);
        match find_room(&app.rooms, code.as_str()) {
            None => {
                proof {
                    law_generated_codes_are_valid(value);
                }
                return code;
            },
            Some(_) => {},
        }
        assert(first_free_draw(old(app).rooms@, e0, (tried + 1) as nat, limit) == first_free_draw(
            old(app).rooms@,
            e0,
            (tried + 2) as nat,
            limit,
        ));
        tried = tried + 1;
    }
    assert(first_free_draw(old(app).rooms@, e0, (tried + 1) as nat, limit) is None);
    proof {
        lemma_free_value_exists(app.rooms@);
    }
    let ghost rooms = app.rooms@;
    let mut v: u64 = 0;
    loop
        invariant
            v <= attempts,
            attempts == rooms.len(),
            attempts < CODE_SPACE,
            rooms == app.rooms@,
            rooms == old(app).rooms@,
            app.rooms == old(app).rooms,
            app.random_bytes == old(app).random_bytes,
            same_config(*old(app), *app),
            app.entropy == mix_n(old(app).entropy, (attempts + 1) as nat),
            first_free_draw(rooms, old(app).entropy, 1, (attempts + 1) as nat) is None,
            first_free_value(rooms, 0, attempts as nat) == first_free_value(
                rooms,
                v as nat,
                attempts as nat,
            ),
            first_free_value(rooms, 0, attempts as nat) is Some,
        decreases attempts - v,
    {
        let code = room_code_of(v);
        match find_room(&app.rooms, code.as_str()) {
            None => {
                proof {
                    law_generated_codes_are_valid(v);
                }
                return code;
            },
            Some(_) => {},
        }
        assert(first_free_value(rooms, v as nat, attempts as nat) == first_free_value(
            rooms,
            (v + 1) as nat,
            attempts as nat,
        ));
        if v as usize == attempts {
            assert(first_free_value(rooms, (v + 1) as nat, attempts as nat) is None);
            assert(false);
        }
        v = v + 1;
    }
}

/// Two lower-case hexadecimal digits for each byte, in order.
pub open spec fn bytes_hex(b: Seq<u8>) -> Seq<char>
    decreases b.len(),
{
    if b.len() == 0 {
        seq![]
    } else {
        bytes_hex(b.drop_last()) + hex_fixed(b.last() as nat, 2, false)
    }
}

/// The token drawn from four generator values: sixteen lower-case
/// hexadecimal digits for each.
pub open spec fn token_of(a: u64, b: u64, c: u64, d: u64) -> Seq<char> {
    hex_fixed(a as nat, 16, false) + hex_fixed(b as nat, 16, false) + hex_fixed(c as nat, 16, false)
        + hex_fixed(d as nat, 16, false)
}

/// Number of random bytes in a token.
pub const TOKEN_BYTES: usize = 32;

/// The token drawn from a randomness pool and a generator value, with the
/// pool and generator value left afterwards: the pool's last 32 bytes when
/// it has that many, otherwise four generator values.
pub open spec fn drawn_token(pool: Seq<u8>, e: u64) -> (Seq<char>, Seq<u8>, u64) {
    if pool.len() >= TOKEN_BYTES {
        (
            bytes_hex(pool.subrange(pool.len() - TOKEN_BYTES, pool.len() as int)),
            pool.subrange(0, pool.len() - TOKEN_BYTES),
            e,
        )
    } else {
        let e1 = mix_spec(e);
        let e2 = mix_spec(e1);
        let e3 = mix_spec(e2);
        let e4 = mix_spec(e3);
        (token_of(e1, e2, e3, e4), pool, e4)
    }
}

/// Draws a 256-bit bearer token as 64 hexadecimal digits. The last 32 bytes
/// of the operating-system randomness in `random_bytes` are used when there
/// are that many; otherwise the token is made of four generator values.
pub fn next_token(app: &mut AppState) -> (s: String)
    ensures
        final(app).rooms == old(app).rooms,
        same_config(*old(app), *final(app)),
        (s@, final(app).random_bytes@, final(app).entropy) == drawn_token(
            old(app).random_bytes@,
            old(app).entropy,
        ),
{
    let n = app.random_bytes.len();
    if n >= TOKEN_BYTES {
        let start = n - TOKEN_BYTES;
        let mut s = String::new();
        let mut i: usize = start;
        while i < n
            invariant
                start <= i <= n,
                n == app.random_bytes@.len(),
                start == n - TOKEN_BYTES,
                *app == *old(app),
                s@ == bytes_hex(app.random_bytes@.subrange(start as int, i as int)),
            decreases n - i,
        {
            assert(app.random_bytes@.subrange(start as int, i + 1).drop_last()
                == app.random_bytes@.subrange(start as int, i as int));
            push_hex(&mut s, app.random_bytes[i] as u64, 2, false);
            i = i + 1;
        }
        app.random_bytes.truncate(start);
        s
    } else {
        let a = next_random(app);
        let b = next_random(app);
        let c = next_random(app);
        let d = next_random(app);
        let mut s = String::new();
        push_hex(&mut s, a, 16, false);
        push_hex(&mut s, b, 16, false);
        push_hex(&mut s, c, 16, false);
        push_hex(&mut s, d, 16, false);
        s
    }
}

/// Every token has 64 characters, each a lower-case hexadecimal digit,
/// whether it comes from 32 random bytes or from four generator values.
pub proof fn law_tokens_are_hex(bytes: Seq<u8>, a: u64, b: u64, c: u64, d: u64)
    requires
        bytes.len() == TOKEN_BYTES,
    ensures
        bytes_hex(bytes).len() == 64,
        token_of(a, b, c, d).len() == 64,
        forall|i: int| 0 <= i < 64 ==> is_lower_hex(#[trigger] bytes_hex(bytes)[i]),
        forall|i: int| 0 <= i < 64 ==> is_lower_hex(#[trigger] token_of(a, b, c, d)[i]),
{
    lemma_bytes_hex(bytes);
    lemma_hex_lower(a as nat, 16);
    lemma_hex_lower(b as nat, 16);
    lemma_hex_lower(c as nat, 16);
    lemma_hex_lower(d as nat, 16);
    let t = token_of(a, b, c, d);
    let ha = hex_fixed(a as nat, 16, false);
    let hb = hex_fixed(b as nat, 16, false);
    let hc = hex_fixed(c as nat, 16, false);
    let hd = hex_fixed(d as nat, 16, false);
    assert forall|i: int| 0 <= i < 64 implies is_lower_hex(#[trigger] t[i]) by {
        if i < 16 {
            assert(t[i] == ha[i]);
        } else if i < 32 {
            assert(t[i] == hb[i - 16]);
        } else if i < 48 {
            assert(t[i] == hc[i - 32]);
        } else {
            assert(t[i] == hd[i - 48]);
        }
    }
}

/// Whether a character is a lower-case hexadecimal digit.
pub open spec fn is_lower_hex(c: char) -> bool {
    ('0' <= c <= '9') || ('a' <= c <= 'f')
}

proof fn lemma_bytes_hex(b: Seq<u8>)
    ensures
        bytes_hex(b).len() == 2 * b.len(),
        forall|i: int| 0 <= i < 2 * b.len() ==> is_lower_hex(#[trigger] bytes_hex(b)[i]),
    decreases b.len(),
{
    if b.len() > 0 {
        let init = b.drop_last();
        lemma_bytes_hex(init);
        lemma_hex_lower(b.last() as nat, 2);
        let h = hex_fixed(b.last() as nat, 2, false);
        assert forall|i: int| 0 <= i < 2 * b.len() implies is_lower_hex(#[trigger] bytes_hex(b)[i]) by {
            if i < 2 * init.len() {
                assert(bytes_hex(b)[i] == bytes_hex(init)[i]);
            } else {
                assert(bytes_hex(b)[i] == h[i - 2 * init.len()]);
            }
        }
    }
}

proof fn lemma_hex_lower(n: nat, width: nat)
    ensures
        hex_fixed(n, width, false).len() == width,
        forall|i: int| 0 <= i < width ==> is_lower_hex(#[trigger] hex_fixed(n, width, false)[i]),
    decreases width,
{
    if width > 0 {
        lemma_hex_lower(n / 16, (width - 1) as nat);
        let d = (n % 16) as int;
        let c = hex_digit(d, false);
        assert(('0' <= c <= '9') || ('a' <= c <= 'f'));
        let prefix = hex_fixed(n / 16, (width - 1) as nat, false);
        assert(hex_fixed(n, width, false) == prefix.push(c));
        assert forall|i: int| 0 <= i < width implies is_lower_hex(#[trigger] hex_fixed(n, width, false)[i]) by {
            if i < width - 1 {
                assert(hex_fixed(n, width, false)[i] == prefix[i]);
            }
        }
    }
}

/// The first announcement, or a neutral line when there is none.
pub fn first_announcement(app: &AppState) -> (s: String)
    ensures
        s@ == (if app.announcements@.len() > 0 {
            app.announcements@[0]@
        } else {
            "Race ready."@
        }),
{
    if app.announcements.len() > 0 {
        app.announcements[0].clone()
    } else {
        "Race ready.".to_owned()
    }
}

// ---------------------------------------------------------------------------
// Room lifetime and capacity
// ---------------------------------------------------------------------------

/// Whether a room is still active at `now`: it was used less than the
/// time-to-live ago.
pub open spec fn room_alive(room: Room, now: u64, ttl: u64) -> bool {
    (if now >= room.last_activity {
        now - room.last_activity
    } else {
        0
    }) < ttl
}

/// The test `room_alive` at `now` with time-to-live `ttl`.
pub open spec fn alive_at(now: u64, ttl: u64) -> spec_fn(Room) -> bool {
    |r: Room| room_alive(r, now, ttl)
}

/// Removes the rooms that have been inactive for the time-to-live or longer;
/// the others keep their order.
pub fn prune_expired_rooms(app: &mut AppState, now: u64)
    requires
        app_wf(*old(app)),
    ensures
        app_wf(*final(app)),
        final(app).rooms@ == old(app).rooms@.filter(alive_at(now, old(app).room_ttl_seconds)),
        final(app).entropy == old(app).entropy,
        final(app).random_bytes == old(app).random_bytes,
        same_config(*old(app), *final(app)),
{
    let ttl = app.room_ttl_seconds;
    let ghost keep = alive_at(now, ttl);
    let mut old_rooms: Vec<Room> = Vec::new();
    std::mem::swap(&mut old_rooms, &mut app.rooms);
    let mut kept: Vec<Room> = Vec::new();
    let mut i: usize = 0;
    let n = old_rooms.len();
    assert(old_rooms@.take(0).filter(keep) == Seq::<Room>::empty());
    for r in it: old_rooms
        invariant
            n == old_rooms@.len(),
            it.seq() == old_rooms@,
            i == it.index(),
            i <= n,
            kept@ == old_rooms@.take(i as int).filter(keep),
            keep == alive_at(now, ttl),
            ttl == old(app).room_ttl_seconds,
            app.rooms@.len() == 0,
            app.entropy == old(app).entropy,
            app.random_bytes == old(app).random_bytes,
            same_config(*old(app), *app),
    {
        proof {
            assert(old_rooms@.take(i + 1) == old_rooms@.take(i as int).push(r));
            old_rooms@.take(i as int).lemma_filter_push(r, keep);
        }
        let age = if now >= r.last_activity {
            now - r.last_activity
        } else {
            0
        };
        if age < ttl {
            kept.push(r);
        }
        i = i + 1;
    }
    assert(old_rooms@.take(n as int) == old_rooms@);
    proof {
        let rs = old_rooms@;
        let fs = rs.filter(keep);
        assert forall|k: int| 0 <= k < fs.len() implies rs.contains(#[trigger] fs[k]) by {
            rs.lemma_filter_contains_rev(keep, fs[k]);
            assert(fs.contains(fs[k]));
        }
        assert forall|k: int| 0 <= k < fs.len() implies room_wf(#[trigger] fs[k], old(app).track@.len() as int) by {
            assert(rs.contains(fs[k]));
        }
        lemma_filter_keeps_distinct(rs, keep);
        rs.lemma_filter_len(keep);
    }
    app.rooms = kept;
}

proof fn lemma_filter_keeps_distinct(rs: Seq<Room>, keep: spec_fn(Room) -> bool)
    requires
        codes_distinct(rs),
    ensures
        codes_distinct(rs.filter(keep)),
    decreases rs.len(),
{
    reveal_with_fuel(Seq::filter, 1);
    if rs.len() > 0 {
        let init = rs.drop_last();
        assert(codes_distinct(init));
        lemma_filter_keeps_distinct(init, keep);
        let fi = init.filter(keep);
        if keep(rs.last()) {
            assert(rs.filter(keep) == fi.push(rs.last()));
            assert forall|k: int| 0 <= k < fi.len() implies #[trigger] fi[k].code@ != rs.last().code@ by {
                init.lemma_filter_contains_rev(keep, fi[k]);
                assert(fi.contains(fi[k]));
                let m = choose|m: int| 0 <= m < init.len() && init[m] == fi[k];
                assert(rs[m] == fi[k]);
                assert(rs[rs.len() - 1] == rs.last());
            }
        } else {
            assert(rs.filter(keep) == fi);
        }
    }
}

/// Refuses a new room when the room limit is reached.
pub fn ensure_room_capacity(app: &AppState) -> (r: Result<(), RouteError>)
    ensures
        r is Ok <==> app.rooms@.len() < app.max_rooms,
        r matches Err(e) ==> is_error(
            e,
            Status::ServiceUnavailable,
            "The room limit has been reached. Try again later."@,
        ),
{
    if app.rooms.len() >= app.max_rooms {
        return Err(
            route_error(
                Status::ServiceUnavailable,
                "The room limit has been reached. Try again later.",
            ),
        );
    }
    Ok(())
}

/// The circuit a room with circuit seed `seed` races on: the segments in
/// `shuffle_order(seed, len)`.
pub open spec fn circuit(track: Seq<TrackSegment>, seed: u64) -> Seq<TrackSegment> {
    Seq::new(track.len(), |k: int| track[shuffle_order(seed, track.len() as int)[k]])
}

/// The segments of `s` in the order `order`.
pub open spec fn arranged(s: Seq<TrackSegment>, order: Seq<int>) -> Seq<TrackSegment> {
    Seq::new(order.len(), |k: int| s[order[k]])
}

proof fn lemma_swap_keeps_multiset(t: Seq<TrackSegment>, i: int, j: int)
    requires
        0 <= i < t.len(),
        0 <= j < t.len(),
    ensures
        t.update(i, t[j]).update(j, t[i]).to_multiset() =~= t.to_multiset(),
{
    broadcast use vstd::seq_lib::to_multiset_update;
    broadcast use vstd::multiset::group_multiset_axioms;

    if i != j {
        let u = t.update(i, t[j]);
        assert(u[j] == t[j]);
        assert(u.to_multiset() == t.to_multiset().insert(t[j]).remove(t[i]));
        assert(u.update(j, t[i]).to_multiset() == u.to_multiset().insert(t[i]).remove(t[j]));
        let m = t.to_multiset();
        assert(t.contains(t[i]));
        vstd::seq_lib::to_multiset_contains(t, t[i]);
        assert(m.count(t[i]) > 0);
        let a = t[j];
        let b = t[i];
        assert forall|x: TrackSegment| #[trigger] m.insert(a).remove(b).insert(b).remove(a).count(x)
            == m.count(x) by {
            if x == a && x == b {
            } else if x == a {
            } else if x == b {
            }
        }
        assert(m.insert(a).remove(b).insert(b).remove(a) =~= m);
    } else {
        assert(t.update(i, t[j]).update(j, t[i]) =~= t);
    }
}

proof fn lemma_shuffle_keeps_multiset(
    s: Seq<TrackSegment>,
    state: u64,
    i: int,
    order: Seq<int>,
)
    requires
        is_anchored_permutation(order, s.len() as int),
        i <= s.len() - 2,
        arranged(s, order).to_multiset() == s.to_multiset(),
    ensures
        arranged(s, shuffle_steps(state, i, order)).to_multiset() == s.to_multiset(),
    decreases i,
{
    if i >= 2 {
        let n = s.len() as int;
        let st = mix_spec(state);
        let j = 1 + (st as int % i);
        let next = swap_seq(order, i, j);
        let t = arranged(s, order);
        assert(arranged(s, next) =~= t.update(i, t[j]).update(j, t[i]));
        lemma_swap_keeps_multiset(t, i, j);
        assert forall|a: int, b: int| 0 <= a < n && 0 <= b < n && a != b implies next[a]
            != next[b] by {
            assert(order[a] != order[b] || a == b);
        }
        lemma_shuffle_keeps_multiset(s, st, i - 1, next);
    }
}

/// A room's circuit holds the same segments as the base circuit, each as
/// often, with the start and the finish segment in place; rooms with the
/// same seed get the same circuit.
pub proof fn law_circuit_keeps_segments(track: Seq<TrackSegment>, seed: u64)
    ensures
        circuit(track, seed).len() == track.len(),
        circuit(track, seed).to_multiset() == track.to_multiset(),
        track.len() >= 1 ==> circuit(track, seed)[0] == track[0] && circuit(track, seed)[track.len()
            - 1] == track[track.len() - 1],
{
    let n = track.len() as int;
    crate::track::law_room_track_is_anchored_permutation(seed, n);
    let id = identity_order(n);
    assert(arranged(track, id) =~= track);
    assert(is_anchored_permutation(id, n));
    if n >= 3 {
        lemma_shuffle_keeps_multiset(track, seed, n - 2, id);
    }
    assert(circuit(track, seed) =~= arranged(track, shuffle_order(seed, n)));
}

/// The circuit as a room sees it.
pub fn room_track(app: &AppState, code: &str) -> (r: Result<Vec<TrackSegment>, RouteError>)
    requires
        codes_distinct(app.rooms@),
    ensures
        match room_index(app.rooms@, code@) {
            Some(i) => r matches Ok(t) && t@ == circuit(app.track@, app.rooms@[i].seed),
            None => r matches Err(e) && is_error(e, Status::NotFound, "Room not found."@),
        },
{
    match find_room(&app.rooms, code) {
        Some(i) => {
            let t = track_for_room(app.track.as_slice(), app.rooms[i].seed);
            assert(t@ =~= circuit(app.track@, app.rooms@[i as int].seed));
            Ok(t)
        },
        None => Err(route_error(Status::NotFound, "Room not found.")),
    }
}

} // verus!
