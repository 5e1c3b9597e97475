//! The circuit: reading the tab-separated track table, the per-room shuffle
//! of the middle segments, and the short fingerprint shown to players.
use vstd::prelude::*;
use crate::game::{TrackSegment, MAX_TRACK_SEGMENTS};
use crate::piet::token_views;
use crate::text::{
    chars_eq, chars_of, parse_i32, parse_i32_spec, push_hex, push_i64, hex_fixed, signed_decimal,
    trim, trim_chars,
};

verus! {

/// The pieces of `s` between separators, where `cur` is the piece already
/// started (`str::split`).
pub open spec fn split_on(s: Seq<char>, sep: char, cur: Seq<char>) -> Seq<Seq<char>>
    decreases s.len(),
{
    if s.len() == 0 {
        seq![cur]
    } else if s[0] == sep {
        seq![cur] + split_on(s.drop_first(), sep, seq![])
    } else {
        split_on(s.drop_first(), sep, cur.push(s[0]))
    }
}

/// Splitting always yields at least one piece.
pub proof fn lemma_split_on_nonempty(s: Seq<char>, sep: char, cur: Seq<char>)
    ensures
        split_on(s, sep, cur).len() >= 1,
    decreases s.len(),
{
    if s.len() > 0 {
        if s[0] == sep {
            lemma_split_on_nonempty(s.drop_first(), sep, seq![]);
        } else {
            lemma_split_on_nonempty(s.drop_first(), sep, cur.push(s[0]));
        }
    }
}

/// A line without its trailing carriage return.
pub open spec fn strip_cr(l: Seq<char>) -> Seq<char> {
    if l.len() > 0 && l.last() == '\r' {
        l.drop_last()
    } else {
        l
    }
}

/// The lines of a text as `str::lines` yields them: split at each '\n', a
/// final '\n' ending the last line, and a '\r' just before a '\n' dropped (a
/// '\r' at the very end without a '\n' stays).
pub open spec fn text_lines(s: Seq<char>) -> Seq<Seq<char>> {
    let pieces = split_on(s, '\n', seq![]);
    let ends_with_newline = s.len() > 0 && s.last() == '\n';
    let kept = if s.len() == 0 {
        seq![]
    } else if ends_with_newline {
        pieces.drop_last()
    } else {
        pieces
    };
    Seq::new(
        kept.len(),
        |i: int|
            if i < kept.len() - 1 || ends_with_newline {
                strip_cr(kept[i])
            } else {
                kept[i]
            },
    )
}

/// Splits characters at every separator.
pub fn split_chars(s: &[char], sep: char) -> (r: Vec<Vec<char>>)
    ensures
        token_views(r@) == split_on(s@, sep, seq![]),
{
    let mut pieces: Vec<Vec<char>> = Vec::new();
    let mut cur: Vec<char> = Vec::new();
    let mut i: usize = 0;
    assert(s@.skip(0) == s@);
    assert(token_views(pieces@) + split_on(s@, sep, seq![]) == split_on(s@, sep, seq![]));
    while i < s.len()
        invariant
            i <= s.len(),
            token_views(pieces@) + split_on(s@.skip(i as int), sep, cur@) == split_on(
                s@,
                sep,
                seq![],
            ),
        decreases s.len() - i,
    {
        let c = s[i];
        let ghost rest = s@.skip(i as int);
        assert(rest.drop_first() == s@.skip(i + 1));
        assert(rest[0] == c);
        if c == sep {
            let ghost old_pieces = token_views(pieces@);
            let ghost cv = cur@;
            let done = cur;
            pieces.push(done);
            cur = Vec::new();
            assert(token_views(pieces@) == old_pieces.push(cv));
            assert(old_pieces + (seq![cv] + split_on(s@.skip(i + 1), sep, seq![])) == token_views(
                pieces@,
            ) + split_on(s@.skip(i + 1), sep, seq![]));
        } else {
            cur.push(c);
        }
        i = i + 1;
    }
    assert(s@.skip(s.len() as int) == Seq::<char>::empty());
    let ghost old_pieces = token_views(pieces@);
    let ghost cv = cur@;
    pieces.push(cur);
    assert(token_views(pieces@) == old_pieces.push(cv));
    pieces
}

/// The lines of a text (`str::lines`).
pub fn lines_of(s: &[char]) -> (r: Vec<Vec<char>>)
    ensures
        token_views(r@) == text_lines(s@),
{
    if s.len() == 0 {
        let r: Vec<Vec<char>> = Vec::new();
        assert(token_views(r@) == text_lines(s@));
        return r;
    }
    let mut pieces = split_chars(s, '\n');
    let ghost all = token_views(pieces@);
    proof {
        lemma_split_on_nonempty(s@, '\n', seq![]);
    }
    let ghost spec_kept = if s@.last() == '\n' {
        all.drop_last()
    } else {
        all
    };
    if s[s.len() - 1] == '\n' {
        pieces.pop();
        assert(token_views(pieces@) =~= all.drop_last());
    }
    let ghost kept = token_views(pieces@);
    assert(kept == spec_kept);
    let ends_with_newline = s[s.len() - 1] == '\n';
    let mut r: Vec<Vec<char>> = Vec::new();
    let mut i: usize = 0;
    while i < pieces.len()
        invariant
            i <= pieces@.len(),
            kept == token_views(pieces@),
            r@.len() == i,
            forall|k: int|
                0 <= k < i ==> #[trigger] r@[k]@ == (if k < kept.len() - 1 || ends_with_newline {
                    strip_cr(kept[k])
                } else {
                    kept[k]
                }),
        decreases pieces.len() - i,
    {
        let line = &pieces[i];
        let mut l: Vec<char> = Vec::new();
        let terminated = i + 1 < pieces.len() || ends_with_newline;
        let n = if terminated && line.len() > 0 && line[line.len() - 1] == '\r' {
            line.len() - 1
        } else {
            line.len()
        };
        let mut k: usize = 0;
        while k < n
            invariant
                k <= n <= line@.len(),
                l@ == line@.subrange(0, k as int),
            decreases n - k,
        {
            l.push(line[k]);
            k = k + 1;
        }
        assert(kept[i as int] == line@);
        assert(l@ == (if i < kept.len() - 1 || ends_with_newline {
            strip_cr(kept[i as int])
        } else {
            kept[i as int]
        }));
        r.push(l);
        i = i + 1;
    }
    assert(token_views(r@) == text_lines(s@));
    r
}

/// Why a track table was rejected; line numbers count from one.
#[derive(Clone, Copy, Debug, PartialEq, Eq, Structural)]
pub enum TrackError {
    InvalidRow(usize),
    InvalidSpeed(usize),
    InvalidBoost(usize),
    InvalidRecovery(usize),
    TooShort,
    TooLong,
}

/// The model of a segment: terrain, speed, boost and recovery.
pub type SegmentModel = (Seq<char>, int, int, int);

/// The model of a segment value.
pub open spec fn segment_model(s: TrackSegment) -> SegmentModel {
    (s.terrain@, s.speed as int, s.boost as int, s.recovery as int)
}

/// The segment a data row describes, or why it cannot be read; `number` is
/// the row's line number.
pub open spec fn row_segment(line: Seq<char>, number: int) -> Result<SegmentModel, TrackError> {
    let fields = split_on(line, '\t', seq![]);
    if fields.len() != 5 {
        Err(TrackError::InvalidRow(number as usize))
    } else {
        match parse_i32_spec(fields[2]) {
            None => Err(TrackError::InvalidSpeed(number as usize)),
            Some(speed) => match parse_i32_spec(fields[3]) {
                None => Err(TrackError::InvalidBoost(number as usize)),
                Some(boost) => match parse_i32_spec(fields[4]) {
                    None => Err(TrackError::InvalidRecovery(number as usize)),
                    Some(recovery) => Ok((fields[1], speed, boost, recovery)),
                },
            },
        }
    }
}

/// The segments of the data rows from line index `i` on (blank rows are
/// skipped).
pub open spec fn rows_from(lines: Seq<Seq<char>>, i: int) -> Result<Seq<SegmentModel>, TrackError>
    decreases lines.len() - i,
{
    if i < 0 || i >= lines.len() {
        Ok(seq![])
    } else if trim(lines[i]).len() == 0 {
        rows_from(lines, i + 1)
    } else {
        match row_segment(lines[i], i + 1) {
            Err(e) => Err(e),
            Ok(seg) => match rows_from(lines, i + 1) {
                Err(e) => Err(e),
                Ok(rest) => Ok(seq![seg] + rest),
            },
        }
    }
}

/// The circuit a track table describes: every line after the header that is
/// not blank is `index, terrain, speed, boost, recovery` separated by tabs;
/// a circuit needs at least eight segments.
pub open spec fn track_table(content: Seq<char>) -> Result<Seq<SegmentModel>, TrackError> {
    match rows_from(text_lines(content), 1) {
        Err(e) => Err(e),
        Ok(segs) => if segs.len() < 8 {
            Err(TrackError::TooShort)
        } else if segs.len() > MAX_TRACK_SEGMENTS {
            Err(TrackError::TooLong)
        } else {
            Ok(segs)
        },
    }
}

/// The models of a vector of segments.
pub open spec fn track_models(v: Seq<TrackSegment>) -> Seq<SegmentModel> {
    Seq::new(v.len(), |i: int| segment_model(v[i]))
}

/// Prepends known segments to the outcome of reading the remaining rows.
pub open spec fn prepend_rows(prefix: Seq<SegmentModel>, r: Result<Seq<SegmentModel>, TrackError>) -> Result<
    Seq<SegmentModel>,
    TrackError,
> {
    match r {
        Ok(rest) => Ok(prefix + rest),
        Err(e) => Err(e),
    }
}

fn string_of(cs: &Vec<char>) -> (s: String)
    ensures
        s@ == cs@,
{
    crate::text::string_from_chars(cs.as_slice())
}

/// Reads one data row.
fn parse_row(line: &Vec<char>, number: usize) -> (r: Result<TrackSegment, TrackError>)
    ensures
        match r {
            Ok(seg) => row_segment(line@, number as int) == Ok::<SegmentModel, TrackError>(
                segment_model(seg),
            ),
            Err(e) => row_segment(line@, number as int) == Err::<SegmentModel, TrackError>(e),
        },
{
    let fields = split_chars(line.as_slice(), '\t');
    let ghost fv = token_views(fields@);
    if fields.len() != 5 {
        return Err(TrackError::InvalidRow(number));
    }
    assert(fv[1] == fields@[1]@ && fv[2] == fields@[2]@ && fv[3] == fields@[3]@ && fv[4]
        == fields@[4]@);
    let speed = match parse_i32(fields[2].as_slice()) {
        Some(v) => v,
        None => {
            return Err(TrackError::InvalidSpeed(number));
        },
    };
    let boost = match parse_i32(fields[3].as_slice()) {
        Some(v) => v,
        None => {
            return Err(TrackError::InvalidBoost(number));
        },
    };
    let recovery = match parse_i32(fields[4].as_slice()) {
        Some(v) => v,
        None => {
            return Err(TrackError::InvalidRecovery(number));
        },
    };
    let terrain = string_of(&fields[1]);
    Ok(TrackSegment { terrain, speed, boost, recovery })
}

/// Reads a tab-separated track table (the text of the track file).
pub fn parse_track(content: &str) -> (r: Result<Vec<TrackSegment>, TrackError>)
    ensures
        match r {
            Ok(segs) => track_table(content@) == Ok::<Seq<SegmentModel>, TrackError>(
                track_models(segs@),
            ),
            Err(e) => track_table(content@) == Err::<Seq<SegmentModel>, TrackError>(e),
        },
{
    let chars = chars_of(content);
    let lines = lines_of(chars.as_slice());
    let ghost lv = token_views(lines@);
    assert(lv == text_lines(content@));
    let mut track: Vec<TrackSegment> = Vec::new();
    let mut i: usize = 1;
    assert(track_models(track@) == Seq::<SegmentModel>::empty());
    proof {
        match rows_from(lv, 1) {
            Ok(rest) => assert(Seq::<SegmentModel>::empty() + rest == rest),
            Err(_) => {},
        }
    }
    while i < lines.len()
        invariant
            1 <= i,
            i <= lines@.len() || lines@.len() == 0,
            lv == token_views(lines@),
            lv == text_lines(content@),
            rows_from(lv, 1) == prepend_rows(track_models(track@), rows_from(lv, i as int)),
        decreases lines.len() - i,
    {
        let ghost before = track_models(track@);
        let trimmed = trim_chars(lines[i].as_slice());
        assert(lv[i as int] == lines@[i as int]@);
        if trimmed.len() == 0 {
            i = i + 1;
            continue;
        }
        assert(trim(lv[i as int]).len() != 0);
        let seg = match parse_row(&lines[i], i + 1) {
            Ok(s) => s,
            Err(e) => {
                assert(rows_from(lv, i as int) == Err::<Seq<SegmentModel>, TrackError>(e));
                return Err(e);
            },
        };
        track.push(seg);
        proof {
            assert(track_models(track@) == before.push(segment_model(seg)));
            match rows_from(lv, i + 1) {
                Ok(rest) => {
                    assert(before + (seq![segment_model(seg)] + rest) == track_models(track@)
                        + rest);
                },
                Err(_) => {},
            }
        }
        i = i + 1;
    }
    assert(rows_from(lv, i as int) == Ok::<Seq<SegmentModel>, TrackError>(seq![]));
    assert(track_models(track@) + Seq::<SegmentModel>::empty() == track_models(track@));
    if track.len() < 8 {
        return Err(TrackError::TooShort);
    }
    if track.len() > MAX_TRACK_SEGMENTS {
        return Err(TrackError::TooLong);
    }
    Ok(track)
}

/// The message the loader reports for a rejected table.
pub open spec fn track_error_text(e: TrackError) -> Seq<char> {
    match e {
        TrackError::InvalidRow(n) => "invalid track row at line "@ + signed_decimal(n as int),
        TrackError::InvalidSpeed(n) => "invalid speed at line "@ + signed_decimal(n as int),
        TrackError::InvalidBoost(n) => "invalid boost at line "@ + signed_decimal(n as int),
        TrackError::InvalidRecovery(n) => "invalid recovery at line "@ + signed_decimal(n as int),
        TrackError::TooShort => "track must have at least eight segments"@,
        TrackError::TooLong => "track has more segments than the engine supports"@,
    }
}

impl TrackError {
    /// The message the loader reports.
    pub fn message(&self) -> (s: String)
        ensures
            s@ == track_error_text(*self),
    {
        match *self {
            TrackError::InvalidRow(n) => with_line("invalid track row at line ", n),
            TrackError::InvalidSpeed(n) => with_line("invalid speed at line ", n),
            TrackError::InvalidBoost(n) => with_line("invalid boost at line ", n),
            TrackError::InvalidRecovery(n) => with_line("invalid recovery at line ", n),
            TrackError::TooShort => "track must have at least eight segments".to_owned(),
            TrackError::TooLong => "track has more segments than the engine supports".to_owned(),
        }
    }
}

fn with_line(prefix: &str, n: usize) -> (s: String)
    ensures
        s@ == prefix@ + signed_decimal(n as int),
{
    let mut s = prefix.to_owned();
    let m: u64 = n as u64;
    if m > i64::MAX as u64 {
        // A line number this large cannot occur in a table held in memory;
        // it is still printed exactly.
        crate::text::push_u64(&mut s, m);
        return s;
    }
    push_i64(&mut s, m as i64);
    s
}

// ---------------------------------------------------------------------------
// The per-room shuffle
// ---------------------------------------------------------------------------

/// One step of the xorshift generator the server draws room seeds, codes and
/// tokens from: three xor-shifts followed by adding the golden-ratio constant.
pub open spec fn mix_spec(x: u64) -> u64 {
    let a = x ^ (x << 13u64);
    let b = a ^ (a >> 7u64);
    let c = b ^ (b << 17u64);
    if c as int + 0x9E37_79B9_7F4A_7C15 > u64::MAX {
        (c as int + 0x9E37_79B9_7F4A_7C15 - 0x1_0000_0000_0000_0000) as u64
    } else {
        (c as int + 0x9E37_79B9_7F4A_7C15) as u64
    }
}

/// One step of the generator.
pub fn mix(x: u64) -> (r: u64)
    ensures
        r == mix_spec(x),
{
    let mut e = x;
    e = e ^ (e << 13u64);
    e = e ^ (e >> 7u64);
    e = e ^ (e << 17u64);
    e.wrapping_add(0x9E37_79B9_7F4A_7C15)
}

/// `s` with the entries at `i` and `j` exchanged.
pub open spec fn swap_seq(s: Seq<int>, i: int, j: int) -> Seq<int> {
    s.update(i, s[j]).update(j, s[i])
}

/// Fisher-Yates over positions `1..=i`: each step draws the next generator
/// value and exchanges position `i` with a position between 1 and `i`.
pub open spec fn shuffle_steps(state: u64, i: int, order: Seq<int>) -> Seq<int>
    decreases i,
{
    if i < 2 {
        order
    } else {
        let st = mix_spec(state);
        let j = 1 + (st as int % i);
        shuffle_steps(st, i - 1, swap_seq(order, i, j))
    }
}

/// The identity order on `n` positions.
pub open spec fn identity_order(n: int) -> Seq<int> {
    Seq::new(n as nat, |k: int| k)
}

/// The order in which a room sees the circuit's segments: the middle
/// segments shuffled by the room seed, the first and last in place.
pub open spec fn shuffle_order(seed: u64, n: int) -> Seq<int> {
    if n >= 3 {
        shuffle_steps(seed, n - 2, identity_order(n))
    } else {
        identity_order(n)
    }
}

/// Whether `order` lists each of `0..n` exactly once and keeps the first and
/// last positions.
pub open spec fn is_anchored_permutation(order: Seq<int>, n: int) -> bool {
    &&& order.len() == n
    &&& forall|k: int| 0 <= k < n ==> 0 <= #[trigger] order[k] < n
    &&& forall|a: int, b: int| 0 <= a < n && 0 <= b < n && a != b ==> order[a] != order[b]
    &&& n >= 1 ==> order[0] == 0 && order[n - 1] == n - 1
}

proof fn lemma_shuffle_steps_permutation(state: u64, i: int, order: Seq<int>, n: int)
    requires
        is_anchored_permutation(order, n),
        i <= n - 2,
    ensures
        is_anchored_permutation(shuffle_steps(state, i, order), n),
    decreases i,
{
    if i >= 2 {
        let st = mix_spec(state);
        let j = 1 + (st as int % i);
        let next = swap_seq(order, i, j);
        assert forall|a: int, b: int| 0 <= a < n && 0 <= b < n && a != b implies next[a]
            != next[b] by {
            assert(order[a] != order[b] || a == b);
        }
        lemma_shuffle_steps_permutation(st, i - 1, next, n);
    }
}

/// Every room's circuit order is a permutation of the segments that keeps
/// the start and the finish segment in place.
pub proof fn law_room_track_is_anchored_permutation(seed: u64, n: int)
    requires
        n >= 0,
    ensures
        is_anchored_permutation(shuffle_order(seed, n), n),
{
    let id = identity_order(n);
    assert(is_anchored_permutation(id, n));
    if n >= 3 {
        lemma_shuffle_steps_permutation(seed, n - 2, id, n);
    }
}

/// The order of a vector of positions as integers.
pub open spec fn order_ints(v: Seq<usize>) -> Seq<int> {
    Seq::new(v.len(), |k: int| v[k] as int)
}

impl TrackSegment {
    /// An identical segment.
    pub fn duplicate(&self) -> (r: TrackSegment)
        ensures
            r == *self,
    {
        TrackSegment {
            terrain: self.terrain.clone(),
            speed: self.speed,
            boost: self.boost,
            recovery: self.recovery,
        }
    }
}

/// The circuit as a room with this seed sees it: the segments in
/// `shuffle_order(seed, len)`, so every segment keeps its values and the
/// straight start and the finish stay in place.
pub fn track_for_room(track: &[TrackSegment], seed: u64) -> (r: Vec<TrackSegment>)
    ensures
        r@.len() == track@.len(),
        forall|k: int|
            0 <= k < r@.len() ==> #[trigger] r@[k] == track@[shuffle_order(seed, track@.len() as int)[k]],
{
    let n = track.len();
    let mut order: Vec<usize> = Vec::new();
    let mut k: usize = 0;
    while k < n
        invariant
            k <= n == track@.len(),
            order@.len() == k,
            forall|m: int| 0 <= m < k ==> #[trigger] order@[m] == m,
        decreases n - k,
    {
        order.push(k);
        k = k + 1;
    }
    assert(order_ints(order@) == identity_order(n as int));
    proof {
        law_room_track_is_anchored_permutation(seed, n as int);
    }
    if n >= 3 {
        let mut state = seed;
        let mut i: usize = n - 2;
        while i >= 2
            invariant
                n >= 3,
                n == track@.len(),
                1 <= i <= n - 2,
                order@.len() == n,
                forall|m: int| 0 <= m < n ==> #[trigger] order@[m] < n,
                shuffle_order(seed, n as int) == shuffle_steps(state, i as int, order_ints(order@)),
            decreases i,
        {
            state = mix(state);
            let j: usize = 1 + (state % (i as u64)) as usize;
            let a = order[i];
            let b = order[j];
            let ghost before = order_ints(order@);
            order.set(i, b);
            order.set(j, a);
            assert(order_ints(order@) == swap_seq(before, i as int, j as int));
            i = i - 1;
        }
    }
    let ghost final_order = order_ints(order@);
    assert(final_order == shuffle_order(seed, n as int)) by {
        if n >= 3 {
        }
    }
    let mut result: Vec<TrackSegment> = Vec::new();
    let mut k: usize = 0;
    while k < n
        invariant
            k <= n == track@.len(),
            order@.len() == n,
            final_order == order_ints(order@),
            final_order == shuffle_order(seed, n as int),
            is_anchored_permutation(final_order, n as int),
            result@.len() == k,
            forall|m: int|
                0 <= m < k ==> #[trigger] result@[m] == track@[shuffle_order(seed, n as int)[m]],
        decreases n - k,
    {
        let idx = order[k];
        assert(final_order[k as int] == idx as int);
        let seg = track[idx].duplicate();
        result.push(seg);
        k = k + 1;
    }
    result
}

// ---------------------------------------------------------------------------
// The circuit fingerprint
// ---------------------------------------------------------------------------

/// The FNV-1a offset basis and prime.
pub const FNV_OFFSET: u64 = 0xcbf29ce484222325;
pub const FNV_PRIME: u64 = 0x100000001b3;

/// Wrapping 64-bit multiplication.
pub open spec fn wmul(a: u64, b: u64) -> u64 {
    ((a as nat * b as nat) % 0x1_0000_0000_0000_0000) as u64
}

/// FNV-1a over a run of bytes.
pub open spec fn fnv_bytes(h: u64, bytes: Seq<u8>) -> u64
    decreases bytes.len(),
{
    if bytes.len() == 0 {
        h
    } else {
        fnv_bytes(wmul(h ^ (bytes[0] as u64), FNV_PRIME), bytes.drop_first())
    }
}

/// The hash after folding one segment in: its terrain bytes, then its speed,
/// boost and recovery (sign-extended) at bit offsets 0, 8 and 16.
pub open spec fn mix_segment(h: u64, s: TrackSegment) -> u64 {
    let h1 = fnv_bytes(h, vstd::utf8::encode_utf8(s.terrain@));
    let v = ((s.speed as i64) as u64) ^ (((s.boost as i64) as u64) << 8u64) ^ (((
    s.recovery as i64) as u64) << 16u64);
    wmul(h1 ^ v, FNV_PRIME)
}

/// The hash of a whole circuit.
pub open spec fn fingerprint_hash(track: Seq<TrackSegment>) -> u64
    decreases track.len(),
{
    if track.len() == 0 {
        FNV_OFFSET
    } else {
        mix_segment(fingerprint_hash(track.drop_last()), track.last())
    }
}

/// The circuit identifier: the low 32 bits of the hash as eight upper-case
/// hexadecimal digits.
pub open spec fn fingerprint(track: Seq<TrackSegment>) -> Seq<char> {
    hex_fixed((fingerprint_hash(track) as int % 0x1_0000_0000) as nat, 8, true)
}

/// The circuit identifier shown on the race page.
pub fn track_fingerprint(track: &[TrackSegment]) -> (s: String)
    ensures
        s@ == fingerprint(track@),
        s@.len() == 8,
{
    let mut hash: u64 = FNV_OFFSET;
    let mut k: usize = 0;
    while k < track.len()
        invariant
            k <= track@.len(),
            hash == fingerprint_hash(track@.take(k as int)),
        decreases track.len() - k,
    {
        let segment = &track[k];
        let bytes = segment.terrain.as_str().as_bytes();
        let mut h = hash;
        let mut b: usize = 0;
        assert(bytes@.skip(0) == bytes@);
        while b < bytes.len()
            invariant
                b <= bytes@.len(),
                fnv_bytes(hash, bytes@) == fnv_bytes(h, bytes@.skip(b as int)),
            decreases bytes.len() - b,
        {
            assert(bytes@.skip(b as int).drop_first() == bytes@.skip(b + 1));
            h = (h ^ (bytes[b] as u64)).wrapping_mul(FNV_PRIME);
            b = b + 1;
        }
        assert(bytes@.skip(b as int) == Seq::<u8>::empty());
        let speed: u64 = #[verifier::truncate] ((segment.speed as i64) as u64);
        let boost: u64 = #[verifier::truncate] ((segment.boost as i64) as u64);
        let recovery: u64 = #[verifier::truncate] ((segment.recovery as i64) as u64);
        let v = speed ^ (boost << 8u64) ^ (recovery << 16u64);
        hash = (h ^ v).wrapping_mul(FNV_PRIME);
        assert(track@.take(k + 1).drop_last() == track@.take(k as int));
        k = k + 1;
    }
    assert(track@.take(track@.len() as int) == track@);
    let low: u64 = (#[verifier::truncate] (hash as u32)) as u64;
    assert(low == hash as int % 0x1_0000_0000) by (bit_vector)
        requires
            low == (hash as u32) as u64,
    ;
    let mut s = String::new();
    push_hex(&mut s, low, 8, true);
    proof {
        lemma_hex_fixed_len((hash as int % 0x1_0000_0000) as nat, 8, true);
    }
    s
}

/// A fixed-width hexadecimal rendering has exactly `width` digits.
pub proof fn lemma_hex_fixed_len(n: nat, width: nat, upper: bool)
    ensures
        hex_fixed(n, width, upper).len() == width,
    decreases width,
{
    if width > 0 {
        lemma_hex_fixed_len(n / 16, (width - 1) as nat, upper);
    }
}

/// The symbol drawn on a segment of a terrain.
pub open spec fn terrain_symbol_of(t: Seq<char>) -> Seq<char> {
    if t == "curve"@ {
        "\u{25d2}"@
    } else if t == "mud"@ {
        "\u{2248}"@
    } else if t == "jump"@ {
        "\u{25b2}"@
    } else {
        "\u{25b0}"@
    }
}

/// The symbol drawn on a segment of a terrain.
pub fn terrain_symbol(terrain: &str) -> (r: &'static str)
    ensures
        r@ == terrain_symbol_of(terrain@),
{
    if crate::text::str_eq(terrain, "curve") {
        "\u{25d2}"
    } else if crate::text::str_eq(terrain, "mud") {
        "\u{2248}"
    } else if crate::text::str_eq(terrain, "jump") {
        "\u{25b2}"
    } else {
        "\u{25b0}"
    }
}

// ---------------------------------------------------------------------------
// Laws of the table and the shuffle
// ---------------------------------------------------------------------------

/// Whether a text holds no tab.
pub open spec fn no_tab(f: Seq<char>) -> bool {
    forall|k: int| 0 <= k < f.len() ==> f[k] != '\t'
}

proof fn lemma_split_field(f: Seq<char>, rest: Seq<char>, cur: Seq<char>)
    requires
        no_tab(f),
    ensures
        split_on(f + seq!['\t'] + rest, '\t', cur) == seq![cur + f] + split_on(rest, '\t', seq![]),
        split_on(f, '\t', cur) == seq![cur + f],
    decreases f.len(),
{
    if f.len() == 0 {
        assert(f + seq!['\t'] + rest == seq!['\t'] + rest);
        assert((seq!['\t'] + rest).drop_first() == rest);
        assert(cur + f == cur);
    } else {
        let g = f.drop_first();
        assert(no_tab(g));
        assert((f + seq!['\t'] + rest).drop_first() == g + seq!['\t'] + rest);
        assert((f + seq!['\t'] + rest)[0] == f[0]);
        lemma_split_field(g, rest, cur.push(f[0]));
        assert(cur.push(f[0]) + g == cur + f);
    }
}

/// The five tab-free fields of a row joined by tabs.
pub open spec fn tab_row(
    index: Seq<char>,
    terrain: Seq<char>,
    speed: Seq<char>,
    boost: Seq<char>,
    recovery: Seq<char>,
) -> Seq<char> {
    index + seq!['\t'] + terrain + seq!['\t'] + speed + seq!['\t'] + boost + seq!['\t'] + recovery
}

proof fn lemma_row_fields(
    index: Seq<char>,
    terrain: Seq<char>,
    speed: Seq<char>,
    boost: Seq<char>,
    recovery: Seq<char>,
)
    requires
        no_tab(index),
        no_tab(terrain),
        no_tab(speed),
        no_tab(boost),
        no_tab(recovery),
    ensures
        split_on(tab_row(index, terrain, speed, boost, recovery), '\t', seq![]) == seq![
            index,
            terrain,
            speed,
            boost,
            recovery,
        ],
{
    let t = seq!['\t'];
    let r4 = recovery;
    let r3 = boost + t + r4;
    let r2 = speed + t + r3;
    let r1 = terrain + t + r2;
    let line = tab_row(index, terrain, speed, boost, recovery);
    assert(line == index + t + r1);
    assert(r1 == terrain + t + r2);
    lemma_split_field(index, r1, seq![]);
    lemma_split_field(terrain, r2, seq![]);
    lemma_split_field(speed, r3, seq![]);
    lemma_split_field(boost, r4, seq![]);
    lemma_split_field(recovery, seq![], seq![]);
    let e: Seq<char> = seq![];
    assert(e + index == index);
    assert(e + terrain == terrain);
    assert(e + speed == speed);
    assert(e + boost == boost);
    assert(e + recovery == recovery);
    let fields = split_on(line, '\t', seq![]);
    assert(fields == seq![index] + (seq![terrain] + (seq![speed] + (seq![boost] + seq![recovery]))));
    assert(fields =~= seq![index, terrain, speed, boost, recovery]);
}

/// A data row `index, terrain, speed, boost, recovery` separated by tabs, with
/// readable numbers, is read as the segment with that terrain, speed (third
/// field), boost (fourth field) and recovery (fifth field).
pub proof fn law_track_row_fields(
    index: Seq<char>,
    terrain: Seq<char>,
    speed: Seq<char>,
    boost: Seq<char>,
    recovery: Seq<char>,
    number: int,
    seg: TrackSegment,
)
    requires
        no_tab(index),
        no_tab(terrain),
        no_tab(speed),
        no_tab(boost),
        no_tab(recovery),
        parse_i32_spec(speed) is Some,
        parse_i32_spec(boost) is Some,
        parse_i32_spec(recovery) is Some,
        row_segment(tab_row(index, terrain, speed, boost, recovery), number) == Ok::<
            SegmentModel,
            TrackError,
        >(segment_model(seg)),
    ensures
        seg.terrain@ == terrain,
        seg.speed as int == parse_i32_spec(speed)->0,
        seg.boost as int == parse_i32_spec(boost)->0,
        seg.recovery as int == parse_i32_spec(recovery)->0,
{
    lemma_row_fields(index, terrain, speed, boost, recovery);
}

/// Which error a five-field row gives: the speed is read first, then the
/// boost, then the recovery, and the first unreadable one is reported with the
/// row's line number. A row without any tab is no track row.
pub proof fn law_track_row_errors(
    index: Seq<char>,
    terrain: Seq<char>,
    speed: Seq<char>,
    boost: Seq<char>,
    recovery: Seq<char>,
    number: int,
)
    requires
        no_tab(index),
        no_tab(terrain),
        no_tab(speed),
        no_tab(boost),
        no_tab(recovery),
    ensures
        ({
            let line = tab_row(index, terrain, speed, boost, recovery);
            &&& parse_i32_spec(speed) is None ==> row_segment(line, number) == Err::<
                SegmentModel,
                TrackError,
            >(TrackError::InvalidSpeed(number as usize))
            &&& parse_i32_spec(speed) is Some && parse_i32_spec(boost) is None ==> row_segment(
                line,
                number,
            ) == Err::<SegmentModel, TrackError>(TrackError::InvalidBoost(number as usize))
            &&& parse_i32_spec(speed) is Some && parse_i32_spec(boost) is Some && parse_i32_spec(
                recovery,
            ) is None ==> row_segment(line, number) == Err::<SegmentModel, TrackError>(
                TrackError::InvalidRecovery(number as usize),
            )
        }),
        row_segment(index, number) == Err::<SegmentModel, TrackError>(
            TrackError::InvalidRow(number as usize),
        ),
{
    lemma_row_fields(index, terrain, speed, boost, recovery);
    lemma_split_field(index, seq![], seq![]);
    let e: Seq<char> = seq![];
    assert(e + index == index);
}

/// Positions above `i` are left alone by the shuffle steps from `i` down.
proof fn lemma_shuffle_keeps_upper(state: u64, i: int, order: Seq<int>, p: int)
    requires
        i < p < order.len(),
    ensures
        shuffle_steps(state, i, order).len() == order.len(),
        shuffle_steps(state, i, order)[p] == order[p],
    decreases i,
{
    if i >= 2 {
        let st = mix_spec(state);
        let j = 1 + (st as int % i);
        lemma_shuffle_keeps_upper(st, i - 1, swap_seq(order, i, j), p);
    }
}

/// Each room's order starts from its own seed: on a circuit of at least four
/// segments, the second-to-last position of a room's circuit holds segment
/// `1 + mix(seed) mod (n - 2)`, the first draw of the generator started at the
/// seed, and no later step moves it again.
pub proof fn law_shuffle_starts_from_seed(seed: u64, n: int)
    requires
        n >= 4,
    ensures
        shuffle_order(seed, n)[n - 2] == 1 + (mix_spec(seed) as int % (n - 2)),
{
    let id = identity_order(n);
    let st = mix_spec(seed);
    let j = 1 + (st as int % (n - 2));
    let next = swap_seq(id, n - 2, j);
    assert(next[n - 2] == j);
    lemma_shuffle_keeps_upper(st, n - 3, next, n - 2);
}

/// Two generator states whose next draws are zero and one.
proof fn lemma_mix_draws_zero_and_one()
    ensures
        mix_spec(0xd71d_39b7_3446_66a6u64) == 0,
        mix_spec(0xec2c_e1fa_71c3_9546u64) == 1,
{
    assert(mix_spec(0xd71d_39b7_3446_66a6u64) == 0) by (bit_vector);
    assert(mix_spec(0xec2c_e1fa_71c3_9546u64) == 1) by (bit_vector);
}

/// The seed decides the circuit: on every circuit of at least four segments
/// there are two seeds whose rooms see different segments second-to-last, so
/// two rooms need not race the same order.
pub proof fn law_room_seeds_differ(n: int)
    requires
        n >= 4,
    ensures
        exists|s1: u64, s2: u64|
            #[trigger] shuffle_order(s1, n)[n - 2] != #[trigger] shuffle_order(s2, n)[n - 2],
{
    let s1 = 0xd71d_39b7_3446_66a6u64;
    let s2 = 0xec2c_e1fa_71c3_9546u64;
    lemma_mix_draws_zero_and_one();
    law_shuffle_starts_from_seed(s1, n);
    law_shuffle_starts_from_seed(s2, n);
    vstd::arithmetic::div_mod::lemma_small_mod(0, (n - 2) as nat);
    vstd::arithmetic::div_mod::lemma_small_mod(1, (n - 2) as nat);
    assert(shuffle_order(s1, n)[n - 2] == 1);
    assert(shuffle_order(s2, n)[n - 2] == 2);
}

/// The table's size and its first row: a circuit read from a table has at
/// least eight segments and at most `MAX_TRACK_SEGMENTS`; rows that read
/// fine but number fewer than eight are refused as too short, and too many
/// as too long. The first line is the header and is never read as a row: the
/// second line, when not blank, is the first segment, reported as line 2 when
/// it cannot be read.
pub proof fn law_track_table_shape(content: Seq<char>)
    ensures
        match track_table(content) {
            Ok(segs) => 8 <= segs.len() <= MAX_TRACK_SEGMENTS,
            Err(_) => true,
        },
        match rows_from(text_lines(content), 1) {
            Ok(rows) => (rows.len() < 8 ==> track_table(content) == Err::<
                Seq<SegmentModel>,
                TrackError,
            >(TrackError::TooShort)) && (rows.len() > MAX_TRACK_SEGMENTS ==> track_table(content)
                == Err::<Seq<SegmentModel>, TrackError>(TrackError::TooLong)),
            Err(e) => track_table(content) == Err::<Seq<SegmentModel>, TrackError>(e),
        },
        text_lines(content).len() >= 2 && trim(text_lines(content)[1]).len() > 0 ==> match row_segment(
            text_lines(content)[1],
            2,
        ) {
            Err(e) => track_table(content) == Err::<Seq<SegmentModel>, TrackError>(e),
            Ok(seg) => match track_table(content) {
                Ok(segs) => segs[0] == seg,
                Err(_) => true,
            },
        },
{
    let lines = text_lines(content);
    if lines.len() >= 2 && trim(lines[1]).len() > 0 {
        match row_segment(lines[1], 2) {
            Err(e) => {},
            Ok(seg) => match rows_from(lines, 2) {
                Err(e) => {},
                Ok(rest) => {
                    assert((seq![seg] + rest)[0] == seg);
                },
            },
        }
    }
}

} // verus!
