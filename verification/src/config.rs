//! Start-up settings and connection admission.
use vstd::prelude::*;
use crate::game::{clamp, TrackSegment, MAX_TRACK_SEGMENTS};
use crate::http::{Response, RouteError, Status};
use crate::server::{app_wf, AppState, CODE_SPACE};
use crate::text::{chars_of, parse_u64, parse_u64_spec};

verus! {

/// Circuit seed used when none is configured.
pub const DEFAULT_TRACK_SEED: u64 = 42;

/// Simultaneous connections served when no limit is configured.
pub const DEFAULT_MAX_CONNECTIONS: u64 = 128;

/// Rooms kept when no limit is configured.
pub const DEFAULT_MAX_ROOMS: u64 = 1_000;

/// Seconds of inactivity after which a room expires, when not configured.
pub const DEFAULT_ROOM_TTL_SECONDS: u64 = 7_200;

/// The boost used when the oracle program cannot be run.
pub const FALLBACK_PIET_BOOST: i32 = 2;

/// A numeric setting: the configured number kept within `min..=max`, or
/// `default` when nothing readable is configured.
pub open spec fn setting(value: Option<Seq<char>>, default: u64, min: u64, max: u64) -> u64 {
    match value {
        Some(v) => match parse_u64_spec(v) {
            Some(n) => clamp(n as int, min as int, max as int) as u64,
            None => default,
        },
        None => default,
    }
}

/// Reads a numeric setting from its configured text, if any.
pub fn env_u64(value: Option<&str>, default: u64, min: u64, max: u64) -> (r: u64)
    requires
        min <= max,
    ensures
        r == setting(
            match value {
                Some(v) => Some(v@),
                None => None,
            },
            default,
            min,
            max,
        ),
{
    match value {
        Some(v) => {
            let cs = chars_of(v);
            match parse_u64(cs.as_slice()) {
                Some(n) => if n < min {
                    min
                } else if n > max {
                    max
                } else {
                    n
                },
                None => default,
            }
        },
        None => default,
    }
}

/// The configured circuit seed, or the default one when nothing readable is
/// configured.
pub fn track_seed(value: Option<&str>) -> (r: u64)
    ensures
        r == match value {
            Some(v) => match parse_u64_spec(v@) {
                Some(n) => n as u64,
                None => DEFAULT_TRACK_SEED,
            },
            None => DEFAULT_TRACK_SEED,
        },
{
    match value {
        Some(v) => {
            let cs = chars_of(v);
            match parse_u64(cs.as_slice()) {
                Some(n) => n,
                None => DEFAULT_TRACK_SEED,
            }
        },
        None => DEFAULT_TRACK_SEED,
    }
}

/// The generator's first value: the clock reading mixed with the seed, or
/// zero when the clock cannot be read.
pub fn initial_entropy(clock_nanos: Option<u64>, seed: u64) -> (r: u64)
    ensures
        r == match clock_nanos {
            Some(t) => t ^ seed,
            None => seed ^ seed,
        },
{
    match clock_nanos {
        Some(t) => t ^ seed,
        None => seed ^ seed,
    }
}

/// The server state at start-up: no rooms, the circuit, the boost, the
/// oracle program, the announcer lines, the generator and the limits (the
/// room limit at most the number of room codes).
pub fn new_app(
    track: Vec<TrackSegment>,
    piet_boost: i32,
    piet_program: Option<String>,
    announcements: Vec<String>,
    entropy: u64,
    max_rooms: usize,
    room_ttl_seconds: u64,
) -> (app: AppState)
    requires
        1 <= track@.len() <= MAX_TRACK_SEGMENTS,
        max_rooms <= CODE_SPACE,
    ensures
        app_wf(app),
        app.rooms@.len() == 0,
        app.track == track,
        app.piet_boost == piet_boost,
        app.piet_program == piet_program,
        app.announcements == announcements,
        app.entropy == entropy,
        app.random_bytes@.len() == 0,
        app.max_rooms == max_rooms,
        app.room_ttl_seconds == room_ttl_seconds,
{
    AppState {
        rooms: Vec::new(),
        track,
        piet_boost,
        piet_program,
        announcements,
        entropy,
        random_bytes: Vec::new(),
        max_rooms,
        room_ttl_seconds,
    }
}

/// Whether one more connection may be served while `active` are open.
pub fn admits_connection(active: usize, max_connections: usize) -> (r: bool)
    ensures
        r == (active < max_connections),
{
    active < max_connections
}

/// The answer to a connection over the limit: 503, retry after a second.
pub fn busy_response() -> (r: Response)
    ensures
        r.status == Status::ServiceUnavailable,
        r.content_type@ == "text/plain; charset=utf-8"@,
        r.body@ == "Server is busy. Try again shortly."@,
        r.headers@.len() == 1,
        r.headers@[0].0@ == "Retry-After"@,
        r.headers@[0].1@ == "1"@,
{
    let mut headers: Vec<(String, String)> = Vec::new();
    headers.push(("Retry-After".to_owned(), "1".to_owned()));
    Response {
        status: Status::ServiceUnavailable,
        content_type: "text/plain; charset=utf-8",
        body: "Server is busy. Try again shortly.".to_owned(),
        headers,
    }
}

/// The plain-text answer to a request that could not be read.
pub fn unreadable_response(e: &RouteError) -> (r: Response)
    ensures
        r.status == e.status,
        r.content_type@ == "text/plain; charset=utf-8"@,
        r.body@ == e.message@,
        r.headers@.len() == 0,
{
    Response {
        status: e.status,
        content_type: "text/plain; charset=utf-8",
        body: e.message.clone(),
        headers: Vec::new(),
    }
}

} // verus!
