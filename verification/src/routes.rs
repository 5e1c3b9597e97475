//! The request routes: each one reads the form fields it needs, checks them,
//! and changes the game state or renders a page. The current time is handed
//! in by the caller.
use vstd::prelude::*;
use crate::game::{
    add_rival, boost_preview, ensure_local_access, preview_boost, local_move, local_token_matches, new_player, online_move,
    player_position, rematch_allowed, rematch_allowed_spec, reset_race, restarted, room_wf,
    submit_local_move, submit_online_move, token_position, action_named, GameMode, Player,
    RaceAction, Room, RoundContext, START_ENERGY,
};
use crate::render::{
    error_content, local_page, online_page, page, render_error_page, render_favicon_svg,
    render_landing_page, render_local_game_page, render_online_game_page, FAVICON_SVG,
    LANDING_CONTENT,
};
use crate::http::{
    ascii_lower, ascii_lowercase, clean_name, cleaned_name, form_lookup, form_view,
    is_error, is_room_code, game_location, redirect_to_game,
    redirect_to_local_game, route_error, Form, HttpRequest, Response, RouteError, Status,
    clean_room_code, cleaned_room_code, required_body, required_query,
};
use crate::server::{
    app_wf, code_of, codes_distinct, drawn_code, drawn_token, ensure_room_capacity, first_announcement,
    find_room, next_random, next_token, room_index,
    same_config, unique_room_code, AppState, circuit, room_track, prune_expired_rooms,
    alive_at,
};
use crate::track::mix_spec;
use crate::text::{chars_of, str_eq};

verus! {

// ---------------------------------------------------------------------------
// Form fields and responses
// ---------------------------------------------------------------------------

/// The value of a form field, if it was sent.
pub open spec fn field(form: Form, key: Seq<char>) -> Option<Seq<char>> {
    form_lookup(form_view(form), key)
}

/// A required form field: its non-empty value, or the message that it is
/// missing.
pub open spec fn required(form: Form, key: Seq<char>) -> Result<Seq<char>, Seq<char>> {
    match field(form, key) {
        Some(v) => if v.len() > 0 {
            Ok(v)
        } else {
            Err(crate::http::missing_message(key))
        },
        None => Err(crate::http::missing_message(key)),
    }
}

/// Whether a response is a 303 redirect to `location`.
pub open spec fn redirects_to(r: Response, location: Seq<char>) -> bool {
    &&& r.status == Status::SeeOther
    &&& r.headers@.len() == 1
    &&& r.headers@[0].0@ == "Location"@
    &&& r.headers@[0].1@ == location
}

/// Whether a route result is the refusal with `status` and `message`.
pub open spec fn refused(r: Result<Response, RouteError>, status: Status, message: Seq<char>) -> bool {
    r matches Err(e) && is_error(e, status, message)
}

/// The first announcer line, or a neutral line when there is none.
pub open spec fn first_line(lines: Seq<String>) -> Seq<char> {
    if lines.len() > 0 {
        lines[0]@
    } else {
        "Race ready."@
    }
}

/// Whether a racer is new: the given name and token, at the start line with
/// five energy and no move.
pub open spec fn fresh_player(p: Player, name: Seq<char>, token: Seq<char>) -> bool {
    &&& p.name@ == name
    &&& p.token@ == token
    &&& p.distance == 0
    &&& p.energy == START_ENERGY
    &&& p.submitted is None
}

/// Whether a room is newly opened: its code and mode, fresh racers with the
/// given names and tokens, the first round of an undecided race, and the
/// given device token, summary, announcement, circuit seed and time.
pub open spec fn fresh_room(
    room: Room,
    code: Seq<char>,
    mode: GameMode,
    names: Seq<Seq<char>>,
    tokens: Seq<Seq<char>>,
    local_token: Option<Seq<char>>,
    summary: Seq<char>,
    announcement: Seq<char>,
    seed: u64,
    now: u64,
) -> bool {
    &&& room.code@ == code
    &&& room.mode == mode
    &&& room.players@.len() == names.len()
    &&& names.len() == tokens.len()
    &&& forall|i: int| 0 <= i < names.len() ==> fresh_player(#[trigger] room.players@[i], names[i], tokens[i])
    &&& match local_token {
        Some(t) => room.local_token matches Some(x) && x@ == t,
        None => room.local_token is None,
    }
    &&& room.local_turn == 0
    &&& room.round == 1
    &&& room.winner is None
    &&& room.last_summary@ == summary
    &&& room.announcement@ == announcement
    &&& room.seed == seed
    &&& room.last_activity == now
}

/// Whether `after` is `before` with one room added at the end.
pub open spec fn room_added(before: AppState, after: AppState) -> bool {
    &&& after.rooms@.len() == before.rooms@.len() + 1
    &&& after.rooms@.drop_last() == before.rooms@
}

/// The summary of a newly created online room.
pub open spec fn created_summary() -> Seq<char> {
    "Room created. Share the room code with your rival."@
}

/// The summary of a newly created local room.
pub open spec fn local_ready_summary() -> Seq<char> {
    "Local race ready. Player 1 chooses first, then pass the device."@
}

/// Adding a well-formed room whose code no room holds keeps the server
/// invariant.
proof fn lemma_add_room(before: AppState, after: AppState)
    requires
        app_wf(before),
        room_added(before, after),
        after.track == before.track,
        after.max_rooms == before.max_rooms,
        after.rooms@.len() <= after.max_rooms,
        room_wf(after.rooms@.last(), after.track@.len() as int),
        room_index(before.rooms@, after.rooms@.last().code@) is None,
    ensures
        app_wf(after),
{
    let n = before.rooms@.len() as int;
    assert forall|i: int| 0 <= i < after.rooms@.len() implies room_wf(
        #[trigger] after.rooms@[i],
        after.track@.len() as int,
    ) by {
        if i < n {
            assert(after.rooms@[i] == after.rooms@.drop_last()[i]);
        }
    }
    assert forall|i: int, j: int|
        0 <= i < after.rooms@.len() && 0 <= j < after.rooms@.len() && i != j implies #[trigger] after.rooms@[i].code@
        != #[trigger] after.rooms@[j].code@ by {
        if i < n && j < n {
            assert(after.rooms@[i] == before.rooms@[i]);
            assert(after.rooms@[j] == before.rooms@[j]);
        } else if i < n {
            assert(after.rooms@[i] == before.rooms@[i]);
            assert(j == n);
            if after.rooms@[i].code@ == after.rooms@[j].code@ {
                assert(before.rooms@[i].code@ == after.rooms@.last().code@);
            }
        } else {
            assert(after.rooms@[j] == before.rooms@[j]);
            if after.rooms@[i].code@ == after.rooms@[j].code@ {
                assert(before.rooms@[j].code@ == after.rooms@.last().code@);
            }
        }
    }
}

// ---------------------------------------------------------------------------
// Creating and joining rooms
// ---------------------------------------------------------------------------

/// What creating an online room does: a bad name (400) or a full server
/// (503) is refused and changes nothing; otherwise a room with a fresh code
/// (`unique_room_code`), holding the creator with a new token, is added, and
/// the creator is sent to its page.
pub open spec fn create_outcome(
    before: AppState,
    after: AppState,
    request: HttpRequest,
    now: u64,
    r: Result<Response, RouteError>,
) -> bool {
    match cleaned_name(field(request.body, "name"@)) {
        Err(m) => refused(r, Status::BadRequest, m) && after == before,
        Ok(name) => if before.rooms@.len() >= before.max_rooms {
            refused(
                r,
                Status::ServiceUnavailable,
                "The room limit has been reached. Try again later."@,
            ) && after == before
        } else {
            let (e, code) = drawn_code(before.rooms@, before.entropy);
            let tok = drawn_token(before.random_bytes@, e);
            let seed = mix_spec(tok.2);
            &&& r matches Ok(resp) && redirects_to(resp, game_location("/game"@, code, tok.0))
            &&& is_room_code(code)
            &&& room_index(before.rooms@, code) is None
            &&& room_added(before, after)
            &&& fresh_room(
                after.rooms@.last(),
                code,
                GameMode::Online,
                seq![name],
                seq![tok.0],
                None,
                created_summary(),
                first_line(before.announcements@),
                seed,
                now,
            )
            &&& after.entropy == seed
            &&& after.random_bytes@ == tok.1
        },
    }
}

/// Opens an online room for the racer named in the form.
#[verifier::spinoff_prover]
#[verifier::rlimit(40)]
pub fn create_room(app: &mut AppState, request: &HttpRequest, now: u64) -> (r: Result<
    Response,
    RouteError,
>)
    requires
        app_wf(*old(app)),
    ensures
        app_wf(*final(app)),
        same_config(*old(app), *final(app)),
        create_outcome(*old(app), *final(app), *request, now, r),
{
    let name = match clean_name(request.body.get("name")) {
        Ok(n) => n,
        Err(e) => {
            return Err(e);
        },
    };
    if let Err(e) = ensure_room_capacity(app) {
        return Err(e);
    }
    let ghost start = *app;
    let code = unique_room_code(app);
    let ghost name_v = name@;
    let ghost token_v: Seq<char>;
    let token = next_token(app);
    proof {
        token_v = token@;
    }
    let seed = next_random(app);
    let announcement = first_announcement(app);
    let mut players: Vec<Player> = Vec::new();
    players.push(new_player(name, token.clone()));
    let room = Room {
        code: code.clone(),
        mode: GameMode::Online,
        players,
        local_token: None,
        local_turn: 0,
        round: 1,
        winner: None,
        last_summary: "Room created. Share the room code with your rival.".to_owned(),
        announcement,
        seed,
        last_activity: now,
    };
    let ghost before_push = *app;
    app.rooms.push(room);
    proof {
        assert(app.rooms@.drop_last() == before_push.rooms@);
        assert(fresh_player(app.rooms@.last().players@[0], seq![name_v][0], seq![token_v][0]));
        lemma_add_room(start, *app);
    }
    Ok(redirect_to_game(code.as_str(), token.as_str()))
}

/// Whether `after` is `before` with room `i` replaced by one with the same
/// code.
pub open spec fn room_replaced(before: AppState, after: AppState, i: int) -> bool {
    &&& 0 <= i < before.rooms@.len()
    &&& after.rooms@ == before.rooms@.update(i, after.rooms@[i])
    &&& after.rooms@[i].code == before.rooms@[i].code
}

/// Replacing a room by a well-formed one with the same code keeps the server
/// invariant.
proof fn lemma_replace_room(before: AppState, after: AppState, i: int)
    requires
        app_wf(before),
        room_replaced(before, after, i),
        after.track == before.track,
        after.max_rooms == before.max_rooms,
        room_wf(after.rooms@[i], after.track@.len() as int),
    ensures
        app_wf(after),
{
    assert forall|j: int| 0 <= j < after.rooms@.len() implies room_wf(
        #[trigger] after.rooms@[j],
        after.track@.len() as int,
    ) by {
        if j != i {
            assert(after.rooms@[j] == before.rooms@[j]);
        }
    }
    assert forall|a: int, b: int|
        0 <= a < after.rooms@.len() && 0 <= b < after.rooms@.len() && a != b implies #[trigger] after.rooms@[a].code@
        != #[trigger] after.rooms@[b].code@ by {
        assert(after.rooms@[a].code == before.rooms@[a].code);
        assert(after.rooms@[b].code == before.rooms@[b].code);
    }
}

/// Whether `after` is `before` with a second racer, new with `name` and
/// `token`, who joined at `now`.
pub open spec fn joined(before: Room, after: Room, name: Seq<char>, token: Seq<char>, now: u64) -> bool {
    &&& after.players@.len() == before.players@.len() + 1
    &&& after.players@.drop_last() == before.players@
    &&& fresh_player(after.players@.last(), name, token)
    &&& after.last_activity == now
    &&& after.last_summary@ == "Both racers are connected. Choose your first move."@
    &&& after.code == before.code
    &&& after.mode == before.mode
    &&& after.round == before.round
    &&& after.winner == before.winner
    &&& after.seed == before.seed
    &&& after.local_token == before.local_token
    &&& after.local_turn == before.local_turn
    &&& after.announcement == before.announcement
}

/// What joining a room does. A bad name, a missing or malformed room code
/// (400) change nothing. Otherwise a token is drawn; then an unknown room
/// (404), a local room (409) or a full room (409) is refused, and an open
/// online room gains the racer, who is sent to its page.
pub open spec fn join_outcome(
    before: AppState,
    after: AppState,
    request: HttpRequest,
    now: u64,
    r: Result<Response, RouteError>,
) -> bool {
    match cleaned_name(field(request.body, "name"@)) {
        Err(m) => refused(r, Status::BadRequest, m) && after == before,
        Ok(name) => match required(request.body, "room"@) {
            Err(m) => refused(r, Status::BadRequest, m) && after == before,
            Ok(raw) => match cleaned_room_code(raw) {
                None => refused(r, Status::BadRequest, "Room codes are six letters or digits."@)
                    && after == before,
                Some(code) => {
                    let tok = drawn_token(before.random_bytes@, before.entropy);
                    &&& after.entropy == tok.2
                    &&& after.random_bytes@ == tok.1
                    &&& match room_index(before.rooms@, code) {
                        None => refused(r, Status::NotFound, "Room not found."@) && after.rooms@
                            == before.rooms@,
                        Some(i) => {
                            let room = before.rooms@[i];
                            if room.mode != GameMode::Online {
                                refused(r, Status::Conflict, "That room is a local game."@)
                                    && after.rooms@ == before.rooms@
                            } else if room.players@.len() >= 2 {
                                refused(r, Status::Conflict, "That room already has two racers."@)
                                    && after.rooms@ == before.rooms@
                            } else {
                                &&& r matches Ok(resp) && redirects_to(
                                    resp,
                                    game_location("/game"@, code, tok.0),
                                )
                                &&& room_replaced(before, after, i)
                                &&& joined(room, after.rooms@[i], name, tok.0, now)
                            }
                        },
                    }
                },
            },
        },
    }
}

/// Adds the racer named in the form to the room whose code it gives.
#[verifier::spinoff_prover]
#[verifier::rlimit(40)]
pub fn join_room(app: &mut AppState, request: &HttpRequest, now: u64) -> (r: Result<
    Response,
    RouteError,
>)
    requires
        app_wf(*old(app)),
    ensures
        app_wf(*final(app)),
        same_config(*old(app), *final(app)),
        join_outcome(*old(app), *final(app), *request, now, r),
{
    let name = match clean_name(request.body.get("name")) {
        Ok(n) => n,
        Err(e) => {
            return Err(e);
        },
    };
    let raw = match required_body(request, "room") {
        Ok(v) => v,
        Err(e) => {
            return Err(e);
        },
    };
    let code = match clean_room_code(raw.as_str()) {
        Ok(c) => c,
        Err(e) => {
            return Err(e);
        },
    };
    let ghost name_v = name@;
    let token = next_token(app);
    let ghost drawn = *app;
    let i = match find_room(&app.rooms, code.as_str()) {
        Some(i) => i,
        None => {
            return Err(route_error(Status::NotFound, "Room not found."));
        },
    };
    let rival = new_player(name, token.clone());
    match add_rival(&mut app.rooms[i], rival, now) {
        Ok(()) => {},
        Err(e) => {
            assert(app.rooms@ == drawn.rooms@);
            return Err(e);
        },
    }
    proof {
        let before_room = drawn.rooms@[i as int];
        let after_room = app.rooms@[i as int];
        assert(after_room.players@.drop_last() == before_room.players@);
        lemma_replace_room(drawn, *app, i as int);
    }
    Ok(redirect_to_game(code.as_str(), token.as_str()))
}

// ---------------------------------------------------------------------------
// Local rooms
// ---------------------------------------------------------------------------

fn lower_code(c: char) -> (r: u32)
    ensures
        r == ascii_lower(c) as u32,
{
    let x = c as u32;
    if 65 <= x && x <= 90 {
        assert(((x + 32) as char) as u32 == x + 32);
        x + 32
    } else {
        x
    }
}

/// Whether two texts are equal apart from the case of ASCII letters.
pub fn eq_ignore_ascii_case(a: &str, b: &str) -> (r: bool)
    ensures
        r == (ascii_lowercase(a@) == ascii_lowercase(b@)),
{
    let x = chars_of(a);
    let y = chars_of(b);
    if x.len() != y.len() {
        assert(ascii_lowercase(a@).len() != ascii_lowercase(b@).len());
        return false;
    }
    let mut i: usize = 0;
    while i < x.len()
        invariant
            i <= x@.len(),
            x@.len() == y@.len(),
            x@ == a@,
            y@ == b@,
            forall|j: int| 0 <= j < i ==> ascii_lower(#[trigger] x@[j]) == ascii_lower(y@[j]),
        decreases x.len() - i,
    {
        if lower_code(x[i]) != lower_code(y[i]) {
            assert(ascii_lowercase(a@)[i as int] != ascii_lowercase(b@)[i as int]);
            return false;
        }
        i = i + 1;
    }
    assert(ascii_lowercase(a@) =~= ascii_lowercase(b@));
    true
}

/// What starting a local race does: bad names (400) or two names equal
/// apart from ASCII case (400) are refused, as is a full server (503), and
/// change nothing; otherwise a local room with a fresh code
/// (`unique_room_code`) is added with both racers and three new tokens (the
/// device's and one per racer), and the device is sent to its page.
pub open spec fn create_local_outcome(
    before: AppState,
    after: AppState,
    request: HttpRequest,
    now: u64,
    r: Result<Response, RouteError>,
) -> bool {
    match cleaned_name(field(request.body, "player_one"@)) {
        Err(m) => refused(r, Status::BadRequest, m) && after == before,
        Ok(one) => match cleaned_name(field(request.body, "player_two"@)) {
            Err(m) => refused(r, Status::BadRequest, m) && after == before,
            Ok(two) => if ascii_lowercase(one) == ascii_lowercase(two) {
                refused(r, Status::BadRequest, "Use two different racer names for local play."@)
                    && after == before
            } else if before.rooms@.len() >= before.max_rooms {
                refused(
                    r,
                    Status::ServiceUnavailable,
                    "The room limit has been reached. Try again later."@,
                ) && after == before
            } else {
                let (e, code) = drawn_code(before.rooms@, before.entropy);
                let device = drawn_token(before.random_bytes@, e);
                let first = drawn_token(device.1, device.2);
                let second = drawn_token(first.1, first.2);
                let seed = mix_spec(second.2);
                &&& r matches Ok(resp) && redirects_to(
                    resp,
                    game_location("/local-game"@, code, device.0),
                )
                &&& is_room_code(code)
                &&& room_index(before.rooms@, code) is None
                &&& room_added(before, after)
                &&& fresh_room(
                    after.rooms@.last(),
                    code,
                    GameMode::Local,
                    seq![one, two],
                    seq![first.0, second.0],
                    Some(device.0),
                    local_ready_summary(),
                    first_line(before.announcements@),
                    seed,
                    now,
                )
                &&& after.entropy == seed
                &&& after.random_bytes@ == second.1
            },
        },
    }
}

/// Opens a pass-and-play room for the two racers named in the form.
#[verifier::spinoff_prover]
#[verifier::rlimit(40)]
pub fn create_local_room(app: &mut AppState, request: &HttpRequest, now: u64) -> (r: Result<
    Response,
    RouteError,
>)
    requires
        app_wf(*old(app)),
    ensures
        app_wf(*final(app)),
        same_config(*old(app), *final(app)),
        create_local_outcome(*old(app), *final(app), *request, now, r),
{
    let player_one = match clean_name(request.body.get("player_one")) {
        Ok(n) => n,
        Err(e) => {
            return Err(e);
        },
    };
    let player_two = match clean_name(request.body.get("player_two")) {
        Ok(n) => n,
        Err(e) => {
            return Err(e);
        },
    };
    if eq_ignore_ascii_case(player_one.as_str(), player_two.as_str()) {
        return Err(
            route_error(Status::BadRequest, "Use two different racer names for local play."),
        );
    }
    if let Err(e) = ensure_room_capacity(app) {
        return Err(e);
    }
    let ghost start = *app;
    let code = unique_room_code(app);
    let ghost one_v = player_one@;
    let ghost two_v = player_two@;
    let local_token = next_token(app);
    let token_one = next_token(app);
    let token_two = next_token(app);
    let ghost t1 = token_one@;
    let ghost t2 = token_two@;
    let seed = next_random(app);
    let announcement = first_announcement(app);
    let mut players: Vec<Player> = Vec::new();
    players.push(new_player(player_one, token_one));
    players.push(new_player(player_two, token_two));
    let room = Room {
        code: code.clone(),
        mode: GameMode::Local,
        players,
        local_token: Some(local_token.clone()),
        local_turn: 0,
        round: 1,
        winner: None,
        last_summary: "Local race ready. Player 1 chooses first, then pass the device.".to_owned(),
        announcement,
        seed,
        last_activity: now,
    };
    let ghost before_push = *app;
    app.rooms.push(room);
    proof {
        assert(app.rooms@.drop_last() == before_push.rooms@);
        let names = seq![one_v, two_v];
        let tokens = seq![t1, t2];
        assert(fresh_player(app.rooms@.last().players@[0], names[0], tokens[0]));
        assert(fresh_player(app.rooms@.last().players@[1], names[1], tokens[1]));
        lemma_add_room(start, *app);
    }
    Ok(redirect_to_local_game(code.as_str(), local_token.as_str()))
}

// ---------------------------------------------------------------------------
// Race pages
// ---------------------------------------------------------------------------

/// The oracle program text the server was started with, if any.
pub open spec fn program_source(app: AppState) -> Option<Seq<char>> {
    match app.piet_program {
        Some(p) => Some(p@),
        None => None,
    }
}

/// The oracle program text the server was started with, if any.
pub fn program_text(app: &AppState) -> (r: Option<&str>)
    ensures
        crate::render::source_view(r) == program_source(*app),
{
    match &app.piet_program {
        Some(p) => Some(p.as_str()),
        None => None,
    }
}

/// Whether a response is a 200 HTML page with body `body`.
pub open spec fn page_response(r: Response, body: Seq<char>) -> bool {
    &&& r.status == Status::Success
    &&& r.content_type@ == "text/html; charset=utf-8"@
    &&& r.body@ == body
    &&& r.headers@.len() == 0
}

/// The room as it is after being viewed at `now`.
pub open spec fn seen_at(room: Room, now: u64) -> Room {
    Room { last_activity: now, ..room }
}

/// Whether `after` differs from `before` only in its rooms.
pub open spec fn only_rooms_changed(before: AppState, after: AppState) -> bool {
    &&& same_config(before, after)
    &&& after.entropy == before.entropy
    &&& after.random_bytes == before.random_bytes
}

/// Whether finding racer `token` gives position `p`.
proof fn lemma_first_token(players: Seq<Player>, token: Seq<char>, p: int)
    requires
        0 <= p < players.len(),
        players[p].token@ == token,
        forall|j: int| 0 <= j < p ==> #[trigger] players[j].token@ != token,
    ensures
        token_position(players, token) == Some(p),
{
    let k = token_position(players, token)->0;
    assert(players[p].token@ == token);
    if k < p {
    } else if k > p {
    }
}

/// What opening the online race page does: a missing or malformed room code
/// or a missing token (400), an unknown room (404), a local room (409) or a
/// token no racer holds (403) is refused and changes nothing; otherwise the
/// room is marked active and the racer sees the page drawn for them, with
/// the boost the oracle grants them this round as the Piet Boost preview.
pub open spec fn show_outcome(
    before: AppState,
    after: AppState,
    request: HttpRequest,
    now: u64,
    r: Result<Response, RouteError>,
) -> bool {
    match required(request.query, "room"@) {
        Err(m) => refused(r, Status::BadRequest, m) && after == before,
        Ok(raw) => match cleaned_room_code(raw) {
            None => refused(r, Status::BadRequest, "Room codes are six letters or digits."@)
                && after == before,
            Some(code) => match required(request.query, "token"@) {
                Err(m) => refused(r, Status::BadRequest, m) && after == before,
                Ok(token) => match room_index(before.rooms@, code) {
                    None => refused(r, Status::NotFound, "Room not found."@) && after == before,
                    Some(i) => {
                        let room = before.rooms@[i];
                        if room.mode != GameMode::Online {
                            refused(r, Status::Conflict, "Open this race through local-play mode."@)
                                && after == before
                        } else {
                            match token_position(room.players@, token) {
                                None => refused(r, Status::Forbidden, "Invalid racer token."@)
                                    && after == before,
                                Some(p) => {
                                    &&& only_rooms_changed(before, after)
                                    &&& after.rooms@ == before.rooms@.update(i, seen_at(room, now))
                                    &&& r matches Ok(resp) && page_response(
                                        resp,
                                        online_page(
                                            seen_at(room, now),
                                            p,
                                            circuit(before.track@, room.seed),
                                            boost_preview(
                                                room,
                                                p,
                                                circuit(before.track@, room.seed),
                                                program_source(before),
                                                before.piet_boost as int,
                                            ),
                                            program_source(before),
                                        ),
                                    )
                                },
                            }
                        }
                    },
                },
            },
        },
    }
}

/// Renders the online race page for the racer holding the token.
#[verifier::spinoff_prover]
#[verifier::rlimit(40)]
pub fn show_game(app: &mut AppState, request: &HttpRequest, now: u64) -> (r: Result<
    Response,
    RouteError,
>)
    requires
        app_wf(*old(app)),
    ensures
        app_wf(*final(app)),
        same_config(*old(app), *final(app)),
        show_outcome(*old(app), *final(app), *request, now, r),
{
    let raw = match required_query(request, "room") {
        Ok(v) => v,
        Err(e) => {
            return Err(e);
        },
    };
    let code = match clean_room_code(raw.as_str()) {
        Ok(c) => c,
        Err(e) => {
            return Err(e);
        },
    };
    let token = match required_query(request, "token") {
        Ok(v) => v,
        Err(e) => {
            return Err(e);
        },
    };
    let track = match room_track(app, code.as_str()) {
        Ok(t) => t,
        Err(e) => {
            return Err(e);
        },
    };
    let i = match find_room(&app.rooms, code.as_str()) {
        Some(i) => i,
        None => {
            return Err(route_error(Status::NotFound, "Room not found."));
        },
    };
    if app.rooms[i].mode != GameMode::Online {
        return Err(route_error(Status::Conflict, "Open this race through local-play mode."));
    }
    let p = match player_position(&app.rooms[i].players, token.as_str()) {
        Some(p) => p,
        None => {
            return Err(route_error(Status::Forbidden, "Invalid racer token."));
        },
    };
    proof {
        lemma_first_token(app.rooms@[i as int].players@, token@, p as int);
    }
    let preview = preview_boost(&app.rooms[i], p, track.as_slice(), program_text(app), app.piet_boost);
    let ghost start = *app;
    app.rooms[i].last_activity = now;
    proof {
        assert(app.rooms@[i as int] == seen_at(start.rooms@[i as int], now));
        lemma_replace_room(start, *app, i as int);
    }
    let source = program_text(app);
    let body = render_online_game_page(&app.rooms[i], p, track.as_slice(), preview, source);
    Ok(Response {
        status: Status::Success,
        content_type: "text/html; charset=utf-8",
        body,
        headers: Vec::new(),
    })
}

/// What opening the local race page does: a missing or malformed room code
/// or a missing token (400), an unknown room (404), an online room (409) or a
/// wrong device token (403) is refused and changes nothing; otherwise the
/// room is marked active and the device sees the pass-and-play page, with
/// the boost the oracle grants the racer to move as the Piet Boost preview.
pub open spec fn show_local_outcome(
    before: AppState,
    after: AppState,
    request: HttpRequest,
    now: u64,
    r: Result<Response, RouteError>,
) -> bool {
    match required(request.query, "room"@) {
        Err(m) => refused(r, Status::BadRequest, m) && after == before,
        Ok(raw) => match cleaned_room_code(raw) {
            None => refused(r, Status::BadRequest, "Room codes are six letters or digits."@)
                && after == before,
            Some(code) => match required(request.query, "token"@) {
                Err(m) => refused(r, Status::BadRequest, m) && after == before,
                Ok(token) => match room_index(before.rooms@, code) {
                    None => refused(r, Status::NotFound, "Room not found."@) && after == before,
                    Some(i) => {
                        let room = before.rooms@[i];
                        if room.mode != GameMode::Local {
                            refused(r, Status::Conflict, "That room is an online race."@) && after
                                == before
                        } else if !local_token_matches(room, token) {
                            refused(r, Status::Forbidden, "Invalid local-game token."@) && after
                                == before
                        } else {
                            &&& only_rooms_changed(before, after)
                            &&& after.rooms@ == before.rooms@.update(i, seen_at(room, now))
                            &&& r matches Ok(resp) && page_response(
                                resp,
                                local_page(
                                    seen_at(room, now),
                                    token,
                                    circuit(before.track@, room.seed),
                                    boost_preview(
                                        room,
                                        if room.local_turn >= 1 {
                                            1
                                        } else {
                                            0
                                        },
                                        circuit(before.track@, room.seed),
                                        program_source(before),
                                        before.piet_boost as int,
                                    ),
                                    program_source(before),
                                ),
                            )
                        }
                    },
                },
            },
        },
    }
}

/// Renders the pass-and-play page for the device holding the token.
#[verifier::spinoff_prover]
#[verifier::rlimit(40)]
pub fn show_local_game(app: &mut AppState, request: &HttpRequest, now: u64) -> (r: Result<
    Response,
    RouteError,
>)
    requires
        app_wf(*old(app)),
    ensures
        app_wf(*final(app)),
        same_config(*old(app), *final(app)),
        show_local_outcome(*old(app), *final(app), *request, now, r),
{
    let raw = match required_query(request, "room") {
        Ok(v) => v,
        Err(e) => {
            return Err(e);
        },
    };
    let code = match clean_room_code(raw.as_str()) {
        Ok(c) => c,
        Err(e) => {
            return Err(e);
        },
    };
    let token = match required_query(request, "token") {
        Ok(v) => v,
        Err(e) => {
            return Err(e);
        },
    };
    let track = match room_track(app, code.as_str()) {
        Ok(t) => t,
        Err(e) => {
            return Err(e);
        },
    };
    let i = match find_room(&app.rooms, code.as_str()) {
        Some(i) => i,
        None => {
            return Err(route_error(Status::NotFound, "Local game not found."));
        },
    };
    if let Err(e) = ensure_local_access(&app.rooms[i], token.as_str()) {
        return Err(e);
    }
    let current: usize = if app.rooms[i].local_turn >= 1 {
        1
    } else {
        0
    };
    let preview = preview_boost(&app.rooms[i], current, track.as_slice(), program_text(app), app.piet_boost);
    let ghost start = *app;
    app.rooms[i].last_activity = now;
    proof {
        assert(app.rooms@[i as int] == seen_at(start.rooms@[i as int], now));
        lemma_replace_room(start, *app, i as int);
    }
    let source = program_text(app);
    let body = render_local_game_page(&app.rooms[i], token.as_str(), track.as_slice(), preview, source);
    Ok(Response {
        status: Status::Success,
        content_type: "text/html; charset=utf-8",
        body,
        headers: Vec::new(),
    })
}

// ---------------------------------------------------------------------------
// Moves and rematches
// ---------------------------------------------------------------------------

/// The action a form names, or why it is refused.
pub open spec fn requested_action(request: HttpRequest) -> Result<RaceAction, Seq<char>> {
    match required(request.body, "action"@) {
        Err(m) => Err(m),
        Ok(v) => match action_named(v) {
            Some(a) => Ok(a),
            None => Err("Unknown race action."@),
        },
    }
}

/// Reads the action button a form was sent with.
pub fn parse_action(request: &HttpRequest) -> (r: Result<RaceAction, RouteError>)
    ensures
        match requested_action(*request) {
            Ok(a) => r == Ok::<RaceAction, RouteError>(a),
            Err(m) => r matches Err(e) && is_error(e, Status::BadRequest, m),
        },
{
    let value = match required_body(request, "action") {
        Ok(v) => v,
        Err(e) => {
            return Err(e);
        },
    };
    match RaceAction::parse(value.as_str()) {
        Some(a) => Ok(a),
        None => Err(route_error(Status::BadRequest, "Unknown race action.")),
    }
}

/// A route result with the response dropped.
pub open spec fn unit_of(r: Result<Response, RouteError>) -> Result<(), RouteError> {
    match r {
        Ok(_) => Ok(()),
        Err(e) => Err(e),
    }
}

/// The room code, token and action a move form carries, or the refusal.
pub open spec fn move_input(request: HttpRequest) -> Result<(Seq<char>, Seq<char>, RaceAction), Seq<char>> {
    match required(request.body, "room"@) {
        Err(m) => Err(m),
        Ok(raw) => match cleaned_room_code(raw) {
            None => Err("Room codes are six letters or digits."@),
            Some(code) => match required(request.body, "token"@) {
                Err(m) => Err(m),
                Ok(token) => match requested_action(request) {
                    Err(m) => Err(m),
                    Ok(a) => Ok((code, token, a)),
                },
            },
        },
    }
}

/// What sending an online move does: a malformed form (400) or an unknown
/// room (404) is refused and changes nothing; otherwise the room's move is
/// recorded as `online_move` says, on the room's circuit, and the racer is
/// sent back to the race page.
pub open spec fn action_outcome(
    before: AppState,
    after: AppState,
    request: HttpRequest,
    now: u64,
    r: Result<Response, RouteError>,
) -> bool {
    match move_input(request) {
        Err(m) => refused(r, Status::BadRequest, m) && after == before,
        Ok((code, token, action)) => match room_index(before.rooms@, code) {
            None => refused(r, Status::NotFound, "Room not found."@) && after == before,
            Some(i) => {
                let room = before.rooms@[i];
                &&& only_rooms_changed(before, after)
                &&& after.rooms@ == before.rooms@.update(i, after.rooms@[i])
                &&& online_move(
                    room,
                    after.rooms@[i],
                    unit_of(r),
                    token,
                    action,
                    now,
                    circuit(before.track@, room.seed),
                    program_source(before),
                    before.piet_boost as int,
                    before.announcements@,
                )
                &&& r matches Ok(resp) ==> redirects_to(resp, game_location("/game"@, code, token))
            },
        },
    }
}

/// Records an online racer's move.
#[verifier::spinoff_prover]
#[verifier::rlimit(40)]
pub fn submit_action(app: &mut AppState, request: &HttpRequest, now: u64) -> (r: Result<
    Response,
    RouteError,
>)
    requires
        app_wf(*old(app)),
    ensures
        app_wf(*final(app)),
        same_config(*old(app), *final(app)),
        action_outcome(*old(app), *final(app), *request, now, r),
{
    let raw = match required_body(request, "room") {
        Ok(v) => v,
        Err(e) => {
            return Err(e);
        },
    };
    let code = match clean_room_code(raw.as_str()) {
        Ok(c) => c,
        Err(e) => {
            return Err(e);
        },
    };
    let token = match required_body(request, "token") {
        Ok(v) => v,
        Err(e) => {
            return Err(e);
        },
    };
    let action = match parse_action(request) {
        Ok(a) => a,
        Err(e) => {
            return Err(e);
        },
    };
    let track = match room_track(app, code.as_str()) {
        Ok(t) => t,
        Err(e) => {
            return Err(e);
        },
    };
    let i = match find_room(&app.rooms, code.as_str()) {
        Some(i) => i,
        None => {
            return Err(route_error(Status::NotFound, "Room not found."));
        },
    };
    let ghost start = *app;
    let program: Option<&str> = match &app.piet_program {
        Some(p) => Some(p.as_str()),
        None => None,
    };
    let ctx = RoundContext {
        track: track.as_slice(),
        program,
        piet_fallback: app.piet_boost,
        announcements: app.announcements.as_slice(),
    };
    let res = submit_online_move(&mut app.rooms[i], token.as_str(), action, now, &ctx);
    proof {
        assert(app.rooms@ == start.rooms@.update(i as int, app.rooms@[i as int]));
    }
    match res {
        Ok(()) => {
            proof {
                lemma_replace_room(start, *app, i as int);
            }
            Ok(redirect_to_game(code.as_str(), token.as_str()))
        },
        Err(e) => {
            assert(app.rooms@ == start.rooms@);
            Err(e)
        },
    }
}

/// What sending a local move does: a malformed form (400) or an unknown room
/// (404) is refused and changes nothing; otherwise the room's move is
/// recorded as `local_move` says, on the room's circuit, and the device is
/// sent back to the local race page.
pub open spec fn local_action_outcome(
    before: AppState,
    after: AppState,
    request: HttpRequest,
    now: u64,
    r: Result<Response, RouteError>,
) -> bool {
    match move_input(request) {
        Err(m) => refused(r, Status::BadRequest, m) && after == before,
        Ok((code, token, action)) => match room_index(before.rooms@, code) {
            None => refused(r, Status::NotFound, "Room not found."@) && after == before,
            Some(i) => {
                let room = before.rooms@[i];
                &&& only_rooms_changed(before, after)
                &&& after.rooms@ == before.rooms@.update(i, after.rooms@[i])
                &&& local_move(
                    room,
                    after.rooms@[i],
                    unit_of(r),
                    token,
                    action,
                    now,
                    circuit(before.track@, room.seed),
                    program_source(before),
                    before.piet_boost as int,
                    before.announcements@,
                )
                &&& r matches Ok(resp) ==> redirects_to(
                    resp,
                    game_location("/local-game"@, code, token),
                )
            },
        },
    }
}

/// Records the move of the local racer whose turn it is.
#[verifier::spinoff_prover]
#[verifier::rlimit(40)]
pub fn submit_local_action(app: &mut AppState, request: &HttpRequest, now: u64) -> (r: Result<
    Response,
    RouteError,
>)
    requires
        app_wf(*old(app)),
    ensures
        app_wf(*final(app)),
        same_config(*old(app), *final(app)),
        local_action_outcome(*old(app), *final(app), *request, now, r),
{
    let raw = match required_body(request, "room") {
        Ok(v) => v,
        Err(e) => {
            return Err(e);
        },
    };
    let code = match clean_room_code(raw.as_str()) {
        Ok(c) => c,
        Err(e) => {
            return Err(e);
        },
    };
    let token = match required_body(request, "token") {
        Ok(v) => v,
        Err(e) => {
            return Err(e);
        },
    };
    let action = match parse_action(request) {
        Ok(a) => a,
        Err(e) => {
            return Err(e);
        },
    };
    let track = match room_track(app, code.as_str()) {
        Ok(t) => t,
        Err(e) => {
            return Err(e);
        },
    };
    let i = match find_room(&app.rooms, code.as_str()) {
        Some(i) => i,
        None => {
            return Err(route_error(Status::NotFound, "Local game not found."));
        },
    };
    let ghost start = *app;
    let program: Option<&str> = match &app.piet_program {
        Some(p) => Some(p.as_str()),
        None => None,
    };
    let ctx = RoundContext {
        track: track.as_slice(),
        program,
        piet_fallback: app.piet_boost,
        announcements: app.announcements.as_slice(),
    };
    let res = submit_local_move(&mut app.rooms[i], token.as_str(), action, now, &ctx);
    proof {
        assert(app.rooms@ == start.rooms@.update(i as int, app.rooms@[i as int]));
    }
    match res {
        Ok(()) => {
            proof {
                lemma_replace_room(start, *app, i as int);
            }
            Ok(redirect_to_local_game(code.as_str(), token.as_str()))
        },
        Err(e) => {
            assert(app.rooms@ == start.rooms@);
            Err(e)
        },
    }
}

/// What asking for a rematch does: a missing or malformed room code or a
/// missing token (400), an unknown room (404) or a token that may not
/// restart the room (403) is refused and changes nothing; otherwise the
/// generator draws a new circuit seed, the room is restarted on it, and the
/// player is sent back to the room's page.
pub open spec fn rematch_outcome(
    before: AppState,
    after: AppState,
    request: HttpRequest,
    now: u64,
    r: Result<Response, RouteError>,
) -> bool {
    match required(request.body, "room"@) {
        Err(m) => refused(r, Status::BadRequest, m) && after == before,
        Ok(raw) => match cleaned_room_code(raw) {
            None => refused(r, Status::BadRequest, "Room codes are six letters or digits."@)
                && after == before,
            Some(code) => match required(request.body, "token"@) {
                Err(m) => refused(r, Status::BadRequest, m) && after == before,
                Ok(token) => match room_index(before.rooms@, code) {
                    None => refused(r, Status::NotFound, "Room not found."@) && after == before,
                    Some(i) => {
                        let room = before.rooms@[i];
                        if !rematch_allowed_spec(room, token) {
                            refused(r, Status::Forbidden, "Invalid racer token."@) && after == before
                        } else {
                            let seed = mix_spec(before.entropy);
                            &&& after.entropy == seed
                            &&& after.random_bytes == before.random_bytes
                            &&& after.rooms@ == before.rooms@.update(i, after.rooms@[i])
                            &&& restarted(room, after.rooms@[i], seed, now)
                            &&& r matches Ok(resp) && redirects_to(
                                resp,
                                game_location(
                                    if room.mode == GameMode::Online {
                                        "/game"@
                                    } else {
                                        "/local-game"@
                                    },
                                    code,
                                    token,
                                ),
                            )
                        }
                    },
                },
            },
        },
    }
}

/// Restarts a finished or running race in the same room on a newly shuffled
/// circuit.
#[verifier::spinoff_prover]
#[verifier::rlimit(40)]
pub fn rematch(app: &mut AppState, request: &HttpRequest, now: u64) -> (r: Result<
    Response,
    RouteError,
>)
    requires
        app_wf(*old(app)),
    ensures
        app_wf(*final(app)),
        same_config(*old(app), *final(app)),
        rematch_outcome(*old(app), *final(app), *request, now, r),
{
    let raw = match required_body(request, "room") {
        Ok(v) => v,
        Err(e) => {
            return Err(e);
        },
    };
    let code = match clean_room_code(raw.as_str()) {
        Ok(c) => c,
        Err(e) => {
            return Err(e);
        },
    };
    let token = match required_body(request, "token") {
        Ok(v) => v,
        Err(e) => {
            return Err(e);
        },
    };
    let i = match find_room(&app.rooms, code.as_str()) {
        Some(i) => i,
        None => {
            return Err(route_error(Status::NotFound, "Room not found."));
        },
    };
    if !rematch_allowed(&app.rooms[i], token.as_str()) {
        return Err(route_error(Status::Forbidden, "Invalid racer token."));
    }
    let mode = app.rooms[i].mode;
    let seed = next_random(app);
    let ghost start = *app;
    reset_race(&mut app.rooms[i], seed, now);
    proof {
        assert(app.rooms@ == start.rooms@.update(i as int, app.rooms@[i as int]));
        let room = app.rooms@[i as int];
        assert forall|k: int| 0 <= k < room.players@.len() implies 0 <= #[trigger] room.players@[k].energy
            <= crate::game::MAX_ENERGY && room.players@[k].distance >= room.round - 1
            && room.players@[k].distance >= 0 && room.players@[k].distance <= app.track@.len() + 9 by {
            assert(room.players@[k].distance == 0);
        }
        assert forall|k: int| 0 <= k < room.players@.len() implies #[trigger] room.players@[k].distance
            < app.track@.len() by {
            assert(room.players@[k].distance == 0);
        }
        lemma_replace_room(start, *app, i as int);
    }
    match mode {
        GameMode::Online => Ok(redirect_to_game(code.as_str(), token.as_str())),
        GameMode::Local => Ok(redirect_to_local_game(code.as_str(), token.as_str())),
    }
}

// ---------------------------------------------------------------------------
// Dispatch
// ---------------------------------------------------------------------------

/// The page or action a request asks for.
#[derive(Clone, Copy, Debug, PartialEq, Eq, Structural)]
pub enum Route {
    Landing,
    Favicon,
    Health,
    Create,
    Join,
    Local,
    Game,
    LocalGame,
    Action,
    LocalAction,
    Rematch,
    Unknown,
}

/// The route for a method and path.
pub open spec fn route_of(method: Seq<char>, path: Seq<char>) -> Route {
    if method == "GET"@ && path == "/"@ {
        Route::Landing
    } else if method == "GET"@ && path == "/favicon.svg"@ {
        Route::Favicon
    } else if method == "GET"@ && path == "/health"@ {
        Route::Health
    } else if method == "POST"@ && path == "/create"@ {
        Route::Create
    } else if method == "POST"@ && path == "/join"@ {
        Route::Join
    } else if method == "POST"@ && path == "/local"@ {
        Route::Local
    } else if method == "GET"@ && path == "/game"@ {
        Route::Game
    } else if method == "GET"@ && path == "/local-game"@ {
        Route::LocalGame
    } else if method == "POST"@ && path == "/action"@ {
        Route::Action
    } else if method == "POST"@ && path == "/local-action"@ {
        Route::LocalAction
    } else if method == "POST"@ && path == "/rematch"@ {
        Route::Rematch
    } else {
        Route::Unknown
    }
}

/// Finds the route for a method and path.
pub fn route_for(method: &str, path: &str) -> (r: Route)
    ensures
        r == route_of(method@, path@),
{
    let get = str_eq(method, "GET");
    let post = str_eq(method, "POST");
    proof {
        reveal_strlit("GET");
        reveal_strlit("POST");
        assert("GET"@.len() == 3);
        assert("POST"@.len() == 4);
    }
    if get && str_eq(path, "/") {
        Route::Landing
    } else if get && str_eq(path, "/favicon.svg") {
        Route::Favicon
    } else if get && str_eq(path, "/health") {
        Route::Health
    } else if post && str_eq(path, "/create") {
        Route::Create
    } else if post && str_eq(path, "/join") {
        Route::Join
    } else if post && str_eq(path, "/local") {
        Route::Local
    } else if get && str_eq(path, "/game") {
        Route::Game
    } else if get && str_eq(path, "/local-game") {
        Route::LocalGame
    } else if post && str_eq(path, "/action") {
        Route::Action
    } else if post && str_eq(path, "/local-action") {
        Route::LocalAction
    } else if post && str_eq(path, "/rematch") {
        Route::Rematch
    } else {
        Route::Unknown
    }
}

/// Whether `mid` is `before` after the expired rooms were dropped, which
/// every request but the health check does first.
pub open spec fn pruned_for(before: AppState, mid: AppState, request: HttpRequest, now: u64) -> bool {
    if request.path@ == "/health"@ {
        mid == before
    } else {
        &&& only_rooms_changed(before, mid)
        &&& mid.rooms@ == before.rooms@.filter(alive_at(now, before.room_ttl_seconds))
    }
}

/// Whether a response is a 200 with the given content type and body.
pub open spec fn plain_response(r: Response, content_type: Seq<char>, body: Seq<char>) -> bool {
    &&& r.status == Status::Success
    &&& r.content_type@ == content_type
    &&& r.body@ == body
    &&& r.headers@.len() == 0
}

/// What a request does to the state `before` (already pruned), by route.
pub open spec fn route_outcome(
    before: AppState,
    after: AppState,
    request: HttpRequest,
    now: u64,
    r: Result<Response, RouteError>,
) -> bool {
    match route_of(request.method@, request.path@) {
        Route::Landing => after == before && (r matches Ok(resp) && page_response(
            resp,
            page("Crazy Race"@, ""@, LANDING_CONTENT@, program_source(before)),
        )),
        Route::Favicon => after == before && (r matches Ok(resp) && plain_response(
            resp,
            "image/svg+xml; charset=utf-8"@,
            FAVICON_SVG@,
        )),
        Route::Health => after == before && (r matches Ok(resp) && plain_response(
            resp,
            "text/plain; charset=utf-8"@,
            "ok"@,
        )),
        Route::Create => create_outcome(before, after, request, now, r),
        Route::Join => join_outcome(before, after, request, now, r),
        Route::Local => create_local_outcome(before, after, request, now, r),
        Route::Game => show_outcome(before, after, request, now, r),
        Route::LocalGame => show_local_outcome(before, after, request, now, r),
        Route::Action => action_outcome(before, after, request, now, r),
        Route::LocalAction => local_action_outcome(before, after, request, now, r),
        Route::Rematch => rematch_outcome(before, after, request, now, r),
        Route::Unknown => refused(r, Status::NotFound, "That route does not exist."@) && after
            == before,
    }
}

/// Serves one request at time `now`: drops expired rooms (except for the
/// health check), then runs the route the method and path name.
#[verifier::spinoff_prover]
#[verifier::rlimit(40)]
pub fn route_request(app: &mut AppState, request: &HttpRequest, now: u64) -> (r: Result<
    Response,
    RouteError,
>)
    requires
        app_wf(*old(app)),
    ensures
        app_wf(*final(app)),
        same_config(*old(app), *final(app)),
        exists|mid: AppState|
            pruned_for(*old(app), mid, *request, now) && #[trigger] route_outcome(
                mid,
                *final(app),
                *request,
                now,
                r,
            ),
{
    let health = str_eq(request.path.as_str(), "/health");
    if !health {
        prune_expired_rooms(app, now);
    }
    let ghost mid = *app;
    assert(pruned_for(*old(app), mid, *request, now));
    let route = route_for(request.method.as_str(), request.path.as_str());
    let r = match route {
        Route::Landing => {
            let body = render_landing_page(program_text(app));
            Ok(Response { status: Status::Success, content_type: "text/html; charset=utf-8", body, headers: Vec::new() })
        },
        Route::Favicon => {
            let body = render_favicon_svg();
            Ok(Response { status: Status::Success, content_type: "image/svg+xml; charset=utf-8", body, headers: Vec::new() })
        },
        Route::Health => {
            Ok(Response { status: Status::Success, content_type: "text/plain; charset=utf-8", body: "ok".to_owned(), headers: Vec::new() })
        },
        Route::Create => create_room(app, request, now),
        Route::Join => join_room(app, request, now),
        Route::Local => create_local_room(app, request, now),
        Route::Game => show_game(app, request, now),
        Route::LocalGame => show_local_game(app, request, now),
        Route::Action => submit_action(app, request, now),
        Route::LocalAction => submit_local_action(app, request, now),
        Route::Rematch => rematch(app, request, now),
        Route::Unknown => Err(route_error(Status::NotFound, "That route does not exist.")),
    };
    assert(route_outcome(mid, *app, *request, now, r));
    r
}

/// Whether a response is the error page for a refusal.
pub open spec fn error_page_response(r: Response, e: RouteError, source: Option<Seq<char>>) -> bool {
    &&& r.status == e.status
    &&& r.content_type@ == "text/html; charset=utf-8"@
    &&& r.body@ == page("Crazy Race \u{b7} Error"@, ""@, error_content(e.message@), source)
    &&& r.headers@.len() == 0
}

/// Serves one request at time `now` and turns a refusal into the error page
/// with the refusal's status.
pub fn handle_request(app: &mut AppState, request: &HttpRequest, now: u64) -> (resp: Response)
    requires
        app_wf(*old(app)),
    ensures
        app_wf(*final(app)),
        same_config(*old(app), *final(app)),
        exists|mid: AppState, r: Result<Response, RouteError>|
            pruned_for(*old(app), mid, *request, now) && #[trigger] route_outcome(
                mid,
                *final(app),
                *request,
                now,
                r,
            ) && match r {
                Ok(x) => resp == x,
                Err(e) => error_page_response(resp, e, program_source(*old(app))),
            },
{
    match route_request(app, request, now) {
        Ok(resp) => resp,
        Err(e) => {
            let body = render_error_page(e.message.as_str(), program_text(app));
            Response { status: e.status, content_type: "text/html; charset=utf-8", body, headers: Vec::new() }
        },
    }
}

} // verus!
