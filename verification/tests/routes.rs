use lib::config::new_app;
use lib::game::{GameMode, TrackSegment};
use lib::http::{build_request, parse_form, HttpRequest, Response, Status};
use lib::routes::{handle_request, route_request};
use lib::server::AppState;

fn segment(terrain: &str) -> TrackSegment {
    TrackSegment { terrain: terrain.to_string(), speed: 0, boost: 1, recovery: 2 }
}

fn app_with(max_rooms: usize) -> AppState {
    new_app(
        vec![segment("straight"); 8],
        3,
        None,
        vec!["Test announcement.".to_string()],
        42,
        max_rooms,
        7_200,
    )
}

fn get(target: &str) -> HttpRequest {
    build_request("GET".to_string(), target, b"")
}

fn post(target: &str, body: &str) -> HttpRequest {
    build_request("POST".to_string(), target, body.as_bytes())
}

fn location(response: &Response) -> String {
    assert_eq!(response.status, Status::SeeOther);
    assert_eq!(response.headers.len(), 1);
    assert_eq!(response.headers[0].0, "Location");
    response.headers[0].1.clone()
}

fn query_value(location: &str, key: &str) -> String {
    let query = location.split_once('?').unwrap().1;
    parse_form(query).get(key).unwrap().clone()
}

/// Creates an online room for Alice and lets Bob join; returns the code and
/// both tokens.
fn two_racer_room(app: &mut AppState) -> (String, String, String) {
    let created = route_request(app, &post("/create", "name=Alice"), 1_000).unwrap();
    let first = location(&created);
    assert!(first.starts_with("/game?room="));
    let code = query_value(&first, "room");
    let alice = query_value(&first, "token");
    let joined =
        route_request(app, &post("/join", &format!("name=Bob&room={}", code.to_lowercase())), 1_001)
            .unwrap();
    let second = location(&joined);
    assert_eq!(query_value(&second, "room"), code);
    let bob = query_value(&second, "token");
    (code, alice, bob)
}

#[test]
fn creating_a_room_redirects_the_creator_with_a_fresh_code_and_token() {
    let mut app = app_with(10);
    let response = route_request(&mut app, &post("/create", "name=++Alice++"), 500).unwrap();
    let target = location(&response);
    let code = query_value(&target, "room");
    let token = query_value(&target, "token");
    assert_eq!(code.len(), 6);
    assert!(code.chars().all(|c| "ABCDEFGHJKLMNPQRSTUVWXYZ23456789".contains(c)));
    assert_eq!(token.len(), 64);
    assert_eq!(app.rooms.len(), 1);
    let room = &app.rooms[0];
    assert_eq!(room.code, code);
    assert_eq!(room.mode, GameMode::Online);
    assert_eq!(room.players.len(), 1);
    assert_eq!(room.players[0].name, "Alice");
    assert_eq!(room.players[0].token, token);
    assert_eq!(room.players[0].distance, 0);
    assert_eq!(room.players[0].energy, 5);
    assert_eq!(room.round, 1);
    assert_eq!(room.last_summary, "Room created. Share the room code with your rival.");
    assert_eq!(room.announcement, "Test announcement.");
    assert_eq!(room.last_activity, 500);
}

#[test]
fn creating_a_room_needs_a_usable_name() {
    let mut app = app_with(10);
    let blank = route_request(&mut app, &post("/create", "name=+++"), 0).unwrap_err();
    assert_eq!(blank.status, Status::BadRequest);
    assert_eq!(blank.message, "Enter a racer name.");
    let long = route_request(&mut app, &post("/create", &format!("name={}", "x".repeat(25))), 0)
        .unwrap_err();
    assert_eq!(long.message, "Racer names are limited to 24 characters.");
    assert!(app.rooms.is_empty());
}

#[test]
fn a_full_server_refuses_new_rooms() {
    let mut app = app_with(1);
    route_request(&mut app, &post("/create", "name=Alice"), 0).unwrap();
    let refused = route_request(&mut app, &post("/create", "name=Carol"), 0).unwrap_err();
    assert_eq!(refused.status, Status::ServiceUnavailable);
    assert_eq!(refused.message, "The room limit has been reached. Try again later.");
    let local = route_request(&mut app, &post("/local", "player_one=A&player_two=B"), 0).unwrap_err();
    assert_eq!(local.status, Status::ServiceUnavailable);
    assert_eq!(app.rooms.len(), 1);
}

#[test]
fn joining_checks_the_room() {
    let mut app = app_with(10);
    let (code, _, _) = two_racer_room(&mut app);
    let full = route_request(&mut app, &post("/join", &format!("name=Carol&room={code}")), 2)
        .unwrap_err();
    assert_eq!(full.status, Status::Conflict);
    assert_eq!(full.message, "That room already has two racers.");
    let unknown = route_request(&mut app, &post("/join", "name=Carol&room=ZZZZZZ"), 2).unwrap_err();
    assert_eq!(unknown.status, Status::NotFound);
    assert_eq!(unknown.message, "Room not found.");
    let malformed = route_request(&mut app, &post("/join", "name=Carol&room=AB"), 2).unwrap_err();
    assert_eq!(malformed.status, Status::BadRequest);
    assert_eq!(malformed.message, "Room codes are six letters or digits.");
    let missing = route_request(&mut app, &post("/join", "name=Carol"), 2).unwrap_err();
    assert_eq!(missing.message, "Missing room.");
    assert_eq!(app.rooms[0].last_summary, "Both racers are connected. Choose your first move.");
}

#[test]
fn a_local_room_cannot_be_joined_or_viewed_online() {
    let mut app = app_with(10);
    let created = route_request(&mut app, &post("/local", "player_one=Ann&player_two=Ben"), 0).unwrap();
    let target = location(&created);
    assert!(target.starts_with("/local-game?room="));
    let code = query_value(&target, "room");
    let token = query_value(&target, "token");
    let join = route_request(&mut app, &post("/join", &format!("name=Eve&room={code}")), 1)
        .unwrap_err();
    assert_eq!(join.status, Status::Conflict);
    assert_eq!(join.message, "That room is a local game.");
    let view = route_request(&mut app, &get(&format!("/game?room={code}&token={token}")), 1)
        .unwrap_err();
    assert_eq!(view.status, Status::Conflict);
    assert_eq!(view.message, "Open this race through local-play mode.");
}

#[test]
fn local_play_needs_two_different_names() {
    let mut app = app_with(10);
    let same = route_request(&mut app, &post("/local", "player_one=Ann&player_two=aNN"), 0)
        .unwrap_err();
    assert_eq!(same.status, Status::BadRequest);
    assert_eq!(same.message, "Use two different racer names for local play.");
    assert!(app.rooms.is_empty());
}

#[test]
fn an_online_round_resolves_once_both_racers_moved() {
    let mut app = app_with(10);
    let (code, alice, bob) = two_racer_room(&mut app);
    let first = route_request(
        &mut app,
        &post("/action", &format!("room={code}&token={alice}&action=accelerate")),
        10,
    )
    .unwrap();
    assert_eq!(query_value(&location(&first), "token"), alice);
    assert_eq!(app.rooms[0].last_summary, "Alice locked in a move. Waiting for the rival.");
    assert_eq!(app.rooms[0].round, 1);
    let again = route_request(
        &mut app,
        &post("/action", &format!("room={code}&token={alice}&action=drift")),
        11,
    )
    .unwrap_err();
    assert_eq!(again.status, Status::Conflict);
    assert_eq!(again.message, "Your move is already locked in.");
    route_request(&mut app, &post("/action", &format!("room={code}&token={bob}&action=drift")), 12)
        .unwrap();
    let room = &app.rooms[0];
    assert_eq!(room.round, 2);
    assert_eq!(room.players[0].distance, 2);
    assert_eq!(room.players[0].energy, 4);
    assert_eq!(room.players[1].distance, 2);
    assert_eq!(room.players[1].energy, 7);
    assert!(room.players.iter().all(|p| p.submitted.is_none()));
    assert_eq!(
        room.last_summary,
        "Round 1: Alice used Accelerate on straight and moved 2 segments Bob used Drift on straight and moved 2 segments and recovered energy."
    );
    assert_eq!(room.winner, None);
}

#[test]
fn moves_are_refused_without_energy_or_with_a_bad_token() {
    let mut app = app_with(10);
    let (code, alice, _) = two_racer_room(&mut app);
    app.rooms[0].players[0].energy = 2;
    let boost = route_request(
        &mut app,
        &post("/action", &format!("room={code}&token={alice}&action=boost")),
        3,
    )
    .unwrap_err();
    assert_eq!(boost.status, Status::BadRequest);
    assert_eq!(boost.message, "Piet Boost needs at least 3 energy.");
    app.rooms[0].players[0].energy = 0;
    let accelerate = route_request(
        &mut app,
        &post("/action", &format!("room={code}&token={alice}&action=accelerate")),
        3,
    )
    .unwrap_err();
    assert_eq!(accelerate.message, "Accelerate needs at least 1 energy.");
    let stranger = route_request(
        &mut app,
        &post("/action", &format!("room={code}&token=nope&action=drift")),
        3,
    )
    .unwrap_err();
    assert_eq!(stranger.status, Status::Forbidden);
    assert_eq!(stranger.message, "Invalid racer token.");
    let unknown = route_request(
        &mut app,
        &post("/action", &format!("room={code}&token={alice}&action=fly")),
        3,
    )
    .unwrap_err();
    assert_eq!(unknown.message, "Unknown race action.");
    assert!(app.rooms[0].players[0].submitted.is_none());
}

#[test]
fn a_lone_racer_must_wait_for_a_rival() {
    let mut app = app_with(10);
    let created = route_request(&mut app, &post("/create", "name=Alice"), 0).unwrap();
    let target = location(&created);
    let code = query_value(&target, "room");
    let token = query_value(&target, "token");
    let page = route_request(&mut app, &get(&target), 5).unwrap();
    assert_eq!(page.status, Status::Success);
    assert!(page.body.contains("Waiting for the second racer"));
    assert!(page.body.contains("http-equiv=\"refresh\""));
    assert_eq!(app.rooms[0].last_activity, 5);
    let early = route_request(
        &mut app,
        &post("/action", &format!("room={code}&token={token}&action=drift")),
        6,
    )
    .unwrap_err();
    assert_eq!(early.message, "Wait for a second racer.");
}

#[test]
fn the_local_device_moves_for_both_racers_in_turn() {
    let mut app = app_with(10);
    let created = route_request(&mut app, &post("/local", "player_one=Ann&player_two=Ben"), 0).unwrap();
    let target = location(&created);
    let code = query_value(&target, "room");
    let token = query_value(&target, "token");
    assert_eq!(
        app.rooms[0].last_summary,
        "Local race ready. Player 1 chooses first, then pass the device."
    );
    let page = route_request(&mut app, &get(&target), 1).unwrap();
    assert!(page.body.contains("Ann chooses first"));
    route_request(
        &mut app,
        &post("/local-action", &format!("room={code}&token={token}&action=accelerate")),
        2,
    )
    .unwrap();
    assert_eq!(app.rooms[0].local_turn, 1);
    assert_eq!(
        app.rooms[0].last_summary,
        "Ann has chosen. Pass the device to Ben \u{2014} the move stays hidden."
    );
    let handover = route_request(&mut app, &get(&target), 3).unwrap();
    assert!(!handover.body.contains("Accelerate on"));
    route_request(
        &mut app,
        &post("/local-action", &format!("room={code}&token={token}&action=drift")),
        4,
    )
    .unwrap();
    assert_eq!(app.rooms[0].local_turn, 0);
    assert_eq!(app.rooms[0].round, 2);
    let wrong = route_request(
        &mut app,
        &post("/local-action", &format!("room={code}&token=bad&action=drift")),
        5,
    )
    .unwrap_err();
    assert_eq!(wrong.status, Status::Forbidden);
    assert_eq!(wrong.message, "Invalid local-game token.");
}

#[test]
fn a_rematch_puts_everyone_back_at_the_start() {
    let mut app = app_with(10);
    let (code, alice, bob) = two_racer_room(&mut app);
    route_request(&mut app, &post("/action", &format!("room={code}&token={alice}&action=accelerate")), 5)
        .unwrap();
    route_request(&mut app, &post("/action", &format!("room={code}&token={bob}&action=accelerate")), 6)
        .unwrap();
    let refused = route_request(&mut app, &post("/rematch", &format!("room={code}&token=x")), 7)
        .unwrap_err();
    assert_eq!(refused.status, Status::Forbidden);
    let seed_before = app.rooms[0].seed;
    let restarted =
        route_request(&mut app, &post("/rematch", &format!("room={code}&token={bob}")), 8).unwrap();
    assert!(location(&restarted).starts_with("/game?room="));
    let room = &app.rooms[0];
    assert_eq!(room.round, 1);
    assert!(room.players.iter().all(|p| p.distance == 0 && p.energy == 5 && p.submitted.is_none()));
    assert_ne!(room.seed, seed_before);
    assert_eq!(room.seed, app.entropy);
    assert_eq!(room.last_summary, "Rematch started on a newly shuffled circuit. Choose your move.");
}

#[test]
fn a_race_ends_when_a_racer_crosses_the_finish() {
    let mut app = app_with(10);
    let (code, alice, bob) = two_racer_room(&mut app);
    app.rooms[0].players[0].distance = 7;
    app.rooms[0].players[1].distance = 1;
    app.rooms[0].round = 2;
    route_request(&mut app, &post("/action", &format!("room={code}&token={alice}&action=accelerate")), 5)
        .unwrap();
    route_request(&mut app, &post("/action", &format!("room={code}&token={bob}&action=accelerate")), 6)
        .unwrap();
    let room = &app.rooms[0];
    assert_eq!(room.winner, Some(0));
    assert!(room.last_summary.ends_with("Alice wins the race!."));
    let late = route_request(&mut app, &post("/action", &format!("room={code}&token={alice}&action=drift")), 7)
        .unwrap_err();
    assert_eq!(late.message, "The race is already finished.");
    let page = route_request(&mut app, &get(&format!("/game?room={code}&token={bob}")), 8).unwrap();
    assert!(page.body.contains("Alice won the race."));
    assert!(page.body.contains("/rematch"));
}

#[test]
fn an_exact_tie_is_announced_as_a_photo_finish() {
    let mut app = app_with(10);
    let (code, alice, bob) = two_racer_room(&mut app);
    app.rooms[0].players[0].distance = 7;
    app.rooms[0].players[1].distance = 7;
    app.rooms[0].round = 7;
    route_request(&mut app, &post("/action", &format!("room={code}&token={alice}&action=accelerate")), 5)
        .unwrap();
    route_request(&mut app, &post("/action", &format!("room={code}&token={bob}&action=accelerate")), 6)
        .unwrap();
    let room = &app.rooms[0];
    let expected = ((room.seed ^ 7) & 1) as usize;
    assert_eq!(room.winner, Some(expected));
    assert!(room.last_summary.ends_with("wins the race in a photo finish!."));
}

#[test]
fn inactive_rooms_expire_except_during_health_checks() {
    let mut app = app_with(10);
    route_request(&mut app, &post("/create", "name=Alice"), 100).unwrap();
    let health = route_request(&mut app, &get("/health"), 100 + 7_200).unwrap();
    assert_eq!(health.body, "ok");
    assert_eq!(health.content_type, "text/plain; charset=utf-8");
    assert_eq!(app.rooms.len(), 1);
    route_request(&mut app, &get("/"), 100 + 7_199).unwrap();
    assert_eq!(app.rooms.len(), 1);
    route_request(&mut app, &get("/"), 100 + 7_200).unwrap();
    assert!(app.rooms.is_empty());
}

#[test]
fn unknown_routes_get_the_error_page() {
    let mut app = app_with(10);
    let response = handle_request(&mut app, &get("/nowhere"), 0);
    assert_eq!(response.status, Status::NotFound);
    assert_eq!(response.content_type, "text/html; charset=utf-8");
    assert!(response.body.contains("That route does not exist."));
    let wrong_method = route_request(&mut app, &get("/create"), 0).unwrap_err();
    assert_eq!(wrong_method.status, Status::NotFound);
}

#[test]
fn static_routes_serve_the_landing_page_and_icon() {
    let mut app = app_with(10);
    let landing = route_request(&mut app, &get("/"), 0).unwrap();
    assert_eq!(landing.status, Status::Success);
    assert!(landing.body.contains("Crazy Race"));
    let icon = route_request(&mut app, &get("/favicon.svg"), 0).unwrap();
    assert_eq!(icon.content_type, "image/svg+xml; charset=utf-8");
    assert!(icon.body.starts_with("<svg"));
}

#[test]
fn tokens_come_from_operating_system_randomness_when_available() {
    let mut app = app_with(10);
    app.random_bytes = (0u8..40).collect();
    let entropy = app.entropy;
    let response = route_request(&mut app, &post("/create", "name=Alice"), 0).unwrap();
    let token = query_value(&location(&response), "token");
    let expected: String = (8u8..40).map(|b| format!("{b:02x}")).collect();
    assert_eq!(token, expected);
    assert_eq!(app.random_bytes, (0u8..8).collect::<Vec<u8>>());
    assert_ne!(app.entropy, entropy);
}

#[test]
fn pages_do_not_depend_on_the_locked_action() {
    let mut pages = Vec::new();
    for action in ["accelerate", "drift", "boost"] {
        let mut app = app_with(10);
        let (code, alice, bob) = two_racer_room(&mut app);
        route_request(
            &mut app,
            &post("/action", &format!("room={code}&token={alice}&action={action}")),
            10,
        )
        .unwrap();
        let mine = route_request(&mut app, &get(&format!("/game?room={code}&token={alice}")), 11)
            .unwrap()
            .body;
        let theirs = route_request(&mut app, &get(&format!("/game?room={code}&token={bob}")), 11)
            .unwrap()
            .body;
        pages.push((mine, theirs));
    }
    assert_eq!(pages[0], pages[1]);
    assert_eq!(pages[1], pages[2]);
    assert!(pages[0].0.contains("Move locked."));
}

/// An adaptive boost oracle painting computing `1 + (sum mod 4)` of its
/// four inputs.
fn adaptive_oracle() -> String {
    let codels = [
        "255 192 192", "0 0 192", "0 255 0", "255 192 192", "0 0 192", "192 0 192", "192 0 0",
        "192 192 0", "192 192 0", "192 192 0", "192 192 0", "255 255 192", "0 255 255",
        "0 192 192", "0 0 192", "192 255 255",
    ];
    format!("P3\n16 1\n255\n{}\n", codels.join(" "))
}

#[test]
fn accelerate_is_disabled_without_energy() {
    let mut app = app_with(10);
    let (code, alice, _) = two_racer_room(&mut app);
    let rested = route_request(&mut app, &get(&format!("/game?room={code}&token={alice}")), 2)
        .unwrap()
        .body;
    assert!(!rested.contains("Accelerate needs 1 energy"));
    app.rooms[0].players[0].energy = 0;
    let tired = route_request(&mut app, &get(&format!("/game?room={code}&token={alice}")), 3)
        .unwrap()
        .body;
    assert!(tired.contains(
        "value=\"accelerate\" disabled aria-disabled=\"true\" title=\"Accelerate needs 1 energy\""
    ));
    assert!(tired.contains("title=\"Piet Boost needs 3 energy\""));
    assert!(tired.contains("value=\"drift\"><strong>Drift"));
}

#[test]
fn the_page_previews_this_rounds_oracle_boost() {
    let mut app = new_app(
        vec![segment("straight"); 8],
        3,
        Some(adaptive_oracle()),
        vec!["Test announcement.".to_string()],
        42,
        10,
        7_200,
    );
    let (code, alice, _) = two_racer_room(&mut app);
    let fresh = route_request(&mut app, &get(&format!("/game?room={code}&token={alice}")), 2)
        .unwrap()
        .body;
    assert!(fresh.contains("Oracle +3 and terrain bonus"));
    app.rooms[0].players[0].energy = 9;
    let charged = route_request(&mut app, &get(&format!("/game?room={code}&token={alice}")), 3)
        .unwrap()
        .body;
    assert!(charged.contains("Oracle +1 and terrain bonus"));
}
