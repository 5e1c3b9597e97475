use lib::game::{move_locked_summary, movement_for, Player, RaceAction, TrackSegment};
use lib::http::{clean_room_code, parse_form, SECURITY_HEADERS};
use lib::piet::{run_piet_source, run_piet_source_with_inputs};
use lib::render::{page_shell, render_landing_page, render_racer, render_track};
use lib::server::{next_token, AppState};
use lib::track::track_fingerprint;

/// An adaptive boost oracle painting: reads four numbers and prints
/// `1 + (sum mod 4)`. The game's own `piet/boost_oracle.ppm` is not at hand
/// here, so this sixteen-codel painting with the same behaviour stands in
/// for it; the test runs the same inputs and expects the same values.
fn adaptive_oracle() -> String {
    let codels = [
        "255 192 192",
        "0 0 192",
        "0 255 0",
        "255 192 192",
        "0 0 192",
        "192 0 192",
        "192 0 0",
        "192 192 0",
        "192 192 0",
        "192 192 0",
        "192 192 0",
        "255 255 192",
        "0 255 255",
        "0 192 192",
        "0 0 192",
        "192 255 255",
    ];
    format!("P3\n16 1\n255\n{}\n", codels.join(" "))
}

fn segment(terrain: &str) -> TrackSegment {
    TrackSegment { terrain: terrain.to_string(), speed: 0, boost: 1, recovery: 2 }
}

fn test_app() -> AppState {
    AppState {
        rooms: Vec::new(),
        track: vec![segment("straight"); 8],
        piet_boost: 3,
        piet_program: None,
        announcements: vec!["Test announcement.".to_string()],
        entropy: 42,
        random_bytes: Vec::new(),
        max_rooms: 10,
        room_ttl_seconds: 7_200,
    }
}

#[test]
fn main_piet_oracle_outputs_three() {
    let source = "P3\n5 1\n255\n255 192 192 255 192 192 255 192 192 255 0 0 192 0 192\n";
    assert_eq!(run_piet_source(source).unwrap(), 3);
}

#[test]
fn form_decoding_handles_spaces_and_utf8() {
    let form = parse_form("name=Luis+Benedikt&room=ABC123");
    assert_eq!(form.get("name").unwrap(), "Luis Benedikt");
    assert_eq!(form.get("room").unwrap(), "ABC123");
}

#[test]
fn boost_without_energy_is_small() {
    let segment = TrackSegment { terrain: "jump".to_string(), speed: 3, boost: 4, recovery: 1 };
    assert_eq!(movement_for(RaceAction::Boost, 0, &segment, 3).0, 1);
    assert!(movement_for(RaceAction::Boost, 5, &segment, 3).0 > 1);
}

#[test]
fn drift_rewards_curves() {
    let straight = movement_for(RaceAction::Drift, 5, &segment("straight"), 3);
    let curve = movement_for(RaceAction::Drift, 5, &segment("curve"), 3);
    assert!(curve.0 > straight.0);
    assert_eq!(curve.1, 2);
}

#[test]
fn boost_needs_energy() {
    assert_eq!(movement_for(RaceAction::Boost, 2, &segment("jump"), 3).0, 1);
    assert!(movement_for(RaceAction::Boost, 3, &segment("jump"), 3).0 > 1);
}

#[test]
fn ui_piet_oracle_outputs_three() {
    let source = "P3\n5 1\n255\n255 192 192 255 192 192 255 192 192 255 0 0 192 0 192\n";
    assert_eq!(run_piet_source(source).unwrap(), 3);
}

#[test]
fn adaptive_piet_oracle_changes_with_inputs_and_stays_bounded() {
    let source = adaptive_oracle();
    assert_eq!(run_piet_source_with_inputs(&source, &[1, 0, 0, 1]).unwrap(), 3);
    assert_eq!(run_piet_source_with_inputs(&source, &[2, 3, 1, 2]).unwrap(), 1);
    for round in 1..12 {
        let value = run_piet_source_with_inputs(&source, &[round, 2, 3, 1]).unwrap();
        assert!((1..=4).contains(&value));
    }
}

#[test]
fn mobile_viewport_favicon_and_easter_egg_are_present() {
    let source = adaptive_oracle();
    let page = render_landing_page(Some(&source));
    assert!(page.contains("width=device-width"));
    assert!(page.contains("Local 1v1"));
    let shell = page_shell("Test", "", &page, Some(&source));
    assert!(shell.contains("rel=\"icon\""));
    assert!(shell.contains("Piet easter egg"));
}

#[test]
fn track_uses_visible_symbols_and_fingerprint() {
    let track = vec![segment("straight"), segment("curve"), segment("mud"), segment("jump")];
    let html = render_track(&track);
    assert!(html.contains("▰"));
    assert!(html.contains("◒"));
    assert!(html.contains("≈"));
    assert!(html.contains("▲"));
    assert_eq!(track_fingerprint(&track).len(), 8);
}

#[test]
fn racer_display_clamps_finish_counter_and_shows_energy() {
    let player = Player {
        name: "Test".to_string(),
        token: "token".to_string(),
        distance: 25,
        energy: 4,
        submitted: None,
    };
    let html = render_racer(&player, 20, true);
    assert!(html.contains("20</strong> / 20"));
    assert!(html.contains("Finished · score 25"));
    assert!(html.contains("4</strong> / 10 energy"));
}

#[test]
fn pending_online_move_does_not_reveal_action() {
    let summary = move_locked_summary("Alice");
    assert_eq!(summary, "Alice locked in a move. Waiting for the rival.");
    assert!(!summary.contains("Accelerate"));
    assert!(!summary.contains("Drift"));
    assert!(!summary.contains("Boost"));
}

#[test]
fn access_tokens_are_256_bit_hex_strings() {
    let mut app = test_app();
    let first = next_token(&mut app);
    let second = next_token(&mut app);
    assert_eq!(first.len(), 64);
    assert_eq!(second.len(), 64);
    assert!(first.bytes().all(|byte| byte.is_ascii_hexdigit()));
    assert!(second.bytes().all(|byte| byte.is_ascii_hexdigit()));
    assert_ne!(first, second);
}

#[test]
fn room_codes_are_strictly_validated() {
    assert_eq!(clean_room_code(" abc234 ").unwrap(), "ABC234");
    assert!(clean_room_code("ABC").is_err());
    assert!(clean_room_code("ABC10O").is_err());
    assert!(clean_room_code("ABC-23").is_err());
}

#[test]
fn security_headers_disable_caching_and_embedding() {
    assert!(SECURITY_HEADERS.contains("Cache-Control: no-store"));
    assert!(SECURITY_HEADERS.contains("Content-Security-Policy:"));
    assert!(SECURITY_HEADERS.contains("frame-ancestors 'none'"));
    assert!(SECURITY_HEADERS.contains("Referrer-Policy: no-referrer"));
}
