use lib::announcer::announcements_from_output;
use lib::config::{admits_connection, busy_response, env_u64, initial_entropy, track_seed};
use lib::game::{
    adaptive_piet_oracle, movement_for, validate_action_energy, RaceAction, TrackSegment,
};
use lib::http::{
    build_request, clean_name, finish_request, head_end, healthy_reply, needs_more_body,
    parse_request_head, redirect_to_local_game, response_head, url_decode, url_encode, Status,
    SECURITY_HEADERS,
};
use lib::http::{head_read_step, HeadStep, MAX_HEAD_BYTES};
use lib::piet::{run_piet_oracle, run_piet_source, PietError, PpmField};
use lib::render::{html_escape, render_error_page, render_piet_easter_egg};
use lib::text::capitalize;
use lib::track::{parse_track, track_for_room, track_fingerprint, TrackError};

fn seg(terrain: &str, speed: i32, boost: i32, recovery: i32) -> TrackSegment {
    TrackSegment { terrain: terrain.to_string(), speed, boost, recovery }
}

fn table(rows: &[&str]) -> String {
    let mut text = String::from("index\tterrain\tspeed\tboost\trecovery\n");
    for row in rows {
        text.push_str(row);
        text.push('\n');
    }
    text
}

fn eight_rows() -> Vec<String> {
    (0..8).map(|i| format!("{i}\tstraight\t{}\t1\t2", i % 3 - 1)).collect()
}

#[test]
fn movement_follows_the_action_formulas() {
    let mud = seg("mud", -2, 0, 1);
    assert_eq!(movement_for(RaceAction::Accelerate, 5, &mud, 3).0, 1);
    assert_eq!(movement_for(RaceAction::Accelerate, 5, &mud, 3).1, -1);
    assert_eq!(movement_for(RaceAction::Drift, 5, &mud, 3).0, 2);
    assert_eq!(movement_for(RaceAction::Drift, 5, &mud, 3).2, " and recovered energy");
    let jump = seg("jump", 2, 3, 0);
    assert_eq!(movement_for(RaceAction::Boost, 3, &jump, 4).0, 9);
    assert_eq!(movement_for(RaceAction::Boost, 3, &jump, 1).0, 8);
    assert_eq!(movement_for(RaceAction::Boost, 3, &jump, 1).1, -3);
    assert_eq!(movement_for(RaceAction::Boost, 1, &jump, 1), (1, 1, " but lacked energy"));
}

#[test]
fn actions_need_their_energy() {
    assert!(validate_action_energy(RaceAction::Drift, 0).is_ok());
    assert!(validate_action_energy(RaceAction::Accelerate, 1).is_ok());
    assert!(validate_action_energy(RaceAction::Boost, 3).is_ok());
    let tired = validate_action_energy(RaceAction::Accelerate, 0).unwrap_err();
    assert_eq!(tired.status, Status::BadRequest);
    assert_eq!(tired.message, "Accelerate needs at least 1 energy.");
    let weak = validate_action_energy(RaceAction::Boost, 2).unwrap_err();
    assert_eq!(weak.message, "Piet Boost needs at least 3 energy.");
    assert_eq!(RaceAction::parse("boost"), Some(RaceAction::Boost));
    assert_eq!(RaceAction::parse("Boost"), None);
    assert_eq!(RaceAction::Boost.label(), "Piet Boost");
}

#[test]
fn the_oracle_falls_back_and_stays_within_one_to_four() {
    let curve = seg("curve", 0, 0, 0);
    let none = adaptive_piet_oracle(3, 0, &[(0, 5), (9, 5)], &curve, 7, None, 9);
    assert_eq!(none.value, 4);
    assert_eq!(none.round_input, 3);
    assert_eq!(none.terrain_input, 1);
    assert_eq!(none.comeback_input, 2);
    assert_eq!(none.energy_input, 2);
    let broken = adaptive_piet_oracle(1, 1, &[(0, 5), (0, 5)], &curve, 5, Some("P6"), -5);
    assert_eq!(broken.value, 1);
}

#[test]
fn piet_programs_report_why_they_cannot_run() {
    assert_eq!(run_piet_source("P6\n1 1\n255\n0 0 0\n"), Err(PietError::NotPpm));
    assert_eq!(run_piet_source("P3\n2 1\n"), Err(PietError::Missing(PpmField::MaxValue)));
    assert_eq!(run_piet_source("P3\n2 2\n255\n"), Err(PietError::BadShape));
    assert_eq!(
        run_piet_source("P3\n2 1\n255\n1 2 3 0 0 0\n"),
        Err(PietError::UnsupportedColor(1, 2, 3))
    );
    let commented = "P3 # a comment\n5 1\n255\n255 192 192 255 192 192 255 192 192 255 0 0 192 0 192\n";
    assert_eq!(run_piet_source(commented), Ok(3));
    let oracle = "P3\n5 1\n255\n255 192 192 255 192 192 255 192 192 255 0 0 192 0 192\n";
    assert_eq!(run_piet_oracle(oracle), Ok(3));
}

#[test]
fn tracks_are_read_from_tab_separated_rows() {
    let rows = eight_rows();
    let refs: Vec<&str> = rows.iter().map(|s| s.as_str()).collect();
    let track = parse_track(&table(&refs)).unwrap();
    assert_eq!(track.len(), 8);
    assert_eq!(track[0].speed, -1);
    assert_eq!(track[2].speed, 1);
    let mut with_blank = refs.clone();
    with_blank.insert(3, "   ");
    assert_eq!(parse_track(&table(&with_blank)).unwrap().len(), 8);
    let mut bad_speed = refs.clone();
    bad_speed[1] = "1\tcurve\tfast\t1\t2";
    assert_eq!(parse_track(&table(&bad_speed)).unwrap_err(), TrackError::InvalidSpeed(3));
    assert_eq!(
        parse_track(&table(&bad_speed)).unwrap_err().message(),
        "invalid speed at line 3"
    );
    let mut short_row = refs.clone();
    short_row[0] = "0\tcurve\t1";
    assert_eq!(parse_track(&table(&short_row)).unwrap_err(), TrackError::InvalidRow(2));
    assert_eq!(parse_track(&table(&refs[..7])).unwrap_err(), TrackError::TooShort);
}

#[test]
fn each_room_shuffles_only_the_middle_of_the_circuit() {
    let track: Vec<TrackSegment> = (0..10).map(|i| seg("curve", i, 0, 0)).collect();
    for seed in [0u64, 1, 42, u64::MAX] {
        let shuffled = track_for_room(&track, seed);
        assert_eq!(shuffled.len(), 10);
        assert_eq!(shuffled[0].speed, 0);
        assert_eq!(shuffled[9].speed, 9);
        let mut speeds: Vec<i32> = shuffled.iter().map(|s| s.speed).collect();
        speeds.sort();
        assert_eq!(speeds, (0..10).collect::<Vec<i32>>());
    }
    assert_eq!(track_fingerprint(&track), track_fingerprint(&track));
    assert_ne!(track_fingerprint(&track), track_fingerprint(&track[..9]));
}

#[test]
fn url_encoding_round_trips_through_decoding() {
    let text = "Zoë & co+1/2?";
    let encoded = url_encode(text);
    assert_eq!(encoded, "Zo%C3%AB%20%26%20co%2B1%2F2%3F");
    assert_eq!(url_decode(&encoded), text);
    assert_eq!(url_decode("a+b%41%zz%4"), "a bA%zz%4");
    assert_eq!(url_decode("%FF"), "\u{fffd}");
}

#[test]
fn request_heads_are_read_from_bytes() {
    let raw = b"POST /join?x=1 HTTP/1.1\r\nHost: a\r\ncontent-LENGTH:  9 \r\n\r\nname=Ana&extra";
    let end = head_end(raw).unwrap();
    assert_eq!(end, raw.len() - 14);
    let head = parse_request_head(&raw[..end]).unwrap();
    assert_eq!(head.method, "POST");
    assert_eq!(head.target, "/join?x=1");
    assert_eq!(head.content_length, 9);
    assert!(!needs_more_body(raw.len(), end, head.content_length));
    assert!(needs_more_body(end + 3, end, head.content_length));
    let request = finish_request(raw, end, head);
    assert_eq!(request.path, "/join");
    assert_eq!(request.query.get("x").unwrap(), "1");
    assert_eq!(request.body.get("name").unwrap(), "Ana");
    assert!(request.body.get("extra").is_none());
    assert_eq!(head_end(b"GET / HTTP/1.1\r\n"), None);
    let empty = parse_request_head(b"").unwrap_err();
    assert_eq!(empty.message, "Missing request line.");
    let bare = parse_request_head(b"GET\r\n\r\n").unwrap();
    assert_eq!(bare.target, "/");
    assert_eq!(bare.content_length, 0);
    let request = build_request("GET".to_string(), "/game?room=AB%43&token=t", b"");
    assert_eq!(request.query.get("room").unwrap(), "ABC");
}

#[test]
fn responses_carry_the_security_headers_and_byte_length() {
    let redirect = redirect_to_local_game("ABC234", "tok en");
    assert_eq!(redirect.headers[0].1, "/local-game?room=ABC234&token=tok%20en");
    let head = response_head(redirect.status, redirect.content_type, "é", &redirect.headers);
    assert!(head.starts_with("HTTP/1.1 303 See Other\r\n"));
    assert!(head.contains("Content-Length: 2\r\n"));
    assert!(head.contains(SECURITY_HEADERS));
    assert!(head.ends_with("Location: /local-game?room=ABC234&token=tok%20en\r\n\r\n"));
}

#[test]
fn names_are_trimmed_and_limited() {
    let spaced = "  Ann Lee \t".to_string();
    assert_eq!(clean_name(Some(&spaced)).unwrap(), "Ann Lee");
    assert_eq!(clean_name(None).unwrap_err().message, "Enter a racer name.");
    let exact = "x".repeat(24);
    assert_eq!(clean_name(Some(&exact)).unwrap(), exact);
}

#[test]
fn escaped_text_cannot_open_markup() {
    assert_eq!(html_escape("<a href='x'>&\"</a>"), "&lt;a href=&#39;x&#39;&gt;&amp;&quot;&lt;/a&gt;");
    let page = render_error_page("<script>", None);
    assert!(page.contains("&lt;script&gt;"));
    assert!(!page.contains("<script>"));
}

#[test]
fn the_easter_egg_draws_one_square_per_codel() {
    let source = "P3\n2 1\n255\n255 0 0 0 0 255\n";
    let egg = render_piet_easter_egg(Some(source));
    assert!(egg.contains("viewBox=\"0 0 72 36\""));
    assert!(egg.contains("<rect x=\"36\" y=\"0\" width=\"36\" height=\"36\" fill=\"rgb(0,0,255)\"/>"));
    assert_eq!(render_piet_easter_egg(None), "");
    assert_eq!(render_piet_easter_egg(Some("P6 1 1 255")), "");
}

#[test]
fn announcer_output_becomes_capitalized_lines() {
    let output = b"  what a race \n\n\t\nthe crowd roars\r\n\xff end\n";
    let lines = announcements_from_output(output).unwrap();
    assert_eq!(lines, vec!["What a race", "The crowd roars", "\u{fffd} end"]);
    assert_eq!(
        announcements_from_output(b" \n \r\n").unwrap_err(),
        "interpreter produced no announcements"
    );
    assert_eq!(capitalize("élan"), "Élan");
    assert_eq!(capitalize("ß"), "SS");
    assert_eq!(capitalize(""), "");
}

#[test]
fn settings_are_clamped_and_defaulted() {
    assert_eq!(env_u64(Some("50"), 7, 60, 600), 60);
    assert_eq!(env_u64(Some("+700"), 7, 60, 600), 600);
    assert_eq!(env_u64(Some("120"), 7, 60, 600), 120);
    assert_eq!(env_u64(Some("soon"), 7, 60, 600), 7);
    assert_eq!(env_u64(None, 7, 60, 600), 7);
    assert_eq!(track_seed(Some("2026")), 2026);
    assert_eq!(track_seed(Some("-1")), 42);
    assert_eq!(initial_entropy(Some(0b1100), 0b1010), 0b0110);
    assert_eq!(initial_entropy(None, 99), 0);
    assert!(admits_connection(3, 4));
    assert!(!admits_connection(4, 4));
    let busy = busy_response();
    assert_eq!(busy.status, Status::ServiceUnavailable);
    assert_eq!(busy.headers[0].0, "Retry-After");
}

#[test]
fn the_readiness_check_reads_the_status_line() {
    assert!(healthy_reply(b"HTTP/1.1 200 OK\r\n\r\nok"));
    assert!(!healthy_reply(b"HTTP/1.1 503 Service Unavailable\r\n"));
    assert!(!healthy_reply(b"HTTP/1.1 20"));
}

#[test]
fn oversized_requests_are_refused_before_the_body_is_read() {
    let at_limit = format!("POST / HTTP/1.1\r\nContent-Length: {}\r\n\r\n", lib::http::MAX_BODY_BYTES);
    assert_eq!(parse_request_head(at_limit.as_bytes()).unwrap().content_length, 16_384);
    let over = b"POST / HTTP/1.1\r\nContent-Length: 16385\r\n\r\n";
    let refused = parse_request_head(over).unwrap_err();
    assert_eq!(refused.status, Status::PayloadTooLarge);
    assert_eq!(refused.message, "Request body is too large.");
    let long_target = format!("GET /{} HTTP/1.1\r\n\r\n", "a".repeat(2_048));
    let too_long = parse_request_head(long_target.as_bytes()).unwrap_err();
    assert_eq!(too_long.status, Status::UriTooLong);
    assert_eq!(too_long.message, "Request URI is too long.");
    let fits = format!("GET /{} HTTP/1.1\r\n\r\n", "a".repeat(2_047));
    assert!(parse_request_head(fits.as_bytes()).is_ok());
    let head = response_head(Status::PayloadTooLarge, "text/plain; charset=utf-8", "", &Vec::new());
    assert!(head.starts_with("HTTP/1.1 413 Payload Too Large\r\n"));
}

#[test]
fn encodings_use_only_query_safe_characters() {
    let encoded = url_encode("a b/é&=+?");
    assert_eq!(&encoded[..12], "a%20b%2F%C3%");
    assert!(encoded.chars().all(|c| c.is_ascii_alphanumeric() || c == '-' || c == '_' || c == '%'));
}

#[test]
fn piet_errors_read_as_messages() {
    assert_eq!(PietError::NotPpm.message(), "Piet source must be an ASCII PPM (P3)");
    assert_eq!(PietError::Missing(PpmField::MaxValue).message(), "missing max value");
    assert_eq!(PietError::Invalid(PpmField::Red).message(), "invalid red");
    assert_eq!(PietError::BadShape.message(), "oracle expects a one-row, 255-range PPM");
    assert_eq!(PietError::UnsupportedColor(1, -2, 3).message(), "unsupported Piet color (1, -2, 3)");
    assert_eq!(PietError::MissingInput(1).message(), "Piet requested missing numeric input 1");
    assert_eq!(PietError::UnsupportedCommand(3, 1).message(), "unsupported linear Piet command (3, 1)");
    assert_eq!(PietError::NoNumber.message(), "Piet program produced no number");
    assert_eq!(
        run_piet_source("P3\n2 1\n255\n255 192 192 0 255 255\n").unwrap_err().message(),
        "unsupported linear Piet command (3, 1)"
    );
}

#[test]
fn request_heads_are_read_until_a_blank_line_or_the_limit() {
    assert!(matches!(head_read_step(b"GET / HTTP/1.1\r\n", false), HeadStep::ReadMore));
    match head_read_step(b"GET / HTTP/1.1\r\n", true) {
        HeadStep::Refused(e) => {
            assert_eq!(e.status, Status::BadRequest);
            assert_eq!(e.message, "Malformed HTTP request.");
        }
        _ => panic!("an unfinished head at the end of input is malformed"),
    }
    assert!(matches!(head_read_step(&vec![b'a'; MAX_HEAD_BYTES], false), HeadStep::Refused(_)));
    assert!(matches!(head_read_step(&vec![b'a'; MAX_HEAD_BYTES - 1], false), HeadStep::ReadMore));
    assert!(matches!(head_read_step(b"GET / HTTP/1.1\r\n\r\nbody", true), HeadStep::Complete(18)));
}

#[test]
fn a_bare_carriage_return_at_the_very_end_stays_in_the_last_line() {
    assert_eq!("x\r".lines().collect::<Vec<_>>(), vec!["x\r"]);
    assert_eq!("x\r\ny\r\n".lines().collect::<Vec<_>>(), vec!["x", "y"]);
    let rows = eight_rows();
    let mut text = table(&rows.iter().map(|s| s.as_str()).collect::<Vec<_>>());
    text.pop();
    text.push('\r');
    assert_eq!(parse_track(&text).unwrap_err(), TrackError::InvalidRecovery(9));
    text.push('\n');
    assert_eq!(parse_track(&text).unwrap().len(), 8);
}
