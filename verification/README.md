# Crazy Race, verified

The game engine and web front of Crazy Race, a browser-based 1v1 turn-based
racing game, written in Verus. Every function under `src/` carries a
contract that Verus proves, except three small trusted wrappers in
`src/text.rs` around `String::from_utf8_lossy`, `char::to_uppercase` and
`String::push`, whose contracts are taken as given; `app/` is the thin
server process around it
(sockets, threads, files, helper programs, the clock and the operating
system's randomness).

## Layout

- `src/text.rs` — characters, decimal and hexadecimal formatting, integer
  parsing with the rules of `str::parse`, Unicode trimming, capitalization.
- `src/piet.rs` — the Piet interpreter for one-row PPM programs that compute
  the boost.
- `src/http.rs` — request heads, forms, URL encoding and decoding, field
  validation, redirects and response heads.
- `src/game.rs` — the race rules: actions, movement, the adaptive oracle,
  round resolution, online and local moves, rematches.
- `src/track.rs` — the circuit table, the per-room shuffle and the
  fingerprint.
- `src/render.rs` — every HTML page, specified as text.
- `src/server.rs` — the server state, room codes, tokens, expiry and limits.
- `src/routes.rs` — the request routes and their dispatch.
- `src/announcer.rs` — the announcer lines from the announcer's output.
- `src/config.rs` — start-up settings and connection admission.
- `src/properties.rs` — properties of the game as a whole: moves stay hidden
  until both racers have moved, how a race is decided, escaped text is inert.
- `tests/` — executable tests of the library.
- `app/main.rs` — the server process.
