//! Server-rendered HTML: the page shell, the landing page, the race pages,
//! racer cards, the circuit strip and the Piet easter egg.
use vstd::prelude::*;
use crate::game::{clamp, max, Player, Room, TrackSegment};
use crate::piet::{ppm_tokens, token_views, tokenize_ppm};
use crate::text::{
    capitalize, capitalized, chars_eq, chars_of, decimal, i64_to_string, parse_usize,
    parse_usize_spec, push_char, push_i64, signed_decimal,
};
use crate::track::{fingerprint, terrain_symbol, terrain_symbol_of, track_fingerprint};

verus! {

// ---------------------------------------------------------------------------
// Escaping
// ---------------------------------------------------------------------------

/// The HTML escape of one character.
pub open spec fn escape_char(c: char) -> Seq<char> {
    if c == '&' {
        "&amp;"@
    } else if c == '<' {
        "&lt;"@
    } else if c == '>' {
        "&gt;"@
    } else if c == '"' {
        "&quot;"@
    } else if c == '\'' {
        "&#39;"@
    } else {
        seq![c]
    }
}

/// The HTML escape of a text: `&`, `<`, `>`, `"` and `'` become entities.
pub open spec fn html_escaped(s: Seq<char>) -> Seq<char>
    decreases s.len(),
{
    if s.len() == 0 {
        seq![]
    } else {
        html_escaped(s.drop_last()) + escape_char(s.last())
    }
}

/// Escapes text for use inside HTML content and attribute values.
pub fn html_escape(value: &str) -> (s: String)
    ensures
        s@ == html_escaped(value@),
{
    let cs = chars_of(value);
    let mut s = String::new();
    let mut i: usize = 0;
    while i < cs.len()
        invariant
            i <= cs@.len(),
            cs@ == value@,
            s@ == html_escaped(cs@.take(i as int)),
        decreases cs.len() - i,
    {
        let c = cs[i];
        if c == '&' {
            s.append("&amp;");
        } else if c == '<' {
            s.append("&lt;");
        } else if c == '>' {
            s.append("&gt;");
        } else if c == '"' {
            s.append("&quot;");
        } else if c == '\'' {
            s.append("&#39;");
        } else {
            push_char(&mut s, c);
        }
        assert(cs@.take(i + 1).drop_last() == cs@.take(i as int));
        i = i + 1;
    }
    assert(cs@.take(cs@.len() as int) == cs@);
    s
}

/// A number written with an explicit sign, as `{:+}` prints it.
pub open spec fn plus_signed(n: int) -> Seq<char> {
    if n >= 0 {
        "+"@ + decimal(n as nat)
    } else {
        signed_decimal(n)
    }
}

fn push_plus(out: &mut String, n: i64)
    ensures
        final(out)@ == old(out)@ + plus_signed(n as int),
{
    if n >= 0 {
        out.append("+");
        crate::text::push_u64(out, n as u64);
    } else {
        push_i64(out, n);
    }
}

// ---------------------------------------------------------------------------
// Templates
// ---------------------------------------------------------------------------

/// Fixed text of the page shell, piece 0.
pub const SHELL_0: &'static str = r##"<!doctype html>
<html lang="en">
<head>
<meta charset="utf-8">
<meta name="viewport" content="width=device-width, initial-scale=1, viewport-fit=cover">
<meta name="theme-color" content="#0b1020">
<link rel="icon" href="data:image/svg+xml,%3Csvg xmlns='http://www.w3.org/2000/svg' viewBox='0 0 64 64'%3E%3Crect width='64' height='64' rx='14' fill='%230b1020'/%3E%3Cpath d='M17 12v40' stroke='%23f5f7ff' stroke-width='6' stroke-linecap='round'/%3E%3Cpath d='M20 14h30v24H20z' fill='%236fe7ff'/%3E%3Cpath d='M20 14h10v8H20zm20 0h10v8H40zM30 22h10v8H30zM20 30h10v8H20zm20 0h10v8H40z' fill='%23b38cff'/%3E%3C/svg%3E">
<title>"##;

/// Fixed text of the page shell, piece 1.
pub const SHELL_1: &'static str = r#"</title>
"#;

/// Fixed text of the page shell, piece 2.
pub const SHELL_2: &'static str = r#"
<style>
:root{color-scheme:dark;--bg:#070b16;--panel:#11182b;--panel-2:#18223a;--text:#f5f7ff;--muted:#aeb9d5;--accent:#6fe7ff;--accent-2:#b38cff;--success:#79f2a6;--danger:#ff7b91;--border:rgba(255,255,255,.11)}
*{box-sizing:border-box}
html{-webkit-text-size-adjust:100%;background:var(--bg)}
body{margin:0;min-height:100vh;font-family:Inter,ui-sans-serif,system-ui,-apple-system,BlinkMacSystemFont,"Segoe UI",sans-serif;background:radial-gradient(circle at top,#19294d 0,#0b1020 38%,var(--bg) 80%);color:var(--text);line-height:1.55}
main{width:min(1120px,calc(100% - 32px));margin:0 auto;padding:48px 0 64px}
h1,h2,h3,p{margin-top:0}h1{font-size:clamp(2.2rem,7vw,5rem);line-height:.95;margin-bottom:18px;letter-spacing:-.045em}h2{font-size:1.3rem}h3{font-size:1.15rem;margin-bottom:14px}
a{color:var(--accent)}code{color:#dffaff;background:#090e1b;padding:.15rem .38rem;border-radius:.4rem}
.hero{padding:30px 0 38px;max-width:760px}.hero p:not(.eyebrow){font-size:clamp(1rem,2.4vw,1.3rem);color:var(--muted)}
.eyebrow,.mode-tag{font-size:.76rem;font-weight:800;text-transform:uppercase;letter-spacing:.16em;color:var(--accent);margin-bottom:10px}
.grid{display:grid;gap:18px}.grid.two{grid-template-columns:repeat(2,minmax(0,1fr))}.grid.three{grid-template-columns:repeat(3,minmax(0,1fr))}
.card{background:linear-gradient(145deg,rgba(24,34,58,.96),rgba(13,20,37,.96));border:1px solid var(--border);border-radius:20px;padding:22px;box-shadow:0 18px 50px rgba(0,0,0,.24)}.local-card{border-color:rgba(179,140,255,.42)}
form{display:grid;gap:14px}label{display:grid;gap:7px;color:var(--muted);font-weight:700;font-size:.9rem}input{width:100%;min-height:48px;border:1px solid var(--border);border-radius:12px;padding:12px 14px;background:#090e1b;color:var(--text);font:inherit;font-size:16px}input:focus{outline:3px solid rgba(111,231,255,.22);border-color:var(--accent)}
button,.button-link{min-height:50px;border:0;border-radius:13px;padding:13px 16px;background:linear-gradient(135deg,var(--accent),var(--accent-2));color:#07101c;font:inherit;font-weight:900;cursor:pointer;text-decoration:none;text-align:center;touch-action:manipulation}button:hover,.button-link:hover{filter:brightness(1.08)}button:disabled{cursor:not-allowed;filter:grayscale(.75);opacity:.48}
.stack-note{margin-top:18px}.topbar{display:flex;justify-content:space-between;align-items:flex-end;gap:18px;margin-bottom:20px}.topbar h1{font-size:clamp(2.2rem,10vw,4.4rem);margin:0;letter-spacing:.08em}.round{background:var(--panel-2);border:1px solid var(--border);border-radius:999px;padding:10px 15px;font-weight:800;white-space:nowrap}
.racers{margin-bottom:18px}.racer{position:relative;overflow:hidden}.active-racer{border-color:rgba(111,231,255,.55);box-shadow:0 0 0 2px rgba(111,231,255,.08),0 18px 50px rgba(0,0,0,.24)}.muted{opacity:.68}.stats{display:flex;justify-content:space-between;gap:12px;color:var(--muted);font-size:.9rem}.stats strong{color:var(--text)}.status-labels{display:flex;justify-content:space-between;gap:10px;margin-top:10px;color:var(--muted);font-size:.78rem}
.progress,.energy-bar{height:11px;margin-top:12px;background:#080d19;border-radius:999px;overflow:hidden;border:1px solid var(--border)}.progress span{display:block;height:100%;background:linear-gradient(90deg,var(--accent),var(--accent-2));border-radius:inherit}.energy-bar{height:7px;margin-top:8px}.energy-bar span{display:block;height:100%;background:linear-gradient(90deg,#79f2a6,#f4d35e);border-radius:inherit}
.announcer,.track-card,.action-card{margin-top:18px}blockquote{margin:0 0 14px;font-size:clamp(1.15rem,3vw,1.55rem);font-weight:800;line-height:1.35}.announcer>p:last-child{margin-bottom:0;color:var(--muted)}
.track-heading{display:flex;justify-content:space-between;align-items:flex-start;gap:20px}.track-heading h2{margin-bottom:5px}.track-heading p,.track-help{color:var(--muted);font-size:.82rem}.track-help{white-space:nowrap}.track-scroll{overflow-x:auto;padding:4px 2px 12px;overscroll-behavior-inline:contain}.track{display:flex;gap:7px;min-width:max-content}.segment{width:44px;height:48px;border-radius:10px;display:grid;place-items:center;font-size:.86rem;font-weight:900;border:1px solid rgba(255,255,255,.15);background:#28344f;line-height:1}.segment b{font-size:1rem}.segment small{font-size:.66rem;opacity:.85}.segment.curve{background:#59438d}.segment.mud{background:#7a5c36}.segment.jump{background:#1b716e}.legend{display:grid;grid-template-columns:repeat(4,minmax(0,1fr));gap:10px}.legend-item{display:flex;align-items:center;gap:9px;padding:9px 10px;border-radius:11px;background:#28344f;border:1px solid var(--border)}.legend-item.curve{background:#59438d}.legend-item.mud{background:#7a5c36}.legend-item.jump{background:#1b716e}.legend-item b{font-size:1.1rem}.legend-item span{display:grid}.legend-item small{font-size:.68rem;opacity:.8}
.turn-status{display:flex;flex-wrap:wrap;align-items:center;gap:9px 14px;margin-bottom:14px;padding:12px 14px;border-radius:12px;background:#090e1b;color:var(--muted);font-size:.84rem}.terrain-pill{padding:5px 9px;border-radius:999px;color:white;background:#28344f}.terrain-pill.curve{background:#59438d}.terrain-pill.mud{background:#7a5c36}.terrain-pill.jump{background:#1b716e}.actions{grid-template-columns:repeat(3,minmax(0,1fr))}.actions button{display:grid;gap:3px;text-align:left;align-content:start}.actions button span{font-weight:650;font-size:.78rem;opacity:.75}.single-action{grid-template-columns:1fr}.notice,.handover{padding:15px;border-radius:13px;background:rgba(111,231,255,.09);border:1px solid rgba(111,231,255,.22);color:#dffaff}.notice{margin-bottom:0}.handover{margin-bottom:14px}.handover p,.current-player{margin:0}.current-player{margin-bottom:12px;color:var(--muted)}
.winner{margin-bottom:18px;padding:16px 20px;border-radius:15px;background:rgba(121,242,166,.14);border:1px solid rgba(121,242,166,.36);color:var(--success);font-weight:900;font-size:1.05rem}.footer-link{text-align:center;margin:22px 0 0}.error{max-width:620px;margin:10vh auto}.error .button-link{display:inline-flex;align-items:center;justify-content:center;margin-top:8px}
.piet-egg{margin:44px auto 0;max-width:720px;color:var(--muted);text-align:center}.piet-egg summary{cursor:pointer;color:var(--accent);font-size:.8rem;letter-spacing:.08em;text-transform:uppercase}.piet-egg figure{margin:16px 0 0;padding:18px;border:1px dashed rgba(111,231,255,.3);border-radius:16px;background:rgba(9,14,27,.72)}.piet-egg svg{display:block;width:min(100%,360px);height:auto;margin:0 auto;image-rendering:pixelated}.piet-egg figcaption{margin-top:12px;font-size:.78rem}
@media (max-width:820px){main{width:min(100% - 24px,680px);padding:28px 0 calc(44px + env(safe-area-inset-bottom))}.grid.three,.grid.two{grid-template-columns:1fr}.hero{padding-top:16px}.topbar{align-items:center}.racers{gap:12px}.card{padding:18px;border-radius:17px}.actions,.legend{grid-template-columns:1fr}.actions button{min-height:62px}.track-heading{display:block}.track-help{display:block;margin-bottom:8px}}
@media (max-width:480px){main{width:min(100% - 16px,460px)}.topbar h1{font-size:2.25rem}.round{padding:8px 11px;font-size:.86rem}.stats,.status-labels{font-size:.78rem}.status-labels{display:grid}.segment{width:40px;height:44px}}
@media (prefers-reduced-motion:no-preference){button,.button-link{transition:filter .15s ease,transform .15s ease}button:active,.button-link:active{transform:scale(.985)}}
</style>
</head>
<body><main>"#;

/// Fixed text of the page shell, piece 3.
pub const SHELL_3: &'static str = r#""#;

/// Fixed text of the page shell, piece 4.
pub const SHELL_4: &'static str = r#"</main></body>
</html>"#;

/// The page shell with its fields filled in.
pub open spec fn shell_template(title: Seq<char>, extra_head: Seq<char>, content: Seq<char>, piet_easter_egg: Seq<char>) -> Seq<char> {
    SHELL_0@ + title + SHELL_1@ + extra_head + SHELL_2@ + content + SHELL_3@ + piet_easter_egg + SHELL_4@
}

/// Fills in the page shell.
fn fill_shell(title: &str, extra_head: &str, content: &str, piet_easter_egg: &str) -> (s: String)
    ensures
        s@ == shell_template(title@, extra_head@, content@, piet_easter_egg@),
{
    let mut s = SHELL_0.to_owned();
    s.append(title);
    s.append(SHELL_1);
    s.append(extra_head);
    s.append(SHELL_2);
    s.append(content);
    s.append(SHELL_3);
    s.append(piet_easter_egg);
    s.append(SHELL_4);
    s
}
/// Fixed text of the race page layout, piece 0.
pub const LAYOUT_0: &'static str = r#"
<section class="topbar">
  <div><p class="eyebrow">"#;

/// Fixed text of the race page layout, piece 1.
pub const LAYOUT_1: &'static str = r#"</p><h1>"#;

/// Fixed text of the race page layout, piece 2.
pub const LAYOUT_2: &'static str = r#"</h1></div>
  <div class="round">Round "#;

/// Fixed text of the race page layout, piece 3.
pub const LAYOUT_3: &'static str = r#"</div>
</section>
"#;

/// Fixed text of the race page layout, piece 4.
pub const LAYOUT_4: &'static str = r#"
<section class="grid two racers">
  "#;

/// Fixed text of the race page layout, piece 5.
pub const LAYOUT_5: &'static str = r#"
  "#;

/// Fixed text of the race page layout, piece 6.
pub const LAYOUT_6: &'static str = r#"
</section>
<section class="card announcer">
  <p class="eyebrow">TrumpScript announcer</p>
  <blockquote>“"#;

/// Fixed text of the race page layout, piece 7.
pub const LAYOUT_7: &'static str = r#"”</blockquote>
  <p>"#;

/// Fixed text of the race page layout, piece 8.
pub const LAYOUT_8: &'static str = r#"</p>
</section>
<section class="card track-card">
  <div class="track-heading"><div><h2>R-generated circuit</h2><p>Track ID <code>"#;

/// Fixed text of the race page layout, piece 9.
pub const LAYOUT_9: &'static str = r#"</code> · reach segment "#;

/// Fixed text of the race page layout, piece 10.
pub const LAYOUT_10: &'static str = r#"</p></div><span class="track-help">Symbol + number = terrain + segment</span></div>
  <div class="track-scroll"><div class="track">"#;

/// Fixed text of the race page layout, piece 11.
pub const LAYOUT_11: &'static str = r#"</div></div>
  <div class="legend" aria-label="Track terrain legend">
    <span class="legend-item straight"><b>▰</b><span><strong>Straight</strong><small>fast acceleration</small></span></span>
    <span class="legend-item curve"><b>◒</b><span><strong>Curve</strong><small>best for drift</small></span></span>
    <span class="legend-item mud"><b>≈</b><span><strong>Mud</strong><small>slows movement</small></span></span>
    <span class="legend-item jump"><b>▲</b><span><strong>Jump</strong><small>boost bonus</small></span></span>
  </div>
</section>
<section class="card action-card">
  <h2>"#;

/// Fixed text of the race page layout, piece 12.
pub const LAYOUT_12: &'static str = r#"</h2>
  "#;

/// Fixed text of the race page layout, piece 13.
pub const LAYOUT_13: &'static str = r#"
</section>
<p class="footer-link"><a href="/">Leave race</a></p>
"#;

/// The race page layout with its fields filled in.
pub open spec fn layout_template(mode_label: Seq<char>, code: Seq<char>, round: Seq<char>, winner_banner: Seq<char>, first_card: Seq<char>, second_card: Seq<char>, announcement: Seq<char>, summary: Seq<char>, track_id: Seq<char>, finish: Seq<char>, track_html: Seq<char>, action_title: Seq<char>, actions: Seq<char>) -> Seq<char> {
    LAYOUT_0@ + mode_label + LAYOUT_1@ + code + LAYOUT_2@ + round + LAYOUT_3@ + winner_banner + LAYOUT_4@ + first_card + LAYOUT_5@ + second_card + LAYOUT_6@ + announcement + LAYOUT_7@ + summary + LAYOUT_8@ + track_id + LAYOUT_9@ + finish + LAYOUT_10@ + track_html + LAYOUT_11@ + action_title + LAYOUT_12@ + actions + LAYOUT_13@
}

/// Fills in the race page layout.
fn fill_layout(mode_label: &str, code: &str, round: &str, winner_banner: &str, first_card: &str, second_card: &str, announcement: &str, summary: &str, track_id: &str, finish: &str, track_html: &str, action_title: &str, actions: &str) -> (s: String)
    ensures
        s@ == layout_template(mode_label@, code@, round@, winner_banner@, first_card@, second_card@, announcement@, summary@, track_id@, finish@, track_html@, action_title@, actions@),
{
    let mut s = LAYOUT_0.to_owned();
    s.append(mode_label);
    s.append(LAYOUT_1);
    s.append(code);
    s.append(LAYOUT_2);
    s.append(round);
    s.append(LAYOUT_3);
    s.append(winner_banner);
    s.append(LAYOUT_4);
    s.append(first_card);
    s.append(LAYOUT_5);
    s.append(second_card);
    s.append(LAYOUT_6);
    s.append(announcement);
    s.append(LAYOUT_7);
    s.append(summary);
    s.append(LAYOUT_8);
    s.append(track_id);
    s.append(LAYOUT_9);
    s.append(finish);
    s.append(LAYOUT_10);
    s.append(track_html);
    s.append(LAYOUT_11);
    s.append(action_title);
    s.append(LAYOUT_12);
    s.append(actions);
    s.append(LAYOUT_13);
    s
}
/// Fixed text of the racer card, piece 0.
pub const RACER_0: &'static str = r#"<article class="racer card "#;

/// Fixed text of the racer card, piece 1.
pub const RACER_1: &'static str = r#"">
<h3>"#;

/// Fixed text of the racer card, piece 2.
pub const RACER_2: &'static str = r#"</h3>
<div class="stats"><span><strong>"#;

/// Fixed text of the racer card, piece 3.
pub const RACER_3: &'static str = r#"</strong> / "#;

/// Fixed text of the racer card, piece 4.
pub const RACER_4: &'static str = r#"</span><span><strong>"#;

/// Fixed text of the racer card, piece 5.
pub const RACER_5: &'static str = r#"</strong> / 10 energy</span></div>
<div class="status-labels"><span>"#;

/// Fixed text of the racer card, piece 6.
pub const RACER_6: &'static str = r#"</span><span>"#;

/// Fixed text of the racer card, piece 7.
pub const RACER_7: &'static str = r#"</span></div>
<div class="progress" role="progressbar" aria-label="Race progress" aria-valuemin="0" aria-valuemax="100" aria-valuenow=""#;

/// Fixed text of the racer card, piece 8.
pub const RACER_8: &'static str = r#""><span style="width:"#;

/// Fixed text of the racer card, piece 9.
pub const RACER_9: &'static str = r#"%"></span></div>
<div class="energy-bar" role="progressbar" aria-label="Energy" aria-valuemin="0" aria-valuemax="10" aria-valuenow=""#;

/// Fixed text of the racer card, piece 10.
pub const RACER_10: &'static str = r#""><span style="width:"#;

/// Fixed text of the racer card, piece 11.
pub const RACER_11: &'static str = r#"%"></span></div>
</article>"#;

/// The racer card with its fields filled in.
pub open spec fn racer_template(highlight: Seq<char>, name: Seq<char>, shown_distance: Seq<char>, finish: Seq<char>, energy: Seq<char>, segment_label: Seq<char>, energy_hint: Seq<char>, progress: Seq<char>, energy_percent: Seq<char>) -> Seq<char> {
    RACER_0@ + highlight + RACER_1@ + name + RACER_2@ + shown_distance + RACER_3@ + finish + RACER_4@ + energy + RACER_5@ + segment_label + RACER_6@ + energy_hint + RACER_7@ + progress + RACER_8@ + progress + RACER_9@ + energy + RACER_10@ + energy_percent + RACER_11@
}

/// Fills in the racer card.
fn fill_racer(highlight: &str, name: &str, shown_distance: &str, finish: &str, energy: &str, segment_label: &str, energy_hint: &str, progress: &str, energy_percent: &str) -> (s: String)
    ensures
        s@ == racer_template(highlight@, name@, shown_distance@, finish@, energy@, segment_label@, energy_hint@, progress@, energy_percent@),
{
    let mut s = RACER_0.to_owned();
    s.append(highlight);
    s.append(RACER_1);
    s.append(name);
    s.append(RACER_2);
    s.append(shown_distance);
    s.append(RACER_3);
    s.append(finish);
    s.append(RACER_4);
    s.append(energy);
    s.append(RACER_5);
    s.append(segment_label);
    s.append(RACER_6);
    s.append(energy_hint);
    s.append(RACER_7);
    s.append(progress);
    s.append(RACER_8);
    s.append(progress);
    s.append(RACER_9);
    s.append(energy);
    s.append(RACER_10);
    s.append(energy_percent);
    s.append(RACER_11);
    s
}
/// Fixed text of the action form, piece 0.
pub const ACTION_0: &'static str = r#""#;

/// Fixed text of the action form, piece 1.
pub const ACTION_1: &'static str = r#"
<div class="turn-status"><span><strong>Current:</strong> segment "#;

/// Fixed text of the action form, piece 2.
pub const ACTION_2: &'static str = r#"/"#;

/// Fixed text of the action form, piece 3.
pub const ACTION_3: &'static str = r#"</span><span class="terrain-pill "#;

/// Fixed text of the action form, piece 4.
pub const ACTION_4: &'static str = r#"">"#;

/// Fixed text of the action form, piece 5.
pub const ACTION_5: &'static str = r#" "#;

/// Fixed text of the action form, piece 6.
pub const ACTION_6: &'static str = r#"</span><span><strong>Energy:</strong> "#;

/// Fixed text of the action form, piece 7.
pub const ACTION_7: &'static str = r#"/10</span></div>
<form method="post" action=""#;

/// Fixed text of the action form, piece 8.
pub const ACTION_8: &'static str = r#"" class="actions">
<input type="hidden" name="room" value=""#;

/// Fixed text of the action form, piece 9.
pub const ACTION_9: &'static str = r#"">
<input type="hidden" name="token" value=""#;

/// Fixed text of the action form, piece 10.
pub const ACTION_10: &'static str = r#"">
<button type="submit" name="action" value="accelerate" "#;

/// Fixed text of the action form, piece 11.
pub const ACTION_11: &'static str = r#"><strong>Accelerate</strong><span>Base 2 + terrain speed · costs 1 energy</span></button>
<button type="submit" name="action" value="drift"><strong>Drift</strong><span>Curve bonus · restores this segment’s recovery energy</span></button>
<button type="submit" name="action" value="boost" "#;

/// Fixed text of the action form, piece 12.
pub const ACTION_12: &'static str = r#"><strong>Piet Boost</strong><span>Oracle +"#;

/// Fixed text of the action form, piece 13.
pub const ACTION_13: &'static str = r#" and terrain bonus · costs 3 energy"#;

/// Fixed text of the action form, piece 14.
pub const ACTION_14: &'static str = r#"</span></button>
</form>"#;

/// The attributes that disable the Accelerate button when the racer has no
/// energy.
pub const ACCELERATE_DISABLED: &'static str = "disabled aria-disabled=\"true\" title=\"Accelerate needs 1 energy\"";

/// The action form with its fields filled in.
pub open spec fn action_template(player_hint: Seq<char>, segment_number: Seq<char>, finish: Seq<char>, terrain: Seq<char>, symbol: Seq<char>, terrain_name: Seq<char>, energy: Seq<char>, endpoint: Seq<char>, room: Seq<char>, token: Seq<char>, accelerate_disabled: Seq<char>, boost_disabled: Seq<char>, piet_boost: Seq<char>, boost_note: Seq<char>) -> Seq<char> {
    ACTION_0@ + player_hint + ACTION_1@ + segment_number + ACTION_2@ + finish + ACTION_3@ + terrain + ACTION_4@ + symbol + ACTION_5@ + terrain_name + ACTION_6@ + energy + ACTION_7@ + endpoint + ACTION_8@ + room + ACTION_9@ + token + ACTION_10@ + accelerate_disabled + ACTION_11@ + boost_disabled + ACTION_12@ + piet_boost + ACTION_13@ + boost_note + ACTION_14@
}

/// Fills in the action form.
fn fill_action(player_hint: &str, segment_number: &str, finish: &str, terrain: &str, symbol: &str, terrain_name: &str, energy: &str, endpoint: &str, room: &str, token: &str, accelerate_disabled: &str, boost_disabled: &str, piet_boost: &str, boost_note: &str) -> (s: String)
    ensures
        s@ == action_template(player_hint@, segment_number@, finish@, terrain@, symbol@, terrain_name@, energy@, endpoint@, room@, token@, accelerate_disabled@, boost_disabled@, piet_boost@, boost_note@),
{
    let mut s = ACTION_0.to_owned();
    s.append(player_hint);
    s.append(ACTION_1);
    s.append(segment_number);
    s.append(ACTION_2);
    s.append(finish);
    s.append(ACTION_3);
    s.append(terrain);
    s.append(ACTION_4);
    s.append(symbol);
    s.append(ACTION_5);
    s.append(terrain_name);
    s.append(ACTION_6);
    s.append(energy);
    s.append(ACTION_7);
    s.append(endpoint);
    s.append(ACTION_8);
    s.append(room);
    s.append(ACTION_9);
    s.append(token);
    s.append(ACTION_10);
    s.append(accelerate_disabled);
    s.append(ACTION_11);
    s.append(boost_disabled);
    s.append(ACTION_12);
    s.append(piet_boost);
    s.append(ACTION_13);
    s.append(boost_note);
    s.append(ACTION_14);
    s
}
/// Fixed text of the rematch form, piece 0.
pub const REMATCH_0: &'static str = r#"<form method="post" action="/rematch" class="actions single-action">
<input type="hidden" name="room" value=""#;

/// Fixed text of the rematch form, piece 1.
pub const REMATCH_1: &'static str = r#"">
<input type="hidden" name="token" value=""#;

/// Fixed text of the rematch form, piece 2.
pub const REMATCH_2: &'static str = r#"">
<button type="submit"><strong>Start rematch</strong><span>Reset both racers and race again</span></button>
</form>"#;

/// The rematch form with its fields filled in.
pub open spec fn rematch_template(room: Seq<char>, token: Seq<char>) -> Seq<char> {
    REMATCH_0@ + room + REMATCH_1@ + token + REMATCH_2@
}

/// Fills in the rematch form.
fn fill_rematch(room: &str, token: &str) -> (s: String)
    ensures
        s@ == rematch_template(room@, token@),
{
    let mut s = REMATCH_0.to_owned();
    s.append(room);
    s.append(REMATCH_1);
    s.append(token);
    s.append(REMATCH_2);
    s
}
/// Fixed text of the Piet easter egg, piece 0.
pub const EGG_0: &'static str = r#"<details class="piet-egg"><summary>Piet easter egg</summary><figure><svg role="img" aria-label="Magnified Piet boost oracle program" viewBox="0 0 "#;

/// Fixed text of the Piet easter egg, piece 1.
pub const EGG_1: &'static str = r#" "#;

/// Fixed text of the Piet easter egg, piece 2.
pub const EGG_2: &'static str = r#"" xmlns="http://www.w3.org/2000/svg" shape-rendering="crispEdges">"#;

/// Fixed text of the Piet easter egg, piece 3.
pub const EGG_3: &'static str = r#"</svg><figcaption>This is the actual adaptive image program from <code>piet/boost_oracle.ppm</code>. It reads round, terrain, comeback gap, and energy, then computes <code>1 + (sum mod 4)</code> for a changing +1 to +4 boost.</figcaption></figure></details>"#;

/// The Piet easter egg with its fields filled in.
pub open spec fn egg_template(svg_width: Seq<char>, svg_height: Seq<char>, rectangles: Seq<char>) -> Seq<char> {
    EGG_0@ + svg_width + EGG_1@ + svg_height + EGG_2@ + rectangles + EGG_3@
}

/// Fills in the Piet easter egg.
fn fill_egg(svg_width: &str, svg_height: &str, rectangles: &str) -> (s: String)
    ensures
        s@ == egg_template(svg_width@, svg_height@, rectangles@),
{
    let mut s = EGG_0.to_owned();
    s.append(svg_width);
    s.append(EGG_1);
    s.append(svg_height);
    s.append(EGG_2);
    s.append(rectangles);
    s.append(EGG_3);
    s
}
/// The body of the landing page.
pub const LANDING_CONTENT: &'static str = r#"
<section class="hero">
  <p class="eyebrow">R × Rust × TrumpScript × Piet</p>
  <h1>Crazy Race</h1>
  <p>A server-rendered, turn-based 1v1 race for desktop and mobile. Play online or share one device.</p>
</section>
<section class="grid three">
  <article class="card">
    <p class="mode-tag">Online</p>
    <h2>Create a race</h2>
    <form method="post" action="/create">
      <label>Racer name<input name="name" maxlength="24" required autocomplete="nickname"></label>
      <button type="submit">Create online room</button>
    </form>
  </article>
  <article class="card">
    <p class="mode-tag">Online</p>
    <h2>Join a rival</h2>
    <form method="post" action="/join">
      <label>Room code<input name="room" maxlength="6" required autocapitalize="characters" inputmode="text"></label>
      <label>Racer name<input name="name" maxlength="24" required autocomplete="nickname"></label>
      <button type="submit">Join room</button>
    </form>
  </article>
  <article class="card local-card">
    <p class="mode-tag">Same device</p>
    <h2>Local 1v1</h2>
    <p>Take turns on one phone, tablet, or computer. Player 1’s choice stays hidden while the device is passed.</p>
    <form method="post" action="/local">
      <label>Player 1<input name="player_one" maxlength="24" required autocomplete="off"></label>
      <label>Player 2<input name="player_two" maxlength="24" required autocomplete="off"></label>
      <button type="submit">Start local race</button>
    </form>
  </article>
</section>
<section class="card stack-note">
  <h2>How the race works</h2>
  <p>Reach segment 20 first. Accelerate spends 1 energy, Drift restores energy and is strongest on curves, and Piet Boost spends 3 energy for the largest move. The track stays fixed during one race but a fresh default circuit is generated whenever the container starts.</p>
</section>
<section class="card stack-note">
  <h2>Four-language engine</h2>
  <p><strong>R</strong> generates the circuit. <strong>Rust</strong> owns networking and game state. <strong>TrumpScript</strong> runs the announcer through its original Python interpreter. <strong>Piet</strong> paints the boost value.</p>
</section>
"#;


// ---------------------------------------------------------------------------
// Racer cards, the circuit strip, banners and forms
// ---------------------------------------------------------------------------

/// The position shown on a racer card: the distance kept between zero and
/// the finish line.
pub open spec fn shown_distance(distance: int, finish: int) -> int {
    clamp(distance, 0, max(finish, 0))
}

/// The progress-bar percentage of a racer card.
pub open spec fn progress_percent(distance: int, finish: int) -> int {
    if finish <= 0 {
        0
    } else {
        clamp(shown_distance(distance, finish) * 100 / finish, 0, 100)
    }
}

/// The status label of a racer card: the finish score once across the line
/// (overshoot included), the current segment otherwise.
pub open spec fn segment_label(distance: int, finish: int) -> Seq<char> {
    let shown = shown_distance(distance, finish);
    if shown >= finish {
        "Finished \u{b7} score "@ + signed_decimal(max(distance, finish))
    } else {
        "Segment "@ + signed_decimal(shown + 1) + " of "@ + signed_decimal(finish)
    }
}

/// The racer card of a player.
pub open spec fn racer_card(p: Player, finish: int, highlighted: bool) -> Seq<char> {
    racer_template(
        if highlighted {
            "active-racer"@
        } else {
            ""@
        },
        html_escaped(p.name@),
        signed_decimal(shown_distance(p.distance as int, finish)),
        signed_decimal(finish),
        signed_decimal(p.energy as int),
        html_escaped(segment_label(p.distance as int, finish)),
        if p.energy >= 3 {
            "Piet Boost ready"@
        } else {
            "Need 3 energy for Piet Boost"@
        },
        signed_decimal(progress_percent(p.distance as int, finish)),
        signed_decimal(clamp(p.energy as int, 0, 10) * 10),
    )
}

fn i64_text(n: i64) -> (s: String)
    ensures
        s@ == signed_decimal(n as int),
{
    i64_to_string(n)
}

/// Renders a racer card. The counter never passes the finish line; past it
/// the card shows the finish score instead.
pub fn render_racer(player: &Player, finish_line: i32, highlighted: bool) -> (s: String)
    ensures
        s@ == racer_card(*player, finish_line as int, highlighted),
{
    let finish = finish_line as i64;
    let distance = player.distance as i64;
    let upper: i64 = if finish > 0 {
        finish
    } else {
        0
    };
    let shown: i64 = if distance < 0 {
        0
    } else if distance > upper {
        upper
    } else {
        distance
    };
    let progress: i64 = if finish <= 0 {
        0
    } else {
        assert(0 <= shown * 100 <= 100 * 2147483647) by (nonlinear_arith)
            requires
                0 <= shown <= 2147483647,
        ;
        let raw = (shown * 100) / finish;
        if raw < 0 {
            0
        } else if raw > 100 {
            100
        } else {
            raw
        }
    };
    let mut label = String::new();
    if shown >= finish {
        label.append("Finished \u{b7} score ");
        let score = if distance >= finish {
            distance
        } else {
            finish
        };
        push_i64(&mut label, score);
    } else {
        label.append("Segment ");
        push_i64(&mut label, shown + 1);
        label.append(" of ");
        push_i64(&mut label, finish);
    }
    let energy = player.energy as i64;
    let energy_percent: i64 = if energy < 0 {
        0
    } else if energy > 10 {
        100
    } else {
        energy * 10
    };
    let name = html_escape(player.name.as_str());
    let shown_text = i64_text(shown);
    let finish_text = i64_text(finish);
    let energy_text = i64_text(energy);
    let label_text = html_escape(label.as_str());
    let progress_text = i64_text(progress);
    let percent_text = i64_text(energy_percent);
    fill_racer(
        if highlighted {
            "active-racer"
        } else {
            ""
        },
        name.as_str(),
        shown_text.as_str(),
        finish_text.as_str(),
        energy_text.as_str(),
        label_text.as_str(),
        if player.energy >= 3 {
            "Piet Boost ready"
        } else {
            "Need 3 energy for Piet Boost"
        },
        progress_text.as_str(),
        percent_text.as_str(),
    )
}

/// The tile of one circuit segment, numbered from one.
pub open spec fn segment_tile(number: int, seg: TrackSegment) -> Seq<char> {
    let terrain = html_escaped(seg.terrain@);
    "<span class=\"segment "@ + terrain + "\" title=\"Segment "@ + signed_decimal(number)
        + " \u{b7} "@ + terrain + ": speed "@ + plus_signed(seg.speed as int) + ", boost +"@
        + signed_decimal(seg.boost as int) + ", recovery +"@ + signed_decimal(seg.recovery as int)
        + "\"><b>"@ + terrain_symbol_of(seg.terrain@) + "</b><small>"@ + signed_decimal(number)
        + "</small></span>"@
}

/// The tiles of a circuit.
pub open spec fn track_tiles(track: Seq<TrackSegment>) -> Seq<char>
    decreases track.len(),
{
    if track.len() == 0 {
        seq![]
    } else {
        track_tiles(track.drop_last()) + segment_tile(track.len() as int, track.last())
    }
}

/// Appends the tile of one segment.
fn push_tile(output: &mut String, number: i64, segment: &TrackSegment)
    ensures
        final(output)@ == old(output)@ + segment_tile(number as int, *segment),
{
    let terrain = html_escape(segment.terrain.as_str());
    output.append("<span class=\"segment ");
    output.append(terrain.as_str());
    output.append("\" title=\"Segment ");
    push_i64(output, number);
    output.append(" \u{b7} ");
    output.append(terrain.as_str());
    output.append(": speed ");
    push_plus(output, segment.speed as i64);
    output.append(", boost +");
    push_i64(output, segment.boost as i64);
    output.append(", recovery +");
    push_i64(output, segment.recovery as i64);
    output.append("\"><b>");
    output.append(terrain_symbol(segment.terrain.as_str()));
    output.append("</b><small>");
    push_i64(output, number);
    output.append("</small></span>");
}

/// Renders the circuit strip: one tile per segment with its symbol and
/// number, and its exact modifiers in the tooltip.
pub fn render_track(track: &[TrackSegment]) -> (s: String)
    requires
        track@.len() <= 2_000_000_000,
    ensures
        s@ == track_tiles(track@),
{
    let mut output = String::new();
    let mut i: usize = 0;
    while i < track.len()
        invariant
            i <= track@.len() <= 2_000_000_000,
            output@ == track_tiles(track@.take(i as int)),
        decreases track.len() - i,
    {
        push_tile(&mut output, (i + 1) as i64, &track[i]);
        assert(track@.take(i + 1).drop_last() == track@.take(i as int));
        i = i + 1;
    }
    assert(track@.take(track@.len() as int) == track@);
    output
}

/// The banner announcing the winner: addressed to the viewer on an online
/// page, neutral on a local page; empty while the race runs.
pub open spec fn winner_banner_html(room: Room, perspective: Option<usize>) -> Seq<char> {
    match room.winner {
        None => seq![],
        Some(w) => "<div class=\"winner\">"@ + (match perspective {
            Some(i) => if i == w {
                "You won the race."@
            } else {
                html_escaped(room.players@[w as int].name@) + " won the race."@
            },
            None => html_escaped(room.players@[w as int].name@) + " wins the local race!"@,
        }) + "</div>"@,
    }
}

/// Renders the winner banner.
pub fn winner_banner(room: &Room, perspective: Option<usize>) -> (s: String)
    requires
        room.winner matches Some(w) ==> w < room.players@.len(),
    ensures
        s@ == winner_banner_html(*room, perspective),
{
    match room.winner {
        None => String::new(),
        Some(w) => {
            let mut s = "<div class=\"winner\">".to_owned();
            match perspective {
                Some(i) => {
                    if i == w {
                        s.append("You won the race.");
                    } else {
                        let n = html_escape(room.players[w].name.as_str());
                        s.append(n.as_str());
                        s.append(" won the race.");
                    }
                },
                None => {
                    let n = html_escape(room.players[w].name.as_str());
                    s.append(n.as_str());
                    s.append(" wins the local race!");
                },
            }
            s.append("</div>");
            s
        },
    }
}

/// The rematch form of a room.
pub open spec fn rematch_form(room: Room, token: Seq<char>) -> Seq<char> {
    rematch_template(html_escaped(room.code@), html_escaped(token))
}

/// Renders the rematch form.
pub fn render_rematch_form(room: &Room, token: &str) -> (s: String)
    ensures
        s@ == rematch_form(*room, token@),
{
    let code = html_escape(room.code.as_str());
    let t = html_escape(token);
    fill_rematch(code.as_str(), t.as_str())
}

/// The racer whose move an action form offers.
pub open spec fn form_player_index(room: Room, player_index: Option<usize>) -> int {
    let wanted = match player_index {
        Some(i) => i as int,
        None => 0,
    };
    let last = if room.players@.len() >= 1 {
        room.players@.len() - 1
    } else {
        0
    };
    if wanted < last {
        wanted
    } else {
        last
    }
}

/// The segment an action form describes for a racer at `distance`.
pub open spec fn form_segment_index(distance: int, track_len: int) -> int {
    let finish = if track_len >= 1 {
        track_len
    } else {
        1
    };
    let d = if distance >= 0 {
        distance
    } else {
        0
    };
    if d < finish - 1 {
        d
    } else {
        finish - 1
    }
}

/// The action form: the racer, their segment and terrain, their energy, and
/// the three moves, with Accelerate disabled without energy and Piet Boost
/// disabled below three energy; Drift is always offered.
pub open spec fn action_form(
    endpoint: Seq<char>,
    room: Room,
    token: Seq<char>,
    piet_boost: int,
    player_index: Option<usize>,
    track: Seq<TrackSegment>,
) -> Seq<char> {
    let p = room.players@[form_player_index(room, player_index)];
    let seg_index = form_segment_index(p.distance as int, track.len() as int);
    let seg = track[seg_index];
    let finish = if track.len() >= 1 {
        track.len() as int
    } else {
        1
    };
    action_template(
        "<p class=\"current-player\">Choosing for <strong>"@ + html_escaped(p.name@)
            + "</strong></p>"@,
        signed_decimal(seg_index + 1),
        signed_decimal(finish),
        html_escaped(seg.terrain@),
        terrain_symbol_of(seg.terrain@),
        html_escaped(capitalized(seg.terrain@)),
        signed_decimal(p.energy as int),
        html_escaped(endpoint),
        html_escaped(room.code@),
        html_escaped(token),
        if p.energy < 1 {
            ACCELERATE_DISABLED@
        } else {
            ""@
        },
        if p.energy < 3 {
            "disabled aria-disabled=\"true\" title=\"Piet Boost needs 3 energy\""@
        } else {
            ""@
        },
        signed_decimal(piet_boost),
        if p.energy < 3 {
            " \u{b7} unavailable now"@
        } else {
            ""@
        },
    )
}

/// Renders the action form for a racer.
pub fn render_action_form(
    endpoint: &str,
    room: &Room,
    token: &str,
    piet_boost: i32,
    player_index: Option<usize>,
    track: &[TrackSegment],
) -> (s: String)
    requires
        room.players@.len() >= 1,
        1 <= track@.len() <= 2_000_000_000,
    ensures
        s@ == action_form(endpoint@, *room, token@, piet_boost as int, player_index, track@),
{
    let wanted = match player_index {
        Some(i) => i,
        None => 0,
    };
    let last = room.players.len() - 1;
    let index = if wanted < last {
        wanted
    } else {
        last
    };
    let player = &room.players[index];
    let finish = track.len();
    let d: usize = if player.distance >= 0 {
        player.distance as usize
    } else {
        0
    };
    let segment_index = if d < finish - 1 {
        d
    } else {
        finish - 1
    };
    let segment = &track[segment_index];
    let mut hint = "<p class=\"current-player\">Choosing for <strong>".to_owned();
    let name = html_escape(player.name.as_str());
    hint.append(name.as_str());
    hint.append("</strong></p>");
    let number = i64_text((segment_index + 1) as i64);
    let finish_text = i64_text(finish as i64);
    let terrain = html_escape(segment.terrain.as_str());
    let cap = capitalize(segment.terrain.as_str());
    let terrain_name = html_escape(cap.as_str());
    let energy = i64_text(player.energy as i64);
    let ep = html_escape(endpoint);
    let code = html_escape(room.code.as_str());
    let tok = html_escape(token);
    let boost = i64_text(piet_boost as i64);
    fill_action(
        hint.as_str(),
        number.as_str(),
        finish_text.as_str(),
        terrain.as_str(),
        terrain_symbol(segment.terrain.as_str()),
        terrain_name.as_str(),
        energy.as_str(),
        ep.as_str(),
        code.as_str(),
        tok.as_str(),
        if player.energy < 1 {
            ACCELERATE_DISABLED
        } else {
            ""
        },
        if player.energy < 3 {
            "disabled aria-disabled=\"true\" title=\"Piet Boost needs 3 energy\""
        } else {
            ""
        },
        boost.as_str(),
        if player.energy < 3 {
            " \u{b7} unavailable now"
        } else {
            ""
        },
    )
}


// ---------------------------------------------------------------------------
// The Piet easter egg and the page shell
// ---------------------------------------------------------------------------

/// Size in pixels of one magnified codel.
pub const CODEL_SIZE: usize = 36;

/// A header or channel value of the easter egg: the token as a number of
/// at most `limit`, or zero when it is missing or unreadable.
pub open spec fn number_or_zero(tokens: Seq<Seq<char>>, i: int, limit: nat) -> nat {
    if 0 <= i < tokens.len() {
        match parse_usize_spec(tokens[i]) {
            Some(v) => if v <= limit {
                v
            } else {
                0
            },
            None => 0,
        }
    } else {
        0
    }
}

/// The rectangle of codel `k` of an image `width` codels wide.
pub open spec fn codel_rect(tokens: Seq<Seq<char>>, k: int, width: int) -> Seq<char> {
    let pos = 4 + 3 * k;
    "<rect x=\""@ + decimal(((k % width) * 36) as nat) + "\" y=\""@ + decimal(((k / width) * 36) as nat)
        + "\" width=\"36\" height=\"36\" fill=\"rgb("@ + decimal(number_or_zero(tokens, pos, 255))
        + ","@ + decimal(number_or_zero(tokens, pos + 1, 255)) + ","@ + decimal(
        number_or_zero(tokens, pos + 2, 255),
    ) + ")\"/>"@
}

/// The rectangles of the first `n` codels.
pub open spec fn codel_rects(tokens: Seq<Seq<char>>, n: int, width: int) -> Seq<char>
    decreases n,
{
    if n <= 0 {
        seq![]
    } else {
        codel_rects(tokens, n - 1, width) + codel_rect(tokens, n - 1, width)
    }
}

/// The magnified Piet program shown at the bottom of every page, drawn from
/// the program's PPM text; empty when the text is missing, is not a `P3`
/// image with range 255, or is too large to draw.
pub open spec fn easter_egg(source: Option<Seq<char>>) -> Seq<char> {
    match source {
        None => seq![],
        Some(text) => {
            let t = ppm_tokens(text);
            if t.len() == 0 || t[0] != seq!['P', '3'] {
                seq![]
            } else {
                let width = number_or_zero(t, 1, usize::MAX as nat);
                let height = number_or_zero(t, 2, usize::MAX as nat);
                let max_value = number_or_zero(t, 3, 65535);
                if width == 0 || height == 0 || max_value != 255 || width * 36 > usize::MAX
                    || height * 36 > usize::MAX {
                    seq![]
                } else {
                    let n: int = if width * height > usize::MAX {
                        usize::MAX as int
                    } else {
                        (width * height) as int
                    };
                    if n >= usize::MAX / 3 - 2 {
                        seq![]
                    } else {
                    egg_template(
                        decimal(width * 36),
                        decimal(height * 36),
                        codel_rects(t, n, width as int),
                    )
                    }
                }
            }
        },
    }
}

fn number_at(tokens: &Vec<Vec<char>>, i: usize, limit: usize) -> (r: usize)
    ensures
        r == number_or_zero(token_views(tokens@), i as int, limit as nat),
{
    if i >= tokens.len() {
        return 0;
    }
    assert(token_views(tokens@)[i as int] == tokens@[i as int]@);
    match parse_usize(tokens[i].as_slice()) {
        Some(v) => if v <= limit {
            v
        } else {
            0
        },
        None => 0,
    }
}

#[verifier::spinoff_prover]
#[verifier::rlimit(40)]
fn push_codel_rect(out: &mut String, tokens: &Vec<Vec<char>>, k: usize, width: usize)
    requires
        width >= 1,
        width * 36 <= usize::MAX,
        (k / width) * 36 <= usize::MAX,
        k < usize::MAX / 3 - 2,
    ensures
        final(out)@ == old(out)@ + codel_rect(token_views(tokens@), k as int, width as int),
{
    let pos = 4 + 3 * k;
    let col = k % width;
    let row = k / width;
    assert(col * 36 < width * 36) by (nonlinear_arith)
        requires
            col < width,
            width >= 1,
    ;
    let x = col * 36;
    let y = row * 36;
    let red = number_at(tokens, pos, 255);
    let green = number_at(tokens, pos + 1, 255);
    let blue = number_at(tokens, pos + 2, 255);
    out.append("<rect x=\"");
    crate::text::push_u64(out, x as u64);
    out.append("\" y=\"");
    crate::text::push_u64(out, y as u64);
    out.append("\" width=\"36\" height=\"36\" fill=\"rgb(");
    crate::text::push_u64(out, red as u64);
    out.append(",");
    crate::text::push_u64(out, green as u64);
    out.append(",");
    crate::text::push_u64(out, blue as u64);
    out.append(")\"/>");
}

/// Draws the Piet program as a magnified SVG inside a collapsible section.
pub fn render_piet_easter_egg(source: Option<&str>) -> (s: String)
    ensures
        s@ == easter_egg(match source {
            Some(t) => Some(t@),
            None => None,
        }),
{
    let text = match source {
        Some(t) => t,
        None => {
            return String::new();
        },
    };
    let tokens = tokenize_ppm(text);
    let ghost t = token_views(tokens@);
    if tokens.len() == 0 {
        return String::new();
    }
    assert(t[0] == tokens@[0]@);
    let magic: [char; 2] = ['P', '3'];
    assert(magic@ == seq!['P', '3']);
    if !chars_eq(tokens[0].as_slice(), magic.as_slice()) {
        return String::new();
    }
    let width = number_at(&tokens, 1, usize::MAX);
    let height = number_at(&tokens, 2, usize::MAX);
    let max_value = number_at(&tokens, 3, 65535);
    if width == 0 || height == 0 || max_value != 255 || width > usize::MAX / 36 || height > usize::MAX
        / 36 {
        return String::new();
    }
    let n: usize = match width.checked_mul(height) {
        Some(v) => v,
        None => usize::MAX,
    };
    let mut rects = String::new();
    let mut k: usize = 0;
    if n >= usize::MAX / 3 - 2 {
        // Such an image could not be held in memory; it is not drawn.
        return String::new();
    }
    while k < n
        invariant
            k <= n < usize::MAX / 3 - 2,
            width >= 1,
            width * 36 <= usize::MAX,
            height * 36 <= usize::MAX,
            n == (if width * height > usize::MAX {
                usize::MAX as int
            } else {
                (width * height) as int
            }),
            t == token_views(tokens@),
            rects@ == codel_rects(t, k as int, width as int),
        decreases n - k,
    {
        assert((k / width) * 36 <= height * 36) by (nonlinear_arith)
            requires
                k < n,
                n <= width * height,
                width >= 1,
        ;
        push_codel_rect(&mut rects, &tokens, k, width);
        k = k + 1;
    }
    let mut w = String::new();
    crate::text::push_u64(&mut w, (width * 36) as u64);
    let mut h = String::new();
    crate::text::push_u64(&mut h, (height * 36) as u64);
    fill_egg(w.as_str(), h.as_str(), rects.as_str())
}

/// A page: the shell around `content`, with the escaped title, the extra
/// head markup and the easter egg drawn from the program text.
pub open spec fn page(
    title: Seq<char>,
    extra_head: Seq<char>,
    content: Seq<char>,
    source: Option<Seq<char>>,
) -> Seq<char> {
    shell_template(html_escaped(title), extra_head, content, easter_egg(source))
}

/// The view of an optional program text.
pub open spec fn source_view(source: Option<&str>) -> Option<Seq<char>> {
    match source {
        Some(t) => Some(t@),
        None => None,
    }
}

/// Wraps content in the full HTML document.
pub fn page_shell(title: &str, extra_head: &str, content: &str, piet_source: Option<&str>) -> (s:
    String)
    ensures
        s@ == page(title@, extra_head@, content@, source_view(piet_source)),
{
    let egg = render_piet_easter_egg(piet_source);
    let t = html_escape(title);
    fill_shell(t.as_str(), extra_head, content, egg.as_str())
}

/// Renders the landing page with the forms to create, join or start a race.
pub fn render_landing_page(piet_source: Option<&str>) -> (s: String)
    ensures
        s@ == page("Crazy Race"@, ""@, LANDING_CONTENT@, source_view(piet_source)),
{
    page_shell("Crazy Race", "", LANDING_CONTENT, piet_source)
}

/// The content of the error page.
pub open spec fn error_content(message: Seq<char>) -> Seq<char> {
    "<section class=\"card error\"><p class=\"eyebrow\">Something went wrong</p><h1>Race interrupted</h1><p>"@
        + html_escaped(message)
        + "</p><a class=\"button-link\" href=\"/\">Back to start</a></section>"@
}

/// Renders the page shown for a refused request.
pub fn render_error_page(message: &str, piet_source: Option<&str>) -> (s: String)
    ensures
        s@ == page("Crazy Race \u{b7} Error"@, ""@, error_content(message@), source_view(piet_source)),
{
    let mut content = "<section class=\"card error\"><p class=\"eyebrow\">Something went wrong</p><h1>Race interrupted</h1><p>".to_owned();
    let m = html_escape(message);
    content.append(m.as_str());
    content.append("</p><a class=\"button-link\" href=\"/\">Back to start</a></section>");
    page_shell("Crazy Race \u{b7} Error", "", content.as_str(), piet_source)
}

/// The browser-tab icon.
pub const FAVICON_SVG: &'static str = "<svg xmlns='http://www.w3.org/2000/svg' viewBox='0 0 64 64'><rect width='64' height='64' rx='14' fill='#0b1020'/><path d='M17 12v40' stroke='#f5f7ff' stroke-width='6' stroke-linecap='round'/><path d='M20 14h30v24H20z' fill='#6fe7ff'/><path d='M20 14h10v8H20zm20 0h10v8H40zM30 22h10v8H30zM20 30h10v8H20zm20 0h10v8H40z' fill='#b38cff'/></svg>";

/// The browser-tab icon as an SVG document.
pub fn render_favicon_svg() -> (s: String)
    ensures
        s@ == FAVICON_SVG@,
{
    FAVICON_SVG.to_owned()
}


// ---------------------------------------------------------------------------
// Race pages
// ---------------------------------------------------------------------------

/// The pieces a race page places into the layout.
pub struct GameLayout<'a> {
    pub winner_banner: &'a str,
    pub first_card: &'a str,
    pub second_card: &'a str,
    pub actions: &'a str,
    pub action_title: &'a str,
    pub mode_label: &'a str,
}

/// The race page body: room code and round, banner, racer cards, the
/// announcer, the circuit with its fingerprint, and the action area.
pub open spec fn layout_html(room: Room, track: Seq<TrackSegment>, l: GameLayout) -> Seq<char> {
    layout_template(
        html_escaped(l.mode_label@),
        html_escaped(room.code@),
        signed_decimal(room.round as int),
        l.winner_banner@,
        l.first_card@,
        l.second_card@,
        html_escaped(room.announcement@),
        html_escaped(room.last_summary@),
        fingerprint(track),
        signed_decimal(track.len() as int),
        track_tiles(track),
        html_escaped(l.action_title@),
        l.actions@,
    )
}

/// Lays out a race page.
pub fn render_game_layout(room: &Room, track: &[TrackSegment], layout: GameLayout) -> (s: String)
    requires
        track@.len() <= 2_000_000_000,
    ensures
        s@ == layout_html(*room, track@, layout),
{
    let mode = html_escape(layout.mode_label);
    let code = html_escape(room.code.as_str());
    let round = i64_text(room.round as i64);
    let announcement = html_escape(room.announcement.as_str());
    let summary = html_escape(room.last_summary.as_str());
    let track_id = track_fingerprint(track);
    let finish = i64_text(track.len() as i64);
    let tiles = render_track(track);
    let title = html_escape(layout.action_title);
    fill_layout(
        mode.as_str(),
        code.as_str(),
        round.as_str(),
        layout.winner_banner,
        layout.first_card,
        layout.second_card,
        announcement.as_str(),
        summary.as_str(),
        track_id.as_str(),
        finish.as_str(),
        tiles.as_str(),
        title.as_str(),
        layout.actions,
    )
}

/// Shown in place of the rival's card before they join.
pub const WAITING_CARD: &'static str = "<article class=\"racer card muted\"><h3>Waiting for rival\u{2026}</h3><p>Share the room code.</p></article>";

/// Shown in place of the actions before the rival joins.
pub const WAITING_NOTICE: &'static str = "<p class=\"notice\">Waiting for the second racer. This page refreshes automatically.</p>";

/// Shown in place of the actions after a move is locked in.
pub const LOCKED_NOTICE: &'static str = "<p class=\"notice\">Move locked. Waiting for your rival; this page refreshes automatically.</p>";

/// The head markup that reloads a waiting page every two seconds.
pub const REFRESH: &'static str = "<meta http-equiv=\"refresh\" content=\"2\">";

/// The online race page as racer `i` sees it: their card first, the
/// rival's (or a placeholder) second, and the action area for the state of
/// the race; the page reloads itself while waiting for the rival.
pub open spec fn online_page(
    room: Room,
    i: int,
    track: Seq<TrackSegment>,
    piet_boost: int,
    source: Option<Seq<char>>,
) -> Seq<char> {
    let waiting_for_player = room.players@.len() < 2;
    let p = room.players@[i];
    let waiting_for_move = !waiting_for_player && room.winner is None && p.submitted is Some;
    let finish = track.len() as int;
    let refresh = if waiting_for_player || waiting_for_move {
        REFRESH@
    } else {
        ""@
    };
    let first = racer_card(p, finish, true);
    let second = if 1 - i < room.players@.len() {
        racer_card(room.players@[1 - i], finish, false)
    } else {
        WAITING_CARD@
    };
    let actions = if waiting_for_player {
        WAITING_NOTICE@
    } else if room.winner is Some {
        rematch_form(room, p.token@)
    } else if p.submitted is Some {
        LOCKED_NOTICE@
    } else {
        action_form("/action"@, room, p.token@, piet_boost, Some(i as usize), track)
    };
    page(
        "Crazy Race"@,
        refresh,
        layout_template(
            html_escaped("Online room"@),
            html_escaped(room.code@),
            signed_decimal(room.round as int),
            winner_banner_html(room, Some(i as usize)),
            first,
            second,
            html_escaped(room.announcement@),
            html_escaped(room.last_summary@),
            fingerprint(track),
            signed_decimal(finish),
            track_tiles(track),
            html_escaped("Your move"@),
            actions,
        ),
        source,
    )
}

/// Renders the online race page for racer `player_index`.
#[verifier::spinoff_prover]
pub fn render_online_game_page(
    room: &Room,
    player_index: usize,
    track: &[TrackSegment],
    piet_boost: i32,
    piet_source: Option<&str>,
) -> (s: String)
    requires
        player_index < room.players@.len() <= 2,
        room.winner matches Some(w) ==> w < room.players@.len(),
        1 <= track@.len() <= 2_000_000_000,
    ensures
        s@ == online_page(*room, player_index as int, track@, piet_boost as int, source_view(piet_source)),
{
    let waiting_for_player = room.players.len() < 2;
    let player = &room.players[player_index];
    let waiting_for_move = !waiting_for_player && room.winner.is_none() && player.submitted.is_some();
    let refresh = if waiting_for_player || waiting_for_move {
        REFRESH
    } else {
        ""
    };
    let finish_line = track.len() as i32;
    let player_card = render_racer(player, finish_line, true);
    let opponent_card = if 1 - player_index < room.players.len() {
        render_racer(&room.players[1 - player_index], finish_line, false)
    } else {
        WAITING_CARD.to_owned()
    };
    let actions = if waiting_for_player {
        WAITING_NOTICE.to_owned()
    } else if room.winner.is_some() {
        render_rematch_form(room, player.token.as_str())
    } else if player.submitted.is_some() {
        LOCKED_NOTICE.to_owned()
    } else {
        render_action_form("/action", room, player.token.as_str(), piet_boost, Some(player_index), track)
    };
    let banner = winner_banner(room, Some(player_index));
    let content = render_game_layout(
        room,
        track,
        GameLayout {
            winner_banner: banner.as_str(),
            first_card: player_card.as_str(),
            second_card: opponent_card.as_str(),
            actions: actions.as_str(),
            action_title: "Your move",
            mode_label: "Online room",
        },
    );
    page_shell("Crazy Race", refresh, content.as_str(), piet_source)
}

/// The prompt above the local action form.
pub open spec fn handover_prompt(room: Room, current: int) -> Seq<char> {
    if current == 0 {
        html_escaped(room.players@[0].name@) + " chooses first"@
    } else {
        "Pass the device to "@ + html_escaped(room.players@[1].name@) + ". "@ + html_escaped(
            room.players@[0].name@,
        ) + "\u{2019}s move is hidden."@
    }
}

/// The action area of the local page.
pub open spec fn local_actions(
    room: Room,
    token: Seq<char>,
    track: Seq<TrackSegment>,
    piet_boost: int,
    current: int,
) -> Seq<char> {
    if room.winner is Some {
        rematch_form(room, token)
    } else {
        "<div class=\"handover\"><p>"@ + handover_prompt(room, current) + "</p></div>"@
            + action_form("/local-action"@, room, token, piet_boost, Some(current as usize), track)
    }
}

fn render_local_actions(
    room: &Room,
    token: &str,
    track: &[TrackSegment],
    piet_boost: i32,
    current: usize,
) -> (s: String)
    requires
        room.players@.len() == 2,
        current < 2,
        1 <= track@.len() <= 2_000_000_000,
    ensures
        s@ == local_actions(*room, token@, track@, piet_boost as int, current as int),
{
    if room.winner.is_some() {
        render_rematch_form(room, token)
    } else {
        let mut a = "<div class=\"handover\"><p>".to_owned();
        if current == 0 {
            let n = html_escape(room.players[0].name.as_str());
            a.append(n.as_str());
            a.append(" chooses first");
        } else {
            a.append("Pass the device to ");
            let n1 = html_escape(room.players[1].name.as_str());
            a.append(n1.as_str());
            a.append(". ");
            let n0 = html_escape(room.players[0].name.as_str());
            a.append(n0.as_str());
            a.append("\u{2019}s move is hidden.");
        }
        a.append("</p></div>");
        let form = render_action_form("/local-action", room, token, piet_boost, Some(current), track);
        a.append(form.as_str());
        a
    }
}

/// The local race page: both cards with the racer to move highlighted, the
/// hand-over prompt and the action form, or the rematch form once decided.
pub open spec fn local_page(
    room: Room,
    token: Seq<char>,
    track: Seq<TrackSegment>,
    piet_boost: int,
    source: Option<Seq<char>>,
) -> Seq<char> {
    let finish = track.len() as int;
    let current: int = if room.local_turn >= 1 {
        1
    } else {
        0
    };
    let actions = local_actions(room, token, track, piet_boost, current);
    let title = if room.winner is Some {
        "Local race finished"@
    } else if current == 0 {
        "Player 1 move"@
    } else {
        "Player 2 move"@
    };
    page(
        "Crazy Race \u{b7} Local"@,
        ""@,
        layout_template(
            html_escaped("Local pass-and-play"@),
            html_escaped(room.code@),
            signed_decimal(room.round as int),
            winner_banner_html(room, None),
            racer_card(room.players@[0], finish, current == 0),
            racer_card(room.players@[1], finish, current == 1),
            html_escaped(room.announcement@),
            html_escaped(room.last_summary@),
            fingerprint(track),
            signed_decimal(finish),
            track_tiles(track),
            html_escaped(title),
            actions,
        ),
        source,
    )
}

/// Renders the local pass-and-play page.
#[verifier::spinoff_prover]
pub fn render_local_game_page(
    room: &Room,
    token: &str,
    track: &[TrackSegment],
    piet_boost: i32,
    piet_source: Option<&str>,
) -> (s: String)
    requires
        room.players@.len() == 2,
        room.winner matches Some(w) ==> w < 2,
        1 <= track@.len() <= 2_000_000_000,
    ensures
        s@ == local_page(*room, token@, track@, piet_boost as int, source_view(piet_source)),
{
    let finish_line = track.len() as i32;
    let current: usize = if room.local_turn >= 1 {
        1
    } else {
        0
    };
    let first_card = render_racer(&room.players[0], finish_line, current == 0);
    let second_card = render_racer(&room.players[1], finish_line, current == 1);
    let actions = render_local_actions(room, token, track, piet_boost, current);
    let banner = winner_banner(room, None);
    let action_title = if room.winner.is_some() {
        "Local race finished"
    } else if current == 0 {
        "Player 1 move"
    } else {
        "Player 2 move"
    };
    let content = render_game_layout(
        room,
        track,
        GameLayout {
            winner_banner: banner.as_str(),
            first_card: first_card.as_str(),
            second_card: second_card.as_str(),
            actions: actions.as_str(),
            action_title,
            mode_label: "Local pass-and-play",
        },
    );
    page_shell("Crazy Race \u{b7} Local", "", content.as_str(), piet_source)
}

} // verus!
