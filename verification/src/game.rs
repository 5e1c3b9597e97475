//! The race rules: actions, movement, the adaptive Piet oracle and the
//! resolution of a round.
use vstd::prelude::*;
use crate::http::{is_error, route_error, RouteError, Status};
use crate::piet::{piet_result, run_piet_source_with_inputs};
use crate::text::{push_i64, signed_decimal, str_eq};

verus! {

/// Highest energy a racer can hold.
pub const MAX_ENERGY: i32 = 10;

/// Energy a racer starts a race with.
pub const START_ENERGY: i32 = 5;

/// One segment of the circuit.
#[derive(Clone, Debug)]
pub struct TrackSegment {
    pub terrain: String,
    pub speed: i32,
    pub boost: i32,
    pub recovery: i32,
}

/// The move a racer makes in a round.
#[derive(Clone, Copy, Debug, PartialEq, Eq, Structural)]
pub enum RaceAction {
    Accelerate,
    Drift,
    Boost,
}

/// Whether a room is played online or on one device.
#[derive(Clone, Copy, Debug, PartialEq, Eq, Structural)]
pub enum GameMode {
    Online,
    Local,
}

/// A racer and their state in the current race.
#[derive(Clone, Debug)]
pub struct Player {
    pub name: String,
    pub token: String,
    pub distance: i32,
    pub energy: i32,
    pub submitted: Option<RaceAction>,
}

/// A race room.
#[derive(Clone, Debug)]
pub struct Room {
    pub code: String,
    pub mode: GameMode,
    pub players: Vec<Player>,
    pub local_token: Option<String>,
    pub local_turn: usize,
    pub round: u32,
    pub winner: Option<usize>,
    pub last_summary: String,
    pub announcement: String,
    pub seed: u64,
    pub last_activity: u64,
}

/// The inputs the adaptive oracle saw and the boost it granted.
#[derive(Clone, Copy, Debug, PartialEq, Eq, Structural)]
pub struct PietOracleResult {
    pub value: i32,
    pub round_input: i32,
    pub terrain_input: i32,
    pub comeback_input: i32,
    pub energy_input: i32,
}

/// `v.clamp(lo, hi)`.
pub open spec fn clamp(v: int, lo: int, hi: int) -> int {
    if v < lo {
        lo
    } else if v > hi {
        hi
    } else {
        v
    }
}

/// `max(a, b)`.
pub open spec fn max(a: int, b: int) -> int {
    if a >= b {
        a
    } else {
        b
    }
}

fn clamp_i64(v: i64, lo: i64, hi: i64) -> (r: i64)
    requires
        lo <= hi,
    ensures
        r == clamp(v as int, lo as int, hi as int),
{
    if v < lo {
        lo
    } else if v > hi {
        hi
    } else {
        v
    }
}

/// The action named by a form value, if any.
pub open spec fn action_named(s: Seq<char>) -> Option<RaceAction> {
    if s == "accelerate"@ {
        Some(RaceAction::Accelerate)
    } else if s == "drift"@ {
        Some(RaceAction::Drift)
    } else if s == "boost"@ {
        Some(RaceAction::Boost)
    } else {
        None
    }
}

/// The label shown for an action.
pub open spec fn action_label(a: RaceAction) -> Seq<char> {
    match a {
        RaceAction::Accelerate => "Accelerate"@,
        RaceAction::Drift => "Drift"@,
        RaceAction::Boost => "Piet Boost"@,
    }
}

impl RaceAction {
    /// Parses the form value of an action button.
    pub fn parse(value: &str) -> (r: Option<RaceAction>)
        ensures
            r == action_named(value@),
    {
        if str_eq(value, "accelerate") {
            Some(RaceAction::Accelerate)
        } else if str_eq(value, "drift") {
            Some(RaceAction::Drift)
        } else if str_eq(value, "boost") {
            Some(RaceAction::Boost)
        } else {
            None
        }
    }

    /// The label shown for the action.
    pub fn label(self) -> (r: &'static str)
        ensures
            r@ == action_label(self),
    {
        match self {
            RaceAction::Accelerate => "Accelerate",
            RaceAction::Drift => "Drift",
            RaceAction::Boost => "Piet Boost",
        }
    }
}

/// The number the oracle program reads for a terrain.
pub open spec fn terrain_code_of(t: Seq<char>) -> int {
    if t == "curve"@ {
        1
    } else if t == "mud"@ {
        2
    } else if t == "jump"@ {
        3
    } else {
        0
    }
}

/// The number the oracle program reads for a terrain.
pub fn terrain_code(terrain: &str) -> (r: i32)
    ensures
        r as int == terrain_code_of(terrain@),
{
    if str_eq(terrain, "curve") {
        1
    } else if str_eq(terrain, "mud") {
        2
    } else if str_eq(terrain, "jump") {
        3
    } else {
        0
    }
}

/// The extra drift distance a terrain gives.
pub open spec fn drift_bonus(t: Seq<char>) -> int {
    if t == "curve"@ {
        3
    } else if t == "mud"@ {
        1
    } else {
        0
    }
}

/// Movement and energy change of an action: Accelerate moves
/// `2 + speed` within 1..=6 for one energy; Drift moves
/// `2 + terrain bonus + max(speed, -1)` within 1..=6 and recovers the
/// segment's recovery; Piet Boost with at least three energy moves
/// `2 + speed + boost + oracle` within 2..=9 for three energy; without the
/// energy it moves one segment and gains one energy.
pub open spec fn movement(action: RaceAction, energy: int, seg: TrackSegment, piet: int) -> (
    int,
    int,
) {
    match action {
        RaceAction::Accelerate => (clamp(2 + seg.speed, 1, 6), -1),
        RaceAction::Drift => (
            clamp(2 + drift_bonus(seg.terrain@) + max(seg.speed as int, -1), 1, 6),
            seg.recovery as int,
        ),
        RaceAction::Boost => if energy >= 3 {
            (clamp(2 + seg.speed + seg.boost + piet, 2, 9), -3)
        } else {
            (1, 1)
        },
    }
}

/// The note the round summary adds for an action.
pub open spec fn movement_note(action: RaceAction, energy: int) -> Seq<char> {
    match action {
        RaceAction::Accelerate => ""@,
        RaceAction::Drift => " and recovered energy"@,
        RaceAction::Boost => if energy >= 3 {
            " with the Piet oracle"@
        } else {
            " but lacked energy"@
        },
    }
}

/// Movement, energy change and summary note of an action on a segment.
pub fn movement_for(action: RaceAction, energy: i32, segment: &TrackSegment, piet_boost: i32) -> (r: (
    i32,
    i32,
    &'static str,
))
    ensures
        (r.0 as int, r.1 as int) == movement(action, energy as int, *segment, piet_boost as int),
        r.2@ == movement_note(action, energy as int),
{
    match action {
        RaceAction::Accelerate => {
            let m = clamp_i64(2 + segment.speed as i64, 1, 6);
            (m as i32, -1, "")
        },
        RaceAction::Drift => {
            let bonus: i64 = if str_eq(segment.terrain.as_str(), "curve") {
                3
            } else if str_eq(segment.terrain.as_str(), "mud") {
                1
            } else {
                0
            };
            let speed = if segment.speed >= -1 {
                segment.speed as i64
            } else {
                -1
            };
            let m = clamp_i64(2 + bonus + speed, 1, 6);
            (m as i32, segment.recovery, " and recovered energy")
        },
        RaceAction::Boost => {
            if energy >= 3 {
                let m = clamp_i64(
                    2 + segment.speed as i64 + segment.boost as i64 + piet_boost as i64,
                    2,
                    9,
                );
                (m as i32, -3, " with the Piet oracle")
            } else {
                (1, 1, " but lacked energy")
            }
        },
    }
}

/// Whether a racer's energy allows an action: Accelerate needs one energy
/// and Piet Boost three; Drift is always available.
pub open spec fn action_allowed(action: RaceAction, energy: int) -> bool {
    match action {
        RaceAction::Accelerate => energy >= 1,
        RaceAction::Drift => true,
        RaceAction::Boost => energy >= 3,
    }
}

/// The refusal of an action for lack of energy.
pub open spec fn energy_refusal(e: RouteError, action: RaceAction) -> bool {
    match action {
        RaceAction::Accelerate => is_error(e, Status::BadRequest, "Accelerate needs at least 1 energy."@),
        RaceAction::Drift => false,
        RaceAction::Boost => is_error(e, Status::BadRequest, "Piet Boost needs at least 3 energy."@),
    }
}

/// Rejects an action the racer lacks the energy for.
pub fn validate_action_energy(action: RaceAction, energy: i32) -> (r: Result<(), RouteError>)
    ensures
        r is Ok <==> action_allowed(action, energy as int),
        r matches Err(e) ==> energy_refusal(e, action),
{
    match action {
        RaceAction::Accelerate => if energy < 1 {
            Err(route_error(Status::BadRequest, "Accelerate needs at least 1 energy."))
        } else {
            Ok(())
        },
        RaceAction::Drift => Ok(()),
        RaceAction::Boost => if energy < 3 {
            Err(route_error(Status::BadRequest, "Piet Boost needs at least 3 energy."))
        } else {
            Ok(())
        },
    }
}

/// A racer at the start line: segment 0 with five energy and no move.
pub fn new_player(name: String, token: String) -> (p: Player)
    ensures
        p.name == name,
        p.token == token,
        p.distance == 0,
        p.energy == START_ENERGY,
        p.submitted is None,
{
    Player { name, token, distance: 0, energy: START_ENERGY, submitted: None }
}

/// The summary shown while the rival has not moved; it names the racer but
/// never the action.
pub open spec fn locked_summary(name: Seq<char>) -> Seq<char> {
    name + " locked in a move. Waiting for the rival."@
}

/// The summary shown while the rival has not moved.
pub fn move_locked_summary(player_name: &str) -> (s: String)
    ensures
        s@ == locked_summary(player_name@),
{
    let mut s = player_name.to_owned();
    s.append(" locked in a move. Waiting for the rival.");
    s
}

// ---------------------------------------------------------------------------
// The adaptive Piet oracle
// ---------------------------------------------------------------------------

/// The inputs the oracle program reads, and the boost it grants: the
/// program's number (or `fallback` when it cannot run) clamped to 1..=4.
pub open spec fn oracle(
    round: u32,
    player_index: int,
    snapshot: Seq<(i32, i32)>,
    terrain: Seq<char>,
    energy: int,
    program: Option<Seq<char>>,
    fallback: int,
) -> PietOracleResult {
    let own = if 0 <= player_index < snapshot.len() {
        snapshot[player_index].0 as int
    } else {
        0
    };
    let opponent_index = if player_index >= 1 {
        0
    } else {
        1 - player_index
    };
    let opponent = if opponent_index < snapshot.len() {
        snapshot[opponent_index].0 as int
    } else {
        own
    };
    let round_input = if round > i32::MAX {
        i32::MAX as int
    } else {
        round as int
    };
    let terrain_input = terrain_code_of(terrain);
    let comeback_input = clamp(max(opponent - own, 0) / 4, 0, 3);
    let energy_input = clamp(clamp(energy, 0, 10) / 3, 0, 3);
    let inputs = seq![
        round_input as i32,
        terrain_input as i32,
        comeback_input as i32,
        energy_input as i32,
    ];
    let raw = match program {
        Some(source) => match piet_result(source, inputs) {
            Ok(v) => v as int,
            Err(_) => fallback,
        },
        None => fallback,
    };
    PietOracleResult {
        value: clamp(raw, 1, 4) as i32,
        round_input: round_input as i32,
        terrain_input: terrain_input as i32,
        comeback_input: comeback_input as i32,
        energy_input: energy_input as i32,
    }
}

/// The view of an optional program text.
pub open spec fn program_view(program: Option<&str>) -> Option<Seq<char>> {
    match program {
        Some(s) => Some(s@),
        None => None,
    }
}

/// Runs the oracle program on the current round, terrain, comeback gap and
/// energy; the boost is always between one and four.
pub fn adaptive_piet_oracle(
    round: u32,
    player_index: usize,
    snapshot: &[(i32, i32)],
    segment: &TrackSegment,
    energy: i32,
    program: Option<&str>,
    fallback: i32,
) -> (r: PietOracleResult)
    ensures
        r == oracle(
            round,
            player_index as int,
            snapshot@,
            segment.terrain@,
            energy as int,
            program_view(program),
            fallback as int,
        ),
        1 <= r.value <= 4,
{
    let own_distance: i64 = if player_index < snapshot.len() {
        snapshot[player_index].0 as i64
    } else {
        0
    };
    let opponent_index: usize = if player_index >= 1 {
        0
    } else {
        1 - player_index
    };
    let opponent_distance: i64 = if opponent_index < snapshot.len() {
        snapshot[opponent_index].0 as i64
    } else {
        own_distance
    };
    let round_input: i32 = if round > i32::MAX as u32 {
        i32::MAX
    } else {
        round as i32
    };
    let terrain_input = terrain_code(segment.terrain.as_str());
    let gap: i64 = if opponent_distance - own_distance >= 0 {
        opponent_distance - own_distance
    } else {
        0
    };
    let comeback_input = clamp_i64(gap / 4, 0, 3) as i32;
    let energy_input = clamp_i64(clamp_i64(energy as i64, 0, 10) / 3, 0, 3) as i32;
    let inputs: [i32; 4] = [round_input, terrain_input, comeback_input, energy_input];
    proof {
        assert(inputs@ == seq![round_input, terrain_input, comeback_input, energy_input]);
    }
    let raw: i64 = match program {
        Some(source) => match run_piet_source_with_inputs(source, inputs.as_slice()) {
            Ok(v) => v as i64,
            Err(_) => fallback as i64,
        },
        None => fallback as i64,
    };
    let value = clamp_i64(raw, 1, 4) as i32;
    PietOracleResult { value, round_input, terrain_input, comeback_input, energy_input }
}

// ---------------------------------------------------------------------------
// Resolving a round
// ---------------------------------------------------------------------------

/// The segment a racer at `distance` stands on.
pub open spec fn segment_index(distance: int, finish: int) -> int {
    clamp(distance, 0, finish - 1)
}

/// Who wins after a round: the only racer across the line, or the one
/// farther across when both cross, or on an exact tie the racer picked by the
/// lowest bit of `seed ^ round`.
pub open spec fn race_winner(d0: int, d1: int, finish: int, seed: u64, round: u32) -> Option<usize> {
    let first = d0 >= finish;
    let second = d1 >= finish;
    if first && !second {
        Some(0)
    } else if !first && second {
        Some(1)
    } else if first && second {
        if d0 > d1 {
            Some(0)
        } else if d0 < d1 {
            Some(1)
        } else {
            Some(((seed ^ (round as u64)) & 1) as usize)
        }
    } else {
        None
    }
}

/// The action a racer plays: the submitted one, else Accelerate.
pub open spec fn played(p: Player) -> RaceAction {
    match p.submitted {
        Some(a) => a,
        None => RaceAction::Accelerate,
    }
}

/// Everything that depends on the state before the round for one racer.
pub struct RacerTurn {
    pub action: RaceAction,
    pub segment: TrackSegment,
    pub oracle: PietOracleResult,
    pub movement: int,
    pub energy_delta: int,
}

/// The distances and energies of the racers before the round.
pub open spec fn snapshot_of(players: Seq<Player>) -> Seq<(i32, i32)> {
    Seq::new(players.len(), |i: int| (players[i].distance, players[i].energy))
}

/// What racer `i` does in the round.
pub open spec fn racer_turn(
    room: Room,
    i: int,
    track: Seq<TrackSegment>,
    program: Option<Seq<char>>,
    fallback: int,
) -> RacerTurn {
    oracle_turn(room.players@[i], i, room.round, snapshot_of(room.players@), track, program, fallback)
}

/// The sentence the round summary holds for one racer.
pub open spec fn turn_sentence(name: Seq<char>, energy: int, t: RacerTurn) -> Seq<char> {
    name + " used "@ + action_label(t.action) + " on "@ + t.segment.terrain@ + " and moved "@
        + signed_decimal(t.movement) + " segment"@ + (if t.movement == 1 {
        Seq::empty()
    } else {
        "s"@
    }) + movement_note(t.action, energy) + (if t.action == RaceAction::Boost && energy >= 3 {
        " (adaptive Piet +"@ + signed_decimal(t.oracle.value as int) + ")"@
    } else {
        Seq::empty()
    })
}

/// Whether both racers crossed the finish line with the same distance, so
/// that the tie-breaker decides.
pub open spec fn photo_finish(d0: int, d1: int, finish: int) -> bool {
    d0 >= finish && d1 >= finish && d0 == d1
}

/// The summary of a resolved round; a race decided by the tie-breaker is
/// announced as a photo finish.
pub open spec fn round_summary(
    round: u32,
    first: Seq<char>,
    second: Seq<char>,
    winner_name: Option<Seq<char>>,
    photo: bool,
) -> Seq<char> {
    "Round "@ + signed_decimal(round as int) + ": "@ + first + " "@ + second + (match winner_name {
        Some(n) => " "@ + n + (if photo {
            " wins the race in a photo finish!"@
        } else {
            " wins the race!"@
        }),
        None => Seq::empty(),
    }) + "."@
}

/// The announcement index for a round.
pub open spec fn announcement_index(seed: u64, round: u32, count: nat) -> int {
    ((if seed + round > u64::MAX {
        seed + round - (u64::MAX + 1)
    } else {
        seed + round
    }) % (count as int)) as int
}

/// Whether a room is ready for a round to be resolved: two racers, no
/// winner, energies in range and distances short of the finish line.
pub open spec fn ready_to_resolve(room: Room, finish: int) -> bool {
    &&& room.players@.len() == 2
    &&& room.winner is None
    &&& room.round < u32::MAX
    &&& forall|i: int|
        0 <= i < 2 ==> 0 <= #[trigger] room.players@[i].distance < finish && 0
            <= room.players@[i].energy <= MAX_ENERGY
}

/// Resolves a round once both racers have moved. Each racer plays their
/// submitted move (Accelerate if none) on the segment they stand on, with the
/// oracle reading the positions from before the round; energy is kept within
/// 0..=10; the winner follows `race_winner`; the announcer picks the line at
/// `(seed + round) mod count`; the round counter advances.
pub fn resolve_round(
    room: &mut Room,
    track: &[TrackSegment],
    program: Option<&str>,
    piet_fallback: i32,
    announcements: &[String],
)
    requires
        1 <= track.len() <= MAX_TRACK_SEGMENTS,
        ready_to_resolve(*old(room), track.len() as int),
    ensures
        ({
            let before = *old(room);
            let after = *final(room);
            let finish = track.len() as int;
            let t0 = racer_turn(before, 0, track@, program_view(program), piet_fallback as int);
            let t1 = racer_turn(before, 1, track@, program_view(program), piet_fallback as int);
            &&& after.players@.len() == 2
            &&& after.players@[0].distance == before.players@[0].distance + t0.movement
            &&& after.players@[1].distance == before.players@[1].distance + t1.movement
            &&& after.players@[0].energy == clamp(
                before.players@[0].energy + t0.energy_delta,
                0,
                MAX_ENERGY as int,
            )
            &&& after.players@[1].energy == clamp(
                before.players@[1].energy + t1.energy_delta,
                0,
                MAX_ENERGY as int,
            )
            &&& after.players@[0].submitted is None
            &&& after.players@[1].submitted is None
            &&& after.players@[0].name == before.players@[0].name
            &&& after.players@[1].name == before.players@[1].name
            &&& after.players@[0].token == before.players@[0].token
            &&& after.players@[1].token == before.players@[1].token
            &&& after.winner == race_winner(
                after.players@[0].distance as int,
                after.players@[1].distance as int,
                finish,
                before.seed,
                before.round,
            )
            &&& after.last_summary@ == round_summary(
                before.round,
                turn_sentence(before.players@[0].name@, before.players@[0].energy as int, t0),
                turn_sentence(before.players@[1].name@, before.players@[1].energy as int, t1),
                match after.winner {
                    Some(w) => Some(before.players@[w as int].name@),
                    None => None,
                },
                photo_finish(
                    after.players@[0].distance as int,
                    after.players@[1].distance as int,
                    finish,
                ),
            )
            &&& after.announcement@ == (if announcements@.len() == 0 {
                before.announcement@
            } else {
                announcements@[announcement_index(
                    before.seed,
                    before.round,
                    announcements@.len(),
                )]@
            })
            &&& after.round == before.round + 1
            &&& after.code == before.code
            &&& after.mode == before.mode
            &&& after.local_token == before.local_token
            &&& after.local_turn == before.local_turn
            &&& after.seed == before.seed
            &&& after.last_activity == before.last_activity
        }),
{
    let ghost before = *room;
    let finish_line = track.len() as i32;
    let round = room.round;
    let snapshot: [(i32, i32); 2] = [
        (room.players[0].distance, room.players[0].energy),
        (room.players[1].distance, room.players[1].energy),
    ];
    assert(snapshot@ == snapshot_of(before.players@));
    let first = resolve_racer(room, 0, track, &snapshot, program, piet_fallback);
    let second = resolve_racer(room, 1, track, &snapshot, program, piet_fallback);
    let d0 = room.players[0].distance;
    let d1 = room.players[1].distance;
    let first_finished = d0 >= finish_line;
    let second_finished = d1 >= finish_line;
    let winner: Option<usize> = if first_finished && !second_finished {
        Some(0)
    } else if !first_finished && second_finished {
        Some(1)
    } else if first_finished && second_finished {
        if d0 > d1 {
            Some(0)
        } else if d0 < d1 {
            Some(1)
        } else {
            let seed = room.seed;
            let rnd = room.round as u64;
            let bit = (seed ^ rnd) & 1;
            assert(bit <= 1) by (bit_vector)
                requires
                    bit == (seed ^ rnd) & 1,
            ;
            Some(bit as usize)
        }
    } else {
        None
    };
    room.winner = winner;
    let mut summary = String::new();
    summary.append("Round ");
    push_i64(&mut summary, round as i64);
    summary.append(": ");
    summary.append(first.as_str());
    summary.append(" ");
    summary.append(second.as_str());
    if let Some(index) = winner {
        summary.append(" ");
        summary.append(room.players[index].name.as_str());
        if first_finished && second_finished && d0 == d1 {
            summary.append(" wins the race in a photo finish!");
        } else {
            summary.append(" wins the race!");
        }
    }
    summary.append(".");
    room.last_summary = summary;
    if announcements.len() > 0 {
        let index = (room.seed.wrapping_add(room.round as u64) % announcements.len() as u64) as usize;
        room.announcement = announcements[index].clone();
    }
    room.round = room.round + 1;
}

/// Moves racer `i` and returns the sentence for the round summary.
fn resolve_racer(
    room: &mut Room,
    i: usize,
    track: &[TrackSegment],
    snapshot: &[(i32, i32); 2],
    program: Option<&str>,
    piet_fallback: i32,
) -> (sentence: String)
    requires
        i < 2,
        1 <= track.len() <= MAX_TRACK_SEGMENTS,
        old(room).players@.len() == 2,
        0 <= old(room).players@[i as int].distance < track.len(),
        0 <= old(room).players@[i as int].energy <= MAX_ENERGY,
    ensures
        final(room).players@.len() == 2,
        final(room).players@[i as int].distance == old(room).players@[i as int].distance
            + turn_at(*old(room), i as int, snapshot@, track@, program_view(program), piet_fallback as int).movement,
        final(room).players@[i as int].energy == clamp(
            old(room).players@[i as int].energy
                + turn_at(*old(room), i as int, snapshot@, track@, program_view(program), piet_fallback as int).energy_delta,
            0,
            MAX_ENERGY as int,
        ),
        final(room).players@[i as int].submitted is None,
        final(room).players@[i as int].name == old(room).players@[i as int].name,
        final(room).players@[i as int].token == old(room).players@[i as int].token,
        final(room).players@[1 - i as int] == old(room).players@[1 - i as int],
        sentence@ == turn_sentence(
            old(room).players@[i as int].name@,
            old(room).players@[i as int].energy as int,
            turn_at(*old(room), i as int, snapshot@, track@, program_view(program), piet_fallback as int),
        ),
        same_except_players(*old(room), *final(room)),
{
    let finish_line = track.len() as i32;
    let distance = room.players[i].distance;
    let energy = room.players[i].energy;
    let action = match room.players[i].submitted {
        Some(a) => a,
        None => RaceAction::Accelerate,
    };
    let segment_index: usize = if distance > finish_line - 1 {
        (finish_line - 1) as usize
    } else {
        distance as usize
    };
    let segment = &track[segment_index];
    let oracle = adaptive_piet_oracle(
        room.round,
        i,
        snapshot.as_slice(),
        segment,
        energy,
        program,
        piet_fallback,
    );
    let boost_was_available = action == RaceAction::Boost && energy >= 3;
    let (movement, energy_delta, note) = movement_for(action, energy, segment, oracle.value);
    let new_energy = clamp_i64(energy as i64 + energy_delta as i64, 0, 10) as i32;
    let ghost t = turn_at(*old(room), i as int, snapshot@, track@, program_view(program), piet_fallback as int);
    assert(t.action == action);
    assert(t.segment == *segment);
    assert(t.oracle == oracle);
    assert(t.movement == movement as int);
    let mut sentence = room.players[i].name.clone();
    room.players[i].distance = distance + movement;
    room.players[i].energy = new_energy;
    room.players[i].submitted = None;
    sentence.append(" used ");
    sentence.append(action.label());
    sentence.append(" on ");
    sentence.append(segment.terrain.as_str());
    sentence.append(" and moved ");
    push_i64(&mut sentence, movement as i64);
    sentence.append(" segment");
    if movement != 1 {
        sentence.append("s");
    }
    sentence.append(note);
    if boost_was_available {
        sentence.append(" (adaptive Piet +");
        push_i64(&mut sentence, oracle.value as i64);
        sentence.append(")");
    }
    sentence
}

/// What racer `i` of a room does, given a snapshot of positions.
pub open spec fn turn_at(
    room: Room,
    i: int,
    snapshot: Seq<(i32, i32)>,
    track: Seq<TrackSegment>,
    program: Option<Seq<char>>,
    fallback: int,
) -> RacerTurn {
    oracle_turn(room.players@[i], i, room.round, snapshot, track, program, fallback)
}

/// Whether two rooms agree on everything but their racers.
pub open spec fn same_except_players(a: Room, b: Room) -> bool {
    &&& a.round == b.round
    &&& a.code == b.code
    &&& a.mode == b.mode
    &&& a.local_token == b.local_token
    &&& a.local_turn == b.local_turn
    &&& a.seed == b.seed
    &&& a.last_activity == b.last_activity
    &&& a.winner == b.winner
    &&& a.last_summary == b.last_summary
    &&& a.announcement == b.announcement
}

/// What a racer does, given the snapshot of positions before the round.
pub open spec fn oracle_turn(
    p: Player,
    i: int,
    round: u32,
    snapshot: Seq<(i32, i32)>,
    track: Seq<TrackSegment>,
    program: Option<Seq<char>>,
    fallback: int,
) -> RacerTurn {
    let action = played(p);
    let seg = track[segment_index(p.distance as int, track.len() as int)];
    let o = oracle(round, i, snapshot, seg.terrain@, p.energy as int, program, fallback);
    let mv = movement(action, p.energy as int, seg, o.value as int);
    RacerTurn { action, segment: seg, oracle: o, movement: mv.0, energy_delta: mv.1 }
}


/// The boost the oracle grants racer `i` in the current round, shown before
/// a move is chosen: the value a Piet Boost chosen now adds.
pub open spec fn boost_preview(
    room: Room,
    i: int,
    track: Seq<TrackSegment>,
    program: Option<Seq<char>>,
    fallback: int,
) -> int {
    racer_turn(room, i, track, program, fallback).oracle.value as int
}

/// Computes the boost racer `i` would get from Piet Boost this round.
pub fn preview_boost(
    room: &Room,
    i: usize,
    track: &[TrackSegment],
    program: Option<&str>,
    fallback: i32,
) -> (v: i32)
    requires
        i < room.players@.len(),
        1 <= track@.len() <= MAX_TRACK_SEGMENTS,
    ensures
        v == boost_preview(*room, i as int, track@, program_view(program), fallback as int),
        1 <= v <= 4,
{
    let mut snapshot: Vec<(i32, i32)> = Vec::new();
    let mut k: usize = 0;
    while k < room.players.len()
        invariant
            k <= room.players@.len(),
            snapshot@ =~= Seq::new(
                k as nat,
                |j: int| (room.players@[j].distance, room.players@[j].energy),
            ),
        decreases room.players@.len() - k,
    {
        snapshot.push((room.players[k].distance, room.players[k].energy));
        k = k + 1;
    }
    assert(snapshot@ =~= snapshot_of(room.players@));
    let player = &room.players[i];
    let finish = track.len();
    let index: usize = if player.distance <= 0 {
        0
    } else if player.distance as usize >= finish - 1 {
        finish - 1
    } else {
        player.distance as usize
    };
    assert(index as int == segment_index(player.distance as int, finish as int));
    let oracle = adaptive_piet_oracle(
        room.round,
        i,
        snapshot.as_slice(),
        &track[index],
        player.energy,
        program,
        fallback,
    );
    oracle.value
}

// ---------------------------------------------------------------------------
// Room state transitions
// ---------------------------------------------------------------------------

/// Longest circuit the engine accepts: distances are 32-bit numbers.
pub const MAX_TRACK_SEGMENTS: usize = 2_000_000_000;

/// The invariant every room keeps for a circuit of `finish` segments: one or
/// two racers (two in local play; a lone racer is still in the first,
/// undecided round), energies within 0..=10, distances never
/// negative and at least the number of rounds played, every distance short
/// of the finish line while the race is undecided, and a winner that names a
/// racer.
pub open spec fn room_wf(room: Room, finish: int) -> bool {
    &&& 1 <= room.players@.len() <= 2
    &&& room.mode == GameMode::Local ==> room.players@.len() == 2
    &&& room.players@.len() == 1 ==> room.round == 1 && room.winner is None
    &&& room.round >= 1
    &&& forall|i: int|
        0 <= i < room.players@.len() ==> 0 <= #[trigger] room.players@[i].energy <= MAX_ENERGY
            && room.players@[i].distance >= room.round - 1 && room.players@[i].distance >= 0
            && room.players@[i].distance <= finish + 9
    &&& room.winner is None ==> forall|i: int|
        0 <= i < room.players@.len() ==> #[trigger] room.players@[i].distance < finish
    &&& room.winner matches Some(w) ==> w < room.players@.len()
}

/// Every move advances a racer by at least one segment and at most nine.
pub proof fn lemma_movement_range(action: RaceAction, energy: int, seg: TrackSegment, piet: int)
    ensures
        1 <= movement(action, energy, seg, piet).0 <= 9,
{
}

/// Resolving a round keeps the room invariant.
pub proof fn lemma_resolve_keeps_wf(
    before: Room,
    after: Room,
    track: Seq<TrackSegment>,
    program: Option<Seq<char>>,
    fallback: int,
)
    requires
        1 <= track.len() <= MAX_TRACK_SEGMENTS,
        room_wf(before, track.len() as int),
        before.players@.len() == 2,
        before.winner is None,
        after.players@.len() == 2,
        forall|i: int|
            0 <= i < 2 ==> #[trigger] after.players@[i].distance == before.players@[i].distance
                + racer_turn(before, i, track, program, fallback).movement,
        forall|i: int|
            0 <= i < 2 ==> #[trigger] after.players@[i].energy == clamp(
                before.players@[i].energy + racer_turn(before, i, track, program, fallback).energy_delta,
                0,
                MAX_ENERGY as int,
            ),
        after.winner == race_winner(
            after.players@[0].distance as int,
            after.players@[1].distance as int,
            track.len() as int,
            before.seed,
            before.round,
        ),
        after.round == before.round + 1,
        after.mode == before.mode,
    ensures
        room_wf(after, track.len() as int),
{
    let t0 = racer_turn(before, 0, track, program, fallback);
    let t1 = racer_turn(before, 1, track, program, fallback);
    lemma_movement_range(t0.action, before.players@[0].energy as int, t0.segment, t0.oracle.value as int);
    lemma_movement_range(t1.action, before.players@[1].energy as int, t1.segment, t1.oracle.value as int);
    assert(after.players@[0].distance == before.players@[0].distance + t0.movement);
    assert(after.players@[1].distance == before.players@[1].distance + t1.movement);
    let seed = before.seed;
    let rnd = before.round as u64;
    assert((seed ^ rnd) & 1 <= 1) by (bit_vector);
}

/// Position of the racer holding `token`, if any.
pub open spec fn token_position(players: Seq<Player>, token: Seq<char>) -> Option<int> {
    if exists|i: int| 0 <= i < players.len() && #[trigger] players[i].token@ == token {
        Some(
            choose|i: int|
                0 <= i < players.len() && #[trigger] players[i].token@ == token && forall|j: int|
                    0 <= j < i ==> #[trigger] players[j].token@ != token,
        )
    } else {
        None
    }
}

/// Finds the first racer holding `token`.
pub fn player_position(players: &Vec<Player>, token: &str) -> (r: Option<usize>)
    ensures
        match r {
            Some(i) => i < players@.len() && players@[i as int].token@ == token@ && forall|j: int|
                0 <= j < i ==> #[trigger] players@[j].token@ != token@,
            None => forall|j: int| 0 <= j < players@.len() ==> #[trigger] players@[j].token@ != token@,
        },
        r is Some <==> token_position(players@, token@) is Some,
{
    let mut i: usize = 0;
    while i < players.len()
        invariant
            i <= players@.len(),
            forall|j: int| 0 <= j < i ==> #[trigger] players@[j].token@ != token@,
        decreases players.len() - i,
    {
        if str_eq(players[i].token.as_str(), token) {
            return Some(i);
        }
        i = i + 1;
    }
    None
}

/// Whether a token opens a local room.
pub open spec fn local_token_matches(room: Room, token: Seq<char>) -> bool {
    room.local_token matches Some(t) && t@ == token
}

/// Checks that a room is a local game opened with its device token.
pub fn ensure_local_access(room: &Room, token: &str) -> (r: Result<(), RouteError>)
    ensures
        r is Ok <==> room.mode == GameMode::Local && local_token_matches(*room, token@),
        r matches Err(e) ==> if room.mode != GameMode::Local {
            is_error(e, Status::Conflict, "That room is an online race."@)
        } else {
            is_error(e, Status::Forbidden, "Invalid local-game token."@)
        },
{
    if room.mode != GameMode::Local {
        return Err(route_error(Status::Conflict, "That room is an online race."));
    }
    let matches = match &room.local_token {
        Some(t) => str_eq(t.as_str(), token),
        None => false,
    };
    if !matches {
        return Err(route_error(Status::Forbidden, "Invalid local-game token."));
    }
    Ok(())
}

/// The rules a round is resolved with.
pub struct RoundContext<'a> {
    pub track: &'a [TrackSegment],
    pub program: Option<&'a str>,
    pub piet_fallback: i32,
    pub announcements: &'a [String],
}

/// Whether a rules context is usable: a non-empty circuit within range.
pub open spec fn context_wf(ctx: RoundContext) -> bool {
    1 <= ctx.track@.len() <= MAX_TRACK_SEGMENTS
}

/// Whether `after` is `before` with racer `i` having locked in `action` at
/// time `now`, all else equal.
pub open spec fn locked_in(before: Room, after: Room, i: int, action: RaceAction, now: u64) -> bool {
    &&& after.players@.len() == before.players@.len()
    &&& after.players@[i].submitted == Some(action)
    &&& after.players@[i].name == before.players@[i].name
    &&& after.players@[i].token == before.players@[i].token
    &&& after.players@[i].distance == before.players@[i].distance
    &&& after.players@[i].energy == before.players@[i].energy
    &&& forall|j: int| 0 <= j < after.players@.len() && j != i ==> #[trigger] after.players@[j]
        == before.players@[j]
    &&& after.last_activity == now
    &&& after.code == before.code
    &&& after.mode == before.mode
    &&& after.local_token == before.local_token
    &&& after.round == before.round
    &&& after.winner == before.winner
    &&& after.seed == before.seed
    &&& after.announcement == before.announcement
}

fn lock_in(room: &mut Room, i: usize, action: RaceAction, now: u64)
    requires
        i < old(room).players@.len(),
    ensures
        locked_in(*old(room), *final(room), i as int, action, now),
        final(room).local_turn == old(room).local_turn,
        final(room).last_summary == old(room).last_summary,
{
    room.players[i].submitted = Some(action);
    room.last_activity = now;
}

/// What recording an online move does: the refusals, and on success the
/// locked-in move and, once both racers have moved, the resolved round.
pub open spec fn online_move(
    before: Room,
    after: Room,
    r: Result<(), RouteError>,
    token: Seq<char>,
    action: RaceAction,
    now: u64,
    track: Seq<TrackSegment>,
    program: Option<Seq<char>>,
    fallback: int,
    announcements: Seq<String>,
) -> bool {
    &&& r is Err ==> after == before
    &&& r matches Err(e) ==> {
        if before.mode != GameMode::Online {
            is_error(e, Status::Conflict, "Use the local-play controls for this race."@)
        } else if before.players@.len() != 2 {
            is_error(e, Status::Conflict, "Wait for a second racer."@)
        } else if before.winner is Some {
            is_error(e, Status::Conflict, "The race is already finished."@)
        } else if token_position(before.players@, token) is None {
            is_error(e, Status::Forbidden, "Invalid racer token."@)
        } else {
            let i = token_position(before.players@, token)->0;
            if before.players@[i].submitted is Some {
                is_error(e, Status::Conflict, "Your move is already locked in."@)
            } else {
                energy_refusal(e, action)
            }
        }
    }
    &&& r is Ok <==> {
        &&& before.mode == GameMode::Online
        &&& before.players@.len() == 2
        &&& before.winner is None
        &&& token_position(before.players@, token) matches Some(i) && before.players@[i].submitted is None
            && action_allowed(action, before.players@[i].energy as int)
    }
    &&& r is Ok ==> {
        let i = token_position(before.players@, token)->0;
        let other = 1 - i;
        if before.players@[other].submitted is None {
            &&& locked_in(before, after, i, action, now)
            &&& after.last_summary@ == locked_summary(before.players@[i].name@)
            &&& after.local_turn == before.local_turn
        } else {
            exists|mid: Room|
                locked_in(before, mid, i, action, now) && #[trigger] resolved_under(
                    mid,
                    after,
                    track,
                    program,
                    fallback,
                    announcements,
                )
        }
    }
}

/// Records an online racer's move. It is refused in a local room (409),
/// before the rival joins (409), after the race is decided (409), for an
/// unknown token (403), when the racer already moved (409), or without the
/// energy the action needs (400). Otherwise the move is locked in, the
/// summary says only that the racer moved, and once both racers have moved
/// the round is resolved.
#[verifier::spinoff_prover]
#[verifier::rlimit(60)]
pub fn submit_online_move(
    room: &mut Room,
    token: &str,
    action: RaceAction,
    now: u64,
    ctx: &RoundContext,
) -> (r: Result<(), RouteError>)
    requires
        context_wf(*ctx),
        room_wf(*old(room), ctx.track@.len() as int),
    ensures
        room_wf(*final(room), ctx.track@.len() as int),
        online_move(
            *old(room),
            *final(room),
            r,
            token@,
            action,
            now,
            ctx.track@,
            program_view(ctx.program),
            ctx.piet_fallback as int,
            ctx.announcements@,
        ),
{
    if room.mode != GameMode::Online {
        return Err(route_error(Status::Conflict, "Use the local-play controls for this race."));
    }
    if room.players.len() != 2 {
        return Err(route_error(Status::Conflict, "Wait for a second racer."));
    }
    if room.winner.is_some() {
        return Err(route_error(Status::Conflict, "The race is already finished."));
    }
    let player_index = match player_position(&room.players, token) {
        Some(i) => i,
        None => {
            return Err(route_error(Status::Forbidden, "Invalid racer token."));
        },
    };
    proof {
        assert(token_position(old(room).players@, token@) == Some(player_index as int)) by {
            let k = token_position(old(room).players@, token@)->0;
            assert(old(room).players@[player_index as int].token@ == token@);
            if k < player_index {
            } else if k > player_index {
            }
        }
    }
    if room.players[player_index].submitted.is_some() {
        return Err(route_error(Status::Conflict, "Your move is already locked in."));
    }
    if let Err(e) = validate_action_energy(action, room.players[player_index].energy) {
        return Err(e);
    }
    let ghost before = *room;
    lock_in(room, player_index, action, now);
    let summary = move_locked_summary(room.players[player_index].name.as_str());
    room.last_summary = summary;
    let other = 1 - player_index;
    if room.players[other].submitted.is_some() {
        let ghost mid = *room;
        proof {
            let b0 = before.players@[0];
            let b1 = before.players@[1];
            assert(0 <= b0.energy <= MAX_ENERGY && 0 <= b0.distance);
            assert(0 <= b1.energy <= MAX_ENERGY && 0 <= b1.distance);
            assert(b0.distance < ctx.track@.len() && b1.distance < ctx.track@.len());
            assert(b0.distance >= before.round - 1);
            if player_index == 0 {
                assert(mid.players@[1] == b1);
            } else {
                assert(mid.players@[0] == b0);
            }
            assert(ready_to_resolve(mid, ctx.track@.len() as int));
        }
        resolve_round(room, ctx.track, ctx.program, ctx.piet_fallback, ctx.announcements);
        proof {
            lemma_resolve_keeps_wf(mid, *room, ctx.track@, program_view(ctx.program), ctx.piet_fallback as int);
            assert(resolved(mid, *room, *ctx));
        }
    }
    Ok(())
}

/// Whether `after` is `before` with its round resolved under `ctx`.
pub open spec fn resolved(before: Room, after: Room, ctx: RoundContext) -> bool {
    resolved_under(
        before,
        after,
        ctx.track@,
        program_view(ctx.program),
        ctx.piet_fallback as int,
        ctx.announcements@,
    )
}

/// Whether `after` is `before` with its round resolved on `track`, with the
/// oracle `program` (or `fallback`) and the announcer lines `announcements`.
pub open spec fn resolved_under(
    before: Room,
    after: Room,
    track: Seq<TrackSegment>,
    program: Option<Seq<char>>,
    fallback: int,
    announcements: Seq<String>,
) -> bool {
    let finish = track.len() as int;
    let t0 = racer_turn(before, 0, track, program, fallback);
    let t1 = racer_turn(before, 1, track, program, fallback);
    &&& after.players@.len() == 2
    &&& forall|i: int|
        0 <= i < 2 ==> #[trigger] after.players@[i].distance == before.players@[i].distance
            + racer_turn(before, i, track, program, fallback).movement
    &&& forall|i: int|
        0 <= i < 2 ==> #[trigger] after.players@[i].energy == clamp(
            before.players@[i].energy + racer_turn(before, i, track, program, fallback).energy_delta,
            0,
            MAX_ENERGY as int,
        )
    &&& forall|i: int|
        0 <= i < 2 ==> #[trigger] after.players@[i].submitted is None
            && after.players@[i].name == before.players@[i].name
            && after.players@[i].token == before.players@[i].token
    &&& after.winner == race_winner(
        after.players@[0].distance as int,
        after.players@[1].distance as int,
        finish,
        before.seed,
        before.round,
    )
    &&& after.last_summary@ == round_summary(
        before.round,
        turn_sentence(before.players@[0].name@, before.players@[0].energy as int, t0),
        turn_sentence(before.players@[1].name@, before.players@[1].energy as int, t1),
        match after.winner {
            Some(w) => Some(before.players@[w as int].name@),
            None => None,
        },
        photo_finish(after.players@[0].distance as int, after.players@[1].distance as int, finish),
    )
    &&& after.announcement@ == (if announcements.len() == 0 {
        before.announcement@
    } else {
        announcements[announcement_index(
            before.seed,
            before.round,
            announcements.len(),
        )]@
    })
    &&& after.round == before.round + 1
    &&& after.code == before.code
    &&& after.mode == before.mode
    &&& after.local_token == before.local_token
    &&& after.seed == before.seed
    &&& after.last_activity == before.last_activity
}

/// The summary shown after the first local racer has moved.
pub open spec fn handover_summary(first: Seq<char>, second: Seq<char>) -> Seq<char> {
    first + " has chosen. Pass the device to "@ + second + " \u{2014} the move stays hidden."@
}

/// What recording a local move does: the refusals, and on success the
/// hand-over after the first racer or the resolved round after the second.
pub open spec fn local_move(
    before: Room,
    after: Room,
    r: Result<(), RouteError>,
    token: Seq<char>,
    action: RaceAction,
    now: u64,
    track: Seq<TrackSegment>,
    program: Option<Seq<char>>,
    fallback: int,
    announcements: Seq<String>,
) -> bool {
    &&& r is Err ==> after == before
    &&& r matches Err(e) ==> {
        let turn = if before.local_turn >= 1 { 1int } else { 0int };
        if before.mode != GameMode::Local {
            is_error(e, Status::Conflict, "That room is an online race."@)
        } else if !local_token_matches(before, token) {
            is_error(e, Status::Forbidden, "Invalid local-game token."@)
        } else if before.winner is Some {
            is_error(e, Status::Conflict, "The race is already finished."@)
        } else if before.players@[turn].submitted is Some {
            is_error(e, Status::Conflict, "That move is already locked in."@)
        } else {
            energy_refusal(e, action)
        }
    }
    &&& r is Ok <==> {
        let turn = if before.local_turn >= 1 { 1int } else { 0int };
        &&& before.mode == GameMode::Local
        &&& local_token_matches(before, token)
        &&& before.winner is None
        &&& before.players@[turn].submitted is None
        &&& action_allowed(action, before.players@[turn].energy as int)
    }
    &&& r is Ok ==> {
        if before.local_turn == 0 {
            &&& locked_in(before, after, 0, action, now)
            &&& after.local_turn == 1
            &&& after.last_summary@ == handover_summary(
                before.players@[0].name@,
                before.players@[1].name@,
            )
        } else {
            &&& after.local_turn == 0
            &&& exists|mid: Room|
                locked_in(before, mid, 1, action, now) && #[trigger] resolved_under(
                    mid,
                    after,
                    track,
                    program,
                    fallback,
                    announcements,
                )
        }
    }
}

/// Records the move of the local racer whose turn it is. It is refused in an
/// online room (409), for a wrong device token (403), after the race is
/// decided (409), when that racer already moved (409), or without the energy
/// the action needs (400). After the first racer's move the device is handed
/// over; after the second racer's move the round is resolved and the turn
/// returns to the first racer.
#[verifier::spinoff_prover]
#[verifier::rlimit(60)]
pub fn submit_local_move(
    room: &mut Room,
    token: &str,
    action: RaceAction,
    now: u64,
    ctx: &RoundContext,
) -> (r: Result<(), RouteError>)
    requires
        context_wf(*ctx),
        room_wf(*old(room), ctx.track@.len() as int),
    ensures
        room_wf(*final(room), ctx.track@.len() as int),
        local_move(
            *old(room),
            *final(room),
            r,
            token@,
            action,
            now,
            ctx.track@,
            program_view(ctx.program),
            ctx.piet_fallback as int,
            ctx.announcements@,
        ),
{
    if let Err(e) = ensure_local_access(room, token) {
        return Err(e);
    }
    if room.winner.is_some() {
        return Err(route_error(Status::Conflict, "The race is already finished."));
    }
    let turn: usize = if room.local_turn >= 1 {
        1
    } else {
        0
    };
    if room.players[turn].submitted.is_some() {
        return Err(route_error(Status::Conflict, "That move is already locked in."));
    }
    if let Err(e) = validate_action_energy(action, room.players[turn].energy) {
        return Err(e);
    }
    let ghost before = *room;
    lock_in(room, turn, action, now);
    if turn == 0 {
        room.local_turn = 1;
        let mut summary = room.players[0].name.clone();
        summary.append(" has chosen. Pass the device to ");
        summary.append(room.players[1].name.as_str());
        summary.append(" \u{2014} the move stays hidden.");
        room.last_summary = summary;
    } else {
        let ghost mid = *room;
        proof {
            let b0 = before.players@[0];
            let b1 = before.players@[1];
            assert(0 <= b0.energy <= MAX_ENERGY && 0 <= b0.distance);
            assert(0 <= b1.energy <= MAX_ENERGY && 0 <= b1.distance);
            assert(b0.distance < ctx.track@.len() && b1.distance < ctx.track@.len());
            assert(b0.distance >= before.round - 1);
            assert(mid.players@[0] == b0);
            assert(ready_to_resolve(mid, ctx.track@.len() as int));
        }
        resolve_round(room, ctx.track, ctx.program, ctx.piet_fallback, ctx.announcements);
        proof {
            lemma_resolve_keeps_wf(mid, *room, ctx.track@, program_view(ctx.program), ctx.piet_fallback as int);
            assert(resolved(mid, *room, *ctx));
        }
        room.local_turn = 0;
        proof {
            assert(resolved(mid, *room, *ctx));
        }
    }
    Ok(())
}

/// Whether `token` may restart a room: any racer's token online, the device
/// token in local play.
pub open spec fn rematch_allowed_spec(room: Room, token: Seq<char>) -> bool {
    match room.mode {
        GameMode::Online => token_position(room.players@, token) is Some,
        GameMode::Local => local_token_matches(room, token),
    }
}

/// Whether `token` may restart a room.
pub fn rematch_allowed(room: &Room, token: &str) -> (r: bool)
    ensures
        r == rematch_allowed_spec(*room, token@),
{
    match room.mode {
        GameMode::Online => player_position(&room.players, token).is_some(),
        GameMode::Local => match &room.local_token {
            Some(t) => str_eq(t.as_str(), token),
            None => false,
        },
    }
}

/// Whether `after` is `before` restarted at `now` on the circuit seed
/// `seed`: every racer back at segment 0 with five energy and no move, the
/// first round, no winner and the first local turn.
pub open spec fn restarted(before: Room, after: Room, seed: u64, now: u64) -> bool {
    &&& after.players@.len() == before.players@.len()
    &&& forall|i: int|
        0 <= i < after.players@.len() ==> {
            &&& #[trigger] after.players@[i].distance == 0
            &&& after.players@[i].energy == START_ENERGY
            &&& after.players@[i].submitted is None
            &&& after.players@[i].name == before.players@[i].name
            &&& after.players@[i].token == before.players@[i].token
        }
    &&& after.seed == seed
    &&& after.local_turn == 0
    &&& after.round == 1
    &&& after.winner is None
    &&& after.last_activity == now
    &&& after.last_summary@ == "Rematch started on a newly shuffled circuit. Choose your move."@
    &&& after.code == before.code
    &&& after.mode == before.mode
    &&& after.local_token == before.local_token
    &&& after.announcement == before.announcement
}

/// Puts both racers back at the start: segment 0, five energy, no move;
/// round one, no winner, the first local turn, and a new circuit seed.
pub fn reset_race(room: &mut Room, seed: u64, now: u64)
    ensures
        restarted(*old(room), *final(room), seed, now),
{
    let mut i: usize = 0;
    while i < room.players.len()
        invariant
            i <= room.players@.len(),
            room.players@.len() == old(room).players@.len(),
            forall|j: int|
                0 <= j < room.players@.len() ==> {
                    &&& #[trigger] room.players@[j].name == old(room).players@[j].name
                    &&& room.players@[j].token == old(room).players@[j].token
                },
            forall|j: int|
                0 <= j < i ==> {
                    &&& #[trigger] room.players@[j].distance == 0
                    &&& room.players@[j].energy == START_ENERGY
                    &&& room.players@[j].submitted is None
                },
            room.seed == old(room).seed,
            room.code == old(room).code,
            room.mode == old(room).mode,
            room.local_token == old(room).local_token,
            room.announcement == old(room).announcement,
        decreases room.players@.len() - i,
    {
        room.players[i].distance = 0;
        room.players[i].energy = START_ENERGY;
        room.players[i].submitted = None;
        i = i + 1;
    }
    room.seed = seed;
    room.local_turn = 0;
    room.round = 1;
    room.winner = None;
    room.last_activity = now;
    room.last_summary = "Rematch started on a newly shuffled circuit. Choose your move.".to_owned();
    assert forall|k: int| 0 <= k < room.players@.len() implies {
        &&& #[trigger] room.players@[k].distance == 0
        &&& room.players@[k].energy == START_ENERGY
        &&& room.players@[k].submitted is None
        &&& room.players@[k].name == old(room).players@[k].name
        &&& room.players@[k].token == old(room).players@[k].token
    } by {}
}

/// Adds the second racer to an online room. It is refused for a local room
/// (409) or a room that already has two racers (409).
pub fn add_rival(room: &mut Room, rival: Player, now: u64) -> (r: Result<(), RouteError>)
    ensures
        r is Ok <==> old(room).mode == GameMode::Online && old(room).players@.len() < 2,
        r is Err ==> *final(room) == *old(room),
        r matches Err(e) ==> if old(room).mode != GameMode::Online {
            is_error(e, Status::Conflict, "That room is a local game."@)
        } else {
            is_error(e, Status::Conflict, "That room already has two racers."@)
        },
        r is Ok ==> {
            &&& final(room).players@ == old(room).players@.push(rival)
            &&& final(room).last_activity == now
            &&& final(room).last_summary@ == "Both racers are connected. Choose your first move."@
            &&& final(room).code == old(room).code
            &&& final(room).mode == old(room).mode
            &&& final(room).round == old(room).round
            &&& final(room).winner == old(room).winner
            &&& final(room).seed == old(room).seed
            &&& final(room).local_token == old(room).local_token
            &&& final(room).local_turn == old(room).local_turn
            &&& final(room).announcement == old(room).announcement
        },
{
    if room.mode != GameMode::Online {
        return Err(route_error(Status::Conflict, "That room is a local game."));
    }
    if room.players.len() >= 2 {
        return Err(route_error(Status::Conflict, "That room already has two racers."));
    }
    room.players.push(rival);
    room.last_activity = now;
    room.last_summary = "Both racers are connected. Choose your first move.".to_owned();
    Ok(())
}

// ---------------------------------------------------------------------------
// Laws of movement and of the oracle inputs
// ---------------------------------------------------------------------------

/// How far each action moves and what it costs. Accelerate moves two plus the
/// segment's speed, kept within one to six, for one energy, so on speeds -1
/// to 4 it moves exactly `2 + speed` and a faster segment never moves a racer
/// less. Drift moves two plus its terrain bonus (three on a curve, one in mud)
/// plus the speed (a speed below -1 counting as -1), within one to six, and
/// restores the segment's recovery. Piet Boost with three energy moves two plus
/// speed, boost and oracle value, within two to nine, for three energy;
/// without three energy it moves one segment and gives one energy. The round
/// summary notes a drift's recovery, a boost's oracle or its lack of energy.
pub proof fn law_movement(energy: int, seg: TrackSegment, other: TrackSegment, piet: int)
    ensures
        movement(RaceAction::Accelerate, energy, seg, piet).1 == -1,
        -1 <= seg.speed <= 4 ==> movement(RaceAction::Accelerate, energy, seg, piet).0 == 2
            + seg.speed,
        seg.speed >= 4 ==> movement(RaceAction::Accelerate, energy, seg, piet).0 == 6,
        seg.speed <= -1 ==> movement(RaceAction::Accelerate, energy, seg, piet).0 == 1,
        seg.speed <= other.speed ==> movement(RaceAction::Accelerate, energy, seg, piet).0
            <= movement(RaceAction::Accelerate, energy, other, piet).0,
        movement(RaceAction::Drift, energy, seg, piet).1 == seg.recovery,
        seg.terrain@ == "curve"@ && -1 <= seg.speed <= 1 ==> movement(
            RaceAction::Drift,
            energy,
            seg,
            piet,
        ).0 == 5 + seg.speed,
        seg.terrain@ == "mud"@ && -1 <= seg.speed <= 3 ==> movement(
            RaceAction::Drift,
            energy,
            seg,
            piet,
        ).0 == 3 + seg.speed,
        seg.terrain@ == "straight"@ && -1 <= seg.speed <= 4 ==> movement(
            RaceAction::Drift,
            energy,
            seg,
            piet,
        ).0 == 2 + seg.speed,
        seg.terrain@ == "straight"@ && seg.speed < -1 ==> movement(
            RaceAction::Drift,
            energy,
            seg,
            piet,
        ).0 == 1,
        energy >= 3 ==> movement(RaceAction::Boost, energy, seg, piet).1 == -3,
        energy >= 3 && 0 <= seg.speed + seg.boost + piet <= 7 ==> movement(
            RaceAction::Boost,
            energy,
            seg,
            piet,
        ).0 == 2 + seg.speed + seg.boost + piet,
        energy < 3 ==> movement(RaceAction::Boost, energy, seg, piet) == (1int, 1int),
        energy >= 3 && seg.speed + seg.boost + piet <= 0 ==> movement(
            RaceAction::Boost,
            energy,
            seg,
            piet,
        ).0 == 2,
        energy >= 3 && seg.speed + seg.boost + piet >= 7 ==> movement(
            RaceAction::Boost,
            energy,
            seg,
            piet,
        ).0 == 9,
        seg.terrain@ == "jump"@ && -1 <= seg.speed <= 4 ==> movement(
            RaceAction::Drift,
            energy,
            seg,
            piet,
        ).0 == 2 + seg.speed,
        seg.terrain@ == "curve"@ && seg.speed >= 1 ==> movement(
            RaceAction::Drift,
            energy,
            seg,
            piet,
        ).0 == 6,
        movement_note(RaceAction::Accelerate, energy) == ""@,
        movement_note(RaceAction::Drift, energy) == " and recovered energy"@,
        energy >= 3 ==> movement_note(RaceAction::Boost, energy) == " with the Piet oracle"@,
        energy < 3 ==> movement_note(RaceAction::Boost, energy) == " but lacked energy"@,
{
    reveal_strlit("jump");
    assert("jump"@.len() == 4);
    reveal_strlit("curve");
    reveal_strlit("mud");
    reveal_strlit("straight");
    assert("mud"@.len() == 3 && "curve"@.len() == 5 && "straight"@.len() == 8);
    assert("mud"@ != "curve"@);
    assert("straight"@ != "curve"@ && "straight"@ != "mud"@);
}

/// The oracle's inputs for racer `i` of two: the round, the terrain code
/// (0 straight, 1 curve, 2 mud, 3 jump), a comeback gap of one per four
/// segments the rival is ahead (at most three), and one per three energy (at
/// most three). The inputs treat both racers alike: swapping the racers and
/// their positions gives the same inputs.
pub proof fn law_oracle_inputs(
    round: u32,
    i: int,
    d0: i32,
    e0: i32,
    d1: i32,
    e1: i32,
    terrain: Seq<char>,
    energy: int,
    program: Option<Seq<char>>,
    fallback: int,
)
    requires
        0 <= i < 2,
        round <= i32::MAX,
        0 <= energy <= 10,
    ensures
        ({
            let o = oracle(round, i, seq![(d0, e0), (d1, e1)], terrain, energy, program, fallback);
            let own: int = if i == 0 { d0 as int } else { d1 as int };
            let rival: int = if i == 0 { d1 as int } else { d0 as int };
            &&& o.round_input == round
            &&& (rival - own >= 12 ==> o.comeback_input == 3)
            &&& (0 <= rival - own < 12 ==> o.comeback_input == (rival - own) / 4)
            &&& (rival <= own ==> o.comeback_input == 0)
            &&& o.energy_input == energy / 3
            &&& (terrain == "curve"@ ==> o.terrain_input == 1)
            &&& (terrain == "mud"@ ==> o.terrain_input == 2)
            &&& (terrain == "jump"@ ==> o.terrain_input == 3)
            &&& (terrain == "straight"@ ==> o.terrain_input == 0)
            &&& 1 <= o.value <= 4
        }),
        oracle(round, 0, seq![(d0, e0), (d1, e1)], terrain, energy, program, fallback) == oracle(
            round,
            1,
            seq![(d1, e1), (d0, e0)],
            terrain,
            energy,
            program,
            fallback,
        ),
{
    reveal_strlit("curve");
    reveal_strlit("mud");
    reveal_strlit("jump");
    reveal_strlit("straight");
    assert("mud"@.len() == 3 && "curve"@.len() == 5 && "straight"@.len() == 8 && "jump"@.len()
        == 4);
    assert("mud"@ != "curve"@ && "jump"@ != "curve"@ && "jump"@ != "mud"@);
    assert("straight"@ != "curve"@ && "straight"@ != "mud"@ && "straight"@ != "jump"@);
    let o = oracle(round, i, seq![(d0, e0), (d1, e1)], terrain, energy, program, fallback);
    let own: int = if i == 0 { d0 as int } else { d1 as int };
    let rival: int = if i == 0 { d1 as int } else { d0 as int };
    let snap = seq![(d0, e0), (d1, e1)];
    assert(snap[i].0 == own);
    let oi: int = if i >= 1 { 0 } else { 1 - i };
    assert(snap[oi].0 == rival);
    let gap = max(rival - own, 0);
    assert(rival - own >= 12 ==> gap / 4 >= 3) by (nonlinear_arith)
        requires
            gap == max(rival - own, 0),
            gap >= 0,
            rival - own >= 12 ==> gap == rival - own,
    ;
    assert(0 <= rival - own < 12 ==> 0 <= gap / 4 < 3) by (nonlinear_arith)
        requires
            gap >= 0,
            0 <= rival - own < 12 ==> gap == rival - own,
    ;
    assert(0 <= energy / 3 <= 3) by (nonlinear_arith)
        requires
            0 <= energy <= 10,
    ;
    assert(o.comeback_input == clamp(gap / 4, 0, 3));
}

/// What the oracle grants: the number its program prints when run on the
/// inputs round, terrain, comeback and energy in that order, or the fallback
/// when there is no program or it fails, clamped to one to four; the energy
/// input counts energy clamped to zero to ten in threes, and the round input
/// is the round capped at `i32::MAX`.
pub proof fn law_oracle_value(
    round: u32,
    i: int,
    snapshot: Seq<(i32, i32)>,
    terrain: Seq<char>,
    energy: int,
    program: Option<Seq<char>>,
    fallback: int,
)
    ensures
        ({
            let o = oracle(round, i, snapshot, terrain, energy, program, fallback);
            let inputs = seq![o.round_input, o.terrain_input, o.comeback_input, o.energy_input];
            &&& match program {
                None => o.value == clamp(fallback, 1, 4),
                Some(src) => match piet_result(src, inputs) {
                    Ok(v) => o.value == clamp(v as int, 1, 4),
                    Err(_) => o.value == clamp(fallback, 1, 4),
                },
            }
            &&& o.energy_input == clamp(energy, 0, 10) / 3
            &&& o.round_input == if round > i32::MAX { i32::MAX as int } else { round as int }
        }),
{
    let c = clamp(energy, 0, 10);
    assert(0 <= c / 3 <= 3) by (nonlinear_arith)
        requires
            0 <= c <= 10,
    ;
}

} // verus!
