//! Properties of the game as a whole: what racers can and cannot learn from
//! the pages, and how a race is decided.
use vstd::prelude::*;
use crate::game::{
    local_move, online_move, race_winner, token_position, Player, Room, TrackSegment,
};
use crate::render::{
    action_form, form_player_index, html_escaped, local_actions, local_page, online_page,
    racer_card, winner_banner_html,
};

verus! {

/// The text of an optional string.
pub open spec fn opt_view(s: Option<String>) -> Option<Seq<char>> {
    match s {
        Some(t) => Some(t@),
        None => None,
    }
}

/// Whether two racers are the same apart from their move: name, token,
/// place and energy.
pub open spec fn same_racer(p: Player, q: Player) -> bool {
    &&& p.name@ == q.name@
    &&& p.token@ == q.token@
    &&& p.distance == q.distance
    &&& p.energy == q.energy
}

/// Whether two racers look the same to others: the same racer, and both or
/// neither have moved.
pub open spec fn same_but_action(p: Player, q: Player) -> bool {
    &&& same_racer(p, q)
    &&& (p.submitted is Some <==> q.submitted is Some)
}

/// Whether two rooms differ at most in the racers' moves: the same racers in
/// the same places, and every other field the same.
pub open spec fn same_but_moves(a: Room, b: Room) -> bool {
    &&& a.code@ == b.code@
    &&& a.mode == b.mode
    &&& opt_view(a.local_token) == opt_view(b.local_token)
    &&& a.local_turn == b.local_turn
    &&& a.round == b.round
    &&& a.winner == b.winner
    &&& a.last_summary@ == b.last_summary@
    &&& a.announcement@ == b.announcement@
    &&& a.seed == b.seed
    &&& a.last_activity == b.last_activity
    &&& a.players@.len() == b.players@.len()
    &&& forall|k: int| 0 <= k < a.players@.len() ==> same_racer(#[trigger] a.players@[k], b.players@[k])
}

/// Whether two rooms differ at most in which actions are locked in: they
/// differ only in moves, and the same racers have moved.
pub open spec fn same_but_actions(a: Room, b: Room) -> bool {
    &&& same_but_moves(a, b)
    &&& forall|k: int| 0 <= k < a.players@.len() ==> same_but_action(#[trigger] a.players@[k], b.players@[k])
}

proof fn lemma_same_card(p: Player, q: Player, finish: int, highlighted: bool)
    requires
        same_racer(p, q),
    ensures
        racer_card(p, finish, highlighted) == racer_card(q, finish, highlighted),
{
}

proof fn lemma_same_form(
    endpoint: Seq<char>,
    a: Room,
    b: Room,
    token: Seq<char>,
    piet_boost: int,
    index: Option<usize>,
    track: Seq<TrackSegment>,
)
    requires
        same_but_moves(a, b),
        a.players@.len() >= 1,
    ensures
        action_form(endpoint, a, token, piet_boost, index, track) == action_form(
            endpoint,
            b,
            token,
            piet_boost,
            index,
            track,
        ),
{
    let k = form_player_index(a, index);
    assert(form_player_index(b, index) == k);
    if 0 <= k < a.players@.len() {
        assert(same_racer(a.players@[k], b.players@[k]));
    }
}

proof fn lemma_same_banner(a: Room, b: Room, perspective: Option<usize>)
    requires
        same_but_moves(a, b),
        a.winner matches Some(w) ==> w < a.players@.len(),
    ensures
        winner_banner_html(a, perspective) == winner_banner_html(b, perspective),
{
    if let Some(w) = a.winner {
        assert(same_racer(a.players@[w as int], b.players@[w as int]));
    }
}

/// The race pages never show an action. An online racer's page depends on
/// their own move only through whether they have moved, and not at all on
/// the rival's move (none, or any action); the local page depends on
/// neither racer's move.
#[verifier::rlimit(40)]
pub proof fn law_pages_never_show_actions(
    a: Room,
    b: Room,
    viewer: int,
    token: Seq<char>,
    track: Seq<TrackSegment>,
    piet_boost: int,
    source: Option<Seq<char>>,
)
    requires
        same_but_moves(a, b),
        0 <= viewer < a.players@.len() <= 2,
        a.winner matches Some(w) ==> w < a.players@.len(),
    ensures
        (a.players@[viewer].submitted is Some <==> b.players@[viewer].submitted is Some)
            ==> online_page(a, viewer, track, piet_boost, source) == online_page(
            b,
            viewer,
            track,
            piet_boost,
            source,
        ),
        a.players@.len() == 2 ==> local_page(a, token, track, piet_boost, source) == local_page(
            b,
            token,
            track,
            piet_boost,
            source,
        ),
{
    let finish = track.len() as int;
    let n = a.players@.len();
    assert(same_racer(a.players@[viewer], b.players@[viewer]));
    lemma_same_card(a.players@[viewer], b.players@[viewer], finish, true);
    if 1 - viewer < n {
        assert(same_racer(a.players@[1 - viewer], b.players@[1 - viewer]));
        lemma_same_card(a.players@[1 - viewer], b.players@[1 - viewer], finish, false);
    }
    lemma_same_form("/action"@, a, b, a.players@[viewer].token@, piet_boost, Some(viewer as usize), track);
    lemma_same_banner(a, b, Some(viewer as usize));
    lemma_same_banner(a, b, None);
    if n == 2 {
        assert(same_racer(a.players@[0], b.players@[0]));
        assert(same_racer(a.players@[1], b.players@[1]));
        let current: int = if a.local_turn >= 1 { 1 } else { 0 };
        lemma_same_card(a.players@[0], b.players@[0], finish, current == 0);
        lemma_same_card(a.players@[1], b.players@[1], finish, current == 1);
        lemma_same_form("/local-action"@, a, b, token, piet_boost, Some(current as usize), track);
        assert(local_actions(a, token, track, piet_boost, current) == local_actions(
            b,
            token,
            track,
            piet_boost,
            current,
        ));
    }
}

/// A move locked in online stays hidden until the rival moves: whichever
/// action the racer chose, the room afterwards differs only in that action.
pub proof fn law_online_move_is_hidden(
    before: Room,
    after_a: Room,
    after_b: Room,
    token: Seq<char>,
    action_a: crate::game::RaceAction,
    action_b: crate::game::RaceAction,
    now: u64,
    track: Seq<TrackSegment>,
    program: Option<Seq<char>>,
    fallback: int,
    announcements: Seq<String>,
)
    requires
        online_move(before, after_a, Ok(()), token, action_a, now, track, program, fallback, announcements),
        online_move(before, after_b, Ok(()), token, action_b, now, track, program, fallback, announcements),
        token_position(before.players@, token) matches Some(i)
            && before.players@[1 - i].submitted is None,
    ensures
        same_but_actions(after_a, after_b),
{
    let i = token_position(before.players@, token)->0;
    assert forall|k: int| 0 <= k < after_a.players@.len() implies {
        &&& #[trigger] after_a.players@[k].name == after_b.players@[k].name
        &&& after_a.players@[k].token == after_b.players@[k].token
        &&& after_a.players@[k].distance == after_b.players@[k].distance
        &&& after_a.players@[k].energy == after_b.players@[k].energy
        &&& (after_a.players@[k].submitted is Some <==> after_b.players@[k].submitted is Some)
    } by {
        if k != i {
            assert(after_a.players@[k] == before.players@[k]);
            assert(after_b.players@[k] == before.players@[k]);
        }
    }
}

/// In local play the first racer's move stays hidden when the device is
/// handed over: whichever action they chose, the room afterwards differs
/// only in that action.
pub proof fn law_local_move_is_hidden(
    before: Room,
    after_a: Room,
    after_b: Room,
    token: Seq<char>,
    action_a: crate::game::RaceAction,
    action_b: crate::game::RaceAction,
    now: u64,
    track: Seq<TrackSegment>,
    program: Option<Seq<char>>,
    fallback: int,
    announcements: Seq<String>,
)
    requires
        local_move(before, after_a, Ok(()), token, action_a, now, track, program, fallback, announcements),
        local_move(before, after_b, Ok(()), token, action_b, now, track, program, fallback, announcements),
        before.local_turn == 0,
    ensures
        same_but_actions(after_a, after_b),
{
    assert forall|k: int| 0 <= k < after_a.players@.len() implies {
        &&& #[trigger] after_a.players@[k].name == after_b.players@[k].name
        &&& after_a.players@[k].token == after_b.players@[k].token
        &&& after_a.players@[k].distance == after_b.players@[k].distance
        &&& after_a.players@[k].energy == after_b.players@[k].energy
        &&& (after_a.players@[k].submitted is Some <==> after_b.players@[k].submitted is Some)
    } by {
        if k != 0 {
            assert(after_a.players@[k] == before.players@[k]);
            assert(after_b.players@[k] == before.players@[k]);
        }
    }
}

/// How a race is decided: nobody wins while both racers are short of the
/// finish; otherwise the winner has crossed it and is at least as far as the
/// rival, so a racer who alone crossed, or who overshot farther, wins.
pub proof fn law_winner_crossed_farthest(d0: int, d1: int, finish: int, seed: u64, round: u32)
    ensures
        race_winner(d0, d1, finish, seed, round) is None <==> (d0 < finish && d1 < finish),
        race_winner(d0, d1, finish, seed, round) matches Some(w) ==> {
            let mine = if w == 0 { d0 } else { d1 };
            let theirs = if w == 0 { d1 } else { d0 };
            &&& w < 2
            &&& mine >= finish
            &&& mine >= theirs
        },
{
    let rnd = round as u64;
    assert(((seed ^ rnd) & 1) <= 1) by (bit_vector);
}

/// Escaped text holds no character that could open a tag or end an
/// attribute value.
pub proof fn law_escaped_text_is_inert(s: Seq<char>)
    ensures
        forall|i: int|
            0 <= i < html_escaped(s).len() ==> {
                let c = #[trigger] html_escaped(s)[i];
                c != '<' && c != '>' && c != '"' && c != '\''
            },
    decreases s.len(),
{
    reveal_strlit("&amp;");
    reveal_strlit("&lt;");
    reveal_strlit("&gt;");
    reveal_strlit("&quot;");
    reveal_strlit("&#39;");
    if s.len() > 0 {
        law_escaped_text_is_inert(s.drop_last());
        let pre = html_escaped(s.drop_last());
        let tail = crate::render::escape_char(s.last());
        assert(html_escaped(s) == pre + tail);
        assert forall|i: int| 0 <= i < html_escaped(s).len() implies {
            let c = #[trigger] html_escaped(s)[i];
            c != '<' && c != '>' && c != '"' && c != '\''
        } by {
            if i < pre.len() {
                assert(html_escaped(s)[i] == pre[i]);
            } else {
                assert(html_escaped(s)[i] == tail[i - pre.len()]);
            }
        }
    }
}

} // verus!
