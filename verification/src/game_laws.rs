//! Laws of the game's state machine: what holds of every match after any
//! number of requests.

use crate::board::Coordinate;
use crate::combat::{covers, fleet_destroyed};
use crate::error::EngineError;
use crate::game::{join_step, place_step, seat_of, shot_step, struck, GameView, PlayerView};
use vstd::prelude::*;

verus! {

/// A request to a match, as the model sees it.
pub ghost enum Request {
    /// A player asks for the second slot.
    Join { player_id: Seq<char> },
    /// A player places a fleet.
    Place { player_id: Seq<char>, fleet: Seq<Seq<Coordinate>> },
    /// A player fires at a cell.
    Shot { shooter_id: Seq<char>, target: Coordinate },
}

/// What the match answers to a request: the match after it, or the
/// rejection.
pub open spec fn step(game: GameView, request: Request) -> Result<GameView, EngineError> {
    match request {
        Request::Join { player_id } => join_step(game, player_id),
        Request::Place { player_id, fleet } => place_step(game, player_id, fleet),
        Request::Shot { shooter_id, target } => shot_step(game, shooter_id, target),
    }
}

/// The match after a request. A rejected request leaves it as it was.
pub open spec fn after(game: GameView, request: Request) -> GameView {
    match step(game, request) {
        Ok(next) => next,
        Err(_) => game,
    }
}

/// The match after the requests were made one after the other.
pub open spec fn play(game: GameView, requests: Seq<Request>) -> GameView
    decreases requests.len(),
{
    if requests.len() == 0 {
        game
    } else {
        after(play(game, requests.drop_last()), requests.last())
    }
}

/// The cell is recorded on the slot, as a hit or as a miss.
pub open spec fn recorded(player: PlayerView, c: Coordinate) -> bool {
    player.hits.contains(c) || player.misses.contains(c)
}

/// One of the requests is a shot at the cell that was resolved against the
/// first player's slot (`first_seat`) or against the second player's.
pub open spec fn shot_at(
    game: GameView,
    requests: Seq<Request>,
    first_seat: bool,
    c: Coordinate,
) -> bool {
    exists|k: int|
        0 <= k < requests.len() && #[trigger] resolved_at(game, requests, k, first_seat, c)
}

/// The request at place `k` is a shot at the cell, and the match as it was
/// then resolved it against the given slot.
pub open spec fn resolved_at(
    game: GameView,
    requests: Seq<Request>,
    k: int,
    first_seat: bool,
    c: Coordinate,
) -> bool {
    let then = play(game, requests.take(k));
    match requests[k] {
        Request::Shot { shooter_id, target } => {
            &&& target == c
            &&& shot_step(then, shooter_id, target) is Ok
            &&& seat_of(then, shooter_id) == Some(!first_seat)
        },
        _ => false,
    }
}

/// None of the requests places a fleet.
pub open spec fn no_placement(requests: Seq<Request>) -> bool {
    forall|k: int| 0 <= k < requests.len() ==> !(#[trigger] requests[k] is Place)
}

/// Taking a shot changes neither the identity nor the fleet of a slot, keeps
/// every recorded cell, and records nothing but the shot.
pub proof fn lemma_struck(player: PlayerView, target: Coordinate)
    ensures
        struck(player, target).id == player.id,
        struck(player, target).position == player.position,
        forall|c: Coordinate|
            player.hits.contains(c) ==> #[trigger] struck(player, target).hits.contains(c),
        forall|c: Coordinate|
            player.misses.contains(c) ==> #[trigger] struck(player, target).misses.contains(c),
        forall|c: Coordinate| #[trigger]
            recorded(struck(player, target), c) ==> recorded(player, c) || c == target,
        recorded(struck(player, target), target),
{
    let next = struck(player, target);
    assert forall|c: Coordinate| player.hits.contains(c) implies #[trigger] next.hits.contains(
        c,
    ) by {
        let i = choose|i: int| 0 <= i < player.hits.len() && player.hits[i] == c;
        assert(next.hits[i] == c);
    }
    assert forall|c: Coordinate| player.misses.contains(c) implies #[trigger] next.misses.contains(
        c,
    ) by {
        let i = choose|i: int| 0 <= i < player.misses.len() && player.misses[i] == c;
        assert(next.misses[i] == c);
    }
    assert forall|c: Coordinate| #[trigger] recorded(next, c) implies recorded(player, c) || c
        == target by {
        if next.hits.contains(c) {
            let i = choose|i: int| 0 <= i < next.hits.len() && next.hits[i] == c;
            if i < player.hits.len() {
                assert(player.hits[i] == c);
            }
        } else {
            let i = choose|i: int| 0 <= i < next.misses.len() && next.misses[i] == c;
            if i < player.misses.len() {
                assert(player.misses[i] == c);
            }
        }
    }
    if next.hits.len() > player.hits.len() {
        assert(next.hits[player.hits.len() as int] == target);
    } else {
        assert(next.misses[player.misses.len() as int] == target);
    }
}

/// Every state that a match reaches holds, in each slot, no fleet or a
/// legal one.
pub proof fn lemma_fleets_stay_settled(game: GameView, requests: Seq<Request>)
    requires
        game.wf(),
    ensures
        play(game, requests).wf(),
    decreases requests.len(),
{
    if requests.len() > 0 {
        lemma_fleets_stay_settled(game, requests.drop_last());
    }
}

/// The first player's identity never changes, and the second player's never
/// changes once it is set: the first join wins.
pub proof fn lemma_identities_stay(game: GameView, requests: Seq<Request>)
    ensures
        play(game, requests).player_a.id == game.player_a.id,
        game.player_b.id.len() != 0 ==> play(game, requests).player_b.id == game.player_b.id,
    decreases requests.len(),
{
    if requests.len() > 0 {
        lemma_identities_stay(game, requests.drop_last());
    }
}

/// Requests other than placements leave the fleets where they are.
pub proof fn lemma_fleets_stay_without_placement(game: GameView, requests: Seq<Request>)
    requires
        no_placement(requests),
    ensures
        play(game, requests).player_a.position == game.player_a.position,
        play(game, requests).player_b.position == game.player_b.position,
    decreases requests.len(),
{
    if requests.len() > 0 {
        let earlier = requests.drop_last();
        assert forall|k: int| 0 <= k < earlier.len() implies !(#[trigger] earlier[k] is Place) by {
            assert(earlier[k] == requests[k]);
        }
        lemma_fleets_stay_without_placement(game, earlier);
        assert(!(requests[requests.len() - 1] is Place));
    }
}

/// After any number of requests, every cell recorded on a slot was recorded
/// there at the start, or is the target of a shot that was resolved against
/// that slot.
pub proof fn lemma_recorded_shots_were_fired(game: GameView, requests: Seq<Request>, c: Coordinate)
    ensures
        recorded(play(game, requests).player_a, c) ==> recorded(game.player_a, c) || shot_at(
            game,
            requests,
            true,
            c,
        ),
        recorded(play(game, requests).player_b, c) ==> recorded(game.player_b, c) || shot_at(
            game,
            requests,
            false,
            c,
        ),
    decreases requests.len(),
{
    if requests.len() > 0 {
        let earlier = requests.drop_last();
        let then = play(game, earlier);
        let last = requests.len() - 1;
        lemma_recorded_shots_were_fired(game, earlier, c);
        assert(requests.take(last) =~= earlier);
        assert forall|first_seat: bool| shot_at(game, earlier, first_seat, c) implies shot_at(
            game,
            requests,
            first_seat,
            c,
        ) by {
            let k = choose|k: int|
                0 <= k < earlier.len() && #[trigger] resolved_at(game, earlier, k, first_seat, c);
            assert(earlier.take(k) =~= requests.take(k));
            assert(earlier[k] == requests[k]);
            assert(resolved_at(game, requests, k, first_seat, c));
        }
        match requests.last() {
            Request::Shot { shooter_id, target } => {
                lemma_struck(then.player_a, target);
                lemma_struck(then.player_b, target);
                if shot_step(then, shooter_id, target) is Ok && target == c {
                    if seat_of(then, shooter_id) == Some(true) {
                        assert(resolved_at(game, requests, last, false, c));
                    } else {
                        assert(resolved_at(game, requests, last, true, c));
                    }
                }
            },
            _ => {},
        }
    }
}

/// A match that starts without recorded shots holds, after any number of
/// requests, only cells that were fired at the slot they are recorded on.
pub proof fn lemma_only_fired_shots_recorded(game: GameView, requests: Seq<Request>, c: Coordinate)
    requires
        game.player_a.hits.len() == 0 && game.player_a.misses.len() == 0,
        game.player_b.hits.len() == 0 && game.player_b.misses.len() == 0,
    ensures
        recorded(play(game, requests).player_a, c) ==> shot_at(game, requests, true, c),
        recorded(play(game, requests).player_b, c) ==> shot_at(game, requests, false, c),
{
    lemma_recorded_shots_were_fired(game, requests, c);
}

/// Hits are never forgotten: a cell that was hit stays hit through any
/// number of requests.
pub proof fn lemma_hits_only_grow(game: GameView, requests: Seq<Request>, c: Coordinate)
    ensures
        game.player_a.hits.contains(c) ==> play(game, requests).player_a.hits.contains(c),
        game.player_b.hits.contains(c) ==> play(game, requests).player_b.hits.contains(c),
    decreases requests.len(),
{
    if requests.len() > 0 {
        let then = play(game, requests.drop_last());
        lemma_hits_only_grow(game, requests.drop_last(), c);
        match requests.last() {
            Request::Shot { shooter_id, target } => {
                lemma_struck(then.player_a, target);
                lemma_struck(then.player_b, target);
            },
            _ => {},
        }
    }
}

/// A fleet that is destroyed stays destroyed, whatever requests follow, as
/// long as no fleet is placed.
pub proof fn lemma_destroyed_stays_destroyed(game: GameView, requests: Seq<Request>)
    requires
        no_placement(requests),
    ensures
        fleet_destroyed(game.player_a.position, game.player_a.hits) ==> fleet_destroyed(
            play(game, requests).player_a.position,
            play(game, requests).player_a.hits,
        ),
        fleet_destroyed(game.player_b.position, game.player_b.hits) ==> fleet_destroyed(
            play(game, requests).player_b.position,
            play(game, requests).player_b.hits,
        ),
{
    let end = play(game, requests);
    lemma_fleets_stay_without_placement(game, requests);
    if fleet_destroyed(game.player_a.position, game.player_a.hits) {
        let fleet = game.player_a.position;
        assert forall|i: int| 0 <= i < fleet.len() implies covers(
            end.player_a.hits,
            #[trigger] fleet[i],
        ) by {
            assert(covers(game.player_a.hits, fleet[i]));
            assert forall|j: int| 0 <= j < fleet[i].len() implies end.player_a.hits.contains(
                #[trigger] fleet[i][j],
            ) by {
                lemma_hits_only_grow(game, requests, fleet[i][j]);
            }
        }
    }
    if fleet_destroyed(game.player_b.position, game.player_b.hits) {
        let fleet = game.player_b.position;
        assert forall|i: int| 0 <= i < fleet.len() implies covers(
            end.player_b.hits,
            #[trigger] fleet[i],
        ) by {
            assert(covers(game.player_b.hits, fleet[i]));
            assert forall|j: int| 0 <= j < fleet[i].len() implies end.player_b.hits.contains(
                #[trigger] fleet[i][j],
            ) by {
                lemma_hits_only_grow(game, requests, fleet[i][j]);
            }
        }
    }
}

/// The turn alternates: where the two players have different identities,
/// a resolved shot hands the turn to the other player, whatever the shot
/// did; the shooter's next shot is out of turn, and the next shot that is
/// resolved is the other player's.
pub proof fn lemma_turn_alternates(
    game: GameView,
    shooter_id: Seq<char>,
    target: Coordinate,
    next_id: Seq<char>,
    next_target: Coordinate,
)
    requires
        game.player_a.id != game.player_b.id,
        shot_step(game, shooter_id, target) is Ok,
    ensures
        ({
            let next = shot_step(game, shooter_id, target)->Ok_0;
            &&& game.on_move == shooter_id
            &&& next.on_move != shooter_id
            &&& seat_of(game, shooter_id) == Some(true) ==> next.on_move == game.player_b.id
            &&& seat_of(game, shooter_id) == Some(false) ==> next.on_move == game.player_a.id
            &&& shot_step(next, shooter_id, next_target) == Err::<GameView, EngineError>(
                EngineError::TurnViolation,
            )
            &&& shot_step(next, next_id, next_target) is Ok ==> seat_of(next, next_id) != seat_of(
                game,
                shooter_id,
            )
        }),
{
}

/// A shot by a player who is not on the move is rejected as a turn
/// violation, whoever the player is, and the match stays as it was.
pub proof fn lemma_out_of_turn_rejected(game: GameView, shooter_id: Seq<char>, target: Coordinate)
    requires
        game.on_move != shooter_id,
    ensures
        shot_step(game, shooter_id, target) == Err::<GameView, EngineError>(
            EngineError::TurnViolation,
        ),
        after(game, Request::Shot { shooter_id, target }) == game,
{
}

/// The match as it is when the request at place `k` comes in.
pub open spec fn state_at(game: GameView, requests: Seq<Request>, k: int) -> GameView {
    play(game, requests.take(k))
}

/// The request at place `k` is a shot, and it is resolved.
pub open spec fn is_resolved_shot(game: GameView, requests: Seq<Request>, k: int) -> bool {
    requests[k] is Shot && step(state_at(game, requests, k), requests[k]) is Ok
}

/// The seat of the player who makes the request at place `k`, a shot.
pub open spec fn shooter_seat(game: GameView, requests: Seq<Request>, k: int) -> Option<bool> {
    seat_of(state_at(game, requests, k), requests[k]->shooter_id)
}

/// The two players have different identities, and the second has joined.
pub open spec fn two_players(game: GameView) -> bool {
    game.player_a.id != game.player_b.id && game.player_b.id.len() != 0
}

/// The state after a request is the state before it, taken one step on.
pub proof fn lemma_state_steps(game: GameView, requests: Seq<Request>, k: int)
    requires
        0 <= k < requests.len(),
    ensures
        state_at(game, requests, k + 1) == after(state_at(game, requests, k), requests[k]),
{
    assert(requests.take(k + 1).drop_last() =~= requests.take(k));
}

/// Once both players have joined under different identities, they keep
/// them through every state.
pub proof fn lemma_two_players_stay(game: GameView, requests: Seq<Request>)
    requires
        two_players(game),
    ensures
        two_players(play(game, requests)),
        play(game, requests).player_a.id == game.player_a.id,
        play(game, requests).player_b.id == game.player_b.id,
{
    lemma_identities_stay(game, requests);
}

/// Between two resolved shots the turn does not move: whatever is
/// requested after a resolved shot, the player it handed the turn to is on
/// the move until the next shot is resolved.
proof fn lemma_turn_waits(game: GameView, requests: Seq<Request>, i: int, m: int)
    requires
        0 <= i < m <= requests.len(),
        forall|k: int| i < k < m ==> !is_resolved_shot(game, requests, k),
    ensures
        state_at(game, requests, m).on_move == state_at(game, requests, i + 1).on_move,
    decreases m - i,
{
    if m > i + 1 {
        lemma_turn_waits(game, requests, i, m - 1);
        lemma_state_steps(game, requests, m - 1);
        assert(!is_resolved_shot(game, requests, m - 1));
    }
}

/// The turn strictly alternates: of two resolved shots with no resolved
/// shot between them, one is the first player's and the other the second
/// player's, whatever the shots did and whatever else was requested in
/// between.
pub proof fn lemma_resolved_shots_alternate(
    game: GameView,
    requests: Seq<Request>,
    i: int,
    j: int,
)
    requires
        two_players(game),
        0 <= i < j < requests.len(),
        is_resolved_shot(game, requests, i),
        is_resolved_shot(game, requests, j),
        forall|k: int| i < k < j ==> !is_resolved_shot(game, requests, k),
    ensures
        shooter_seat(game, requests, i) is Some,
        shooter_seat(game, requests, j) is Some,
        shooter_seat(game, requests, i) != shooter_seat(game, requests, j),
{
    lemma_two_players_stay(game, requests.take(i));
    lemma_two_players_stay(game, requests.take(i + 1));
    lemma_two_players_stay(game, requests.take(j));
    lemma_state_steps(game, requests, i);
    lemma_turn_waits(game, requests, i, j);
}

} // verus!
