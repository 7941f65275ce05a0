//! One match: two player slots, the turn, and the operations that change
//! them. Each operation is stated against a step of the game's model, and
//! a rejected request changes nothing.

use crate::board::{in_fleet, ships_of, Coordinate};
use crate::combat::{fleet_destroyed, hit_length, is_fleet_destroyed, is_hit, is_sunk, sunk};
use crate::error::EngineError;
use crate::events::{feeds, open_channel, publish, room_of, subscribe, EVENT_CAPACITY};
use crate::messages::ShotResponse;
use crate::placement::{valid_fleet, verify_position};
use tokio::sync::broadcast::{Receiver, Sender};
use vstd::prelude::*;

verus! {

/// `str`'s equality: two string slices are equal exactly when they hold the
/// same characters.
pub assume_specification[ <str as PartialEq>::eq ](a: &str, b: &str) -> (equal: bool)
    ensures
        equal == (a@ == b@),
;

/// The model of a player slot.
pub ghost struct PlayerView {
    /// The player's identity; empty while nobody holds the slot.
    pub id: Seq<char>,
    /// The player's ships; none until a fleet is placed.
    pub position: Seq<Seq<Coordinate>>,
    /// The opponent's shots that struck a ship, in the order they came.
    pub hits: Seq<Coordinate>,
    /// The opponent's shots that struck water, in the order they came.
    pub misses: Seq<Coordinate>,
}

/// The model of a match.
pub ghost struct GameView {
    pub player_a: PlayerView,
    pub player_b: PlayerView,
    /// Identity of the player whose turn it is.
    pub on_move: Seq<char>,
}

/// A slot as it is before anything happened to it.
pub open spec fn fresh_player(id: Seq<char>) -> PlayerView {
    PlayerView { id, position: Seq::empty(), hits: Seq::empty(), misses: Seq::empty() }
}

/// A match as it is when its first player opens it: the second slot is
/// free, and the first player is on the move.
pub open spec fn fresh_game(player_id: Seq<char>) -> GameView {
    GameView {
        player_a: fresh_player(player_id),
        player_b: fresh_player(Seq::empty()),
        on_move: player_id,
    }
}

/// Which slot an identity names: `Some(true)` for the first, `Some(false)`
/// for the second, `None` where it names neither. The empty identity names
/// no slot, so that nobody can act for a slot that nobody holds.
pub open spec fn seat_of(game: GameView, player_id: Seq<char>) -> Option<bool> {
    if player_id.len() == 0 {
        None
    } else if game.player_a.id == player_id {
        Some(true)
    } else if game.player_b.id == player_id {
        Some(false)
    } else {
        None
    }
}

/// The slot after a shot at `target` came in: the shot is recorded among
/// the hits where a ship lies on the cell, among the misses where none
/// does.
pub open spec fn struck(defender: PlayerView, target: Coordinate) -> PlayerView {
    if in_fleet(defender.position, target) {
        PlayerView { hits: defender.hits.push(target), ..defender }
    } else {
        PlayerView { misses: defender.misses.push(target), ..defender }
    }
}

/// `outcome` is the report of a shot at `target` on the slot `defender`,
/// which is the slot as it was before the shot.
pub open spec fn reports(outcome: ShotResponse, defender: PlayerView, target: Coordinate) -> bool {
    let after = struck(defender, target);
    &&& outcome.shot == target
    &&& outcome.hit == in_fleet(defender.position, target)
    &&& outcome.sunk == sunk(defender.position, after.hits, target)
    &&& outcome.length == hit_length(defender.position, target)
    &&& outcome.fleet_destroyed == fleet_destroyed(defender.position, after.hits)
}

/// One step of the shot state machine: the rejection, or the match after
/// the shot. The shooter must be on the move and hold a slot; the other slot
/// takes the shot and gets the turn, whatever the shot did.
pub open spec fn shot_step(game: GameView, shooter_id: Seq<char>, target: Coordinate) -> Result<
    GameView,
    EngineError,
> {
    if game.on_move != shooter_id {
        Err(EngineError::TurnViolation)
    } else {
        match seat_of(game, shooter_id) {
            None => Err(EngineError::PlayerNotFound),
            Some(true) => Ok(
                GameView {
                    player_b: struck(game.player_b, target),
                    on_move: game.player_b.id,
                    ..game
                },
            ),
            Some(false) => Ok(
                GameView {
                    player_a: struck(game.player_a, target),
                    on_move: game.player_a.id,
                    ..game
                },
            ),
        }
    }
}

/// The slot that a shot by `shooter_id` lands on.
pub open spec fn defender_of(game: GameView, shooter_id: Seq<char>) -> PlayerView {
    if seat_of(game, shooter_id) == Some(true) {
        game.player_b
    } else {
        game.player_a
    }
}

/// One step of placement: the rejection, or the match after the player's
/// fleet was replaced. The fleet is checked before the player is looked up.
pub open spec fn place_step(
    game: GameView,
    player_id: Seq<char>,
    fleet: Seq<Seq<Coordinate>>,
) -> Result<GameView, EngineError> {
    if !valid_fleet(fleet) {
        Err(EngineError::ValidationFailed)
    } else {
        match seat_of(game, player_id) {
            None => Err(EngineError::PlayerNotFound),
            Some(true) => Ok(
                GameView { player_a: PlayerView { position: fleet, ..game.player_a }, ..game },
            ),
            Some(false) => Ok(
                GameView { player_b: PlayerView { position: fleet, ..game.player_b }, ..game },
            ),
        }
    }
}

/// One step of joining: the first join takes the free slot, and a join to a
/// match that has its second player is rejected.
pub open spec fn join_step(game: GameView, player_id: Seq<char>) -> Result<GameView, EngineError> {
    if game.player_b.id.len() != 0 {
        Err(EngineError::SessionFull)
    } else {
        Ok(GameView { player_b: PlayerView { id: player_id, ..game.player_b }, ..game })
    }
}

/// A slot's fleet is either not placed yet or legal.
pub open spec fn fleet_settled(player: PlayerView) -> bool {
    player.position.len() == 0 || valid_fleet(player.position)
}

impl GameView {
    /// Both slots hold no fleet or a legal one.
    pub open spec fn wf(self) -> bool {
        fleet_settled(self.player_a) && fleet_settled(self.player_b)
    }
}

/// A player slot: identity, fleet, the shots taken, and the channel on which
/// those shots are announced to the player.
#[derive(Debug)]
pub struct PlayerInfo {
    id: String,
    position: Vec<Vec<Coordinate>>,
    hits: Vec<Coordinate>,
    misses: Vec<Coordinate>,
    events: Sender<ShotResponse>,
}

/// A match between two players.
#[derive(Debug)]
pub struct Game {
    player_a: PlayerInfo,
    player_b: PlayerInfo,
    on_move: String,
}

impl View for PlayerInfo {
    type V = PlayerView;

    closed spec fn view(&self) -> PlayerView {
        PlayerView {
            id: self.id@,
            position: ships_of(&self.position),
            hits: self.hits@,
            misses: self.misses@,
        }
    }
}

impl View for Game {
    type V = GameView;

    closed spec fn view(&self) -> GameView {
        GameView { player_a: self.player_a@, player_b: self.player_b@, on_move: self.on_move@ }
    }
}

impl PlayerInfo {
    /// The channel on which the shots at this player are announced.
    pub closed spec fn channel(&self) -> Sender<ShotResponse> {
        self.events
    }

    /// A free slot with the given identity and channel.
    pub fn new(id: String, events: Sender<ShotResponse>) -> (player: PlayerInfo)
        ensures
            player@ == fresh_player(id@),
            player.channel() == events,
    {
        let player = PlayerInfo {
            id,
            position: Vec::new(),
            hits: Vec::new(),
            misses: Vec::new(),
            events,
        };
        assert(ships_of(&player.position) =~= Seq::empty());
        player
    }

    /// Takes a shot: records it among the hits or the misses and reports
    /// what it did. The same cell may be shot at again; it is then recorded
    /// again, which changes neither what is sunk nor what is destroyed.
    pub fn receive_shot(&mut self, target: Coordinate) -> (outcome: ShotResponse)
        ensures
            final(self)@ == struck(old(self)@, target),
            final(self).channel() == old(self).channel(),
            reports(outcome, old(self)@, target),
    {
        let (hit, length) = is_hit(&self.position, &target);
        if hit {
            self.hits.push(target);
        } else {
            self.misses.push(target);
        }
        let sunk = is_sunk(&self.position, &self.hits, &target);
        let fleet_destroyed = is_fleet_destroyed(&self.position, &self.hits);
        ShotResponse { shot: target, hit, sunk, length, fleet_destroyed }
    }

    /// The player's identity; empty while nobody holds the slot.
    pub fn id(&self) -> (id: &String)
        ensures
            id@ == self@.id,
    {
        &self.id
    }

    /// The player's fleet; no ships until one is placed.
    pub fn position(&self) -> (position: &Vec<Vec<Coordinate>>)
        ensures
            ships_of(position) == self@.position,
    {
        &self.position
    }

    /// The opponent's shots that struck a ship.
    pub fn hits(&self) -> (hits: &Vec<Coordinate>)
        ensures
            hits@ == self@.hits,
    {
        &self.hits
    }

    /// The opponent's shots that struck water.
    pub fn misses(&self) -> (misses: &Vec<Coordinate>)
        ensures
            misses@ == self@.misses,
    {
        &self.misses
    }
}

/// Which slot the identity names: `Ok(true)` for the first player,
/// `Ok(false)` for the second.
pub fn i_am_player_a(game: &Game, player_id: &str) -> (seat: Result<bool, EngineError>)
    ensures
        seat == match seat_of(game@, player_id@) {
            Some(first) => Ok::<bool, EngineError>(first),
            None => Err(EngineError::PlayerNotFound),
        },
{
    if player_id.is_empty() {
        Err(EngineError::PlayerNotFound)
    } else if game.player_a.id.as_str().eq(player_id) {
        Ok(true)
    } else if game.player_b.id.as_str().eq(player_id) {
        Ok(false)
    } else {
        Err(EngineError::PlayerNotFound)
    }
}

impl Game {
    /// The channels on which the shots at the first and at the second player
    /// are announced.
    pub closed spec fn channels(&self) -> (Sender<ShotResponse>, Sender<ShotResponse>) {
        (self.player_a.channel(), self.player_b.channel())
    }

    /// The channel on which the shots at the named player are announced:
    /// the first player's for the first seat, the second player's otherwise.
    pub open spec fn channel_of(&self, first_seat: bool) -> Sender<ShotResponse> {
        if first_seat {
            self.channels().0
        } else {
            self.channels().1
        }
    }

    /// Each player's channel keeps at least `EVENT_CAPACITY` outcomes for a
    /// subscriber that has not read them yet.
    pub open spec fn has_room(&self) -> bool {
        room_of(self.channels().0) >= EVENT_CAPACITY && room_of(self.channels().1)
            >= EVENT_CAPACITY
    }

    /// A match that its first player has just opened, with a channel for
    /// each slot.
    pub fn new(
        player_id: String,
        events_a: Sender<ShotResponse>,
        events_b: Sender<ShotResponse>,
    ) -> (game: Game)
        ensures
            game@ == fresh_game(player_id@),
            game@.wf(),
            game.channels() == (events_a, events_b),
    {
        let on_move = player_id.clone();
        Game {
            player_a: PlayerInfo::new(player_id, events_a),
            player_b: PlayerInfo::new(String::new(), events_b),
            on_move,
        }
    }

    /// A match that its first player has just opened, with a fresh channel
    /// for each slot.
    pub fn open(player_id: String) -> (game: Game)
        ensures
            game@ == fresh_game(player_id@),
            game@.wf(),
            game.has_room(),
    {
        Game::new(player_id, open_channel(EVENT_CAPACITY), open_channel(EVENT_CAPACITY))
    }

    /// Seats the second player. The first join wins: a match that has its
    /// second player rejects every later join and stays as it is.
    pub fn join(&mut self, player_id: String) -> (outcome: Result<(), EngineError>)
        ensures
            match join_step(old(self)@, player_id@) {
                Ok(after) => outcome is Ok && final(self)@ == after,
                Err(e) => outcome == Err::<(), EngineError>(e) && *final(self) == *old(self),
            },
            final(self).channels() == old(self).channels(),
            old(self)@.wf() ==> final(self)@.wf(),
    {
        if !self.player_b.id.as_str().is_empty() {
            return Err(EngineError::SessionFull);
        }
        self.player_b.id = player_id;
        Ok(())
    }

    /// Places a player's fleet, replacing the one placed before. A fleet
    /// that breaks a rule is rejected before the player is looked up, and a
    /// rejection leaves the match as it is.
    pub fn place(&mut self, player_id: &str, position: Vec<Vec<Coordinate>>) -> (outcome: Result<
        (),
        EngineError,
    >)
        ensures
            match place_step(old(self)@, player_id@, ships_of(&position)) {
                Ok(after) => outcome is Ok && final(self)@ == after,
                Err(e) => outcome == Err::<(), EngineError>(e) && *final(self) == *old(self),
            },
            final(self).channels() == old(self).channels(),
            old(self)@.wf() ==> final(self)@.wf(),
    {
        if !verify_position(&position) {
            return Err(EngineError::ValidationFailed);
        }
        self.set_fleet(player_id, position)
    }

    /// Places a fleet that has passed the validator.
    pub(crate) fn set_fleet(&mut self, player_id: &str, position: Vec<Vec<Coordinate>>) -> (outcome:
        Result<(), EngineError>)
        requires
            valid_fleet(ships_of(&position)),
        ensures
            match place_step(old(self)@, player_id@, ships_of(&position)) {
                Ok(after) => outcome is Ok && final(self)@ == after,
                Err(e) => outcome == Err::<(), EngineError>(e) && *final(self) == *old(self),
            },
            final(self).channels() == old(self).channels(),
            old(self)@.wf() ==> final(self)@.wf(),
    {
        match i_am_player_a(self, player_id) {
            Ok(true) => {
                self.player_a.position = position;
                Ok(())
            },
            Ok(false) => {
                self.player_b.position = position;
                Ok(())
            },
            Err(e) => Err(e),
        }
    }

    /// Whether the match has its second player.
    pub fn is_full(&self) -> (full: bool)
        ensures
            full == (self@.player_b.id.len() != 0),
    {
        !self.player_b.id.as_str().is_empty()
    }

    /// Resolves one shot. The shooter must be on the move and hold a slot;
    /// otherwise the shot is rejected and nothing changes. The other player
    /// takes the shot, gets the turn whatever the shot did, and is sent the
    /// outcome that the shooter gets back.
    ///
    /// A match goes on after a fleet is destroyed: shots are resolved as
    /// before, and it is for the caller to end the match. A shot that is
    /// fired before the second player has joined hands the turn to the
    /// empty identity, which names nobody.
    pub fn apply_shot(&mut self, shooter_id: &str, target: Coordinate) -> (outcome: Result<
        ShotResponse,
        EngineError,
    >)
        ensures
            match shot_step(old(self)@, shooter_id@, target) {
                Ok(after) => {
                    &&& outcome is Ok
                    &&& reports(outcome->Ok_0, defender_of(old(self)@, shooter_id@), target)
                    &&& final(self)@ == after
                },
                Err(e) => outcome == Err::<ShotResponse, EngineError>(e) && *final(self) == *old(
                    self,
                ),
            },
            final(self).channels() == old(self).channels(),
            old(self)@.wf() ==> final(self)@.wf(),
    {
        if !self.on_move.as_str().eq(shooter_id) {
            return Err(EngineError::TurnViolation);
        }
        match i_am_player_a(self, shooter_id) {
            Ok(true) => {
                let outcome = self.player_b.receive_shot(target);
                self.on_move = self.player_b.id.clone();
                publish(&self.player_b.events, outcome);
                Ok(outcome)
            },
            Ok(false) => {
                let outcome = self.player_a.receive_shot(target);
                self.on_move = self.player_a.id.clone();
                publish(&self.player_a.events, outcome);
                Ok(outcome)
            },
            Err(e) => Err(e),
        }
    }

    /// A new subscriber to the shots at the named player, on that player's
    /// own channel. An identity that names neither player is rejected.
    pub fn subscribe(&self, player_id: &str) -> (outcome: Result<
        Receiver<ShotResponse>,
        EngineError,
    >)
        ensures
            match seat_of(self@, player_id@) {
                Some(first_seat) => outcome is Ok && feeds(
                    self.channel_of(first_seat),
                    outcome->Ok_0,
                ),
                None => outcome is Err && outcome->Err_0 == EngineError::PlayerNotFound,
            },
    {
        match i_am_player_a(self, player_id) {
            Ok(true) => Ok(subscribe(&self.player_a.events)),
            Ok(false) => Ok(subscribe(&self.player_b.events)),
            Err(e) => Err(e),
        }
    }

    /// The first player's slot.
    pub fn player_a(&self) -> (player: &PlayerInfo)
        ensures
            player@ == self@.player_a,
    {
        &self.player_a
    }

    /// The second player's slot.
    pub fn player_b(&self) -> (player: &PlayerInfo)
        ensures
            player@ == self@.player_b,
    {
        &self.player_b
    }

    /// Identity of the player whose turn it is.
    pub fn on_move(&self) -> (id: &String)
        ensures
            id@ == self@.on_move,
    {
        &self.on_move
    }
}

} // verus!
