//! The session registry: every match that the process knows, by its
//! identifier. It is the single place where matches are opened and found,
//! and every request to a match goes through it.

use crate::board::{ships_of, Coordinate};
use crate::error::EngineError;
use crate::events::feeds;
use crate::game::{
    defender_of, fresh_game, join_step, place_step, reports, seat_of, shot_step, Game, GameView,
};
use crate::messages::{NewGameResponse, PositionRequest, ShotRequest, ShotResponse};
use crate::placement::{valid_fleet, verify_position};
use crate::token::{generate_token, is_token};
use tokio::sync::broadcast::Receiver;
use vstd::hash_map::StringHashMap;
use vstd::prelude::*;

verus! {

/// The registry after a shot in the named session, or the rejection: an
/// unknown session, or what the match itself rejects.
pub open spec fn shot_in(
    sessions: Map<Seq<char>, GameView>,
    game_id: Seq<char>,
    shooter_id: Seq<char>,
    target: Coordinate,
) -> Result<Map<Seq<char>, GameView>, EngineError> {
    if !sessions.contains_key(game_id) {
        Err(EngineError::SessionNotFound)
    } else {
        match shot_step(sessions[game_id], shooter_id, target) {
            Ok(after) => Ok(sessions.insert(game_id, after)),
            Err(e) => Err(e),
        }
    }
}

/// The registry after a placement in the named session, or the rejection.
/// The fleet is checked first, then the session is looked up, then the
/// player.
pub open spec fn place_in(
    sessions: Map<Seq<char>, GameView>,
    game_id: Seq<char>,
    player_id: Seq<char>,
    fleet: Seq<Seq<Coordinate>>,
) -> Result<Map<Seq<char>, GameView>, EngineError> {
    if !valid_fleet(fleet) {
        Err(EngineError::ValidationFailed)
    } else if !sessions.contains_key(game_id) {
        Err(EngineError::SessionNotFound)
    } else {
        match place_step(sessions[game_id], player_id, fleet) {
            Ok(after) => Ok(sessions.insert(game_id, after)),
            Err(e) => Err(e),
        }
    }
}

/// The registry after a player with the given identity joined the named
/// session, or the rejection: an unknown session, or one that is full.
pub open spec fn join_in(
    sessions: Map<Seq<char>, GameView>,
    game_id: Seq<char>,
    player_id: Seq<char>,
) -> Result<Map<Seq<char>, GameView>, EngineError> {
    if !sessions.contains_key(game_id) {
        Err(EngineError::SessionNotFound)
    } else {
        match join_step(sessions[game_id], player_id) {
            Ok(after) => Ok(sessions.insert(game_id, after)),
            Err(e) => Err(e),
        }
    }
}

/// The sessions other than the named one are what they were, and the named
/// one has the channels it had.
pub open spec fn touches_only(
    before: Map<Seq<char>, Game>,
    after: Map<Seq<char>, Game>,
    game_id: Seq<char>,
) -> bool {
    &&& after.dom() == before.dom()
    &&& forall|id: Seq<char>| #[trigger]
        before.contains_key(id) && id != game_id ==> after[id] == before[id]
    &&& before.contains_key(game_id) ==> after[game_id].channels() == before[game_id].channels()
}

/// All matches, by session identifier.
///
/// The matches lie in a vector in the order in which they were opened, and
/// a hash map from identifier to place finds them.
pub struct Registry {
    index: StringHashMap<usize>,
    games: Vec<Game>,
}

impl View for Registry {
    type V = Map<Seq<char>, GameView>;

    /// The model of the registry: the model of each match, by identifier.
    open spec fn view(&self) -> Map<Seq<char>, GameView> {
        self.sessions().map_values(|game: Game| game@)
    }
}

impl Registry {
    /// The index is sound: every identifier leads to a place in the vector,
    /// and no two lead to the same place.
    pub closed spec fn wf(&self) -> bool {
        &&& forall|id: Seq<char>| #[trigger]
            self.index@.contains_key(id) ==> self.index@[id] < self.games@.len()
        &&& forall|id1: Seq<char>, id2: Seq<char>|
            #![trigger self.index@[id1], self.index@[id2]]
            self.index@.contains_key(id1) && self.index@.contains_key(id2) && id1 != id2
                ==> self.index@[id1] != self.index@[id2]
    }

    /// The matches themselves, by identifier: the models that the view
    /// gives, and with them the channels.
    pub closed spec fn sessions(&self) -> Map<Seq<char>, Game> {
        Map::new(
            |id: Seq<char>| self.index@.contains_key(id),
            |id: Seq<char>| self.games@[self.index@[id] as int],
        )
    }

    /// A registry without matches.
    pub fn new() -> (registry: Registry)
        ensures
            registry.wf(),
            registry@ == Map::<Seq<char>, GameView>::empty(),
    {
        let registry = Registry { index: StringHashMap::new(), games: Vec::new() };
        assert(registry@ =~= Map::<Seq<char>, GameView>::empty());
        registry
    }

    /// Place of the match with the given identifier.
    fn find(&self, game_id: &str) -> (place: Option<usize>)
        requires
            self.wf(),
        ensures
            match place {
                Some(at) => self.index@.contains_key(game_id@) && self.index@[game_id@] == at && at
                    < self.games@.len(),
                None => !self.index@.contains_key(game_id@),
            },
    {
        match self.index.get(game_id) {
            Some(at) => Some(*at),
            None => None,
        }
    }

    /// The match with the given identifier, to read.
    pub fn get_session(&self, game_id: &str) -> (outcome: Result<&Game, EngineError>)
        requires
            self.wf(),
        ensures
            match outcome {
                Ok(game) => self@.contains_key(game_id@) && game@ == self@[game_id@] && *game
                    == self.sessions()[game_id@],
                Err(e) => !self@.contains_key(game_id@) && e == EngineError::SessionNotFound,
            },
    {
        match self.find(game_id) {
            Some(at) => Ok(&self.games[at]),
            None => Err(EngineError::SessionNotFound),
        }
    }

    /// The match with the given identifier, to change.
    pub fn get_session_mut(&mut self, game_id: &str) -> (outcome: Result<&mut Game, EngineError>)
        requires
            old(self).wf(),
        ensures
            final(self).wf(),
            match outcome {
                Ok(game) => {
                    &&& old(self)@.contains_key(game_id@)
                    &&& game@ == old(self)@[game_id@]
                    &&& final(self)@ == old(self)@.insert(game_id@, final(game)@)
                    &&& *game == old(self).sessions()[game_id@]
                    &&& final(self).sessions() == old(self).sessions().insert(
                        game_id@,
                        *final(game),
                    )
                },
                Err(e) => {
                    &&& !old(self)@.contains_key(game_id@)
                    &&& e == EngineError::SessionNotFound
                    &&& final(self).sessions() == old(self).sessions()
                },
            },
    {
        match self.find(game_id) {
            Some(at) => Ok(&mut self.games[at]),
            None => Err(EngineError::SessionNotFound),
        }
    }

    /// Files a match under an identifier. A match that was filed under the
    /// same identifier before is replaced.
    pub fn insert(&mut self, game_id: String, game: Game)
        requires
            old(self).wf(),
        ensures
            final(self).wf(),
            final(self)@ == old(self)@.insert(game_id@, game@),
            final(self).sessions() == old(self).sessions().insert(game_id@, game),
    {
        match self.find(game_id.as_str()) {
            Some(at) => {
                self.games[at] = game;
            },
            None => {
                let at = self.games.len();
                self.games.push(game);
                self.index.insert(game_id, at);
            },
        }
        assert(final(self)@ =~= old(self)@.insert(game_id@, game@));
        assert(final(self).sessions() =~= old(self).sessions().insert(game_id@, game));
    }

    /// Opens a session under the given identifier for the player with the
    /// given identity: the second slot is free and the first player is on
    /// the move.
    pub fn open_session(&mut self, game_id: String, player_id: String) -> (response:
        NewGameResponse)
        requires
            old(self).wf(),
        ensures
            final(self).wf(),
            final(self)@ == old(self)@.insert(game_id@, fresh_game(player_id@)),
            final(self).sessions().remove(game_id@) == old(self).sessions().remove(game_id@),
            final(self).sessions()[game_id@].has_room(),
            response.game_id@ == game_id@,
            response.player_id@ == player_id@,
    {
        let response = NewGameResponse { game_id: game_id.clone(), player_id: player_id.clone() };
        self.insert(game_id, Game::open(player_id));
        proof {
            assert(final(self).sessions().remove(game_id@) =~= old(self).sessions().remove(
                game_id@,
            ));
        }
        response
    }

    /// Opens a session under the given identifier, unless a session has it
    /// already: an identifier that is in use is refused, and the session
    /// that has it stays as it is.
    pub fn open_fresh_session(&mut self, game_id: String, player_id: String) -> (outcome: Result<
        NewGameResponse,
        EngineError,
    >)
        requires
            old(self).wf(),
        ensures
            final(self).wf(),
            old(self)@.contains_key(game_id@) ==> {
                &&& outcome is Err
                &&& outcome->Err_0 == EngineError::IdentifierUnavailable
                &&& final(self).sessions() == old(self).sessions()
            },
            !old(self)@.contains_key(game_id@) ==> {
                &&& outcome is Ok
                &&& outcome->Ok_0.game_id@ == game_id@
                &&& outcome->Ok_0.player_id@ == player_id@
                &&& final(self)@ == old(self)@.insert(game_id@, fresh_game(player_id@))
                &&& final(self).sessions().remove(game_id@) == old(self).sessions()
                &&& final(self).sessions()[game_id@].has_room()
            },
    {
        if self.index.contains_key(game_id.as_str()) {
            return Err(EngineError::IdentifierUnavailable);
        }
        let response = self.open_session(game_id, player_id);
        proof {
            assert(final(self).sessions().remove(game_id@) =~= old(self).sessions());
        }
        Ok(response)
    }

    /// Opens a session under a fresh identifier, for a player with a fresh
    /// identity. No session that exists is touched.
    ///
    /// The identifiers come from the operating system's random source. When
    /// that source fails, or repeats the identifier of a session that
    /// exists, nothing is opened.
    pub fn new_game(&mut self) -> (outcome: Result<NewGameResponse, EngineError>)
        requires
            old(self).wf(),
        ensures
            final(self).wf(),
            match outcome {
                Ok(response) => {
                    &&& is_token(response.game_id@)
                    &&& is_token(response.player_id@)
                    &&& !old(self)@.contains_key(response.game_id@)
                    &&& final(self)@ == old(self)@.insert(
                        response.game_id@,
                        fresh_game(response.player_id@),
                    )
                    &&& final(self).sessions().remove(response.game_id@) == old(self).sessions()
                    &&& final(self).sessions()[response.game_id@].has_room()
                },
                Err(e) => e == EngineError::IdentifierUnavailable && final(self).sessions() == old(
                    self,
                ).sessions(),
            },
    {
        let game_id = match generate_token() {
            Ok(token) => token,
            Err(e) => {
                return Err(e);
            },
        };
        let player_id = match generate_token() {
            Ok(token) => token,
            Err(e) => {
                return Err(e);
            },
        };
        self.open_fresh_session(game_id, player_id)
    }

    /// Seats a player with the given identity as the second player of the
    /// named session. The first join wins.
    pub fn seat(&mut self, game_id: &str, player_id: String) -> (outcome: Result<
        NewGameResponse,
        EngineError,
    >)
        requires
            old(self).wf(),
        ensures
            final(self).wf(),
            match join_in(old(self)@, game_id@, player_id@) {
                Ok(after) => {
                    &&& outcome is Ok
                    &&& outcome->Ok_0.game_id@ == game_id@
                    &&& outcome->Ok_0.player_id@ == player_id@
                    &&& final(self)@ == after
                    &&& touches_only(old(self).sessions(), final(self).sessions(), game_id@)
                },
                Err(e) => {
                    &&& outcome is Err
                    &&& outcome->Err_0 == e
                    &&& final(self).sessions() == old(self).sessions()
                },
            },
    {
        match self.find(game_id) {
            Some(at) => {
                let response = NewGameResponse {
                    game_id: game_id.to_owned(),
                    player_id: player_id.clone(),
                };
                match self.games[at].join(player_id) {
                    Ok(()) => {
                        proof {
                            assert(final(self)@ =~= old(self)@.insert(
                                game_id@,
                                final(self).games@[at as int]@,
                            ));
                        }
                        Ok(response)
                    },
                    Err(e) => {
                        proof {
                            assert(final(self).games@ =~= old(self).games@);
                            assert(final(self).sessions() =~= old(self).sessions());
                        }
                        Err(e)
                    },
                }
            },
            None => Err(EngineError::SessionNotFound),
        }
    }

    /// Seats a newcomer with the given identity as the second player of the
    /// named session, unless the identity is the first player's: two players
    /// of one session never share an identity. The first join wins.
    pub fn seat_newcomer(&mut self, game_id: &str, player_id: String) -> (outcome: Result<
        NewGameResponse,
        EngineError,
    >)
        requires
            old(self).wf(),
        ensures
            final(self).wf(),
            match join_in(old(self)@, game_id@, player_id@) {
                Err(e) => {
                    &&& outcome is Err
                    &&& outcome->Err_0 == e
                    &&& final(self).sessions() == old(self).sessions()
                },
                Ok(after) => if player_id@ == old(self)@[game_id@].player_a.id {
                    &&& outcome is Err
                    &&& outcome->Err_0 == EngineError::IdentifierUnavailable
                    &&& final(self).sessions() == old(self).sessions()
                } else {
                    &&& outcome is Ok
                    &&& outcome->Ok_0.game_id@ == game_id@
                    &&& outcome->Ok_0.player_id@ == player_id@
                    &&& final(self)@ == after
                    &&& touches_only(old(self).sessions(), final(self).sessions(), game_id@)
                },
            },
    {
        let at = match self.find(game_id) {
            Some(at) => at,
            None => {
                return Err(EngineError::SessionNotFound);
            },
        };
        if self.games[at].is_full() {
            return Err(EngineError::SessionFull);
        }
        if self.games[at].player_a().id().as_str().eq(player_id.as_str()) {
            return Err(EngineError::IdentifierUnavailable);
        }
        self.seat(game_id, player_id)
    }

    /// Lets a new player join the named session, under a fresh identity
    /// that differs from the first player's.
    ///
    /// An unknown session and a full one are rejected before an identity is
    /// drawn. When the random source fails, or repeats the first player's
    /// identity, nobody is seated.
    pub fn join_game(&mut self, game_id: &str) -> (outcome: Result<NewGameResponse, EngineError>)
        requires
            old(self).wf(),
        ensures
            final(self).wf(),
            match outcome {
                Ok(response) => {
                    &&& is_token(response.player_id@)
                    &&& response.game_id@ == game_id@
                    &&& old(self)@.contains_key(game_id@)
                    &&& response.player_id@ != old(self)@[game_id@].player_a.id
                    &&& join_in(old(self)@, game_id@, response.player_id@) == Ok::<
                        Map<Seq<char>, GameView>,
                        EngineError,
                    >(final(self)@)
                    &&& touches_only(old(self).sessions(), final(self).sessions(), game_id@)
                },
                Err(e) => {
                    &&& final(self).sessions() == old(self).sessions()
                    &&& match join_in(old(self)@, game_id@, Seq::empty()) {
                        Ok(_) => e == EngineError::IdentifierUnavailable,
                        Err(rejection) => e == rejection,
                    }
                },
            },
    {
        let full = match self.get_session(game_id) {
            Ok(game) => game.is_full(),
            Err(e) => {
                return Err(e);
            },
        };
        if full {
            return Err(EngineError::SessionFull);
        }
        let player_id = match generate_token() {
            Ok(token) => token,
            Err(e) => {
                return Err(e);
            },
        };
        self.seat_newcomer(game_id, player_id)
    }

    /// Places a player's fleet in the named session, replacing the one
    /// placed before.
    pub fn position(&mut self, game_id: &str, req: PositionRequest) -> (outcome: Result<
        (),
        EngineError,
    >)
        requires
            old(self).wf(),
        ensures
            final(self).wf(),
            match place_in(old(self)@, game_id@, req.player_id@, ships_of(&req.position)) {
                Ok(after) => outcome is Ok && final(self)@ == after && touches_only(
                    old(self).sessions(),
                    final(self).sessions(),
                    game_id@,
                ),
                Err(e) => outcome == Err::<(), EngineError>(e) && final(self).sessions() == old(
                    self,
                ).sessions(),
            },
    {
        if !verify_position(&req.position) {
            return Err(EngineError::ValidationFailed);
        }
        match self.find(game_id) {
            Some(at) => {
                let placed = self.games[at].set_fleet(req.player_id.as_str(), req.position);
                proof {
                    if placed is Ok {
                        assert(final(self)@ =~= old(self)@.insert(
                            game_id@,
                            final(self).games@[at as int]@,
                        ));
                    } else {
                        assert(final(self).games@ =~= old(self).games@);
                        assert(final(self).sessions() =~= old(self).sessions());
                    }
                }
                placed
            },
            None => Err(EngineError::SessionNotFound),
        }
    }

    /// Resolves a shot in the named session, and announces it to the player
    /// shot at.
    pub fn shot(&mut self, game_id: &str, req: &ShotRequest) -> (outcome: Result<
        ShotResponse,
        EngineError,
    >)
        requires
            old(self).wf(),
        ensures
            final(self).wf(),
            match shot_in(old(self)@, game_id@, req.player_id@, req.target()) {
                Ok(after) => {
                    &&& outcome is Ok
                    &&& reports(
                        outcome->Ok_0,
                        defender_of(old(self)@[game_id@], req.player_id@),
                        req.target(),
                    )
                    &&& final(self)@ == after
                    &&& touches_only(old(self).sessions(), final(self).sessions(), game_id@)
                },
                Err(e) => outcome == Err::<ShotResponse, EngineError>(e) && final(self).sessions()
                    == old(self).sessions(),
            },
    {
        match self.find(game_id) {
            Some(at) => {
                let resolved = self.games[at].apply_shot(req.player_id.as_str(), req.target());
                proof {
                    if resolved is Ok {
                        assert(final(self)@ =~= old(self)@.insert(
                            game_id@,
                            final(self).games@[at as int]@,
                        ));
                    } else {
                        assert(final(self).games@ =~= old(self).games@);
                        assert(final(self).sessions() =~= old(self).sessions());
                    }
                }
                resolved
            },
            None => Err(EngineError::SessionNotFound),
        }
    }

    /// A new subscriber to the shots at the named player of the named
    /// session, on that player's own channel.
    pub fn events(&self, game_id: &str, player_id: &str) -> (outcome: Result<
        Receiver<ShotResponse>,
        EngineError,
    >)
        requires
            self.wf(),
        ensures
            match outcome {
                Ok(receiver) => {
                    &&& self@.contains_key(game_id@)
                    &&& seat_of(self@[game_id@], player_id@) is Some
                    &&& feeds(
                        self.sessions()[game_id@].channel_of(
                            seat_of(self@[game_id@], player_id@)->Some_0,
                        ),
                        receiver,
                    )
                },
                Err(e) => if !self@.contains_key(game_id@) {
                    e == EngineError::SessionNotFound
                } else {
                    seat_of(self@[game_id@], player_id@) is None && e
                        == EngineError::PlayerNotFound
                },
            },
    {
        match self.find(game_id) {
            Some(at) => self.games[at].subscribe(player_id),
            None => Err(EngineError::SessionNotFound),
        }
    }
}

} // verus!
