use battleship_engine::board::Coordinate;
use battleship_engine::error::EngineError;
use battleship_engine::events::{on_stream_event, StreamAction, StreamEvent, EVENT_CAPACITY};
use battleship_engine::game::{Game, PlayerInfo};
use battleship_engine::messages::{PositionRequest, ShotRequest, ShotResponse};
use battleship_engine::registry::Registry;
use tokio::sync::broadcast::channel;
use tokio::sync::broadcast::error::TryRecvError;

fn ship(cells: &[(u32, u32)]) -> Vec<Coordinate> {
    cells.iter().map(|&(x, y)| Coordinate { x, y }).collect()
}

fn fleet() -> Vec<Vec<Coordinate>> {
    vec![
        ship(&[(9, 0), (9, 1), (9, 2), (9, 3), (9, 4)]),
        ship(&[(7, 0), (7, 1), (7, 2), (7, 3)]),
        ship(&[(3, 0), (3, 1), (3, 2)]),
        ship(&[(1, 7), (2, 7), (3, 7)]),
        ship(&[(5, 5), (5, 6)]),
    ]
}

fn shot_by(player_id: &str, x: u32, y: u32) -> ShotRequest {
    ShotRequest { player_id: player_id.to_string(), x, y }
}

fn ready() -> (Registry, String, String, String) {
    let mut registry = Registry::new();
    let opened = registry.new_game().unwrap();
    let joined = registry.join_game(&opened.game_id).unwrap();
    for player in [&opened.player_id, &joined.player_id] {
        let request = PositionRequest { player_id: player.clone(), position: fleet() };
        registry.position(&opened.game_id, request).unwrap();
    }
    (registry, opened.game_id, opened.player_id, joined.player_id)
}

#[test]
fn scenario_each_player_hears_the_shots_at_their_own_fleet() {
    let (mut registry, sid, a, b) = ready();
    let mut to_a = registry.events(&sid, &a).unwrap();
    let mut to_b = registry.events(&sid, &b).unwrap();
    let first = registry.shot(&sid, &shot_by(&a, 5, 5)).unwrap();
    let second = registry.shot(&sid, &shot_by(&b, 0, 0)).unwrap();
    let third = registry.shot(&sid, &shot_by(&a, 5, 6)).unwrap();
    let fourth = registry.shot(&sid, &shot_by(&b, 9, 0)).unwrap();
    assert_eq!(to_b.try_recv(), Ok(first));
    assert_eq!(to_b.try_recv(), Ok(third));
    assert_eq!(to_b.try_recv(), Err(TryRecvError::Empty));
    assert_eq!(to_a.try_recv(), Ok(second));
    assert_eq!(to_a.try_recv(), Ok(fourth));
    assert_eq!(to_a.try_recv(), Err(TryRecvError::Empty));
    assert!(third.sunk);
    assert!(fourth.hit);
}

#[test]
fn every_subscriber_gets_every_outcome() {
    let (mut registry, sid, a, b) = ready();
    let mut one = registry.events(&sid, &b).unwrap();
    let mut two = registry.events(&sid, &b).unwrap();
    let outcome = registry.shot(&sid, &shot_by(&a, 1, 7)).unwrap();
    assert_eq!(one.try_recv(), Ok(outcome));
    assert_eq!(two.try_recv(), Ok(outcome));
}

#[test]
fn outcomes_are_not_kept_for_later_subscribers() {
    let (mut registry, sid, a, b) = ready();
    registry.shot(&sid, &shot_by(&a, 1, 7)).unwrap();
    let mut late = registry.events(&sid, &b).unwrap();
    assert_eq!(late.try_recv(), Err(TryRecvError::Empty));
    registry.shot(&sid, &shot_by(&b, 0, 0)).unwrap();
    let outcome = registry.shot(&sid, &shot_by(&a, 2, 7)).unwrap();
    assert_eq!(late.try_recv(), Ok(outcome));
}

#[test]
fn rejected_shot_is_not_announced() {
    let (mut registry, sid, a, b) = ready();
    let mut to_a = registry.events(&sid, &a).unwrap();
    let mut to_b = registry.events(&sid, &b).unwrap();
    assert_eq!(registry.shot(&sid, &shot_by(&b, 0, 0)), Err(EngineError::TurnViolation));
    assert_eq!(to_a.try_recv(), Err(TryRecvError::Empty));
    assert_eq!(to_b.try_recv(), Err(TryRecvError::Empty));
}

#[test]
fn subscriber_may_leave_at_any_time() {
    let (mut registry, sid, a, b) = ready();
    let gone = registry.events(&sid, &b).unwrap();
    drop(gone);
    let outcome = registry.shot(&sid, &shot_by(&a, 5, 5)).unwrap();
    assert!(outcome.hit);
    assert_eq!(registry.get_session(&sid).unwrap().on_move(), &b);
}

#[test]
fn slow_subscriber_is_told_that_outcomes_were_lost() {
    let (mut registry, sid, a, b) = ready();
    let mut slow = registry.events(&sid, &b).unwrap();
    let mut sent: Vec<ShotResponse> = Vec::new();
    // the channel keeps sixteen outcomes: its capacity, rounded up to a power of two
    assert!(EVENT_CAPACITY >= 10);
    for n in 0..17 {
        sent.push(registry.shot(&sid, &shot_by(&a, n % 10, n / 10)).unwrap());
        registry.shot(&sid, &shot_by(&b, 0, 0)).unwrap();
    }
    assert_eq!(slow.try_recv(), Err(TryRecvError::Lagged(1)));
    for outcome in &sent[1..] {
        assert_eq!(slow.try_recv(), Ok(*outcome));
    }
    assert_eq!(slow.try_recv(), Err(TryRecvError::Empty));
}

#[test]
fn ten_outcomes_are_buffered_for_a_subscriber() {
    let (mut registry, sid, a, b) = ready();
    let mut reader = registry.events(&sid, &b).unwrap();
    let mut sent: Vec<ShotResponse> = Vec::new();
    for n in 0..10 {
        sent.push(registry.shot(&sid, &shot_by(&a, n, 9)).unwrap());
        registry.shot(&sid, &shot_by(&b, 0, 0)).unwrap();
    }
    for outcome in &sent {
        assert_eq!(reader.try_recv(), Ok(*outcome));
    }
}

#[test]
fn events_of_unknown_session_are_not_found() {
    let (registry, _, a, _) = ready();
    assert!(matches!(registry.events("nowhere", &a), Err(EngineError::SessionNotFound)));
}

#[test]
fn events_of_a_stranger_are_rejected() {
    let (registry, sid, _, _) = ready();
    assert!(matches!(registry.events(&sid, "stranger"), Err(EngineError::PlayerNotFound)));
}

#[test]
fn stream_delivers_reports_lag_and_ends() {
    let outcome = ShotResponse {
        shot: Coordinate { x: 1, y: 2 },
        hit: true,
        sunk: false,
        length: 3,
        fleet_destroyed: false,
    };
    assert_eq!(on_stream_event(StreamEvent::Outcome(outcome)), StreamAction::Deliver(outcome));
    assert_eq!(on_stream_event(StreamEvent::Lagged(4)), StreamAction::ReportLag);
    assert_eq!(on_stream_event(StreamEvent::Closed), StreamAction::Finish);
}

#[test]
fn match_publishes_on_the_channels_it_was_given() {
    let (to_alice, mut alice_hears) = channel::<ShotResponse>(4);
    let (to_bob, mut bob_hears) = channel::<ShotResponse>(4);
    let mut game = Game::new("alice".to_string(), to_alice, to_bob);
    game.join("bob".to_string()).unwrap();
    game.place("bob", fleet()).unwrap();
    let first = game.apply_shot("alice", Coordinate { x: 5, y: 5 }).unwrap();
    assert_eq!(bob_hears.try_recv(), Ok(first));
    assert_eq!(alice_hears.try_recv(), Err(TryRecvError::Empty));
    let second = game.apply_shot("bob", Coordinate { x: 5, y: 5 }).unwrap();
    assert_eq!(alice_hears.try_recv(), Ok(second));
    assert_eq!(bob_hears.try_recv(), Err(TryRecvError::Empty));
    assert!(first.hit);
    assert!(!second.hit);
}

#[test]
fn match_hands_out_subscribers_by_identity() {
    let mut game = Game::open("alice".to_string());
    game.join("bob".to_string()).unwrap();
    let mut bob_hears = game.subscribe("bob").unwrap();
    assert!(matches!(game.subscribe("carol"), Err(EngineError::PlayerNotFound)));
    assert!(matches!(game.subscribe(""), Err(EngineError::PlayerNotFound)));
    let outcome = game.apply_shot("alice", Coordinate { x: 0, y: 0 }).unwrap();
    assert_eq!(bob_hears.try_recv(), Ok(outcome));
}

#[test]
fn slot_takes_shots_on_its_own() {
    let (sender, mut hears) = channel::<ShotResponse>(4);
    let mut slot = PlayerInfo::new("bob".to_string(), sender);
    assert_eq!(slot.id(), "bob");
    let outcome = slot.receive_shot(Coordinate { x: 3, y: 4 });
    assert_eq!(
        outcome,
        ShotResponse {
            shot: Coordinate { x: 3, y: 4 },
            hit: false,
            sunk: false,
            length: 0,
            fleet_destroyed: true,
        }
    );
    assert_eq!(slot.misses(), &vec![Coordinate { x: 3, y: 4 }]);
    assert!(slot.hits().is_empty());
    // a slot records; the match it belongs to announces
    assert_eq!(hears.try_recv(), Err(TryRecvError::Empty));
}

#[test]
fn subscriber_of_one_player_never_hears_the_shots_at_the_other() {
    let (mut registry, sid, a, b) = ready();
    let mut to_a = registry.events(&sid, &a).unwrap();
    let first = registry.shot(&sid, &shot_by(&a, 9, 0)).unwrap();
    assert_eq!(to_a.try_recv(), Err(TryRecvError::Empty));
    let second = registry.shot(&sid, &shot_by(&b, 9, 1)).unwrap();
    assert_eq!(to_a.try_recv(), Ok(second));
    assert_eq!(to_a.try_recv(), Err(TryRecvError::Empty));
    assert_ne!(first, second);
}

#[test]
fn subscribers_of_different_sessions_are_kept_apart() {
    let (mut registry, sid, a, b) = ready();
    let other = registry.new_game().unwrap();
    let guest = registry.join_game(&other.game_id).unwrap();
    let mut elsewhere = registry.events(&other.game_id, &guest.player_id).unwrap();
    let mut here = registry.events(&sid, &b).unwrap();
    let outcome = registry.shot(&sid, &shot_by(&a, 5, 5)).unwrap();
    assert_eq!(here.try_recv(), Ok(outcome));
    assert_eq!(elsewhere.try_recv(), Err(TryRecvError::Empty));
}
