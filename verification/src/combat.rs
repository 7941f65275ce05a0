//! Shot resolution on one fleet: whether a shot hits, whether it sinks the
//! ship it hits, and whether the whole fleet is destroyed.

use crate::board::{
    in_fleet, is_first_ship_on, lemma_first_ship_unique, ship_contains, ship_on, ships_of,
    Coordinate,
};
use vstd::prelude::*;

verus! {

/// Every cell of the ship has been hit.
pub open spec fn covers(hits: Seq<Coordinate>, ship: Seq<Coordinate>) -> bool {
    forall|j: int| 0 <= j < ship.len() ==> hits.contains(#[trigger] ship[j])
}

/// Length of the ship that a shot at `c` strikes: that of the first ship, in
/// fleet order, that lies on `c`, and 0 where the shot misses.
pub open spec fn hit_length(fleet: Seq<Seq<Coordinate>>, c: Coordinate) -> nat {
    if in_fleet(fleet, c) {
        fleet[ship_on(fleet, c)].len()
    } else {
        0
    }
}

/// A shot at `c` strikes a ship all of whose cells are among `hits`.
pub open spec fn sunk(fleet: Seq<Seq<Coordinate>>, hits: Seq<Coordinate>, c: Coordinate) -> bool {
    in_fleet(fleet, c) && covers(hits, fleet[ship_on(fleet, c)])
}

/// Every cell of every ship is among `hits`.
pub open spec fn fleet_destroyed(fleet: Seq<Seq<Coordinate>>, hits: Seq<Coordinate>) -> bool {
    forall|i: int| 0 <= i < fleet.len() ==> covers(hits, #[trigger] fleet[i])
}

/// Index of the first ship that lies on the cell, if any.
fn find_ship(position: &Vec<Vec<Coordinate>>, s: &Coordinate) -> (found: Option<usize>)
    ensures
        match found {
            Some(i) => in_fleet(ships_of(position), *s) && i == ship_on(ships_of(position), *s)
                && i < position.len(),
            None => !in_fleet(ships_of(position), *s),
        },
{
    let ghost fleet = ships_of(position);
    let mut i: usize = 0;
    while i < position.len()
        invariant
            i <= position.len(),
            fleet == ships_of(position),
            forall|k: int| 0 <= k < i ==> !(#[trigger] fleet[k]).contains(*s),
        decreases position.len() - i,
    {
        assert(fleet[i as int] == position@[i as int]@);
        if ship_contains(&position[i], *s) {
            proof {
                assert(is_first_ship_on(fleet, *s, i as int));
                lemma_first_ship_unique(fleet, *s, i as int, ship_on(fleet, *s));
            }
            return Some(i);
        }
        i = i + 1;
    }
    None
}

/// Whether every cell of the ship is among the hits.
fn all_hit(ship: &Vec<Coordinate>, hits: &Vec<Coordinate>) -> (all: bool)
    ensures
        all == covers(hits@, ship@),
{
    let mut j: usize = 0;
    while j < ship.len()
        invariant
            j <= ship.len(),
            forall|k: int| 0 <= k < j ==> hits@.contains(#[trigger] ship@[k]),
        decreases ship.len() - j,
    {
        if !ship_contains(hits, ship[j]) {
            return false;
        }
        j = j + 1;
    }
    true
}

/// Whether a shot at `s` hits the fleet, and the length of the ship it
/// strikes (0 for a miss).
pub fn is_hit(position: &Vec<Vec<Coordinate>>, s: &Coordinate) -> (outcome: (bool, usize))
    ensures
        outcome.0 == in_fleet(ships_of(position), *s),
        outcome.1 == hit_length(ships_of(position), *s),
{
    match find_ship(position, s) {
        Some(i) => {
            assert(ships_of(position)[i as int] == position@[i as int]@);
            (true, position[i].len())
        },
        None => (false, 0),
    }
}

/// Whether a shot at `s` strikes a ship all of whose cells are among the
/// hits. A miss sinks nothing.
pub fn is_sunk(
    position: &Vec<Vec<Coordinate>>,
    hits: &Vec<Coordinate>,
    s: &Coordinate,
) -> (down: bool)
    ensures
        down == sunk(ships_of(position), hits@, *s),
{
    match find_ship(position, s) {
        Some(i) => {
            assert(ships_of(position)[i as int] == position@[i as int]@);
            all_hit(&position[i], hits)
        },
        None => false,
    }
}

/// Whether every cell of every ship of the fleet is among the hits.
pub fn is_fleet_destroyed(
    position: &Vec<Vec<Coordinate>>,
    hits: &Vec<Coordinate>,
) -> (destroyed: bool)
    ensures
        destroyed == fleet_destroyed(ships_of(position), hits@),
{
    let ghost fleet = ships_of(position);
    let mut i: usize = 0;
    while i < position.len()
        invariant
            i <= position.len(),
            fleet == ships_of(position),
            forall|k: int| 0 <= k < i ==> covers(hits@, #[trigger] fleet[k]),
        decreases position.len() - i,
    {
        assert(fleet[i as int] == position@[i as int]@);
        if !all_hit(&position[i], hits) {
            return false;
        }
        i = i + 1;
    }
    true
}

} // verus!
