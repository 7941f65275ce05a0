//! Board geometry: coordinates, fleets as sequences of ships, and the
//! predicates that the placement rules and the shot rules are stated in.

use vstd::prelude::*;

verus! {

/// Number of rows and of columns of the board.
pub const BOARD_SIZE: u32 = 10;

/// Number of distinct cells that a complete fleet covers: 2 + 3 + 3 + 4 + 5.
pub const FLEET_CELLS: usize = 17;

/// Number of ships in a complete fleet.
pub const FLEET_SHIPS: usize = 5;

/// A cell of the board, by column `x` and row `y`.
#[derive(Clone, Copy, Debug, PartialEq, Eq, Structural)]
pub struct Coordinate {
    pub x: u32,
    pub y: u32,
}

/// The mathematical model of a fleet: its ships in order, each ship the
/// sequence of the cells it lies on.
pub open spec fn ships_of(position: &Vec<Vec<Coordinate>>) -> Seq<Seq<Coordinate>> {
    Seq::new(position@.len(), |i: int| position@[i]@)
}

/// Some ship of the fleet lies on `c`.
pub open spec fn in_fleet(fleet: Seq<Seq<Coordinate>>, c: Coordinate) -> bool {
    exists|i: int| 0 <= i < fleet.len() && (#[trigger] fleet[i]).contains(c)
}

/// One ship of the fleet lies on both `c1` and `c2`.
pub open spec fn same_ship(fleet: Seq<Seq<Coordinate>>, c1: Coordinate, c2: Coordinate) -> bool {
    exists|i: int|
        0 <= i < fleet.len() && (#[trigger] fleet[i]).contains(c1) && fleet[i].contains(c2)
}

/// The set of cells that the fleet covers.
pub open spec fn fleet_cells(fleet: Seq<Seq<Coordinate>>) -> Set<Coordinate> {
    Set::new(|c: Coordinate| in_fleet(fleet, c))
}

/// Two different cells that touch by an edge or by a corner.
pub open spec fn adjacent(c1: Coordinate, c2: Coordinate) -> bool {
    &&& c1 != c2
    &&& -1 <= c2.x - c1.x <= 1
    &&& -1 <= c2.y - c1.y <= 1
}

/// `ship` is the first ship of the fleet, in fleet order, that lies on `c`.
pub open spec fn is_first_ship_on(fleet: Seq<Seq<Coordinate>>, c: Coordinate, ship: int) -> bool {
    &&& 0 <= ship < fleet.len()
    &&& fleet[ship].contains(c)
    &&& forall|k: int| 0 <= k < ship ==> !(#[trigger] fleet[k]).contains(c)
}

/// Index of the first ship that lies on `c`; meaningful where `in_fleet`
/// holds.
pub open spec fn ship_on(fleet: Seq<Seq<Coordinate>>, c: Coordinate) -> int {
    choose|ship: int| is_first_ship_on(fleet, c, ship)
}

/// At most one index is the first ship on a cell.
pub proof fn lemma_first_ship_unique(fleet: Seq<Seq<Coordinate>>, c: Coordinate, a: int, b: int)
    requires
        is_first_ship_on(fleet, c, a),
        is_first_ship_on(fleet, c, b),
    ensures
        a == b,
{
}

/// Whether the ship lies on the cell.
pub fn ship_contains(ship: &Vec<Coordinate>, c: Coordinate) -> (found: bool)
    ensures
        found == ship@.contains(c),
{
    let mut j: usize = 0;
    while j < ship.len()
        invariant
            j <= ship.len(),
            forall|k: int| 0 <= k < j ==> ship@[k] != c,
        decreases ship.len() - j,
    {
        if ship[j] == c {
            return true;
        }
        j = j + 1;
    }
    false
}

/// Whether one ship of the fleet lies on both cells.
pub fn are_same_ship(
    position: &Vec<Vec<Coordinate>>,
    coord1: Coordinate,
    coord2: Coordinate,
) -> (same: bool)
    ensures
        same == same_ship(ships_of(position), coord1, coord2),
{
    let mut i: usize = 0;
    while i < position.len()
        invariant
            i <= position.len(),
            forall|k: int|
                0 <= k < i ==> !((#[trigger] ships_of(position)[k]).contains(coord1) && ships_of(
                    position,
                )[k].contains(coord2)),
        decreases position.len() - i,
    {
        if ship_contains(&position[i], coord1) && ship_contains(&position[i], coord2) {
            assert(ships_of(position)[i as int] == position@[i as int]@);
            return true;
        }
        assert(ships_of(position)[i as int] == position@[i as int]@);
        i = i + 1;
    }
    false
}

} // verus!
