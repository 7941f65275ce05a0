//! The placement rules: six independent checks on a proposed fleet, and the
//! validator that accepts a fleet exactly when all six hold.

use crate::board::{
    adjacent, are_same_ship, fleet_cells, in_fleet, same_ship, ships_of, Coordinate, BOARD_SIZE,
    FLEET_CELLS, FLEET_SHIPS,
};
use std::collections::HashSet;
use vstd::multiset::Multiset;
use vstd::prelude::*;

verus! {

/// The number that stands for a cell in a hash set: `x` in the upper half,
/// `y` in the lower half.
pub open spec fn cell_key(c: Coordinate) -> u64 {
    (c.x * 0x1_0000_0000 + c.y) as u64
}

/// Different cells have different keys.
pub proof fn lemma_cell_key_injective(c1: Coordinate, c2: Coordinate)
    requires
        cell_key(c1) == cell_key(c2),
    ensures
        c1 == c2,
{
}

fn key_of(c: Coordinate) -> (key: u64)
    ensures
        key == cell_key(c),
{
    (c.x as u64) * 0x1_0000_0000 + (c.y as u64)
}

/// The cell lies on one of the first `ships` ships, or is among the first
/// `cells` cells of the ship after them.
spec fn in_prefix(fleet: Seq<Seq<Coordinate>>, ships: int, cells: int, c: Coordinate) -> bool {
    ||| exists|a: int| 0 <= a < ships && (#[trigger] fleet[a]).contains(c)
    ||| exists|b: int| 0 <= b < cells && #[trigger] fleet[ships][b] == c
}

/// The set of the cells that the fleet covers, each by its key.
fn occupied(position: &Vec<Vec<Coordinate>>) -> (cells: HashSet<u64>)
    ensures
        forall|c: Coordinate| cells@.contains(cell_key(c)) == in_fleet(ships_of(position), c),
        fleet_cells(ships_of(position)).finite(),
        cells@.finite(),
        cells@.len() == fleet_cells(ships_of(position)).len(),
{
    broadcast use vstd::std_specs::hash::group_hash_axioms;

    let ghost fleet = ships_of(position);
    let mut cells: HashSet<u64> = HashSet::new();
    let ghost mut seen: Set<Coordinate> = Set::empty();
    let mut i: usize = 0;
    while i < position.len()
        invariant
            i <= position.len(),
            fleet == ships_of(position),
            seen.finite(),
            cells@.finite(),
            seen.len() == cells@.len(),
            forall|c: Coordinate| seen.contains(c) == cells@.contains(cell_key(c)),
            forall|c: Coordinate| seen.contains(c) == in_prefix(fleet, i as int, 0, c),
        decreases position.len() - i,
    {
        let ship = &position[i];
        let mut j: usize = 0;
        while j < ship.len()
            invariant
                i < position.len(),
                j <= ship.len(),
                ship == &position@[i as int],
                fleet == ships_of(position),
                seen.finite(),
                cells@.finite(),
                seen.len() == cells@.len(),
                forall|c: Coordinate| seen.contains(c) == cells@.contains(cell_key(c)),
                forall|c: Coordinate| seen.contains(c) == in_prefix(fleet, i as int, j as int, c),
            decreases ship.len() - j,
        {
            let part = ship[j];
            let ghost before = seen;
            cells.insert(key_of(part));
            proof {
                seen = seen.insert(part);
                assert(fleet[i as int][j as int] == part);
                assert forall|c: Coordinate| seen.contains(c) == cells@.contains(cell_key(c)) by {
                    if cell_key(c) == cell_key(part) {
                        lemma_cell_key_injective(c, part);
                    }
                }
                assert forall|c: Coordinate| seen.contains(c) == in_prefix(
                    fleet,
                    i as int,
                    j as int + 1,
                    c,
                ) by {
                    if in_prefix(fleet, i as int, j as int + 1, c) && c != part {
                        if exists|b: int| 0 <= b < j + 1 && #[trigger] fleet[i as int][b] == c {
                            let b = choose|b: int|
                                0 <= b < j + 1 && #[trigger] fleet[i as int][b] == c;
                            assert(b < j);
                        }
                        assert(in_prefix(fleet, i as int, j as int, c));
                    }
                    if before.contains(c) {
                        assert(in_prefix(fleet, i as int, j as int, c));
                        assert(in_prefix(fleet, i as int, j as int + 1, c));
                    }
                }
            }
            j = j + 1;
        }
        proof {
            assert forall|c: Coordinate|
                seen.contains(c) == in_prefix(fleet, i as int + 1, 0, c) by {
                if in_prefix(fleet, i as int, ship@.len() as int, c) {
                    if exists|b: int| 0 <= b < ship@.len() && #[trigger] fleet[i as int][b] == c {
                        assert(fleet[i as int].contains(c));
                    }
                    assert(in_prefix(fleet, i as int + 1, 0, c));
                }
                if in_prefix(fleet, i as int + 1, 0, c) {
                    let a = choose|a: int| 0 <= a < i + 1 && (#[trigger] fleet[a]).contains(c);
                    if a == i {
                        let b = choose|b: int| 0 <= b < fleet[a].len() && fleet[a][b] == c;
                        assert(fleet[i as int][b] == c);
                    }
                    assert(in_prefix(fleet, i as int, ship@.len() as int, c));
                }
            }
        }
        i = i + 1;
    }
    proof {
        assert forall|c: Coordinate| seen.contains(c) == in_fleet(fleet, c) by {
            if in_fleet(fleet, c) {
                let a = choose|a: int| 0 <= a < fleet.len() && (#[trigger] fleet[a]).contains(c);
                assert(in_prefix(fleet, i as int, 0, c));
            }
        }
        assert(seen =~= fleet_cells(fleet));
    }
    cells
}

/// The overlap rule: the fleet covers exactly seventeen distinct cells, as
/// five ships of the required lengths do only when no two of them share a
/// cell.
pub open spec fn no_overlap(fleet: Seq<Seq<Coordinate>>) -> bool {
    fleet_cells(fleet).len() == FLEET_CELLS
}

/// The adjacency rule: two cells of the fleet that touch, by an edge or by a
/// corner, lie on one ship.
pub open spec fn no_neighbors(fleet: Seq<Seq<Coordinate>>) -> bool {
    forall|c1: Coordinate, c2: Coordinate|
        #![trigger in_fleet(fleet, c1), in_fleet(fleet, c2)]
        in_fleet(fleet, c1) && in_fleet(fleet, c2) && adjacent(c1, c2) ==> same_ship(
            fleet,
            c1,
            c2,
        )
}

/// Checks the overlap rule.
pub fn ships_not_overlap(position: &Vec<Vec<Coordinate>>) -> (ok: bool)
    ensures
        ok == no_overlap(ships_of(position)),
{
    let cells = occupied(position);
    cells.len() == FLEET_CELLS
}

/// Some cell of the fleet touches `c` without lying on a ship that `c`
/// lies on.
pub open spec fn touches_other_ship(fleet: Seq<Seq<Coordinate>>, c: Coordinate) -> bool {
    exists|c2: Coordinate| #[trigger]
        in_fleet(fleet, c2) && adjacent(c, c2) && !same_ship(fleet, c, c2)
}

/// The cell `c2` comes before the offset `(dx, dy)` when the eight cells
/// around `c` are walked column by column; both offsets are shifted by one,
/// so that they run from 0 to 2.
spec fn walked(c: Coordinate, c2: Coordinate, dx: int, dy: int) -> bool {
    let sx = c2.x - c.x + 1;
    let sy = c2.y - c.y + 1;
    sx < dx || (sx == dx && sy < dy)
}

fn has_foreign_neighbor(
    position: &Vec<Vec<Coordinate>>,
    cells: &HashSet<u64>,
    c: Coordinate,
) -> (found: bool)
    requires
        forall|k: Coordinate| cells@.contains(cell_key(k)) == in_fleet(ships_of(position), k),
    ensures
        found == touches_other_ship(ships_of(position), c),
{
    broadcast use vstd::std_specs::hash::group_hash_axioms;

    let ghost fleet = ships_of(position);
    let mut dx: u64 = 0;
    while dx < 3
        invariant
            dx <= 3,
            fleet == ships_of(position),
            forall|k: Coordinate| cells@.contains(cell_key(k)) == in_fleet(fleet, k),
            forall|c2: Coordinate| #[trigger]
                in_fleet(fleet, c2) && adjacent(c, c2) && walked(c, c2, dx as int, 0)
                    ==> same_ship(fleet, c, c2),
        decreases 3 - dx,
    {
        let mut dy: u64 = 0;
        while dy < 3
            invariant
                dx < 3,
                dy <= 3,
                fleet == ships_of(position),
                forall|k: Coordinate| cells@.contains(cell_key(k)) == in_fleet(fleet, k),
                forall|c2: Coordinate| #[trigger]
                    in_fleet(fleet, c2) && adjacent(c, c2) && walked(c, c2, dx as int, dy as int)
                        ==> same_ship(fleet, c, c2),
            decreases 3 - dy,
        {
            let sx: u64 = c.x as u64 + dx;
            let sy: u64 = c.y as u64 + dy;
            let centre = dx == 1 && dy == 1;
            if !centre && 1 <= sx && sx <= 0x1_0000_0000 && 1 <= sy && sy <= 0x1_0000_0000 {
                let near = Coordinate { x: (sx - 1) as u32, y: (sy - 1) as u32 };
                if cells.contains(&key_of(near)) && !are_same_ship(position, c, near) {
                    assert(in_fleet(fleet, near) && adjacent(c, near) && !same_ship(
                        fleet,
                        c,
                        near,
                    ));
                    return true;
                }
            }
            dy = dy + 1;
        }
        dx = dx + 1;
    }
    false
}

/// Checks the adjacency rule.
pub fn ships_not_neighbors(position: &Vec<Vec<Coordinate>>) -> (ok: bool)
    ensures
        ok == no_neighbors(ships_of(position)),
{
    let ghost fleet = ships_of(position);
    let cells = occupied(position);
    let mut i: usize = 0;
    while i < position.len()
        invariant
            i <= position.len(),
            fleet == ships_of(position),
            forall|k: Coordinate| cells@.contains(cell_key(k)) == in_fleet(fleet, k),
            forall|a: int, b: int|
                0 <= a < i && 0 <= b < fleet[a].len() ==> !touches_other_ship(
                    fleet,
                    #[trigger] fleet[a][b],
                ),
        decreases position.len() - i,
    {
        let ship = &position[i];
        let mut j: usize = 0;
        while j < ship.len()
            invariant
                i < position.len(),
                j <= ship.len(),
                ship == &position@[i as int],
                fleet == ships_of(position),
                forall|k: Coordinate| cells@.contains(cell_key(k)) == in_fleet(fleet, k),
                forall|a: int, b: int|
                    0 <= a < i && 0 <= b < fleet[a].len() ==> !touches_other_ship(
                        fleet,
                        #[trigger] fleet[a][b],
                    ),
                forall|b: int|
                    0 <= b < j ==> !touches_other_ship(fleet, #[trigger] fleet[i as int][b]),
            decreases ship.len() - j,
        {
            if has_foreign_neighbor(position, &cells, ship[j]) {
                proof {
                    let c1 = fleet[i as int][j as int];
                    let c2 = choose|c2: Coordinate| #[trigger]
                        in_fleet(fleet, c2) && adjacent(c1, c2) && !same_ship(fleet, c1, c2);
                    assert(fleet[i as int].contains(c1));
                    assert(in_fleet(fleet, c1));
                }
                return false;
            }
            j = j + 1;
        }
        i = i + 1;
    }
    proof {
        assert forall|c1: Coordinate, c2: Coordinate|
            in_fleet(fleet, c1) && in_fleet(fleet, c2) && adjacent(c1, c2) implies same_ship(
            fleet,
            c1,
            c2,
        ) by {
            let a = choose|a: int| 0 <= a < fleet.len() && (#[trigger] fleet[a]).contains(c1);
            let b = choose|b: int| 0 <= b < fleet[a].len() && fleet[a][b] == c1;
            assert(!touches_other_ship(fleet, fleet[a][b]));
        }
    }
    true
}

/// The count rule: the fleet has five ships.
pub open spec fn five_ships(fleet: Seq<Seq<Coordinate>>) -> bool {
    fleet.len() == FLEET_SHIPS
}

/// Checks the count rule.
pub fn num_ships(position: &Vec<Vec<Coordinate>>) -> (ok: bool)
    ensures
        ok == five_ships(ships_of(position)),
{
    position.len() == FLEET_SHIPS
}

/// The board rule: every cell of every ship lies on the board.
pub open spec fn on_board(fleet: Seq<Seq<Coordinate>>) -> bool {
    forall|i: int, j: int|
        0 <= i < fleet.len() && 0 <= j < fleet[i].len() ==> (#[trigger] fleet[i][j]).x < BOARD_SIZE
            && fleet[i][j].y < BOARD_SIZE
}

/// Checks the board rule.
pub fn ship_on_field(position: &Vec<Vec<Coordinate>>) -> (ok: bool)
    ensures
        ok == on_board(ships_of(position)),
{
    let ghost fleet = ships_of(position);
    let mut i: usize = 0;
    while i < position.len()
        invariant
            i <= position.len(),
            fleet == ships_of(position),
            forall|a: int, b: int|
                0 <= a < i && 0 <= b < fleet[a].len() ==> (#[trigger] fleet[a][b]).x < BOARD_SIZE
                    && fleet[a][b].y < BOARD_SIZE,
        decreases position.len() - i,
    {
        let ship = &position[i];
        let mut j: usize = 0;
        while j < ship.len()
            invariant
                i < position.len(),
                j <= ship.len(),
                ship == &position@[i as int],
                fleet == ships_of(position),
                forall|b: int|
                    0 <= b < j ==> (#[trigger] fleet[i as int][b]).x < BOARD_SIZE
                        && fleet[i as int][b].y < BOARD_SIZE,
            decreases ship.len() - j,
        {
            if ship[j].x >= BOARD_SIZE || ship[j].y >= BOARD_SIZE {
                assert(fleet[i as int][j as int] == ship@[j as int]);
                return false;
            }
            j = j + 1;
        }
        i = i + 1;
    }
    true
}

/// The coordinate of each cell along the ship's supposed direction: `y` for
/// a ship that runs down a column, `x` for one that runs along a row.
pub open spec fn along(ship: Seq<Coordinate>, vertical: bool) -> Seq<int> {
    Seq::new(
        ship.len(),
        |i: int|
            if vertical {
                ship[i].y as int
            } else {
                ship[i].x as int
            },
    )
}

/// The coordinate of each cell across the ship's supposed direction.
pub open spec fn across(ship: Seq<Coordinate>, vertical: bool) -> Seq<int> {
    along(ship, !vertical)
}

/// All values are the same.
pub open spec fn constant(values: Seq<int>) -> bool {
    forall|i: int| 0 <= i < values.len() ==> #[trigger] values[i] == values[0]
}

/// The values are a run of consecutive integers in some order: no two are
/// equal, and no two lie as far apart as there are values.
pub open spec fn consecutive(values: Seq<int>) -> bool {
    forall|i: int, j: int|
        0 <= i < values.len() && 0 <= j < values.len() && i != j ==> #[trigger] values[i]
            != #[trigger] values[j] && values[i] - values[j] < values.len()
}

/// The ship lies in one column (`vertical`) or one row, on consecutive
/// cells.
pub open spec fn lies_along(ship: Seq<Coordinate>, vertical: bool) -> bool {
    constant(across(ship, vertical)) && consecutive(along(ship, vertical))
}

/// The ship is a non-empty straight line without gaps.
pub open spec fn straight(ship: Seq<Coordinate>) -> bool {
    ship.len() > 0 && (lies_along(ship, true) || lies_along(ship, false))
}

/// The contiguity rule: every ship is a non-empty straight line without
/// gaps. The order in which a ship lists its cells does not matter.
pub open spec fn consistent(fleet: Seq<Seq<Coordinate>>) -> bool {
    forall|i: int| 0 <= i < fleet.len() ==> straight(#[trigger] fleet[i])
}

fn coordinate_along(c: Coordinate, vertical: bool) -> (value: u32)
    ensures
        value == if vertical {
            c.y
        } else {
            c.x
        },
{
    if vertical {
        c.y
    } else {
        c.x
    }
}

/// Whether the ship lies in one column (`vertical`) or one row, on
/// consecutive cells.
pub fn ship_lies_along(ship: &Vec<Coordinate>, vertical: bool) -> (ok: bool)
    ensures
        ok == lies_along(ship@, vertical),
{
    let ghost run = along(ship@, vertical);
    let ghost fixed = across(ship@, vertical);
    let n = ship.len();
    if n == 0 {
        return true;
    }
    let anchor = coordinate_along(ship[0], !vertical);
    let mut lo: u32 = coordinate_along(ship[0], vertical);
    let mut hi: u32 = lo;
    let ghost mut at_lo: int = 0;
    let ghost mut at_hi: int = 0;
    let mut i: usize = 1;
    while i < n
        invariant
            1 <= i <= n,
            n == ship@.len(),
            run == along(ship@, vertical),
            fixed == across(ship@, vertical),
            anchor == fixed[0],
            forall|k: int| 0 <= k < i ==> #[trigger] fixed[k] == fixed[0],
            forall|k: int| 0 <= k < i ==> lo <= #[trigger] run[k] <= hi,
            0 <= at_lo < i && run[at_lo] == lo,
            0 <= at_hi < i && run[at_hi] == hi,
        decreases n - i,
    {
        if coordinate_along(ship[i], !vertical) != anchor {
            assert(fixed[i as int] != fixed[0]);
            return false;
        }
        let value = coordinate_along(ship[i], vertical);
        if value < lo {
            lo = value;
            proof {
                at_lo = i as int;
            }
        }
        if value > hi {
            hi = value;
            proof {
                at_hi = i as int;
            }
        }
        i = i + 1;
    }
    if (hi - lo) as usize >= n {
        assert(run[at_hi] - run[at_lo] >= run.len());
        return false;
    }
    let mut a: usize = 0;
    while a < n
        invariant
            a <= n,
            n == ship@.len(),
            run == along(ship@, vertical),
            forall|p: int, q: int|
                0 <= p < a && p < q < n ==> #[trigger] run[p] != #[trigger] run[q],
        decreases n - a,
    {
        let value = coordinate_along(ship[a], vertical);
        let mut b: usize = a + 1;
        while b < n
            invariant
                a < b <= n,
                n == ship@.len(),
                run == along(ship@, vertical),
                value == run[a as int],
                forall|q: int| a < q < b ==> run[a as int] != #[trigger] run[q],
            decreases n - b,
        {
            if coordinate_along(ship[b], vertical) == value {
                assert(run[a as int] == run[b as int]);
                return false;
            }
            b = b + 1;
        }
        a = a + 1;
    }
    proof {
        assert forall|p: int, q: int| 0 <= p < n && 0 <= q < n && p != q implies #[trigger] run[p]
            != #[trigger] run[q] && run[p] - run[q] < n by {
            if p < q {
                assert(run[p] != run[q]);
            } else {
                assert(run[q] != run[p]);
            }
        }
    }
    true
}

/// Checks the contiguity rule.
pub fn ships_consistent(position: &Vec<Vec<Coordinate>>) -> (ok: bool)
    ensures
        ok == consistent(ships_of(position)),
{
    let ghost fleet = ships_of(position);
    let mut i: usize = 0;
    while i < position.len()
        invariant
            i <= position.len(),
            fleet == ships_of(position),
            forall|k: int| 0 <= k < i ==> straight(#[trigger] fleet[k]),
        decreases position.len() - i,
    {
        let ship = &position[i];
        assert(fleet[i as int] == ship@);
        if ship.len() == 0 || !(ship_lies_along(ship, true) || ship_lies_along(ship, false)) {
            return false;
        }
        i = i + 1;
    }
    true
}

/// The length of each ship, in fleet order.
pub open spec fn ship_sizes(fleet: Seq<Seq<Coordinate>>) -> Seq<nat> {
    Seq::new(fleet.len(), |i: int| fleet[i].len())
}

/// The lengths that a complete fleet is made of: one ship of two cells, two
/// of three, one of four and one of five.
pub open spec fn required_sizes() -> Multiset<nat> {
    Multiset::empty().insert(2nat).insert(3nat).insert(3nat).insert(4nat).insert(5nat)
}

/// The length rule: the ships' lengths, in any order, are 2, 3, 3, 4, 5.
pub open spec fn lengths_ok(fleet: Seq<Seq<Coordinate>>) -> bool {
    ship_sizes(fleet).to_multiset() =~= required_sizes()
}

/// Checks the length rule.
pub fn ship_lengths(position: &Vec<Vec<Coordinate>>) -> (ok: bool)
    ensures
        ok == lengths_ok(ships_of(position)),
{
    let ghost fleet = ships_of(position);
    let ghost sizes = ship_sizes(fleet);
    let mut twos: usize = 0;
    let mut threes: usize = 0;
    let mut fours: usize = 0;
    let mut fives: usize = 0;
    let mut i: usize = 0;
    proof {
        assert(sizes.take(0) =~= Seq::<nat>::empty());
        sizes.take(0).to_multiset_ensures();
        assert forall|v: nat| sizes.take(0).to_multiset().count(v) == 0 by {
            if sizes.take(0).to_multiset().count(v) > 0 {
                assert(sizes.take(0).contains(v));
            }
        }
    }
    while i < position.len()
        invariant
            i <= position.len(),
            fleet == ships_of(position),
            sizes == ship_sizes(fleet),
            twos <= i && threes <= i && fours <= i && fives <= i,
            sizes.take(i as int).to_multiset().count(2) == twos,
            sizes.take(i as int).to_multiset().count(3) == threes,
            sizes.take(i as int).to_multiset().count(4) == fours,
            sizes.take(i as int).to_multiset().count(5) == fives,
            forall|k: int| 0 <= k < i ==> 2 <= #[trigger] sizes[k] <= 5,
        decreases position.len() - i,
    {
        let size = position[i].len();
        proof {
            assert(sizes[i as int] == size);
            assert(sizes.take(i as int + 1) =~= sizes.take(i as int).push(size as nat));
            sizes.take(i as int).to_multiset_ensures();
            sizes.to_multiset_ensures();
        }
        if size == 2 {
            twos = twos + 1;
        } else if size == 3 {
            threes = threes + 1;
        } else if size == 4 {
            fours = fours + 1;
        } else if size == 5 {
            fives = fives + 1;
        } else {
            proof {
                assert(sizes.contains(size as nat));
                assert(sizes.to_multiset().count(size as nat) > 0);
                assert(required_sizes().count(size as nat) == 0);
            }
            return false;
        }
        i = i + 1;
    }
    proof {
        assert(sizes.take(i as int) =~= sizes);
        sizes.to_multiset_ensures();
        if twos == 1 && threes == 2 && fours == 1 && fives == 1 {
            assert forall|v: nat| sizes.to_multiset().count(v) == required_sizes().count(v) by {
                if !(2 <= v <= 5) {
                    if sizes.to_multiset().count(v) > 0 {
                        assert(sizes.contains(v));
                    }
                }
            }
        } else {
            assert(required_sizes().count(2) == 1);
            assert(required_sizes().count(3) == 2);
            assert(required_sizes().count(4) == 1);
            assert(required_sizes().count(5) == 1);
        }
    }
    twos == 1 && threes == 2 && fours == 1 && fives == 1
}

/// A fleet is legal when it meets all six rules.
pub open spec fn valid_fleet(fleet: Seq<Seq<Coordinate>>) -> bool {
    &&& five_ships(fleet)
    &&& lengths_ok(fleet)
    &&& on_board(fleet)
    &&& consistent(fleet)
    &&& no_overlap(fleet)
    &&& no_neighbors(fleet)
}

/// The placement validator: accepts a fleet exactly when it meets all six
/// rules. It takes any fleet, also one with too few ships or with empty
/// ships.
pub fn verify_position(p: &Vec<Vec<Coordinate>>) -> (ok: bool)
    ensures
        ok == valid_fleet(ships_of(p)),
{
    num_ships(p) && ship_lengths(p) && ship_on_field(p) && ships_consistent(p) && ships_not_overlap(
        p,
    ) && ships_not_neighbors(p)
}

} // verus!
