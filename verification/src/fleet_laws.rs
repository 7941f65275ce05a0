//! Laws of the placement rules: what the six rules together say of a fleet
//! that the validator accepts.

use crate::board::{adjacent, fleet_cells, in_fleet, same_ship, Coordinate, FLEET_CELLS};
use crate::placement::{
    across, along, consecutive, consistent, constant, five_ships, lengths_ok, no_neighbors,
    no_overlap, on_board, required_sizes, ship_sizes, straight, valid_fleet,
};
use vstd::prelude::*;
use vstd::set_lib::{
    lemma_int_range, lemma_set_intersect_union_lens, lemma_subset_equality, set_int_range,
};

verus! {

/// The sum of the numbers.
pub open spec fn total(sizes: Seq<nat>) -> nat
    decreases sizes.len(),
{
    if sizes.len() == 0 {
        0
    } else {
        total(sizes.drop_last()) + sizes.last()
    }
}

/// The number of cells that the ships list, a cell counted as often as it
/// is listed.
pub open spec fn cell_count(fleet: Seq<Seq<Coordinate>>) -> nat {
    total(ship_sizes(fleet))
}

/// No cell lies on two ships.
pub open spec fn ships_disjoint(fleet: Seq<Seq<Coordinate>>) -> bool {
    forall|i: int, j: int, c: Coordinate|
        #![trigger fleet[i].contains(c), fleet[j].contains(c)]
        0 <= i < fleet.len() && 0 <= j < fleet.len() && i != j ==> !(fleet[i].contains(c)
            && fleet[j].contains(c))
}

/// No ship lists a cell twice.
pub open spec fn ships_without_repeats(fleet: Seq<Seq<Coordinate>>) -> bool {
    forall|i: int| 0 <= i < fleet.len() ==> (#[trigger] fleet[i]).no_duplicates()
}

/// Cells of two different ships are different cells and do not touch, not
/// even by a corner.
pub open spec fn ships_apart(fleet: Seq<Seq<Coordinate>>) -> bool {
    forall|i: int, j: int, c1: Coordinate, c2: Coordinate|
        #![trigger fleet[i].contains(c1), fleet[j].contains(c2)]
        0 <= i < fleet.len() && 0 <= j < fleet.len() && i != j && fleet[i].contains(c1)
            && fleet[j].contains(c2) ==> c1 != c2 && !adjacent(c1, c2)
}

/// A fleet is accepted exactly when it meets all six rules: one that breaks
/// any single rule is rejected, whatever it does about the other five.
pub proof fn lemma_every_rule_is_needed(fleet: Seq<Seq<Coordinate>>)
    ensures
        valid_fleet(fleet) <==> five_ships(fleet) && lengths_ok(fleet) && on_board(fleet)
            && consistent(fleet) && no_overlap(fleet) && no_neighbors(fleet),
        !five_ships(fleet) ==> !valid_fleet(fleet),
        !lengths_ok(fleet) ==> !valid_fleet(fleet),
        !on_board(fleet) ==> !valid_fleet(fleet),
        !consistent(fleet) ==> !valid_fleet(fleet),
        !no_overlap(fleet) ==> !valid_fleet(fleet),
        !no_neighbors(fleet) ==> !valid_fleet(fleet),
{
}

/// Ships whose lengths are only twos, threes, fours and fives list as many
/// cells as the count of each length tells.
proof fn lemma_total_by_counts(sizes: Seq<nat>)
    requires
        forall|i: int| 0 <= i < sizes.len() ==> 2 <= #[trigger] sizes[i] <= 5,
    ensures
        total(sizes) == 2 * sizes.to_multiset().count(2) + 3 * sizes.to_multiset().count(3) + 4
            * sizes.to_multiset().count(4) + 5 * sizes.to_multiset().count(5),
    decreases sizes.len(),
{
    sizes.to_multiset_ensures();
    if sizes.len() == 0 {
        assert forall|v: nat| sizes.to_multiset().count(v) == 0 by {
            if sizes.to_multiset().count(v) > 0 {
                assert(sizes.contains(v));
            }
        }
    } else {
        let rest = sizes.drop_last();
        lemma_total_by_counts(rest);
        rest.to_multiset_ensures();
        assert(rest.push(sizes.last()) =~= sizes);
    }
}

/// The length rule fixes the number of ships and the number of cells they
/// list: five ships, seventeen cells.
pub proof fn lemma_lengths_fix_the_counts(fleet: Seq<Seq<Coordinate>>)
    requires
        lengths_ok(fleet),
    ensures
        five_ships(fleet),
        cell_count(fleet) == FLEET_CELLS,
{
    let sizes = ship_sizes(fleet);
    sizes.to_multiset_ensures();
    assert(required_sizes().len() == 5);
    assert forall|i: int| 0 <= i < sizes.len() implies 2 <= #[trigger] sizes[i] <= 5 by {
        assert(sizes.contains(sizes[i]));
        assert(sizes.to_multiset().count(sizes[i]) > 0);
    }
    lemma_total_by_counts(sizes);
}

/// A fleet covers at most as many cells as its ships list, and covers
/// exactly as many only where no cell lies on two ships and no ship lists a
/// cell twice.
pub proof fn lemma_cells_bounded(fleet: Seq<Seq<Coordinate>>)
    ensures
        fleet_cells(fleet).finite(),
        fleet_cells(fleet).len() <= cell_count(fleet),
        fleet_cells(fleet).len() == cell_count(fleet) ==> ships_disjoint(fleet)
            && ships_without_repeats(fleet),
    decreases fleet.len(),
{
    broadcast use vstd::seq_lib::seq_to_set_is_finite;

    if fleet.len() == 0 {
        assert(fleet_cells(fleet) =~= Set::<Coordinate>::empty());
    } else {
        let rest = fleet.drop_last();
        let last = fleet.last();
        let before = fleet_cells(rest);
        let added = last.to_set();
        lemma_cells_bounded(rest);
        assert(ship_sizes(fleet).drop_last() =~= ship_sizes(rest));
        assert(cell_count(fleet) == cell_count(rest) + last.len());
        assert forall|c: Coordinate| in_fleet(fleet, c) <==> in_fleet(rest, c) || last.contains(
            c,
        ) by {
            if in_fleet(fleet, c) {
                let i = choose|i: int| 0 <= i < fleet.len() && (#[trigger] fleet[i]).contains(c);
                if i < rest.len() {
                    assert(rest[i].contains(c));
                }
            }
            if in_fleet(rest, c) {
                let i = choose|i: int| 0 <= i < rest.len() && (#[trigger] rest[i]).contains(c);
                assert(fleet[i].contains(c));
            }
            if last.contains(c) {
                assert(fleet[fleet.len() - 1].contains(c));
            }
        }
        assert(fleet_cells(fleet) =~= before + added);
        lemma_set_intersect_union_lens(before, added);
        last.lemma_cardinality_of_set();
        if fleet_cells(fleet).len() == cell_count(fleet) {
            assert(before.len() == cell_count(rest));
            assert(added.len() == last.len());
            assert(before.intersect(added).len() == 0);
            before.intersect(added).lemma_len0_is_empty();
            last.lemma_no_dup_set_cardinality();
            assert forall|i: int| 0 <= i < fleet.len() implies (#[trigger] fleet[i]).no_duplicates(
            ) by {
                if i < rest.len() {
                    assert(rest[i].no_duplicates());
                }
            }
            assert forall|i: int, j: int, c: Coordinate|
                #![trigger fleet[i].contains(c), fleet[j].contains(c)]
                0 <= i < fleet.len() && 0 <= j < fleet.len() && i != j implies !(fleet[i].contains(
                c,
            ) && fleet[j].contains(c)) by {
                if fleet[i].contains(c) && fleet[j].contains(c) {
                    if i < rest.len() && j < rest.len() {
                        assert(rest[i].contains(c) && rest[j].contains(c));
                    } else {
                        let earlier = if i < rest.len() {
                            i
                        } else {
                            j
                        };
                        assert(rest[earlier].contains(c));
                        assert(in_fleet(rest, c));
                        assert(before.intersect(added).contains(c));
                    }
                }
            }
        }
    }
}

/// In a legal fleet no cell lies on two ships, no ship lists a cell twice,
/// and cells of different ships do not touch.
pub proof fn lemma_valid_fleet_ships_apart(fleet: Seq<Seq<Coordinate>>)
    requires
        valid_fleet(fleet),
    ensures
        ships_disjoint(fleet),
        ships_without_repeats(fleet),
        ships_apart(fleet),
{
    lemma_lengths_fix_the_counts(fleet);
    lemma_cells_bounded(fleet);
    assert forall|i: int, j: int, c1: Coordinate, c2: Coordinate|
        #![trigger fleet[i].contains(c1), fleet[j].contains(c2)]
        0 <= i < fleet.len() && 0 <= j < fleet.len() && i != j && fleet[i].contains(c1)
            && fleet[j].contains(c2) implies c1 != c2 && !adjacent(c1, c2) by {
        if c1 == c2 {
            assert(fleet[i].contains(c1) && fleet[j].contains(c1));
        }
        if adjacent(c1, c2) {
            assert(in_fleet(fleet, c1) && in_fleet(fleet, c2));
            assert(same_ship(fleet, c1, c2));
            let k = choose|k: int|
                0 <= k < fleet.len() && (#[trigger] fleet[k]).contains(c1) && fleet[k].contains(c2);
            if k != i {
                assert(fleet[k].contains(c1) && fleet[i].contains(c1));
            } else {
                assert(fleet[k].contains(c2) && fleet[j].contains(c2));
            }
        }
    }
}

/// A fleet of the required lengths in which two ships share a cell is
/// rejected.
pub proof fn lemma_shared_cell_rejects(fleet: Seq<Seq<Coordinate>>, i: int, j: int, c: Coordinate)
    requires
        0 <= i < fleet.len(),
        0 <= j < fleet.len(),
        i != j,
        fleet[i].contains(c),
        fleet[j].contains(c),
    ensures
        !valid_fleet(fleet),
{
    if valid_fleet(fleet) {
        lemma_valid_fleet_ships_apart(fleet);
        assert(fleet[i].contains(c) && fleet[j].contains(c));
    }
}

/// A fleet in which cells of two different ships touch is rejected.
pub proof fn lemma_touching_ships_reject(
    fleet: Seq<Seq<Coordinate>>,
    i: int,
    j: int,
    c1: Coordinate,
    c2: Coordinate,
)
    requires
        0 <= i < fleet.len(),
        0 <= j < fleet.len(),
        i != j,
        fleet[i].contains(c1),
        fleet[j].contains(c2),
        adjacent(c1, c2),
    ensures
        !valid_fleet(fleet),
{
    if valid_fleet(fleet) {
        lemma_valid_fleet_ships_apart(fleet);
        assert(fleet[i].contains(c1) && fleet[j].contains(c2));
    }
}

/// The values are exactly the integers from `lo` on, as many as there are
/// values: each value is one of them, and each of them is a value.
pub open spec fn fills_run(values: Seq<int>, lo: int) -> bool {
    &&& forall|i: int| 0 <= i < values.len() ==> lo <= #[trigger] values[i] < lo + values.len()
    &&& forall|v: int| lo <= v < lo + values.len() ==> #[trigger] values.contains(v)
}

/// Consecutive values leave no gap: they are a run of integers without a
/// hole, from their least on.
pub proof fn lemma_consecutive_fills_run(values: Seq<int>)
    requires
        values.len() > 0,
        consecutive(values),
    ensures
        fills_run(values, values.min()),
{
    broadcast use vstd::seq_lib::seq_to_set_is_finite;

    let n = values.len() as int;
    let lo = values.min();
    values.min_ensures();
    let least = choose|i: int| 0 <= i < n && values[i] == lo;
    assert forall|i: int| 0 <= i < n implies lo <= #[trigger] values[i] < lo + n by {
        if i != least {
            assert(values[i] - values[least] < n);
        }
    }
    assert(values.no_duplicates());
    values.unique_seq_to_set();
    lemma_int_range(lo, lo + n);
    assert(values.to_set().subset_of(set_int_range(lo, lo + n))) by {
        assert forall|v: int| values.to_set().contains(v) implies set_int_range(
            lo,
            lo + n,
        ).contains(v) by {
            let i = choose|i: int| 0 <= i < n && values[i] == v;
            assert(lo <= values[i] < lo + n);
        }
    }
    lemma_subset_equality(values.to_set(), set_int_range(lo, lo + n));
    assert forall|v: int| lo <= v < lo + n implies #[trigger] values.contains(v) by {
        assert(set_int_range(lo, lo + n).contains(v));
        assert(values.to_set().contains(v));
    }
}

/// A run of integers without a hole, listed in any order, is consecutive.
pub proof fn lemma_run_is_consecutive(values: Seq<int>, lo: int)
    requires
        fills_run(values, lo),
    ensures
        consecutive(values),
{
    broadcast use vstd::seq_lib::seq_to_set_is_finite;

    let n = values.len() as int;
    lemma_int_range(lo, lo + n);
    assert(values.to_set() =~= set_int_range(lo, lo + n)) by {
        assert forall|v: int| values.to_set().contains(v) <==> set_int_range(lo, lo + n).contains(
            v,
        ) by {
            if values.to_set().contains(v) {
                let i = choose|i: int| 0 <= i < n && values[i] == v;
                assert(lo <= values[i] < lo + n);
            }
            if lo <= v < lo + n {
                assert(values.contains(v));
            }
        }
    }
    values.lemma_no_dup_set_cardinality();
}

/// Values that leave out an integer between two of them are not
/// consecutive.
pub proof fn lemma_gap_breaks_run(values: Seq<int>, below: int, gap: int, above: int)
    requires
        values.contains(below),
        values.contains(above),
        below < gap < above,
        !values.contains(gap),
    ensures
        !consecutive(values),
{
    if consecutive(values) {
        lemma_consecutive_fills_run(values);
        let lo = values.min();
        let i = choose|i: int| 0 <= i < values.len() && values[i] == below;
        let j = choose|j: int| 0 <= j < values.len() && values[j] == above;
        assert(lo <= values[i]);
        assert(values[j] < lo + values.len());
        assert(values.contains(gap));
    }
}

/// A straight ship lies in one column or in one row and leaves no gap:
/// along its direction its cells fill a run of consecutive coordinates.
pub proof fn lemma_straight_ship_has_no_gap(ship: Seq<Coordinate>)
    requires
        straight(ship),
    ensures
        exists|vertical: bool|
            constant(across(ship, vertical)) && fills_run(
                #[trigger] along(ship, vertical),
                along(ship, vertical).min(),
            ),
{
    let vertical = consecutive(along(ship, true)) && constant(across(ship, true));
    lemma_consecutive_fills_run(along(ship, vertical));
}

} // verus!
