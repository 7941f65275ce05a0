use battleship_engine::board::{are_same_ship, ship_contains, Coordinate};
use battleship_engine::placement::{
    num_ships, ship_lengths, ship_lies_along, ship_on_field, ships_consistent, ships_not_neighbors,
    ships_not_overlap, verify_position,
};

fn ship(cells: &[(u32, u32)]) -> Vec<Coordinate> {
    cells.iter().map(|&(x, y)| Coordinate { x, y }).collect()
}

fn legal_fleet() -> Vec<Vec<Coordinate>> {
    vec![
        ship(&[(9, 0), (9, 1), (9, 2), (9, 3), (9, 4)]),
        ship(&[(7, 0), (7, 1), (7, 2), (7, 3)]),
        ship(&[(3, 0), (3, 1), (3, 2)]),
        ship(&[(1, 7), (2, 7), (3, 7)]),
        ship(&[(5, 5), (5, 6)]),
    ]
}

#[test]
fn legal_fleet_passes_every_check() {
    let fleet = legal_fleet();
    assert!(num_ships(&fleet));
    assert!(ship_lengths(&fleet));
    assert!(ship_on_field(&fleet));
    assert!(ships_consistent(&fleet));
    assert!(ships_not_overlap(&fleet));
    assert!(ships_not_neighbors(&fleet));
    assert!(verify_position(&fleet));
}

#[test]
fn ships_may_come_in_any_order_of_length() {
    let mut fleet = legal_fleet();
    fleet.reverse();
    assert!(ship_lengths(&fleet));
    assert!(verify_position(&fleet));
}

#[test]
fn cells_of_a_ship_may_come_in_any_order() {
    let mut fleet = legal_fleet();
    fleet[0] = ship(&[(9, 3), (9, 0), (9, 4), (9, 1), (9, 2)]);
    assert!(ships_consistent(&fleet));
    assert!(verify_position(&fleet));
}

#[test]
fn four_ships_are_rejected() {
    let mut fleet = legal_fleet();
    fleet.pop();
    assert!(!num_ships(&fleet));
    assert!(!verify_position(&fleet));
}

#[test]
fn six_ships_are_rejected() {
    let mut fleet = legal_fleet();
    fleet.push(ship(&[(0, 9), (1, 9)]));
    assert!(!num_ships(&fleet));
    assert!(!ship_lengths(&fleet));
    assert!(!verify_position(&fleet));
}

#[test]
fn empty_fleet_is_rejected() {
    let fleet: Vec<Vec<Coordinate>> = Vec::new();
    assert!(!num_ships(&fleet));
    assert!(!ship_lengths(&fleet));
    assert!(ship_on_field(&fleet));
    assert!(ships_consistent(&fleet));
    assert!(!ships_not_overlap(&fleet));
    assert!(ships_not_neighbors(&fleet));
    assert!(!verify_position(&fleet));
}

#[test]
fn empty_ships_are_rejected_without_a_crash() {
    let fleet: Vec<Vec<Coordinate>> = vec![vec![], vec![], vec![], vec![], vec![]];
    assert!(num_ships(&fleet));
    assert!(!ship_lengths(&fleet));
    assert!(!ships_consistent(&fleet));
    assert!(!ships_not_overlap(&fleet));
    assert!(!verify_position(&fleet));
}

#[test]
fn single_cell_ship_is_straight_but_too_short() {
    let mut fleet = legal_fleet();
    fleet[4] = ship(&[(5, 5)]);
    assert!(ships_consistent(&fleet));
    assert!(!ship_lengths(&fleet));
    assert!(!verify_position(&fleet));
}

#[test]
fn wrong_lengths_are_rejected() {
    // 5, 4, 3, 2, 2 in place of 5, 4, 3, 3, 2
    let mut fleet = legal_fleet();
    fleet[3] = ship(&[(1, 7), (2, 7)]);
    assert!(num_ships(&fleet));
    assert!(!ship_lengths(&fleet));
    assert!(ship_on_field(&fleet));
    assert!(ships_consistent(&fleet));
    assert!(ships_not_neighbors(&fleet));
    assert!(!verify_position(&fleet));
}

#[test]
fn lengths_that_sum_right_but_differ_are_rejected() {
    // 5, 5, 3, 2, 2 also covers seventeen cells
    let fleet = vec![
        ship(&[(9, 0), (9, 1), (9, 2), (9, 3), (9, 4)]),
        ship(&[(7, 0), (7, 1), (7, 2), (7, 3), (7, 4)]),
        ship(&[(3, 0), (3, 1), (3, 2)]),
        ship(&[(1, 7), (2, 7)]),
        ship(&[(5, 5), (5, 6)]),
    ];
    assert!(ships_not_overlap(&fleet));
    assert!(!ship_lengths(&fleet));
    assert!(!verify_position(&fleet));
}

#[test]
fn cell_off_the_board_is_rejected() {
    let mut fleet = legal_fleet();
    fleet[0] = ship(&[(9, 6), (9, 7), (9, 8), (9, 9), (9, 10)]);
    assert!(!ship_on_field(&fleet));
    assert!(ship_lengths(&fleet));
    assert!(ships_consistent(&fleet));
    assert!(ships_not_overlap(&fleet));
    assert!(ships_not_neighbors(&fleet));
    assert!(!verify_position(&fleet));
}

#[test]
fn column_ten_is_off_the_board() {
    let mut fleet = legal_fleet();
    fleet[4] = ship(&[(10, 8), (10, 9)]);
    assert!(!ship_on_field(&fleet));
    assert!(!verify_position(&fleet));
}

#[test]
fn last_row_and_column_are_on_the_board() {
    let fleet = vec![
        ship(&[(9, 5), (9, 6), (9, 7), (9, 8), (9, 9)]),
        ship(&[(0, 9), (1, 9), (2, 9), (3, 9)]),
        ship(&[(0, 0), (0, 1), (0, 2)]),
        ship(&[(5, 0), (6, 0), (7, 0)]),
        ship(&[(4, 4), (4, 5)]),
    ];
    assert!(ship_on_field(&fleet));
    assert!(verify_position(&fleet));
}

#[test]
fn far_off_cells_are_rejected_without_a_crash() {
    let mut fleet = legal_fleet();
    fleet[4] = ship(&[(u32::MAX, u32::MAX), (u32::MAX, u32::MAX - 1)]);
    assert!(!ship_on_field(&fleet));
    assert!(ships_consistent(&fleet));
    assert!(ships_not_neighbors(&fleet));
    assert!(ships_not_overlap(&fleet));
    assert!(!verify_position(&fleet));
}

#[test]
fn cells_at_opposite_edges_do_not_touch() {
    // (0, 5) and (u32::MAX, 5) are not neighbours: the board does not wrap
    let mut fleet = legal_fleet();
    fleet[4] = ship(&[(0, 5), (0, 6)]);
    fleet[3] = ship(&[(u32::MAX, 5), (u32::MAX, 6), (u32::MAX, 7)]);
    assert!(ships_not_neighbors(&fleet));
}

#[test]
fn overlapping_ships_are_rejected() {
    // the ship of two crosses the ship of five at (9, 2)
    let mut fleet = legal_fleet();
    fleet[4] = ship(&[(8, 2), (9, 2)]);
    assert!(!ships_not_overlap(&fleet));
    assert!(num_ships(&fleet));
    assert!(ship_lengths(&fleet));
    assert!(ship_on_field(&fleet));
    assert!(ships_consistent(&fleet));
    assert!(!verify_position(&fleet));
}

#[test]
fn ship_listing_a_cell_twice_is_rejected() {
    let mut fleet = legal_fleet();
    fleet[4] = ship(&[(5, 5), (5, 5)]);
    assert!(!ships_consistent(&fleet));
    assert!(!ships_not_overlap(&fleet));
    assert!(!verify_position(&fleet));
}

#[test]
fn ships_side_by_side_are_rejected() {
    let mut fleet = legal_fleet();
    fleet[1] = ship(&[(8, 0), (8, 1), (8, 2), (8, 3)]);
    assert!(!ships_not_neighbors(&fleet));
    assert!(ships_not_overlap(&fleet));
    assert!(ship_lengths(&fleet));
    assert!(ship_on_field(&fleet));
    assert!(ships_consistent(&fleet));
    assert!(!verify_position(&fleet));
}

#[test]
fn ships_touching_by_a_corner_are_rejected() {
    // (4, 8) touches (3, 7) by a corner
    let mut fleet = legal_fleet();
    fleet[4] = ship(&[(4, 8), (4, 9)]);
    assert!(!ships_not_neighbors(&fleet));
    assert!(ships_not_overlap(&fleet));
    assert!(!verify_position(&fleet));
}

#[test]
fn ships_one_cell_apart_are_accepted() {
    let mut fleet = legal_fleet();
    fleet[4] = ship(&[(5, 8), (5, 9)]);
    assert!(ships_not_neighbors(&fleet));
    assert!(verify_position(&fleet));
}

#[test]
fn ship_with_a_gap_is_rejected() {
    let mut fleet = legal_fleet();
    fleet[2] = ship(&[(3, 0), (3, 1), (3, 3)]);
    assert!(!ships_consistent(&fleet));
    assert!(ship_lengths(&fleet));
    assert!(ship_on_field(&fleet));
    assert!(ships_not_overlap(&fleet));
    assert!(!verify_position(&fleet));
}

#[test]
fn bent_ship_is_rejected() {
    let mut fleet = legal_fleet();
    fleet[2] = ship(&[(3, 0), (3, 1), (4, 1)]);
    assert!(!ships_consistent(&fleet));
    assert!(!verify_position(&fleet));
}

#[test]
fn diagonal_ship_is_rejected() {
    let mut fleet = legal_fleet();
    fleet[4] = ship(&[(5, 5), (6, 6)]);
    assert!(!ships_consistent(&fleet));
    assert!(!verify_position(&fleet));
}

#[test]
fn ship_lies_along_one_direction_only() {
    let down = ship(&[(2, 4), (2, 5), (2, 6)]);
    assert!(ship_lies_along(&down, true));
    assert!(!ship_lies_along(&down, false));
    let across = ship(&[(4, 2), (6, 2), (5, 2)]);
    assert!(ship_lies_along(&across, false));
    assert!(!ship_lies_along(&across, true));
    let single = ship(&[(1, 1)]);
    assert!(ship_lies_along(&single, true));
    assert!(ship_lies_along(&single, false));
    let gapped = ship(&[(4, 2), (6, 2)]);
    assert!(!ship_lies_along(&gapped, false));
}

#[test]
fn same_ship_needs_one_ship_with_both_cells() {
    let fleet = legal_fleet();
    let a = Coordinate { x: 9, y: 0 };
    let b = Coordinate { x: 9, y: 4 };
    let c = Coordinate { x: 7, y: 0 };
    let water = Coordinate { x: 0, y: 0 };
    assert!(are_same_ship(&fleet, a, b));
    assert!(are_same_ship(&fleet, b, a));
    assert!(are_same_ship(&fleet, a, a));
    assert!(!are_same_ship(&fleet, a, c));
    assert!(!are_same_ship(&fleet, a, water));
    assert!(!are_same_ship(&fleet, water, water));
}

#[test]
fn ship_contains_its_cells_only() {
    let hull = ship(&[(5, 5), (5, 6)]);
    assert!(ship_contains(&hull, Coordinate { x: 5, y: 5 }));
    assert!(ship_contains(&hull, Coordinate { x: 5, y: 6 }));
    assert!(!ship_contains(&hull, Coordinate { x: 6, y: 5 }));
    assert!(!ship_contains(&Vec::new(), Coordinate { x: 5, y: 5 }));
}

#[test]
fn validator_is_deterministic() {
    let fleet = legal_fleet();
    assert_eq!(verify_position(&fleet), verify_position(&fleet));
    let mut broken = legal_fleet();
    broken[2] = ship(&[(3, 0), (3, 1), (3, 3)]);
    assert_eq!(verify_position(&broken), verify_position(&broken));
}
