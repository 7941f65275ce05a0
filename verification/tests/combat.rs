use battleship_engine::board::Coordinate;
use battleship_engine::combat::{is_fleet_destroyed, is_hit, is_sunk};

fn cells(list: &[(u32, u32)]) -> Vec<Coordinate> {
    list.iter().map(|&(x, y)| Coordinate { x, y }).collect()
}

fn small_fleet() -> Vec<Vec<Coordinate>> {
    vec![cells(&[(5, 5), (5, 6)]), cells(&[(1, 7), (2, 7), (3, 7)])]
}

#[test]
fn hit_reports_the_length_of_the_ship() {
    let fleet = small_fleet();
    assert_eq!(is_hit(&fleet, &Coordinate { x: 5, y: 6 }), (true, 2));
    assert_eq!(is_hit(&fleet, &Coordinate { x: 2, y: 7 }), (true, 3));
}

#[test]
fn miss_reports_length_zero() {
    let fleet = small_fleet();
    assert_eq!(is_hit(&fleet, &Coordinate { x: 0, y: 0 }), (false, 0));
    assert_eq!(is_hit(&fleet, &Coordinate { x: 6, y: 5 }), (false, 0));
    assert_eq!(is_hit(&Vec::new(), &Coordinate { x: 0, y: 0 }), (false, 0));
}

#[test]
fn hit_on_a_shared_cell_reports_the_first_ship() {
    let fleet = vec![cells(&[(1, 1), (1, 2)]), cells(&[(1, 1), (2, 1), (3, 1)])];
    assert_eq!(is_hit(&fleet, &Coordinate { x: 1, y: 1 }), (true, 2));
    assert_eq!(is_hit(&fleet, &Coordinate { x: 2, y: 1 }), (true, 3));
}

#[test]
fn ship_is_sunk_when_all_its_cells_are_hit() {
    let fleet = small_fleet();
    let one = cells(&[(5, 5)]);
    let both = cells(&[(5, 5), (5, 6)]);
    assert!(!is_sunk(&fleet, &one, &Coordinate { x: 5, y: 5 }));
    assert!(is_sunk(&fleet, &both, &Coordinate { x: 5, y: 6 }));
    assert!(is_sunk(&fleet, &both, &Coordinate { x: 5, y: 5 }));
}

#[test]
fn miss_sinks_nothing() {
    let fleet = small_fleet();
    let both = cells(&[(5, 5), (5, 6)]);
    assert!(!is_sunk(&fleet, &both, &Coordinate { x: 0, y: 0 }));
    assert!(!is_sunk(&Vec::new(), &both, &Coordinate { x: 5, y: 5 }));
}

#[test]
fn repeated_hits_do_not_sink_a_ship() {
    let fleet = small_fleet();
    let twice = cells(&[(5, 5), (5, 5)]);
    assert!(!is_sunk(&fleet, &twice, &Coordinate { x: 5, y: 5 }));
    assert!(!is_fleet_destroyed(&fleet, &twice));
}

#[test]
fn fleet_is_destroyed_when_every_cell_is_hit() {
    let fleet = small_fleet();
    let four = cells(&[(5, 5), (5, 6), (1, 7), (2, 7)]);
    let all = cells(&[(5, 5), (3, 7), (5, 6), (1, 7), (2, 7)]);
    assert!(!is_fleet_destroyed(&fleet, &four));
    assert!(is_fleet_destroyed(&fleet, &all));
}

#[test]
fn destroyed_fleet_stays_destroyed_under_more_hits() {
    let fleet = small_fleet();
    let mut hits = cells(&[(5, 5), (3, 7), (5, 6), (1, 7), (2, 7)]);
    assert!(is_fleet_destroyed(&fleet, &hits));
    hits.push(Coordinate { x: 5, y: 5 });
    hits.push(Coordinate { x: 9, y: 9 });
    assert!(is_fleet_destroyed(&fleet, &hits));
}

#[test]
fn fleet_without_ships_has_nothing_left_to_hit() {
    assert!(is_fleet_destroyed(&Vec::new(), &Vec::new()));
}
