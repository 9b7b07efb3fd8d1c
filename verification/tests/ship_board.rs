use netbattleship::board::Board;
use netbattleship::ship::Ship;

fn cells_of(b: &Board) -> Vec<Ship> {
    let mut out = Vec::new();
    for row in 0..10u8 {
        for col in 0..10u8 {
            out.push(b.at(col, row));
        }
    }
    out
}

#[test]
fn ship_lengths() {
    assert_eq!(Ship::Carrier.len(), 5);
    assert_eq!(Ship::Battleship.len(), 4);
    assert_eq!(Ship::Cruiser.len(), 3);
    assert_eq!(Ship::Submarine.len(), 3);
    assert_eq!(Ship::Destroyer.len(), 2);
    assert_eq!(Ship::Empty.len(), 0);
    assert_eq!(Ship::Miss.len(), 0);
    assert_eq!(Ship::Hit.len(), 0);
    let total: u8 = Ship::into_iter().iter().map(|s| s.len()).sum();
    assert_eq!(total, 17);
}

#[test]
fn ship_is_empty() {
    assert!(Ship::Empty.is_empty());
    assert!(Ship::Miss.is_empty());
    assert!(Ship::Hit.is_empty());
    assert!(!Ship::Carrier.is_empty());
    assert!(!Ship::Destroyer.is_empty());
}

#[test]
fn placement_order_catalog() {
    let order = Ship::into_iter();
    assert_eq!(
        order,
        vec![
            Ship::Carrier,
            Ship::Battleship,
            Ship::Cruiser,
            Ship::Submarine,
            Ship::Destroyer
        ]
    );
}

#[test]
fn new_board_is_empty() {
    let b = Board::new();
    for row in 0..10u8 {
        for col in 0..10u8 {
            assert_eq!(b.at(col, row), Ship::Empty);
        }
    }
    assert!(!b.contains(Ship::Carrier));
    assert!(!b.any_ship());
}

#[test]
fn place_horizontal() {
    let mut b = Board::new();
    assert!(Ship::Destroyer.place(&mut b, (0, 0), false));
    assert_eq!(b.at(0, 0), Ship::Destroyer);
    assert_eq!(b.at(1, 0), Ship::Destroyer);
    assert_eq!(b.at(2, 0), Ship::Empty);
    assert!(b.contains(Ship::Destroyer));
}

#[test]
fn place_vertical() {
    let mut b = Board::new();
    assert!(Ship::Carrier.place(&mut b, (3, 2), true));
    for row in 2..7u8 {
        assert_eq!(b.at(3, row), Ship::Carrier);
    }
    assert_eq!(b.at(3, 7), Ship::Empty);
    assert_eq!(b.at(2, 2), Ship::Empty);
}

#[test]
fn place_at_edge() {
    let mut b = Board::new();
    assert!(Ship::Destroyer.place(&mut b, (8, 9), false));
    assert_eq!(b.at(8, 9), Ship::Destroyer);
    assert_eq!(b.at(9, 9), Ship::Destroyer);
    let mut b2 = Board::new();
    assert!(Ship::Carrier.place(&mut b2, (0, 5), true));
}

#[test]
fn place_out_of_bounds_fails_unchanged() {
    let mut b = Board::new();
    assert!(!Ship::Carrier.place(&mut b, (6, 0), false));
    assert!(!Ship::Carrier.place(&mut b, (0, 6), true));
    assert!(!Ship::Destroyer.place(&mut b, (9, 0), false));
    assert!(!Ship::Destroyer.place(&mut b, (0, 9), true));
    assert!(!Ship::Destroyer.place(&mut b, (10, 0), false));
    for row in 0..10u8 {
        for col in 0..10u8 {
            assert_eq!(b.at(col, row), Ship::Empty);
        }
    }
}

#[test]
fn failed_overlap_leaves_board_unchanged() {
    let mut b = Board::new();
    assert!(Ship::Destroyer.place(&mut b, (4, 0), false));
    let before = cells_of(&b);
    // The span (2,0)..(4,0) starts on open water and collides only at its
    // last cell: the two-pass check must leave even the free cells alone.
    assert!(!Ship::Cruiser.place(&mut b, (2, 0), false));
    assert_eq!(cells_of(&b), before);
    assert_eq!(b.at(2, 0), Ship::Empty);
    assert_eq!(b.at(3, 0), Ship::Empty);
}

#[test]
fn duplicate_copies_cells() {
    let mut b = Board::new();
    assert!(Ship::Submarine.place(&mut b, (1, 1), true));
    let copy = b.duplicate();
    assert_eq!(cells_of(&b), cells_of(&copy));
}
