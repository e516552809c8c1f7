use findkitten::arena::{Arena, Object};
use findkitten::coord::Coord;
use findkitten::player::Player;

/// A fixed board: the goal at (2,2), one decoy at (3,3), inside a 10x10
/// interior.
fn fixed_arena() -> Arena {
    Arena {
        lr: Coord::new(12, 12),
        kitten_coord: Coord::new(2, 2),
        objects: vec![
            (
                Coord::new(2, 2),
                Object { symbol: 'k', desc: "your beautiful kitten!".to_string() },
            ),
            (Coord::new(3, 3), Object { symbol: 'd', desc: "a dusty book".to_string() }),
        ],
        foreground: 0,
    }
}

#[test]
fn move_updates_location() {
    let arena = fixed_arena();
    let mut p = Player::new(Coord::new(5, 5));
    let eff = p.moove(&arena, 1, 0);
    assert_eq!(p.loc, Coord::new(6, 5));
    assert_eq!(eff.vacated, Coord::new(5, 5));
    assert_eq!(eff.vacated_symbol, None);
    assert!(!eff.entered_item);
    assert!(!eff.status_cleared);
    assert!(!p.clear_status);
    assert!(!p.kitten_found);
}

#[test]
fn move_round_trip_restores_location_and_cell() {
    let arena = fixed_arena();
    let mut p = Player::new(Coord::new(5, 5));
    p.moove(&arena, 1, 1);
    let eff = p.moove(&arena, -1, -1);
    assert_eq!(p.loc, Coord::new(5, 5));
    // The visited empty cell restores to background.
    assert_eq!(eff.vacated, Coord::new(6, 6));
    assert_eq!(eff.vacated_symbol, None);
}

#[test]
fn move_round_trip_over_an_item_restores_its_symbol() {
    let arena = fixed_arena();
    let mut p = Player::new(Coord::new(2, 3));
    p.moove(&arena, 1, 0);
    assert_eq!(p.loc, Coord::new(3, 3));
    let eff = p.moove(&arena, -1, 0);
    assert_eq!(p.loc, Coord::new(2, 3));
    // The vacated item cell restores to the item's own symbol.
    assert_eq!(eff.vacated, Coord::new(3, 3));
    assert_eq!(eff.vacated_symbol, Some('d'));
}

#[test]
fn status_raised_on_item_and_cleared_on_next_move() {
    let arena = fixed_arena();
    let mut p = Player::new(Coord::new(4, 3));
    let eff = p.moove(&arena, -1, 0);
    // Landed on the decoy: its description is to be shown.
    assert!(eff.entered_item);
    assert!(!eff.status_cleared);
    assert!(p.clear_status);
    // The very next move clears the status first, wherever it goes.
    let eff2 = p.moove(&arena, 1, 1);
    assert!(eff2.status_cleared);
    assert!(!p.clear_status);
}

#[test]
fn goal_cell_sets_kitten_found() {
    let arena = fixed_arena();
    let mut p = Player::new(Coord::new(1, 2));
    let eff = p.moove(&arena, 1, 0);
    assert_eq!(p.loc, Coord::new(2, 2));
    assert!(eff.entered_item);
    assert!(p.kitten_found);
}

#[test]
fn decoy_cell_leaves_kitten_found_clear() {
    let arena = fixed_arena();
    let mut p = Player::new(Coord::new(4, 3));
    let eff = p.moove(&arena, -1, 0);
    assert!(eff.entered_item);
    assert!(!p.kitten_found);
}

#[test]
fn item_lookup_finds_first_match_and_nothing_elsewhere() {
    let arena = fixed_arena();
    assert_eq!(arena.item_at(Coord::new(3, 3)).unwrap().desc, "a dusty book");
    assert_eq!(arena.item_at(Coord::new(3, 3)).unwrap().symbol, 'd');
    assert!(arena.item_at(Coord::new(4, 4)).is_none());
}
