use findkitten::arena::{Arena, ArenaError, MAX_NKIS};
use findkitten::coord::Coord;

fn descs(n: usize) -> Vec<String> {
    (0..n).map(|i| format!("decoy number {}", i)).collect()
}

#[test]
fn ten_by_ten_scenario() {
    // A 10x10 interior: two rows of the terminal go to the status region.
    let top_lr = Coord::new(12, 10);
    let d = vec![
        "a red ball".to_string(),
        "a torn sock".to_string(),
        "a dusty book".to_string(),
    ];
    let (start, arena) = Arena::new(top_lr, d, 0).unwrap();

    // Exactly one goal plus three decoys.
    assert_eq!(arena.objects.len(), 4);

    // All placement coordinates pairwise distinct and inside [1,10]x[1,10].
    for (i, (c, _)) in arena.objects.iter().enumerate() {
        assert!(1 <= c.row && c.row <= 10);
        assert!(1 <= c.col && c.col <= 10);
        for (j, (c2, _)) in arena.objects.iter().enumerate() {
            if i != j {
                assert_ne!(c, c2);
            }
        }
    }

    // The player start is inside the interior and on none of the items.
    assert!(1 <= start.row && start.row <= 10);
    assert!(1 <= start.col && start.col <= 10);
    assert!(arena.objects.iter().all(|(c, _)| *c != start));

    // The goal coordinate is a key of the placement.
    assert!(arena.objects.iter().any(|(c, _)| *c == arena.kitten_coord));
    let goal = arena.item_at(arena.kitten_coord).unwrap();
    assert_eq!(goal.desc, "your beautiful kitten!");
}

#[test]
fn decoy_count_is_clamped() {
    let top_lr = Coord::new(66, 128);
    let (_, arena) = Arena::new(top_lr, descs(MAX_NKIS + 50), 0).unwrap();
    assert_eq!(arena.objects.len(), 1 + MAX_NKIS);
}

#[test]
fn decoy_count_below_ceiling() {
    let top_lr = Coord::new(66, 128);
    let (_, arena) = Arena::new(top_lr, descs(7), 0).unwrap();
    assert_eq!(arena.objects.len(), 8);
}

#[test]
fn decoy_descriptions_come_from_the_supplied_list() {
    let top_lr = Coord::new(12, 10);
    let supplied = ["a red ball", "a torn sock", "a dusty book"];
    let d: Vec<String> = supplied.iter().map(|s| s.to_string()).collect();
    let (_, arena) = Arena::new(top_lr, d, 0).unwrap();
    let mut seen: Vec<&str> = Vec::new();
    for (c, o) in arena.objects.iter() {
        if *c == arena.kitten_coord {
            assert_eq!(o.desc, "your beautiful kitten!");
        } else {
            assert!(supplied.contains(&o.desc.as_str()));
            assert!(!seen.contains(&o.desc.as_str()));
            seen.push(o.desc.as_str());
        }
    }
    assert_eq!(seen.len(), 3);
}

#[test]
fn duplicate_descriptions_keep_their_multiplicity() {
    let d = vec![
        "a red ball".to_string(),
        "a red ball".to_string(),
        "a torn sock".to_string(),
    ];
    let (_, arena) = Arena::new(Coord::new(12, 10), d, 0).unwrap();
    let mut ball: u32 = 0;
    let mut sock: u32 = 0;
    for (c, o) in arena.objects.iter() {
        if *c != arena.kitten_coord {
            match o.desc.as_str() {
                "a red ball" => ball += 1,
                "a torn sock" => sock += 1,
                other => panic!("unexpected description: {}", other),
            }
        }
    }
    assert_eq!(ball, 2);
    assert_eq!(sock, 1);
}

#[test]
fn symbols_are_printable_non_space_ascii() {
    let top_lr = Coord::new(20, 30);
    let (_, arena) = Arena::new(top_lr, descs(10), 0).unwrap();
    for (_, o) in arena.objects.iter() {
        let cp = o.symbol as u32;
        assert!(33 <= cp && cp <= 126);
    }
}

#[test]
fn too_small_interior_is_rejected() {
    // A 1x1 interior cannot hold the player and the goal.
    let r = Arena::new(Coord::new(3, 1), Vec::new(), 0);
    assert_eq!(r.unwrap_err(), ArenaError::FieldTooSmall);

    // No interior rows at all.
    let r = Arena::new(Coord::new(2, 50), Vec::new(), 0);
    assert_eq!(r.unwrap_err(), ArenaError::FieldTooSmall);
}

#[test]
fn smallest_workable_interior_is_accepted() {
    // A 1x2 interior holds exactly the player and the goal.
    let (start, arena) = Arena::new(Coord::new(3, 2), Vec::new(), 0).unwrap();
    assert_eq!(arena.objects.len(), 1);
    assert_ne!(start, arena.kitten_coord);
}

#[test]
fn extra_descriptions_beyond_the_pool_are_rejected() {
    // A 2x2 interior offers four cells; three decoys plus player and goal
    // need five.
    let r = Arena::new(Coord::new(4, 2), descs(3), 0);
    assert_eq!(r.unwrap_err(), ArenaError::FieldTooSmall);

    // Two decoys fit exactly.
    let (_, arena) = Arena::new(Coord::new(4, 2), descs(2), 0).unwrap();
    assert_eq!(arena.objects.len(), 3);
}

#[test]
fn start_and_goal_are_uniform_over_the_interior() {
    // A 3x3 interior, many constructions: every cell should take the start
    // and the goal roughly equally often. With 9000 trials a uniform draw
    // puts about 1000 in each cell; the bounds below are far outside any
    // plausible fluctuation.
    fastrand::seed(0x5eed_cafe);
    let trials: u32 = 9000;
    let mut start_counts = [[0u32; 3]; 3];
    let mut goal_counts = [[0u32; 3]; 3];
    for _ in 0..trials {
        let (start, arena) = Arena::new(Coord::new(5, 3), Vec::new(), 0).unwrap();
        start_counts[(start.row - 1) as usize][(start.col - 1) as usize] += 1;
        let g = arena.kitten_coord;
        goal_counts[(g.row - 1) as usize][(g.col - 1) as usize] += 1;
        assert_ne!(start, g);
    }
    for r in 0..3 {
        for c in 0..3 {
            assert!(
                800 <= start_counts[r][c] && start_counts[r][c] <= 1200,
                "start cell ({}, {}) hit {} times",
                r,
                c,
                start_counts[r][c]
            );
            assert!(
                800 <= goal_counts[r][c] && goal_counts[r][c] <= 1200,
                "goal cell ({}, {}) hit {} times",
                r,
                c,
                goal_counts[r][c]
            );
        }
    }
}
