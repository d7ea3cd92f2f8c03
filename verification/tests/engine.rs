use conway::{ConstructionError, ConwayMap, LoadError, Pos};

fn map_with(size: i32, cells: &[(i32, i32)]) -> ConwayMap {
    let mut map = ConwayMap::with_size(size, 3).unwrap();
    for &(x, y) in cells {
        map.seed_cell(Pos(x, y), 1);
    }
    map
}

fn sorted(mut cells: Vec<Pos>) -> Vec<(i32, i32)> {
    cells.sort_by_key(|p| (p.0, p.1));
    cells.into_iter().map(|p| (p.0, p.1)).collect()
}

fn live(map: &ConwayMap) -> Vec<(i32, i32)> {
    sorted(map.live_cells())
}

#[test]
fn new_has_the_default_settings() {
    let map = ConwayMap::new();
    assert_eq!(map.map_size(), 75);
    assert_eq!(map.rand_scarcity(), 3);
    assert!(map.is_initial());
    assert!(map.live_cells().is_empty());
    assert!(map.initial_cells().is_empty());
}

#[test]
fn default_is_new() {
    let map = ConwayMap::default();
    assert_eq!(map.map_size(), 75);
    assert_eq!(map.rand_scarcity(), 3);
    assert!(map.is_initial());
    assert!(map.live_cells().is_empty());
}

#[test]
fn with_size_takes_its_arguments() {
    let map = ConwayMap::with_size(12, 9).unwrap();
    assert_eq!(map.map_size(), 12);
    assert_eq!(map.rand_scarcity(), 9);
    assert!(map.is_initial());
    assert!(map.live_cells().is_empty());
}

#[test]
fn with_size_rejects_a_side_that_is_not_positive() {
    assert!(matches!(ConwayMap::with_size(0, 3), Err(ConstructionError::InvalidSize)));
    assert!(matches!(ConwayMap::with_size(-1, 3), Err(ConstructionError::InvalidSize)));
    assert!(matches!(ConwayMap::with_size(i32::MIN, 3), Err(ConstructionError::InvalidSize)));
    assert!(ConwayMap::with_size(1, 3).is_ok());
}

#[test]
fn set_map_size_rejects_a_side_that_is_not_positive() {
    let mut map = map_with(10, &[(1, 1)]);
    assert_eq!(map.set_map_size(0), Err(ConstructionError::InvalidSize));
    assert_eq!(map.map_size(), 10);
    assert_eq!(map.set_map_size(20), Ok(()));
    assert_eq!(map.map_size(), 20);
    assert_eq!(live(&map), vec![(1, 1)]);
}

#[test]
fn set_rand_scarcity_changes_only_the_scarcity() {
    let mut map = map_with(10, &[(1, 1)]);
    map.set_rand_scarcity(7);
    assert_eq!(map.rand_scarcity(), 7);
    assert_eq!(map.map_size(), 10);
    assert_eq!(live(&map), vec![(1, 1)]);
}

#[test]
fn seed_cell_needs_a_draw_of_one() {
    let mut map = ConwayMap::with_size(10, 3).unwrap();
    map.seed_cell(Pos(1, 1), 0);
    map.seed_cell(Pos(2, 2), 1);
    map.seed_cell(Pos(3, 3), 2);
    map.seed_cell(Pos(4, 4), 3);
    assert_eq!(live(&map), vec![(2, 2)]);
    assert!(map.is_alive(Pos(2, 2)));
    assert!(!map.is_alive(Pos(1, 1)));
}

#[test]
fn neighbors_counts_the_eight_cells_around() {
    let map = map_with(
        10,
        &[(4, 4), (5, 4), (6, 4), (4, 5), (5, 5), (6, 5), (4, 6), (5, 6), (6, 6)],
    );
    assert_eq!(map.neighbors(&Pos(5, 5)), 8);
    assert_eq!(map.neighbors(&Pos(4, 4)), 3);
    assert_eq!(map.neighbors(&Pos(5, 4)), 5);
    assert_eq!(map.neighbors(&Pos(3, 3)), 1);
    assert_eq!(map.neighbors(&Pos(8, 8)), 0);
}

#[test]
fn neighbors_reach_across_the_edges() {
    let map = map_with(10, &[(9, 9), (9, 0), (0, 9)]);
    assert_eq!(map.neighbors(&Pos(0, 0)), 3);
    assert_eq!(map.neighbors(&Pos(9, 9)), 2);
}

#[test]
fn neighbor_past_the_edge_is_the_cell_at_the_other_edge() {
    for y in 1..9 {
        let west = map_with(10, &[(9, y)]);
        assert_eq!(west.neighbors(&Pos(0, y)), 1);
        let east = map_with(10, &[(0, y)]);
        assert_eq!(east.neighbors(&Pos(9, y)), 1);
    }
    for x in 1..9 {
        let south = map_with(10, &[(x, 9)]);
        assert_eq!(south.neighbors(&Pos(x, 0)), 1);
        let north = map_with(10, &[(x, 0)]);
        assert_eq!(north.neighbors(&Pos(x, 9)), 1);
    }
}

#[test]
fn neighbors_of_a_cell_off_the_grid_are_taken_at_the_edge() {
    let map = map_with(10, &[(9, 3), (9, 4), (9, 5)]);
    assert_eq!(map.neighbors(&Pos(-7, 4)), 8);
    let map = map_with(10, &[(0, 3)]);
    assert_eq!(map.neighbors(&Pos(40, 3)), 2);
}

#[test]
fn cells_off_the_grid_are_nobodys_neighbors() {
    let map = map_with(10, &[(-1, 0), (10, 0), (0, -1), (0, 10)]);
    assert_eq!(map.neighbors(&Pos(0, 0)), 0);
    assert_eq!(map.neighbors(&Pos(9, 0)), 0);
    assert_eq!(map.neighbors(&Pos(0, 9)), 0);
}

#[test]
fn on_a_grid_of_one_cell_every_step_leads_home() {
    let map = map_with(1, &[(0, 0)]);
    assert_eq!(map.neighbors(&Pos(0, 0)), 8);
}

#[test]
fn a_single_cell_dies() {
    let mut map = map_with(10, &[(5, 5)]);
    map.update();
    assert!(map.live_cells().is_empty());
}

#[test]
fn a_cell_with_one_neighbor_dies() {
    let mut map = map_with(10, &[(5, 5), (6, 5)]);
    map.update();
    assert!(map.live_cells().is_empty());
}

#[test]
fn a_cell_with_two_neighbors_survives() {
    let mut map = map_with(10, &[(4, 4), (5, 5), (6, 6)]);
    map.update();
    assert_eq!(live(&map), vec![(5, 5)]);
}

#[test]
fn a_cell_with_three_neighbors_survives() {
    let mut map = map_with(10, &[(5, 5), (4, 4), (6, 4), (5, 6)]);
    assert_eq!(map.neighbors(&Pos(5, 5)), 3);
    map.update();
    assert!(map.is_alive(Pos(5, 5)));
}

#[test]
fn a_dead_cell_with_three_neighbors_is_born() {
    let mut map = map_with(10, &[(4, 4), (6, 4), (5, 6)]);
    assert!(!map.is_alive(Pos(5, 5)));
    assert_eq!(map.neighbors(&Pos(5, 5)), 3);
    map.update();
    assert_eq!(live(&map), vec![(5, 5)]);
}

#[test]
fn a_dead_cell_with_two_neighbors_stays_dead() {
    let mut map = map_with(10, &[(4, 5), (6, 5)]);
    assert_eq!(map.neighbors(&Pos(5, 5)), 2);
    map.update();
    assert!(!map.is_alive(Pos(5, 5)));
}

#[test]
fn a_dead_cell_with_four_neighbors_stays_dead() {
    let mut map = map_with(10, &[(4, 4), (6, 4), (4, 6), (6, 6)]);
    assert_eq!(map.neighbors(&Pos(5, 5)), 4);
    map.update();
    assert!(!map.is_alive(Pos(5, 5)));
}

#[test]
fn a_live_cell_with_four_neighbors_dies() {
    let mut map = map_with(10, &[(5, 5), (4, 4), (6, 4), (4, 6), (6, 6)]);
    assert_eq!(map.neighbors(&Pos(5, 5)), 4);
    map.update();
    assert!(!map.is_alive(Pos(5, 5)));
}

#[test]
fn block_is_still() {
    for x in 0..9 {
        for y in 0..9 {
            let cells = [(x, y), (x + 1, y), (x, y + 1), (x + 1, y + 1)];
            let mut map = map_with(10, &cells);
            let before = live(&map);
            map.update();
            assert_eq!(live(&map), before);
            map.update();
            assert_eq!(live(&map), before);
        }
    }
}

#[test]
fn block_is_still_on_the_smallest_grid_that_holds_it() {
    let mut map = map_with(3, &[(0, 0), (1, 0), (0, 1), (1, 1)]);
    map.update();
    assert_eq!(live(&map), vec![(0, 0), (0, 1), (1, 0), (1, 1)]);
}

#[test]
fn blinker_has_period_two() {
    let mut map = map_with(10, &[(3, 5), (4, 5), (5, 5)]);
    map.update();
    assert_eq!(live(&map), vec![(4, 4), (4, 5), (4, 6)]);
    map.update();
    assert_eq!(live(&map), vec![(3, 5), (4, 5), (5, 5)]);
}

#[test]
fn blinker_turns_across_the_edge() {
    let mut map = map_with(10, &[(3, 0), (4, 0), (5, 0)]);
    map.update();
    assert_eq!(live(&map), vec![(4, 0), (4, 1), (4, 9)]);
    map.update();
    assert_eq!(live(&map), vec![(3, 0), (4, 0), (5, 0)]);
}

#[test]
fn glider_moves_one_cell_in_four_steps() {
    let mut map = map_with(20, &[(2, 1), (3, 2), (1, 3), (2, 3), (3, 3)]);
    for _ in 0..4 {
        map.update();
    }
    assert_eq!(live(&map), vec![(2, 4), (3, 2), (3, 4), (4, 3), (4, 4)]);
}

#[test]
fn cells_off_the_grid_do_not_survive_a_step() {
    let mut map = map_with(10, &[(-3, 4), (-3, 5), (-4, 4), (-4, 5), (20, 20)]);
    map.update();
    assert!(map.live_cells().is_empty());
}

#[test]
fn update_clears_the_initial_mark() {
    let mut map = ConwayMap::new();
    assert!(map.is_initial());
    map.update();
    assert!(!map.is_initial());
    assert_eq!(map.map_size(), 75);
    assert_eq!(map.rand_scarcity(), 3);
}

#[test]
fn snapshot_then_step_then_restore_brings_the_cells_back() {
    let cells = [(3, 5), (4, 5), (5, 5), (0, 0), (9, 9), (-2, 30)];
    let mut map = map_with(10, &cells);
    let before = live(&map);
    map.cache_initial_state();
    assert!(map.is_initial());
    assert_eq!(sorted(map.initial_cells()), before);
    map.update();
    assert!(!map.is_initial());
    assert_ne!(live(&map), before);
    assert_eq!(sorted(map.initial_cells()), before);
    map.restore_initial_state();
    assert!(map.is_initial());
    assert_eq!(live(&map), before);
    assert_eq!(sorted(map.initial_cells()), before);
}

#[test]
fn restore_without_a_snapshot_gives_no_cells() {
    let mut map = map_with(10, &[(1, 1)]);
    map.restore_initial_state();
    assert!(map.live_cells().is_empty());
    assert!(map.is_initial());
}

#[test]
fn clear_keeps_the_snapshot() {
    let mut map = map_with(10, &[(1, 1), (2, 2)]);
    map.cache_initial_state();
    map.update();
    map.clear();
    assert!(map.live_cells().is_empty());
    assert!(!map.is_initial());
    assert_eq!(sorted(map.initial_cells()), vec![(1, 1), (2, 2)]);
}

#[test]
fn random_cells_keep_to_the_seed_region() {
    let mut map = ConwayMap::with_size(20, 1).unwrap();
    for _ in 0..20 {
        map.gen_random();
        for p in map.live_cells() {
            assert!(0 <= p.0 && p.0 <= 16, "column {}", p.0);
            assert!(0 <= p.1 && p.1 <= 16, "row {}", p.1);
        }
    }
}

#[test]
fn random_seeding_draws_below_the_scarcity_too() {
    let mut map = ConwayMap::with_size(75, 3).unwrap();
    map.gen_random();
    let count = map.live_cells().len();
    assert!(count > 0);
    assert!(count < 72 * 72);
}

#[test]
fn random_seeding_with_scarcity_one_is_neither_empty_nor_full() {
    let mut map = ConwayMap::with_size(75, 1).unwrap();
    map.gen_random();
    let count = map.live_cells().len();
    assert!(count > 0);
    assert!(count < 72 * 72);
}

#[test]
fn random_seeding_with_scarcity_zero_leaves_no_cell() {
    let mut map = map_with(20, &[(1, 1)]);
    map.set_rand_scarcity(0);
    map.gen_random();
    assert!(map.live_cells().is_empty());
}

#[test]
fn random_seeding_replaces_the_cells() {
    let mut map = map_with(10, &[(9, 9), (-1, -1)]);
    map.gen_random();
    assert!(!map.is_alive(Pos(9, 9)));
    assert!(!map.is_alive(Pos(-1, -1)));
}

#[test]
fn random_seeding_on_a_small_grid_leaves_no_cell() {
    for size in 1..4 {
        let mut map = ConwayMap::with_size(size, 1).unwrap();
        map.seed_cell(Pos(0, 0), 1);
        map.gen_random();
        assert!(map.live_cells().is_empty());
    }
}

#[test]
fn random_seeding_on_a_grid_of_four_has_one_candidate() {
    let mut map = ConwayMap::with_size(4, 1).unwrap();
    for _ in 0..20 {
        map.gen_random();
        for p in map.live_cells() {
            assert_eq!(p, Pos(0, 0));
        }
    }
}

#[test]
fn random_seeding_keeps_snapshot_and_initial_mark() {
    let mut map = map_with(10, &[(1, 1)]);
    map.cache_initial_state();
    map.gen_random();
    assert!(map.is_initial());
    assert_eq!(sorted(map.initial_cells()), vec![(1, 1)]);
    map.update();
    map.gen_random();
    assert!(!map.is_initial());
    assert_eq!(sorted(map.initial_cells()), vec![(1, 1)]);
}

#[test]
fn load_reads_rows_and_columns() {
    let mut map = ConwayMap::new();
    assert_eq!(map.generate_from_file(Some(".#.\n..#\n###\n")), Ok(()));
    assert_eq!(live(&map), vec![(0, 2), (1, 0), (1, 2), (2, 1), (2, 2)]);
}

#[test]
fn load_replaces_the_cells() {
    let mut map = map_with(10, &[(7, 7)]);
    assert_eq!(map.generate_from_file(Some("#")), Ok(()));
    assert_eq!(live(&map), vec![(0, 0)]);
    assert_eq!(map.generate_from_file(Some("")), Ok(()));
    assert!(map.live_cells().is_empty());
}

#[test]
fn load_failure_changes_nothing() {
    let mut map = map_with(10, &[(3, 5), (4, 5), (5, 5)]);
    map.cache_initial_state();
    map.update();
    let cells = live(&map);
    let snapshot = sorted(map.initial_cells());
    assert_eq!(map.generate_from_file(None), Err(LoadError::Unreadable));
    assert_eq!(live(&map), cells);
    assert_eq!(sorted(map.initial_cells()), snapshot);
    assert!(!map.is_initial());
    assert_eq!(map.map_size(), 10);
    assert_eq!(map.rand_scarcity(), 3);
}

#[test]
fn load_keeps_snapshot_and_initial_mark() {
    let mut map = map_with(10, &[(1, 1)]);
    map.cache_initial_state();
    assert_eq!(map.generate_from_file(Some("##")), Ok(()));
    assert!(map.is_initial());
    assert_eq!(sorted(map.initial_cells()), vec![(1, 1)]);
    map.update();
    assert_eq!(map.generate_from_file(Some("##")), Ok(()));
    assert!(!map.is_initial());
}

#[test]
fn load_accepts_cells_beyond_the_grid() {
    let mut map = ConwayMap::with_size(2, 3).unwrap();
    assert_eq!(map.generate_from_file(Some("...#\n\n\n#")), Ok(()));
    assert_eq!(live(&map), vec![(0, 3), (3, 0)]);
}

#[test]
fn bounding_box_of_no_cells_is_none() {
    let map = ConwayMap::new();
    assert_eq!(map.find_min(), None);
    assert_eq!(map.find_max(), None);
    assert_eq!(map.bounding_box(), None);
}

#[test]
fn bounding_box_takes_each_axis_by_itself() {
    let map = map_with(50, &[(3, 9), (7, 2), (5, 5)]);
    assert_eq!(map.find_min(), Some((3, 2)));
    assert_eq!(map.find_max(), Some((7, 9)));
    assert_eq!(map.bounding_box(), Some(((3, 2), (7, 9))));
}

#[test]
fn bounding_box_of_negative_coordinates() {
    let map = map_with(50, &[(-1, -9), (-7, -1), (-5, -5)]);
    assert_eq!(map.find_min(), Some((-7, -9)));
    assert_eq!(map.find_max(), Some((-1, -1)));
    let map = map_with(50, &[(-1, 4), (5, -1)]);
    assert_eq!(map.bounding_box(), Some(((-1, -1), (5, 4))));
}

#[test]
fn bounding_box_of_one_cell() {
    let map = map_with(50, &[(i32::MIN, i32::MAX)]);
    assert_eq!(map.bounding_box(), Some(((i32::MIN, i32::MAX), (i32::MIN, i32::MAX))));
}

#[test]
fn center_moves_a_pattern_at_the_origin() {
    let mut map = map_with(75, &[(0, 0), (1, 0), (2, 0), (1, 4)]);
    assert!(map.center_cells());
    assert_eq!(live(&map), vec![(36, 35), (37, 35), (37, 39), (38, 35)]);
    assert_eq!(map.bounding_box(), Some(((36, 35), (38, 39))));
}

#[test]
fn center_moves_a_pattern_from_anywhere() {
    let mut map = map_with(75, &[(60, 10), (61, 10), (62, 10), (61, 14)]);
    assert!(map.center_cells());
    assert_eq!(live(&map), vec![(36, 35), (37, 35), (37, 39), (38, 35)]);
    let mut map = map_with(75, &[(-100, 1000), (-98, 1004)]);
    assert!(map.center_cells());
    assert_eq!(live(&map), vec![(36, 35), (38, 39)]);
}

#[test]
fn center_twice_is_center_once() {
    let mut map = map_with(20, &[(1, 2), (4, 9), (2, 2)]);
    assert!(map.center_cells());
    let once = live(&map);
    assert!(map.center_cells());
    assert_eq!(live(&map), once);
}

#[test]
fn center_puts_the_middle_of_the_box_on_the_middle_of_the_grid() {
    for size in [1, 2, 7, 10, 75] {
        let mut map = map_with(size, &[(3, 4), (8, 4), (5, 11)]);
        assert!(map.center_cells());
        let (lo, hi) = map.bounding_box().unwrap();
        assert_eq!(lo.0 + (hi.0 - lo.0) / 2, size / 2);
        assert_eq!(lo.1 + (hi.1 - lo.1) / 2, size / 2);
    }
}

#[test]
fn center_does_not_wrap_a_pattern_wider_than_the_grid() {
    let mut map = map_with(4, &[(0, 0), (9, 0)]);
    assert!(map.center_cells());
    assert_eq!(live(&map), vec![(-2, 2), (7, 2)]);
}

#[test]
fn center_of_no_cells_does_nothing() {
    let mut map = ConwayMap::new();
    assert!(map.center_cells());
    assert!(map.live_cells().is_empty());
}

#[test]
fn center_refuses_a_move_out_of_the_coordinate_range() {
    let cells = [(i32::MIN, 0), (i32::MAX, 0)];
    let mut map = map_with(75, &cells);
    assert!(!map.center_cells());
    assert_eq!(live(&map), vec![(i32::MIN, 0), (i32::MAX, 0)]);
}

#[test]
fn center_keeps_snapshot_initial_mark_and_settings() {
    let mut map = map_with(30, &[(1, 1)]);
    map.cache_initial_state();
    assert!(map.center_cells());
    assert!(map.is_initial());
    assert_eq!(sorted(map.initial_cells()), vec![(1, 1)]);
    assert_eq!(live(&map), vec![(15, 15)]);
    assert_eq!(map.map_size(), 30);
}

#[test]
fn cell_size_divides_the_extent_by_the_side() {
    let map = ConwayMap::new();
    assert_eq!(map.cell_size_for(750), 10);
    assert_eq!(map.cell_size_for(800), 10);
    assert_eq!(map.cell_size_for(74), 0);
    assert_eq!(map.cell_size_for(0), 0);
    assert_eq!(map.cell_size_for(-80), -1);
    assert_eq!(map.cell_size_for(-74), 0);
    assert_eq!(map.cell_size_for(i32::MIN), -28633115);
}

#[test]
fn from_saved_takes_settings_mark_and_snapshot() {
    let map = ConwayMap::from_saved(40, 5, false, &vec![Pos(1, 2), Pos(3, 4), Pos(1, 2)]).unwrap();
    assert_eq!(map.map_size(), 40);
    assert_eq!(map.rand_scarcity(), 5);
    assert!(!map.is_initial());
    assert!(map.live_cells().is_empty());
    assert_eq!(sorted(map.initial_cells()), vec![(1, 2), (3, 4)]);
    let map = ConwayMap::from_saved(40, 5, true, &Vec::new()).unwrap();
    assert!(map.is_initial());
    assert!(map.initial_cells().is_empty());
}

#[test]
fn from_saved_rejects_a_side_that_is_not_positive() {
    assert!(matches!(
        ConwayMap::from_saved(0, 5, true, &vec![Pos(1, 2)]),
        Err(ConstructionError::InvalidSize)
    ));
}

#[test]
fn from_saved_can_be_restored() {
    let mut map = ConwayMap::from_saved(10, 3, false, &vec![Pos(3, 5), Pos(4, 5), Pos(5, 5)]).unwrap();
    map.restore_initial_state();
    assert!(map.is_initial());
    map.update();
    assert_eq!(live(&map), vec![(4, 4), (4, 5), (4, 6)]);
}
