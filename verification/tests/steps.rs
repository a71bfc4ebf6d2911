use rust_life::Board;

fn glider() -> Board {
    Board::from_str(".@...\n..@..\n@@@..\n.....\n.....").unwrap()
}

#[test]
fn outside_the_board_every_cell_is_dead() {
    let brd = Board::from_str("@@\n@@").unwrap();
    assert!(brd.cell_live(1, 1));
    assert!(!brd.cell_live(2, 0));
    assert!(!brd.cell_live(0, 2));
    assert!(!brd.cell_live(2, 2));
    assert!(!brd.cell_live(usize::MAX, 0));
    assert!(!brd.cell_live(0, usize::MAX));
    assert!(!Board::new(0, 0).cell_live(0, 0));
}

#[test]
fn cell_live_takes_the_column_first() {
    let brd = Board::from_str(".@.\n...").unwrap();
    assert!(brd.cell_live(1, 0));
    assert!(!brd.cell_live(0, 1));
}

#[test]
fn neighbours_are_counted_across_the_edge() {
    let brd = Board::from_str("@@\n@@").unwrap();
    assert_eq!(brd.living_neighbors(0, 0), 3);
    assert_eq!(brd.living_neighbors(2, 0), 2);
    assert_eq!(brd.living_neighbors(2, 2), 1);
    assert_eq!(brd.living_neighbors(3, 3), 0);
    assert_eq!(brd.living_neighbors(usize::MAX, usize::MAX), 0);
    assert_eq!(brd.living_neighbors(usize::MAX, 0), 0);
    let full = Board::from_str("@@@\n@@@\n@@@").unwrap();
    assert_eq!(full.living_neighbors(1, 1), 8);
}

#[test]
fn successor_follows_the_classic_rule() {
    let brd = Board::from_str("...\n@@@\n...").unwrap();
    assert!(brd.successor(1, 0));
    assert!(brd.successor(1, 1));
    assert!(brd.successor(1, 2));
    assert!(!brd.successor(0, 1));
    assert!(!brd.successor(2, 1));
    assert!(!brd.successor(0, 0));
    assert!(brd.successor_cell(1));
    assert!(brd.successor_cell(4));
    assert!(!brd.successor_cell(3));
    assert!(!brd.successor_cell(8));
}

#[test]
fn a_rule_of_its_own_is_followed() {
    let seeds = Board::new_with_custom_rules(1, 3, vec![1], vec![]).toggle(1, 0);
    let next = seeds.serial_next_generation();
    assert_eq!(next.to_string(), "@.@");
    assert_eq!(next.serial_next_generation().to_string(), "...");
    let stays = Board::new_with_custom_rules(1, 3, vec![], vec![0]).toggle(1, 0);
    assert_eq!(stays.next_generation().to_string(), ".@.");
    assert_eq!(stays.next_generation().clear(), Board::new_with_custom_rules(1, 3, vec![], vec![0]));
}

#[test]
fn new_boards_are_dead_at_generation_zero() {
    let brd = Board::new(2, 3);
    assert_eq!((brd.rows(), brd.cols(), brd.len()), (2, 3, 6));
    assert_eq!(brd.generation(), 0);
    assert_eq!(brd.population(), 0);
    assert_eq!(brd, Board::new_with_custom_rules(2, 3, vec![3], vec![2, 3]));
    assert_ne!(brd, Board::new_with_custom_rules(2, 3, vec![3], vec![3, 2]));
    assert_eq!(Board::new(0, 7).len(), 0);
    assert_eq!(Board::new(7, 0).len(), 0);
}

#[test]
fn any_number_of_workers_gives_the_serial_step() {
    let mut brd = glider();
    for _ in 0..4 {
        let serial = brd.serial_next_generation();
        for workers in 0..30 {
            assert_eq!(brd.parallel_next_generation_with(workers), serial);
        }
        assert_eq!(brd.parallel_next_generation_with(usize::MAX), serial);
        assert_eq!(brd.parallel_next_generation(), serial);
        assert_eq!(brd.next_generation(), serial);
        brd = serial;
    }
    assert_eq!(brd.to_string(), ".....\n..@..\n...@.\n.@@@.\n.....");
    assert_eq!(brd.generation(), 4);
}

#[test]
fn parallel_step_of_random_boards_is_the_serial_step() {
    for (rows, cols) in [(0, 0), (1, 1), (1, 17), (17, 1), (13, 11), (40, 25)] {
        let brd = Board::new(rows, cols).random();
        let serial = brd.serial_next_generation();
        assert_eq!(brd.parallel_next_generation(), serial);
        assert_eq!(brd.parallel_next_generation_with(3), serial);
        assert_eq!(brd.parallel_next_generation_with(7), serial);
    }
}

#[test]
fn parallel_and_serial_cells_are_the_same_index_by_index() {
    for (rows, cols) in [(0, 0), (0, 5), (5, 0), (1, 1), (2, 9), (9, 2), (16, 16), (31, 7)] {
        let brd = Board::new(rows, cols).random();
        let serial = brd.serial_next_cells();
        assert_eq!(serial.len(), rows * cols);
        assert_eq!(brd.parallel_next_cells(), serial);
        for workers in [0, 1, 2, 3, 5, 8, 64, 1000, usize::MAX] {
            assert_eq!(brd.parallel_next_cells_with(workers), serial);
        }
        assert!(brd
            .parallel_next_generation()
            .iter()
            .eq(brd.serial_next_generation().iter()));
        assert_eq!(brd.serial_next_generation().cells(), &serial);
    }
    let blinker = Board::from_str("...\n@@@\n...").unwrap();
    assert_eq!(
        blinker.parallel_next_cells_with(2),
        vec![false, true, false, false, true, false, false, true, false]
    );
}

#[test]
fn chunks_are_the_next_cells_in_order() {
    let brd = Board::from_str("...\n@@@\n...").unwrap();
    let next = brd.serial_next_generation();
    assert_eq!(brd.successor_chunk(0, 4), next.cells()[0..4].to_vec());
    assert_eq!(brd.successor_chunk(1, 4), next.cells()[4..8].to_vec());
    assert_eq!(brd.successor_chunk(2, 4), next.cells()[8..9].to_vec());
    assert_eq!(brd.successor_chunk(0, 9), *next.cells());
    assert_eq!(brd.successor_chunk(0, 100), *next.cells());
    assert_eq!(brd.successor_chunk(9, 1), Vec::<bool>::new());
    assert_eq!(brd.successor_chunk(1, 1), vec![true]);
}

#[test]
fn two_steps_add_two_generations() {
    let brd = glider();
    assert_eq!(brd.next_generation().next_generation().generation(), 2);
    assert_eq!(
        brd.serial_next_generation().parallel_next_generation().generation(),
        2
    );
}

#[test]
fn edits_keep_the_generation_and_clear_resets_it() {
    let brd = glider().next_generation();
    assert_eq!(brd.generation(), 1);
    assert_eq!(brd.toggle(0, 0).generation(), 1);
    assert_eq!(brd.toggle(99, 99).generation(), 1);
    assert_eq!(brd.pad(1, 2, 3, 4).generation(), 1);
    assert_eq!(brd.pad(-1, -1, -1, -1).generation(), 1);
    assert_eq!(brd.random().generation(), 1);
    assert_eq!(brd.clear().generation(), 0);
    assert_eq!(glider().clear().generation(), 0);
}

#[test]
fn random_keeps_size_and_rule() {
    let brd = Board::new(30, 20).random();
    assert_eq!((brd.rows(), brd.cols(), brd.len()), (30, 20, 600));
    assert_eq!(brd.cells().len(), 600);
    assert_eq!(brd.clear(), Board::new(30, 20));
    assert_ne!(brd.population(), 0);
    assert_ne!(brd, Board::new(30, 20).random());
}

#[test]
fn toggle_takes_the_column_first() {
    let line = Board::from_str("...").unwrap();
    assert_eq!(line.toggle(2, 0).to_string(), "..@");
    assert_eq!(line.toggle(0, 2), line);
    assert_eq!(line.toggle(1, 0).to_string(), ".@.");
    assert_eq!(line.toggle(3, 0), line);
    assert_eq!(line.toggle(0, 1), line);

    let brd = Board::new(2, 3).toggle(2, 1);
    assert_eq!(brd.to_string(), "...\n..@");
    assert!(brd.cell_live(2, 1));
    assert_eq!(Board::new(2, 3).toggle(1, 2), Board::new(2, 3));
    assert_eq!(brd.toggle(2, 1), Board::new(2, 3));
}

#[test]
fn toggle_past_the_last_column_changes_nothing() {
    let tall = Board::new(3, 1);
    assert_eq!(tall.toggle(1, 0), tall);
    assert_eq!(tall.toggle(2, 0), tall);
    assert_eq!(tall.toggle(0, 1).to_string(), ".\n@\n.");
    assert_eq!(tall.toggle(0, 2).to_string(), ".\n.\n@");
    assert_eq!(tall.toggle(0, 3), tall);
    assert_eq!(tall.toggle(0, 2).toggle(0, 2), tall);
}

#[test]
fn toggle_and_cell_live_name_the_same_cell() {
    let brd = Board::new(3, 5);
    for y in 0..4 {
        for x in 0..6 {
            let flipped = brd.toggle(x, y);
            assert_eq!(flipped.cell_live(x, y), x < 5 && y < 3);
            assert_eq!(flipped.population(), if x < 5 && y < 3 { 1 } else { 0 });
            assert_eq!(flipped.toggle(x, y), brd);
        }
    }
}

#[test]
fn clear_keeps_size() {
    let brd = glider().clear();
    assert_eq!((brd.rows(), brd.cols()), (5, 5));
    assert_eq!(brd, Board::new(5, 5));
}

#[test]
fn iter_and_cells_go_row_by_row() {
    let brd = Board::from_str("@.\n.@\n@@").unwrap();
    let cells: Vec<bool> = brd.iter().copied().collect();
    assert_eq!(cells, vec![true, false, false, true, true, true]);
    assert_eq!(brd.cells(), &cells);
    assert_eq!(brd.clone(), brd);
}

#[test]
fn boards_are_rebuilt_round_other_cells() {
    let brd = glider().next_generation();
    let cells = vec![true; 25];
    let same_size = brd.next_board(cells.clone());
    assert_eq!((same_size.rows(), same_size.cols(), same_size.generation()), (5, 5, 1));
    assert_eq!(same_size.population(), 25);
    let later = brd.next_generation_board(cells);
    assert_eq!(later.generation(), 2);
    let resized = brd.resized_next_board(vec![true, false], 2, 1);
    assert_eq!(resized.to_string(), "@\n.");
    assert_eq!(resized.generation(), 1);
}
