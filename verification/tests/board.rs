use rust_life::{Board, ParseBoardErr};

const TEST_BOARDS: [&str; 9] = [
    ".@.\n.@@\n.@@",
    "...\n@@@\n...",
    ".@.\n.@.\n.@.",
    "@",
    "...\n.@.\n...",
    ".@",
    "@.",
    "@\n.",
    ".\n@",
];

fn testing_board(n: usize) -> Board {
    Board::from_str(TEST_BOARDS[n]).unwrap()
}

fn testing_board_generation(n: usize, generation: usize) -> Board {
    let mut brd = testing_board(n);
    for _ in 0..generation {
        brd = brd.next_generation_board(brd.cells().clone());
    }
    brd
}

#[test]
fn board_test_board_str_conversion() {
    assert_eq!(format!("{}", testing_board(0).to_string()), TEST_BOARDS[0]);
}

#[test]
fn test_board_str_conversion_error() {
    assert_eq!(
        Board::from_str("!"),
        Err(ParseBoardErr("Unexpected '!'".into()))
    );
    assert_eq!(
        Board::from_str("..\n.").unwrap_err().to_string(),
        "row length mismatch"
    );
}

#[test]
fn board_test_cell_live() {
    let brd = testing_board(0);
    assert!(!brd.cell_live(0, 0));
    assert!(brd.cell_live(2, 2));
}

#[test]
fn board_test_live_count() {
    let brd = testing_board(0);
    assert_eq!(brd.living_neighbors(0, 0), 2);
    assert_eq!(brd.living_neighbors(2, 2), 3);
}

#[test]
fn test_population() {
    assert_eq!(testing_board(0).population(), 5);
    assert_eq!(testing_board(1).population(), 3);
    assert_eq!(testing_board(2).population(), 3);
    assert_eq!(testing_board(3).population(), 1);
}

#[test]
fn board_test_next_generation() {
    assert_eq!(
        testing_board(1).next_generation(),
        testing_board_generation(2, 1)
    );
    assert_eq!(testing_board(1).generation(), 0);
    assert_eq!(testing_board(1).next_generation().generation(), 1);
}

#[test]
fn test_serial_next_generation() {
    assert_eq!(
        testing_board(1).serial_next_generation(),
        testing_board_generation(2, 1)
    );
    assert_eq!(testing_board(1).generation(), 0);
    assert_eq!(testing_board(1).serial_next_generation().generation(), 1);
}

#[test]
fn board_test_parallel_next_generation() {
    assert_eq!(
        testing_board(1).parallel_next_generation(),
        testing_board_generation(2, 1)
    );
    assert_eq!(testing_board(1).generation(), 0);
    assert_eq!(testing_board(1).parallel_next_generation().generation(), 1);
}

#[test]
fn test_clear() {
    let brd = testing_board(0);

    assert!(brd.clear().iter().all(|x| !x));
}

#[test]
fn test_random() {
    let (brd, brd2) = (testing_board(0).random(), testing_board(0).random());

    assert!(brd != brd2);
}

#[test]
fn test_toggle() {
    let brd = testing_board(0);

    assert_ne!(brd.toggle(0, 0), brd);
    assert_eq!(brd.toggle(0, 0).toggle(0, 0), brd);
    // Co-ords outside the board are a no-op
    assert_eq!(brd.toggle(999, 0), brd);
    assert_eq!(brd.toggle(0, 999), brd);
}

#[test]
fn test_pad() {
    assert_eq!(testing_board(3).pad(1, 1, 1, 1), testing_board(4));
    assert_eq!(testing_board(3).pad(0, 0, 0, 1), testing_board(5));
    assert_eq!(testing_board(3).pad(0, 1, 0, 0), testing_board(6));
    assert_eq!(testing_board(3).pad(0, 0, 1, 0), testing_board(7));
    assert_eq!(testing_board(3).pad(1, 0, 0, 0), testing_board(8));
    assert_eq!(testing_board(4).pad(-1, -1, -1, -1), testing_board(3));
    assert_eq!(testing_board(4).pad(-1, -1, -1, 0), testing_board(5));
    assert_eq!(testing_board(4).pad(-1, 0, -1, -1), testing_board(6));
    assert_eq!(testing_board(4).pad(-1, -1, 0, -1), testing_board(7));
    assert_eq!(testing_board(4).pad(0, -1, -1, -1), testing_board(8));
}

#[test]
fn rust_life_test_board_str_conversion() {
    assert_eq!(testing_board(0).to_string(), TEST_BOARDS[0].to_owned());
}

#[test]
fn rust_life_test_cell_live() {
    let brd = testing_board(0);
    assert!(!brd.cell_live(0, 0));
    assert!(brd.cell_live(2, 2));
}

#[test]
fn rust_life_test_live_count() {
    let brd = testing_board(0);
    assert_eq!(brd.living_neighbors(0, 0), 2);
    assert_eq!(brd.living_neighbors(2, 2), 3);
}

// A board of these tests has cells, a rule and a size, and no generation:
// two boards are the same when these are.
fn same_board(a: &Board, b: &Board) -> bool {
    a.cells() == b.cells() && a.clear() == b.clear()
}

#[test]
fn rust_life_test_next_generation() {
    assert!(same_board(
        &testing_board(1).next_generation(),
        &testing_board(2)
    ));
}

#[test]
fn rust_life_test_parallel_next_generation() {
    assert!(same_board(
        &testing_board(1).parallel_next_generation(),
        &testing_board(2)
    ));
}
