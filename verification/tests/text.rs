use rust_life::{Board, ParseBoardErr};

#[test]
fn blinker_has_period_two() {
    let brd = Board::from_str("...\n@@@\n...").unwrap();
    let once = brd.next_generation();
    assert_eq!(once.to_string(), ".@.\n.@.\n.@.");
    let twice = once.next_generation();
    assert_eq!(twice.to_string(), "...\n@@@\n...");
    assert_eq!(twice.generation(), 2);
}

#[test]
fn single_cell_is_cleared() {
    let brd = Board::from_str("@").unwrap();
    assert_eq!(brd.population(), 1);
    assert_eq!(brd.clear().population(), 0);
}

#[test]
fn empty_text_is_the_board_without_cells() {
    let brd = Board::from_str("").unwrap();
    assert_eq!((brd.rows(), brd.cols(), brd.len()), (0, 0, 0));
    assert_eq!(brd.generation(), 0);
    assert_eq!(brd.to_string(), "");
    assert_eq!(Board::from_str("\n\n\n").unwrap(), brd);
    assert_eq!(brd, Board::new(0, 0));
}

#[test]
fn empty_lines_are_skipped_wherever_they_stand() {
    let brd = Board::from_str("\n\n@.\n\n.@\n\n").unwrap();
    assert_eq!((brd.rows(), brd.cols()), (2, 2));
    assert_eq!(brd.to_string(), "@.\n.@");
    assert_eq!(brd, Board::from_str("@.\n.@").unwrap());
    assert_eq!(brd, Board::from_str("@.\n.@\n").unwrap());
}

#[test]
fn parsed_board_has_the_classic_rule_and_generation_zero() {
    let brd = Board::from_str(".@\n@.").unwrap();
    assert_eq!(brd.generation(), 0);
    assert_eq!(brd, Board::new(2, 2).toggle(0, 1).toggle(1, 0));
    assert_eq!(brd.cells(), &vec![false, true, true, false]);
}

#[test]
fn text_has_one_line_per_row_and_no_line_break_at_the_end() {
    let brd = Board::new(2, 3).toggle(2, 1);
    assert_eq!(brd.to_string(), "...\n..@");
    assert_eq!(Board::new(1, 1).to_string(), ".");
    assert_eq!(Board::new(3, 0).to_string(), "\n\n");
    assert_eq!(Board::new(0, 3).to_string(), "");
}

#[test]
fn text_is_read_back() {
    for text in [".@.\n.@@\n.@@", "@", ".", "@@@@", "@\n.\n@", "..@\n@..", ""] {
        let brd = Board::from_str(text).unwrap();
        assert_eq!(brd.to_string(), text);
        assert_eq!(Board::from_str(&brd.to_string()).unwrap(), brd);
    }
    let brd = Board::new(4, 5).toggle(0, 0).toggle(4, 3).toggle(1, 2);
    assert_eq!(Board::from_str(&brd.to_string()).unwrap(), brd);
}

#[test]
fn text_of_a_board_without_cells_reads_back_as_no_board_at_all() {
    let brd = Board::new(3, 0);
    assert_eq!(Board::from_str(&brd.to_string()).unwrap(), Board::new(0, 0));
    assert_ne!(Board::from_str(&brd.to_string()).unwrap(), brd);
}

#[test]
fn rows_of_different_length_are_refused() {
    for text in ["..\n.", ".\n..", "@@\n@@\n@", "@\n\n@@"] {
        assert_eq!(
            Board::from_str(text),
            Err(ParseBoardErr("row length mismatch".into()))
        );
    }
}

#[test]
fn the_first_stray_character_is_named() {
    assert_eq!(
        Board::from_str(".x\n.y").unwrap_err().to_string(),
        "Unexpected 'x'"
    );
    assert_eq!(
        Board::from_str("@ ").unwrap_err().to_string(),
        "Unexpected ' '"
    );
    assert_eq!(
        Board::from_str("@\r\n.\r\n").unwrap_err().to_string(),
        "Unexpected '\r'"
    );
    assert_eq!(
        Board::from_str("'").unwrap_err(),
        ParseBoardErr("Unexpected '''".into())
    );
}

#[test]
fn a_length_mismatch_is_reported_before_a_stray_character() {
    assert_eq!(
        Board::from_str("!.\n.").unwrap_err().to_string(),
        "row length mismatch"
    );
}

#[test]
fn rows_are_measured_in_bytes() {
    assert_eq!(
        Board::from_str("\u{e9}\n..").unwrap_err().to_string(),
        "Unexpected '\u{e9}'"
    );
    assert_eq!(
        Board::from_str("\u{e9}\n.").unwrap_err().to_string(),
        "row length mismatch"
    );
    assert_eq!(
        Board::from_str("\u{1f600}\n@@@@").unwrap_err().to_string(),
        "Unexpected '\u{1f600}'"
    );
    assert_eq!(
        Board::from_str("\u{20ac}\n@@@@").unwrap_err().to_string(),
        "row length mismatch"
    );
}

#[test]
fn the_message_of_an_error_is_its_text() {
    let err = ParseBoardErr("row length mismatch".into());
    assert_eq!(err.to_string(), "row length mismatch");
    assert_eq!(err.0, "row length mismatch");
}

#[test]
fn cell_x_y_is_character_x_of_line_y() {
    let lines = ["@..@.", ".@...", "...@@"];
    let brd = Board::from_str(&lines.join("\n")).unwrap();
    assert_eq!((brd.rows(), brd.cols()), (3, 5));
    for (y, line) in lines.iter().enumerate() {
        for (x, c) in line.chars().enumerate() {
            assert_eq!(brd.cell_live(x, y), c == '@');
        }
    }
    let spaced = Board::from_str("\n@..@.\n\n\n.@...\n...@@\n").unwrap();
    assert_eq!(spaced, brd);
}
