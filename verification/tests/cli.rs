use rust_life::{
    cli_step, make_board, run, Alignment, Args, Board, CliStep, Launch, CLEAR,
};

fn args(template: Option<&str>) -> Args {
    Args {
        cols: 3,
        rows: 3,
        template: template.map(|t| Board::from_str(t).unwrap()),
        align: Alignment::Center,
        padding: None,
        generations: None,
        generation_limit: None,
        exit_on_finish: false,
        no_gui: true,
        ups: 120,
    }
}

fn frames(brd: Board, run_gens: Option<usize>) -> String {
    let mut out = String::new();
    let mut brd = Some(brd);
    while let Some(now) = brd {
        match cli_step(&now, run_gens) {
            CliStep::Print { frame, next } => {
                out.push_str(&frame);
                out.push('\n');
                brd = next;
            }
            CliStep::Done => brd = None,
        }
    }
    out
}

fn printed(args: &Args) -> String {
    assert!(args.check_fits());
    match run(args) {
        Launch::Cli { board, run_gens, .. } => frames(board, run_gens),
        Launch::Gui { .. } => panic!("no window was asked for"),
    }
}

#[test]
fn clear_wipes_the_screen() {
    assert_eq!(CLEAR, "\x1b[H\x1b[2J");
}

#[test]
fn template_is_padded_by_one_to_four_margins() {
    for padding in [vec![1], vec![1, 1], vec![1, 1, 1], vec![1, 1, 1, 1]] {
        let mut args = args(Some("@"));
        args.generations = Some(0);
        args.padding = Some(padding);
        assert_eq!(printed(&args), "...\n.@.\n...\n");
    }
    let mut args = args(Some("@"));
    args.padding = Some(vec![0, 1, 2, 3]);
    assert_eq!(make_board(&args).to_string(), "...@.\n.....\n.....");
}

#[test]
fn lists_of_no_or_five_margins_do_not_fit() {
    let mut args = args(Some("@"));
    args.padding = Some(vec![1, 1, 1, 1, 1]);
    assert!(!args.check_fits());
    args.padding = Some(vec![]);
    assert!(!args.check_fits());
    args.padding = Some(vec![isize::MAX]);
    assert!(!args.check_fits());
    args.padding = Some(vec![2]);
    assert!(args.check_fits());
}

#[test]
fn template_is_aligned_inside_the_board() {
    let mut args = args(Some("@"));
    args.generations = Some(0);
    assert_eq!(printed(&args), "...\n.@.\n...\n");
    args.align = Alignment::TopLeft;
    assert_eq!(printed(&args), "@..\n...\n...\n");
    args.align = Alignment::BottomRight;
    assert_eq!(printed(&args), "...\n...\n..@\n");
    args.align = Alignment::Right;
    args.cols = 4;
    args.rows = 2;
    assert_eq!(printed(&args), "...@\n....\n");
}

#[test]
fn a_template_larger_than_the_board_is_cut() {
    let mut args = args(Some("@..\n.@.\n..@"));
    args.cols = 1;
    args.rows = 1;
    assert!(args.check_fits());
    assert_eq!(make_board(&args).to_string(), "@");
    args.align = Alignment::BottomRight;
    assert_eq!(make_board(&args).to_string(), "@");
    args.align = Alignment::Top;
    assert_eq!(make_board(&args).to_string(), ".");
    args.align = Alignment::Center;
    args.cols = 2;
    args.rows = 3;
    assert_eq!(make_board(&args).to_string(), "@.\n.@\n..");
}

#[test]
fn without_a_template_the_board_is_random() {
    let mut args = args(None);
    args.cols = 40;
    args.rows = 30;
    assert!(args.check_fits());
    let brd = make_board(&args);
    assert_eq!((brd.rows(), brd.cols(), brd.generation()), (30, 40, 0));
    assert_ne!(brd.population(), 0);
    assert_eq!(brd.clear(), Board::new(30, 40));
    args.generations = Some(3);
    assert_eq!(make_board(&args).generation(), 3);
    args.cols = usize::MAX;
    assert!(!args.check_fits());
}

#[test]
fn generations_are_advanced_before_anything_is_shown() {
    let mut args = args(Some("...\n@@@\n..."));
    args.padding = Some(vec![0]);
    args.generations = Some(0);
    assert_eq!(printed(&args), "...\n@@@\n...\n");
    args.generations = Some(1);
    assert_eq!(printed(&args), ".@.\n.@.\n.@.\n");
    args.generations = Some(2);
    assert_eq!(printed(&args), "...\n@@@\n...\n");
    assert_eq!(make_board(&args).generation(), 2);
}

#[test]
fn frames_are_shown_up_to_the_limit() {
    let mut args = args(Some("...\n@@@\n..."));
    args.padding = Some(vec![0]);
    args.generation_limit = Some(1);
    assert_eq!(
        printed(&args),
        format!("{CLEAR}...\n@@@\n...\n{CLEAR}.@.\n.@.\n.@.\n")
    );
    args.generation_limit = Some(2);
    assert_eq!(
        printed(&args),
        format!("{CLEAR}...\n@@@\n...\n{CLEAR}.@.\n.@.\n.@.\n{CLEAR}...\n@@@\n...\n")
    );
    args.generations = Some(1);
    assert_eq!(
        printed(&args),
        format!("{CLEAR}.@.\n.@.\n.@.\n{CLEAR}...\n@@@\n...\n")
    );
    args.generations = Some(3);
    assert_eq!(printed(&args), "");
}

#[test]
fn nothing_is_shown_without_a_limit_or_a_number_of_generations() {
    let args = args(Some("@"));
    assert_eq!(printed(&args), "");
    assert!(matches!(
        cli_step(&Board::new(1, 1), None),
        CliStep::Done
    ));
}

#[test]
fn a_limit_of_zero_shows_the_board_once() {
    let mut args = args(Some("@"));
    args.generation_limit = Some(0);
    assert_eq!(printed(&args), "...\n.@.\n...\n");
    match cli_step(&Board::new(1, 2), Some(0)) {
        CliStep::Print { frame, next } => {
            assert_eq!(frame, "..");
            assert!(next.is_none());
        }
        CliStep::Done => panic!("the board is shown once"),
    }
}

#[test]
fn run_hands_the_options_on() {
    let mut args = args(Some("@"));
    args.no_gui = false;
    args.ups = 7;
    args.exit_on_finish = true;
    match run(&args) {
        Launch::Gui { board, ups, running, generation_limit, exit_on_finish } => {
            assert_eq!(board.to_string(), "...\n.@.\n...");
            assert_eq!(ups, 7);
            assert!(running);
            assert_eq!(generation_limit, None);
            assert!(exit_on_finish);
        }
        Launch::Cli { .. } => panic!("a window was asked for"),
    }
    args.generations = Some(2);
    assert!(matches!(run(&args), Launch::Gui { running: false, .. }));
    args.generation_limit = Some(4);
    assert!(matches!(
        run(&args),
        Launch::Gui { running: true, generation_limit: Some(4), .. }
    ));
    args.no_gui = true;
    assert!(matches!(
        run(&args),
        Launch::Cli { ups: 7, run_gens: Some(4), .. }
    ));
    args.generation_limit = None;
    assert!(matches!(run(&args), Launch::Cli { run_gens: Some(0), .. }));
    args.generations = None;
    assert!(matches!(run(&args), Launch::Cli { run_gens: None, .. }));
}
