use echess::board::{Board, Colour, Error, Piece, Tile, Type};
use echess::prompt::{
    check_destination, check_move_input, choose_mode, parse_difficulty, parse_yes_no,
    recording_file_path, GameMode, MoveInput,
};

fn empty_board() -> Board {
    let blank = Tile { piece: Piece { piece_type: Type::Empty, colour: Colour::White } };
    Board { tiles: [[blank; 8]; 8] }
}

fn place(board: &mut Board, row: usize, col: usize, piece_type: Type, colour: Colour) {
    board.tiles[row][col] = Tile { piece: Piece { piece_type, colour } };
}

fn sample_board() -> Board {
    let mut board = empty_board();
    place(&mut board, 6, 4, Type::Pawn, Colour::White); // e2
    place(&mut board, 7, 6, Type::Knight, Colour::White); // g1
    place(&mut board, 1, 3, Type::Pawn, Colour::Black); // d7
    place(&mut board, 4, 3, Type::Pawn, Colour::Black); // d4
    place(&mut board, 5, 5, Type::Bishop, Colour::White); // f3
    board
}

#[test]
fn exit_leaves() {
    assert_eq!(check_move_input(&sample_board(), true, "exit"), MoveInput::Exit);
    assert_eq!(check_move_input(&sample_board(), false, "exit"), MoveInput::Exit);
}

#[test]
fn wrong_length_is_rejected() {
    let board = sample_board();
    assert_eq!(check_move_input(&board, true, "e2e"), MoveInput::Rejected(Error::Length));
    assert_eq!(check_move_input(&board, true, "e2e45"), MoveInput::Rejected(Error::Length));
    assert_eq!(check_move_input(&board, true, ""), MoveInput::Rejected(Error::Length));
    assert_eq!(check_move_input(&board, true, "exits"), MoveInput::Rejected(Error::Length));
    // four characters but five bytes
    assert_eq!(check_move_input(&board, true, "\u{e9}2e4"), MoveInput::Rejected(Error::Length));
}

#[test]
fn unknown_square_is_out_of_bounds() {
    let board = sample_board();
    assert_eq!(check_move_input(&board, true, "i2e4"), MoveInput::Rejected(Error::OutOfBounds));
    assert_eq!(check_move_input(&board, true, "e2e9"), MoveInput::Rejected(Error::OutOfBounds));
    assert_eq!(check_move_input(&board, true, "e0e4"), MoveInput::Rejected(Error::OutOfBounds));
}

#[test]
fn empty_tile_is_rejected() {
    assert_eq!(check_move_input(&sample_board(), true, "a2a4"), MoveInput::Rejected(Error::Empty));
}

#[test]
fn moving_the_opponents_piece_is_rejected() {
    let board = sample_board();
    assert_eq!(check_move_input(&board, true, "d7d5"), MoveInput::Rejected(Error::EnemyMove));
    assert_eq!(check_move_input(&board, false, "e2e4"), MoveInput::Rejected(Error::EnemyMove));
}

#[test]
fn attacking_an_own_piece_is_rejected() {
    let board = sample_board();
    assert_eq!(check_move_input(&board, true, "g1f3"), MoveInput::Rejected(Error::TeamDmg));
}

#[test]
fn valid_requests_are_accepted() {
    let board = sample_board();
    assert_eq!(check_move_input(&board, true, "e2e4"), MoveInput::Accepted((6, 4), (4, 4)));
    assert_eq!(check_move_input(&board, true, "f3d5"), MoveInput::Accepted((5, 5), (3, 3)));
    // capturing a piece of the other side
    assert_eq!(check_move_input(&board, true, "f3d4"), MoveInput::Accepted((5, 5), (4, 3)));
    assert_eq!(check_move_input(&board, false, "d4e3"), MoveInput::Accepted((4, 3), (5, 4)));
    assert_eq!(check_move_input(&board, false, "d4f3"), MoveInput::Accepted((4, 3), (5, 5)));
}

#[test]
fn destination_must_be_legal() {
    let legal = vec![(4, 4), (5, 4)];
    assert_eq!(check_destination(&legal, (4, 4)), Ok(()));
    assert_eq!(check_destination(&legal, (5, 4)), Ok(()));
    assert_eq!(check_destination(&legal, (3, 4)), Err(Error::IllegalMove));
    assert_eq!(check_destination(&Vec::new(), (3, 4)), Err(Error::IllegalMove));
}

#[test]
fn difficulty_from_zero_to_five() {
    assert_eq!(parse_difficulty("3\n"), Some(3));
    assert_eq!(parse_difficulty("0"), Some(0));
    assert_eq!(parse_difficulty("  +5 \r\n"), Some(5));
    assert_eq!(parse_difficulty("005"), Some(5));
    assert_eq!(parse_difficulty("6"), None);
    assert_eq!(parse_difficulty("10"), None);
    assert_eq!(parse_difficulty("abc"), None);
    assert_eq!(parse_difficulty(""), None);
    assert_eq!(parse_difficulty("+"), None);
    assert_eq!(parse_difficulty("-1"), None);
    assert_eq!(parse_difficulty("3 3"), None);
    assert_eq!(parse_difficulty("99999999999999999999999999"), None);
}

#[test]
fn difficulty_agrees_with_std_parse() {
    let lines = [
        "1", " 2", "5\n", "+0", "-0", "06", "7", "", " ", "x", "1x", "+-1", "\u{3000}4\u{85}",
        "18446744073709551616",
    ];
    for line in lines.iter() {
        let expected = line.trim().parse::<usize>().ok().filter(|d| *d <= 5);
        assert_eq!(parse_difficulty(line), expected, "line {:?}", line);
    }
}

#[test]
fn menu_choices() {
    assert_eq!(choose_mode("1\n"), Some(GameMode::LocalMultiplayer));
    assert_eq!(choose_mode(" 2 "), Some(GameMode::ComputerVsComputer));
    assert_eq!(choose_mode("+3"), Some(GameMode::Singleplayer));
    assert_eq!(choose_mode("0"), None);
    assert_eq!(choose_mode("4"), None);
    assert_eq!(choose_mode("12345"), None);
}

#[test]
fn yes_or_no() {
    assert_eq!(parse_yes_no("y\n"), Some(true));
    assert_eq!(parse_yes_no("  Y "), Some(true));
    assert_eq!(parse_yes_no("n"), Some(false));
    assert_eq!(parse_yes_no("N\r\n"), Some(false));
    assert_eq!(parse_yes_no("yes"), None);
    assert_eq!(parse_yes_no(""), None);
    assert_eq!(parse_yes_no("x"), None);
}

#[test]
fn recording_path_adds_extension() {
    assert_eq!(recording_file_path("My Game\n"), Some("my game.edvard".to_string()));
    assert_eq!(recording_file_path("  First "), Some("first.edvard".to_string()));
    assert_eq!(recording_file_path(""), Some(".edvard".to_string()));
}

#[test]
fn recording_path_refuses_forbidden_characters() {
    for bad in ["a<b", "a>b", "a:b", "a\"b", "a/b", "a\\b", "a|b", "a?b", "a*b", "a\u{1f}b"].iter() {
        assert_eq!(recording_file_path(bad), None, "name {:?}", bad);
    }
}

#[test]
fn forbidden_characters_in_order() {
    assert_eq!(
        echess::prompt::forbidden_name_characters(),
        vec!['<', '>', ':', '"', '/', '\\', '|', '?', '*', '\u{1F}']
    );
}

#[test]
fn requests_ignore_case_and_padding() {
    let board = sample_board();
    let a = check_move_input(&board, true, &echess::text::normalize_line("  E2E4 \n"));
    let b = check_move_input(&board, true, &echess::text::normalize_line("e2e4\n"));
    assert_eq!(a, b);
    assert_eq!(a, MoveInput::Accepted((6, 4), (4, 4)));
    assert_eq!(check_move_input(&board, true, &echess::text::normalize_line("\tEXIT ")), MoveInput::Exit);
}
