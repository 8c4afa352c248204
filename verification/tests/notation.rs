use echess::notation::{match_input, reverse_match_input};

#[test]
fn names_corner_and_inner_squares() {
    assert_eq!(reverse_match_input((0, 0)), "a8");
    assert_eq!(reverse_match_input((0, 7)), "h8");
    assert_eq!(reverse_match_input((7, 0)), "a1");
    assert_eq!(reverse_match_input((7, 7)), "h1");
    assert_eq!(reverse_match_input((6, 4)), "e2");
    assert_eq!(reverse_match_input((3, 3)), "d5");
}

#[test]
fn off_board_positions_are_err() {
    assert_eq!(reverse_match_input((8, 0)), "ERR");
    assert_eq!(reverse_match_input((0, 8)), "ERR");
    assert_eq!(reverse_match_input((99, 99)), "ERR");
}

#[test]
fn reads_a_move() {
    assert_eq!(match_input("e2e4".to_string()), ((6, 4), (4, 4)));
    assert_eq!(match_input("a1h8".to_string()), ((7, 0), (0, 7)));
    assert_eq!(match_input("h1a8".to_string()), ((7, 7), (0, 0)));
}

#[test]
fn unknown_squares_read_as_marker() {
    assert_eq!(match_input("z9a1".to_string()), ((99, 99), (7, 0)));
    assert_eq!(match_input("a0i1".to_string()), ((99, 99), (99, 99)));
    assert_eq!(match_input("A1b2".to_string()), ((99, 99), (6, 1)));
    assert_eq!(match_input("a9b2".to_string()), ((99, 99), (6, 1)));
}

#[test]
fn reads_only_the_first_four_characters() {
    assert_eq!(match_input("e7e5xyz".to_string()), ((1, 4), (3, 4)));
}

#[test]
fn naming_then_reading_gives_the_square_back() {
    for row in 0..8usize {
        for col in 0..8usize {
            let name = reverse_match_input((row, col));
            let text = format!("{}{}", name, name);
            assert_eq!(match_input(text), ((row, col), (row, col)));
        }
    }
}

#[test]
fn reading_then_naming_gives_the_name_back() {
    for file in "abcdefgh".chars() {
        for rank in "12345678".chars() {
            let name: String = [file, rank].iter().collect();
            let (pos, _) = match_input(format!("{}a1", name));
            assert_eq!(reverse_match_input(pos), name);
        }
    }
}
