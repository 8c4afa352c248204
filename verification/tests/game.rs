use echess::game::{move_record_line, RepetitionWatch};
use echess::random::{pick_random_move, select_move};

#[test]
fn record_lines_match_debug_format() {
    assert_eq!(move_record_line((6, 4), (4, 4)), "(6, 4):(4, 4)");
    assert_eq!(move_record_line((0, 0), (7, 7)), "(0, 0):(7, 7)");
    assert_eq!(move_record_line((123, 10), (99, 1005)), format!("{:?}:{:?}", (123usize, 10usize), (99usize, 1005usize)));
    assert_eq!(
        move_record_line((usize::MAX, 0), (1, 2)),
        format!("{:?}:{:?}", (usize::MAX, 0usize), (1usize, 2usize))
    );
}

#[test]
fn repetition_counts_moves_back() {
    let mut watch = RepetitionWatch::new();
    assert_eq!(watch.white_repeats, 0);
    assert_eq!(watch.black_repeats, 0);
    // white moves g1 -> f3, then back f3 -> g1, and so on
    watch.record(true, (7, 6), (5, 5));
    assert_eq!(watch.white_repeats, 0);
    assert_eq!(watch.last_white_move, (7, 6));
    watch.record(true, (5, 5), (7, 6));
    assert_eq!(watch.white_repeats, 1);
    watch.record(true, (7, 6), (5, 5));
    assert_eq!(watch.white_repeats, 2);
    watch.record(true, (5, 5), (7, 6));
    assert_eq!(watch.white_repeats, 3);
    assert!(!watch.is_stalemate());
    // a different move resets the count
    watch.record(true, (6, 4), (4, 4));
    assert_eq!(watch.white_repeats, 0);
    assert_eq!(watch.black_repeats, 0);
}

#[test]
fn stalemate_needs_both_sides() {
    let mut watch = RepetitionWatch::new();
    for _ in 0..2 {
        watch.record(true, (7, 6), (5, 5));
        watch.record(false, (0, 6), (2, 5));
        watch.record(true, (5, 5), (7, 6));
        watch.record(false, (2, 5), (0, 6));
    }
    assert_eq!(watch.white_repeats, 3);
    assert_eq!(watch.black_repeats, 3);
    assert!(watch.is_stalemate());
}

#[test]
fn selection_skips_pieces_without_moves() {
    let moves = vec![((0, 0), vec![]), ((1, 1), vec![(2, 2), (3, 3)]), ((4, 4), vec![]), ((5, 5), vec![(6, 6)])];
    assert_eq!(select_move(&moves, 0, 0), ((1, 1), (2, 2)));
    assert_eq!(select_move(&moves, 0, 1), ((1, 1), (3, 3)));
    assert_eq!(select_move(&moves, 1, 0), ((5, 5), (6, 6)));
}

#[test]
fn random_moves_are_listed_moves() {
    let moves = vec![((0, 0), vec![]), ((1, 1), vec![(2, 2), (3, 3)]), ((4, 4), vec![]), ((5, 5), vec![(6, 6)])];
    let mut seen = std::collections::HashSet::new();
    for _ in 0..500 {
        let (from, to) = pick_random_move(&moves);
        let entry = moves.iter().find(|m| m.0 == from).unwrap();
        assert!(entry.1.contains(&to));
        seen.insert((from, to));
    }
    assert_eq!(seen.len(), 3);
}

#[test]
fn single_playable_move_is_always_drawn() {
    let moves = vec![((3, 3), vec![]), ((0, 1), vec![(2, 2)])];
    for _ in 0..50 {
        assert_eq!(pick_random_move(&moves), ((0, 1), (2, 2)));
    }
}

use echess::board::Colour;
use echess::game::{ComputerGame, TurnOutcome};

#[test]
fn computer_game_goes_on_without_mate_or_repeats() {
    let mut game = ComputerGame::new();
    assert!(!game.over);
    assert_eq!(game.play(true, ((6, 4), (4, 4)), None), TurnOutcome::Continue);
    assert_eq!(game.play(false, ((1, 4), (3, 4)), None), TurnOutcome::Continue);
    assert!(!game.over);
}

#[test]
fn computer_game_ends_on_mate_first() {
    let mut game = ComputerGame::new();
    assert_eq!(game.play(true, ((6, 4), (4, 4)), Some(Colour::White)), TurnOutcome::Won(Colour::White));
    assert!(game.over);
}

#[test]
fn computer_game_ends_in_stalemate_after_repeats() {
    let mut game = ComputerGame::new();
    let mut outcomes = Vec::new();
    for _ in 0..2 {
        outcomes.push(game.play(true, ((7, 6), (5, 5)), None));
        outcomes.push(game.play(false, ((0, 6), (2, 5)), None));
        outcomes.push(game.play(true, ((5, 5), (7, 6)), None));
        if game.over {
            break;
        }
        outcomes.push(game.play(false, ((2, 5), (0, 6)), None));
    }
    assert_eq!(game.watch.white_repeats, 3);
    assert_eq!(game.watch.black_repeats, 3);
    assert_eq!(outcomes.last(), Some(&TurnOutcome::Stalemate));
    assert!(outcomes[..outcomes.len() - 1].iter().all(|o| *o == TurnOutcome::Continue));
    assert!(game.over);
}

#[test]
fn mate_wins_over_stalemate() {
    let mut game = ComputerGame::new();
    for _ in 0..2 {
        game.play(true, ((7, 6), (5, 5)), None);
        game.play(false, ((0, 6), (2, 5)), None);
        game.play(true, ((5, 5), (7, 6)), None);
        if game.watch.black_repeats == 2 {
            break;
        }
        game.play(false, ((2, 5), (0, 6)), None);
    }
    assert_eq!(game.play(false, ((2, 5), (0, 6)), Some(Colour::Black)), TurnOutcome::Won(Colour::Black));
}
