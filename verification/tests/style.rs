use ansi_term::Colour::{Red, White, RGB};
use echess::board::Error;
use echess::style::{alert_line, arrow_line, error_line, error_message, move_report_line};

#[test]
fn bold_arrow_line() {
    assert_eq!(arrow_line("Welcome", true), "\x1b[1;38;2;80;80;80m>>>\x1b[0m \x1b[1;37mWelcome\x1b[0m");
    assert_eq!(
        arrow_line("Welcome", true),
        format!("{} {}", RGB(80, 80, 80).bold().paint(">>>"), White.bold().paint("Welcome"))
    );
}

#[test]
fn plain_arrow_line() {
    assert_eq!(arrow_line("1. Easy", false), "\x1b[38;2;80;80;80m>>>\x1b[0m 1. Easy");
    assert_eq!(arrow_line("1. Easy", false), format!("{} {}", RGB(80, 80, 80).paint(">>>"), "1. Easy"));
}

#[test]
fn alert_lines() {
    assert_eq!(alert_line("Black is thinking..."), "\x1b[1;31m>>>\x1b[0m Black is thinking...");
    assert_eq!(
        alert_line("Computer is thinking..."),
        format!("{} Computer is thinking...", Red.bold().paint(">>>"))
    );
}

#[test]
fn every_error_has_its_message() {
    assert_eq!(error_message(Error::Empty), "You can't move an empty tile!");
    assert_eq!(error_message(Error::Length), "Your input needs to be 4 chars long!");
    assert_eq!(error_message(Error::IllegalMove), "Illegal move!");
    assert_eq!(error_message(Error::OutOfBounds), "Invalid choice!");
    assert_eq!(error_message(Error::EnemyMove), "You can't move your opponent's piece!");
    assert_eq!(error_message(Error::TeamDmg), "You cannot attack your own piece!");
    assert_eq!(error_message(Error::Check), "You cannot move into check!");
}

#[test]
fn error_line_is_an_alert() {
    assert_eq!(error_line(Error::IllegalMove), "\x1b[1;31m>>>\x1b[0m Illegal move!");
    assert_eq!(
        error_line(Error::TeamDmg),
        format!("{} {}", Red.bold().paint(">>>"), "You cannot attack your own piece!")
    );
}

#[test]
fn move_report() {
    let line = move_report_line("White", "Pawn", (4, 4), "1.2ms");
    assert_eq!(
        line,
        format!(
            "{} White moved: {} to {} after 1.2ms",
            Red.bold().paint(">>>"),
            Red.bold().paint("Pawn"),
            Red.bold().paint("e4")
        )
    );
    assert_eq!(
        move_report_line("Black", "Queen", (9, 9), "3s"),
        "\x1b[1;31m>>>\x1b[0m Black moved: \x1b[1;31mQueen\x1b[0m to \x1b[1;31mERR\x1b[0m after 3s"
    );
}

#[test]
fn move_prompt() {
    assert_eq!(echess::style::input_prompt(), "\x1b[1;37m>>>\x1b[0m ");
    assert_eq!(echess::style::input_prompt(), format!("{} ", White.bold().paint(">>>")));
}
