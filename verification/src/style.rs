use vstd::prelude::*;

use crate::board::Error;
use crate::notation::{reverse_match_input, square_name};
use crate::numbers::decimal_chars;

verus! {

/// A terminal text colour.
#[derive(Clone, Copy, Debug, PartialEq, Eq, Structural)]
pub enum Hue {
    Red,
    White,
    Rgb(u8, u8, u8),
}

/// A foreground colour, optionally bold.
#[derive(Clone, Copy, Debug, PartialEq, Eq, Structural)]
pub struct TextStyle {
    pub hue: Hue,
    pub bold: bool,
}

/// The SGR parameter that selects `hue` as the foreground colour.
pub open spec fn hue_code(hue: Hue) -> Seq<char> {
    match hue {
        Hue::Red => seq!['3', '1'],
        Hue::White => seq!['3', '7'],
        Hue::Rgb(r, g, b) => seq!['3', '8', ';', '2', ';'] + decimal_chars(r as nat) + seq![';']
            + decimal_chars(g as nat) + seq![';'] + decimal_chars(b as nat),
    }
}

/// The escape sequence that switches the terminal to `style`.
pub open spec fn style_prefix(style: TextStyle) -> Seq<char> {
    seq!['\u{1b}', '['] + (if style.bold { seq!['1', ';'] } else { Seq::empty() }) + hue_code(
        style.hue,
    ) + seq!['m']
}

/// The escape sequence that resets the terminal's style.
pub open spec fn style_reset() -> Seq<char> {
    seq!['\u{1b}', '[', '0', 'm']
}

/// `text` as a terminal shows it in `style`.
pub open spec fn painted_text(style: TextStyle, text: Seq<char>) -> Seq<char> {
    style_prefix(style) + text + style_reset()
}

/// `ansi_term::Style::paint` followed by `to_string`: the text between the style's
/// escape prefix and the reset sequence. For a style with a foreground colour the
/// crate's source writes "\x1b[", then "1;" when bold, then the colour's code
/// (31 for red, 37 for white, "38;2;r;g;b" for RGB), then "m", the text, and
/// "\x1b[0m"; the contract states exactly that.
#[verifier::external_body]
fn paint(style: TextStyle, text: &str) -> (shown: String)
    ensures
        shown@ == painted_text(style, text@),
{
    let colour = match style.hue {
        Hue::Red => ansi_term::Colour::Red,
        Hue::White => ansi_term::Colour::White,
        Hue::Rgb(r, g, b) => ansi_term::Colour::RGB(r, g, b),
    };
    let ansi_style = ansi_term::Style { foreground: Some(colour), is_bold: style.bold, ..ansi_term::Style::default() };
    ansi_style.paint(text).to_string()
}

/// The grey of the prompt arrows.
pub open spec fn arrow_grey() -> Hue {
    Hue::Rgb(80, 80, 80)
}

/// The red, bold style of warnings and reports.
pub open spec fn alert_style() -> TextStyle {
    TextStyle { hue: Hue::Red, bold: true }
}

/// A prompt line: a grey arrow and the text; when `bold`, the arrow is bold
/// and the text bold white.
pub open spec fn arrow_text(text: Seq<char>, bold: bool) -> Seq<char> {
    if bold {
        painted_text(TextStyle { hue: arrow_grey(), bold: true }, ">>>"@) + " "@ + painted_text(
            TextStyle { hue: Hue::White, bold: true },
            text,
        )
    } else {
        painted_text(TextStyle { hue: arrow_grey(), bold: false }, ">>>"@) + " "@ + text
    }
}

/// A warning line: a red bold arrow and the text.
pub open spec fn alert_text(text: Seq<char>) -> Seq<char> {
    painted_text(alert_style(), ">>>"@) + " "@ + text
}

/// What the player is told when a request is turned down for `error`.
pub open spec fn error_text(error: Error) -> Seq<char> {
    match error {
        Error::Empty => "You can't move an empty tile!"@,
        Error::Length => "Your input needs to be 4 chars long!"@,
        Error::IllegalMove => "Illegal move!"@,
        Error::OutOfBounds => "Invalid choice!"@,
        Error::EnemyMove => "You can't move your opponent's piece!"@,
        Error::TeamDmg => "You cannot attack your own piece!"@,
        Error::Check => "You cannot move into check!"@,
    }
}

/// The prompt line for `text`: a grey arrow, then the text; with `bold`, a bold
/// arrow and bold white text.
pub fn arrow_line(text: &str, bold: bool) -> (line: String)
    ensures
        line@ == arrow_text(text@, bold),
{
    if bold {
        let arrow = paint(TextStyle { hue: Hue::Rgb(80, 80, 80), bold: true }, ">>>");
        let body = paint(TextStyle { hue: Hue::White, bold: true }, text);
        arrow.concat(" ").concat(body.as_str())
    } else {
        let arrow = paint(TextStyle { hue: Hue::Rgb(80, 80, 80), bold: false }, ">>>");
        arrow.concat(" ").concat(text)
    }
}

/// The warning line for `text`: a red bold arrow, a space, then the text.
pub fn alert_line(text: &str) -> (line: String)
    ensures
        line@ == alert_text(text@),
{
    let arrow = paint(TextStyle { hue: Hue::Red, bold: true }, ">>>");
    arrow.concat(" ").concat(text)
}

/// The message for `error`.
pub fn error_message(error: Error) -> (message: &'static str)
    ensures
        message@ == error_text(error),
{
    match error {
        Error::Empty => "You can't move an empty tile!",
        Error::Length => "Your input needs to be 4 chars long!",
        Error::IllegalMove => "Illegal move!",
        Error::OutOfBounds => "Invalid choice!",
        Error::EnemyMove => "You can't move your opponent's piece!",
        Error::TeamDmg => "You cannot attack your own piece!",
        Error::Check => "You cannot move into check!",
    }
}

/// The warning line that tells the player why a request was turned down.
pub fn error_line(error: Error) -> (line: String)
    ensures
        line@ == alert_text(error_text(error)),
{
    alert_line(error_message(error))
}

/// The report of a move: a red bold arrow, the side, " moved: ", the piece in
/// red bold, " to ", the destination's square name in red bold, " after " and
/// the time it took.
pub open spec fn move_report_text(
    side: Seq<char>,
    piece: Seq<char>,
    to: (usize, usize),
    elapsed: Seq<char>,
) -> Seq<char> {
    alert_text(
        side + " moved: "@ + painted_text(alert_style(), piece) + " to "@ + painted_text(
            alert_style(),
            square_name(to),
        ) + " after "@ + elapsed,
    )
}

/// A move report names the destination itself: for a destination on the board,
/// the square shown after " to " is the destination's file letter ('a' for
/// column 0) and rank digit ('8' for row 0), painted red and bold, between the
/// piece and the time.
pub proof fn lemma_report_names_destination(
    side: Seq<char>,
    piece: Seq<char>,
    to: (usize, usize),
    elapsed: Seq<char>,
)
    requires
        to.0 < 8,
        to.1 < 8,
    ensures
        move_report_text(side, piece, to, elapsed) == alert_text(
            side + " moved: "@ + painted_text(alert_style(), piece) + " to "@ + painted_text(
                alert_style(),
                seq![(97 + to.1) as char, (56 - to.0) as char],
            ) + " after "@ + elapsed,
        ),
{
    assert(square_name(to) =~= seq![(97 + to.1) as char, (56 - to.0) as char]);
}

/// The prompt shown before a move is typed: a bold white arrow and a space.
pub fn input_prompt() -> (prompt: String)
    ensures
        prompt@ == painted_text(TextStyle { hue: Hue::White, bold: true }, ">>>"@) + " "@,
{
    paint(TextStyle { hue: Hue::White, bold: true }, ">>>").concat(" ")
}

/// The line that reports a move of `piece` by `side` to the square `to`, made
/// after the time written in `elapsed`.
pub fn move_report_line(side: &str, piece: &str, to: (usize, usize), elapsed: &str) -> (line:
    String)
    ensures
        line@ == move_report_text(side@, piece@, to, elapsed@),
{
    let red = TextStyle { hue: Hue::Red, bold: true };
    let piece_shown = paint(red, piece);
    let square = reverse_match_input(to);
    let square_shown = paint(red, square.as_str());
    let body = String::from_str(side).concat(" moved: ").concat(piece_shown.as_str()).concat(
        " to ",
    ).concat(square_shown.as_str()).concat(" after ").concat(elapsed);
    let line = alert_line(body.as_str());
    assert(line@ =~= move_report_text(side@, piece@, to, elapsed@));
    line
}

} // verus!
