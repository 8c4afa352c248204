use vstd::prelude::*;

use crate::board::{piece_at, piece_on, side_colour, Board, Colour, Error, Type};
use crate::notation::{lemma_read_then_name, match_input, square_name, square_of};
use crate::numbers::{all_digits, digits_value, is_digit, unsigned_decimal, unsigned_digits};
use crate::text::{
    all_white_space, ascii_normal, lemma_case_and_padding_ignored, lowercased, normalize_line,
    same_but_case, trim_line, trimmed,
};

verus! {

/// What a typed move request amounts to.
#[derive(Clone, Copy, Debug, PartialEq, Eq)]
pub enum MoveInput {
    /// The player asked to leave the game.
    Exit,
    /// The request is turned down for the given reason.
    Rejected(Error),
    /// A move from the first square to the second, both on the board.
    Accepted((usize, usize), (usize, usize)),
}

/// Whether `pos` is the marker of a square name that names no square.
pub open spec fn off_board(pos: (usize, usize)) -> bool {
    pos.0 == 99 || pos.1 == 99
}

/// The verdict on the normalized request `s` for the side `is_white` on `board`:
/// "exit" leaves; anything but four bytes is too long or short; then both squares
/// must exist, the first must hold a piece of the side to move, and the second
/// must not hold a piece of that side.
pub open spec fn move_input_verdict(board: Board, is_white: bool, s: Seq<char>) -> MoveInput {
    if s == "exit"@ {
        MoveInput::Exit
    } else if vstd::utf8::encode_utf8(s).len() != 4 {
        MoveInput::Rejected(Error::Length)
    } else {
        let from = square_of(s[0], s[1]);
        let to = square_of(s[2], s[3]);
        let colour = side_colour(is_white);
        if off_board(from) || off_board(to) {
            MoveInput::Rejected(Error::OutOfBounds)
        } else if piece_at(board, from).piece_type == Type::Empty {
            MoveInput::Rejected(Error::Empty)
        } else if piece_at(board, from).colour != colour {
            MoveInput::Rejected(Error::EnemyMove)
        } else if piece_at(board, to).colour == colour && piece_at(board, to).piece_type
            != Type::Empty {
            MoveInput::Rejected(Error::TeamDmg)
        } else {
            MoveInput::Accepted(from, to)
        }
    }
}

/// A string takes at least one UTF-8 byte per character.
proof fn lemma_bytes_at_least_chars(s: Seq<char>)
    ensures
        vstd::utf8::encode_utf8(s).len() >= s.len(),
    decreases s.len(),
{
    if s.len() > 0 {
        lemma_bytes_at_least_chars(s.drop_first());
    }
}

/// "exit" takes four bytes.
proof fn lemma_exit_bytes()
    ensures
        vstd::utf8::encode_utf8("exit"@).len() == 4,
{
    reveal_strlit("exit");
    assert(vstd::utf8::is_ascii_chars("exit"@));
    vstd::utf8::is_ascii_chars_encode_utf8("exit"@);
}

/// Judges a move request typed by the side `is_white`, already trimmed and
/// lowercased. The request must not be four bytes long with fewer than four
/// characters: such a request cannot be read as two square names.
pub fn check_move_input(board: &Board, is_white: bool, input: &str) -> (verdict: MoveInput)
    requires
        vstd::utf8::encode_utf8(input@).len() == 4 ==> input@.len() >= 4,
    ensures
        verdict == move_input_verdict(*board, is_white, input@),
{
    proof {
        lemma_exit_bytes();
        reveal_strlit("exit");
    }
    if input.as_bytes().len() != 4 {
        return MoveInput::Rejected(Error::Length);
    }
    proof {
        lemma_bytes_at_least_chars(input@);
    }
    assert(input@.len() == 4);
    let c0 = input.get_char(0);
    let c1 = input.get_char(1);
    let c2 = input.get_char(2);
    let c3 = input.get_char(3);
    if c0 == 'e' && c1 == 'x' && c2 == 'i' && c3 == 't' {
        assert(input@ =~= "exit"@);
        return MoveInput::Exit;
    }
    assert(input@ != "exit"@) by {
        if input@ == "exit"@ {
            assert(input@[0] == 'e');
        }
    }
    let (from, to) = match_input(input.to_owned());
    if from.0 == 99 || from.1 == 99 || to.0 == 99 || to.1 == 99 {
        return MoveInput::Rejected(Error::OutOfBounds);
    }
    let colour = if is_white {
        Colour::White
    } else {
        Colour::Black
    };
    let moving = piece_on(board, from);
    if moving.piece_type == Type::Empty {
        return MoveInput::Rejected(Error::Empty);
    }
    if moving.colour != colour {
        return MoveInput::Rejected(Error::EnemyMove);
    }
    let target = piece_on(board, to);
    if target.colour == colour && target.piece_type != Type::Empty {
        return MoveInput::Rejected(Error::TeamDmg);
    }
    MoveInput::Accepted(from, to)
}

/// An accepted request moves a piece of the side to move, between two squares on
/// the board, onto a square that holds no piece of that side; and the request is
/// exactly the names of the two squares.
pub proof fn lemma_accepted_move_is_sound(board: Board, is_white: bool, s: Seq<char>)
    requires
        vstd::utf8::encode_utf8(s).len() == 4 ==> s.len() >= 4,
        move_input_verdict(board, is_white, s) is Accepted,
    ensures
        ({
            let (from, to) = (
                move_input_verdict(board, is_white, s)->Accepted_0,
                move_input_verdict(board, is_white, s)->Accepted_1,
            );
            &&& from.0 < 8 && from.1 < 8 && to.0 < 8 && to.1 < 8
            &&& piece_at(board, from).piece_type != Type::Empty
            &&& piece_at(board, from).colour == side_colour(is_white)
            &&& piece_at(board, to).piece_type == Type::Empty || piece_at(board, to).colour
                != side_colour(is_white)
            &&& s == square_name(from) + square_name(to)
        }),
{
    lemma_bytes_at_least_chars(s);
    lemma_read_then_name(s[0], s[1]);
    lemma_read_then_name(s[2], s[3]);
    assert(s =~= seq![s[0], s[1]] + seq![s[2], s[3]]);
}

/// A move request is judged the same whatever white space surrounds it and
/// whatever case its ASCII letters are in: for ASCII lines made of white space, a
/// core and white space, whose cores differ at most in letter case, the requests
/// as the prompt reads them (`normalize_line`) get the same verdict.
pub proof fn lemma_request_ignores_case_and_padding(
    board: Board,
    is_white: bool,
    pad_left: Seq<char>,
    core: Seq<char>,
    pad_right: Seq<char>,
    other_left: Seq<char>,
    other_core: Seq<char>,
    other_right: Seq<char>,
)
    requires
        all_white_space(pad_left),
        all_white_space(pad_right),
        all_white_space(other_left),
        all_white_space(other_right),
        same_but_case(core, other_core),
    ensures
        move_input_verdict(board, is_white, ascii_normal(pad_left + core + pad_right))
            == move_input_verdict(board, is_white, ascii_normal(other_left + other_core + other_right)),
{
    lemma_case_and_padding_ignored(pad_left, core, pad_right, other_left, other_core, other_right);
}

/// Every request that names two squares on the board, the first holding a piece
/// of the side to move and the second holding no piece of that side, is
/// accepted as that move: the four characters are the file letter ('a' for
/// column 0) and rank digit ('8' for row 0) of each square.
pub proof fn lemma_fitting_request_is_accepted(
    board: Board,
    is_white: bool,
    from: (usize, usize),
    to: (usize, usize),
)
    requires
        from.0 < 8 && from.1 < 8,
        to.0 < 8 && to.1 < 8,
        piece_at(board, from).piece_type != Type::Empty,
        piece_at(board, from).colour == side_colour(is_white),
        piece_at(board, to).piece_type == Type::Empty || piece_at(board, to).colour != side_colour(
            is_white,
        ),
    ensures
        move_input_verdict(
            board,
            is_white,
            seq![
                (97 + from.1) as char,
                (56 - from.0) as char,
                (97 + to.1) as char,
                (56 - to.0) as char,
            ],
        ) == MoveInput::Accepted(from, to),
{
    let s = seq![
        (97 + from.1) as char,
        (56 - from.0) as char,
        (97 + to.1) as char,
        (56 - to.0) as char,
    ];
    assert(vstd::utf8::is_ascii_chars(s));
    vstd::utf8::is_ascii_chars_encode_utf8(s);
    reveal_strlit("exit");
    assert(s != "exit"@) by {
        assert("exit"@[1] == 'x');
    }
}

/// Accepts a requested destination only if it is among the legal destinations
/// of the piece; otherwise the request is an illegal move.
pub fn check_destination(legal: &Vec<(usize, usize)>, to: (usize, usize)) -> (checked: Result<
    (),
    Error,
>)
    ensures
        checked is Ok <==> legal@.contains(to),
        checked is Err ==> checked == Err::<(), Error>(Error::IllegalMove),
{
    let mut i: usize = 0;
    while i < legal.len()
        invariant
            i <= legal@.len(),
            forall|k: int| 0 <= k < i ==> legal@[k] != to,
        decreases legal@.len() - i,
    {
        let candidate = legal[i];
        if candidate.0 == to.0 && candidate.1 == to.1 {
            assert(legal@[i as int] == to);
            return Ok(());
        }
        i += 1;
    }
    Err(Error::IllegalMove)
}

/// The number `text` denotes as `str::parse` reads an unsigned integer, if that
/// number is at most `limit`.
pub open spec fn decimal_at_most(text: Seq<char>, limit: nat) -> Option<nat> {
    match unsigned_decimal(text) {
        Some(v) => if v <= limit {
            Some(v)
        } else {
            None
        },
        None => None,
    }
}

/// Reads `text` as an unsigned decimal number when it denotes one no greater
/// than `limit`.
fn read_decimal_at_most(text: &str, limit: usize) -> (number: Option<usize>)
    requires
        limit <= 1000,
    ensures
        number matches Some(v) ==> decimal_at_most(text@, limit as nat) == Some(v as nat),
        number is None ==> decimal_at_most(text@, limit as nat) is None,
{
    let n = text.unicode_len();
    let mut start: usize = 0;
    if n > 0 && text.get_char(0) == '+' {
        start = 1;
    }
    if start >= n {
        return None;
    }
    let ghost digits = text@.subrange(start as int, n as int);
    assert(digits =~= unsigned_digits(text@));
    let mut value: usize = 0;
    let mut too_big = false;
    let mut i = start;
    while i < n
        invariant
            start <= i <= n,
            n == text@.len(),
            limit <= 1000,
            digits == text@.subrange(start as int, n as int),
            digits == unsigned_digits(text@),
            forall|k: int| start <= k < i ==> is_digit(#[trigger] text@[k]),
            !too_big ==> value == digits_value(text@.subrange(start as int, i as int)),
            !too_big ==> value <= limit,
            too_big ==> digits_value(text@.subrange(start as int, i as int)) > limit,
        decreases n - i,
    {
        let c = text.get_char(i);
        let code = c as u32;
        if code < 48 || code > 57 {
            assert(digits[i - start] == c);
            assert(!all_digits(digits));
            return None;
        }
        assert(text@.subrange(start as int, i + 1).drop_last() =~= text@.subrange(
            start as int,
            i as int,
        ));
        let d = (code - 48) as usize;
        if !too_big {
            value = value * 10 + d;
            if value > limit {
                too_big = true;
            }
        }
        i += 1;
    }
    assert(text@.subrange(start as int, n as int) == digits);
    assert forall|k: int| 0 <= k < digits.len() implies is_digit(#[trigger] digits[k]) by {
        assert(digits[k] == text@[k + start]);
    }
    if too_big {
        None
    } else {
        Some(value)
    }
}

/// The highest difficulty the computer plays at.
pub open spec fn max_difficulty() -> nat {
    5
}

/// The difficulty a typed line chooses: a whole number from 0 to 5 as `str::parse`
/// reads it (an optional '+' and decimal digits), once surrounding white space is
/// removed; `None` for anything else.
pub open spec fn difficulty_choice(line: Seq<char>) -> Option<nat> {
    decimal_at_most(trimmed(line), max_difficulty())
}

/// Reads the difficulty the player typed, or `None` when the line is not a
/// number from 0 to 5.
pub fn parse_difficulty(line: &str) -> (difficulty: Option<usize>)
    ensures
        difficulty matches Some(d) ==> difficulty_choice(line@) == Some(d as nat),
        difficulty is None ==> difficulty_choice(line@) is None,
{
    read_decimal_at_most(trim_line(line), 5)
}

/// A difficulty read from a line is never above the highest one.
pub proof fn lemma_difficulty_in_range(line: Seq<char>)
    ensures
        difficulty_choice(line) matches Some(d) ==> d <= max_difficulty(),
{
}

/// The three ways to play.
#[derive(Clone, Copy, Debug, PartialEq, Eq, Structural)]
pub enum GameMode {
    /// Two players at one keyboard.
    LocalMultiplayer,
    /// The computer plays both sides.
    ComputerVsComputer,
    /// One player against the computer.
    Singleplayer,
}

/// The mode chosen by the number `n` typed at the menu, if any.
pub open spec fn mode_of(n: nat) -> Option<GameMode> {
    if n == 1 {
        Some(GameMode::LocalMultiplayer)
    } else if n == 2 {
        Some(GameMode::ComputerVsComputer)
    } else if n == 3 {
        Some(GameMode::Singleplayer)
    } else {
        None
    }
}

/// Reads the menu choice typed on `line`, which must read as an unsigned number
/// once trimmed (the menu takes nothing else): 1, 2 and 3 choose a mode, any
/// other number none.
pub fn choose_mode(line: &str) -> (mode: Option<GameMode>)
    requires
        unsigned_decimal(trimmed(line@)) is Some,
        unsigned_decimal(trimmed(line@))->0 <= usize::MAX,
    ensures
        mode == mode_of(unsigned_decimal(trimmed(line@))->0),
{
    let text = trim_line(line);
    match read_decimal_at_most(text, 3) {
        Some(1) => Some(GameMode::LocalMultiplayer),
        Some(2) => Some(GameMode::ComputerVsComputer),
        Some(3) => Some(GameMode::Singleplayer),
        _ => None,
    }
}

/// The answer a typed line gives to a yes/no question: "y" is yes and "n" is no,
/// once the line is trimmed and lowercased; anything else is no answer.
pub open spec fn yes_no_answer(line: Seq<char>) -> Option<bool> {
    let answer = lowercased(trimmed(line));
    if answer == seq!['y'] {
        Some(true)
    } else if answer == seq!['n'] {
        Some(false)
    } else {
        None
    }
}

/// Reads the answer to a yes/no question, or `None` when the line is neither.
pub fn parse_yes_no(line: &str) -> (answer: Option<bool>)
    ensures
        answer == yes_no_answer(line@),
{
    let normal = normalize_line(line);
    let text = normal.as_str();
    if text.unicode_len() == 1 {
        let c = text.get_char(0);
        if c == 'y' {
            assert(text@ =~= seq!['y']);
            return Some(true);
        }
        if c == 'n' {
            assert(text@ =~= seq!['n']);
            return Some(false);
        }
    }
    assert(text@ != seq!['y'] && text@ != seq!['n']) by {
        if text@ == seq!['y'] || text@ == seq!['n'] {
            assert(text@.len() == 1);
        }
    }
    None
}

/// A character that may not appear in the name of a recording.
pub open spec fn is_forbidden_in_file_name(c: char) -> bool {
    ||| c == '<'
    ||| c == '>'
    ||| c == ':'
    ||| c == '"'
    ||| c == '/'
    ||| c == '\\'
    ||| c == '|'
    ||| c == '?'
    ||| c == '*'
    ||| c == '\u{1f}'
}

/// The characters a recording's name may not hold, in the order the player is
/// told them.
pub fn forbidden_name_characters() -> (forbidden: Vec<char>)
    ensures
        forbidden@ == seq!['<', '>', ':', '"', '/', '\\', '|', '?', '*', '\u{1f}'],
        forall|c: char| forbidden@.contains(c) <==> is_forbidden_in_file_name(c),
{
    let forbidden = vec!['<', '>', ':', '"', '/', '\\', '|', '?', '*', '\u{1f}'];
    assert(forbidden@ =~= seq!['<', '>', ':', '"', '/', '\\', '|', '?', '*', '\u{1f}']);
    assert forall|c: char| is_forbidden_in_file_name(c) implies forbidden@.contains(c) by {
        if c == '<' { assert(forbidden@[0] == c); }
        else if c == '>' { assert(forbidden@[1] == c); }
        else if c == ':' { assert(forbidden@[2] == c); }
        else if c == '"' { assert(forbidden@[3] == c); }
        else if c == '/' { assert(forbidden@[4] == c); }
        else if c == '\\' { assert(forbidden@[5] == c); }
        else if c == '|' { assert(forbidden@[6] == c); }
        else if c == '?' { assert(forbidden@[7] == c); }
        else if c == '*' { assert(forbidden@[8] == c); }
        else { assert(forbidden@[9] == c); }
    }
    forbidden
}

/// The file a recording goes to, for the name typed on `line`: the trimmed,
/// lowercased name followed by ".edvard"; `None` when the name holds a forbidden
/// character.
pub open spec fn recording_path(line: Seq<char>) -> Option<Seq<char>> {
    let name = lowercased(trimmed(line));
    if exists|i: int| 0 <= i < name.len() && is_forbidden_in_file_name(#[trigger] name[i]) {
        None
    } else {
        Some(name + ".edvard"@)
    }
}

/// A recording path is the typed name followed by ".edvard", and holds no
/// forbidden character.
pub proof fn lemma_recording_path_is_safe(line: Seq<char>)
    ensures
        recording_path(line) matches Some(p) ==> {
            &&& p.len() >= 7
            &&& p.subrange(p.len() - 7, p.len() as int) == ".edvard"@
            &&& forall|i: int| 0 <= i < p.len() ==> !is_forbidden_in_file_name(#[trigger] p[i])
        },
{
    if let Some(p) = recording_path(line) {
        let name = lowercased(trimmed(line));
        reveal_strlit(".edvard");
        assert(p.subrange(p.len() - 7, p.len() as int) =~= ".edvard"@);
        assert forall|i: int| 0 <= i < p.len() implies !is_forbidden_in_file_name(#[trigger] p[i]) by {
            if i < name.len() {
                assert(p[i] == name[i]);
            } else {
                assert(p[i] == ".edvard"@[i - name.len()]);
            }
        }
    }
}

/// A recording name is refused exactly when it holds one of the characters
/// < > : " / \ | ? * or U+001F; any other name, once trimmed and lowercased, is
/// accepted with ".edvard" appended.
pub proof fn lemma_recording_refuses_only_forbidden(line: Seq<char>)
    ensures
        (forall|i: int|
            0 <= i < lowercased(trimmed(line)).len() ==> {
                let c = #[trigger] lowercased(trimmed(line))[i];
                c != '<' && c != '>' && c != ':' && c != '"' && c != '/' && c != '\\' && c != '|'
                    && c != '?' && c != '*' && c != '\u{1f}'
            }) ==> recording_path(line) == Some(lowercased(trimmed(line)) + ".edvard"@),
        (exists|i: int|
            0 <= i < lowercased(trimmed(line)).len() && {
                let c = #[trigger] lowercased(trimmed(line))[i];
                c == '<' || c == '>' || c == ':' || c == '"' || c == '/' || c == '\\' || c == '|'
                    || c == '?' || c == '*' || c == '\u{1f}'
            }) ==> recording_path(line) is None,
{
}

/// The path of the file to record a game in, for the name typed on `line`, or
/// `None` when the name holds a character that file names may not hold.
pub fn recording_file_path(line: &str) -> (path: Option<String>)
    ensures
        path matches Some(p) ==> recording_path(line@) == Some(p@),
        path is None ==> recording_path(line@) is None,
{
    let name = normalize_line(line);
    let n = name.as_str().unicode_len();
    let mut i: usize = 0;
    while i < n
        invariant
            i <= n,
            n == name@.len(),
            name@ == lowercased(trimmed(line@)),
            forall|k: int| 0 <= k < i ==> !is_forbidden_in_file_name(#[trigger] name@[k]),
        decreases n - i,
    {
        let c = name.as_str().get_char(i);
        if c == '<' || c == '>' || c == ':' || c == '"' || c == '/' || c == '\\' || c == '|' || c
            == '?' || c == '*' || c == '\u{1f}' {
            assert(is_forbidden_in_file_name(name@[i as int]));
            return None;
        }
        i += 1;
    }
    Some(name.concat(".edvard"))
}

} // verus!
