use vstd::prelude::*;

verus! {

/// The file letter of column `col` ('a' for column 0).
pub open spec fn file_char(col: int) -> char {
    (('a' as int) + col) as char
}

/// The rank digit of row `row` ('8' for row 0).
pub open spec fn rank_char(row: int) -> char {
    (('8' as int) - row) as char
}

/// The (row, col) a two-character square name denotes, or (99, 99) when it
/// names no square.
pub open spec fn square_of(file: char, rank: char) -> (usize, usize) {
    if 'a' <= file <= 'h' && '1' <= rank <= '8' {
        ((('8' as int) - (rank as int)) as usize, ((file as int) - ('a' as int)) as usize)
    } else {
        (99, 99)
    }
}

/// The name of the square at `pos` (row, col), or "ERR" off the board.
pub open spec fn square_name(pos: (usize, usize)) -> Seq<char> {
    if pos.0 < 8 && pos.1 < 8 {
        seq![file_char(pos.1 as int), rank_char(pos.0 as int)]
    } else {
        seq!['E', 'R', 'R']
    }
}

fn square_from_chars(file: char, rank: char) -> (pos: (usize, usize))
    ensures
        pos == square_of(file, rank),
{
    let f = file as u32;
    let r = rank as u32;
    if 97 <= f && f <= 104 && 49 <= r && r <= 56 {
        ((56 - r) as usize, (f - 97) as usize)
    } else {
        (99, 99)
    }
}

/// Reads the two squares of a move written as four characters, such as "e2e4":
/// the first two name the square moved from, the next two the square moved to.
/// A pair that names no square comes back as (99, 99). Characters after the
/// fourth are not read.
pub fn match_input(input: String) -> (squares: ((usize, usize), (usize, usize)))
    requires
        input@.len() >= 4,
    ensures
        squares.0 == square_of(input@[0], input@[1]),
        squares.1 == square_of(input@[2], input@[3]),
{
    let text = input.as_str();
    let from = square_from_chars(text.get_char(0), text.get_char(1));
    let to = square_from_chars(text.get_char(2), text.get_char(3));
    (from, to)
}

/// The name of the square at `input` (row, col), such as "a8" for (0, 0), or
/// "ERR" when the position is off the board.
pub fn reverse_match_input(input: (usize, usize)) -> (name: String)
    ensures
        name@ == square_name(input),
{
    if input.0 < 8 && input.1 < 8 {
        let files = "abcdefgh";
        let ranks = "87654321";
        proof {
            reveal_strlit("abcdefgh");
            reveal_strlit("87654321");
        }
        let file = files.substring_ascii(input.1, input.1 + 1);
        let rank = ranks.substring_ascii(input.0, input.0 + 1);
        let name = String::from_str(file).concat(rank);
        assert(name@ =~= square_name(input));
        name
    } else {
        let name = String::from_str("ERR");
        proof {
            reveal_strlit("ERR");
        }
        assert(name@ =~= square_name(input));
        name
    }
}

/// The name of a square on the board is its file letter, 'a' for column 0 up to
/// 'h' for column 7, followed by its rank digit, '8' for row 0 down to '1' for
/// row 7.
pub proof fn lemma_name_is_file_then_rank(pos: (usize, usize))
    requires
        pos.0 < 8,
        pos.1 < 8,
    ensures
        square_name(pos).len() == 2,
        square_name(pos)[0] as int == 97 + pos.1,
        square_name(pos)[1] as int == 56 - pos.0,
{
}

/// A square name is read column first from its letter ('a' is column 0) and row
/// from its digit ('8' is row 0); anything else reads as (99, 99).
pub proof fn lemma_reading_a_name(file: char, rank: char)
    ensures
        97 <= file as int <= 104 && 49 <= rank as int <= 56 ==> square_of(file, rank).0 as int
            == 56 - rank as int && square_of(file, rank).1 as int == file as int - 97,
        !(97 <= file as int <= 104 && 49 <= rank as int <= 56) ==> square_of(file, rank) == (
            99usize,
            99usize,
        ),
{
}

/// Naming a square and reading the name back gives the square again: for every
/// (row, col) on the board, the two characters of its name denote (row, col).
pub proof fn lemma_name_then_read(pos: (usize, usize))
    requires
        pos.0 < 8,
        pos.1 < 8,
    ensures
        square_name(pos).len() == 2,
        square_of(square_name(pos)[0], square_name(pos)[1]) == pos,
{
}

/// Reading a square name and naming the square gives the name again: every
/// two characters that denote a square are that square's name.
pub proof fn lemma_read_then_name(file: char, rank: char)
    requires
        square_of(file, rank) != (99usize, 99usize),
    ensures
        square_name(square_of(file, rank)) == seq![file, rank],
{
    assert(square_name(square_of(file, rank)) =~= seq![file, rank]);
}

/// A square name is read either as a position on the board or as (99, 99),
/// and the latter exactly when the characters name no square.
pub proof fn lemma_read_on_board_or_marker(file: char, rank: char)
    ensures
        ({
            let pos = square_of(file, rank);
            (pos.0 < 8 && pos.1 < 8) || (pos.0 == 99 && pos.1 == 99)
        }),
        (square_of(file, rank).0 < 8) <==> ('a' <= file <= 'h' && '1' <= rank <= '8'),
{
}

} // verus!
