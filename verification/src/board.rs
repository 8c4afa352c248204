use vstd::prelude::*;

verus! {

/// The side a piece belongs to.
#[derive(Clone, Copy, Debug, PartialEq, Eq, Structural)]
pub enum Colour {
    White,
    Black,
}

/// What stands on a tile; `Empty` when nothing does.
#[derive(Clone, Copy, Debug, PartialEq, Eq, Structural)]
pub enum Type {
    Empty,
    Pawn,
    Knight,
    Bishop,
    Rook,
    Queen,
    King,
}

#[derive(Clone, Copy, Debug, PartialEq, Eq, Structural)]
pub struct Piece {
    pub piece_type: Type,
    pub colour: Colour,
}

#[derive(Clone, Copy, Debug, PartialEq, Eq, Structural)]
pub struct Tile {
    pub piece: Piece,
}

/// The board as move validation reads it: `tiles[row][col]`, row 0 being rank 8
/// and col 0 being file a.
#[derive(Clone, Copy, Debug)]
pub struct Board {
    pub tiles: [[Tile; 8]; 8],
}

/// The reasons a move request is turned down.
#[derive(Clone, Copy, Debug, PartialEq, Eq, Structural)]
pub enum Error {
    Empty,
    Length,
    IllegalMove,
    OutOfBounds,
    EnemyMove,
    TeamDmg,
    Check,
}

/// The piece on the tile at `pos` (row, col); meaningful for `pos` on the board.
pub open spec fn piece_at(board: Board, pos: (usize, usize)) -> Piece {
    board.tiles@[pos.0 as int]@[pos.1 as int].piece
}

/// The colour of the side to move.
pub open spec fn side_colour(is_white: bool) -> Colour {
    if is_white { Colour::White } else { Colour::Black }
}

/// Reads the piece on an on-board tile.
pub(crate) fn piece_on(board: &Board, pos: (usize, usize)) -> (piece: Piece)
    requires
        pos.0 < 8,
        pos.1 < 8,
    ensures
        piece == piece_at(*board, pos),
{
    board.tiles[pos.0][pos.1].piece
}

} // verus!
