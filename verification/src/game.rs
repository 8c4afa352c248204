use vstd::prelude::*;

use crate::board::Colour;
use crate::numbers::{all_digits, decimal_chars, digits_value, lemma_decimal_reads_back, push_decimal};

verus! {

/// The line a recorded game holds for a move from `from` to `to`, the two
/// positions written as Rust writes tuples for debugging: "(6, 4):(4, 4)".
pub open spec fn record_text(from: (usize, usize), to: (usize, usize)) -> Seq<char> {
    "("@ + decimal_chars(from.0 as nat) + ", "@ + decimal_chars(from.1 as nat) + "):("@
        + decimal_chars(to.0 as nat) + ", "@ + decimal_chars(to.1 as nat) + ")"@
}

/// A record line is "(", the row moved from, ", ", the column moved from,
/// "):(", the row moved to, ", ", the column moved to, and ")", each number
/// written as a run of decimal digits that reads back as that number.
pub proof fn lemma_record_reads_back(from: (usize, usize), to: (usize, usize))
    ensures
        exists|a: Seq<char>, b: Seq<char>, c: Seq<char>, d: Seq<char>|
            {
                &&& a.len() > 0 && all_digits(a) && digits_value(a) == from.0
                &&& b.len() > 0 && all_digits(b) && digits_value(b) == from.1
                &&& c.len() > 0 && all_digits(c) && digits_value(c) == to.0
                &&& d.len() > 0 && all_digits(d) && digits_value(d) == to.1
                &&& #[trigger] record_text(from, to) == "("@ + a + ", "@ + b + "):("@ + c + ", "@ + d
                    + ")"@
            },
{
    lemma_decimal_reads_back(from.0 as nat);
    lemma_decimal_reads_back(from.1 as nat);
    lemma_decimal_reads_back(to.0 as nat);
    lemma_decimal_reads_back(to.1 as nat);
    let a = decimal_chars(from.0 as nat);
    let b = decimal_chars(from.1 as nat);
    let c = decimal_chars(to.0 as nat);
    let d = decimal_chars(to.1 as nat);
    assert(record_text(from, to) == "("@ + a + ", "@ + b + "):("@ + c + ", "@ + d + ")"@);
}

/// The line to record a move from `from` to `to` with.
pub fn move_record_line(from: (usize, usize), to: (usize, usize)) -> (line: String)
    ensures
        line@ == record_text(from, to),
{
    let mut line = String::from_str("(");
    push_decimal(&mut line, from.0);
    line.append(", ");
    push_decimal(&mut line, from.1);
    line.append("):(");
    push_decimal(&mut line, to.0);
    line.append(", ");
    push_decimal(&mut line, to.1);
    line.append(")");
    line
}

/// How often each side has just moved a piece back to where its previous move
/// started, as the computer-against-computer game counts it.
#[derive(Clone, Copy, Debug, PartialEq, Eq)]
pub struct RepetitionWatch {
    pub last_white_move: (usize, usize),
    pub white_repeats: i32,
    pub last_black_move: (usize, usize),
    pub black_repeats: i32,
}

impl RepetitionWatch {
    /// The watch before any move: both sides last moved from (0, 0) and have no
    /// repeats.
    pub fn new() -> (watch: RepetitionWatch)
        ensures
            watch.last_white_move == (0usize, 0usize),
            watch.white_repeats == 0,
            watch.last_black_move == (0usize, 0usize),
            watch.black_repeats == 0,
    {
        RepetitionWatch {
            last_white_move: (0, 0),
            white_repeats: 0,
            last_black_move: (0, 0),
            black_repeats: 0,
        }
    }

    /// Notes a move of the side `is_white` from `from` to `to`: the side's count
    /// goes up by one when `to` is where its previous move started and back to 0
    /// otherwise, and `from` becomes the start of its previous move. The other
    /// side is untouched.
    pub fn record(&mut self, is_white: bool, from: (usize, usize), to: (usize, usize))
        requires
            is_white && to == old(self).last_white_move ==> old(self).white_repeats < i32::MAX,
            !is_white && to == old(self).last_black_move ==> old(self).black_repeats < i32::MAX,
        ensures
            is_white ==> {
                &&& final(self).last_white_move == from
                &&& final(self).white_repeats == (if to == old(self).last_white_move {
                    old(self).white_repeats + 1
                } else {
                    0
                })
                &&& final(self).last_black_move == old(self).last_black_move
                &&& final(self).black_repeats == old(self).black_repeats
            },
            !is_white ==> {
                &&& final(self).last_black_move == from
                &&& final(self).black_repeats == (if to == old(self).last_black_move {
                    old(self).black_repeats + 1
                } else {
                    0
                })
                &&& final(self).last_white_move == old(self).last_white_move
                &&& final(self).white_repeats == old(self).white_repeats
            },
    {
        if is_white {
            if to.0 == self.last_white_move.0 && to.1 == self.last_white_move.1 {
                self.white_repeats = self.white_repeats + 1;
            } else {
                self.white_repeats = 0;
            }
            self.last_white_move = from;
        } else {
            if to.0 == self.last_black_move.0 && to.1 == self.last_black_move.1 {
                self.black_repeats = self.black_repeats + 1;
            } else {
                self.black_repeats = 0;
            }
            self.last_black_move = from;
        }
    }

    /// The game is a stalemate once both sides have repeated at least three times.
    pub fn is_stalemate(&self) -> (stalemate: bool)
        ensures
            stalemate == (self.white_repeats >= 3 && self.black_repeats >= 3),
    {
        self.white_repeats >= 3 && self.black_repeats >= 3
    }
}

/// A move: the square moved from and the square moved to.
pub type Move = ((usize, usize), (usize, usize));

/// Where the last of `moves` started, or (0, 0) before any move.
pub open spec fn previous_origin(moves: Seq<Move>) -> (usize, usize) {
    if moves.len() == 0 {
        (0, 0)
    } else {
        moves.last().0
    }
}

/// The number of latest consecutive moves of a side, each of which ends where
/// the side's move before it started ((0, 0) before its first move).
pub open spec fn repeat_streak(moves: Seq<Move>) -> int
    decreases moves.len(),
{
    if moves.len() == 0 {
        0
    } else if moves.last().1 == previous_origin(moves.drop_last()) {
        repeat_streak(moves.drop_last()) + 1
    } else {
        0
    }
}

/// What a move in the computer-against-computer game leads to.
#[derive(Clone, Copy, Debug, PartialEq, Eq, Structural)]
pub enum TurnOutcome {
    /// The given side has won.
    Won(Colour),
    /// Both sides keep moving back and forth.
    Stalemate,
    /// The game goes on.
    Continue,
}

/// The state of a computer-against-computer game: the repetition counts, whether
/// the game is over, and the moves each side has made.
pub struct ComputerGame {
    pub watch: RepetitionWatch,
    pub over: bool,
    pub white_moves: Ghost<Seq<Move>>,
    pub black_moves: Ghost<Seq<Move>>,
}

impl ComputerGame {
    /// The repetition counts are the streaks of the moves made so far.
    pub open spec fn wf(self) -> bool {
        &&& self.watch.white_repeats == repeat_streak(self.white_moves@)
        &&& self.watch.last_white_move == previous_origin(self.white_moves@)
        &&& self.watch.black_repeats == repeat_streak(self.black_moves@)
        &&& self.watch.last_black_move == previous_origin(self.black_moves@)
    }

    /// A game before any move.
    pub fn new() -> (game: ComputerGame)
        ensures
            game.wf(),
            !game.over,
            game.white_moves@ == Seq::<Move>::empty(),
            game.black_moves@ == Seq::<Move>::empty(),
    {
        ComputerGame {
            watch: RepetitionWatch::new(),
            over: false,
            white_moves: Ghost(Seq::empty()),
            black_moves: Ghost(Seq::empty()),
        }
    }

    /// Plays the move `mv` of the side `is_white`, after which the board's mate
    /// test gave `winner`. A mate ends the game with that side's win; otherwise
    /// the game ends in stalemate once both sides' repeat streaks are at least 3;
    /// otherwise it goes on. No move is played once the game is over.
    pub fn play(&mut self, is_white: bool, mv: Move, winner: Option<Colour>) -> (outcome:
        TurnOutcome)
        requires
            old(self).wf(),
            !old(self).over,
            is_white && mv.1 == previous_origin(old(self).white_moves@) ==> repeat_streak(
                old(self).white_moves@,
            ) < i32::MAX,
            !is_white && mv.1 == previous_origin(old(self).black_moves@) ==> repeat_streak(
                old(self).black_moves@,
            ) < i32::MAX,
        ensures
            final(self).wf(),
            final(self).white_moves@ == (if is_white {
                old(self).white_moves@.push(mv)
            } else {
                old(self).white_moves@
            }),
            final(self).black_moves@ == (if is_white {
                old(self).black_moves@
            } else {
                old(self).black_moves@.push(mv)
            }),
            outcome == (match winner {
                Some(side) => TurnOutcome::Won(side),
                None => if repeat_streak(final(self).white_moves@) >= 3 && repeat_streak(
                    final(self).black_moves@,
                ) >= 3 {
                    TurnOutcome::Stalemate
                } else {
                    TurnOutcome::Continue
                },
            }),
            final(self).over == (outcome != TurnOutcome::Continue),
    {
        self.watch.record(is_white, mv.0, mv.1);
        if is_white {
            let ghost moves = self.white_moves@;
            self.white_moves = Ghost(moves.push(mv));
            assert(self.white_moves@.drop_last() =~= moves);
        } else {
            let ghost moves = self.black_moves@;
            self.black_moves = Ghost(moves.push(mv));
            assert(self.black_moves@.drop_last() =~= moves);
        }
        let outcome = match winner {
            Some(side) => TurnOutcome::Won(side),
            None => if self.watch.is_stalemate() {
                TurnOutcome::Stalemate
            } else {
                TurnOutcome::Continue
            },
        };
        self.over = match outcome {
            TurnOutcome::Continue => false,
            _ => true,
        };
        outcome
    }
}

} // verus!
