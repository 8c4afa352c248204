use vstd::prelude::*;

verus! {

/// A piece's position and the destinations it may move to.
pub type PieceMoves = ((usize, usize), Vec<(usize, usize)>);

/// The indices, in order, of the first `n` entries of `moves` that have at least
/// one destination.
pub open spec fn playable_upto(moves: Seq<PieceMoves>, n: int) -> Seq<int>
    decreases n,
{
    if n <= 0 {
        Seq::empty()
    } else if moves[n - 1].1@.len() > 0 {
        playable_upto(moves, n - 1).push(n - 1)
    } else {
        playable_upto(moves, n - 1)
    }
}

/// The indices, in order, of the entries of `moves` that have at least one
/// destination: the entries a random move is drawn from.
pub open spec fn playable(moves: Seq<PieceMoves>) -> Seq<int> {
    playable_upto(moves, moves.len() as int)
}

proof fn lemma_playable_upto(moves: Seq<PieceMoves>, n: int)
    requires
        0 <= n <= moves.len(),
    ensures
        forall|t: int|
            0 <= t < playable_upto(moves, n).len() ==> 0 <= #[trigger] playable_upto(moves, n)[t]
                < n && moves[playable_upto(moves, n)[t]].1@.len() > 0,
        forall|t: int, u: int|
            0 <= t < u < playable_upto(moves, n).len() ==> #[trigger] playable_upto(moves, n)[t]
                < #[trigger] playable_upto(moves, n)[u],
        forall|k: int|
            0 <= k < n && moves[k].1@.len() > 0 ==> #[trigger] playable_upto(moves, n).contains(k),
    decreases n,
{
    if n > 0 {
        lemma_playable_upto(moves, n - 1);
        let p = playable_upto(moves, n - 1);
        if moves[n - 1].1@.len() > 0 {
            assert forall|k: int| 0 <= k < n && moves[k].1@.len() > 0 implies #[trigger] p.push(
                n - 1,
            ).contains(k) by {
                if k < n - 1 {
                    assert(playable_upto(moves, n - 1).contains(k));
                    let t = choose|t: int| 0 <= t < p.len() && p[t] == k;
                    assert(p.push(n - 1)[t] == k);
                } else {
                    assert(p.push(n - 1)[p.len() as int] == k);
                }
            }
        }
    }
}

/// The entries drawn from are exactly those with a destination, each once and in
/// the order they come in: every drawn index is on the list and has a
/// destination, the indices increase, and every entry with a destination is
/// drawn from.
pub proof fn lemma_playable_keeps_entries_with_moves(moves: Seq<PieceMoves>)
    ensures
        forall|t: int|
            0 <= t < playable(moves).len() ==> 0 <= #[trigger] playable(moves)[t] < moves.len()
                && moves[playable(moves)[t]].1@.len() > 0,
        forall|t: int, u: int|
            0 <= t < u < playable(moves).len() ==> #[trigger] playable(moves)[t]
                < #[trigger] playable(moves)[u],
        forall|k: int|
            0 <= k < moves.len() && moves[k].1@.len() > 0 ==> #[trigger] playable(moves).contains(
                k,
            ),
{
    lemma_playable_upto(moves, moves.len() as int);
}

/// The indices of the entries of `moves` that have a destination.
fn playable_indices(moves: &Vec<PieceMoves>) -> (indices: Vec<usize>)
    ensures
        indices@.len() == playable(moves@).len(),
        forall|t: int| 0 <= t < indices@.len() ==> indices@[t] as int == playable(moves@)[t],
{
    let mut indices: Vec<usize> = Vec::new();
    let mut k: usize = 0;
    while k < moves.len()
        invariant
            k <= moves@.len(),
            indices@.len() == playable_upto(moves@, k as int).len(),
            forall|t: int|
                0 <= t < indices@.len() ==> indices@[t] as int == playable_upto(moves@, k as int)[t],
        decreases moves@.len() - k,
    {
        if moves[k].1.len() > 0 {
            indices.push(k);
        }
        k += 1;
    }
    indices
}

/// The move made by drawing `pick` among the entries that have a destination and
/// `dest` among that entry's destinations.
pub fn select_move(moves: &Vec<PieceMoves>, pick: usize, dest: usize) -> (chosen: (
    (usize, usize),
    (usize, usize),
))
    requires
        pick < playable(moves@).len(),
        dest < moves@[playable(moves@)[pick as int]].1@.len(),
    ensures
        chosen == (moves@[playable(moves@)[pick as int]].0, moves@[playable(
            moves@,
        )[pick as int]].1@[dest as int]),
{
    proof {
        lemma_playable_keeps_entries_with_moves(moves@);
    }
    let indices = playable_indices(moves);
    let k = indices[pick];
    (moves[k].0, moves[k].1[dest])
}

/// `fastrand::usize(low..high)`: a number drawn from the thread's random
/// generator. The crate's source returns a value in the range and panics on an
/// empty one; the contract states the range and leaves out empty ones. Which
/// value comes out is left unsaid.
#[verifier::external_body]
fn random_in_range(low: usize, high: usize) -> (drawn: usize)
    requires
        low < high,
    ensures
        low <= drawn < high,
{
    fastrand::usize(low..high)
}

/// Draws a random move: a random entry among those with a destination, then a
/// random destination of it. Some entry must have a destination.
pub fn pick_random_move(moves: &Vec<PieceMoves>) -> (chosen: ((usize, usize), (usize, usize)))
    requires
        exists|k: int| 0 <= k < moves@.len() && (#[trigger] moves@[k]).1@.len() > 0,
    ensures
        exists|k: int|
            0 <= k < moves@.len() && #[trigger] moves@[k].0 == chosen.0 && moves@[k].1@.contains(
                chosen.1,
            ),
{
    proof {
        lemma_playable_keeps_entries_with_moves(moves@);
        let k = choose|k: int| 0 <= k < moves@.len() && (#[trigger] moves@[k]).1@.len() > 0;
        assert(playable(moves@).contains(k));
    }
    let indices = playable_indices(moves);
    let pick = random_in_range(0, indices.len());
    let k = indices[pick];
    let dest = random_in_range(0, moves[k].1.len());
    let chosen = select_move(moves, pick, dest);
    assert(moves@[k as int].1@[dest as int] == chosen.1);
    chosen
}

} // verus!
