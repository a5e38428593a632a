use vstd::prelude::*;

pub mod bitscan;
pub mod board;
pub mod gen_bitscan;
pub mod helper;
pub mod movegen;

use crate::board::{Board, BoardModel, Move, move_result};
use crate::movegen::{all_moves, all_moves_spec, lemma_all_moves_playable, moves_playable};

verus! {

/// The number of leaves of the move tree of depth `depth` rooted at `b`:
/// 1 at depth zero (the board itself is one leaf), otherwise the sum over
/// every pseudo-legal move of the side to move of the count one level down.
pub open spec fn perft_spec(b: BoardModel, depth: nat) -> nat
    decreases depth, 1int, 0int,
{
    if depth == 0 {
        1
    } else {
        perft_sum(b, all_moves_spec(b, b.turn), 0, (depth - 1) as nat)
    }
}

/// The sum of `perft_spec` at `depth` over the boards reached by the moves
/// of `moves` from index `i` on.
pub open spec fn perft_sum(b: BoardModel, moves: Seq<Move>, i: int, depth: nat) -> nat
    decreases depth, 2int, moves.len() - i,
{
    if i < 0 || i >= moves.len() {
        0
    } else {
        perft_spec(move_result(b, moves[i]), depth) + perft_sum(b, moves, i + 1, depth)
    }
}

/// A depth-zero search counts exactly one leaf: the board itself.
pub proof fn lemma_perft_depth_zero(b: BoardModel)
    ensures
        perft_spec(b, 0) == 1,
{
}

proof fn lemma_perft_sum_depth_zero(b: BoardModel, moves: Seq<Move>, i: int)
    requires
        0 <= i <= moves.len(),
    ensures
        perft_sum(b, moves, i, 0) == moves.len() - i,
    decreases moves.len() - i,
{
    if i < moves.len() {
        assert(perft_spec(move_result(b, moves[i]), 0) == 1);
        lemma_perft_sum_depth_zero(b, moves, i + 1);
    }
}

/// A depth-one search counts exactly the pseudo-legal moves the side to
/// move can make.
pub proof fn lemma_perft_depth_one(b: BoardModel)
    ensures
        perft_spec(b, 1) == all_moves_spec(b, b.turn).len(),
{
    lemma_perft_sum_depth_zero(b, all_moves_spec(b, b.turn), 0);
}

/// Apply `m` to an independent deep copy of `board`, leaving `board`
/// untouched: sibling branches of a search never observe each other's
/// mutations.
pub fn new_board(board: &Board, m: &Move) -> (b: Board)
    requires
        board@.wf(),
        m.from.valid(),
        m.to.valid(),
        board@.at(m.from) is Some,
    ensures
        b@ == move_result(board@, *m),
        b@.wf(),
{
    let mut b = board.clone();
    b.make_move(m);
    b
}

/// Count the leaves of the move tree of depth `depth` below `board`. Each
/// candidate move is applied to a clone, never to `board` itself.
pub fn perft(board: &Board, depth: i64) -> (r: u64)
    requires
        board@.wf(),
        depth >= 0,
        perft_spec(board@, depth as nat) <= u64::MAX,
    ensures
        r == perft_spec(board@, depth as nat),
    decreases depth,
{
    if depth == 0 {
        1
    } else {
        let moves = all_moves(board, board.turn);
        proof {
            lemma_all_moves_playable(board@, board@.turn);
        }
        let mut count: u64 = 0;
        let mut i: usize = 0;
        while i < moves.len()
            invariant
                board@.wf(),
                depth >= 1,
                moves@ == all_moves_spec(board@, board@.turn),
                moves_playable(board@, moves@),
                i <= moves@.len(),
                count + perft_sum(board@, moves@, i as int, (depth - 1) as nat) == perft_spec(
                    board@,
                    depth as nat,
                ),
                perft_spec(board@, depth as nat) <= u64::MAX,
            decreases moves@.len() - i,
        {
            let m = &moves[i];
            proof {
                assert(moves@[i as int].from.valid() && moves@[i as int].to.valid() && board@.at(
                    moves@[i as int].from,
                ) is Some);
            }
            let b = new_board(board, m);
            let c = perft(&b, depth - 1);
            count = count + c;
            i = i + 1;
        }
        count
    }
}

} // verus!
