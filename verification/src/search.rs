//! The search engine: exhaustive minimax as the specification, alpha-beta
//! pruning as the implementation, and the move chooser for the automated side.

use vstd::prelude::*;
use crate::board::{
    Cell, TicTacToeBoard, has_empty, spec_evaluate, lemma_pos_sum_bounded,
    lemma_place_undo_restores,
};

verus! {

/// The mark placed by the side to move: the automated side when maximizing,
/// the human side when minimizing.
pub open spec fn mark_of(maximizing: bool) -> Cell {
    if maximizing {
        Cell::Bot
    } else {
        Cell::Human
    }
}

pub open spec fn int_max(a: int, b: int) -> int {
    if a >= b {
        a
    } else {
        b
    }
}

pub open spec fn int_min(a: int, b: int) -> int {
    if a <= b {
        a
    } else {
        b
    }
}

/// Number of empty cells among indices `n..9`.
pub open spec fn count_empty_from(b: Seq<Cell>, n: int) -> int
    decreases 9 - n,
{
    if n < 0 || n >= 9 {
        0
    } else {
        (if b[n] == Cell::Empty {
            1int
        } else {
            0int
        }) + count_empty_from(b, n + 1)
    }
}

/// Number of empty cells of the board.
pub open spec fn count_empty(b: Seq<Cell>) -> int {
    count_empty_from(b, 0)
}

proof fn lemma_count_empty_from_update(b: Seq<Cell>, i: int, m: Cell, n: int)
    requires
        b.len() == 9,
        0 <= i < 9,
        b[i] == Cell::Empty,
        m != Cell::Empty,
        0 <= n <= 9,
    ensures
        count_empty_from(b.update(i, m), n) == count_empty_from(b, n) - (if n <= i {
            1int
        } else {
            0int
        }),
    decreases 9 - n,
{
    if n < 9 {
        lemma_count_empty_from_update(b, i, m, n + 1);
    }
}

/// The empty-cell count never goes negative.
pub proof fn lemma_count_empty_from_nonneg(b: Seq<Cell>, n: int)
    ensures
        count_empty_from(b, n) >= 0,
    decreases 9 - n,
{
    if 0 <= n < 9 {
        lemma_count_empty_from_nonneg(b, n + 1);
    }
}

/// Filling an empty cell decreases the number of empty cells by one.
pub proof fn lemma_count_empty_update(b: Seq<Cell>, i: int, m: Cell)
    requires
        b.len() == 9,
        0 <= i < 9,
        b[i] == Cell::Empty,
        m != Cell::Empty,
    ensures
        count_empty(b.update(i, m)) == count_empty(b) - 1,
{
    lemma_count_empty_from_update(b, i, m, 0);
}

/// Exhaustive, unpruned minimax. Terminal cutoffs come first: at depth 0 or
/// on a decisive score the heuristic value is returned; with no moves left
/// the position is a draw worth 0. Otherwise the side to move folds its
/// children's values with max (automated side) or min (human side).
pub open spec fn spec_minimax(b: Seq<Cell>, depth: int, maximizing: bool) -> int
    decreases count_empty(b), 10int,
{
    let e = spec_evaluate(b);
    if depth == 0 || e == 10 || e == -10 {
        e
    } else if !has_empty(b) {
        0
    } else {
        best_upto(b, depth, maximizing, 9)
    }
}

/// Fold of the children at cells `0..n`: the running max (or min) of the
/// values of placing the side-to-move's mark in each empty cell, starting
/// from the identity i32::MIN (or i32::MAX).
pub open spec fn best_upto(b: Seq<Cell>, depth: int, maximizing: bool, n: int) -> int
    decreases count_empty(b), n,
{
    if n <= 0 || n > 9 || b.len() != 9 {
        if maximizing {
            i32::MIN as int
        } else {
            i32::MAX as int
        }
    } else {
        let rest = best_upto(b, depth, maximizing, n - 1);
        if b[n - 1] == Cell::Empty {
            proof {
                lemma_count_empty_update(b, n - 1, mark_of(maximizing));
                lemma_count_empty_from_nonneg(b.update(n - 1, mark_of(maximizing)), 0);
                lemma_count_empty_from_nonneg(b, 0);
            }
            let child = spec_minimax(b.update(n - 1, mark_of(maximizing)), depth - 1, !maximizing);
            if maximizing {
                int_max(rest, child)
            } else {
                int_min(rest, child)
            }
        } else {
            rest
        }
    }
}

/// Every minimax value lies within [-15, 15]: leaves are heuristic scores or
/// the draw value 0, and folds only pick among children.
pub proof fn lemma_minimax_bounds(b: Seq<Cell>, depth: int, maximizing: bool)
    requires
        b.len() == 9,
    ensures
        -15 <= spec_minimax(b, depth, maximizing) <= 15,
    decreases count_empty(b), 10int,
{
    lemma_pos_sum_bounded(b, 9);
    let e = spec_evaluate(b);
    if !(depth == 0 || e == 10 || e == -10) && has_empty(b) {
        lemma_best_upto_bounds(b, depth, maximizing, 9);
    }
}

/// The child fold is the untouched identity while no empty cell has been
/// seen, and otherwise a real child value within [-15, 15].
pub proof fn lemma_best_upto_bounds(b: Seq<Cell>, depth: int, maximizing: bool, n: int)
    requires
        b.len() == 9,
        0 <= n <= 9,
    ensures
        (exists|i: int| 0 <= i < n && b[i] == Cell::Empty) ==> -15 <= best_upto(
            b,
            depth,
            maximizing,
            n,
        ) <= 15,
        !(exists|i: int| 0 <= i < n && b[i] == Cell::Empty) ==> best_upto(b, depth, maximizing, n)
            == (if maximizing {
            i32::MIN as int
        } else {
            i32::MAX as int
        }),
    decreases count_empty(b), n,
{
    if n > 0 {
        lemma_best_upto_bounds(b, depth, maximizing, n - 1);
        if b[n - 1] == Cell::Empty {
            lemma_count_empty_update(b, n - 1, mark_of(maximizing));
            lemma_count_empty_from_nonneg(b.update(n - 1, mark_of(maximizing)), 0);
            lemma_count_empty_from_nonneg(b, 0);
            lemma_minimax_bounds(b.update(n - 1, mark_of(maximizing)), depth - 1, !maximizing);
            assert(0 <= n - 1 < n && b[n - 1] == Cell::Empty);
        } else {
            assert(forall|i: int| 0 <= i < n && b[i] == Cell::Empty ==> 0 <= i < n - 1);
        }
    }
}

/// The fold over cells `0..n` is at least (maximizing) or at most
/// (minimizing) the value of any single child among them.
pub proof fn lemma_best_upto_vs_child(b: Seq<Cell>, depth: int, maximizing: bool, n: int, i: int)
    requires
        b.len() == 9,
        0 <= i < n <= 9,
        b[i] == Cell::Empty,
    ensures
        maximizing ==> best_upto(b, depth, maximizing, n) >= spec_minimax(
            b.update(i, mark_of(maximizing)),
            depth - 1,
            !maximizing,
        ),
        !maximizing ==> best_upto(b, depth, maximizing, n) <= spec_minimax(
            b.update(i, mark_of(maximizing)),
            depth - 1,
            !maximizing,
        ),
    decreases n,
{
    if i < n - 1 {
        lemma_best_upto_vs_child(b, depth, maximizing, n - 1, i);
    }
}

/// Fail-soft alpha-beta guarantee: relative to the true (exhaustive) value
/// `t` of the node, a result inside the window is exact, a result at or
/// below alpha is an upper bound on `t`, and a result at or above beta is a
/// lower bound on `t`.
pub open spec fn window_result(t: int, alpha: int, beta: int, r: int) -> bool {
    &&& (alpha < t && t < beta ==> r == t)
    &&& (t <= alpha ==> t <= r && r <= alpha)
    &&& (t >= beta ==> beta <= r && r <= t)
}

/// With the full window, any result meeting the alpha-beta guarantee equals
/// the exhaustive minimax value: pruning does not change the value returned.
pub proof fn lemma_pruning_exact(b: Seq<Cell>, depth: int, maximizing: bool, r: int)
    requires
        b.len() == 9,
        window_result(spec_minimax(b, depth, maximizing), i32::MIN as int, i32::MAX as int, r),
    ensures
        r == spec_minimax(b, depth, maximizing),
{
    lemma_minimax_bounds(b, depth, maximizing);
}

/// Bounded-depth minimax with alpha-beta pruning. The board is mutated in
/// place (place, recurse, undo) and is restored exactly on every path. The
/// result obeys the fail-soft window guarantee relative to the exhaustive
/// search; with the full window it equals the exhaustive value.
pub fn minimax(
    board: &mut TicTacToeBoard,
    depth: i32,
    alpha: i32,
    beta: i32,
    maximizing_player: bool,
) -> (r: i32)
    requires
        old(board).wf(),
        depth >= 0,
    ensures
        final(board).wf(),
        final(board)@ == old(board)@,
        final(board).spec_human_mark() == old(board).spec_human_mark(),
        final(board).spec_bot_mark() == old(board).spec_bot_mark(),
        alpha < beta ==> window_result(
            spec_minimax(old(board)@, depth as int, maximizing_player),
            alpha as int,
            beta as int,
            r as int,
        ),
    decreases count_empty(board@),
{
    let ghost b0 = board@;
    let evaluation = board.evaluate();
    if depth == 0 || evaluation == 10 || evaluation == -10 {
        return evaluation;
    }
    if !board.is_moves_left() {
        return 0;
    }
    if maximizing_player {
        let mut max_eval: i32 = i32::MIN;
        let mut a: i32 = alpha;
        let mut i: usize = 0;
        while i < 9
            invariant
                board.wf(),
                board@ == b0,
                b0 == old(board)@,
                board.spec_human_mark() == old(board).spec_human_mark(),
                board.spec_bot_mark() == old(board).spec_bot_mark(),
                b0.len() == 9,
                1 <= depth,
                i <= 9,
                spec_evaluate(b0) != 10 && spec_evaluate(b0) != -10,
                has_empty(b0),
                maximizing_player,
                alpha < beta ==> {
                    &&& (max_eval as int) < beta as int
                    &&& a as int == int_max(alpha as int, max_eval as int)
                    &&& (max_eval <= alpha ==> best_upto(b0, depth as int, true, i as int)
                        <= max_eval as int)
                    &&& (max_eval > alpha ==> best_upto(b0, depth as int, true, i as int)
                        == max_eval as int)
                },
            decreases 9 - i,
        {
            if board.cell_at(i) == Cell::Empty {
                board.place(i, Cell::Bot);
                proof {
                    lemma_count_empty_update(b0, i as int, Cell::Bot);
                    lemma_count_empty_from_nonneg(b0.update(i as int, Cell::Bot), 0);
                }
                let eval = minimax(board, depth - 1, a, beta, false);
                board.undo(i);
                proof {
                    lemma_place_undo_restores(b0, i as int, Cell::Bot);
                }
                max_eval = if max_eval >= eval {
                    max_eval
                } else {
                    eval
                };
                a = if a >= eval {
                    a
                } else {
                    eval
                };
                if beta <= a {
                    proof {
                        if alpha < beta {
                            lemma_best_upto_vs_child(b0, depth as int, true, 9, i as int);
                        }
                    }
                    return max_eval;
                }
            }
            i = i + 1;
        }
        max_eval
    } else {
        let mut min_eval: i32 = i32::MAX;
        let mut bt: i32 = beta;
        let mut i: usize = 0;
        while i < 9
            invariant
                board.wf(),
                board@ == b0,
                b0 == old(board)@,
                board.spec_human_mark() == old(board).spec_human_mark(),
                board.spec_bot_mark() == old(board).spec_bot_mark(),
                b0.len() == 9,
                1 <= depth,
                i <= 9,
                spec_evaluate(b0) != 10 && spec_evaluate(b0) != -10,
                has_empty(b0),
                !maximizing_player,
                alpha < beta ==> {
                    &&& (alpha as int) < min_eval as int
                    &&& bt as int == int_min(beta as int, min_eval as int)
                    &&& (min_eval >= beta ==> best_upto(b0, depth as int, false, i as int)
                        >= min_eval as int)
                    &&& (min_eval < beta ==> best_upto(b0, depth as int, false, i as int)
                        == min_eval as int)
                },
            decreases 9 - i,
        {
            if board.cell_at(i) == Cell::Empty {
                board.place(i, Cell::Human);
                proof {
                    lemma_count_empty_update(b0, i as int, Cell::Human);
                    lemma_count_empty_from_nonneg(b0.update(i as int, Cell::Human), 0);
                }
                let eval = minimax(board, depth - 1, alpha, bt, true);
                board.undo(i);
                proof {
                    lemma_place_undo_restores(b0, i as int, Cell::Human);
                }
                min_eval = if min_eval <= eval {
                    min_eval
                } else {
                    eval
                };
                bt = if bt <= eval {
                    bt
                } else {
                    eval
                };
                if bt <= alpha {
                    proof {
                        if alpha < beta {
                            lemma_best_upto_vs_child(b0, depth as int, false, 9, i as int);
                        }
                    }
                    return min_eval;
                }
            }
            i = i + 1;
        }
        min_eval
    }
}

/// The value, for the automated side, of placing its mark in cell `i` and
/// searching 5 plies with the human side to move.
pub open spec fn spec_move_score(b: Seq<Cell>, i: int) -> int {
    spec_minimax(b.update(i, Cell::Bot), 5, false)
}

/// The running (index, score) best over cells `0..n`: empty cells are tried
/// in ascending order, and only a strictly better score replaces the best,
/// so ties break toward the first-encountered index.
pub open spec fn best_move_upto(b: Seq<Cell>, n: int) -> (int, int)
    decreases n,
{
    if n <= 0 {
        (0int, i32::MIN as int)
    } else {
        let prev = best_move_upto(b, n - 1);
        if b[n - 1] == Cell::Empty && spec_move_score(b, n - 1) > prev.1 {
            (n - 1, spec_move_score(b, n - 1))
        } else {
            prev
        }
    }
}

/// The cell the automated side chooses: the first-encountered empty cell
/// with the maximal 5-ply search score.
pub open spec fn spec_best_move(b: Seq<Cell>) -> int {
    best_move_upto(b, 9).0
}

/// As long as some cell among `0..n` is empty, the running best points at an
/// empty cell and carries a real score.
pub proof fn lemma_best_move_valid(b: Seq<Cell>, n: int)
    requires
        b.len() == 9,
        0 <= n <= 9,
    ensures
        0 <= best_move_upto(b, n).0 < 9,
        (exists|i: int| 0 <= i < n && b[i] == Cell::Empty) ==> b[best_move_upto(b, n).0]
            == Cell::Empty && best_move_upto(b, n).1 > i32::MIN as int,
        !(exists|i: int| 0 <= i < n && b[i] == Cell::Empty) ==> best_move_upto(b, n).1
            == i32::MIN as int,
    decreases n,
{
    if n > 0 {
        lemma_best_move_valid(b, n - 1);
        if b[n - 1] == Cell::Empty {
            lemma_minimax_bounds(b.update(n - 1, Cell::Bot), 5, false);
            assert(0 <= n - 1 < n && b[n - 1] == Cell::Empty);
        } else {
            assert(forall|i: int| 0 <= i < n && b[i] == Cell::Empty ==> 0 <= i < n - 1);
        }
    }
}

/// Pick the automated side's move: try every empty cell, score it by a
/// 5-ply pruned search with the full window, and keep the first cell with
/// the maximal score. The board is left exactly as it was.
pub fn choose_move(board: &mut TicTacToeBoard) -> (r: usize)
    requires
        old(board).wf(),
        has_empty(old(board)@),
    ensures
        final(board).wf(),
        final(board)@ == old(board)@,
        final(board).spec_human_mark() == old(board).spec_human_mark(),
        final(board).spec_bot_mark() == old(board).spec_bot_mark(),
        r as int == spec_best_move(old(board)@),
        r < 9,
        old(board)@[r as int] == Cell::Empty,
{
    let ghost b0 = board@;
    let mut best_move: usize = 0;
    let mut best_score: i32 = i32::MIN;
    let mut i: usize = 0;
    while i < 9
        invariant
            board.wf(),
            board@ == b0,
            b0 == old(board)@,
            board.spec_human_mark() == old(board).spec_human_mark(),
            board.spec_bot_mark() == old(board).spec_bot_mark(),
            b0.len() == 9,
            i <= 9,
            best_move < 9,
            (best_move as int, best_score as int) == best_move_upto(b0, i as int),
        decreases 9 - i,
    {
        if board.cell_at(i) == Cell::Empty {
            board.place(i, Cell::Bot);
            let move_score = minimax(board, 5, i32::MIN, i32::MAX, false);
            board.undo(i);
            proof {
                lemma_place_undo_restores(b0, i as int, Cell::Bot);
                lemma_minimax_bounds(b0.update(i as int, Cell::Bot), 5, false);
            }
            if move_score > best_score {
                best_score = move_score;
                best_move = i;
            }
        }
        i = i + 1;
    }
    proof {
        lemma_best_move_valid(b0, 9);
    }
    best_move
}

/// One automated turn: choose the best cell and place the automated side's
/// mark there.
pub fn bot_move(board: &mut TicTacToeBoard)
    requires
        old(board).wf(),
        has_empty(old(board)@),
    ensures
        final(board).wf(),
        final(board)@ == old(board)@.update(spec_best_move(old(board)@), Cell::Bot),
        final(board).spec_human_mark() == old(board).spec_human_mark(),
        final(board).spec_bot_mark() == old(board).spec_bot_mark(),
{
    let mv = choose_move(board);
    board.place(mv, Cell::Bot);
}

} // verus!
