//! The 3x3 board: cells, the two sides' marks, terminal-win detection and the
//! positional heuristic evaluator.

use vstd::prelude::*;
use vstd::pervasive::VecAdditionalExecFns;

verus! {

/// One cell of the grid: empty, or occupied by the human or the automated side.
#[derive(Clone, Copy, PartialEq, Eq, Structural, Debug)]
pub enum Cell {
    Empty,
    Human,
    Bot,
}

/// Positional weight of a cell: center 3, corners 2, edges 1.
pub open spec fn cell_weight(i: int) -> int {
    if i == 4 {
        3
    } else if i == 0 || i == 2 || i == 6 || i == 8 {
        2
    } else {
        1
    }
}

/// Signed contribution of cell `i`: positive for the automated side,
/// negative for the human side, zero when empty.
pub open spec fn cell_value(b: Seq<Cell>, i: int) -> int {
    match b[i] {
        Cell::Empty => 0,
        Cell::Human => -cell_weight(i),
        Cell::Bot => cell_weight(i),
    }
}

/// Sum of the positional contributions of cells `0..n`.
pub open spec fn pos_sum(b: Seq<Cell>, n: int) -> int
    decreases n,
{
    if n <= 0 {
        0
    } else {
        pos_sum(b, n - 1) + cell_value(b, n - 1)
    }
}

/// Sum of the positional weights of cells `0..n` (15 for the whole board).
pub open spec fn weight_sum(n: int) -> int
    decreases n,
{
    if n <= 0 {
        0
    } else {
        weight_sum(n - 1) + cell_weight(n - 1)
    }
}

/// Cells `p`, `q`, `r` hold three equal, non-empty marks.
pub open spec fn line_filled(b: Seq<Cell>, p: int, q: int, r: int) -> bool {
    b[p] != Cell::Empty && b[p] == b[q] && b[p] == b[r]
}

/// The mark of the first complete line, checked in the fixed order:
/// three rows, three columns, two diagonals.
pub open spec fn spec_winner(b: Seq<Cell>) -> Option<Cell> {
    if line_filled(b, 0, 1, 2) {
        Some(b[0])
    } else if line_filled(b, 3, 4, 5) {
        Some(b[3])
    } else if line_filled(b, 6, 7, 8) {
        Some(b[6])
    } else if line_filled(b, 0, 3, 6) {
        Some(b[0])
    } else if line_filled(b, 1, 4, 7) {
        Some(b[1])
    } else if line_filled(b, 2, 5, 8) {
        Some(b[2])
    } else if line_filled(b, 0, 4, 8) {
        Some(b[0])
    } else if line_filled(b, 2, 4, 6) {
        Some(b[2])
    } else {
        None
    }
}

/// Mark `m` occupies some complete line (row, column or diagonal).
pub open spec fn has_line(b: Seq<Cell>, m: Cell) -> bool {
    ||| (b[0] == m && b[1] == m && b[2] == m)
    ||| (b[3] == m && b[4] == m && b[5] == m)
    ||| (b[6] == m && b[7] == m && b[8] == m)
    ||| (b[0] == m && b[3] == m && b[6] == m)
    ||| (b[1] == m && b[4] == m && b[7] == m)
    ||| (b[2] == m && b[5] == m && b[8] == m)
    ||| (b[0] == m && b[4] == m && b[8] == m)
    ||| (b[2] == m && b[4] == m && b[6] == m)
}

/// The heuristic score: +10/-10 on a completed line (first line in the fixed
/// order decides), otherwise the signed positional sum.
pub open spec fn spec_evaluate(b: Seq<Cell>) -> int {
    match spec_winner(b) {
        Some(w) => if w == Cell::Bot {
            10
        } else {
            -10
        },
        None => pos_sum(b, 9),
    }
}

/// Some cell of the board is empty.
pub open spec fn has_empty(b: Seq<Cell>) -> bool {
    exists|i: int| 0 <= i < 9 && b[i] == Cell::Empty
}

/// The 9-cell grid in row-major order, plus the two sides' display marks.
#[derive(Clone, PartialEq, Eq, Debug)]
pub struct TicTacToeBoard {
    board: Vec<Cell>,
    player_char: char,
    bot_char: char,
}

impl View for TicTacToeBoard {
    type V = Seq<Cell>;

    closed spec fn view(&self) -> Seq<Cell> {
        self.board@
    }
}

impl TicTacToeBoard {
    /// The human side's display mark.
    pub closed spec fn spec_human_mark(&self) -> char {
        self.player_char
    }

    /// The automated side's display mark.
    pub closed spec fn spec_bot_mark(&self) -> char {
        self.bot_char
    }

    /// Well-formedness: exactly 9 cells, and the two sides' marks differ.
    pub open spec fn wf(&self) -> bool {
        self@.len() == 9 && self.spec_human_mark() != self.spec_bot_mark()
    }

    /// An empty board. Whoever moves first gets the mark 'X'.
    pub fn new(bot_first: bool) -> (r: TicTacToeBoard)
        ensures
            r.wf(),
            r@.len() == 9,
            forall|i: int| 0 <= i < 9 ==> r@[i] == Cell::Empty,
            r.spec_bot_mark() == (if bot_first { 'X' } else { 'O' }),
            r.spec_human_mark() == (if bot_first { 'O' } else { 'X' }),
    {
        let mut cells: Vec<Cell> = Vec::new();
        let mut i: usize = 0;
        while i < 9
            invariant
                i <= 9,
                cells@.len() == i,
                forall|j: int| 0 <= j < i ==> cells@[j] == Cell::Empty,
            decreases 9 - i,
        {
            cells.push(Cell::Empty);
            i = i + 1;
        }
        if bot_first {
            TicTacToeBoard { board: cells, player_char: 'O', bot_char: 'X' }
        } else {
            TicTacToeBoard { board: cells, player_char: 'X', bot_char: 'O' }
        }
    }

    /// The mark in cell `pos`.
    pub fn cell_at(&self, pos: usize) -> (r: Cell)
        requires
            self.wf(),
            pos < 9,
        ensures
            r == self@[pos as int],
    {
        self.board[pos]
    }

    /// The human side's display mark.
    pub fn human_mark(&self) -> (r: char)
        ensures
            r == self.spec_human_mark(),
    {
        self.player_char
    }

    /// The automated side's display mark.
    pub fn bot_mark(&self) -> (r: char)
        ensures
            r == self.spec_bot_mark(),
    {
        self.bot_char
    }

    /// Put `mark` into the empty cell `pos`.
    pub fn place(&mut self, pos: usize, mark: Cell)
        requires
            old(self).wf(),
            pos < 9,
            old(self)@[pos as int] == Cell::Empty,
            mark != Cell::Empty,
        ensures
            final(self).wf(),
            final(self)@ == old(self)@.update(pos as int, mark),
            final(self).spec_human_mark() == old(self).spec_human_mark(),
            final(self).spec_bot_mark() == old(self).spec_bot_mark(),
    {
        self.board.set(pos, mark);
    }

    /// Set cell `pos` back to empty, reverting a speculative placement.
    pub fn undo(&mut self, pos: usize)
        requires
            old(self).wf(),
            pos < 9,
        ensures
            final(self).wf(),
            final(self)@ == old(self)@.update(pos as int, Cell::Empty),
            final(self).spec_human_mark() == old(self).spec_human_mark(),
            final(self).spec_bot_mark() == old(self).spec_bot_mark(),
    {
        self.board.set(pos, Cell::Empty);
    }

    /// Which side, if any, occupies a complete line. Exactly the 8 lines of
    /// the grid are checked, in the fixed row/column/diagonal order.
    pub fn is_terminal_win(&self) -> (r: Option<Cell>)
        requires
            self.wf(),
        ensures
            r == spec_winner(self@),
    {
        let b = &self.board;
        if b[0] != Cell::Empty && b[0] == b[1] && b[0] == b[2] {
            Some(b[0])
        } else if b[3] != Cell::Empty && b[3] == b[4] && b[3] == b[5] {
            Some(b[3])
        } else if b[6] != Cell::Empty && b[6] == b[7] && b[6] == b[8] {
            Some(b[6])
        } else if b[0] != Cell::Empty && b[0] == b[3] && b[0] == b[6] {
            Some(b[0])
        } else if b[1] != Cell::Empty && b[1] == b[4] && b[1] == b[7] {
            Some(b[1])
        } else if b[2] != Cell::Empty && b[2] == b[5] && b[2] == b[8] {
            Some(b[2])
        } else if b[0] != Cell::Empty && b[0] == b[4] && b[0] == b[8] {
            Some(b[0])
        } else if b[2] != Cell::Empty && b[2] == b[4] && b[2] == b[6] {
            Some(b[2])
        } else {
            None
        }
    }

    /// True iff any cell is still empty.
    pub fn is_moves_left(&self) -> (r: bool)
        requires
            self.wf(),
        ensures
            r == has_empty(self@),
    {
        let mut i: usize = 0;
        while i < 9
            invariant
                self.wf(),
                i <= 9,
                forall|j: int| 0 <= j < i ==> self@[j] != Cell::Empty,
            decreases 9 - i,
        {
            if self.board[i] == Cell::Empty {
                assert(self@[i as int] == Cell::Empty);
                return true;
            }
            i = i + 1;
        }
        false
    }

    /// The heuristic score: +10 or -10 when a line is complete (the automated
    /// side's line scores +10, the human side's -10), otherwise the signed
    /// positional sum of all occupied cells.
    pub fn evaluate(&self) -> (r: i32)
        requires
            self.wf(),
        ensures
            r as int == spec_evaluate(self@),
    {
        match self.is_terminal_win() {
            Some(w) => {
                if w == Cell::Bot {
                    10
                } else {
                    -10
                }
            },
            None => {
                let mut acc: i32 = 0;
                let mut i: usize = 0;
                while i < 9
                    invariant
                        self.wf(),
                        i <= 9,
                        acc as int == pos_sum(self@, i as int),
                        -15 <= acc <= 15,
                    decreases 9 - i,
                {
                    proof {
                        lemma_pos_sum_bounded(self@, i as int + 1);
                    }
                    let w: i32 = if i == 4 {
                        3
                    } else if i == 0 || i == 2 || i == 6 || i == 8 {
                        2
                    } else {
                        1
                    };
                    match self.board[i] {
                        Cell::Empty => {},
                        Cell::Human => {
                            acc = acc - w;
                        },
                        Cell::Bot => {
                            acc = acc + w;
                        },
                    }
                    i = i + 1;
                }
                acc
            },
        }
    }
}

/// The weights of the first `n` cells sum to at most 15 (the whole board's total).
pub proof fn lemma_weight_sum_le(n: int)
    requires
        0 <= n <= 9,
    ensures
        weight_sum(n) <= 15,
    decreases 9 - n,
{
    if n == 9 {
        assert(weight_sum(9) == 15) by {
            reveal_with_fuel(weight_sum, 10);
        }
    } else {
        lemma_weight_sum_le(n + 1);
        assert(cell_weight(n) >= 0);
    }
}

/// The positional sum over the first `n` cells is bounded by the weight sum,
/// hence always within [-15, 15].
pub proof fn lemma_pos_sum_bounded(b: Seq<Cell>, n: int)
    requires
        0 <= n <= 9,
    ensures
        -weight_sum(n) <= pos_sum(b, n) <= weight_sum(n),
        -15 <= pos_sum(b, n) <= 15,
    decreases n,
{
    lemma_weight_sum_le(n);
    if n > 0 {
        lemma_pos_sum_bounded(b, n - 1);
    }
}

/// On a board where a side has no complete line, that side's positional
/// advantage stays strictly below the decisive score of 10.
pub proof fn lemma_lineless_pos_sum(b: Seq<Cell>)
    requires
        b.len() == 9,
    ensures
        !has_line(b, Cell::Bot) ==> pos_sum(b, 9) <= 9,
        !has_line(b, Cell::Human) ==> pos_sum(b, 9) >= -9,
{
    reveal_with_fuel(pos_sum, 10);
}

/// The heuristic is decisive exactly on wins: on a board not won by both
/// sides at once (true of every reachable board), the score is +10 iff the
/// automated side occupies a complete line, and -10 iff the human side does.
pub proof fn lemma_heuristic_decisive(b: Seq<Cell>)
    requires
        b.len() == 9,
        !(has_line(b, Cell::Human) && has_line(b, Cell::Bot)),
    ensures
        spec_evaluate(b) == 10 <==> has_line(b, Cell::Bot),
        spec_evaluate(b) == -10 <==> has_line(b, Cell::Human),
{
    lemma_lineless_pos_sum(b);
}

/// Terminal-win detection agrees exactly with the winning-score cases of the
/// heuristic, and never flags a win when no line is complete.
pub proof fn lemma_terminal_win_matches_score(b: Seq<Cell>)
    requires
        b.len() == 9,
    ensures
        spec_winner(b) == Some(Cell::Bot) <==> spec_evaluate(b) == 10,
        spec_winner(b) == Some(Cell::Human) <==> spec_evaluate(b) == -10,
        spec_winner(b) is None <==> !has_line(b, Cell::Human) && !has_line(b, Cell::Bot),
        spec_winner(b) is None ==> -9 <= spec_evaluate(b) <= 9,
{
    lemma_lineless_pos_sum(b);
}

/// Placing a mark into an empty cell and then undoing it restores the board
/// exactly.
pub proof fn lemma_place_undo_restores(b: Seq<Cell>, pos: int, mark: Cell)
    requires
        b.len() == 9,
        0 <= pos < 9,
        b[pos] == Cell::Empty,
    ensures
        b.update(pos, mark).update(pos, Cell::Empty) == b,
{
    assert(b.update(pos, mark).update(pos, Cell::Empty) =~= b);
}

} // verus!
