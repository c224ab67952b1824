use tictactoe::board::{Cell, TicTacToeBoard};
use tictactoe::search::bot_move;

/// Outcome of a finished game from the human side's point of view:
/// 1 a human win, 0 a draw, -1 an automated-side win.
/// The human is to move; every human choice is explored, while the automated
/// side always answers with `bot_move`. Returns the best outcome the human
/// can force against the engine.
fn best_human_outcome(board: &TicTacToeBoard) -> i32 {
    let mut best = -2;
    for i in 0..9 {
        if board.cell_at(i) == Cell::Empty {
            let mut b = board.clone();
            b.place(i, Cell::Human);
            let outcome = if b.evaluate() == -10 {
                1
            } else if !b.is_moves_left() {
                0
            } else {
                bot_move(&mut b);
                let e = b.evaluate();
                if e == 10 {
                    -1
                } else if !b.is_moves_left() {
                    0
                } else {
                    best_human_outcome(&b)
                }
            };
            if outcome > best {
                best = outcome;
            }
        }
    }
    best
}

/// Against every human strategy from the empty board (human first as 'X',
/// the automated side second as 'O'), the engine never loses, and optimal
/// human play reaches exactly a draw.
#[test]
fn engine_never_loses_and_optimal_play_draws() {
    let board = TicTacToeBoard::new(false);
    assert_eq!(best_human_outcome(&board), 0);
}

/// A scripted game: the human opens in the center, then grabs the first free
/// corner each turn. The engine must end the game unbeaten.
#[test]
fn center_then_corners_cannot_beat_the_engine() {
    let mut board = TicTacToeBoard::new(false);
    board.place(4, Cell::Human);
    loop {
        bot_move(&mut board);
        let e = board.evaluate();
        assert_ne!(e, -10);
        if e == 10 || !board.is_moves_left() {
            break;
        }
        let mut target = 9;
        for &c in [0usize, 2, 6, 8, 1, 3, 5, 7].iter() {
            if board.cell_at(c) == Cell::Empty {
                target = c;
                break;
            }
        }
        board.place(target, Cell::Human);
        let e = board.evaluate();
        assert_ne!(e, -10, "the engine let a corner strategy win");
        if e == 10 || !board.is_moves_left() {
            break;
        }
    }
}
