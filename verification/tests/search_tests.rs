use tictactoe::board::{Cell, TicTacToeBoard};
use tictactoe::search::{bot_move, choose_move, minimax};

fn board_from(cells: [Cell; 9]) -> TicTacToeBoard {
    let mut b = TicTacToeBoard::new(false);
    for (i, c) in cells.iter().enumerate() {
        if *c != Cell::Empty {
            b.place(i, *c);
        }
    }
    b
}

const E: Cell = Cell::Empty;
const H: Cell = Cell::Human;
const B: Cell = Cell::Bot;

/// Exhaustive minimax without pruning, built on the public board operations.
fn plain_minimax(board: &mut TicTacToeBoard, depth: i32, maximizing: bool) -> i32 {
    let e = board.evaluate();
    if depth == 0 || e == 10 || e == -10 {
        return e;
    }
    if !board.is_moves_left() {
        return 0;
    }
    let mut best = if maximizing { i32::MIN } else { i32::MAX };
    for i in 0..9 {
        if board.cell_at(i) == Cell::Empty {
            board.place(i, if maximizing { Cell::Bot } else { Cell::Human });
            let v = plain_minimax(board, depth - 1, !maximizing);
            board.undo(i);
            if maximizing {
                if v > best {
                    best = v;
                }
            } else if v < best {
                best = v;
            }
        }
    }
    best
}

#[test]
fn minimax_depth_zero_returns_the_heuristic() {
    let mut b = board_from([E, E, E, E, B, E, H, E, E]);
    assert_eq!(minimax(&mut b, 0, i32::MIN, i32::MAX, true), 3 - 2);
    assert_eq!(minimax(&mut b, 0, i32::MIN, i32::MAX, false), 3 - 2);
}

#[test]
fn minimax_returns_decisive_score_at_once() {
    let mut b = board_from([B, B, B, H, H, E, E, E, E]);
    assert_eq!(minimax(&mut b, 5, i32::MIN, i32::MAX, true), 10);
    assert_eq!(minimax(&mut b, 5, i32::MIN, i32::MAX, false), 10);
    let mut c = board_from([H, H, H, B, B, E, E, E, E]);
    assert_eq!(minimax(&mut c, 5, i32::MIN, i32::MAX, true), -10);
}

#[test]
fn minimax_full_board_without_win_is_a_draw() {
    let mut b = board_from([H, B, H, H, B, B, B, H, H]);
    assert_eq!(minimax(&mut b, 5, i32::MIN, i32::MAX, true), 0);
    assert_eq!(minimax(&mut b, 5, i32::MIN, i32::MAX, false), 0);
}

#[test]
fn minimax_leaves_the_board_unchanged() {
    let mut b = board_from([H, E, E, E, B, E, E, E, E]);
    let before = b.clone();
    minimax(&mut b, 5, i32::MIN, i32::MAX, false);
    assert_eq!(b, before);
}

#[test]
fn pruned_search_matches_exhaustive_search() {
    let boards: [[Cell; 9]; 5] = [
        [E, E, E, E, E, E, E, E, E],
        [E, E, E, E, H, E, E, E, E],
        [H, E, E, E, B, E, E, E, E],
        [H, B, E, H, B, E, E, E, E],
        [B, H, B, E, H, E, E, E, H],
    ];
    for cells in boards.iter() {
        for depth in 0..6 {
            for &maximizing in [true, false].iter() {
                let mut a = board_from(*cells);
                let mut b = board_from(*cells);
                // skip the costliest combination to keep the run short
                if depth >= 5 && cells.iter().filter(|c| **c == E).count() == 9 {
                    continue;
                }
                assert_eq!(
                    minimax(&mut a, depth, i32::MIN, i32::MAX, maximizing),
                    plain_minimax(&mut b, depth, maximizing),
                    "depth {} maximizing {}",
                    depth,
                    maximizing
                );
            }
        }
    }
}

#[test]
fn bot_blocks_an_open_row() {
    // human threatens the top row; the automated side must block at index 2
    let mut b = board_from([H, H, E, E, E, E, E, E, E]);
    assert_eq!(choose_move(&mut b), 2);
    bot_move(&mut b);
    assert_eq!(b.cell_at(2), Cell::Bot);
}

#[test]
fn bot_takes_an_immediate_win() {
    let mut b = board_from([B, B, E, H, H, E, E, E, E]);
    // completing its own row outscores blocking the human's
    assert_eq!(choose_move(&mut b), 2);
    bot_move(&mut b);
    assert_eq!(b.evaluate(), 10);
}

#[test]
fn choose_move_leaves_the_board_unchanged() {
    let mut b = board_from([H, H, E, E, B, E, E, E, E]);
    let before = b.clone();
    choose_move(&mut b);
    assert_eq!(b, before);
}

#[test]
fn filling_the_last_cell_ends_in_a_draw() {
    // one empty cell is left and no line can be completed by filling it
    let mut b = board_from([H, B, H, H, B, B, B, H, E]);
    bot_move(&mut b);
    assert_eq!(b.cell_at(8), Cell::Bot);
    assert!(!b.is_moves_left());
    assert_eq!(b.is_terminal_win(), None);
    let e = b.evaluate();
    assert!(e != 10 && e != -10);
}
