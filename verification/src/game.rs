//! The per-game state machine: whose turn it is, continuation after a
//! capture, and terminal detection once a side has no pieces left.

use vstd::prelude::*;

use crate::board::{AllowableMove, Board, PieceColor};
use crate::engine::{
    apply_move, capturing_moves, initial_black, initial_board, initial_white, is_capture_move,
    is_legal_move, legal_moves, lemma_move_enabled, spec_apply,
};

verus! {

/// The phases of one game. White always moves first; a game ends when
/// one side loses its last piece.
#[derive(Clone, Copy, PartialEq, Eq, Structural, Debug)]
pub enum GameStatus {
    AwaitingFirstMove,
    ActiveTurn(PieceColor),
    TerminalWin(PieceColor),
    TerminalLoss(PieceColor),
}

/// Why a move was rejected.
#[derive(Clone, Copy, PartialEq, Eq, Structural, Debug)]
pub enum MoveError {
    GameOver,
    NotLegal,
}

/// A running game: the board and its phase.
pub struct Game {
    pub board: Board,
    pub status: GameStatus,
}

/// Color `c` has a capture available with the piece bearing `id`.
pub open spec fn piece_has_capture(b: Board, c: PieceColor, id: u8) -> bool {
    exists|m2: AllowableMove| #[trigger] is_capture_move(b, c, m2) && m2.checker_id == id
}

/// The move just applied lets the same piece capture again, so the
/// turn does not pass.
pub open spec fn capture_continues(b2: Board, c: PieceColor, mv: AllowableMove) -> bool {
    mv.captured_piece_position is Some && piece_has_capture(b2, c, mv.checker_id)
}

/// Whether `color` still has a capture with the piece bearing `id`.
pub fn has_capture_for_piece(board: &Board, color: PieceColor, id: u8) -> (r: bool)
    requires
        board.wf(),
    ensures
        r == piece_has_capture(*board, color, id),
{
    let caps = capturing_moves(board, color);
    let n = caps.len();
    let mut i: usize = 0;
    while i < n
        invariant
            0 <= i <= n,
            n == caps@.len(),
            forall|k: int| 0 <= k < n ==> is_capture_move(*board, color, #[trigger] caps@[k]),
            forall|m: AllowableMove| is_capture_move(*board, color, m) ==> caps@.contains(m),
            forall|k: int| 0 <= k < i ==> (#[trigger] caps@[k]).checker_id != id,
        decreases n - i,
    {
        if caps[i].checker_id == id {
            proof {
                assert(is_capture_move(*board, color, caps@[i as int]));
            }
            return true;
        }
        i = i + 1;
    }
    proof {
        if exists|m2: AllowableMove| #[trigger] is_capture_move(*board, color, m2)
            && m2.checker_id == id {
            let m2 = choose|m2: AllowableMove|
                #[trigger] is_capture_move(*board, color, m2) && m2.checker_id == id;
            let k = choose|k: int| 0 <= k < caps@.len() && caps@[k] == m2;
            assert(caps@[k].checker_id == id);
            assert(false);
        }
    }
    false
}

/// Whether the list offers this exact move.
fn contains_move(moves: &Vec<AllowableMove>, mv: &AllowableMove) -> (r: bool)
    ensures
        r == moves@.contains(*mv),
{
    let n = moves.len();
    let mut i: usize = 0;
    while i < n
        invariant
            0 <= i <= n,
            n == moves@.len(),
            forall|k: int| 0 <= k < i ==> (#[trigger] moves@[k]) != *mv,
        decreases n - i,
    {
        if moves[i].checker_id == mv.checker_id && moves[i].next_position == mv.next_position
            && moves[i].captured_piece_position == mv.captured_piece_position {
            proof {
                assert(moves@[i as int] == *mv);
            }
            return true;
        }
        i = i + 1;
    }
    false
}

impl Game {
    pub open spec fn wf(self) -> bool {
        self.board.wf()
    }

    /// The color to move, or `None` once the game is over.
    pub open spec fn spec_turn(self) -> Option<PieceColor> {
        match self.status {
            GameStatus::AwaitingFirstMove => Some(PieceColor::White),
            GameStatus::ActiveTurn(c) => Some(c),
            GameStatus::TerminalWin(_) => None,
            GameStatus::TerminalLoss(_) => None,
        }
    }

    pub open spec fn is_terminal(self) -> bool {
        self.spec_turn() is None
    }

    /// A fresh game on the starting board, awaiting White's first move.
    pub fn new() -> (g: Game)
        ensures
            g.wf(),
            g.status == GameStatus::AwaitingFirstMove,
            g.board.white@ == initial_white(),
            g.board.black@ == initial_black(),
    {
        Game { board: initial_board(), status: GameStatus::AwaitingFirstMove }
    }

    pub fn turn(&self) -> (r: Option<PieceColor>)
        ensures
            r == self.spec_turn(),
    {
        match self.status {
            GameStatus::AwaitingFirstMove => Some(PieceColor::White),
            GameStatus::ActiveTurn(c) => Some(c),
            GameStatus::TerminalWin(_) => None,
            GameStatus::TerminalLoss(_) => None,
        }
    }

    /// Plays one move for the side to move. A finished game accepts no
    /// further moves; an illegal move is rejected unchanged. A legal
    /// move is applied exactly as `spec_apply` describes; removing the
    /// opponent's last piece wins the game at once, a continuation
    /// capture keeps the turn, and otherwise the turn passes.
    pub fn make_move(&mut self, mv: &AllowableMove) -> (r: Result<(), MoveError>)
        requires
            old(self).wf(),
        ensures
            final(self).wf(),
            old(self).is_terminal() ==> r == Err::<(), MoveError>(MoveError::GameOver) && final(self).status == old(self).status && final(self).board.white@ == old(self).board.white@
                && final(self).board.black@ == old(self).board.black@,
            !old(self).is_terminal() ==> ({
                let c = old(self).spec_turn()->Some_0;
                if is_legal_move(old(self).board, c, *mv) {
                    &&& r == Ok::<(), MoveError>(())
                    &&& (final(self).board.white@, final(self).board.black@) == spec_apply(
                        old(self).board.white@,
                        old(self).board.black@,
                        c,
                        *mv,
                    )
                    &&& (final(self).board.spec_pieces(c.spec_opposite()).len() == 0 ==> final(self).status == GameStatus::TerminalWin(c))
                    &&& (final(self).board.spec_pieces(c.spec_opposite()).len() > 0 ==> final(self).status == (if capture_continues(final(self).board, c, *mv) {
                        GameStatus::ActiveTurn(c)
                    } else {
                        GameStatus::ActiveTurn(c.spec_opposite())
                    }))
                } else {
                    &&& r == Err::<(), MoveError>(MoveError::NotLegal)
                    &&& final(self).status == old(self).status
                    &&& final(self).board.white@ == old(self).board.white@
                    &&& final(self).board.black@ == old(self).board.black@
                }
            }),
    {
        let c_opt = match self.status {
            GameStatus::AwaitingFirstMove => Some(PieceColor::White),
            GameStatus::ActiveTurn(cc) => Some(cc),
            GameStatus::TerminalWin(_) => None,
            GameStatus::TerminalLoss(_) => None,
        };
        match c_opt {
            None => Err(MoveError::GameOver),
            Some(c) => {
                let legal = legal_moves(&self.board, c);
                if !contains_move(&legal, mv) {
                    proof {
                        if is_legal_move(self.board, c, *mv) {
                            assert(legal@.contains(*mv));
                        }
                    }
                    Err(MoveError::NotLegal)
                } else {
                    proof {
                        let k = choose|k: int| 0 <= k < legal@.len() && legal@[k] == *mv;
                        assert(is_legal_move(self.board, c, legal@[k]));
                        lemma_move_enabled(self.board, c, *mv);
                    }
                    let b2 = apply_move(&self.board, c, mv);
                    let opp_empty = b2.pieces(c.opposite()).len() == 0;
                    let cont = mv.captured_piece_position.is_some() && has_capture_for_piece(
                        &b2,
                        c,
                        mv.checker_id,
                    );
                    self.board = b2;
                    self.status = if opp_empty {
                        GameStatus::TerminalWin(c)
                    } else if cont {
                        GameStatus::ActiveTurn(c)
                    } else {
                        GameStatus::ActiveTurn(c.opposite())
                    };
                    Ok(())
                }
            },
        }
    }
}

} // verus!
