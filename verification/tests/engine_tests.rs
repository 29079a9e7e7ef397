//! Rules-engine behavior: move generation with the mandatory-capture
//! rule, move application, promotion, and the initial layout.

use checkers_core::board::{AllowableMove, Board, CheckerPiece, CheckerPosition, PieceColor};
use checkers_core::engine::{apply_move, capturing_moves, initial_board, legal_moves, simple_moves};

fn man(id: u8, column: u8, line: u8) -> CheckerPiece {
    CheckerPiece { id, is_crowned: false, position: CheckerPosition { column, line } }
}

fn king(id: u8, column: u8, line: u8) -> CheckerPiece {
    CheckerPiece { id, is_crowned: true, position: CheckerPosition { column, line } }
}

fn pos(column: u8, line: u8) -> CheckerPosition {
    CheckerPosition { column, line }
}

#[test]
fn opposite_colors() {
    assert_eq!(PieceColor::White.opposite(), PieceColor::Black);
    assert_eq!(PieceColor::Black.opposite(), PieceColor::White);
}

#[test]
fn initial_board_layout() {
    let b = initial_board();
    assert_eq!(b.white.len(), 12);
    assert_eq!(b.black.len(), 12);
    assert_eq!(b.white[0].id, 1);
    assert_eq!(b.white[0].position, pos(1, 1));
    assert!(!b.white[0].is_crowned);
    assert_eq!(b.black[0].id, 1);
    assert_eq!(b.black[0].position, pos(1, 7));
    assert!(!b.black[0].is_crowned);
}

#[test]
fn initial_board_white_moves() {
    // No captures exist at game start; the legal moves are exactly the
    // forward-diagonal simple moves of the front-row pieces.
    let b = initial_board();
    assert!(capturing_moves(&b, PieceColor::White).is_empty());
    let moves = legal_moves(&b, PieceColor::White);
    assert!(moves.iter().all(|m| m.captured_piece_position.is_none()));
    let expected = vec![
        AllowableMove { checker_id: 2, next_position: pos(2, 4), captured_piece_position: None },
        AllowableMove { checker_id: 5, next_position: pos(4, 4), captured_piece_position: None },
        AllowableMove { checker_id: 5, next_position: pos(2, 4), captured_piece_position: None },
        AllowableMove { checker_id: 8, next_position: pos(6, 4), captured_piece_position: None },
        AllowableMove { checker_id: 8, next_position: pos(4, 4), captured_piece_position: None },
        AllowableMove { checker_id: 11, next_position: pos(8, 4), captured_piece_position: None },
        AllowableMove { checker_id: 11, next_position: pos(6, 4), captured_piece_position: None },
    ];
    assert_eq!(moves.len(), expected.len());
    for m in &expected {
        assert!(moves.contains(m));
    }
}

#[test]
fn initial_board_black_moves_mirror() {
    let b = initial_board();
    assert!(capturing_moves(&b, PieceColor::Black).is_empty());
    let moves = legal_moves(&b, PieceColor::Black);
    assert_eq!(moves.len(), 7);
    assert!(moves.iter().all(|m| m.captured_piece_position.is_none()));
}

#[test]
fn capture_is_found_and_mandatory() {
    // A White man at (3,3) with a Black piece at (4,4) and (5,5) free
    // must be offered the jump and no simple move.
    let b = Board { white: vec![man(1, 3, 3)], black: vec![man(1, 4, 4)] };
    let moves = legal_moves(&b, PieceColor::White);
    assert_eq!(moves.len(), 1);
    assert_eq!(
        moves[0],
        AllowableMove {
            checker_id: 1,
            next_position: pos(5, 5),
            captured_piece_position: Some(pos(4, 4)),
        }
    );
}

#[test]
fn mandatory_capture_suppresses_other_pieces_simple_moves() {
    // White piece 1 can capture; White piece 2 cannot. The legal move
    // list must hold capturing moves only, so piece 2 has no move.
    let b = Board { white: vec![man(1, 3, 3), man(2, 7, 1)], black: vec![man(1, 4, 4)] };
    let moves = legal_moves(&b, PieceColor::White);
    assert!(!moves.is_empty());
    assert!(moves.iter().all(|m| m.captured_piece_position.is_some()));
    assert!(moves.iter().all(|m| m.checker_id == 1));
}

#[test]
fn free_man_has_two_forward_moves() {
    // A man away from every edge with free diagonals: exactly the two
    // forward steps.
    let b = Board { white: vec![man(1, 4, 4)], black: vec![man(1, 8, 8)] };
    let moves = legal_moves(&b, PieceColor::White);
    assert_eq!(moves.len(), 2);
    assert!(moves.contains(&AllowableMove {
        checker_id: 1,
        next_position: pos(5, 5),
        captured_piece_position: None,
    }));
    assert!(moves.contains(&AllowableMove {
        checker_id: 1,
        next_position: pos(3, 5),
        captured_piece_position: None,
    }));
}

#[test]
fn free_king_has_four_moves() {
    let b = Board { white: vec![king(1, 4, 4)], black: vec![man(1, 8, 8)] };
    let moves = legal_moves(&b, PieceColor::White);
    assert_eq!(moves.len(), 4);
    for (c, l) in [(5u8, 5u8), (3, 5), (3, 3), (5, 3)] {
        assert!(moves.contains(&AllowableMove {
            checker_id: 1,
            next_position: pos(c, l),
            captured_piece_position: None,
        }));
    }
}

#[test]
fn black_man_moves_toward_line_one() {
    let b = Board { white: vec![man(1, 1, 1)], black: vec![man(1, 4, 4)] };
    let moves = legal_moves(&b, PieceColor::Black);
    assert_eq!(moves.len(), 2);
    assert!(moves.iter().all(|m| m.next_position.line == 3));
}

#[test]
fn simple_moves_blocked_by_occupied_squares() {
    let b = Board { white: vec![man(1, 4, 4), man(2, 5, 5)], black: vec![man(1, 3, 5)] };
    // (5,5) holds a White piece and (3,5) a Black one, and the Black
    // piece has a jump square that is off the path: piece 1 cannot
    // step anywhere, but a capture over (3,5) lands on (2,6), free.
    let caps = capturing_moves(&b, PieceColor::White);
    assert_eq!(caps.len(), 1);
    assert_eq!(
        caps[0],
        AllowableMove {
            checker_id: 1,
            next_position: pos(2, 6),
            captured_piece_position: Some(pos(3, 5)),
        }
    );
}

#[test]
fn apply_move_relocates_and_captures() {
    let b = Board { white: vec![man(1, 3, 3)], black: vec![man(1, 4, 4), man(2, 8, 8)] };
    let mv = AllowableMove {
        checker_id: 1,
        next_position: pos(5, 5),
        captured_piece_position: Some(pos(4, 4)),
    };
    let b2 = apply_move(&b, PieceColor::White, &mv);
    assert_eq!(b2.white.len(), 1);
    assert_eq!(b2.white[0].position, pos(5, 5));
    assert!(!b2.white[0].is_crowned);
    assert_eq!(b2.black.len(), 1);
    assert_eq!(b2.black[0].id, 2);
}

#[test]
fn apply_move_is_deterministic() {
    let b = Board { white: vec![man(1, 3, 3)], black: vec![man(1, 4, 4), man(2, 8, 8)] };
    let mv = AllowableMove {
        checker_id: 1,
        next_position: pos(5, 5),
        captured_piece_position: Some(pos(4, 4)),
    };
    let b2 = apply_move(&b, PieceColor::White, &mv);
    let b3 = apply_move(&b, PieceColor::White, &mv);
    assert_eq!(b2.white, b3.white);
    assert_eq!(b2.black, b3.black);
}

#[test]
fn white_man_promotes_on_line_eight() {
    let b = Board { white: vec![man(1, 1, 7)], black: vec![man(1, 8, 6)] };
    let mv = AllowableMove { checker_id: 1, next_position: pos(2, 8), captured_piece_position: None };
    let b2 = apply_move(&b, PieceColor::White, &mv);
    assert!(b2.white[0].is_crowned);
    assert_eq!(b2.white[0].position, pos(2, 8));
}

#[test]
fn black_man_promotes_on_line_one() {
    let b = Board { white: vec![man(1, 8, 4)], black: vec![man(1, 2, 2)] };
    let mv = AllowableMove { checker_id: 1, next_position: pos(1, 1), captured_piece_position: None };
    let b2 = apply_move(&b, PieceColor::Black, &mv);
    assert!(b2.black[0].is_crowned);
}

#[test]
fn promotion_is_never_undone() {
    // A crowned piece stays crowned through further moves, including
    // a return to its own back rank.
    let b = Board { white: vec![king(1, 2, 8)], black: vec![man(1, 8, 8)] };
    let down = AllowableMove { checker_id: 1, next_position: pos(1, 7), captured_piece_position: None };
    let b2 = apply_move(&b, PieceColor::White, &down);
    assert!(b2.white[0].is_crowned);
    let up = AllowableMove { checker_id: 1, next_position: pos(2, 6), captured_piece_position: None };
    let b3 = apply_move(&b2, PieceColor::White, &up);
    assert!(b3.white[0].is_crowned);
    let back = AllowableMove { checker_id: 1, next_position: pos(1, 5), captured_piece_position: None };
    let b4 = apply_move(&b3, PieceColor::White, &back);
    assert!(b4.white[0].is_crowned);
}

#[test]
fn no_simple_move_for_edge_man_walled_in() {
    let b = Board { white: vec![man(1, 1, 1), man(2, 2, 2)], black: vec![man(1, 8, 8)] };
    let simples = simple_moves(&b, PieceColor::White);
    assert!(simples.iter().all(|m| m.checker_id == 2));
}
