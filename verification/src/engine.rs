//! The rules engine: legal-move computation (capturing moves take strict
//! precedence over simple moves), move application with king promotion,
//! and the initial layout.

use vstd::prelude::*;

use crate::board::{
    all_on_board, find_pos, find_position, ids_unique, is_allowable_position,
    lemma_find_pos_props, no_overlap, occ, pos_on_board, positions_distinct, AllowableMove,
    Board, CheckerPiece, CheckerPosition, PieceColor,
};

verus! {

/// A diagonal step, one of +1 / -1 per axis, selected by a flag.
pub open spec fn dstep(positive: bool) -> int {
    if positive {
        1
    } else {
        -1
    }
}

/// The square reached from `p` by moving `dc` columns and `dl` lines.
/// Steps below column or line zero leave the board and are rejected by
/// the on-board checks of every user of this function.
pub open spec fn pos_shift(p: CheckerPosition, dc: int, dl: int) -> CheckerPosition {
    CheckerPosition { column: (p.column + dc) as u8, line: (p.line + dl) as u8 }
}

/// Whether a piece of color `c` may move along the line direction `dlp`
/// (`true` = toward increasing lines). Kings move along all diagonals;
/// men only forward: White toward line 8, Black toward line 1.
pub open spec fn dir_allowed(pc: CheckerPiece, c: PieceColor, dlp: bool) -> bool {
    ||| pc.is_crowned
    ||| c == PieceColor::White && dlp
    ||| c == PieceColor::Black && !dlp
}

/// The capturing move of piece `pc` of color `c` in direction
/// (`dcp`, `dlp`), if the adjacent diagonal square holds an opponent
/// piece and the square beyond it is on-board and free.
pub open spec fn spec_capture_from(
    b: Board,
    c: PieceColor,
    pc: CheckerPiece,
    dcp: bool,
    dlp: bool,
) -> Option<AllowableMove> {
    let mid = pos_shift(pc.position, dstep(dcp), dstep(dlp));
    let dst = pos_shift(pc.position, 2 * dstep(dcp), 2 * dstep(dlp));
    if occ(b.spec_pieces(c.spec_opposite()), mid) && pos_on_board(dst) && !b.spec_occupied(dst) {
        Some(
            AllowableMove {
                checker_id: pc.id,
                next_position: dst,
                captured_piece_position: Some(mid),
            },
        )
    } else {
        None
    }
}

/// The simple move of piece `pc` in direction (`dcp`, `dlp`), if the
/// adjacent diagonal square is on-board and free.
pub open spec fn spec_simple_from(
    b: Board,
    c: PieceColor,
    pc: CheckerPiece,
    dcp: bool,
    dlp: bool,
) -> Option<AllowableMove> {
    let dst = pos_shift(pc.position, dstep(dcp), dstep(dlp));
    if pos_on_board(dst) && !b.spec_occupied(dst) {
        Some(
            AllowableMove { checker_id: pc.id, next_position: dst, captured_piece_position: None },
        )
    } else {
        None
    }
}

/// `m` is a capturing move available to `c` on board `b`.
pub open spec fn is_capture_move(b: Board, c: PieceColor, m: AllowableMove) -> bool {
    exists|i: int, dcp: bool, dlp: bool|
        0 <= i < b.spec_pieces(c).len() && dir_allowed(b.spec_pieces(c)[i], c, dlp) && #[trigger] spec_capture_from(
            b,
            c,
            b.spec_pieces(c)[i],
            dcp,
            dlp,
        ) == Some(m)
}

/// `m` is a simple (non-capturing) move available to `c` on board `b`.
pub open spec fn is_simple_move(b: Board, c: PieceColor, m: AllowableMove) -> bool {
    exists|i: int, dcp: bool, dlp: bool|
        0 <= i < b.spec_pieces(c).len() && dir_allowed(b.spec_pieces(c)[i], c, dlp) && #[trigger] spec_simple_from(
            b,
            c,
            b.spec_pieces(c)[i],
            dcp,
            dlp,
        ) == Some(m)
}

/// Color `c` has at least one capturing move on `b`.
pub open spec fn has_capture(b: Board, c: PieceColor) -> bool {
    exists|m: AllowableMove| is_capture_move(b, c, m)
}

/// The mandatory-capture rule: when any capture exists for `c`, the
/// legal moves are exactly the capturing moves; otherwise exactly the
/// simple moves.
pub open spec fn is_legal_move(b: Board, c: PieceColor, m: AllowableMove) -> bool {
    if has_capture(b, c) {
        is_capture_move(b, c, m)
    } else {
        is_simple_move(b, c, m)
    }
}

/// Every capturing move names a captured square; no simple move does.
pub proof fn lemma_move_shape(b: Board, c: PieceColor, m: AllowableMove)
    ensures
        is_capture_move(b, c, m) ==> m.captured_piece_position is Some,
        is_simple_move(b, c, m) ==> m.captured_piece_position is None,
{
}

/// Probes one direction for a capture by `pc`, exactly as
/// `spec_capture_from` describes.
fn try_capture(board: &Board, color: PieceColor, pc: &CheckerPiece, dcp: bool, dlp: bool) -> (r:
    Option<AllowableMove>)
    requires
        board.wf(),
        pos_on_board(pc.position),
    ensures
        r == spec_capture_from(*board, color, *pc, dcp, dlp),
{
    let col = pc.position.column;
    let lin = pc.position.line;
    let mid = CheckerPosition {
        column: if dcp {
            col + 1
        } else {
            col - 1
        },
        line: if dlp {
            lin + 1
        } else {
            lin - 1
        },
    };
    let opponent = color.opposite();
    let opp_pieces = board.pieces(opponent);
    proof {
        lemma_find_pos_props(opp_pieces@, mid);
    }
    if find_position(opp_pieces, &mid).is_some() {
        proof {
            let w = choose|i: int| 0 <= i < opp_pieces@.len() && opp_pieces@[i].position == mid;
            assert(pos_on_board(opp_pieces@[w].position));
        }
        let dst = CheckerPosition {
            column: if dcp {
                col + 2
            } else {
                col - 2
            },
            line: if dlp {
                lin + 2
            } else {
                lin - 2
            },
        };
        if is_allowable_position(&dst) && !board.occupied(&dst) {
            Some(
                AllowableMove {
                    checker_id: pc.id,
                    next_position: dst,
                    captured_piece_position: Some(mid),
                },
            )
        } else {
            None
        }
    } else {
        None
    }
}

/// Probes one direction for a simple move by `pc`, exactly as
/// `spec_simple_from` describes.
fn try_simple(board: &Board, color: PieceColor, pc: &CheckerPiece, dcp: bool, dlp: bool) -> (r:
    Option<AllowableMove>)
    requires
        board.wf(),
        pos_on_board(pc.position),
    ensures
        r == spec_simple_from(*board, color, *pc, dcp, dlp),
{
    let col = pc.position.column;
    let lin = pc.position.line;
    let dst = CheckerPosition {
        column: if dcp {
            col + 1
        } else {
            col - 1
        },
        line: if dlp {
            lin + 1
        } else {
            lin - 1
        },
    };
    if is_allowable_position(&dst) && !board.occupied(&dst) {
        Some(AllowableMove { checker_id: pc.id, next_position: dst, captured_piece_position: None })
    } else {
        None
    }
}

/// The one- or zero-element sequence a direction probe contributes.
pub open spec fn opt_to_seq(o: Option<AllowableMove>) -> Seq<AllowableMove> {
    match o {
        Some(m) => seq![m],
        None => Seq::empty(),
    }
}

/// What one direction contributes to a piece's capture list: nothing
/// when the piece may not move along `dlp`.
pub open spec fn opt_capture(
    b: Board,
    c: PieceColor,
    pc: CheckerPiece,
    dcp: bool,
    dlp: bool,
) -> Seq<AllowableMove> {
    if dir_allowed(pc, c, dlp) {
        opt_to_seq(spec_capture_from(b, c, pc, dcp, dlp))
    } else {
        Seq::empty()
    }
}

/// What one direction contributes to a piece's simple-move list.
pub open spec fn opt_simple(
    b: Board,
    c: PieceColor,
    pc: CheckerPiece,
    dcp: bool,
    dlp: bool,
) -> Seq<AllowableMove> {
    if dir_allowed(pc, c, dlp) {
        opt_to_seq(spec_simple_from(b, c, pc, dcp, dlp))
    } else {
        Seq::empty()
    }
}

/// All captures of one piece, in a fixed direction order.
pub open spec fn spec_piece_captures(b: Board, c: PieceColor, pc: CheckerPiece) -> Seq<
    AllowableMove,
> {
    opt_capture(b, c, pc, true, true) + opt_capture(b, c, pc, false, true) + opt_capture(
        b,
        c,
        pc,
        false,
        false,
    ) + opt_capture(b, c, pc, true, false)
}

/// All simple moves of one piece, in a fixed direction order.
pub open spec fn spec_piece_simples(b: Board, c: PieceColor, pc: CheckerPiece) -> Seq<
    AllowableMove,
> {
    opt_simple(b, c, pc, true, true) + opt_simple(b, c, pc, false, true) + opt_simple(
        b,
        c,
        pc,
        false,
        false,
    ) + opt_simple(b, c, pc, true, false)
}

proof fn lemma_contains_concat(a: Seq<AllowableMove>, b: Seq<AllowableMove>)
    ensures
        forall|m: AllowableMove| a.contains(m) ==> #[trigger] (a + b).contains(m),
        forall|m: AllowableMove| b.contains(m) ==> #[trigger] (a + b).contains(m),
{
    assert forall|m: AllowableMove| a.contains(m) implies (a + b).contains(m) by {
        let j = choose|j: int| 0 <= j < a.len() && a[j] == m;
        assert((a + b)[j] == m);
    }
    assert forall|m: AllowableMove| b.contains(m) implies (a + b).contains(m) by {
        let j = choose|j: int| 0 <= j < b.len() && b[j] == m;
        assert((a + b)[a.len() + j] == m);
    }
}

/// Each entry of a piece's capture list is a capturing move of the board.
proof fn lemma_piece_captures_sound(b: Board, c: PieceColor, i: int)
    requires
        0 <= i < b.spec_pieces(c).len(),
    ensures
        forall|k: int|
            0 <= k < spec_piece_captures(b, c, b.spec_pieces(c)[i]).len() ==> is_capture_move(
                b,
                c,
                #[trigger] spec_piece_captures(b, c, b.spec_pieces(c)[i])[k],
            ),
{
    let pc = b.spec_pieces(c)[i];
    let s1 = opt_capture(b, c, pc, true, true);
    let s2 = opt_capture(b, c, pc, false, true);
    let s3 = opt_capture(b, c, pc, false, false);
    let s4 = opt_capture(b, c, pc, true, false);
    assert forall|k: int|
        0 <= k < spec_piece_captures(b, c, pc).len() implies is_capture_move(
        b,
        c,
        spec_piece_captures(b, c, pc)[k],
    ) by {
        let s = spec_piece_captures(b, c, pc);
        if k < s1.len() {
            assert(s[k] == s1[0]);
            assert(spec_capture_from(b, c, pc, true, true) == Some(s[k]));
        } else if k < s1.len() + s2.len() {
            assert(s[k] == s2[0]);
            assert(spec_capture_from(b, c, pc, false, true) == Some(s[k]));
        } else if k < s1.len() + s2.len() + s3.len() {
            assert(s[k] == s3[0]);
            assert(spec_capture_from(b, c, pc, false, false) == Some(s[k]));
        } else {
            assert(s[k] == s4[0]);
            assert(spec_capture_from(b, c, pc, true, false) == Some(s[k]));
        }
    }
}

/// A piece's capture list misses no direction's capture.
proof fn lemma_piece_captures_complete(b: Board, c: PieceColor, pc: CheckerPiece)
    ensures
        forall|dcp: bool, dlp: bool|
            dir_allowed(pc, c, dlp) && (#[trigger] spec_capture_from(b, c, pc, dcp, dlp))
                is Some ==> spec_piece_captures(b, c, pc).contains(
                spec_capture_from(b, c, pc, dcp, dlp)->Some_0,
            ),
{
    let s1 = opt_capture(b, c, pc, true, true);
    let s2 = opt_capture(b, c, pc, false, true);
    let s3 = opt_capture(b, c, pc, false, false);
    let s4 = opt_capture(b, c, pc, true, false);
    lemma_contains_concat(s1, s2);
    lemma_contains_concat(s1 + s2, s3);
    lemma_contains_concat(s1 + s2 + s3, s4);
    assert forall|dcp: bool, dlp: bool|
        dir_allowed(pc, c, dlp) && (#[trigger] spec_capture_from(b, c, pc, dcp, dlp))
            is Some implies spec_piece_captures(b, c, pc).contains(
        spec_capture_from(b, c, pc, dcp, dlp)->Some_0,
    ) by {
        let m = spec_capture_from(b, c, pc, dcp, dlp)->Some_0;
        if dcp && dlp {
            assert(s1[0] == m);
            assert(s1.contains(m));
        } else if !dcp && dlp {
            assert(s2[0] == m);
            assert(s2.contains(m));
        } else if !dcp && !dlp {
            assert(s3[0] == m);
            assert(s3.contains(m));
        } else {
            assert(s4[0] == m);
            assert(s4.contains(m));
        }
    }
}

/// Mirrors of the two lemmas above for simple moves.
proof fn lemma_piece_simples_sound(b: Board, c: PieceColor, i: int)
    requires
        0 <= i < b.spec_pieces(c).len(),
    ensures
        forall|k: int|
            0 <= k < spec_piece_simples(b, c, b.spec_pieces(c)[i]).len() ==> is_simple_move(
                b,
                c,
                #[trigger] spec_piece_simples(b, c, b.spec_pieces(c)[i])[k],
            ),
{
    let pc = b.spec_pieces(c)[i];
    let s1 = opt_simple(b, c, pc, true, true);
    let s2 = opt_simple(b, c, pc, false, true);
    let s3 = opt_simple(b, c, pc, false, false);
    let s4 = opt_simple(b, c, pc, true, false);
    assert forall|k: int|
        0 <= k < spec_piece_simples(b, c, pc).len() implies is_simple_move(
        b,
        c,
        spec_piece_simples(b, c, pc)[k],
    ) by {
        let s = spec_piece_simples(b, c, pc);
        if k < s1.len() {
            assert(s[k] == s1[0]);
            assert(spec_simple_from(b, c, pc, true, true) == Some(s[k]));
        } else if k < s1.len() + s2.len() {
            assert(s[k] == s2[0]);
            assert(spec_simple_from(b, c, pc, false, true) == Some(s[k]));
        } else if k < s1.len() + s2.len() + s3.len() {
            assert(s[k] == s3[0]);
            assert(spec_simple_from(b, c, pc, false, false) == Some(s[k]));
        } else {
            assert(s[k] == s4[0]);
            assert(spec_simple_from(b, c, pc, true, false) == Some(s[k]));
        }
    }
}

proof fn lemma_piece_simples_complete(b: Board, c: PieceColor, pc: CheckerPiece)
    ensures
        forall|dcp: bool, dlp: bool|
            dir_allowed(pc, c, dlp) && (#[trigger] spec_simple_from(b, c, pc, dcp, dlp))
                is Some ==> spec_piece_simples(b, c, pc).contains(
                spec_simple_from(b, c, pc, dcp, dlp)->Some_0,
            ),
{
    let s1 = opt_simple(b, c, pc, true, true);
    let s2 = opt_simple(b, c, pc, false, true);
    let s3 = opt_simple(b, c, pc, false, false);
    let s4 = opt_simple(b, c, pc, true, false);
    lemma_contains_concat(s1, s2);
    lemma_contains_concat(s1 + s2, s3);
    lemma_contains_concat(s1 + s2 + s3, s4);
    assert forall|dcp: bool, dlp: bool|
        dir_allowed(pc, c, dlp) && (#[trigger] spec_simple_from(b, c, pc, dcp, dlp))
            is Some implies spec_piece_simples(b, c, pc).contains(
        spec_simple_from(b, c, pc, dcp, dlp)->Some_0,
    ) by {
        let m = spec_simple_from(b, c, pc, dcp, dlp)->Some_0;
        if dcp && dlp {
            assert(s1[0] == m);
            assert(s1.contains(m));
        } else if !dcp && dlp {
            assert(s2[0] == m);
            assert(s2.contains(m));
        } else if !dcp && !dlp {
            assert(s3[0] == m);
            assert(s3.contains(m));
        } else {
            assert(s4[0] == m);
            assert(s4.contains(m));
        }
    }
}

/// Appends a probe result to the list under construction.
fn push_opt(out: &mut Vec<AllowableMove>, o: Option<AllowableMove>)
    ensures
        final(out)@ == old(out)@ + opt_to_seq(o),
{
    match o {
        Some(m) => {
            out.push(m);
            assert(out@ =~= old(out)@ + opt_to_seq(o));
        },
        None => {
            assert(out@ =~= old(out)@ + opt_to_seq(o));
        },
    }
}

/// Appends every capture of `pc` to `out`, in the fixed direction order.
fn piece_captures(board: &Board, color: PieceColor, pc: &CheckerPiece, out: &mut Vec<
    AllowableMove,
>)
    requires
        board.wf(),
        pos_on_board(pc.position),
    ensures
        final(out)@ == old(out)@ + spec_piece_captures(*board, color, *pc),
{
    if pc.is_crowned {
        push_opt(out, try_capture(board, color, pc, true, true));
        push_opt(out, try_capture(board, color, pc, false, true));
        push_opt(out, try_capture(board, color, pc, false, false));
        push_opt(out, try_capture(board, color, pc, true, false));
    } else if color == PieceColor::White {
        push_opt(out, try_capture(board, color, pc, true, true));
        push_opt(out, try_capture(board, color, pc, false, true));
    } else {
        push_opt(out, try_capture(board, color, pc, false, false));
        push_opt(out, try_capture(board, color, pc, true, false));
    }
    assert(out@ =~= old(out)@ + spec_piece_captures(*board, color, *pc));
}

/// Appends every simple move of `pc` to `out`.
fn piece_simples(board: &Board, color: PieceColor, pc: &CheckerPiece, out: &mut Vec<AllowableMove>)
    requires
        board.wf(),
        pos_on_board(pc.position),
    ensures
        final(out)@ == old(out)@ + spec_piece_simples(*board, color, *pc),
{
    if pc.is_crowned {
        push_opt(out, try_simple(board, color, pc, true, true));
        push_opt(out, try_simple(board, color, pc, false, true));
        push_opt(out, try_simple(board, color, pc, false, false));
        push_opt(out, try_simple(board, color, pc, true, false));
    } else if color == PieceColor::White {
        push_opt(out, try_simple(board, color, pc, true, true));
        push_opt(out, try_simple(board, color, pc, false, true));
    } else {
        push_opt(out, try_simple(board, color, pc, false, false));
        push_opt(out, try_simple(board, color, pc, true, false));
    }
    assert(out@ =~= old(out)@ + spec_piece_simples(*board, color, *pc));
}

/// Every capturing move available to `color`, over all its pieces.
/// The list is sound and complete for `is_capture_move`, and it is
/// non-empty exactly when the color has a capture.
pub fn capturing_moves(board: &Board, color: PieceColor) -> (r: Vec<AllowableMove>)
    requires
        board.wf(),
    ensures
        forall|k: int| 0 <= k < r@.len() ==> is_capture_move(*board, color, #[trigger] r@[k]),
        forall|m: AllowableMove| is_capture_move(*board, color, m) ==> r@.contains(m),
        r@.len() > 0 <==> has_capture(*board, color),
{
    let pieces = board.pieces(color);
    let n = pieces.len();
    let mut out: Vec<AllowableMove> = Vec::new();
    let mut i: usize = 0;
    while i < n
        invariant
            board.wf(),
            0 <= i <= n,
            n == board.spec_pieces(color).len(),
            pieces@ == board.spec_pieces(color),
            forall|k: int|
                0 <= k < out@.len() ==> is_capture_move(*board, color, #[trigger] out@[k]),
            forall|i2: int, dcp: bool, dlp: bool|
                0 <= i2 < i && dir_allowed(pieces@[i2], color, dlp) && (
                #[trigger] spec_capture_from(*board, color, pieces@[i2], dcp, dlp))
                    is Some ==> out@.contains(
                    spec_capture_from(*board, color, pieces@[i2], dcp, dlp)->Some_0,
                ),
        decreases n - i,
    {
        let pc = pieces[i];
        proof {
            assert(pos_on_board(pieces@[i as int].position));
        }
        let ghost prev = out@;
        piece_captures(board, color, &pc, &mut out);
        proof {
            lemma_piece_captures_sound(*board, color, i as int);
            lemma_piece_captures_complete(*board, color, pc);
            lemma_contains_concat(prev, spec_piece_captures(*board, color, pc));
            assert forall|k: int|
                0 <= k < out@.len() implies is_capture_move(*board, color, out@[k]) by {
                if k >= prev.len() {
                    assert(out@[k] == spec_piece_captures(*board, color, pc)[k - prev.len()]);
                } else {
                    assert(out@[k] == prev[k]);
                }
            }
        }
        i = i + 1;
    }
    proof {
        assert forall|m: AllowableMove|
            is_capture_move(*board, color, m) implies out@.contains(m) by {
            let (i2, dcp, dlp) = choose|i2: int, dcp: bool, dlp: bool|
                0 <= i2 < board.spec_pieces(color).len() && dir_allowed(
                    board.spec_pieces(color)[i2],
                    color,
                    dlp,
                ) && spec_capture_from(*board, color, board.spec_pieces(color)[i2], dcp, dlp)
                    == Some(m);
            assert(spec_capture_from(*board, color, pieces@[i2], dcp, dlp) is Some);
        }
        if out@.len() > 0 {
            assert(is_capture_move(*board, color, out@[0]));
        }
        if has_capture(*board, color) {
            let m = choose|m: AllowableMove| is_capture_move(*board, color, m);
            assert(out@.contains(m));
        }
    }
    out
}

/// Every simple move available to `color`, over all its pieces.
pub fn simple_moves(board: &Board, color: PieceColor) -> (r: Vec<AllowableMove>)
    requires
        board.wf(),
    ensures
        forall|k: int| 0 <= k < r@.len() ==> is_simple_move(*board, color, #[trigger] r@[k]),
        forall|m: AllowableMove| is_simple_move(*board, color, m) ==> r@.contains(m),
{
    let pieces = board.pieces(color);
    let n = pieces.len();
    let mut out: Vec<AllowableMove> = Vec::new();
    let mut i: usize = 0;
    while i < n
        invariant
            board.wf(),
            0 <= i <= n,
            n == board.spec_pieces(color).len(),
            pieces@ == board.spec_pieces(color),
            forall|k: int|
                0 <= k < out@.len() ==> is_simple_move(*board, color, #[trigger] out@[k]),
            forall|i2: int, dcp: bool, dlp: bool|
                0 <= i2 < i && dir_allowed(pieces@[i2], color, dlp) && (
                #[trigger] spec_simple_from(*board, color, pieces@[i2], dcp, dlp))
                    is Some ==> out@.contains(
                    spec_simple_from(*board, color, pieces@[i2], dcp, dlp)->Some_0,
                ),
        decreases n - i,
    {
        let pc = pieces[i];
        proof {
            assert(pos_on_board(pieces@[i as int].position));
        }
        let ghost prev = out@;
        piece_simples(board, color, &pc, &mut out);
        proof {
            lemma_piece_simples_sound(*board, color, i as int);
            lemma_piece_simples_complete(*board, color, pc);
            lemma_contains_concat(prev, spec_piece_simples(*board, color, pc));
            assert forall|k: int|
                0 <= k < out@.len() implies is_simple_move(*board, color, out@[k]) by {
                if k >= prev.len() {
                    assert(out@[k] == spec_piece_simples(*board, color, pc)[k - prev.len()]);
                } else {
                    assert(out@[k] == prev[k]);
                }
            }
        }
        i = i + 1;
    }
    proof {
        assert forall|m: AllowableMove|
            is_simple_move(*board, color, m) implies out@.contains(m) by {
            let (i2, dcp, dlp) = choose|i2: int, dcp: bool, dlp: bool|
                0 <= i2 < board.spec_pieces(color).len() && dir_allowed(
                    board.spec_pieces(color)[i2],
                    color,
                    dlp,
                ) && spec_simple_from(*board, color, board.spec_pieces(color)[i2], dcp, dlp)
                    == Some(m);
            assert(spec_simple_from(*board, color, pieces@[i2], dcp, dlp) is Some);
        }
    }
    out
}

/// The legal moves of `color`: all capturing moves when any exist,
/// otherwise all simple moves. The last clause is the mandatory-capture
/// rule seen on the returned list itself: if it offers one capturing
/// move it offers no simple move.
pub fn legal_moves(board: &Board, color: PieceColor) -> (r: Vec<AllowableMove>)
    requires
        board.wf(),
    ensures
        forall|k: int| 0 <= k < r@.len() ==> is_legal_move(*board, color, #[trigger] r@[k]),
        forall|m: AllowableMove| is_legal_move(*board, color, m) ==> r@.contains(m),
        (exists|k: int|
            0 <= k < r@.len() && (#[trigger] r@[k]).captured_piece_position is Some) ==> forall|
            k: int,
        |
            0 <= k < r@.len() ==> (#[trigger] r@[k]).captured_piece_position is Some,
{
    let caps = capturing_moves(board, color);
    if caps.len() > 0 {
        proof {
            assert forall|k: int|
                0 <= k < caps@.len() implies (#[trigger] caps@[k]).captured_piece_position
                is Some by {
                lemma_move_shape(*board, color, caps@[k]);
            }
        }
        caps
    } else {
        let simples = simple_moves(board, color);
        proof {
            assert forall|k: int|
                0 <= k < simples@.len() implies (
            #[trigger] simples@[k]).captured_piece_position is None by {
                lemma_move_shape(*board, color, simples@[k]);
            }
        }
        simples
    }
}

/// The mandatory-capture law: when one legal move of a color captures,
/// every legal move of that color captures.
pub proof fn lemma_mandatory_capture(
    b: Board,
    c: PieceColor,
    mc: AllowableMove,
    ms: AllowableMove,
)
    requires
        is_legal_move(b, c, mc),
        is_legal_move(b, c, ms),
        mc.captured_piece_position is Some,
    ensures
        ms.captured_piece_position is Some,
{
    lemma_move_shape(b, c, mc);
    lemma_move_shape(b, c, ms);
}

/// Some listed piece bears identifier `id`.
pub open spec fn has_id(s: Seq<CheckerPiece>, id: u8) -> bool {
    exists|i: int| 0 <= i < s.len() && (#[trigger] s[i]).id == id
}

/// Index of the first piece with identifier `id` at or after `i`, or -1.
pub open spec fn find_id_from(s: Seq<CheckerPiece>, id: u8, i: int) -> int
    decreases s.len() - i,
    when 0 <= i <= s.len()
{
    if i >= s.len() {
        -1
    } else if s[i].id == id {
        i
    } else {
        find_id_from(s, id, i + 1)
    }
}

/// Index of the first piece with identifier `id`, or -1.
pub open spec fn find_id(s: Seq<CheckerPiece>, id: u8) -> int {
    find_id_from(s, id, 0)
}

proof fn lemma_find_id_skip(s: Seq<CheckerPiece>, id: u8, i: int)
    requires
        0 <= i <= s.len(),
        forall|j: int| 0 <= j < i ==> (#[trigger] s[j]).id != id,
    ensures
        find_id(s, id) == find_id_from(s, id, i),
    decreases i,
{
    if i > 0 {
        lemma_find_id_skip(s, id, i - 1);
    }
}

/// Characterization of `find_id`.
pub proof fn lemma_find_id_props(s: Seq<CheckerPiece>, id: u8)
    ensures
        find_id(s, id) == -1 ==> !has_id(s, id),
        find_id(s, id) != -1 ==> 0 <= find_id(s, id) < s.len() && s[find_id(s, id)].id == id,
{
    lemma_find_id_props_from(s, id, 0);
}

proof fn lemma_find_id_props_from(s: Seq<CheckerPiece>, id: u8, i: int)
    requires
        0 <= i <= s.len(),
    ensures
        find_id_from(s, id, i) == -1 ==> forall|j: int|
            i <= j < s.len() ==> (#[trigger] s[j]).id != id,
        find_id_from(s, id, i) != -1 ==> i <= find_id_from(s, id, i) < s.len() && s[find_id_from(
            s,
            id,
            i,
        )].id == id,
    decreases s.len() - i,
{
    if i < s.len() && s[i].id != id {
        lemma_find_id_props_from(s, id, i + 1);
    }
}

/// Index of the first piece with identifier `id`, which must exist.
fn find_piece_index(pieces: &Vec<CheckerPiece>, id: u8) -> (r: usize)
    requires
        find_id(pieces@, id) >= 0,
    ensures
        r == find_id(pieces@, id),
{
    let n = pieces.len();
    let mut i: usize = 0;
    while i < n
        invariant
            0 <= i <= n,
            n == pieces@.len(),
            find_id(pieces@, id) >= 0,
            forall|j: int| 0 <= j < i ==> (#[trigger] pieces@[j]).id != id,
        decreases n - i,
    {
        if pieces[i].id == id {
            proof {
                lemma_find_id_skip(pieces@, id, i as int);
            }
            return i;
        }
        i = i + 1;
    }
    proof {
        lemma_find_id_skip(pieces@, id, n as int);
        assert(false);
    }
    0
}

/// The line on which a piece of color `c` is crowned: the opponent's
/// back rank.
pub open spec fn crowning_line(c: PieceColor) -> int {
    match c {
        PieceColor::White => 8,
        PieceColor::Black => 1,
    }
}

/// The moved piece after relocation: same identifier, crowned when it
/// was already crowned or lands on the crowning line.
pub open spec fn promoted(pc: CheckerPiece, c: PieceColor, dst: CheckerPosition) -> CheckerPiece {
    CheckerPiece {
        id: pc.id,
        is_crowned: pc.is_crowned || dst.line as int == crowning_line(c),
        position: dst,
    }
}

/// The mover's pieces after the move: the first piece bearing the moved
/// identifier is relocated (and possibly crowned); with no such piece
/// the collection is unchanged.
pub open spec fn spec_moved_pieces(own: Seq<CheckerPiece>, c: PieceColor, m: AllowableMove) -> Seq<
    CheckerPiece,
> {
    let i = find_id(own, m.checker_id);
    if i >= 0 {
        own.update(i, promoted(own[i], c, m.next_position))
    } else {
        own
    }
}

/// The opponent's pieces after a capture on `captured`, if any: the
/// first piece on that square is removed.
pub open spec fn spec_remove_captured(
    opp: Seq<CheckerPiece>,
    captured: Option<CheckerPosition>,
) -> Seq<CheckerPiece> {
    match captured {
        Some(p) => {
            let j = find_pos(opp, p);
            if j >= 0 {
                opp.remove(j)
            } else {
                opp
            }
        },
        None => opp,
    }
}

/// The opponent's pieces after the move: for a capturing move, the first
/// piece on the captured square is removed.
pub open spec fn spec_after_capture(opp: Seq<CheckerPiece>, m: AllowableMove) -> Seq<
    CheckerPiece,
> {
    spec_remove_captured(opp, m.captured_piece_position)
}

/// The board after color `c` plays `m`, as a (white, black) pair of
/// piece sequences.
pub open spec fn spec_apply(
    w: Seq<CheckerPiece>,
    bk: Seq<CheckerPiece>,
    c: PieceColor,
    m: AllowableMove,
) -> (Seq<CheckerPiece>, Seq<CheckerPiece>) {
    match c {
        PieceColor::White => (spec_moved_pieces(w, c, m), spec_after_capture(bk, m)),
        PieceColor::Black => (spec_after_capture(w, m), spec_moved_pieces(bk, c, m)),
    }
}

/// Any available capture or simple move satisfies the side conditions
/// that `apply_move` asks of its caller.
pub proof fn lemma_move_enabled(b: Board, c: PieceColor, m: AllowableMove)
    requires
        b.wf(),
        is_capture_move(b, c, m) || is_simple_move(b, c, m),
    ensures
        find_id(b.spec_pieces(c), m.checker_id) >= 0,
        pos_on_board(m.next_position),
        !b.spec_occupied(m.next_position),
{
    let own = b.spec_pieces(c);
    if is_capture_move(b, c, m) {
        let (i, dcp, dlp) = choose|i: int, dcp: bool, dlp: bool|
            0 <= i < own.len() && dir_allowed(own[i], c, dlp) && #[trigger] spec_capture_from(
                b,
                c,
                own[i],
                dcp,
                dlp,
            ) == Some(m);
        assert(own[i].id == m.checker_id);
        assert(has_id(own, m.checker_id));
    } else {
        let (i, dcp, dlp) = choose|i: int, dcp: bool, dlp: bool|
            0 <= i < own.len() && dir_allowed(own[i], c, dlp) && #[trigger] spec_simple_from(
                b,
                c,
                own[i],
                dcp,
                dlp,
            ) == Some(m);
        assert(own[i].id == m.checker_id);
        assert(has_id(own, m.checker_id));
    }
    lemma_find_id_props(b.spec_pieces(c), m.checker_id);
}

/// `x` is one of the pieces listed in `s`.
pub open spec fn mem_piece(s: Seq<CheckerPiece>, x: CheckerPiece) -> bool {
    exists|k0: int| 0 <= k0 < s.len() && s[k0] == x
}

/// Removing one piece preserves the per-collection invariants, and
/// every remaining piece already belonged to the collection.
proof fn lemma_remove_preserves(s: Seq<CheckerPiece>, j: int)
    requires
        0 <= j < s.len(),
    ensures
        all_on_board(s) ==> all_on_board(s.remove(j)),
        positions_distinct(s) ==> positions_distinct(s.remove(j)),
        ids_unique(s) ==> ids_unique(s.remove(j)),
        forall|k: int| 0 <= k < s.remove(j).len() ==> mem_piece(s, #[trigger] s.remove(j)[k]),
{
    s.remove_ensures(j);
    assert forall|k: int| 0 <= k < s.remove(j).len() implies mem_piece(
        s,
        #[trigger] s.remove(j)[k],
    ) by {
        if k < j {
            assert(s[k] == s.remove(j)[k]);
        } else {
            assert(s[k + 1] == s.remove(j)[k]);
        }
    }
    if positions_distinct(s) {
        assert forall|a: int, b2: int|
            0 <= a < b2 < s.remove(j).len() implies (#[trigger] s.remove(j)[a]).position != (
        #[trigger] s.remove(j)[b2]).position by {
            let fa = if a < j { a } else { a + 1 };
            let fb = if b2 < j { b2 } else { b2 + 1 };
            assert(s.remove(j)[a] == s[fa]);
            assert(s.remove(j)[b2] == s[fb]);
        }
    }
    if ids_unique(s) {
        assert forall|a: int, b2: int|
            0 <= a < b2 < s.remove(j).len() implies (#[trigger] s.remove(j)[a]).id != (
        #[trigger] s.remove(j)[b2]).id by {
            let fa = if a < j { a } else { a + 1 };
            let fb = if b2 < j { b2 } else { b2 + 1 };
            assert(s.remove(j)[a] == s[fa]);
            assert(s.remove(j)[b2] == s[fb]);
        }
    }
    if all_on_board(s) {
        assert forall|k: int| 0 <= k < s.remove(j).len() implies pos_on_board(
            (#[trigger] s.remove(j)[k]).position,
        ) by {
            let fk = if k < j { k } else { k + 1 };
            assert(s.remove(j)[k] == s[fk]);
        }
    }
}

/// Relocating one piece to a free on-board square preserves the
/// per-collection invariants.
proof fn lemma_update_move(s: Seq<CheckerPiece>, idx: int, np: CheckerPiece)
    requires
        0 <= idx < s.len(),
        np.id == s[idx].id,
        pos_on_board(np.position),
        !occ(s, np.position),
        all_on_board(s),
        positions_distinct(s),
        ids_unique(s),
    ensures
        all_on_board(s.update(idx, np)),
        positions_distinct(s.update(idx, np)),
        ids_unique(s.update(idx, np)),
{
    let s2 = s.update(idx, np);
    assert forall|a: int, b2: int|
        0 <= a < b2 < s2.len() implies (#[trigger] s2[a]).position != (
    #[trigger] s2[b2]).position by {
        if a != idx && b2 != idx {
            assert(s2[a] == s[a] && s2[b2] == s[b2]);
        } else if a == idx {
            assert(s2[b2] == s[b2]);
            assert(!(0 <= b2 < s.len() && s[b2].position == np.position));
        } else {
            assert(s2[a] == s[a]);
            assert(!(0 <= a < s.len() && s[a].position == np.position));
        }
    }
}

/// Applying a move preserves the board invariant, stated on the mover's
/// and the opponent's collections.
proof fn lemma_apply_wf(own: Seq<CheckerPiece>, opp: Seq<CheckerPiece>, c: PieceColor, m: AllowableMove)
    requires
        all_on_board(own),
        positions_distinct(own),
        ids_unique(own),
        all_on_board(opp),
        positions_distinct(opp),
        ids_unique(opp),
        no_overlap(own, opp),
        find_id(own, m.checker_id) >= 0,
        pos_on_board(m.next_position),
        !occ(own, m.next_position),
        !occ(opp, m.next_position),
    ensures
        all_on_board(spec_moved_pieces(own, c, m)),
        positions_distinct(spec_moved_pieces(own, c, m)),
        ids_unique(spec_moved_pieces(own, c, m)),
        all_on_board(spec_after_capture(opp, m)),
        positions_distinct(spec_after_capture(opp, m)),
        ids_unique(spec_after_capture(opp, m)),
        no_overlap(spec_moved_pieces(own, c, m), spec_after_capture(opp, m)),
        no_overlap(spec_after_capture(opp, m), spec_moved_pieces(own, c, m)),
{
    let idx = find_id(own, m.checker_id);
    lemma_find_id_props(own, m.checker_id);
    let np = promoted(own[idx], c, m.next_position);
    let own2 = spec_moved_pieces(own, c, m);
    let opp2 = spec_after_capture(opp, m);
    lemma_update_move(own, idx, np);
    match m.captured_piece_position {
        Some(p) => {
            let j = find_pos(opp, p);
            lemma_find_pos_props(opp, p);
            if j >= 0 {
                lemma_remove_preserves(opp, j);
            }
        },
        None => {},
    }
    // every piece of opp2 is a piece of opp
    assert forall|k: int| 0 <= k < opp2.len() implies mem_piece(opp, #[trigger] opp2[k]) by {
        match m.captured_piece_position {
            Some(p) => {
                let j = find_pos(opp, p);
                if j >= 0 {
                } else {
                    assert(opp[k] == opp2[k]);
                }
            },
            None => {
                assert(opp[k] == opp2[k]);
            },
        }
    }
    assert forall|i: int, k: int|
        0 <= i < own2.len() && 0 <= k < opp2.len() implies (#[trigger] own2[i]).position != (
    #[trigger] opp2[k]).position by {
        let k0 = choose|k0: int| 0 <= k0 < opp.len() && opp[k0] == opp2[k];
        if i == idx {
            assert(own2[i] == np);
            assert(!(0 <= k0 < opp.len() && opp[k0].position == np.position));
        } else {
            assert(own2[i] == own[i]);
        }
    }
    assert(no_overlap(opp2, own2));
}

/// Copies a piece collection.
fn clone_pieces(v: &Vec<CheckerPiece>) -> (r: Vec<CheckerPiece>)
    ensures
        r@ == v@,
{
    let n = v.len();
    let mut out: Vec<CheckerPiece> = Vec::new();
    let mut i: usize = 0;
    while i < n
        invariant
            0 <= i <= n,
            n == v@.len(),
            out@ == v@.subrange(0, i as int),
        decreases n - i,
    {
        out.push(v[i]);
        assert(out@ =~= v@.subrange(0, i + 1));
        i = i + 1;
    }
    assert(out@ =~= v@);
    out
}

/// Applies `mv` for `color`: relocates the piece bearing the moved
/// identifier to the destination square, crowns it when it reaches the
/// opponent's back rank, and removes the captured opponent piece, if
/// any. The result is exactly `spec_apply` of the input board.
pub fn apply_move(board: &Board, color: PieceColor, mv: &AllowableMove) -> (r: Board)
    requires
        board.wf(),
        find_id(board.spec_pieces(color), mv.checker_id) >= 0,
        pos_on_board(mv.next_position),
        !board.spec_occupied(mv.next_position),
    ensures
        (r.white@, r.black@) == spec_apply(board.white@, board.black@, color, *mv),
        r.wf(),
{
    let own = board.pieces(color);
    let opponent = color.opposite();
    let opp = board.pieces(opponent);
    let idx = find_piece_index(own, mv.checker_id);
    proof {
        lemma_find_id_props(own@, mv.checker_id);
    }
    let mut own2 = clone_pieces(own);
    let crowned_now = match color {
        PieceColor::White => mv.next_position.line == 8,
        PieceColor::Black => mv.next_position.line == 1,
    };
    own2[idx] = CheckerPiece {
        id: mv.checker_id,
        is_crowned: own[idx].is_crowned || crowned_now,
        position: mv.next_position,
    };
    proof {
        assert(own2@ == spec_moved_pieces(own@, color, *mv));
    }
    let mut opp2 = clone_pieces(opp);
    match mv.captured_piece_position {
        Some(cap) => {
            proof {
                lemma_find_pos_props(opp@, cap);
            }
            match find_position(&opp2, &cap) {
                Some(j) => {
                    opp2.remove(j);
                    assert(opp2@ == spec_after_capture(opp@, *mv));
                },
                None => {
                    assert(opp2@ == spec_after_capture(opp@, *mv));
                },
            }
        },
        None => {
            assert(opp2@ == spec_after_capture(opp@, *mv));
        },
    }
    proof {
        lemma_apply_wf(own@, opp@, color, *mv);
    }
    match color {
        PieceColor::White => Board { white: own2, black: opp2 },
        PieceColor::Black => Board { white: opp2, black: own2 },
    }
}

/// The mover's pieces after relocating the piece on `prev` to `dst`:
/// the square-addressed form used when replaying a relayed move.
pub open spec fn spec_relocate(
    own: Seq<CheckerPiece>,
    c: PieceColor,
    prev: CheckerPosition,
    dst: CheckerPosition,
) -> Seq<CheckerPiece> {
    let i = find_pos(own, prev);
    if i >= 0 {
        own.update(i, promoted(own[i], c, dst))
    } else {
        own
    }
}

/// The board after color `c` moves from `prev` to `dst`, capturing the
/// piece on `captured` if one is named, as a (white, black) pair.
pub open spec fn spec_apply_at(
    w: Seq<CheckerPiece>,
    bk: Seq<CheckerPiece>,
    c: PieceColor,
    prev: CheckerPosition,
    dst: CheckerPosition,
    captured: Option<CheckerPosition>,
) -> (Seq<CheckerPiece>, Seq<CheckerPiece>) {
    match c {
        PieceColor::White => (spec_relocate(w, c, prev, dst), spec_remove_captured(bk, captured)),
        PieceColor::Black => (spec_remove_captured(w, captured), spec_relocate(bk, c, prev, dst)),
    }
}

proof fn lemma_apply_at_wf(
    own: Seq<CheckerPiece>,
    opp: Seq<CheckerPiece>,
    c: PieceColor,
    prev: CheckerPosition,
    dst: CheckerPosition,
    captured: Option<CheckerPosition>,
)
    requires
        all_on_board(own),
        positions_distinct(own),
        ids_unique(own),
        all_on_board(opp),
        positions_distinct(opp),
        ids_unique(opp),
        no_overlap(own, opp),
        pos_on_board(dst),
        !occ(own, dst),
        !occ(opp, dst),
    ensures
        all_on_board(spec_relocate(own, c, prev, dst)),
        positions_distinct(spec_relocate(own, c, prev, dst)),
        ids_unique(spec_relocate(own, c, prev, dst)),
        all_on_board(spec_remove_captured(opp, captured)),
        positions_distinct(spec_remove_captured(opp, captured)),
        ids_unique(spec_remove_captured(opp, captured)),
        no_overlap(spec_relocate(own, c, prev, dst), spec_remove_captured(opp, captured)),
        no_overlap(spec_remove_captured(opp, captured), spec_relocate(own, c, prev, dst)),
{
    let idx = find_pos(own, prev);
    lemma_find_pos_props(own, prev);
    let own2 = spec_relocate(own, c, prev, dst);
    let opp2 = spec_remove_captured(opp, captured);
    if idx >= 0 {
        lemma_update_move(own, idx, promoted(own[idx], c, dst));
    }
    match captured {
        Some(p) => {
            let j = find_pos(opp, p);
            lemma_find_pos_props(opp, p);
            if j >= 0 {
                lemma_remove_preserves(opp, j);
            }
        },
        None => {},
    }
    assert forall|k: int| 0 <= k < opp2.len() implies mem_piece(opp, #[trigger] opp2[k]) by {
        match captured {
            Some(p) => {
                let j = find_pos(opp, p);
                if j >= 0 {
                } else {
                    assert(opp[k] == opp2[k]);
                }
            },
            None => {
                assert(opp[k] == opp2[k]);
            },
        }
    }
    assert forall|i: int, k: int|
        0 <= i < own2.len() && 0 <= k < opp2.len() implies (#[trigger] own2[i]).position != (
    #[trigger] opp2[k]).position by {
        let k0 = choose|k0: int| 0 <= k0 < opp.len() && opp[k0] == opp2[k];
        if idx >= 0 && i == idx {
            assert(own2[i] == promoted(own[idx], c, dst));
            assert(!(0 <= k0 < opp.len() && opp[k0].position == dst));
        } else {
            assert(own2[i] == own[i]);
        }
    }
    assert(no_overlap(opp2, own2));
}

/// Replays a move given by squares, as relayed between the two
/// clients: the piece standing on `prev` (if any) is relocated to
/// `dst` and crowned on the opponent's back rank, and the piece on the
/// captured square (if one is named) is removed. A description whose
/// destination is off-board or occupied is rejected, so the board
/// invariant always survives.
pub fn apply_move_at(
    board: &Board,
    color: PieceColor,
    prev: &CheckerPosition,
    dst: &CheckerPosition,
    captured: &Option<CheckerPosition>,
) -> (r: Option<Board>)
    requires
        board.wf(),
    ensures
        r is Some <==> (pos_on_board(*dst) && !board.spec_occupied(*dst)),
        r is Some ==> (r->Some_0.white@, r->Some_0.black@) == spec_apply_at(
            board.white@,
            board.black@,
            color,
            *prev,
            *dst,
            *captured,
        ) && r->Some_0.wf(),
{
    if !is_allowable_position(dst) || board.occupied(dst) {
        return None;
    }
    let own = board.pieces(color);
    let opponent = color.opposite();
    let opp = board.pieces(opponent);
    let mut own2 = clone_pieces(own);
    proof {
        lemma_find_pos_props(own@, *prev);
    }
    match find_position(own, prev) {
        Some(i) => {
            let crowned_now = match color {
                PieceColor::White => dst.line == 8,
                PieceColor::Black => dst.line == 1,
            };
            own2[i] = CheckerPiece {
                id: own[i].id,
                is_crowned: own[i].is_crowned || crowned_now,
                position: *dst,
            };
            assert(own2@ == spec_relocate(own@, color, *prev, *dst));
        },
        None => {
            assert(own2@ == spec_relocate(own@, color, *prev, *dst));
        },
    }
    let mut opp2 = clone_pieces(opp);
    match captured {
        Some(cap) => {
            proof {
                lemma_find_pos_props(opp@, *cap);
            }
            match find_position(&opp2, cap) {
                Some(j) => {
                    opp2.remove(j);
                    assert(opp2@ == spec_remove_captured(opp@, *captured));
                },
                None => {
                    assert(opp2@ == spec_remove_captured(opp@, *captured));
                },
            }
        },
        None => {
            assert(opp2@ == spec_remove_captured(opp@, *captured));
        },
    }
    proof {
        lemma_apply_at_wf(own@, opp@, color, *prev, *dst, *captured);
    }
    match color {
        PieceColor::White => Some(Board { white: own2, black: opp2 }),
        PieceColor::Black => Some(Board { white: opp2, black: own2 }),
    }
}

/// Move application is deterministic: one input board and move admit
/// exactly one output board.
pub proof fn lemma_apply_move_deterministic(
    w: Seq<CheckerPiece>,
    bk: Seq<CheckerPiece>,
    c: PieceColor,
    m: AllowableMove,
    r1: (Seq<CheckerPiece>, Seq<CheckerPiece>),
    r2: (Seq<CheckerPiece>, Seq<CheckerPiece>),
)
    requires
        r1 == spec_apply(w, bk, c, m),
        r2 == spec_apply(w, bk, c, m),
    ensures
        r1 == r2,
{
}

/// Every piece of `s` bearing identifier `id` is crowned.
pub open spec fn all_with_id_crowned(s: Seq<CheckerPiece>, id: u8) -> bool {
    forall|j: int| 0 <= j < s.len() && (#[trigger] s[j]).id == id ==> s[j].is_crowned
}

/// The pieces of one side of a (white, black) pair.
pub open spec fn side_pieces(
    w: Seq<CheckerPiece>,
    bk: Seq<CheckerPiece>,
    side: PieceColor,
) -> Seq<CheckerPiece> {
    match side {
        PieceColor::White => w,
        PieceColor::Black => bk,
    }
}

/// The board after a whole sequence of moves, each tagged with the
/// color that plays it.
pub open spec fn spec_apply_seq(
    w: Seq<CheckerPiece>,
    bk: Seq<CheckerPiece>,
    ms: Seq<(PieceColor, AllowableMove)>,
) -> (Seq<CheckerPiece>, Seq<CheckerPiece>)
    decreases ms.len(),
{
    if ms.len() == 0 {
        (w, bk)
    } else {
        let n = spec_apply(w, bk, ms[0].0, ms[0].1);
        spec_apply_seq(n.0, n.1, ms.drop_first())
    }
}

proof fn lemma_moved_keeps_crowned(own: Seq<CheckerPiece>, c: PieceColor, m: AllowableMove, id: u8)
    requires
        all_with_id_crowned(own, id),
    ensures
        all_with_id_crowned(spec_moved_pieces(own, c, m), id),
{
    let i = find_id(own, m.checker_id);
    lemma_find_id_props(own, m.checker_id);
    if i >= 0 {
        let s2 = own.update(i, promoted(own[i], c, m.next_position));
        assert forall|j: int|
            0 <= j < s2.len() && (#[trigger] s2[j]).id == id implies s2[j].is_crowned by {
            if j != i {
                assert(s2[j] == own[j]);
            }
        }
    }
}

proof fn lemma_capture_keeps_crowned(opp: Seq<CheckerPiece>, m: AllowableMove, id: u8)
    requires
        all_with_id_crowned(opp, id),
    ensures
        all_with_id_crowned(spec_after_capture(opp, m), id),
{
    match m.captured_piece_position {
        Some(p) => {
            let j = find_pos(opp, p);
            lemma_find_pos_props(opp, p);
            if j >= 0 {
                opp.remove_ensures(j);
                let s2 = opp.remove(j);
                assert forall|k: int|
                    0 <= k < s2.len() && (#[trigger] s2[k]).id == id implies s2[k].is_crowned by {
                    if k < j {
                        assert(s2[k] == opp[k]);
                    } else {
                        assert(s2[k] == opp[k + 1]);
                    }
                }
            }
        },
        None => {},
    }
}

/// Promotion is one-way: when every piece of one side bearing an
/// identifier is crowned, that stays true under any sequence of applied
/// moves — no application of a move clears a crowned flag.
pub proof fn lemma_promotion_one_way(
    w: Seq<CheckerPiece>,
    bk: Seq<CheckerPiece>,
    ms: Seq<(PieceColor, AllowableMove)>,
    side: PieceColor,
    id: u8,
)
    requires
        all_with_id_crowned(side_pieces(w, bk, side), id),
    ensures
        all_with_id_crowned(
            side_pieces(spec_apply_seq(w, bk, ms).0, spec_apply_seq(w, bk, ms).1, side),
            id,
        ),
    decreases ms.len(),
{
    if ms.len() > 0 {
        let c = ms[0].0;
        let m = ms[0].1;
        let n = spec_apply(w, bk, c, m);
        if side == c {
            lemma_moved_keeps_crowned(side_pieces(w, bk, side), c, m, id);
        } else {
            lemma_capture_keeps_crowned(side_pieces(w, bk, side), m, id);
        }
        lemma_promotion_one_way(n.0, n.1, ms.drop_first(), side, id);
    }
}

/// A man of the starting layout.
pub open spec fn start_man(id: u8, column: u8, line: u8) -> CheckerPiece {
    CheckerPiece { id, is_crowned: false, position: CheckerPosition { column, line } }
}

/// White's twelve starting pieces, on the dark squares of lines 1 to 3.
pub open spec fn initial_white() -> Seq<CheckerPiece> {
    seq![
        start_man(1, 1, 1),
        start_man(2, 1, 3),
        start_man(3, 2, 2),
        start_man(4, 3, 1),
        start_man(5, 3, 3),
        start_man(6, 4, 2),
        start_man(7, 5, 1),
        start_man(8, 5, 3),
        start_man(9, 6, 2),
        start_man(10, 7, 1),
        start_man(11, 7, 3),
        start_man(12, 8, 2),
    ]
}

/// Black's twelve starting pieces, on the dark squares of lines 6 to 8.
pub open spec fn initial_black() -> Seq<CheckerPiece> {
    seq![
        start_man(1, 1, 7),
        start_man(2, 2, 6),
        start_man(3, 2, 8),
        start_man(4, 3, 7),
        start_man(5, 4, 6),
        start_man(6, 4, 8),
        start_man(7, 5, 7),
        start_man(8, 6, 6),
        start_man(9, 6, 8),
        start_man(10, 7, 7),
        start_man(11, 8, 6),
        start_man(12, 8, 8),
    ]
}

fn push_man(v: &mut Vec<CheckerPiece>, id: u8, column: u8, line: u8)
    ensures
        final(v)@ == old(v)@.push(start_man(id, column, line)),
{
    v.push(CheckerPiece { id, is_crowned: false, position: CheckerPosition { column, line } });
}

/// The fixed starting board: twelve men per side, mirrored diagonally.
pub fn initial_board() -> (r: Board)
    ensures
        r.white@ == initial_white(),
        r.black@ == initial_black(),
        r.wf(),
{
    let mut white: Vec<CheckerPiece> = Vec::new();
    push_man(&mut white, 1, 1, 1);
    push_man(&mut white, 2, 1, 3);
    push_man(&mut white, 3, 2, 2);
    push_man(&mut white, 4, 3, 1);
    push_man(&mut white, 5, 3, 3);
    push_man(&mut white, 6, 4, 2);
    push_man(&mut white, 7, 5, 1);
    push_man(&mut white, 8, 5, 3);
    push_man(&mut white, 9, 6, 2);
    push_man(&mut white, 10, 7, 1);
    push_man(&mut white, 11, 7, 3);
    push_man(&mut white, 12, 8, 2);
    let mut black: Vec<CheckerPiece> = Vec::new();
    push_man(&mut black, 1, 1, 7);
    push_man(&mut black, 2, 2, 6);
    push_man(&mut black, 3, 2, 8);
    push_man(&mut black, 4, 3, 7);
    push_man(&mut black, 5, 4, 6);
    push_man(&mut black, 6, 4, 8);
    push_man(&mut black, 7, 5, 7);
    push_man(&mut black, 8, 6, 6);
    push_man(&mut black, 9, 6, 8);
    push_man(&mut black, 10, 7, 7);
    push_man(&mut black, 11, 8, 6);
    push_man(&mut black, 12, 8, 8);
    proof {
        assert(white@ =~= initial_white());
        assert(black@ =~= initial_black());
        assert(all_on_board(initial_white()));
        assert(all_on_board(initial_black()));
        assert(positions_distinct(initial_white()));
        assert(positions_distinct(initial_black()));
        assert(no_overlap(initial_white(), initial_black()));
        assert(ids_unique(initial_white()));
        assert(ids_unique(initial_black()));
    }
    Board { white, black }
}

/// The simple move stepping `pc` one square along (`dcp`, `dlp`).
pub open spec fn simple_move_to(pc: CheckerPiece, dcp: bool, dlp: bool) -> AllowableMove {
    AllowableMove {
        checker_id: pc.id,
        next_position: pos_shift(pc.position, dstep(dcp), dstep(dlp)),
        captured_piece_position: None,
    }
}

/// A piece away from every edge whose four diagonal neighbor squares
/// are all free, on a board where its color has no capture anywhere,
/// has exactly the diagonal steps its movement capability allows as
/// legal moves: both forward steps for a man, all four steps for a
/// king.
pub proof fn lemma_free_piece_moves(b: Board, c: PieceColor, i: int)
    requires
        b.wf(),
        !has_capture(b, c),
        0 <= i < b.spec_pieces(c).len(),
        2 <= b.spec_pieces(c)[i].position.column <= 7,
        2 <= b.spec_pieces(c)[i].position.line <= 7,
        forall|dcp: bool, dlp: bool|
            !b.spec_occupied(
                #[trigger] pos_shift(b.spec_pieces(c)[i].position, dstep(dcp), dstep(dlp)),
            ),
    ensures
        forall|m: AllowableMove|
            m.checker_id == b.spec_pieces(c)[i].id ==> (is_legal_move(b, c, m) <==> exists|
                dcp: bool,
                dlp: bool,
            |
                dir_allowed(b.spec_pieces(c)[i], c, dlp) && m == #[trigger] simple_move_to(
                    b.spec_pieces(c)[i],
                    dcp,
                    dlp,
                )),
{
    let pc = b.spec_pieces(c)[i];
    assert forall|m: AllowableMove| m.checker_id == pc.id implies (is_legal_move(b, c, m) <==> exists|
        dcp: bool,
        dlp: bool,
    | dir_allowed(pc, c, dlp) && m == #[trigger] simple_move_to(pc, dcp, dlp)) by {
        if exists|dcp: bool, dlp: bool| dir_allowed(pc, c, dlp) && m == #[trigger] simple_move_to(
            pc,
            dcp,
            dlp,
        ) {
            let (dcp, dlp) = choose|dcp: bool, dlp: bool|
                dir_allowed(pc, c, dlp) && m == #[trigger] simple_move_to(pc, dcp, dlp);
            assert(pos_on_board(pos_shift(pc.position, dstep(dcp), dstep(dlp))));
            assert(spec_simple_from(b, c, pc, dcp, dlp) == Some(m));
            assert(is_simple_move(b, c, m));
        }
        if is_legal_move(b, c, m) {
            assert(is_simple_move(b, c, m));
            let (i2, dcp, dlp) = choose|i2: int, dcp: bool, dlp: bool|
                0 <= i2 < b.spec_pieces(c).len() && dir_allowed(b.spec_pieces(c)[i2], c, dlp)
                    && #[trigger] spec_simple_from(b, c, b.spec_pieces(c)[i2], dcp, dlp) == Some(
                    m,
                );
            assert(b.spec_pieces(c)[i2].id == m.checker_id);
            if i2 != i {
                assert(b.spec_pieces(c)[i2].id != b.spec_pieces(c)[i].id);
                assert(false);
            }
            assert(m == simple_move_to(pc, dcp, dlp));
        }
    }
}

} // verus!
