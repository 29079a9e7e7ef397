//! The board client: the state one player keeps for a running game.
//! A first click selects one of the player's pieces and computes the
//! moves that piece may make (captures anywhere on the board for the
//! color suppress its simple moves); a second click performs a listed
//! move, reports it to the peer as a `GameData` payload, and decides
//! whether the same piece must continue capturing. Relayed peer moves
//! are replayed square by square.

use vstd::prelude::*;

use crate::board::{
    find_position, lemma_find_pos_props, pos_on_board, AllowableMove, Board, CheckerPosition,
    GameData, PieceColor,
};
use crate::engine::{
    apply_move_at, capturing_moves, initial_black, initial_board, initial_white, is_capture_move,
    is_legal_move, is_simple_move, simple_moves, spec_apply_at,
};
use crate::game::{has_capture_for_piece, piece_has_capture};
use crate::protocol::{AuthorizedUserResponse, ChatAction, GameAction, WsRequest};

verus! {

/// How a finished game ended for this client.
#[derive(Clone, Copy, PartialEq, Eq, Structural, Debug)]
pub enum GameResult {
    Win,
    Lose,
}

/// One player's game state.
pub struct GameClient {
    pub piece_color: Option<PieceColor>,
    pub board: Board,
    pub piece_move: Option<CheckerPosition>,
    pub allowable_moves: Option<Vec<AllowableMove>>,
    pub is_steps_order_defined: bool,
    pub is_my_step: bool,
    pub game_result: Option<GameResult>,
}

/// The moves of `ms` made by the piece bearing `id`, in order.
pub open spec fn moves_for_piece(ms: Seq<AllowableMove>, id: u8) -> Seq<AllowableMove>
    decreases ms.len(),
{
    if ms.len() == 0 {
        Seq::empty()
    } else {
        let rest = moves_for_piece(ms.drop_last(), id);
        if ms.last().checker_id == id {
            rest.push(ms.last())
        } else {
            rest
        }
    }
}

proof fn lemma_moves_for_piece(ms: Seq<AllowableMove>, id: u8)
    ensures
        forall|k: int|
            0 <= k < moves_for_piece(ms, id).len() ==> (#[trigger] moves_for_piece(ms, id)[k]).checker_id
                == id && ms.contains(moves_for_piece(ms, id)[k]),
        forall|m: AllowableMove| ms.contains(m) && m.checker_id == id ==> moves_for_piece(ms, id).contains(m),
    decreases ms.len(),
{
    if ms.len() > 0 {
        let rest = moves_for_piece(ms.drop_last(), id);
        lemma_moves_for_piece(ms.drop_last(), id);
        let cur = moves_for_piece(ms, id);
        assert forall|k: int|
            0 <= k < cur.len() implies (#[trigger] cur[k]).checker_id == id && ms.contains(
            cur[k],
        ) by {
            if k < rest.len() {
                assert(cur[k] == rest[k]);
                let j = choose|j: int|
                    0 <= j < ms.drop_last().len() && ms.drop_last()[j] == rest[k];
                assert(ms[j] == rest[k]);
            } else {
                assert(cur[k] == ms.last());
                assert(ms[ms.len() - 1] == ms.last());
            }
        }
        assert forall|m: AllowableMove|
            ms.contains(m) && m.checker_id == id implies cur.contains(m) by {
            let j = choose|j: int| 0 <= j < ms.len() && ms[j] == m;
            if j == ms.len() - 1 {
                assert(cur[cur.len() - 1] == m);
            } else {
                assert(ms.drop_last()[j] == m);
                assert(ms.drop_last().contains(m));
                let k = choose|k: int| 0 <= k < rest.len() && rest[k] == m;
                assert(cur[k] == m);
            }
        }
    }
}

/// Keeps the moves made by the piece bearing `id`.
fn filter_moves(moves: &Vec<AllowableMove>, id: u8) -> (r: Vec<AllowableMove>)
    ensures
        r@ == moves_for_piece(moves@, id),
{
    let n = moves.len();
    let mut out: Vec<AllowableMove> = Vec::new();
    let mut i: usize = 0;
    while i < n
        invariant
            0 <= i <= n,
            n == moves@.len(),
            out@ == moves_for_piece(moves@.take(i as int), id),
        decreases n - i,
    {
        if moves[i].checker_id == id {
            out.push(moves[i]);
        }
        proof {
            assert(moves@.take(i + 1).drop_last() =~= moves@.take(i as int));
            assert(moves@.take(i + 1).last() == moves@[i as int]);
            assert(out@ =~= moves_for_piece(moves@.take(i + 1), id));
        }
        i = i + 1;
    }
    proof {
        assert(moves@.take(n as int) =~= moves@);
    }
    out
}

/// Index of the first listed move landing on `dst`, or -1.
pub open spec fn find_move_to_from(ms: Seq<AllowableMove>, dst: CheckerPosition, i: int) -> int
    decreases ms.len() - i,
    when 0 <= i <= ms.len()
{
    if i >= ms.len() {
        -1
    } else if ms[i].next_position == dst {
        i
    } else {
        find_move_to_from(ms, dst, i + 1)
    }
}

pub open spec fn find_move_to(ms: Seq<AllowableMove>, dst: CheckerPosition) -> int {
    find_move_to_from(ms, dst, 0)
}

proof fn lemma_find_move_to_skip(ms: Seq<AllowableMove>, dst: CheckerPosition, i: int)
    requires
        0 <= i <= ms.len(),
        forall|j: int| 0 <= j < i ==> (#[trigger] ms[j]).next_position != dst,
    ensures
        find_move_to(ms, dst) == find_move_to_from(ms, dst, i),
    decreases i,
{
    if i > 0 {
        lemma_find_move_to_skip(ms, dst, i - 1);
    }
}

proof fn lemma_find_move_to_props(ms: Seq<AllowableMove>, dst: CheckerPosition)
    ensures
        find_move_to(ms, dst) >= 0 ==> find_move_to(ms, dst) < ms.len() && ms[find_move_to(
            ms,
            dst,
        )].next_position == dst,
{
    lemma_find_move_to_props_from(ms, dst, 0);
}

proof fn lemma_find_move_to_props_from(ms: Seq<AllowableMove>, dst: CheckerPosition, i: int)
    requires
        0 <= i <= ms.len(),
    ensures
        find_move_to_from(ms, dst, i) >= 0 ==> i <= find_move_to_from(ms, dst, i) < ms.len()
            && ms[find_move_to_from(ms, dst, i)].next_position == dst,
    decreases ms.len() - i,
{
    if i < ms.len() && ms[i].next_position != dst {
        lemma_find_move_to_props_from(ms, dst, i + 1);
    }
}

fn find_move_index(moves: &Vec<AllowableMove>, dst: &CheckerPosition) -> (r: Option<usize>)
    ensures
        r is Some <==> find_move_to(moves@, *dst) >= 0,
        r is Some ==> r->Some_0 as int == find_move_to(moves@, *dst),
{
    let n = moves.len();
    let mut i: usize = 0;
    while i < n
        invariant
            0 <= i <= n,
            n == moves@.len(),
            forall|j: int| 0 <= j < i ==> (#[trigger] moves@[j]).next_position != *dst,
        decreases n - i,
    {
        if moves[i].next_position == *dst {
            proof {
                lemma_find_move_to_skip(moves@, *dst, i as int);
            }
            return Some(i);
        }
        i = i + 1;
    }
    proof {
        lemma_find_move_to_skip(moves@, *dst, n as int);
    }
    None
}

/// Every listed move is a capturing move.
pub open spec fn all_captures(ms: Seq<AllowableMove>) -> bool {
    forall|j: int| 0 <= j < ms.len() ==> (#[trigger] ms[j]).captured_piece_position is Some
}

fn check_all_captures(moves: &Vec<AllowableMove>) -> (r: bool)
    ensures
        r == all_captures(moves@),
{
    let n = moves.len();
    let mut i: usize = 0;
    while i < n
        invariant
            0 <= i <= n,
            n == moves@.len(),
            forall|j: int| 0 <= j < i ==> (#[trigger] moves@[j]).captured_piece_position is Some,
        decreases n - i,
    {
        if moves[i].captured_piece_position.is_none() {
            return false;
        }
        i = i + 1;
    }
    true
}

/// `av` is exactly the set of legal moves of the piece bearing `id`:
/// the filtered form of the mandatory-capture move list.
pub open spec fn piece_legal_set(av: Seq<AllowableMove>, b: Board, c: PieceColor, id: u8) -> bool {
    &&& forall|k: int|
        0 <= k < av.len() ==> is_legal_move(b, c, #[trigger] av[k]) && av[k].checker_id == id
    &&& forall|m: AllowableMove| is_legal_move(b, c, m) && m.checker_id == id ==> av.contains(m)
}

/// Field groups that most transitions leave alone.
pub open spec fn same_board(pre: GameClient, post: GameClient) -> bool {
    post.board.white@ == pre.board.white@ && post.board.black@ == pre.board.black@
}

pub open spec fn click_unchanged(pre: GameClient, post: GameClient) -> bool {
    &&& post.piece_color == pre.piece_color
    &&& same_board(pre, post)
    &&& post.piece_move == pre.piece_move
    &&& post.allowable_moves == pre.allowable_moves
    &&& post.is_steps_order_defined == pre.is_steps_order_defined
    &&& post.is_my_step == pre.is_my_step
    &&& post.game_result == pre.game_result
}

impl GameClient {
    pub open spec fn wf(self) -> bool {
        self.board.wf()
    }

    /// A fresh client for a player who was dealt `piece_color` (or is
    /// not in a game yet), on the starting board.
    pub fn new(piece_color: Option<PieceColor>) -> (r: GameClient)
        ensures
            r.wf(),
            r.piece_color == piece_color,
            r.board.white@ == initial_white(),
            r.board.black@ == initial_black(),
            r.piece_move is None,
            r.allowable_moves is None,
            !r.is_steps_order_defined,
            !r.is_my_step,
            r.game_result is None,
    {
        GameClient {
            piece_color,
            board: initial_board(),
            piece_move: None,
            allowable_moves: None,
            is_steps_order_defined: false,
            is_my_step: false,
            game_result: None,
        }
    }

    /// Fixes the turn order once a color is known: White begins.
    pub fn define_step_order(&mut self)
        ensures
            final(self).piece_color == old(self).piece_color,
            same_board(*old(self), *final(self)),
            final(self).piece_move == old(self).piece_move,
            final(self).allowable_moves == old(self).allowable_moves,
            final(self).game_result == old(self).game_result,
            if old(self).piece_color is Some && !old(self).is_steps_order_defined {
                final(self).is_steps_order_defined && final(self).is_my_step == (
                old(self).is_my_step || old(self).piece_color == Some(PieceColor::White))
            } else {
                final(self).is_steps_order_defined == old(self).is_steps_order_defined && final(self).is_my_step == old(self).is_my_step
            },
    {
        match self.piece_color {
            Some(color) => {
                if !self.is_steps_order_defined {
                    match color {
                        PieceColor::White => {
                            self.is_my_step = true;
                        },
                        PieceColor::Black => {},
                    }
                    self.is_steps_order_defined = true;
                }
            },
            None => {},
        }
    }

    /// Handles one click on square (`column`, `line`), exactly as
    /// `click_transition` describes: select a piece, deselect it, or
    /// perform one of its listed moves and report it to the peer.
    pub fn move_checker_piece(&mut self, column: u8, line: u8) -> (r: Option<GameData>)
        requires
            old(self).wf(),
        ensures
            final(self).wf(),
            click_transition(*old(self), *final(self), column, line, r),
    {
        let clicked = CheckerPosition { column, line };
        if self.game_result.is_some() || !self.is_my_step || self.piece_color.is_none() {
            return None;
        }
        let c = match self.piece_color {
            Some(cc) => cc,
            None => {
                return None;
            },
        };
        match self.piece_move {
            Some(sel) => {
                if sel == clicked {
                    self.piece_move = None;
                    return None;
                }
                let mv_opt: Option<AllowableMove> = match &self.allowable_moves {
                    Some(av) => {
                        match find_move_index(av, &clicked) {
                            Some(k) => {
                                proof {
                                    lemma_find_move_to_props(av@, clicked);
                                }
                                Some(av[k])
                            },
                            None => None,
                        }
                    },
                    None => None,
                };
                match mv_opt {
                    None => None,
                    Some(mv) => {
                        match apply_move_at(
                            &self.board,
                            c,
                            &sel,
                            &clicked,
                            &mv.captured_piece_position,
                        ) {
                            None => None,
                            Some(b2) => {
                                let ac = match &self.allowable_moves {
                                    Some(av) => check_all_captures(av),
                                    None => false,
                                };
                                let cont = ac && has_capture_for_piece(&b2, c, mv.checker_id);
                                let opp_empty = b2.pieces(c.opposite()).len() == 0;
                                self.board = b2;
                                self.piece_move = None;
                                self.is_my_step = cont;
                                if opp_empty {
                                    self.game_result = Some(GameResult::Win);
                                }
                                Some(
                                    GameData {
                                        opponent_piece_color: c,
                                        piece_previous_position: sel,
                                        piece_new_position: clicked,
                                        captured_piece_position: mv.captured_piece_position,
                                        is_opponent_step: cont,
                                    },
                                )
                            },
                        }
                    },
                }
            },
            None => {
                let pidx_opt = find_position(self.board.pieces(c), &clicked);
                proof {
                    lemma_find_pos_props(self.board.spec_pieces(c), clicked);
                }
                match pidx_opt {
                    None => None,
                    Some(pidx) => {
                        let id = self.board.pieces(c)[pidx].id;
                        let caps = capturing_moves(&self.board, c);
                        if caps.len() > 0 {
                            let filtered = filter_moves(&caps, id);
                            proof {
                                lemma_moves_for_piece(caps@, id);
                            }
                            if filtered.len() > 0 {
                                proof {
                                    assert forall|k: int|
                                        0 <= k < filtered@.len() implies is_legal_move(
                                        self.board,
                                        c,
                                        #[trigger] filtered@[k],
                                    ) && filtered@[k].checker_id == id by {
                                        let j = choose|j: int|
                                            0 <= j < caps@.len() && caps@[j] == filtered@[k];
                                        assert(is_capture_move(self.board, c, caps@[j]));
                                    }
                                    assert(is_legal_move(self.board, c, filtered@[0]));
                                }
                                self.allowable_moves = Some(filtered);
                                self.piece_move = Some(clicked);
                            } else {
                                proof {
                                    if exists|m: AllowableMove|
                                        #[trigger] is_legal_move(self.board, c, m)
                                            && m.checker_id == id {
                                        let m = choose|m: AllowableMove|
                                            #[trigger] is_legal_move(self.board, c, m)
                                                && m.checker_id == id;
                                        assert(caps@.contains(m));
                                        assert(filtered@.contains(m));
                                        assert(false);
                                    }
                                }
                            }
                            None
                        } else {
                            let simples = simple_moves(&self.board, c);
                            let filtered = filter_moves(&simples, id);
                            proof {
                                lemma_moves_for_piece(simples@, id);
                            }
                            if filtered.len() > 0 {
                                proof {
                                    assert forall|k: int|
                                        0 <= k < filtered@.len() implies is_legal_move(
                                        self.board,
                                        c,
                                        #[trigger] filtered@[k],
                                    ) && filtered@[k].checker_id == id by {
                                        let j = choose|j: int|
                                            0 <= j < simples@.len() && simples@[j] == filtered@[k];
                                        assert(is_simple_move(self.board, c, simples@[j]));
                                    }
                                    assert(is_legal_move(self.board, c, filtered@[0]));
                                }
                                self.allowable_moves = Some(filtered);
                                self.piece_move = Some(clicked);
                            } else {
                                proof {
                                    if exists|m: AllowableMove|
                                        #[trigger] is_legal_move(self.board, c, m)
                                            && m.checker_id == id {
                                        let m = choose|m: AllowableMove|
                                            #[trigger] is_legal_move(self.board, c, m)
                                                && m.checker_id == id;
                                        assert(simples@.contains(m));
                                        assert(filtered@.contains(m));
                                        assert(false);
                                    }
                                }
                            }
                            None
                        }
                    },
                }
            },
        }
    }

    /// Replays a move the peer relayed. The turn flag always follows
    /// the payload; a payload whose destination square is off-board or
    /// occupied leaves the board untouched. Losing the last piece ends
    /// the game as a loss.
    pub fn receive_move(&mut self, gd: &GameData)
        requires
            old(self).wf(),
        ensures
            final(self).wf(),
            final(self).piece_color == old(self).piece_color,
            final(self).piece_move == old(self).piece_move,
            final(self).allowable_moves == old(self).allowable_moves,
            final(self).is_steps_order_defined == old(self).is_steps_order_defined,
            final(self).is_my_step == !gd.is_opponent_step,
            ({
                let c = gd.opponent_piece_color;
                if pos_on_board(gd.piece_new_position) && !old(self).board.spec_occupied(
                    gd.piece_new_position,
                ) {
                    &&& (final(self).board.white@, final(self).board.black@) == spec_apply_at(
                        old(self).board.white@,
                        old(self).board.black@,
                        c,
                        gd.piece_previous_position,
                        gd.piece_new_position,
                        gd.captured_piece_position,
                    )
                    &&& final(self).game_result == (if final(self).board.spec_pieces(
                        c.spec_opposite(),
                    ).len() == 0 {
                        Some(GameResult::Lose)
                    } else {
                        old(self).game_result
                    })
                } else {
                    same_board(*old(self), *final(self)) && final(self).game_result == old(
                        self,
                    ).game_result
                }
            }),
    {
        self.is_my_step = !gd.is_opponent_step;
        let c = gd.opponent_piece_color;
        match apply_move_at(
            &self.board,
            c,
            &gd.piece_previous_position,
            &gd.piece_new_position,
            &gd.captured_piece_position,
        ) {
            Some(b2) => {
                let lose = b2.pieces(c.opposite()).len() == 0;
                self.board = b2;
                if lose {
                    self.game_result = Some(GameResult::Lose);
                }
            },
            None => {},
        }
    }

    /// The peer left the game: this client wins, unless the game had
    /// already ended.
    pub fn receive_leave(&mut self)
        ensures
            final(self).piece_color == old(self).piece_color,
            same_board(*old(self), *final(self)),
            final(self).piece_move == old(self).piece_move,
            final(self).allowable_moves == old(self).allowable_moves,
            final(self).is_steps_order_defined == old(self).is_steps_order_defined,
            final(self).is_my_step == old(self).is_my_step,
            final(self).game_result == (if old(self).game_result is None {
                Some(GameResult::Win)
            } else {
                old(self).game_result
            }),
    {
        if self.game_result.is_none() {
            self.game_result = Some(GameResult::Win);
        }
    }

    /// Leaves the game: resets the whole client state and produces the
    /// requests to send — the leave notice, and, for a signed-in user,
    /// a refresh of the online-user list.
    pub fn leave_game(&mut self, user: &Option<AuthorizedUserResponse>) -> (r: Vec<WsRequest>)
        ensures
            final(self).wf(),
            final(self).piece_color is None,
            final(self).board.white@ == initial_white(),
            final(self).board.black@ == initial_black(),
            final(self).piece_move is None,
            final(self).allowable_moves is None,
            !final(self).is_steps_order_defined,
            !final(self).is_my_step,
            final(self).game_result is None,
            r@.len() == (if *user is Some {
                2int
            } else {
                1int
            }),
            r@[0].action@ == GameAction::SendLeaveGameMessage.spec_str(),
            r@[0].data@ == crate::protocol::spec_game_name(),
            *user is Some ==> r@[1].action@ == ChatAction::RequestOnlineUsers.spec_str()
                && r@[1].data@ == user->Some_0.user_name@,
    {
        *self = GameClient::new(None);
        let mut out: Vec<WsRequest> = Vec::new();
        out.push(
            WsRequest {
                action: GameAction::SendLeaveGameMessage.as_str(),
                data: crate::protocol::game_name(),
            },
        );
        match user {
            Some(u) => {
                out.push(
                    WsRequest {
                        action: ChatAction::RequestOnlineUsers.as_str(),
                        data: u.user_name.clone(),
                    },
                );
            },
            None => {},
        }
        out
    }
}

/// The full click transition of `move_checker_piece`, case by case.
pub open spec fn click_transition(
    pre: GameClient,
    post: GameClient,
    column: u8,
    line: u8,
    out: Option<GameData>,
) -> bool {
    let clicked = CheckerPosition { column, line };
    if pre.game_result is Some || !pre.is_my_step || pre.piece_color is None {
        click_unchanged(pre, post) && out is None
    } else {
        let c = pre.piece_color->Some_0;
        match pre.piece_move {
            Some(sel) => {
                if sel == clicked {
                    &&& post.piece_color == pre.piece_color
                    &&& same_board(pre, post)
                    &&& post.piece_move is None
                    &&& post.allowable_moves == pre.allowable_moves
                    &&& post.is_steps_order_defined == pre.is_steps_order_defined
                    &&& post.is_my_step == pre.is_my_step
                    &&& post.game_result == pre.game_result
                    &&& out is None
                } else if pre.allowable_moves is Some && find_move_to(
                    pre.allowable_moves->Some_0@,
                    clicked,
                ) >= 0 {
                    let av = pre.allowable_moves->Some_0@;
                    let mv = av[find_move_to(av, clicked)];
                    if pos_on_board(clicked) && !pre.board.spec_occupied(clicked) {
                        &&& (post.board.white@, post.board.black@) == spec_apply_at(
                            pre.board.white@,
                            pre.board.black@,
                            c,
                            sel,
                            clicked,
                            mv.captured_piece_position,
                        )
                        &&& post.piece_color == pre.piece_color
                        &&& post.piece_move is None
                        &&& post.allowable_moves == pre.allowable_moves
                        &&& post.is_steps_order_defined == pre.is_steps_order_defined
                        &&& post.is_my_step == (all_captures(av) && piece_has_capture(
                            post.board,
                            c,
                            mv.checker_id,
                        ))
                        &&& post.game_result == (if post.board.spec_pieces(
                            c.spec_opposite(),
                        ).len() == 0 {
                            Some(GameResult::Win)
                        } else {
                            pre.game_result
                        })
                        &&& out == Some(
                            GameData {
                                opponent_piece_color: c,
                                piece_previous_position: sel,
                                piece_new_position: clicked,
                                captured_piece_position: mv.captured_piece_position,
                                is_opponent_step: post.is_my_step,
                            },
                        )
                    } else {
                        click_unchanged(pre, post) && out is None
                    }
                } else {
                    click_unchanged(pre, post) && out is None
                }
            },
            None => {
                let own = pre.board.spec_pieces(c);
                let pidx = crate::board::find_pos(own, clicked);
                if pidx >= 0 && (exists|m: AllowableMove|
                    #[trigger] is_legal_move(pre.board, c, m) && m.checker_id == own[pidx].id) {
                    &&& post.piece_color == pre.piece_color
                    &&& same_board(pre, post)
                    &&& post.piece_move == Some(clicked)
                    &&& post.allowable_moves is Some
                    &&& piece_legal_set(post.allowable_moves->Some_0@, pre.board, c, own[pidx].id)
                    &&& post.is_steps_order_defined == pre.is_steps_order_defined
                    &&& post.is_my_step == pre.is_my_step
                    &&& post.game_result == pre.game_result
                    &&& out is None
                } else {
                    click_unchanged(pre, post) && out is None
                }
            },
        }
    }
}

} // verus!
