//! Client-side behavior: the game state machine, the board client's
//! click handling, and the chat client's invitation lifecycle.

use checkers_core::board::{AllowableMove, Board, CheckerPiece, CheckerPosition, GameData, PieceColor};
use checkers_core::chat_client::{ChatClient, ChatEffect};
use checkers_core::client::{GameClient, GameResult};
use checkers_core::game::{Game, GameStatus, MoveError};
use checkers_core::protocol::{AuthorizedUserResponse, ChatMessageResponse, WsResponse};

fn man(id: u8, column: u8, line: u8) -> CheckerPiece {
    CheckerPiece { id, is_crowned: false, position: CheckerPosition { column, line } }
}

fn pos(column: u8, line: u8) -> CheckerPosition {
    CheckerPosition { column, line }
}

fn user(name: &str) -> AuthorizedUserResponse {
    AuthorizedUserResponse {
        user_name: name.to_string(),
        email: format!("{}@example.org", name),
        is_superuser: false,
    }
}

#[test]
fn game_white_moves_first_and_turn_passes() {
    let mut g = Game::new();
    assert_eq!(g.status, GameStatus::AwaitingFirstMove);
    assert_eq!(g.turn(), Some(PieceColor::White));
    let mv = AllowableMove { checker_id: 2, next_position: pos(2, 4), captured_piece_position: None };
    assert_eq!(g.make_move(&mv), Ok(()));
    assert_eq!(g.status, GameStatus::ActiveTurn(PieceColor::Black));
}

#[test]
fn game_rejects_illegal_move() {
    let mut g = Game::new();
    let mv = AllowableMove { checker_id: 1, next_position: pos(4, 4), captured_piece_position: None };
    assert_eq!(g.make_move(&mv), Err(MoveError::NotLegal));
    assert_eq!(g.status, GameStatus::AwaitingFirstMove);
}

#[test]
fn game_last_capture_wins_and_ends_the_game() {
    // Removing Black's last piece yields a terminal win, and the game
    // accepts no further moves.
    let mut g = Game::new();
    g.board = Board { white: vec![man(1, 3, 3)], black: vec![man(1, 4, 4)] };
    g.status = GameStatus::ActiveTurn(PieceColor::White);
    let mv = AllowableMove {
        checker_id: 1,
        next_position: pos(5, 5),
        captured_piece_position: Some(pos(4, 4)),
    };
    assert_eq!(g.make_move(&mv), Ok(()));
    assert_eq!(g.status, GameStatus::TerminalWin(PieceColor::White));
    let next = AllowableMove { checker_id: 1, next_position: pos(6, 6), captured_piece_position: None };
    assert_eq!(g.make_move(&next), Err(MoveError::GameOver));
    assert_eq!(g.status, GameStatus::TerminalWin(PieceColor::White));
}

#[test]
fn game_capture_continuation_keeps_the_turn() {
    // After jumping to (5,5), the same piece can jump again over (6,6):
    // the turn stays with White.
    let mut g = Game::new();
    g.board = Board {
        white: vec![man(1, 3, 3)],
        black: vec![man(1, 4, 4), man(2, 6, 6)],
    };
    g.status = GameStatus::ActiveTurn(PieceColor::White);
    let mv = AllowableMove {
        checker_id: 1,
        next_position: pos(5, 5),
        captured_piece_position: Some(pos(4, 4)),
    };
    assert_eq!(g.make_move(&mv), Ok(()));
    assert_eq!(g.status, GameStatus::ActiveTurn(PieceColor::White));
    let mv2 = AllowableMove {
        checker_id: 1,
        next_position: pos(7, 7),
        captured_piece_position: Some(pos(6, 6)),
    };
    assert_eq!(g.make_move(&mv2), Ok(()));
    assert_eq!(g.status, GameStatus::TerminalWin(PieceColor::White));
}

#[test]
fn board_client_select_and_move() {
    let mut gc = GameClient::new(Some(PieceColor::White));
    gc.define_step_order();
    assert!(gc.is_my_step);
    // Select the man on (1,3); it has one forward move, to (2,4).
    assert_eq!(gc.move_checker_piece(1, 3), None);
    assert_eq!(gc.piece_move, Some(pos(1, 3)));
    let gd = gc.move_checker_piece(2, 4).expect("the move should go through");
    assert_eq!(
        gd,
        GameData {
            opponent_piece_color: PieceColor::White,
            piece_previous_position: pos(1, 3),
            piece_new_position: pos(2, 4),
            captured_piece_position: None,
            is_opponent_step: false,
        }
    );
    assert!(!gc.is_my_step);
    assert_eq!(gc.piece_move, None);
    assert!(gc.board.white.iter().any(|p| p.id == 2 && p.position == pos(2, 4)));
}

#[test]
fn board_client_clicking_selected_piece_deselects() {
    let mut gc = GameClient::new(Some(PieceColor::White));
    gc.define_step_order();
    gc.move_checker_piece(1, 3);
    assert_eq!(gc.piece_move, Some(pos(1, 3)));
    assert_eq!(gc.move_checker_piece(1, 3), None);
    assert_eq!(gc.piece_move, None);
}

#[test]
fn board_client_ignores_clicks_when_not_its_turn() {
    let mut gc = GameClient::new(Some(PieceColor::Black));
    gc.define_step_order();
    assert!(!gc.is_my_step);
    assert_eq!(gc.move_checker_piece(1, 7), None);
    assert_eq!(gc.piece_move, None);
}

#[test]
fn board_client_capture_ends_game_with_win() {
    let mut gc = GameClient::new(Some(PieceColor::White));
    gc.define_step_order();
    gc.board = Board { white: vec![man(1, 3, 3)], black: vec![man(1, 4, 4)] };
    assert_eq!(gc.move_checker_piece(3, 3), None);
    let gd = gc.move_checker_piece(5, 5).expect("the capture should go through");
    assert_eq!(gd.captured_piece_position, Some(pos(4, 4)));
    assert!(gc.board.black.is_empty());
    assert_eq!(gc.game_result, Some(GameResult::Win));
}

#[test]
fn board_client_replays_peer_move_and_detects_loss() {
    let mut gc = GameClient::new(Some(PieceColor::White));
    gc.define_step_order();
    gc.board = Board { white: vec![man(1, 4, 4)], black: vec![man(1, 5, 5)] };
    gc.receive_move(&GameData {
        opponent_piece_color: PieceColor::Black,
        piece_previous_position: pos(5, 5),
        piece_new_position: pos(3, 3),
        captured_piece_position: Some(pos(4, 4)),
        is_opponent_step: false,
    });
    assert!(gc.is_my_step);
    assert!(gc.board.white.is_empty());
    assert_eq!(gc.board.black[0].position, pos(3, 3));
    assert_eq!(gc.game_result, Some(GameResult::Lose));
}

#[test]
fn board_client_peer_man_promotes_on_replay() {
    let mut gc = GameClient::new(Some(PieceColor::White));
    gc.board = Board { white: vec![man(1, 8, 8)], black: vec![man(1, 2, 2)] };
    gc.receive_move(&GameData {
        opponent_piece_color: PieceColor::Black,
        piece_previous_position: pos(2, 2),
        piece_new_position: pos(1, 1),
        captured_piece_position: None,
        is_opponent_step: false,
    });
    assert!(gc.board.black[0].is_crowned);
}

#[test]
fn board_client_peer_leaving_wins_the_game() {
    let mut gc = GameClient::new(Some(PieceColor::White));
    gc.receive_leave();
    assert_eq!(gc.game_result, Some(GameResult::Win));
}

#[test]
fn board_client_leave_game_resets_and_reports() {
    let mut gc = GameClient::new(Some(PieceColor::White));
    gc.define_step_order();
    gc.move_checker_piece(1, 3);
    let requests = gc.leave_game(&Some(user("alice")));
    assert_eq!(gc.piece_color, None);
    assert_eq!(gc.piece_move, None);
    assert_eq!(gc.board.white.len(), 12);
    assert_eq!(requests.len(), 2);
    assert_eq!(requests[0].action, "send_leave_game_message");
    assert_eq!(requests[0].data, "checkers_game");
    assert_eq!(requests[1].action, "request_online_users");
    assert_eq!(requests[1].data, "alice");
}

#[test]
fn chat_client_send_message_formats_own_line() {
    let mut cc = ChatClient::new();
    cc.update_edit_message("hello".to_string());
    let effects = cc.send_chat_message();
    assert_eq!(effects.len(), 1);
    match &effects[0] {
        ChatEffect::Send { request } => {
            assert_eq!(request.action, "send_message");
            assert_eq!(request.data, "hello");
        },
        _ => panic!("expected a send"),
    }
    assert_eq!(cc.chat_messages.len(), 1);
    assert_eq!(cc.chat_messages[0].0, "you: hello");
    assert!(cc.message.is_none());
}

#[test]
fn chat_client_empty_message_sends_nothing() {
    let mut cc = ChatClient::new();
    cc.update_edit_message("".to_string());
    assert!(cc.send_chat_message().is_empty());
    assert!(cc.chat_messages.is_empty());
}

#[test]
fn chat_client_marks_own_lines_in_fetched_log() {
    let mut cc = ChatClient::new();
    let me = Some(user("alice"));
    let log = vec![
        ChatMessageResponse { user_name: "alice".to_string(), message: "hi".to_string() },
        ChatMessageResponse { user_name: "bob".to_string(), message: "hey".to_string() },
    ];
    cc.put_messages_into_chat(&me, &log);
    assert_eq!(cc.chat_messages.len(), 2);
    assert_eq!(cc.chat_messages[0].0, "you: hi");
    assert_eq!(cc.chat_messages[1].0, "bob: hey");
}

#[test]
fn chat_client_invitation_starts_timer_and_decline_cancels_it() {
    let mut cc = ChatClient::new();
    let inv = WsResponse { action: "invitation".to_string(), data: "bob".to_string() };
    let effects = cc.handle_response(&None, &inv);
    assert_eq!(effects.len(), 1);
    match &effects[0] {
        ChatEffect::StartDeclineTimer { from_user } => assert_eq!(from_user, "bob"),
        _ => panic!("expected a timer start"),
    }
    assert_eq!(cc.received_invitations.len(), 1);
    // The user declines: the decline goes out and the pending state clears.
    let effects = cc.decline_invitation(&"bob".to_string());
    assert_eq!(effects.len(), 1);
    match &effects[0] {
        ChatEffect::Send { request } => {
            assert_eq!(request.action, "decline_invitation");
            assert_eq!(request.data, "bob");
        },
        _ => panic!("expected a send"),
    }
    // The timer fires late: nothing further goes out.
    let effects = cc.decline_invitation(&"bob".to_string());
    assert!(effects.is_empty());
}

#[test]
fn chat_client_accept_declines_others_and_joins_room() {
    let mut cc = ChatClient::new();
    let inv_bob = WsResponse { action: "invitation".to_string(), data: "bob".to_string() };
    let inv_carol = WsResponse { action: "invitation".to_string(), data: "carol".to_string() };
    cc.handle_response(&None, &inv_bob);
    cc.handle_response(&None, &inv_carol);
    let me = Some(user("alice"));
    let effects = cc.accept_invitation(&me, &"bob".to_string());
    assert_eq!(effects.len(), 3);
    match &effects[0] {
        ChatEffect::Send { request } => {
            assert_eq!(request.action, "decline_invitation");
            assert_eq!(request.data, "carol");
        },
        _ => panic!("expected a decline"),
    }
    match &effects[1] {
        ChatEffect::Send { request } => {
            assert_eq!(request.action, "accept_invitation");
            assert_eq!(request.data, "bob");
        },
        _ => panic!("expected the acceptance"),
    }
    match &effects[2] {
        ChatEffect::Send { request } => {
            assert_eq!(request.action, "join_to_room");
            assert_eq!(request.data, "checkers_game_alice_bob");
        },
        _ => panic!("expected the room join"),
    }
    assert!(cc.received_invitations.is_empty());
    assert!(cc.pending_decline_timers.is_empty());
}

#[test]
fn chat_client_peer_acceptance_joins_their_room() {
    let mut cc = ChatClient::new();
    cc.send_invitation(&"bob".to_string());
    let me = Some(user("alice"));
    let accept = WsResponse { action: "accept_invitation".to_string(), data: "bob".to_string() };
    let effects = cc.handle_response(&me, &accept);
    assert_eq!(effects.len(), 1);
    match &effects[0] {
        ChatEffect::Send { request } => {
            assert_eq!(request.action, "join_to_room");
            assert_eq!(request.data, "checkers_game_bob_alice");
        },
        _ => panic!("expected the room join"),
    }
}

#[test]
fn chat_client_online_list_dedupes() {
    let mut cc = ChatClient::new();
    let seen = WsResponse { action: "response_online_users".to_string(), data: "bob".to_string() };
    cc.handle_response(&None, &seen);
    cc.handle_response(&None, &seen);
    assert_eq!(cc.online_users.len(), 1);
    assert_eq!(cc.online_users[0].0, "bob");
}

#[test]
fn chat_client_disconnect_notice_refreshes_and_prunes() {
    let mut cc = ChatClient::new();
    let inv = WsResponse { action: "invitation".to_string(), data: "bob".to_string() };
    cc.handle_response(&None, &inv);
    let gone = WsResponse { action: "disconnect".to_string(), data: "bob".to_string() };
    let effects = cc.handle_response(&None, &gone);
    assert_eq!(effects.len(), 1);
    match &effects[0] {
        ChatEffect::Send { request } => {
            assert_eq!(request.action, "request_online_users");
            assert_eq!(request.data, "");
        },
        _ => panic!("expected a refresh request"),
    }
    assert!(cc.received_invitations.is_empty());
    assert!(cc.pending_decline_timers.is_empty());
}

#[test]
fn chat_client_invitation_status_check() {
    let mut cc = ChatClient::new();
    assert!(!cc.invitation_status_check(&"bob".to_string()));
    cc.send_invitation(&"bob".to_string());
    assert!(cc.invitation_status_check(&"bob".to_string()));
    let declined = WsResponse {
        action: "decline_invitation".to_string(),
        data: "bob".to_string(),
    };
    cc.handle_response(&None, &declined);
    assert!(!cc.invitation_status_check(&"bob".to_string()));
}

#[test]
fn chat_client_enter_key_sends() {
    let mut cc = ChatClient::new();
    cc.update_edit_message("ping".to_string());
    assert!(cc.define_button(65).is_empty());
    assert_eq!(cc.chat_messages.len(), 0);
    let effects = cc.define_button(13);
    assert_eq!(effects.len(), 1);
    assert_eq!(cc.chat_messages.len(), 1);
    assert_eq!(cc.chat_messages[0].0, "you: ping");
}

#[test]
fn board_client_drops_replay_onto_occupied_square() {
    // A relayed move whose destination is already occupied cannot be
    // replayed; the board is left untouched.
    let mut gc = GameClient::new(Some(PieceColor::White));
    gc.board = Board { white: vec![man(1, 4, 4)], black: vec![man(1, 5, 5)] };
    gc.receive_move(&GameData {
        opponent_piece_color: PieceColor::Black,
        piece_previous_position: pos(5, 5),
        piece_new_position: pos(4, 4),
        captured_piece_position: None,
        is_opponent_step: false,
    });
    assert_eq!(gc.board.white.len(), 1);
    assert_eq!(gc.board.white[0].position, pos(4, 4));
    assert_eq!(gc.board.black[0].position, pos(5, 5));
    assert_eq!(gc.game_result, None);
}
