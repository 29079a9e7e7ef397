//! Relay behavior: session identifiers, room routing, presence
//! notices, name listings and invitation delivery; and the per-session
//! dispatch.

use checkers_core::protocol::{is_chat_action, is_game_action, ChatAction, GameAction};
use checkers_core::relay::{OutboundMessage, Relay};
use checkers_core::session::{
    heartbeat_tick, online_users_responses, HeartbeatAction, SessionEffect, SessionHandler,
};

fn actions_of(out: &[OutboundMessage]) -> Vec<(usize, String, String)> {
    out.iter()
        .map(|m| (m.session_id, m.response.action.clone(), m.response.data.clone()))
        .collect()
}

#[test]
fn connect_returns_fresh_ids() {
    let mut relay = Relay::new();
    let (a, _) = relay.connect();
    let (b, _) = relay.connect();
    let (c, _) = relay.connect();
    assert_ne!(a, b);
    assert_ne!(a, c);
    assert_ne!(b, c);
}

#[test]
fn connect_notifies_default_room() {
    let mut relay = Relay::new();
    let (a, out_a) = relay.connect();
    assert!(out_a.is_empty());
    let (_b, out_b) = relay.connect();
    let msgs = actions_of(&out_b);
    assert_eq!(msgs.len(), 1);
    assert_eq!(msgs[0], (a, "connect".to_string(), "Someone joined".to_string()));
}

#[test]
fn chat_message_reaches_only_other_room_members() {
    // Two sessions join room "R"; A's chat text reaches B (and only B),
    // tagged received_message.
    let mut relay = Relay::new();
    let (a, _) = relay.connect();
    let (b, _) = relay.connect();
    let (c, _) = relay.connect();
    relay.join(a, &"R".to_string());
    relay.join(b, &"R".to_string());
    let out = relay.send_chat_message(a, &"R".to_string(), &"hello there".to_string());
    let msgs = actions_of(&out);
    assert_eq!(msgs.len(), 1);
    assert_eq!(msgs[0], (b, "received_message".to_string(), "hello there".to_string()));
    assert!(msgs.iter().all(|(sid, _, _)| *sid != a && *sid != c));
}

#[test]
fn game_move_is_forwarded_opaquely() {
    let mut relay = Relay::new();
    let (a, _) = relay.connect();
    let (b, _) = relay.connect();
    relay.join(a, &"R".to_string());
    relay.join(b, &"R".to_string());
    let payload = "{\"opaque\":true}".to_string();
    let out = relay.send_game_move(b, &"R".to_string(), &payload);
    let msgs = actions_of(&out);
    assert_eq!(msgs.len(), 1);
    assert_eq!(msgs[0], (a, "received_checker_piece_move".to_string(), payload));
}

#[test]
fn disconnect_removes_name_from_listing() {
    let mut relay = Relay::new();
    let (a, _) = relay.connect();
    let (b, _) = relay.connect();
    let (c, _) = relay.connect();
    relay.set_name(a, &"alice".to_string());
    relay.set_name(b, &"bob".to_string());
    relay.set_name(c, &"carol".to_string());
    let names = relay.list_user_names(a, &"Main".to_string());
    assert_eq!(names.len(), 2);
    assert!(names.contains(&"bob".to_string()));
    assert!(names.contains(&"carol".to_string()));
    let out = relay.disconnect(b);
    assert!(actions_of(&out).iter().all(|(_, act, data)| act == "disconnect" && data == "bob"));
    let names = relay.list_user_names(a, &"Main".to_string());
    assert_eq!(names, vec!["carol".to_string()]);
    let names_for_c = relay.list_user_names(c, &"Main".to_string());
    assert_eq!(names_for_c, vec!["alice".to_string()]);
}

#[test]
fn disconnect_of_unknown_id_is_ignored() {
    let mut relay = Relay::new();
    let (a, _) = relay.connect();
    relay.set_name(a, &"alice".to_string());
    let out = relay.disconnect(a + 100);
    assert!(out.is_empty());
    let names = relay.list_user_names(0, &"Main".to_string());
    assert_eq!(names, vec!["alice".to_string()]);
}

#[test]
fn join_moves_session_between_rooms() {
    let mut relay = Relay::new();
    let (a, _) = relay.connect();
    let (b, _) = relay.connect();
    relay.set_name(a, &"alice".to_string());
    relay.set_name(b, &"bob".to_string());
    let out = relay.join(a, &"R".to_string());
    // bob, still in Main, hears that alice left it.
    let msgs = actions_of(&out);
    assert_eq!(msgs.len(), 1);
    assert_eq!(msgs[0], (b, "disconnect".to_string(), "alice".to_string()));
    assert!(relay.list_user_names(b, &"Main".to_string()).is_empty());
    let out2 = relay.join(b, &"R".to_string());
    // alice, already in R, hears that someone connected.
    let msgs2 = actions_of(&out2);
    assert_eq!(msgs2.len(), 1);
    assert_eq!(msgs2[0], (a, "connect".to_string(), "Someone connected".to_string()));
    assert_eq!(relay.list_user_names(a, &"R".to_string()), vec!["bob".to_string()]);
}

#[test]
fn invitation_goes_to_named_session() {
    let mut relay = Relay::new();
    let (a, _) = relay.connect();
    let (b, _) = relay.connect();
    let (c, _) = relay.connect();
    relay.set_name(a, &"alice".to_string());
    relay.set_name(b, &"bob".to_string());
    relay.set_name(c, &"carol".to_string());
    let out = relay.send_invitation(
        a,
        &"Main".to_string(),
        &"bob".to_string(),
        &"invitation".to_string(),
    );
    let msgs = actions_of(&out);
    assert_eq!(msgs.len(), 1);
    assert_eq!(msgs[0], (b, "invitation".to_string(), "alice".to_string()));
}

#[test]
fn invitation_from_unnamed_sender_is_dropped() {
    let mut relay = Relay::new();
    let (a, _) = relay.connect();
    let (b, _) = relay.connect();
    relay.set_name(b, &"bob".to_string());
    let out = relay.send_invitation(
        a,
        &"Main".to_string(),
        &"bob".to_string(),
        &"invitation".to_string(),
    );
    assert!(out.is_empty());
}

#[test]
fn handler_join_to_room() {
    let mut h = SessionHandler::new(7);
    let effects = h.handle_request(&"join_to_room".to_string(), &"R".to_string());
    assert_eq!(h.room, "R");
    assert_eq!(effects.len(), 2);
    match &effects[0] {
        SessionEffect::RelayJoin { id, room } => {
            assert_eq!(*id, 7);
            assert_eq!(room, "R");
        },
        _ => panic!("expected a relay join"),
    }
    match &effects[1] {
        SessionEffect::Reply { response } => {
            assert_eq!(response.action, "join_to_room");
            assert_eq!(response.data, "joined");
        },
        _ => panic!("expected a reply"),
    }
}

#[test]
fn handler_send_message_unnamed_and_named() {
    let mut h = SessionHandler::new(3);
    let effects = h.handle_request(&"send_message".to_string(), &"hi".to_string());
    assert_eq!(effects.len(), 1);
    match &effects[0] {
        SessionEffect::RelayChatMessage { id, room, msg } => {
            assert_eq!(*id, 3);
            assert_eq!(room, "Main");
            assert_eq!(msg, "hi");
        },
        _ => panic!("expected a chat forward"),
    }
    h.handle_request(&"set_name".to_string(), &"al".to_string());
    let effects = h.handle_request(&"send_message".to_string(), &"yo".to_string());
    assert_eq!(effects.len(), 2);
    match &effects[0] {
        SessionEffect::StoreChatMessage { room, user_name, message } => {
            assert_eq!(room, "Main");
            assert_eq!(user_name, "al");
            assert_eq!(message, "yo");
        },
        _ => panic!("expected a store command"),
    }
    match &effects[1] {
        SessionEffect::RelayChatMessage { msg, .. } => {
            assert_eq!(msg, "al: yo");
        },
        _ => panic!("expected a chat forward"),
    }
}

#[test]
fn handler_unknown_action_answers_without_crashing() {
    let mut h = SessionHandler::new(1);
    let effects = h.handle_request(&"frobnicate".to_string(), &"xyz".to_string());
    assert_eq!(effects.len(), 1);
    match &effects[0] {
        SessionEffect::Reply { response } => {
            assert_eq!(response.action, "unknown");
            assert_eq!(response.data, "!!! unknown command: xyz");
        },
        _ => panic!("expected a reply"),
    }
}

#[test]
fn handler_invitation_actions_pass_through() {
    let mut h = SessionHandler::new(4);
    for tag in ["invitation", "accept_invitation", "decline_invitation"] {
        let effects = h.handle_request(&tag.to_string(), &"bob".to_string());
        assert_eq!(effects.len(), 1);
        match &effects[0] {
            SessionEffect::RelayInvitation { id, room, to_user, action } => {
                assert_eq!(*id, 4);
                assert_eq!(room, "Main");
                assert_eq!(to_user, "bob");
                assert_eq!(action, tag);
            },
            _ => panic!("expected an invitation forward"),
        }
    }
}

#[test]
fn online_users_become_individual_responses() {
    let names = vec!["alice".to_string(), "bob".to_string()];
    let responses = online_users_responses(&names);
    assert_eq!(responses.len(), 2);
    assert!(responses.iter().all(|r| r.action == "response_online_users"));
    assert_eq!(responses[0].data, "alice");
    assert_eq!(responses[1].data, "bob");
}

#[test]
fn heartbeat_times_out_after_silence() {
    assert_eq!(heartbeat_tick(0), HeartbeatAction::Ping);
    assert_eq!(heartbeat_tick(10), HeartbeatAction::Ping);
    assert_eq!(heartbeat_tick(11), HeartbeatAction::Teardown);
}

#[test]
fn action_vocabularies_classify_envelopes() {
    assert!(is_chat_action(&"received_message".to_string()));
    assert!(is_chat_action(&"connect".to_string()));
    assert!(!is_chat_action(&"received_checker_piece_move".to_string()));
    assert!(is_game_action(&"received_checker_piece_move".to_string()));
    assert!(is_game_action(&"received_leave_game_message".to_string()));
    assert!(!is_game_action(&"send_message".to_string()));
    assert!(!is_chat_action(&"nonsense".to_string()));
    assert!(!is_game_action(&"nonsense".to_string()));
    assert_eq!(ChatAction::iterator().len(), 11);
    assert_eq!(GameAction::iterator().len(), 4);
    assert_eq!(ChatAction::SomeoneConnected.as_str(), "connect");
    assert_eq!(GameAction::SendCheckerPieceMove.as_str(), "send_checker_piece_move");
}
