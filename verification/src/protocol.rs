//! Wire-level message types: the envelope exchanged over the socket,
//! the closed action vocabularies of the chat and game protocols, and
//! the small records the chat client keeps per peer.

use vstd::prelude::*;
use vstd::string::StringExecFns;

verus! {

/// An envelope sent by a client: an action tag and its payload.
#[derive(Clone, Debug)]
pub struct WsRequest {
    pub action: String,
    pub data: String,
}

/// An envelope sent to a client: an action tag and its payload.
#[derive(Clone, Debug, PartialEq)]
pub struct WsResponse {
    pub action: String,
    pub data: String,
}

/// One stored chat-log entry, as the chat-log store returns it.
#[derive(Clone, Debug)]
pub struct ChatMessageResponse {
    pub user_name: String,
    pub message: String,
}

/// One line of the local chat transcript.
#[derive(Clone, Debug, PartialEq)]
pub struct ChatMessage(pub String);

/// A peer currently online, by display name.
#[derive(Clone, Debug, PartialEq)]
pub struct OnlineUser(pub String);

/// An invitation this client has sent and not yet seen answered.
#[derive(Clone, Debug, PartialEq)]
pub struct SentInvitation {
    pub to_user: String,
}

/// An invitation this client has received and not yet answered.
#[derive(Clone, Debug)]
pub struct ReceivedInvitation {
    pub from_user: String,
}

/// The identity the authentication collaborator supplies for a
/// connected user.
#[derive(Clone, Debug, PartialEq)]
pub struct AuthorizedUserResponse {
    pub user_name: String,
    pub email: String,
    pub is_superuser: bool,
}

/// The room selector of a chat-log query.
#[derive(Clone, Debug)]
pub struct Info {
    pub room: String,
}

/// The chat-side action vocabulary.
#[derive(Clone, Copy, PartialEq, Eq, Structural, Debug)]
pub enum ChatAction {
    RequestOnlineUsers,
    JoinToRoom,
    SetName,
    SendMessage,
    Invitation,
    AcceptInvitation,
    DeclineInvitation,
    ResponseOnlineUsers,
    SomeoneDisconnected,
    SomeoneConnected,
    ReceivedMessage,
}

impl ChatAction {
    /// The wire tag of this action.
    pub open spec fn spec_str(self) -> Seq<char> {
        match self {
            ChatAction::RequestOnlineUsers => "request_online_users"@,
            ChatAction::JoinToRoom => "join_to_room"@,
            ChatAction::SetName => "set_name"@,
            ChatAction::SendMessage => "send_message"@,
            ChatAction::Invitation => "invitation"@,
            ChatAction::AcceptInvitation => "accept_invitation"@,
            ChatAction::DeclineInvitation => "decline_invitation"@,
            ChatAction::ResponseOnlineUsers => "response_online_users"@,
            ChatAction::SomeoneDisconnected => "disconnect"@,
            ChatAction::SomeoneConnected => "connect"@,
            ChatAction::ReceivedMessage => "received_message"@,
        }
    }

    pub fn as_str(&self) -> (r: String)
        ensures
            r@ == self.spec_str(),
    {
        match self {
            ChatAction::RequestOnlineUsers => String::from_str("request_online_users"),
            ChatAction::JoinToRoom => String::from_str("join_to_room"),
            ChatAction::SetName => String::from_str("set_name"),
            ChatAction::SendMessage => String::from_str("send_message"),
            ChatAction::Invitation => String::from_str("invitation"),
            ChatAction::AcceptInvitation => String::from_str("accept_invitation"),
            ChatAction::DeclineInvitation => String::from_str("decline_invitation"),
            ChatAction::ResponseOnlineUsers => String::from_str("response_online_users"),
            ChatAction::SomeoneDisconnected => String::from_str("disconnect"),
            ChatAction::SomeoneConnected => String::from_str("connect"),
            ChatAction::ReceivedMessage => String::from_str("received_message"),
        }
    }

    /// All chat actions, in a fixed order.
    pub fn iterator() -> (r: Vec<ChatAction>)
        ensures
            r@ == seq![
                ChatAction::RequestOnlineUsers,
                ChatAction::JoinToRoom,
                ChatAction::SetName,
                ChatAction::SendMessage,
                ChatAction::Invitation,
                ChatAction::AcceptInvitation,
                ChatAction::DeclineInvitation,
                ChatAction::ResponseOnlineUsers,
                ChatAction::SomeoneDisconnected,
                ChatAction::SomeoneConnected,
                ChatAction::ReceivedMessage,
            ],
    {
        let mut v: Vec<ChatAction> = Vec::new();
        v.push(ChatAction::RequestOnlineUsers);
        v.push(ChatAction::JoinToRoom);
        v.push(ChatAction::SetName);
        v.push(ChatAction::SendMessage);
        v.push(ChatAction::Invitation);
        v.push(ChatAction::AcceptInvitation);
        v.push(ChatAction::DeclineInvitation);
        v.push(ChatAction::ResponseOnlineUsers);
        v.push(ChatAction::SomeoneDisconnected);
        v.push(ChatAction::SomeoneConnected);
        v.push(ChatAction::ReceivedMessage);
        proof {
            assert(v@ =~= seq![
                ChatAction::RequestOnlineUsers,
                ChatAction::JoinToRoom,
                ChatAction::SetName,
                ChatAction::SendMessage,
                ChatAction::Invitation,
                ChatAction::AcceptInvitation,
                ChatAction::DeclineInvitation,
                ChatAction::ResponseOnlineUsers,
                ChatAction::SomeoneDisconnected,
                ChatAction::SomeoneConnected,
                ChatAction::ReceivedMessage,
            ]);
        }
        v
    }
}

/// The game-side action vocabulary.
#[derive(Clone, Copy, PartialEq, Eq, Structural, Debug)]
pub enum GameAction {
    SendCheckerPieceMove,
    ReceivedCheckerPieceMove,
    SendLeaveGameMessage,
    ReceivedLeaveGameMessage,
}

impl GameAction {
    /// The wire tag of this action.
    pub open spec fn spec_str(self) -> Seq<char> {
        match self {
            GameAction::SendCheckerPieceMove => "send_checker_piece_move"@,
            GameAction::ReceivedCheckerPieceMove => "received_checker_piece_move"@,
            GameAction::SendLeaveGameMessage => "send_leave_game_message"@,
            GameAction::ReceivedLeaveGameMessage => "received_leave_game_message"@,
        }
    }

    pub fn as_str(&self) -> (r: String)
        ensures
            r@ == self.spec_str(),
    {
        match self {
            GameAction::SendCheckerPieceMove => String::from_str("send_checker_piece_move"),
            GameAction::ReceivedCheckerPieceMove => String::from_str(
                "received_checker_piece_move",
            ),
            GameAction::SendLeaveGameMessage => String::from_str("send_leave_game_message"),
            GameAction::ReceivedLeaveGameMessage => String::from_str(
                "received_leave_game_message",
            ),
        }
    }

    /// All game actions, in a fixed order.
    pub fn iterator() -> (r: Vec<GameAction>)
        ensures
            r@ == seq![
                GameAction::SendCheckerPieceMove,
                GameAction::ReceivedCheckerPieceMove,
                GameAction::SendLeaveGameMessage,
                GameAction::ReceivedLeaveGameMessage,
            ],
    {
        let mut v: Vec<GameAction> = Vec::new();
        v.push(GameAction::SendCheckerPieceMove);
        v.push(GameAction::ReceivedCheckerPieceMove);
        v.push(GameAction::SendLeaveGameMessage);
        v.push(GameAction::ReceivedLeaveGameMessage);
        proof {
            assert(v@ =~= seq![
                GameAction::SendCheckerPieceMove,
                GameAction::ReceivedCheckerPieceMove,
                GameAction::SendLeaveGameMessage,
                GameAction::ReceivedLeaveGameMessage,
            ]);
        }
        v
    }
}

/// The fixed name of the shared game lobby room.
pub open spec fn spec_game_name() -> Seq<char> {
    "checkers_game"@
}

pub fn game_name() -> (r: String)
    ensures
        r@ == spec_game_name(),
{
    String::from_str("checkers_game")
}

/// `s` is the wire tag of some chat action.
pub open spec fn is_chat_action_str(s: Seq<char>) -> bool {
    exists|a: ChatAction| #[trigger] a.spec_str() == s
}

/// `s` is the wire tag of some game action.
pub open spec fn is_game_action_str(s: Seq<char>) -> bool {
    exists|a: GameAction| #[trigger] a.spec_str() == s
}

/// Whether an inbound action tag belongs to the chat vocabulary.
pub fn is_chat_action(s: &String) -> (r: bool)
    ensures
        r == is_chat_action_str(s@),
{
    let actions = ChatAction::iterator();
    proof {
        assert forall|a: ChatAction| actions@.contains(a) by {
            match a {
                ChatAction::RequestOnlineUsers => assert(actions@[0] == a),
                ChatAction::JoinToRoom => assert(actions@[1] == a),
                ChatAction::SetName => assert(actions@[2] == a),
                ChatAction::SendMessage => assert(actions@[3] == a),
                ChatAction::Invitation => assert(actions@[4] == a),
                ChatAction::AcceptInvitation => assert(actions@[5] == a),
                ChatAction::DeclineInvitation => assert(actions@[6] == a),
                ChatAction::ResponseOnlineUsers => assert(actions@[7] == a),
                ChatAction::SomeoneDisconnected => assert(actions@[8] == a),
                ChatAction::SomeoneConnected => assert(actions@[9] == a),
                ChatAction::ReceivedMessage => assert(actions@[10] == a),
            }
        }
    }
    let n = actions.len();
    let mut i: usize = 0;
    while i < n
        invariant
            0 <= i <= n,
            n == actions@.len(),
            forall|a: ChatAction| #[trigger] actions@.contains(a),
            forall|k: int| 0 <= k < i ==> (#[trigger] actions@[k]).spec_str() != s@,
        decreases n - i,
    {
        if actions[i].as_str() == *s {
            proof {
                assert(actions@[i as int].spec_str() == s@);
            }
            return true;
        }
        i = i + 1;
    }
    proof {
        if is_chat_action_str(s@) {
            let a = choose|a: ChatAction| #[trigger] a.spec_str() == s@;
            assert(actions@.contains(a));
            let k = choose|k: int| 0 <= k < actions@.len() && actions@[k] == a;
            assert(false);
        }
    }
    false
}

/// Whether an inbound action tag belongs to the game vocabulary.
pub fn is_game_action(s: &String) -> (r: bool)
    ensures
        r == is_game_action_str(s@),
{
    let actions = GameAction::iterator();
    proof {
        assert forall|a: GameAction| actions@.contains(a) by {
            match a {
                GameAction::SendCheckerPieceMove => assert(actions@[0] == a),
                GameAction::ReceivedCheckerPieceMove => assert(actions@[1] == a),
                GameAction::SendLeaveGameMessage => assert(actions@[2] == a),
                GameAction::ReceivedLeaveGameMessage => assert(actions@[3] == a),
            }
        }
    }
    let n = actions.len();
    let mut i: usize = 0;
    while i < n
        invariant
            0 <= i <= n,
            n == actions@.len(),
            forall|a: GameAction| #[trigger] actions@.contains(a),
            forall|k: int| 0 <= k < i ==> (#[trigger] actions@[k]).spec_str() != s@,
        decreases n - i,
    {
        if actions[i].as_str() == *s {
            proof {
                assert(actions@[i as int].spec_str() == s@);
            }
            return true;
        }
        i = i + 1;
    }
    proof {
        if is_game_action_str(s@) {
            let a = choose|a: GameAction| #[trigger] a.spec_str() == s@;
            assert(actions@.contains(a));
            let k = choose|k: int| 0 <= k < actions@.len() && actions@[k] == a;
            assert(false);
        }
    }
    false
}

} // verus!
