//! The per-connection session handler: the decisions behind one
//! socket. It mirrors the session's room and display name, decodes
//! each inbound envelope by its action tag, and emits the commands for
//! the relay, the chat-log store, and direct replies. The transport,
//! the timers and the actual sends stay outside.

use vstd::prelude::*;
use vstd::string::StringExecFns;

use crate::protocol::{ChatAction, GameAction, WsResponse};

verus! {

/// Seconds between watchdog pings.
pub const HEARTBEAT_INTERVAL_SECS: u64 = 5;

/// Seconds of silence after which a connection is torn down.
pub const CLIENT_TIMEOUT_SECS: u64 = 10;

/// What the per-connection watchdog does at a tick.
#[derive(Clone, Copy, PartialEq, Eq, Structural, Debug)]
pub enum HeartbeatAction {
    Ping,
    Teardown,
}

/// One watchdog tick: tear the connection down once the peer has been
/// silent longer than the timeout, otherwise ping it.
pub fn heartbeat_tick(elapsed_since_pong_secs: u64) -> (r: HeartbeatAction)
    ensures
        r == (if elapsed_since_pong_secs > CLIENT_TIMEOUT_SECS {
            HeartbeatAction::Teardown
        } else {
            HeartbeatAction::Ping
        }),
{
    if elapsed_since_pong_secs > CLIENT_TIMEOUT_SECS {
        HeartbeatAction::Teardown
    } else {
        HeartbeatAction::Ping
    }
}

/// A command the handler asks its surroundings to carry out.
pub enum SessionEffect {
    RelayJoin { id: usize, room: String },
    RelaySetName { id: usize, user_name: String },
    RelayChatMessage { id: usize, room: String, msg: String },
    RelayListUsers { id: usize, room: String },
    RelayInvitation { id: usize, room: String, to_user: String, action: String },
    RelayGameMove { id: usize, room: String, msg: String },
    Reply { response: WsResponse },
    StoreChatMessage { room: String, user_name: String, message: String },
}

/// The connection-local mirror of one session: its relay identifier,
/// current room, and display name.
pub struct SessionHandler {
    pub id: usize,
    pub room: String,
    pub name: Option<String>,
}

pub open spec fn handler_unchanged(pre: SessionHandler, post: SessionHandler) -> bool {
    post.id == pre.id && post.room@ == pre.room@ && post.name == pre.name
}

/// The dispatch relation of `handle_request`: given the inbound action
/// tag `a` and payload `d`, how the handler state moves and which
/// effects come out. Tags are tried in the fixed order below; anything
/// unknown is answered with a non-crashing `unknown` reply.
pub open spec fn handle_transition(
    pre: SessionHandler,
    post: SessionHandler,
    a: Seq<char>,
    d: Seq<char>,
    r: Seq<SessionEffect>,
) -> bool {
    if a == ChatAction::JoinToRoom.spec_str() {
        &&& post.id == pre.id
        &&& post.name == pre.name
        &&& post.room@ == d
        &&& r.len() == 2
        &&& r[0] matches SessionEffect::RelayJoin { id, room } && id == pre.id && room@ == d
        &&& r[1] matches SessionEffect::Reply { response } && response.action@
            == ChatAction::JoinToRoom.spec_str() && response.data@ == "joined"@
    } else if a == ChatAction::SetName.spec_str() {
        &&& post.id == pre.id
        &&& post.room@ == pre.room@
        &&& post.name matches Some(n) && n@ == d
        &&& r.len() == 1
        &&& r[0] matches SessionEffect::RelaySetName { id, user_name } && id == pre.id
            && user_name@ == d
    } else if a == ChatAction::SendMessage.spec_str() {
        &&& handler_unchanged(pre, post)
        &&& match pre.name {
            Some(n) => {
                &&& r.len() == 2
                &&& r[0] matches SessionEffect::StoreChatMessage { room, user_name, message }
                    && room@ == pre.room@ && user_name@ == n@ && message@ == d
                &&& r[1] matches SessionEffect::RelayChatMessage { id, room, msg } && id == pre.id
                    && room@ == pre.room@ && msg@ == n@ + ": "@ + d
            },
            None => {
                &&& r.len() == 1
                &&& r[0] matches SessionEffect::RelayChatMessage { id, room, msg } && id == pre.id
                    && room@ == pre.room@ && msg@ == d
            },
        }
    } else if a == ChatAction::RequestOnlineUsers.spec_str() {
        &&& handler_unchanged(pre, post)
        &&& r.len() == 1
        &&& r[0] matches SessionEffect::RelayListUsers { id, room } && id == pre.id && room@
            == pre.room@
    } else if a == ChatAction::Invitation.spec_str() || a == ChatAction::AcceptInvitation.spec_str()
        || a == ChatAction::DeclineInvitation.spec_str() {
        &&& handler_unchanged(pre, post)
        &&& r.len() == 1
        &&& r[0] matches SessionEffect::RelayInvitation { id, room, to_user, action } && id
            == pre.id && room@ == pre.room@ && to_user@ == d && action@ == a
    } else if a == GameAction::SendCheckerPieceMove.spec_str() {
        &&& handler_unchanged(pre, post)
        &&& r.len() == 1
        &&& r[0] matches SessionEffect::RelayGameMove { id, room, msg } && id == pre.id && room@
            == pre.room@ && msg@ == d
    } else {
        &&& handler_unchanged(pre, post)
        &&& r.len() == 1
        &&& r[0] matches SessionEffect::Reply { response } && response.action@ == "unknown"@
            && response.data@ == "!!! unknown command: "@ + d
    }
}

impl SessionHandler {
    /// A handler for a session that just connected: default room, no
    /// name yet.
    pub fn new(id: usize) -> (r: SessionHandler)
        ensures
            r.id == id,
            r.room@ == "Main"@,
            r.name is None,
    {
        SessionHandler { id, room: String::from_str("Main"), name: None }
    }

    /// Decodes one inbound envelope and produces the effects to run,
    /// exactly as `handle_transition` describes.
    pub fn handle_request(&mut self, action: &String, data: &String) -> (r: Vec<SessionEffect>)
        ensures
            handle_transition(*old(self), *final(self), action@, data@, r@),
    {
        let mut out: Vec<SessionEffect> = Vec::new();
        if *action == ChatAction::JoinToRoom.as_str() {
            self.room = data.clone();
            out.push(SessionEffect::RelayJoin { id: self.id, room: data.clone() });
            out.push(
                SessionEffect::Reply {
                    response: WsResponse {
                        action: ChatAction::JoinToRoom.as_str(),
                        data: String::from_str("joined"),
                    },
                },
            );
        } else if *action == ChatAction::SetName.as_str() {
            self.name = Some(data.clone());
            out.push(SessionEffect::RelaySetName { id: self.id, user_name: data.clone() });
        } else if *action == ChatAction::SendMessage.as_str() {
            match &self.name {
                Some(n) => {
                    out.push(
                        SessionEffect::StoreChatMessage {
                            room: self.room.clone(),
                            user_name: n.clone(),
                            message: data.clone(),
                        },
                    );
                    let msg = n.clone().concat(": ").concat(data.as_str());
                    out.push(
                        SessionEffect::RelayChatMessage {
                            id: self.id,
                            room: self.room.clone(),
                            msg,
                        },
                    );
                },
                None => {
                    out.push(
                        SessionEffect::RelayChatMessage {
                            id: self.id,
                            room: self.room.clone(),
                            msg: data.clone(),
                        },
                    );
                },
            }
        } else if *action == ChatAction::RequestOnlineUsers.as_str() {
            out.push(SessionEffect::RelayListUsers { id: self.id, room: self.room.clone() });
        } else if *action == ChatAction::Invitation.as_str() || *action
            == ChatAction::AcceptInvitation.as_str() || *action
            == ChatAction::DeclineInvitation.as_str() {
            out.push(
                SessionEffect::RelayInvitation {
                    id: self.id,
                    room: self.room.clone(),
                    to_user: data.clone(),
                    action: action.clone(),
                },
            );
        } else if *action == GameAction::SendCheckerPieceMove.as_str() {
            out.push(
                SessionEffect::RelayGameMove {
                    id: self.id,
                    room: self.room.clone(),
                    msg: data.clone(),
                },
            );
        } else {
            out.push(
                SessionEffect::Reply {
                    response: WsResponse {
                        action: String::from_str("unknown"),
                        data: String::from_str("!!! unknown command: ").concat(data.as_str()),
                    },
                },
            );
        }
        out
    }
}

/// Wraps each listed display name in its own `response_online_users`
/// envelope, one message per name.
pub fn online_users_responses(names: &Vec<String>) -> (r: Vec<WsResponse>)
    ensures
        r@.len() == names@.len(),
        forall|k: int|
            0 <= k < r@.len() ==> (#[trigger] r@[k]).action@
                == ChatAction::ResponseOnlineUsers.spec_str() && r@[k].data@ == names@[k]@,
{
    let n = names.len();
    let mut out: Vec<WsResponse> = Vec::new();
    let mut i: usize = 0;
    while i < n
        invariant
            0 <= i <= n,
            n == names@.len(),
            out@.len() == i,
            forall|k: int|
                0 <= k < i ==> (#[trigger] out@[k]).action@
                    == ChatAction::ResponseOnlineUsers.spec_str() && out@[k].data@ == names@[k]@,
        decreases n - i,
    {
        out.push(
            WsResponse { action: ChatAction::ResponseOnlineUsers.as_str(), data: names[i].clone() },
        );
        i = i + 1;
    }
    out
}

} // verus!
