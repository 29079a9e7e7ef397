//! The chat client: one user's lobby state. It keeps the transcript,
//! the set of peers online, and both directions of game invitations,
//! and decides what to send for every user action and every envelope
//! the relay delivers. Pending received invitations carry an
//! auto-decline timer; answering one first cancels it, so a late timer
//! firing sends nothing.

use vstd::prelude::*;
use vstd::string::StringExecFns;

use crate::protocol::{
    AuthorizedUserResponse, ChatAction, ChatMessage, ChatMessageResponse, OnlineUser,
    ReceivedInvitation, SentInvitation, WsRequest, WsResponse,
};

verus! {

/// A command the chat client asks its surroundings to carry out.
pub enum ChatEffect {
    Send { request: WsRequest },
    StartDeclineTimer { from_user: String },
    Disconnect,
}

/// One user's lobby state.
pub struct ChatClient {
    pub message: Option<String>,
    pub chat_messages: Vec<ChatMessage>,
    pub online_users: Vec<OnlineUser>,
    pub sent_invitations: Vec<SentInvitation>,
    pub received_invitations: Vec<ReceivedInvitation>,
    pub pending_decline_timers: Vec<String>,
}

/// The signed-in user's name, if any.
pub open spec fn user_name_view(user: Option<AuthorizedUserResponse>) -> Option<Seq<char>> {
    match user {
        Some(u) => Some(u.user_name@),
        None => None,
    }
}

pub open spec fn has_received(s: Seq<ReceivedInvitation>, d: Seq<char>) -> bool {
    exists|k: int| 0 <= k < s.len() && (#[trigger] s[k]).from_user@ == d
}

pub open spec fn has_sent(s: Seq<SentInvitation>, d: Seq<char>) -> bool {
    exists|k: int| 0 <= k < s.len() && (#[trigger] s[k]).to_user@ == d
}

pub open spec fn has_timer(s: Seq<String>, d: Seq<char>) -> bool {
    exists|k: int| 0 <= k < s.len() && (#[trigger] s[k])@ == d
}

pub open spec fn has_online(s: Seq<OnlineUser>, d: Seq<char>) -> bool {
    exists|k: int| 0 <= k < s.len() && (#[trigger] s[k]).0@ == d
}

/// `post` is `pre` with its first entry named `d` removed, when one
/// exists.
pub open spec fn received_removed(
    pre: Seq<ReceivedInvitation>,
    post: Seq<ReceivedInvitation>,
    d: Seq<char>,
) -> bool {
    if has_received(pre, d) {
        exists|i: int|
            0 <= i < pre.len() && (#[trigger] pre[i]).from_user@ == d && (forall|j: int|
                0 <= j < i ==> (#[trigger] pre[j]).from_user@ != d) && post == pre.remove(i)
    } else {
        post == pre
    }
}

pub open spec fn sent_removed(
    pre: Seq<SentInvitation>,
    post: Seq<SentInvitation>,
    d: Seq<char>,
) -> bool {
    if has_sent(pre, d) {
        exists|i: int|
            0 <= i < pre.len() && (#[trigger] pre[i]).to_user@ == d && (forall|j: int|
                0 <= j < i ==> (#[trigger] pre[j]).to_user@ != d) && post == pre.remove(i)
    } else {
        post == pre
    }
}

pub open spec fn timer_removed(pre: Seq<String>, post: Seq<String>, d: Seq<char>) -> bool {
    if has_timer(pre, d) {
        exists|i: int|
            0 <= i < pre.len() && (#[trigger] pre[i])@ == d && (forall|j: int|
                0 <= j < i ==> (#[trigger] pre[j])@ != d) && post == pre.remove(i)
    } else {
        post == pre
    }
}

fn remove_received(v: &mut Vec<ReceivedInvitation>, d: &String) -> (r: bool)
    ensures
        received_removed(old(v)@, final(v)@, d@),
        r == has_received(old(v)@, d@),
{
    let n = v.len();
    let mut i: usize = 0;
    while i < n
        invariant
            0 <= i <= n,
            n == v@.len(),
            v@ == old(v)@,
            forall|j: int| 0 <= j < i ==> (#[trigger] v@[j]).from_user@ != d@,
        decreases n - i,
    {
        if v[i].from_user == *d {
            v.remove(i);
            return true;
        }
        i = i + 1;
    }
    false
}

fn remove_sent(v: &mut Vec<SentInvitation>, d: &String) -> (r: bool)
    ensures
        sent_removed(old(v)@, final(v)@, d@),
        r == has_sent(old(v)@, d@),
{
    let n = v.len();
    let mut i: usize = 0;
    while i < n
        invariant
            0 <= i <= n,
            n == v@.len(),
            v@ == old(v)@,
            forall|j: int| 0 <= j < i ==> (#[trigger] v@[j]).to_user@ != d@,
        decreases n - i,
    {
        if v[i].to_user == *d {
            v.remove(i);
            return true;
        }
        i = i + 1;
    }
    false
}

fn remove_timer(v: &mut Vec<String>, d: &String) -> (r: bool)
    ensures
        timer_removed(old(v)@, final(v)@, d@),
        r == has_timer(old(v)@, d@),
{
    let n = v.len();
    let mut i: usize = 0;
    while i < n
        invariant
            0 <= i <= n,
            n == v@.len(),
            v@ == old(v)@,
            forall|j: int| 0 <= j < i ==> (#[trigger] v@[j])@ != d@,
        decreases n - i,
    {
        if v[i] == *d {
            v.remove(i);
            return true;
        }
        i = i + 1;
    }
    false
}

fn contains_online(v: &Vec<OnlineUser>, d: &String) -> (r: bool)
    ensures
        r == has_online(v@, d@),
{
    let n = v.len();
    let mut i: usize = 0;
    while i < n
        invariant
            0 <= i <= n,
            n == v@.len(),
            forall|j: int| 0 <= j < i ==> (#[trigger] v@[j]).0@ != d@,
        decreases n - i,
    {
        if v[i].0 == *d {
            return true;
        }
        i = i + 1;
    }
    false
}

/// The names an invitation sweep declines: every pending timer's
/// sender, in order, except the skipped one.
pub open spec fn spec_declines(timers: Seq<String>, skip: Option<Seq<char>>) -> Seq<Seq<char>>
    decreases timers.len(),
{
    if timers.len() == 0 {
        Seq::empty()
    } else {
        let rest = spec_declines(timers.drop_last(), skip);
        if Some(timers.last()@) != skip {
            rest.push(timers.last()@)
        } else {
            rest
        }
    }
}

/// One chat line per formatted transcript entry: the user's own
/// messages are prefixed `you:`, the others with the sender's name.
pub open spec fn spec_log_line(me: Option<Seq<char>>, user_name: Seq<char>, msg: Seq<char>) -> Seq<
    char,
> {
    if me == Some(user_name) {
        "you: "@ + msg
    } else {
        user_name + ": "@ + msg
    }
}

/// Field groups an envelope dispatch leaves alone.
pub open spec fn chat_unchanged(pre: ChatClient, post: ChatClient) -> bool {
    &&& post.message == pre.message
    &&& post.chat_messages@ == pre.chat_messages@
    &&& post.online_users@ == pre.online_users@
    &&& post.sent_invitations@ == pre.sent_invitations@
    &&& post.received_invitations@ == pre.received_invitations@
    &&& post.pending_decline_timers@ == pre.pending_decline_timers@
}

/// The dispatch relation of `handle_response`: given the delivered
/// action tag `a` and payload `d`, how the lobby state moves and which
/// effects come out. Tags are tried in the fixed order below; an
/// unrecognized tag changes nothing.
pub open spec fn response_transition(
    pre: ChatClient,
    post: ChatClient,
    me: Option<Seq<char>>,
    a: Seq<char>,
    d: Seq<char>,
    r: Seq<ChatEffect>,
) -> bool {
    if a == ChatAction::ReceivedMessage.spec_str() {
        &&& post.message == pre.message
        &&& post.online_users@ == pre.online_users@
        &&& post.sent_invitations@ == pre.sent_invitations@
        &&& post.received_invitations@ == pre.received_invitations@
        &&& post.pending_decline_timers@ == pre.pending_decline_timers@
        &&& post.chat_messages@.len() == pre.chat_messages@.len() + 1
        &&& (forall|k: int|
            0 <= k < pre.chat_messages@.len() ==> post.chat_messages@[k]
                == pre.chat_messages@[k])
        &&& post.chat_messages@.last().0@ == d
        &&& r.len() == 0
    } else if a == ChatAction::SomeoneDisconnected.spec_str() {
        &&& post.message == pre.message
        &&& post.chat_messages@ == pre.chat_messages@
        &&& post.sent_invitations@ == pre.sent_invitations@
        &&& post.online_users@.len() == 0
        &&& received_removed(pre.received_invitations@, post.received_invitations@, d)
        &&& timer_removed(pre.pending_decline_timers@, post.pending_decline_timers@, d)
        &&& r.len() == 1
        &&& r[0] matches ChatEffect::Send { request } && request.action@
            == ChatAction::RequestOnlineUsers.spec_str() && request.data@.len() == 0
    } else if a == ChatAction::ResponseOnlineUsers.spec_str() {
        &&& post.message == pre.message
        &&& post.chat_messages@ == pre.chat_messages@
        &&& post.sent_invitations@ == pre.sent_invitations@
        &&& post.received_invitations@ == pre.received_invitations@
        &&& post.pending_decline_timers@ == pre.pending_decline_timers@
        &&& r.len() == 0
        &&& if has_online(pre.online_users@, d) {
            post.online_users@ == pre.online_users@
        } else {
            &&& post.online_users@.len() == pre.online_users@.len() + 1
            &&& (forall|k: int|
                0 <= k < pre.online_users@.len() ==> post.online_users@[k]
                    == pre.online_users@[k])
            &&& post.online_users@.last().0@ == d
        }
    } else if a == ChatAction::SomeoneConnected.spec_str() {
        &&& post.message == pre.message
        &&& post.chat_messages@ == pre.chat_messages@
        &&& post.sent_invitations@ == pre.sent_invitations@
        &&& post.received_invitations@ == pre.received_invitations@
        &&& post.pending_decline_timers@ == pre.pending_decline_timers@
        &&& post.online_users@.len() == 0
        &&& r.len() == 1
        &&& r[0] matches ChatEffect::Send { request } && request.action@
            == ChatAction::RequestOnlineUsers.spec_str() && request.data@.len() == 0
    } else if a == ChatAction::Invitation.spec_str() {
        &&& post.message == pre.message
        &&& post.chat_messages@ == pre.chat_messages@
        &&& post.online_users@ == pre.online_users@
        &&& post.sent_invitations@ == pre.sent_invitations@
        &&& post.received_invitations@.len() == pre.received_invitations@.len() + 1
        &&& (forall|k: int|
            0 <= k < pre.received_invitations@.len() ==> post.received_invitations@[k]
                == pre.received_invitations@[k])
        &&& post.received_invitations@.last().from_user@ == d
        &&& post.pending_decline_timers@.len() == pre.pending_decline_timers@.len() + 1
        &&& (forall|k: int|
            0 <= k < pre.pending_decline_timers@.len() ==> post.pending_decline_timers@[k]
                == pre.pending_decline_timers@[k])
        &&& post.pending_decline_timers@.last()@ == d
        &&& r.len() == 1
        &&& r[0] matches ChatEffect::StartDeclineTimer { from_user } && from_user@ == d
    } else if a == ChatAction::DeclineInvitation.spec_str() {
        &&& post.message == pre.message
        &&& post.chat_messages@ == pre.chat_messages@
        &&& post.online_users@ == pre.online_users@
        &&& post.received_invitations@ == pre.received_invitations@
        &&& post.pending_decline_timers@ == pre.pending_decline_timers@
        &&& sent_removed(pre.sent_invitations@, post.sent_invitations@, d)
        &&& r.len() == 0
    } else if a == ChatAction::AcceptInvitation.spec_str() {
        &&& post.message == pre.message
        &&& post.chat_messages@ == pre.chat_messages@
        &&& post.online_users@ == pre.online_users@
        &&& post.invitations_cleared()
        &&& ({
            let ds = spec_declines(pre.pending_decline_timers@, Some(d));
            let extra: int = if me is Some {
                1int
            } else {
                0int
            };
            &&& r.len() == ds.len() + extra
            &&& (forall|k: int|
                0 <= k < ds.len() ==> ((#[trigger] r[k]) matches ChatEffect::Send { request }
                    && request.action@ == ChatAction::DeclineInvitation.spec_str()
                    && request.data@ == ds[k]))
            &&& me is Some ==> (r[ds.len() as int] matches ChatEffect::Send { request }
                && request.action@ == ChatAction::JoinToRoom.spec_str() && request.data@
                == "checkers_game_"@ + d + "_"@ + me->Some_0)
        })
    } else {
        chat_unchanged(pre, post) && r.len() == 0
    }
}

/// How sending the edit-box text moves the lobby state: a non-empty
/// text joins the transcript as the user's own line, goes out tagged
/// `send_message`, and clears the box; anything else sends nothing.
pub open spec fn send_message_transition(pre: ChatClient, post: ChatClient, r: Seq<
    ChatEffect,
>) -> bool {
    &&& post.online_users@ == pre.online_users@
    &&& post.sent_invitations@ == pre.sent_invitations@
    &&& post.received_invitations@ == pre.received_invitations@
    &&& post.pending_decline_timers@ == pre.pending_decline_timers@
    &&& if pre.message is Some && pre.message->Some_0@.len() > 0 {
        let m = pre.message->Some_0@;
        &&& post.message is None
        &&& post.chat_messages@.len() == pre.chat_messages@.len() + 1
        &&& (forall|k: int|
            0 <= k < pre.chat_messages@.len() ==> post.chat_messages@[k]
                == pre.chat_messages@[k])
        &&& post.chat_messages@.last().0@ == "you: "@ + m
        &&& r.len() == 1
        &&& r[0] matches ChatEffect::Send { request } && request.action@
            == ChatAction::SendMessage.spec_str() && request.data@ == m
    } else {
        &&& post.message == pre.message
        &&& post.chat_messages@ == pre.chat_messages@
        &&& r.len() == 0
    }
}

impl ChatClient {
    pub open spec fn invitations_cleared(self) -> bool {
        self.sent_invitations@.len() == 0 && self.received_invitations@.len() == 0
            && self.pending_decline_timers@.len() == 0
    }

    pub fn new() -> (r: ChatClient)
        ensures
            r.message is None,
            r.chat_messages@.len() == 0,
            r.online_users@.len() == 0,
            r.invitations_cleared(),
    {
        ChatClient {
            message: None,
            chat_messages: Vec::new(),
            online_users: Vec::new(),
            sent_invitations: Vec::new(),
            received_invitations: Vec::new(),
            pending_decline_timers: Vec::new(),
        }
    }

    /// Whether an invitation to `to_user` is already outstanding (its
    /// invite button is disabled then).
    pub fn invitation_status_check(&self, to_user: &String) -> (r: bool)
        ensures
            r == has_sent(self.sent_invitations@, to_user@),
    {
        let n = self.sent_invitations.len();
        let mut i: usize = 0;
        while i < n
            invariant
                0 <= i <= n,
                n == self.sent_invitations@.len(),
                forall|j: int|
                    0 <= j < i ==> (#[trigger] self.sent_invitations@[j]).to_user@ != to_user@,
            decreases n - i,
        {
            if self.sent_invitations[i].to_user == *to_user {
                return true;
            }
            i = i + 1;
        }
        false
    }

    /// Replaces the text in the edit box.
    pub fn update_edit_message(&mut self, text: String)
        ensures
            final(self).message matches Some(m) && m@ == text@,
            final(self).chat_messages@ == old(self).chat_messages@,
            final(self).online_users@ == old(self).online_users@,
            final(self).sent_invitations@ == old(self).sent_invitations@,
            final(self).received_invitations@ == old(self).received_invitations@,
            final(self).pending_decline_timers@ == old(self).pending_decline_timers@,
    {
        self.message = Some(text);
    }

    /// Appends the fetched chat log to the transcript, marking the
    /// user's own lines.
    pub fn put_messages_into_chat(
        &mut self,
        user: &Option<AuthorizedUserResponse>,
        messages: &Vec<ChatMessageResponse>,
    )
        ensures
            final(self).message == old(self).message,
            final(self).online_users@ == old(self).online_users@,
            final(self).sent_invitations@ == old(self).sent_invitations@,
            final(self).received_invitations@ == old(self).received_invitations@,
            final(self).pending_decline_timers@ == old(self).pending_decline_timers@,
            final(self).chat_messages@.len() == old(self).chat_messages@.len() + messages@.len(),
            forall|k: int|
                0 <= k < old(self).chat_messages@.len() ==> final(self).chat_messages@[k] == old(
                    self,
                ).chat_messages@[k],
            forall|k: int|
                0 <= k < messages@.len() ==> (#[trigger] final(self).chat_messages@[old(
                    self,
                ).chat_messages@.len() + k]).0@ == spec_log_line(
                    user_name_view(*user),
                    messages@[k].user_name@,
                    messages@[k].message@,
                ),
    {
        let n = messages.len();
        let mut i: usize = 0;
        while i < n
            invariant
                0 <= i <= n,
                n == messages@.len(),
                self.message == old(self).message,
                self.online_users@ == old(self).online_users@,
                self.sent_invitations@ == old(self).sent_invitations@,
                self.received_invitations@ == old(self).received_invitations@,
                self.pending_decline_timers@ == old(self).pending_decline_timers@,
                self.chat_messages@.len() == old(self).chat_messages@.len() + i,
                forall|k: int|
                    0 <= k < old(self).chat_messages@.len() ==> self.chat_messages@[k] == old(
                        self,
                    ).chat_messages@[k],
                forall|k: int|
                    0 <= k < i ==> (#[trigger] self.chat_messages@[old(self).chat_messages@.len()
                        + k]).0@ == spec_log_line(
                        user_name_view(*user),
                        messages@[k].user_name@,
                        messages@[k].message@,
                    ),
            decreases n - i,
        {
            let mine = match user {
                Some(u) => u.user_name == messages[i].user_name,
                None => false,
            };
            let line = if mine {
                String::from_str("you: ").concat(messages[i].message.as_str())
            } else {
                messages[i].user_name.clone().concat(": ").concat(messages[i].message.as_str())
            };
            self.chat_messages.push(ChatMessage(line));
            i = i + 1;
        }
    }

    /// Sends the edit-box text as a chat message: it joins the
    /// transcript as the user's own line and goes out tagged
    /// `send_message`. An empty or absent text sends nothing.
    pub fn send_chat_message(&mut self) -> (r: Vec<ChatEffect>)
        ensures
            send_message_transition(*old(self), *final(self), r@),
    {
        let m_opt = match &self.message {
            Some(m) => {
                if !m.as_str().is_empty() {
                    Some(m.clone())
                } else {
                    None
                }
            },
            None => None,
        };
        match m_opt {
            Some(m) => {
                self.chat_messages.push(
                    ChatMessage(String::from_str("you: ").concat(m.as_str())),
                );
                self.message = None;
                let mut out: Vec<ChatEffect> = Vec::new();
                out.push(
                    ChatEffect::Send {
                        request: WsRequest { action: ChatAction::SendMessage.as_str(), data: m },
                    },
                );
                out
            },
            None => Vec::new(),
        }
    }

    /// A key press in the edit box: the enter key sends the message,
    /// any other key does nothing.
    pub fn define_button(&mut self, key_code: u32) -> (r: Vec<ChatEffect>)
        ensures
            key_code == 13 ==> send_message_transition(*old(self), *final(self), r@),
            key_code != 13 ==> *final(self) == *old(self) && r@.len() == 0,
    {
        if key_code == 13 {
            self.send_chat_message()
        } else {
            Vec::new()
        }
    }

    /// Invites `to_user` to a game: remembered as outstanding and sent
    /// out tagged `invitation`.
    pub fn send_invitation(&mut self, to_user: &String) -> (r: Vec<ChatEffect>)
        ensures
            final(self).message == old(self).message,
            final(self).chat_messages@ == old(self).chat_messages@,
            final(self).online_users@ == old(self).online_users@,
            final(self).received_invitations@ == old(self).received_invitations@,
            final(self).pending_decline_timers@ == old(self).pending_decline_timers@,
            final(self).sent_invitations@.len() == old(self).sent_invitations@.len() + 1,
            forall|k: int|
                0 <= k < old(self).sent_invitations@.len() ==> final(self).sent_invitations@[k]
                    == old(self).sent_invitations@[k],
            final(self).sent_invitations@.last().to_user@ == to_user@,
            r@.len() == 1,
            r@[0] matches ChatEffect::Send { request } && request.action@
                == ChatAction::Invitation.spec_str() && request.data@ == to_user@,
    {
        self.sent_invitations.push(SentInvitation { to_user: to_user.clone() });
        let mut out: Vec<ChatEffect> = Vec::new();
        out.push(
            ChatEffect::Send {
                request: WsRequest {
                    action: ChatAction::Invitation.as_str(),
                    data: to_user.clone(),
                },
            },
        );
        out
    }

    /// Declines a received invitation, by the user or by its expired
    /// timer. The timer entry and the invitation are dropped, and a
    /// decline goes out only if the invitation was still pending — a
    /// late timer firing after an answer sends nothing.
    pub fn decline_invitation(&mut self, to_user: &String) -> (r: Vec<ChatEffect>)
        ensures
            final(self).message == old(self).message,
            final(self).chat_messages@ == old(self).chat_messages@,
            final(self).online_users@ == old(self).online_users@,
            final(self).sent_invitations@ == old(self).sent_invitations@,
            timer_removed(
                old(self).pending_decline_timers@,
                final(self).pending_decline_timers@,
                to_user@,
            ),
            received_removed(
                old(self).received_invitations@,
                final(self).received_invitations@,
                to_user@,
            ),
            has_received(old(self).received_invitations@, to_user@) ==> r@.len() == 1 && (r@[0]
                matches ChatEffect::Send { request } && request.action@
                == ChatAction::DeclineInvitation.spec_str() && request.data@ == to_user@),
            !has_received(old(self).received_invitations@, to_user@) ==> r@.len() == 0,
    {
        remove_timer(&mut self.pending_decline_timers, to_user);
        let had = remove_received(&mut self.received_invitations, to_user);
        if had {
            let mut out: Vec<ChatEffect> = Vec::new();
            out.push(
                ChatEffect::Send {
                    request: WsRequest {
                        action: ChatAction::DeclineInvitation.as_str(),
                        data: to_user.clone(),
                    },
                },
            );
            out
        } else {
            Vec::new()
        }
    }

    /// Declines every pending invitation except the skipped sender's
    /// and forgets all invitation state, both directions.
    pub fn decline_invitations(&mut self, skip_user_name: Option<&String>) -> (r: Vec<ChatEffect>)
        ensures
            final(self).message == old(self).message,
            final(self).chat_messages@ == old(self).chat_messages@,
            final(self).online_users@ == old(self).online_users@,
            final(self).invitations_cleared(),
            ({
                let skip = match skip_user_name {
                    Some(s) => Some(s@),
                    None => None,
                };
                let ds = spec_declines(old(self).pending_decline_timers@, skip);
                r@.len() == ds.len() && forall|k: int|
                    0 <= k < ds.len() ==> ((#[trigger] r@[k]) matches ChatEffect::Send { request }
                        && request.action@ == ChatAction::DeclineInvitation.spec_str()
                        && request.data@ == ds[k])
            }),
    {
        let skip_name: Option<String> = match skip_user_name {
            Some(s) => Some(s.clone()),
            None => None,
        };
        let ghost skip: Option<Seq<char>> = match &skip_name {
            Some(s) => Some(s@),
            None => None,
        };
        let n = self.pending_decline_timers.len();
        let mut out: Vec<ChatEffect> = Vec::new();
        let mut i: usize = 0;
        while i < n
            invariant
                0 <= i <= n,
                n == self.pending_decline_timers@.len(),
                skip == (match skip_name {
                    Some(s) => Some(s@),
                    None => None,
                }),
                skip == (match skip_user_name {
                    Some(s) => Some(s@),
                    None => None,
                }),
                self.message == old(self).message,
                self.chat_messages@ == old(self).chat_messages@,
                self.online_users@ == old(self).online_users@,
                self.sent_invitations@ == old(self).sent_invitations@,
                self.received_invitations@ == old(self).received_invitations@,
                self.pending_decline_timers@ == old(self).pending_decline_timers@,
                ({
                    let ds = spec_declines(self.pending_decline_timers@.take(i as int), skip);
                    out@.len() == ds.len() && forall|k: int|
                        0 <= k < ds.len() ==> ((#[trigger] out@[k]) matches ChatEffect::Send {
                            request,
                        } && request.action@ == ChatAction::DeclineInvitation.spec_str()
                            && request.data@ == ds[k])
                }),
            decreases n - i,
        {
            let from_user = &self.pending_decline_timers[i];
            let is_skipped = match &skip_name {
                Some(s) => *from_user == *s,
                None => false,
            };
            if !is_skipped {
                out.push(
                    ChatEffect::Send {
                        request: WsRequest {
                            action: ChatAction::DeclineInvitation.as_str(),
                            data: from_user.clone(),
                        },
                    },
                );
            }
            proof {
                assert(self.pending_decline_timers@.take(i + 1).drop_last()
                    =~= self.pending_decline_timers@.take(i as int));
                assert(self.pending_decline_timers@.take(i + 1).last()
                    == self.pending_decline_timers@[i as int]);
            }
            i = i + 1;
        }
        proof {
            assert(self.pending_decline_timers@.take(n as int) =~= self.pending_decline_timers@);
        }
        self.pending_decline_timers = Vec::new();
        self.sent_invitations = Vec::new();
        self.received_invitations = Vec::new();
        out
    }

    /// Accepts an invitation from `to_user`: every other pending
    /// invitation is declined, the acceptance goes out, and the client
    /// asks to join the private game room named after both players.
    pub fn accept_invitation(
        &mut self,
        user: &Option<AuthorizedUserResponse>,
        to_user: &String,
    ) -> (r: Vec<ChatEffect>)
        ensures
            final(self).message == old(self).message,
            final(self).chat_messages@ == old(self).chat_messages@,
            final(self).online_users@ == old(self).online_users@,
            final(self).invitations_cleared(),
            ({
                let ds = spec_declines(old(self).pending_decline_timers@, Some(to_user@));
                let extra: int = if *user is Some {
                    2int
                } else {
                    1int
                };
                &&& r@.len() == ds.len() + extra
                &&& (forall|k: int|
                    0 <= k < ds.len() ==> ((#[trigger] r@[k]) matches ChatEffect::Send { request }
                        && request.action@ == ChatAction::DeclineInvitation.spec_str()
                        && request.data@ == ds[k]))
                &&& r@[ds.len() as int] matches ChatEffect::Send { request } && request.action@
                    == ChatAction::AcceptInvitation.spec_str() && request.data@ == to_user@
                &&& *user is Some ==> (r@[ds.len() as int + 1] matches ChatEffect::Send { request }
                    && request.action@ == ChatAction::JoinToRoom.spec_str() && request.data@
                    == "checkers_game_"@ + user->Some_0.user_name@ + "_"@ + to_user@)
            }),
    {
        let mut out = self.decline_invitations(Some(to_user));
        out.push(
            ChatEffect::Send {
                request: WsRequest {
                    action: ChatAction::AcceptInvitation.as_str(),
                    data: to_user.clone(),
                },
            },
        );
        match user {
            Some(u) => {
                let room = String::from_str("checkers_game_").concat(u.user_name.as_str()).concat(
                    "_",
                ).concat(to_user.as_str());
                out.push(
                    ChatEffect::Send {
                        request: WsRequest { action: ChatAction::JoinToRoom.as_str(), data: room },
                    },
                );
            },
            None => {},
        }
        out
    }

    /// Dispatches one envelope the relay delivered, exactly as
    /// `response_transition` describes.
    pub fn handle_response(
        &mut self,
        user: &Option<AuthorizedUserResponse>,
        response: &WsResponse,
    ) -> (r: Vec<ChatEffect>)
        ensures
            response_transition(
                *old(self),
                *final(self),
                user_name_view(*user),
                response.action@,
                response.data@,
                r@,
            ),
    {
        let mut out: Vec<ChatEffect> = Vec::new();
        if response.action == ChatAction::ReceivedMessage.as_str() {
            self.chat_messages.push(ChatMessage(response.data.clone()));
        } else if response.action == ChatAction::SomeoneDisconnected.as_str() {
            self.online_users = Vec::new();
            out.push(
                ChatEffect::Send {
                    request: WsRequest {
                        action: ChatAction::RequestOnlineUsers.as_str(),
                        data: String::new(),
                    },
                },
            );
            remove_received(&mut self.received_invitations, &response.data);
            remove_timer(&mut self.pending_decline_timers, &response.data);
        } else if response.action == ChatAction::ResponseOnlineUsers.as_str() {
            if !contains_online(&self.online_users, &response.data) {
                self.online_users.push(OnlineUser(response.data.clone()));
            }
        } else if response.action == ChatAction::SomeoneConnected.as_str() {
            self.online_users = Vec::new();
            out.push(
                ChatEffect::Send {
                    request: WsRequest {
                        action: ChatAction::RequestOnlineUsers.as_str(),
                        data: String::new(),
                    },
                },
            );
        } else if response.action == ChatAction::Invitation.as_str() {
            self.received_invitations.push(
                ReceivedInvitation { from_user: response.data.clone() },
            );
            self.pending_decline_timers.push(response.data.clone());
            out.push(ChatEffect::StartDeclineTimer { from_user: response.data.clone() });
        } else if response.action == ChatAction::DeclineInvitation.as_str() {
            remove_sent(&mut self.sent_invitations, &response.data);
        } else if response.action == ChatAction::AcceptInvitation.as_str() {
            out = self.decline_invitations(Some(&response.data));
            match user {
                Some(u) => {
                    let room = String::from_str("checkers_game_").concat(
                        response.data.as_str(),
                    ).concat("_").concat(u.user_name.as_str());
                    out.push(
                        ChatEffect::Send {
                            request: WsRequest {
                                action: ChatAction::JoinToRoom.as_str(),
                                data: room,
                            },
                        },
                    );
                },
                None => {},
            }
        }
        out
    }

    /// Disconnects from the lobby: the online list empties, every
    /// pending invitation is declined, and the transport is asked to
    /// close.
    pub fn disconnect(&mut self) -> (r: Vec<ChatEffect>)
        ensures
            final(self).message == old(self).message,
            final(self).chat_messages@ == old(self).chat_messages@,
            final(self).online_users@.len() == 0,
            final(self).invitations_cleared(),
            ({
                let ds = spec_declines(old(self).pending_decline_timers@, None);
                &&& r@.len() == ds.len() + 1
                &&& (forall|k: int|
                    0 <= k < ds.len() ==> ((#[trigger] r@[k]) matches ChatEffect::Send { request }
                        && request.action@ == ChatAction::DeclineInvitation.spec_str()
                        && request.data@ == ds[k]))
                &&& r@[ds.len() as int] is Disconnect
            }),
    {
        self.online_users = Vec::new();
        let mut out = self.decline_invitations(None);
        out.push(ChatEffect::Disconnect);
        out
    }
}

} // verus!
