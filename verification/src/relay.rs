//! The session relay: the single owner of session and room state. It
//! assigns session identifiers, tracks display names and room
//! membership (each session is in exactly one room), and computes the
//! outbound fan-out of chat messages, invitations, game payloads and
//! presence notices. It performs no transport itself: every operation
//! returns the messages to deliver.

use vstd::prelude::*;
use vstd::string::StringExecFns;

use crate::protocol::{ChatAction, WsResponse};

verus! {

/// One connected participant: its identifier, optional display name,
/// and the single room it is in.
#[derive(Clone, Debug)]
pub struct Session {
    pub id: usize,
    pub user_name: Option<String>,
    pub room: String,
}

impl Session {
    /// The display name as a sequence of characters, if set.
    pub open spec fn name_view(self) -> Option<Seq<char>> {
        match self.user_name {
            Some(n) => Some(n@),
            None => None,
        }
    }
}

/// One message to hand to the transport: the recipient session and the
/// envelope to send it.
#[derive(Clone, Debug)]
pub struct OutboundMessage {
    pub session_id: usize,
    pub response: WsResponse,
}

/// The mathematical content of an outbound message.
pub struct OutboundModel {
    pub session_id: int,
    pub action: Seq<char>,
    pub data: Seq<char>,
}

impl View for OutboundMessage {
    type V = OutboundModel;

    open spec fn view(&self) -> OutboundModel {
        OutboundModel {
            session_id: self.session_id as int,
            action: self.response.action@,
            data: self.response.data@,
        }
    }
}

/// The models of a list of outbound messages.
pub open spec fn views_of(s: Seq<OutboundMessage>) -> Seq<OutboundModel> {
    s.map_values(|o: OutboundMessage| o@)
}

/// The default room every session starts in.
pub open spec fn main_room() -> Seq<char> {
    "Main"@
}

/// The fan-out of one envelope to every session of `room` except
/// `skip`, in session-table order.
pub open spec fn spec_broadcast(
    ss: Seq<Session>,
    room: Seq<char>,
    action: Seq<char>,
    data: Seq<char>,
    skip: int,
) -> Seq<OutboundModel>
    decreases ss.len(),
{
    if ss.len() == 0 {
        Seq::empty()
    } else {
        let rest = spec_broadcast(ss.drop_last(), room, action, data, skip);
        let s = ss.last();
        if s.room@ == room && s.id as int != skip {
            rest.push(OutboundModel { session_id: s.id as int, action, data })
        } else {
            rest
        }
    }
}

/// `sid` is the identifier of a session of `room` other than `skip`.
pub open spec fn in_room(ss: Seq<Session>, room: Seq<char>, skip: int, sid: int) -> bool {
    exists|i: int|
        0 <= i < ss.len() && (#[trigger] ss[i]).id as int == sid && ss[i].room@ == room && sid
            != skip
}

/// A broadcast reaches exactly the sessions of the room other than the
/// skipped one, each with the given envelope.
pub proof fn lemma_broadcast_exact(
    ss: Seq<Session>,
    room: Seq<char>,
    action: Seq<char>,
    data: Seq<char>,
    skip: int,
)
    ensures
        forall|k: int|
            0 <= k < spec_broadcast(ss, room, action, data, skip).len() ==> ((
            #[trigger] spec_broadcast(ss, room, action, data, skip)[k]).action == action
                && spec_broadcast(ss, room, action, data, skip)[k].data == data && in_room(
                ss,
                room,
                skip,
                spec_broadcast(ss, room, action, data, skip)[k].session_id,
            )),
        forall|sid: int|
            in_room(ss, room, skip, sid) ==> exists|k: int|
                0 <= k < spec_broadcast(ss, room, action, data, skip).len() && (
                #[trigger] spec_broadcast(ss, room, action, data, skip)[k]).session_id == sid,
    decreases ss.len(),
{
    let bc = spec_broadcast(ss, room, action, data, skip);
    if ss.len() > 0 {
        let rest = spec_broadcast(ss.drop_last(), room, action, data, skip);
        lemma_broadcast_exact(ss.drop_last(), room, action, data, skip);
        assert forall|k: int|
            0 <= k < bc.len() implies ((#[trigger] bc[k]).action == action && bc[k].data == data
            && in_room(ss, room, skip, bc[k].session_id)) by {
            if k < rest.len() {
                assert(bc[k] == rest[k]);
                assert(in_room(ss.drop_last(), room, skip, rest[k].session_id));
                let i = choose|i: int|
                    0 <= i < ss.drop_last().len() && (#[trigger] ss.drop_last()[i]).id as int
                        == rest[k].session_id && ss.drop_last()[i].room@ == room
                        && rest[k].session_id != skip;
                assert(ss[i] == ss.drop_last()[i]);
            } else {
                assert(ss.last() == ss[ss.len() - 1]);
            }
        }
        assert forall|sid: int| in_room(ss, room, skip, sid) implies exists|k: int|
            0 <= k < bc.len() && (#[trigger] bc[k]).session_id == sid by {
            let i = choose|i: int|
                0 <= i < ss.len() && (#[trigger] ss[i]).id as int == sid && ss[i].room@ == room
                    && sid != skip;
            if i == ss.len() - 1 {
                assert(bc[bc.len() - 1].session_id == sid);
            } else {
                assert(ss.drop_last()[i] == ss[i]);
                assert(in_room(ss.drop_last(), room, skip, sid));
                let k = choose|k: int|
                    0 <= k < rest.len() && (#[trigger] rest[k]).session_id == sid;
                assert(bc[k] == rest[k]);
            }
        }
    }
}

/// Builds the fan-out of one envelope, exactly as `spec_broadcast`
/// describes.
fn broadcast(
    sessions: &Vec<Session>,
    room: &String,
    action: &String,
    data: &String,
    skip: usize,
) -> (r: Vec<OutboundMessage>)
    ensures
        views_of(r@) == spec_broadcast(sessions@, room@, action@, data@, skip as int),
{
    let n = sessions.len();
    let mut out: Vec<OutboundMessage> = Vec::new();
    let mut i: usize = 0;
    while i < n
        invariant
            0 <= i <= n,
            n == sessions@.len(),
            views_of(out@) == spec_broadcast(
                sessions@.take(i as int),
                room@,
                action@,
                data@,
                skip as int,
            ),
        decreases n - i,
    {
        let s = &sessions[i];
        if s.room == *room && s.id != skip {
            out.push(
                OutboundMessage {
                    session_id: s.id,
                    response: WsResponse { action: action.clone(), data: data.clone() },
                },
            );
        }
        proof {
            assert(sessions@.take(i + 1).drop_last() =~= sessions@.take(i as int));
            assert(sessions@.take(i + 1).last() == sessions@[i as int]);
            assert(views_of(out@) =~= spec_broadcast(
                sessions@.take(i + 1),
                room@,
                action@,
                data@,
                skip as int,
            ));
        }
        i = i + 1;
    }
    proof {
        assert(sessions@.take(n as int) =~= sessions@);
    }
    out
}

/// Index of the first session with identifier `id` at or after `i`, or -1.
pub open spec fn find_session_from(ss: Seq<Session>, id: usize, i: int) -> int
    decreases ss.len() - i,
    when 0 <= i <= ss.len()
{
    if i >= ss.len() {
        -1
    } else if ss[i].id == id {
        i
    } else {
        find_session_from(ss, id, i + 1)
    }
}

/// Index of the first session with identifier `id`, or -1.
pub open spec fn find_session(ss: Seq<Session>, id: usize) -> int {
    find_session_from(ss, id, 0)
}

/// Some session bears identifier `id`.
pub open spec fn has_session(ss: Seq<Session>, id: usize) -> bool {
    exists|i: int| 0 <= i < ss.len() && (#[trigger] ss[i]).id == id
}

proof fn lemma_find_session_skip(ss: Seq<Session>, id: usize, i: int)
    requires
        0 <= i <= ss.len(),
        forall|j: int| 0 <= j < i ==> (#[trigger] ss[j]).id != id,
    ensures
        find_session(ss, id) == find_session_from(ss, id, i),
    decreases i,
{
    if i > 0 {
        lemma_find_session_skip(ss, id, i - 1);
    }
}

/// Characterization of `find_session`.
pub proof fn lemma_find_session_props(ss: Seq<Session>, id: usize)
    ensures
        find_session(ss, id) == -1 ==> !has_session(ss, id),
        find_session(ss, id) != -1 ==> 0 <= find_session(ss, id) < ss.len() && ss[find_session(
            ss,
            id,
        )].id == id,
{
    lemma_find_session_props_from(ss, id, 0);
}

proof fn lemma_find_session_props_from(ss: Seq<Session>, id: usize, i: int)
    requires
        0 <= i <= ss.len(),
    ensures
        find_session_from(ss, id, i) == -1 ==> forall|j: int|
            i <= j < ss.len() ==> (#[trigger] ss[j]).id != id,
        find_session_from(ss, id, i) != -1 ==> i <= find_session_from(ss, id, i) < ss.len()
            && ss[find_session_from(ss, id, i)].id == id,
    decreases ss.len() - i,
{
    if i < ss.len() && ss[i].id != id {
        lemma_find_session_props_from(ss, id, i + 1);
    }
}

fn find_session_index(sessions: &Vec<Session>, id: usize) -> (r: Option<usize>)
    ensures
        r is Some <==> find_session(sessions@, id) >= 0,
        r is Some ==> r->Some_0 as int == find_session(sessions@, id),
        r is None ==> !has_session(sessions@, id),
{
    let n = sessions.len();
    let mut i: usize = 0;
    while i < n
        invariant
            0 <= i <= n,
            n == sessions@.len(),
            forall|j: int| 0 <= j < i ==> (#[trigger] sessions@[j]).id != id,
        decreases n - i,
    {
        if sessions[i].id == id {
            proof {
                lemma_find_session_skip(sessions@, id, i as int);
            }
            return Some(i);
        }
        i = i + 1;
    }
    proof {
        lemma_find_session_skip(sessions@, id, n as int);
    }
    None
}

/// The payload of a disconnect notice for a session: its display name,
/// or a generic phrase for an unnamed session.
pub open spec fn disconnect_data(s: Session) -> Seq<char> {
    match s.name_view() {
        Some(n) => n,
        None => "Someone disconnected"@,
    }
}

/// The display names of the named sessions of `room` other than
/// `skip`, in session-table order.
pub open spec fn spec_user_names(ss: Seq<Session>, room: Seq<char>, skip: int) -> Seq<Seq<char>>
    decreases ss.len(),
{
    if ss.len() == 0 {
        Seq::empty()
    } else {
        let rest = spec_user_names(ss.drop_last(), room, skip);
        let s = ss.last();
        if s.room@ == room && s.id as int != skip && s.name_view() is Some {
            rest.push(s.name_view()->Some_0)
        } else {
            rest
        }
    }
}

/// The views of a list of strings.
pub open spec fn strings_of(v: Seq<String>) -> Seq<Seq<char>> {
    v.map_values(|s: String| s@)
}

/// The deliveries of one invitation envelope: every session of `room`
/// whose display name is `to_user` receives the action, with the
/// sender's name as payload.
pub open spec fn spec_invitations(
    ss: Seq<Session>,
    room: Seq<char>,
    to_user: Seq<char>,
    action: Seq<char>,
    from_name: Seq<char>,
) -> Seq<OutboundModel>
    decreases ss.len(),
{
    if ss.len() == 0 {
        Seq::empty()
    } else {
        let rest = spec_invitations(ss.drop_last(), room, to_user, action, from_name);
        let s = ss.last();
        if s.room@ == room && s.name_view() == Some(to_user) {
            rest.push(OutboundModel { session_id: s.id as int, action, data: from_name })
        } else {
            rest
        }
    }
}

proof fn lemma_sessions_remove(ss: Seq<Session>, j: int, bound: usize)
    requires
        0 <= j < ss.len(),
        forall|i: int| 0 <= i < ss.len() ==> (#[trigger] ss[i]).id < bound,
        forall|i: int, k: int| 0 <= i < k < ss.len() ==> (#[trigger] ss[i]).id != (#[trigger] ss[k]).id,
    ensures
        forall|i: int| 0 <= i < ss.remove(j).len() ==> (#[trigger] ss.remove(j)[i]).id < bound,
        forall|i: int, k: int|
            0 <= i < k < ss.remove(j).len() ==> (#[trigger] ss.remove(j)[i]).id != (
            #[trigger] ss.remove(j)[k]).id,
{
    ss.remove_ensures(j);
    assert forall|i: int| 0 <= i < ss.remove(j).len() implies (#[trigger] ss.remove(j)[i]).id
        < bound by {
        if i < j {
            assert(ss.remove(j)[i] == ss[i]);
        } else {
            assert(ss.remove(j)[i] == ss[i + 1]);
        }
    }
    assert forall|i: int, k: int|
        0 <= i < k < ss.remove(j).len() implies (#[trigger] ss.remove(j)[i]).id != (
    #[trigger] ss.remove(j)[k]).id by {
        let fi = if i < j {
            i
        } else {
            i + 1
        };
        let fk = if k < j {
            k
        } else {
            k + 1
        };
        assert(ss.remove(j)[i] == ss[fi]);
        assert(ss.remove(j)[k] == ss[fk]);
    }
}

/// The relay state: the session table and the next identifier to hand
/// out. Room membership is the `room` field of each session, so a
/// session is in exactly one room by construction.
pub struct Relay {
    pub sessions: Vec<Session>,
    pub next_id: usize,
}

impl Relay {
    /// Some live session bears identifier `id`.
    pub open spec fn spec_has_session(self, id: usize) -> bool {
        has_session(self.sessions@, id)
    }

    /// Relay invariant: every live identifier is below `next_id`, and
    /// identifiers are unique.
    pub open spec fn wf(self) -> bool {
        &&& forall|i: int|
            0 <= i < self.sessions@.len() ==> (#[trigger] self.sessions@[i]).id < self.next_id
        &&& forall|i: int, k: int|
            0 <= i < k < self.sessions@.len() ==> (#[trigger] self.sessions@[i]).id != (
            #[trigger] self.sessions@[k]).id
    }

    /// An empty relay. Identifiers start at 1, so 0 is never a session
    /// and can stand for "skip nobody" in a broadcast.
    pub fn new() -> (r: Relay)
        ensures
            r.wf(),
            r.sessions@.len() == 0,
            r.next_id == 1,
    {
        Relay { sessions: Vec::new(), next_id: 1 }
    }

    /// Registers a new session: it gets a fresh identifier, no name,
    /// and a place in the default room. The sessions already in the
    /// default room are told someone joined.
    pub fn connect(&mut self) -> (r: (usize, Vec<OutboundMessage>))
        requires
            old(self).wf(),
            old(self).next_id < usize::MAX,
        ensures
            final(self).wf(),
            r.0 == old(self).next_id,
            !old(self).spec_has_session(r.0),
            final(self).next_id == old(self).next_id + 1,
            final(self).sessions@.len() == old(self).sessions@.len() + 1,
            final(self).sessions@.drop_last() == old(self).sessions@,
            final(self).sessions@.last().id == r.0,
            final(self).sessions@.last().name_view() is None,
            final(self).sessions@.last().room@ == main_room(),
            views_of(r.1@) == spec_broadcast(
                old(self).sessions@,
                main_room(),
                ChatAction::SomeoneConnected.spec_str(),
                "Someone joined"@,
                0,
            ),
    {
        let out = broadcast(
            &self.sessions,
            &String::from_str("Main"),
            &ChatAction::SomeoneConnected.as_str(),
            &String::from_str("Someone joined"),
            0,
        );
        let id = self.next_id;
        proof {
            if has_session(self.sessions@, id) {
                let i = choose|i: int|
                    0 <= i < self.sessions@.len() && (#[trigger] self.sessions@[i]).id == id;
                assert(false);
            }
        }
        self.next_id = self.next_id + 1;
        self.sessions.push(Session { id, user_name: None, room: String::from_str("Main") });
        proof {
            assert(self.sessions@.drop_last() =~= old(self).sessions@);
        }
        (id, out)
    }

    /// Removes a session. The remaining sessions of its room are told,
    /// by name when one was set. Unknown identifiers are ignored.
    pub fn disconnect(&mut self, id: usize) -> (r: Vec<OutboundMessage>)
        requires
            old(self).wf(),
        ensures
            final(self).wf(),
            final(self).next_id == old(self).next_id,
            !old(self).spec_has_session(id) ==> final(self).sessions@ == old(self).sessions@
                && r@.len() == 0,
            old(self).spec_has_session(id) ==> ({
                let i = find_session(old(self).sessions@, id);
                &&& final(self).sessions@ == old(self).sessions@.remove(i)
                &&& views_of(r@) == spec_broadcast(
                    final(self).sessions@,
                    old(self).sessions@[i].room@,
                    ChatAction::SomeoneDisconnected.spec_str(),
                    disconnect_data(old(self).sessions@[i]),
                    0,
                )
            }),
    {
        proof {
            lemma_find_session_props(self.sessions@, id);
        }
        match find_session_index(&self.sessions, id) {
            None => Vec::new(),
            Some(i) => {
                proof {
                    lemma_sessions_remove(self.sessions@, i as int, self.next_id);
                }
                let sess = self.sessions.remove(i);
                let data = match &sess.user_name {
                    Some(n) => n.clone(),
                    None => String::from_str("Someone disconnected"),
                };
                broadcast(
                    &self.sessions,
                    &sess.room,
                    &ChatAction::SomeoneDisconnected.as_str(),
                    &data,
                    0,
                )
            },
        }
    }

    /// Moves a session into `room`, creating the room implicitly. Its
    /// old room is told it left and the new room that someone joined,
    /// the session itself excluded from both notices. Unknown
    /// identifiers are ignored.
    pub fn join(&mut self, id: usize, room: &String) -> (r: Vec<OutboundMessage>)
        requires
            old(self).wf(),
        ensures
            final(self).wf(),
            final(self).next_id == old(self).next_id,
            !old(self).spec_has_session(id) ==> final(self).sessions@ == old(self).sessions@
                && r@.len() == 0,
            old(self).spec_has_session(id) ==> ({
                let i = find_session(old(self).sessions@, id);
                &&& final(self).sessions@.len() == old(self).sessions@.len()
                &&& forall|k: int|
                    0 <= k < old(self).sessions@.len() && k != i ==> final(self).sessions@[k]
                        == old(self).sessions@[k]
                &&& final(self).sessions@[i].id == old(self).sessions@[i].id
                &&& final(self).sessions@[i].name_view() == old(self).sessions@[i].name_view()
                &&& final(self).sessions@[i].room@ == room@
                &&& views_of(r@) == spec_broadcast(
                    final(self).sessions@,
                    old(self).sessions@[i].room@,
                    ChatAction::SomeoneDisconnected.spec_str(),
                    disconnect_data(old(self).sessions@[i]),
                    id as int,
                ) + spec_broadcast(
                    final(self).sessions@,
                    room@,
                    ChatAction::SomeoneConnected.spec_str(),
                    "Someone connected"@,
                    id as int,
                )
            }),
    {
        proof {
            lemma_find_session_props(self.sessions@, id);
        }
        match find_session_index(&self.sessions, id) {
            None => Vec::new(),
            Some(i) => {
                let prev_room = self.sessions[i].room.clone();
                let prev_data = match &self.sessions[i].user_name {
                    Some(n) => n.clone(),
                    None => String::from_str("Someone disconnected"),
                };
                let moved = Session {
                    id: self.sessions[i].id,
                    user_name: match &self.sessions[i].user_name {
                        Some(n) => Some(n.clone()),
                        None => None,
                    },
                    room: room.clone(),
                };
                self.sessions[i] = moved;
                let mut out = broadcast(
                    &self.sessions,
                    &prev_room,
                    &ChatAction::SomeoneDisconnected.as_str(),
                    &prev_data,
                    id,
                );
                let mut out2 = broadcast(
                    &self.sessions,
                    room,
                    &ChatAction::SomeoneConnected.as_str(),
                    &String::from_str("Someone connected"),
                    id,
                );
                out.append(&mut out2);
                proof {
                    assert(views_of(out@) =~= spec_broadcast(
                        self.sessions@,
                        old(self).sessions@[i as int].room@,
                        ChatAction::SomeoneDisconnected.spec_str(),
                        disconnect_data(old(self).sessions@[i as int]),
                        id as int,
                    ) + spec_broadcast(
                        self.sessions@,
                        room@,
                        ChatAction::SomeoneConnected.spec_str(),
                        "Someone connected"@,
                        id as int,
                    ));
                }
                out
            },
        }
    }

    /// Sets or overwrites the display name of a session. No broadcast.
    /// Unknown identifiers are ignored.
    pub fn set_name(&mut self, id: usize, user_name: &String)
        requires
            old(self).wf(),
        ensures
            final(self).wf(),
            final(self).next_id == old(self).next_id,
            !old(self).spec_has_session(id) ==> final(self).sessions@ == old(self).sessions@,
            old(self).spec_has_session(id) ==> ({
                let i = find_session(old(self).sessions@, id);
                &&& final(self).sessions@.len() == old(self).sessions@.len()
                &&& forall|k: int|
                    0 <= k < old(self).sessions@.len() && k != i ==> final(self).sessions@[k]
                        == old(self).sessions@[k]
                &&& final(self).sessions@[i].id == old(self).sessions@[i].id
                &&& final(self).sessions@[i].room@ == old(self).sessions@[i].room@
                &&& final(self).sessions@[i].name_view() == Some(user_name@)
            }),
    {
        proof {
            lemma_find_session_props(self.sessions@, id);
        }
        match find_session_index(&self.sessions, id) {
            None => {},
            Some(i) => {
                let renamed = Session {
                    id: self.sessions[i].id,
                    user_name: Some(user_name.clone()),
                    room: self.sessions[i].room.clone(),
                };
                self.sessions[i] = renamed;
            },
        }
    }

    /// The display names of every other named session of `room`.
    pub fn list_user_names(&self, id: usize, room: &String) -> (r: Vec<String>)
        ensures
            strings_of(r@) == spec_user_names(self.sessions@, room@, id as int),
    {
        let n = self.sessions.len();
        let mut out: Vec<String> = Vec::new();
        let mut i: usize = 0;
        while i < n
            invariant
                0 <= i <= n,
                n == self.sessions@.len(),
                strings_of(out@) == spec_user_names(
                    self.sessions@.take(i as int),
                    room@,
                    id as int,
                ),
            decreases n - i,
        {
            let s = &self.sessions[i];
            if s.room == *room && s.id != id {
                match &s.user_name {
                    Some(name) => {
                        out.push(name.clone());
                    },
                    None => {},
                }
            }
            proof {
                assert(self.sessions@.take(i + 1).drop_last() =~= self.sessions@.take(i as int));
                assert(self.sessions@.take(i + 1).last() == self.sessions@[i as int]);
                assert(strings_of(out@) =~= spec_user_names(
                    self.sessions@.take(i + 1),
                    room@,
                    id as int,
                ));
            }
            i = i + 1;
        }
        proof {
            assert(self.sessions@.take(n as int) =~= self.sessions@);
        }
        out
    }

    /// Forwards a chat text to every other session of `room`, tagged
    /// as a received message.
    pub fn send_chat_message(&self, id: usize, room: &String, msg: &String) -> (r: Vec<
        OutboundMessage,
    >)
        ensures
            views_of(r@) == spec_broadcast(
                self.sessions@,
                room@,
                ChatAction::ReceivedMessage.spec_str(),
                msg@,
                id as int,
            ),
    {
        broadcast(&self.sessions, room, &ChatAction::ReceivedMessage.as_str(), msg, id)
    }

    /// Forwards an opaque game payload to every other session of
    /// `room`, tagged as a received piece move.
    pub fn send_game_move(&self, id: usize, room: &String, msg: &String) -> (r: Vec<
        OutboundMessage,
    >)
        ensures
            views_of(r@) == spec_broadcast(
                self.sessions@,
                room@,
                crate::protocol::GameAction::ReceivedCheckerPieceMove.spec_str(),
                msg@,
                id as int,
            ),
    {
        broadcast(
            &self.sessions,
            room,
            &crate::protocol::GameAction::ReceivedCheckerPieceMove.as_str(),
            msg,
            id,
        )
    }

    /// Forwards an invitation action to whichever sessions of `room`
    /// bear the target display name, with the sender's own name as
    /// payload. A sender without a session or without a name sends
    /// nothing.
    pub fn send_invitation(&self, id: usize, room: &String, to_user: &String, action: &String) -> (r:
        Vec<OutboundMessage>)
        ensures
            ({
                let i = find_session(self.sessions@, id);
                if i >= 0 && self.sessions@[i].name_view() is Some {
                    views_of(r@) == spec_invitations(
                        self.sessions@,
                        room@,
                        to_user@,
                        action@,
                        self.sessions@[i].name_view()->Some_0,
                    )
                } else {
                    r@.len() == 0
                }
            }),
    {
        proof {
            lemma_find_session_props(self.sessions@, id);
        }
        let from_name = match find_session_index(&self.sessions, id) {
            None => None,
            Some(i) => {
                match &self.sessions[i].user_name {
                    Some(n) => Some(n.clone()),
                    None => None,
                }
            },
        };
        match from_name {
            None => Vec::new(),
            Some(from) => {
                let n = self.sessions.len();
                let mut out: Vec<OutboundMessage> = Vec::new();
                let mut i: usize = 0;
                while i < n
                    invariant
                        0 <= i <= n,
                        n == self.sessions@.len(),
                        views_of(out@) == spec_invitations(
                            self.sessions@.take(i as int),
                            room@,
                            to_user@,
                            action@,
                            from@,
                        ),
                    decreases n - i,
                {
                    let s = &self.sessions[i];
                    if s.room == *room {
                        match &s.user_name {
                            Some(nm) => {
                                if *nm == *to_user {
                                    out.push(
                                        OutboundMessage {
                                            session_id: s.id,
                                            response: WsResponse {
                                                action: action.clone(),
                                                data: from.clone(),
                                            },
                                        },
                                    );
                                }
                            },
                            None => {},
                        }
                    }
                    proof {
                        assert(self.sessions@.take(i + 1).drop_last() =~= self.sessions@.take(
                            i as int,
                        ));
                        assert(self.sessions@.take(i + 1).last() == self.sessions@[i as int]);
                        assert(views_of(out@) =~= spec_invitations(
                            self.sessions@.take(i + 1),
                            room@,
                            to_user@,
                            action@,
                            from@,
                        ));
                    }
                    i = i + 1;
                }
                proof {
                    assert(self.sessions@.take(n as int) =~= self.sessions@);
                }
                out
            },
        }
    }
}

/// A fresh identifier is never one that any state with a lower or
/// equal identifier bound held: every operation keeps the bound
/// non-decreasing, and `connect` hands out the bound itself, so an
/// identifier returned by `connect` was unused for the whole life of
/// the process up to that point.
pub proof fn lemma_connect_id_fresh(earlier: Relay, id: usize)
    requires
        earlier.wf(),
        id >= earlier.next_id,
    ensures
        !earlier.spec_has_session(id),
{
    if has_session(earlier.sessions@, id) {
        let i = choose|i: int|
            0 <= i < earlier.sessions@.len() && (#[trigger] earlier.sessions@[i]).id == id;
        assert(false);
    }
}

/// Every name a user-name listing returns belongs to a live session of
/// the listed room.
pub proof fn lemma_names_are_live(ss: Seq<Session>, room: Seq<char>, skip: int, k: int)
    requires
        0 <= k < spec_user_names(ss, room, skip).len(),
    ensures
        exists|i: int|
            0 <= i < ss.len() && (#[trigger] ss[i]).room@ == room && ss[i].id as int != skip
                && ss[i].name_view() == Some(spec_user_names(ss, room, skip)[k]),
    decreases ss.len(),
{
    let rest = spec_user_names(ss.drop_last(), room, skip);
    if k < rest.len() {
        lemma_names_are_live(ss.drop_last(), room, skip, k);
        let i = choose|i: int|
            0 <= i < ss.drop_last().len() && (#[trigger] ss.drop_last()[i]).room@ == room
                && ss.drop_last()[i].id as int != skip && ss.drop_last()[i].name_view() == Some(
                rest[k],
            );
        assert(ss[i] == ss.drop_last()[i]);
    } else {
        assert(ss.last() == ss[ss.len() - 1]);
    }
}

/// After a session is gone, a name that no remaining session bears
/// cannot appear in any room's user-name listing.
pub proof fn lemma_disconnect_hides_name(
    ss: Seq<Session>,
    room: Seq<char>,
    skip: int,
    nm: Seq<char>,
)
    requires
        forall|i: int| 0 <= i < ss.len() ==> (#[trigger] ss[i]).name_view() != Some(nm),
    ensures
        !spec_user_names(ss, room, skip).contains(nm),
{
    if spec_user_names(ss, room, skip).contains(nm) {
        let k = choose|k: int|
            0 <= k < spec_user_names(ss, room, skip).len() && spec_user_names(ss, room, skip)[k]
                == nm;
        lemma_names_are_live(ss, room, skip, k);
        let i = choose|i: int|
            0 <= i < ss.len() && (#[trigger] ss[i]).room@ == room && ss[i].id as int != skip
                && ss[i].name_view() == Some(nm);
        assert(false);
    }
}

} // verus!
