//! Per-connection dispatch of signaling requests and fan-out of the events
//! they cause.
//!
//! `SignalingServer` is the state that all connections share: the room
//! registry and one session per live connection. Handling a request mutates
//! that state and yields the messages to deliver, in order, each addressed
//! to a participant; the caller pushes them onto the recipients' outbound
//! queues. Each recipient thus sees its messages in the order listed.

use vstd::prelude::*;

use crate::crypto::kyber::{
    encapsulates_to, kyber_decapsulated, kyber_pair, KyberKeyExchange, CIPHERTEXT_BYTES, PUBLIC_KEY_BYTES,
    SHARED_SECRET_BYTES,
};
use crate::ids::fresh_uuid;
use crate::media::MediaForwarder;
use crate::protocol::{ParticipantInfo, RoomInfo, ServerUserInfo, SignalingMessage};
use crate::room::{
    has_member, has_room, in_a_room, member_index, registry_join, registry_leave, registry_set_audio,
    registry_set_video, room_index, room_of, Participant, ParticipantView, Room, RoomManager, RoomView,
};
use crate::text::str_eq;
use crate::time::unix_time_secs;

verus! {

/// Abstract state of a connection's session.
pub struct SessionView {
    pub participant_id: Seq<char>,
    pub username: Option<Seq<char>>,
    pub shared_secret: Option<Seq<u8>>,
}

/// Per-connection state: the server-assigned participant id, the name set
/// by `Login` and the secret set by the key exchange.
pub struct Session {
    pub participant_id: String,
    pub username: Option<String>,
    pub shared_secret: Option<Vec<u8>>,
}

impl View for Session {
    type V = SessionView;

    open spec fn view(&self) -> SessionView {
        SessionView {
            participant_id: self.participant_id@,
            username: match self.username {
                Some(u) => Some(u@),
                None => None,
            },
            shared_secret: match self.shared_secret {
                Some(s) => Some(s@),
                None => None,
            },
        }
    }
}

/// A message addressed to one participant.
#[derive(Debug, Clone, PartialEq, Eq)]
pub struct Outbound {
    pub recipient: String,
    pub message: SignalingMessage,
}

/// Abstract state of the server.
pub struct ServerView {
    pub rooms: Seq<RoomView>,
    pub sessions: Seq<SessionView>,
}

/// An event fanned out to room members.
pub enum Event {
    ParticipantJoined { participant_id: Seq<char>, username: Seq<char> },
    ParticipantLeft { participant_id: Seq<char> },
    AudioToggled { participant_id: Seq<char>, enabled: bool },
    VideoToggled { participant_id: Seq<char>, enabled: bool },
    MessageReceived { sender_id: Seq<char>, sender_username: Seq<char>, content: Seq<char>, timestamp: u64 },
    AudioDataReceived { sender_id: Seq<char>, data: Seq<u8> },
}

/// `m` is the wire message of event `e`.
pub open spec fn carries(m: SignalingMessage, e: Event) -> bool {
    match e {
        Event::ParticipantJoined { participant_id, username } => m matches SignalingMessage::ParticipantJoined {
            participant_id: p,
            username: u,
        } && p@ == participant_id && u@ == username,
        Event::ParticipantLeft { participant_id } => m matches SignalingMessage::ParticipantLeft {
            participant_id: p,
        } && p@ == participant_id,
        Event::AudioToggled { participant_id, enabled } => m matches SignalingMessage::AudioToggled {
            participant_id: p,
            enabled: b,
        } && p@ == participant_id && b == enabled,
        Event::VideoToggled { participant_id, enabled } => m matches SignalingMessage::VideoToggled {
            participant_id: p,
            enabled: b,
        } && p@ == participant_id && b == enabled,
        Event::MessageReceived { sender_id, sender_username, content, timestamp } => m matches SignalingMessage::MessageReceived {
            sender_id: s,
            sender_username: u,
            content: c,
            timestamp: t,
        } && s@ == sender_id && u@ == sender_username && c@ == content && t == timestamp,
        Event::AudioDataReceived { sender_id, data } => m matches SignalingMessage::AudioDataReceived {
            sender_id: s,
            data: d,
        } && s@ == sender_id && d@ == data,
    }
}

/// `out` holds, from position `start`, exactly one message carrying `e`
/// for each of `recipients`, in order.
pub open spec fn fans_out(out: Seq<Outbound>, start: int, recipients: Seq<Seq<char>>, e: Event) -> bool {
    &&& out.len() == start + recipients.len()
    &&& forall|k: int|
        0 <= k < recipients.len() ==> (#[trigger] out[start + k]).recipient@ == recipients[k] && carries(
            out[start + k].message,
            e,
        )
}

pub open spec fn has_session(sessions: Seq<SessionView>, pid: Seq<char>) -> bool {
    exists|i: int| 0 <= i < sessions.len() && sessions[i].participant_id == pid
}

/// Position of the session of `pid` (meaningful when there is one).
pub open spec fn session_index(sessions: Seq<SessionView>, pid: Seq<char>) -> int {
    choose|i: int| 0 <= i < sessions.len() && sessions[i].participant_id == pid
}

pub open spec fn sessions_unique(sessions: Seq<SessionView>) -> bool {
    forall|i: int, j: int|
        0 <= i < sessions.len() && 0 <= j < sessions.len() && i != j ==> #[trigger] sessions[i].participant_id
            != #[trigger] sessions[j].participant_id
}

/// Sessions with the same ids in the same order stay unique.
proof fn lemma_same_ids_unique(a: Seq<SessionView>, b: Seq<SessionView>)
    requires
        sessions_unique(a),
        a.len() == b.len(),
        forall|j: int| 0 <= j < a.len() ==> (#[trigger] b[j]).participant_id == a[j].participant_id,
    ensures
        sessions_unique(b),
{
    assert forall|x: int, y: int| 0 <= x < b.len() && 0 <= y < b.len() && x != y implies #[trigger] b[x].participant_id
        != #[trigger] b[y].participant_id by {
        assert(a[x].participant_id != a[y].participant_id);
    }
}

/// Members of a room that get a broadcast: those with a live session, in
/// order of joining, less `exclude`.
pub open spec fn recipients(ms: Seq<ParticipantView>, sessions: Seq<SessionView>, exclude: Option<Seq<char>>) -> Seq<Seq<char>>
    decreases ms.len(),
{
    if ms.len() == 0 {
        Seq::empty()
    } else {
        let rest = recipients(ms.drop_last(), sessions, exclude);
        let id = ms.last().id;
        if has_session(sessions, id) && exclude != Some(id) {
            rest.push(id)
        } else {
            rest
        }
    }
}

/// Who a broadcast reaches: exactly the members of the room that have a
/// live session, less the excluded participant.
pub proof fn lemma_recipients_are(ms: Seq<ParticipantView>, sessions: Seq<SessionView>, exclude: Option<Seq<char>>, x: Seq<char>)
    ensures
        recipients(ms, sessions, exclude).contains(x) <==> (has_member(ms, x) && has_session(sessions, x) && exclude
            != Some(x)),
    decreases ms.len(),
{
    if ms.len() > 0 {
        let init = ms.drop_last();
        lemma_recipients_are(init, sessions, exclude, x);
        let rest = recipients(init, sessions, exclude);
        let id = ms.last().id;
        if has_member(ms, x) && !has_member(init, x) {
            let k = choose|k: int| 0 <= k < ms.len() && ms[k].id == x;
            if k < ms.len() - 1 {
                assert(init[k].id == x);
            }
            assert(id == x);
        }
        if has_member(init, x) {
            let k = choose|k: int| 0 <= k < init.len() && init[k].id == x;
            assert(ms[k].id == x);
        }
        if has_session(sessions, id) && exclude != Some(id) {
            assert(rest.push(id).contains(x) <==> (rest.contains(x) || id == x)) by {
                if rest.push(id).contains(x) {
                    let j = choose|j: int| 0 <= j < rest.push(id).len() && rest.push(id)[j] == x;
                    if j < rest.len() {
                        assert(rest[j] == x);
                    }
                }
                if rest.contains(x) {
                    let j = choose|j: int| 0 <= j < rest.len() && rest[j] == x;
                    assert(rest.push(id)[j] == x);
                }
                if id == x {
                    assert(rest.push(id)[rest.len() as int] == x);
                }
            }
        }
        if id == x {
            assert(ms[ms.len() - 1].id == x);
        }
    }
}

/// Chat fan-out (no exclusion) reaches every member of the room that has a
/// live session, the sender included, and nobody outside the room.
pub proof fn lemma_chat_reaches_room_only(ms: Seq<ParticipantView>, sessions: Seq<SessionView>, x: Seq<char>)
    ensures
        has_member(ms, x) && has_session(sessions, x) ==> recipients(ms, sessions, None).contains(x),
        !has_member(ms, x) ==> !recipients(ms, sessions, None).contains(x),
{
    lemma_recipients_are(ms, sessions, None, x);
}

/// Audio fan-out excludes the sender: it never hears its own audio, while
/// every other member with a live session does.
pub proof fn lemma_audio_not_echoed(ms: Seq<ParticipantView>, sessions: Seq<SessionView>, sender: Seq<char>, x: Seq<char>)
    ensures
        !recipients(ms, sessions, Some(sender)).contains(sender),
        x != sender && has_member(ms, x) && has_session(sessions, x) ==> recipients(ms, sessions, Some(sender)).contains(x),
{
    lemma_recipients_are(ms, sessions, Some(sender), sender);
    lemma_recipients_are(ms, sessions, Some(sender), x);
}

/// `out` ends with the reply to `pid`, and `m` is that reply.
pub open spec fn replied(out: Seq<Outbound>, pid: Seq<char>) -> bool {
    out.len() > 0 && out.last().recipient@ == pid
}

pub open spec fn opt_view(o: Option<String>) -> Option<Seq<char>> {
    match o {
        Some(s) => Some(s@),
        None => None,
    }
}

pub open spec fn is_login_response(m: SignalingMessage, success: bool, participant_id: Option<Seq<char>>, error: Option<Seq<char>>) -> bool {
    m matches SignalingMessage::LoginResponse { success: s, participant_id: p, error: e } && s == success && opt_view(p)
        == participant_id && opt_view(e) == error
}

pub open spec fn is_error(m: SignalingMessage, text: Seq<char>) -> bool {
    m matches SignalingMessage::Error { message } && message@ == text
}

pub open spec fn room_info_matches(info: RoomInfo, r: RoomView) -> bool {
    &&& info.id@ == r.id
    &&& info.name@ == r.name
    &&& info.participants == r.members.len()
    &&& info.max_participants == r.max_participants
    &&& info.is_locked == r.is_locked
}

pub open spec fn participant_info_matches(info: ParticipantInfo, p: ParticipantView) -> bool {
    &&& info.id@ == p.id
    &&& info.username@ == p.username
    &&& info.audio_enabled == p.audio_enabled
    &&& info.video_enabled == p.video_enabled
}

/// The sessions that have logged in, in order of connection.
pub open spec fn logged_in(ss: Seq<SessionView>) -> Seq<SessionView>
    decreases ss.len(),
{
    if ss.len() == 0 {
        Seq::empty()
    } else {
        let rest = logged_in(ss.drop_last());
        if ss.last().username is Some {
            rest.push(ss.last())
        } else {
            rest
        }
    }
}

/// The listing entry of a logged-in session: its room and media flags when
/// it is in a room, otherwise no room, audio on and video off.
pub open spec fn user_info_matches(u: ServerUserInfo, sess: SessionView, rooms: Seq<RoomView>, now: u64) -> bool {
    &&& u.id@ == sess.participant_id
    &&& sess.username matches Some(n) && u.username@ == n
    &&& u.connected_at == now
    &&& if in_a_room(rooms, sess.participant_id) {
        let r = rooms[room_of(rooms, sess.participant_id)];
        let m = r.members[member_index(r.members, sess.participant_id)];
        &&& u.current_room matches Some(c) && c@ == r.name
        &&& u.audio_enabled == m.audio_enabled
        &&& u.video_enabled == m.video_enabled
    } else {
        &&& u.current_room is None
        &&& u.audio_enabled
        &&& !u.video_enabled
    }
}

/// The session at `i` with its user name set.
pub open spec fn with_username(ss: Seq<SessionView>, i: int, name: Seq<char>) -> Seq<SessionView> {
    ss.update(i, SessionView { username: Some(name), ..ss[i] })
}

/// `Login`: names the session and confirms with its participant id. When
/// the key exchange is required and has not happened, the login is refused
/// and nothing changes.
pub open spec fn login_outcome(s: ServerView, t: ServerView, i: int, username: Seq<char>, require_kx: bool, out: Seq<Outbound>) -> bool {
    let pid = s.sessions[i].participant_id;
    &&& out.len() == 1
    &&& replied(out, pid)
    &&& t.rooms == s.rooms
    &&& if require_kx && s.sessions[i].shared_secret is None {
        &&& t.sessions == s.sessions
        &&& is_login_response(out[0].message, false, None, Some("Key exchange required"@))
    } else {
        &&& t.sessions == with_username(s.sessions, i, username)
        &&& is_login_response(out[0].message, true, Some(pid), None)
    }
}

/// `m` answers a key exchange for `public_key`: it carries a ciphertext that
/// encapsulates `secret` to that key.
pub open spec fn kx_response_matches(m: SignalingMessage, public_key: Seq<u8>, secret: Option<Seq<u8>>) -> bool {
    match (m, secret) {
        (SignalingMessage::KeyExchangeResponse { ciphertext }, Some(ss)) => {
            &&& ciphertext@.len() == CIPHERTEXT_BYTES
            &&& ss.len() == SHARED_SECRET_BYTES
            &&& encapsulates_to(public_key, ciphertext@, ss)
        },
        _ => false,
    }
}

/// `KeyExchangeInit`: a public key of the right length gets a ciphertext
/// back and the session keeps the encapsulated secret; otherwise an error
/// reply, and nothing changes.
pub open spec fn key_exchange_outcome(s: ServerView, t: ServerView, i: int, public_key: Seq<u8>, out: Seq<Outbound>) -> bool {
    let pid = s.sessions[i].participant_id;
    &&& out.len() == 1
    &&& replied(out, pid)
    &&& t.rooms == s.rooms
    &&& if public_key.len() == crate::crypto::kyber::PUBLIC_KEY_BYTES {
        &&& t.sessions.len() == s.sessions.len()
        &&& forall|j: int| 0 <= j < s.sessions.len() && j != i ==> #[trigger] t.sessions[j] == s.sessions[j]
        &&& t.sessions[i].participant_id == pid
        &&& t.sessions[i].username == s.sessions[i].username
        &&& kx_response_matches(out[0].message, public_key, t.sessions[i].shared_secret)
    } else {
        &&& t.sessions == s.sessions
        &&& is_error(out[0].message, "Key exchange failed: Invalid public key length"@)
    }
}

/// `ListRooms`: one entry per room, in order of creation.
pub open spec fn list_rooms_outcome(s: ServerView, pid: Seq<char>, out: Seq<Outbound>) -> bool {
    &&& out.len() == 1
    &&& replied(out, pid)
    &&& out[0].message matches SignalingMessage::RoomList { rooms } && rooms@.len() == s.rooms.len() && forall|k: int|
        0 <= k < s.rooms.len() ==> room_info_matches(#[trigger] rooms@[k], s.rooms[k])
}

/// `ListServerUsers`: one entry per logged-in session, in order of
/// connection.
pub open spec fn list_users_outcome(s: ServerView, pid: Seq<char>, now: u64, out: Seq<Outbound>) -> bool {
    &&& out.len() == 1
    &&& replied(out, pid)
    &&& out[0].message matches SignalingMessage::ServerUserList { users } && users@.len() == logged_in(s.sessions).len()
        && forall|k: int|
        0 <= k < users@.len() ==> user_info_matches(#[trigger] users@[k], logged_in(s.sessions)[k], s.rooms, now)
}

pub open spec fn is_room_created(m: SignalingMessage, success: bool, room_id: Option<Seq<char>>, room_name: Option<Seq<char>>, error: Option<Seq<char>>) -> bool {
    m matches SignalingMessage::RoomCreated { success: s, room_id: i, room_name: n, error: e } && s == success
        && opt_view(i) == room_id && opt_view(n) == room_name && opt_view(e) == error
}

/// `CreateRoom`: adds an empty room under `fresh_id`, with the requested
/// capacity or 10. Refused only if `fresh_id` is already a room's id.
pub open spec fn create_room_outcome(s: ServerView, t: ServerView, pid: Seq<char>, name: Seq<char>, max_participants: Option<u32>, fresh_id: Seq<char>, now: u64, out: Seq<Outbound>) -> bool {
    let cap: u32 = match max_participants {
        Some(m) => m,
        None => 10,
    };
    &&& out.len() == 1
    &&& replied(out, pid)
    &&& t.sessions == s.sessions
    &&& if has_room(s.rooms, fresh_id) {
        &&& t.rooms == s.rooms
        &&& is_room_created(out[0].message, false, None, None, Some("Room could not be created"@))
    } else {
        &&& t.rooms == s.rooms.push(RoomView {
            id: fresh_id,
            name,
            created_at: now,
            max_participants: cap,
            is_locked: false,
            members: Seq::empty(),
        })
        &&& is_room_created(out[0].message, true, Some(fresh_id), Some(name), None)
    }
}

pub open spec fn is_room_joined_failure(m: SignalingMessage, error: Seq<char>) -> bool {
    m matches SignalingMessage::RoomJoined { success, room_id, room_name, participants, error: e } && !success
        && room_id is None && room_name is None && participants is None && opt_view(e) == Some(error)
}

pub open spec fn is_room_joined(m: SignalingMessage, r: RoomView) -> bool {
    m matches SignalingMessage::RoomJoined { success, room_id, room_name, participants, error } && success
        && opt_view(room_id) == Some(r.id) && opt_view(room_name) == Some(r.name) && error is None
        && participants is Some && participants->0@.len() == r.members.len() && forall|k: int|
        0 <= k < r.members.len() ==> participant_info_matches(#[trigger] participants->0@[k], r.members[k])
}

/// `JoinRoom`: the registry's join (leaving any current room first). On
/// success the room's other members hear of it, then the joiner gets the
/// room and its members; on failure the joiner gets the reason.
pub open spec fn join_room_outcome(s: ServerView, t: ServerView, pid: Seq<char>, room_id: Seq<char>, username: Seq<char>, now: u64, out: Seq<Outbound>) -> bool {
    let p = ParticipantView { id: pid, username, joined_at: now, audio_enabled: true, video_enabled: true };
    let joined = registry_join(s.rooms, room_id, p);
    &&& t.sessions == s.sessions
    &&& t.rooms == joined.0
    &&& replied(out, pid)
    &&& match joined.1 {
        Ok(_) => {
            let r = t.rooms[room_index(t.rooms, room_id)];
            &&& has_room(t.rooms, room_id)
            &&& fans_out(out.drop_last(), 0, recipients(r.members, s.sessions, Some(pid)), Event::ParticipantJoined { participant_id: pid, username })
            &&& is_room_joined(out.last().message, r)
        },
        Err(e) => {
            &&& out.len() == 1
            &&& is_room_joined_failure(out[0].message, crate::room::room_error_text(e))
        },
    }
}

pub open spec fn is_room_left(m: SignalingMessage, success: bool, error: Option<Seq<char>>) -> bool {
    m matches SignalingMessage::RoomLeft { success: s, error: e } && s == success && opt_view(e) == error
}

/// `LeaveRoom`: the remaining members hear of it, then the leaver gets a
/// confirmation; one in no room gets a failure.
pub open spec fn leave_room_outcome(s: ServerView, t: ServerView, pid: Seq<char>, out: Seq<Outbound>) -> bool {
    &&& t.sessions == s.sessions
    &&& t.rooms == registry_leave(s.rooms, pid).0
    &&& replied(out, pid)
    &&& if in_a_room(s.rooms, pid) {
        let r = t.rooms[room_index(t.rooms, s.rooms[room_of(s.rooms, pid)].id)];
        &&& fans_out(out.drop_last(), 0, recipients(r.members, s.sessions, Some(pid)), Event::ParticipantLeft { participant_id: pid })
        &&& is_room_left(out.last().message, true, None)
    } else {
        &&& out.len() == 1
        &&& is_room_left(out[0].message, false, Some("Participant not found"@))
    }
}

/// `ToggleAudio`/`ToggleVideo`: the flag is set in the sender's room, the
/// other members hear of it, and the sender gets the same notice; outside
/// a room only the notice to the sender.
pub open spec fn toggle_outcome(s: ServerView, t: ServerView, pid: Seq<char>, enabled: bool, video: bool, out: Seq<Outbound>) -> bool {
    let e = if video {
        Event::VideoToggled { participant_id: pid, enabled }
    } else {
        Event::AudioToggled { participant_id: pid, enabled }
    };
    &&& t.sessions == s.sessions
    &&& t.rooms == (if video {
        registry_set_video(s.rooms, pid, enabled).0
    } else {
        registry_set_audio(s.rooms, pid, enabled).0
    })
    &&& replied(out, pid)
    &&& carries(out.last().message, e)
    &&& if in_a_room(s.rooms, pid) {
        fans_out(out.drop_last(), 0, recipients(s.rooms[room_of(s.rooms, pid)].members, s.sessions, Some(pid)), e)
    } else {
        out.len() == 1
    }
}

/// `SendMessage`: every member of the sender's room, the sender included,
/// gets the message stamped with the sender's name (or "Unknown") and
/// `now`; the sender's own copy confirms delivery. A sender in no room gets
/// an error.
pub open spec fn chat_outcome(s: ServerView, t: ServerView, i: int, content: Seq<char>, now: u64, out: Seq<Outbound>) -> bool {
    let pid = s.sessions[i].participant_id;
    let name = match s.sessions[i].username {
        Some(n) => n,
        None => "Unknown"@,
    };
    &&& t == s
    &&& if in_a_room(s.rooms, pid) {
        fans_out(
            out,
            0,
            recipients(s.rooms[room_of(s.rooms, pid)].members, s.sessions, None),
            Event::MessageReceived { sender_id: pid, sender_username: name, content, timestamp: now },
        )
    } else {
        &&& out.len() == 1
        &&& replied(out, pid)
        &&& is_error(out[0].message, "Not in a room"@)
    }
}

/// `AudioData`: every other member of the sender's room gets the audio;
/// the sender never hears itself and gets no reply. A sender in no room
/// gets an error.
pub open spec fn audio_outcome(s: ServerView, t: ServerView, pid: Seq<char>, data: Seq<u8>, out: Seq<Outbound>) -> bool {
    &&& t == s
    &&& if in_a_room(s.rooms, pid) {
        fans_out(
            out,
            0,
            recipients(s.rooms[room_of(s.rooms, pid)].members, s.sessions, Some(pid)),
            Event::AudioDataReceived { sender_id: pid, data },
        )
    } else {
        &&& out.len() == 1
        &&& replied(out, pid)
        &&& is_error(out[0].message, "Not in a room"@)
    }
}

/// Handling `msg` from participant `pid`, given the time `now` and the id
/// `fresh_id` for a room it may create. A participant without a session
/// gets nothing and changes nothing; requests that the server does not
/// process get an error reply.
pub open spec fn handled(s: ServerView, t: ServerView, pid: Seq<char>, msg: SignalingMessage, now: u64, fresh_id: Seq<char>, require_kx: bool, out: Seq<Outbound>) -> bool {
    if !has_session(s.sessions, pid) {
        t == s && out.len() == 0
    } else {
        let i = session_index(s.sessions, pid);
        match msg {
            SignalingMessage::Login { username } => login_outcome(s, t, i, username@, require_kx, out),
            SignalingMessage::KeyExchangeInit { public_key } => key_exchange_outcome(s, t, i, public_key@, out),
            SignalingMessage::ListRooms => t == s && list_rooms_outcome(s, pid, out),
            SignalingMessage::ListServerUsers => t == s && list_users_outcome(s, pid, now, out),
            SignalingMessage::CreateRoom { name, max_participants } => create_room_outcome(
                s,
                t,
                pid,
                name@,
                max_participants,
                fresh_id,
                now,
                out,
            ),
            SignalingMessage::JoinRoom { room_id, username } => join_room_outcome(s, t, pid, room_id@, username@, now, out),
            SignalingMessage::LeaveRoom => leave_room_outcome(s, t, pid, out),
            SignalingMessage::ToggleAudio { enabled } => toggle_outcome(s, t, pid, enabled, false, out),
            SignalingMessage::ToggleVideo { enabled } => toggle_outcome(s, t, pid, enabled, true, out),
            SignalingMessage::SendMessage { content } => chat_outcome(s, t, i, content@, now, out),
            SignalingMessage::AudioData { data } => audio_outcome(s, t, pid, data@, out),
            _ => t == s && out.len() == 1 && replied(out, pid) && is_error(out[0].message, "Unsupported message type"@),
        }
    }
}

/// The sessions without that of `pid`.
pub open spec fn without_session(ss: Seq<SessionView>, pid: Seq<char>) -> Seq<SessionView> {
    if has_session(ss, pid) {
        ss.remove(session_index(ss, pid))
    } else {
        ss
    }
}

/// Registering a connection under `id`; refused when the id is live.
pub open spec fn connect_outcome(s: ServerView, t: ServerView, id: Seq<char>, r: bool) -> bool {
    if has_session(s.sessions, id) {
        !r && t == s
    } else {
        &&& r
        &&& t.rooms == s.rooms
        &&& t.sessions == s.sessions.push(SessionView { participant_id: id, username: None, shared_secret: None })
    }
}

/// Closing the connection of `pid`: its session goes, its former room-mates
/// hear that it left, and its membership is released.
pub open spec fn disconnect_outcome(s: ServerView, t: ServerView, pid: Seq<char>, out: Seq<Outbound>) -> bool {
    &&& t.sessions == without_session(s.sessions, pid)
    &&& t.rooms == registry_leave(s.rooms, pid).0
    &&& if in_a_room(s.rooms, pid) {
        fans_out(out, 0, recipients(s.rooms[room_of(s.rooms, pid)].members, t.sessions, Some(pid)), Event::ParticipantLeft { participant_id: pid })
    } else {
        out.len() == 0
    }
}

/// Handshake agreement: after `KeyExchangeInit` with a public key paired
/// with `sk`, the reply carries a ciphertext from which `sk` decapsulates
/// exactly the secret that the session stored.
pub proof fn lemma_handshake_agreement(s: ServerView, t: ServerView, pid: Seq<char>, public_key: Vec<u8>, sk: Seq<u8>, now: u64, fresh_id: Seq<char>, require_kx: bool, out: Seq<Outbound>)
    requires
        has_session(s.sessions, pid),
        public_key@.len() == PUBLIC_KEY_BYTES,
        kyber_pair(public_key@, sk),
        handled(s, t, pid, SignalingMessage::KeyExchangeInit { public_key }, now, fresh_id, require_kx, out),
    ensures
        out.len() == 1,
        replied(out, pid),
        match (out[0].message, t.sessions[session_index(s.sessions, pid)].shared_secret) {
            (SignalingMessage::KeyExchangeResponse { ciphertext }, Some(ss)) => kyber_decapsulated(ciphertext@, sk) == ss,
            _ => false,
        },
{
}

/// A failed key exchange leaves the connection usable: with login allowed
/// before the key exchange, a public key of the wrong length gets an error
/// and changes nothing, and a following `Login` succeeds.
pub proof fn lemma_login_after_failed_key_exchange(
    s: ServerView,
    t1: ServerView,
    t2: ServerView,
    pid: Seq<char>,
    key: Vec<u8>,
    username: String,
    now1: u64,
    fresh1: Seq<char>,
    now2: u64,
    fresh2: Seq<char>,
    out1: Seq<Outbound>,
    out2: Seq<Outbound>,
)
    requires
        has_session(s.sessions, pid),
        key@.len() != PUBLIC_KEY_BYTES,
        handled(s, t1, pid, SignalingMessage::KeyExchangeInit { public_key: key }, now1, fresh1, false, out1),
        handled(t1, t2, pid, SignalingMessage::Login { username }, now2, fresh2, false, out2),
    ensures
        out1.len() == 1,
        replied(out1, pid),
        is_error(out1[0].message, "Key exchange failed: Invalid public key length"@),
        t1 == s,
        out2.len() == 1,
        replied(out2, pid),
        is_login_response(out2[0].message, true, Some(pid), None),
        t2.sessions[session_index(s.sessions, pid)].username == Some(username@),
{
    assert(t1.sessions == s.sessions);
    assert(t1.rooms == s.rooms);
}

/// An exec description of an event, turned into one message per recipient.
enum Notice {
    Joined { participant_id: String, username: String },
    Left { participant_id: String },
    Audio { participant_id: String, enabled: bool },
    Video { participant_id: String, enabled: bool },
    Chat { sender_id: String, sender_username: String, content: String, timestamp: u64 },
    Voice { sender_id: String, data: Vec<u8> },
}

impl View for Notice {
    type V = Event;

    closed spec fn view(&self) -> Event {
        match self {
            Notice::Joined { participant_id, username } => Event::ParticipantJoined {
                participant_id: participant_id@,
                username: username@,
            },
            Notice::Left { participant_id } => Event::ParticipantLeft { participant_id: participant_id@ },
            Notice::Audio { participant_id, enabled } => Event::AudioToggled {
                participant_id: participant_id@,
                enabled: *enabled,
            },
            Notice::Video { participant_id, enabled } => Event::VideoToggled {
                participant_id: participant_id@,
                enabled: *enabled,
            },
            Notice::Chat { sender_id, sender_username, content, timestamp } => Event::MessageReceived {
                sender_id: sender_id@,
                sender_username: sender_username@,
                content: content@,
                timestamp: *timestamp,
            },
            Notice::Voice { sender_id, data } => Event::AudioDataReceived { sender_id: sender_id@, data: data@ },
        }
    }
}

impl Notice {
    fn to_message(&self) -> (m: SignalingMessage)
        ensures
            carries(m, self@),
    {
        match self {
            Notice::Joined { participant_id, username } => SignalingMessage::ParticipantJoined {
                participant_id: participant_id.clone(),
                username: username.clone(),
            },
            Notice::Left { participant_id } => SignalingMessage::ParticipantLeft { participant_id: participant_id.clone() },
            Notice::Audio { participant_id, enabled } => SignalingMessage::AudioToggled {
                participant_id: participant_id.clone(),
                enabled: *enabled,
            },
            Notice::Video { participant_id, enabled } => SignalingMessage::VideoToggled {
                participant_id: participant_id.clone(),
                enabled: *enabled,
            },
            Notice::Chat { sender_id, sender_username, content, timestamp } => SignalingMessage::MessageReceived {
                sender_id: sender_id.clone(),
                sender_username: sender_username.clone(),
                content: content.clone(),
                timestamp: *timestamp,
            },
            Notice::Voice { sender_id, data } => {
                let copy = data.clone();
                assert(copy@ =~= data@);
                SignalingMessage::AudioDataReceived { sender_id: sender_id.clone(), data: copy }
            },
        }
    }
}

/// Appends one message carrying `notice` for each recipient, in order.
fn fan_out(out: &mut Vec<Outbound>, to: &Vec<String>, notice: &Notice)
    ensures
        fans_out(final(out)@, old(out)@.len() as int, to@.map_values(|s: String| s@), notice@),
        forall|k: int| 0 <= k < old(out)@.len() ==> #[trigger] final(out)@[k] == old(out)@[k],
{
    let ghost start = out@.len() as int;
    let mut k: usize = 0;
    while k < to.len()
        invariant
            k <= to@.len(),
            out@.len() == start + k,
            start == old(out)@.len(),
            forall|j: int| 0 <= j < start ==> #[trigger] out@[j] == old(out)@[j],
            forall|j: int|
                0 <= j < k ==> (#[trigger] out@[start + j]).recipient@ == to@[j]@ && carries(
                    out@[start + j].message,
                    notice@,
                ),
        decreases to@.len() - k,
    {
        let message = notice.to_message();
        out.push(Outbound { recipient: to[k].clone(), message });
        k = k + 1;
    }
}

/// Shared server state.
pub struct SignalingServer {
    rooms: RoomManager,
    sessions: Vec<Session>,
    media_forwarder: MediaForwarder,
    require_key_exchange: bool,
}

impl View for SignalingServer {
    type V = ServerView;

    closed spec fn view(&self) -> ServerView {
        ServerView { rooms: self.rooms@, sessions: self.sessions@.map_values(|s: Session| s@) }
    }
}

impl SignalingServer {
    pub closed spec fn wf(&self) -> bool {
        &&& self.rooms.wf()
        &&& sessions_unique(self@.sessions)
    }

    /// Whether `Login` is refused until the key exchange has completed.
    pub closed spec fn requires_key_exchange(&self) -> bool {
        self.require_key_exchange
    }

    /// An empty server whose media forwarder uses the given ports. `Login`
    /// is accepted before the key exchange.
    pub fn new(audio_port: u16, video_port: u16) -> (r: Self)
        ensures
            r.wf(),
            r@.rooms.len() == 0,
            r@.sessions.len() == 0,
            !r.requires_key_exchange(),
    {
        SignalingServer::with_policy(audio_port, video_port, false)
    }

    /// An empty server; with `require_key_exchange`, `Login` is refused
    /// until the connection has completed the key exchange.
    pub fn with_policy(audio_port: u16, video_port: u16, require_key_exchange: bool) -> (r: Self)
        ensures
            r.wf(),
            r@.rooms.len() == 0,
            r@.sessions.len() == 0,
            r.requires_key_exchange() == require_key_exchange,
    {
        let r = SignalingServer {
            rooms: RoomManager::new(),
            sessions: Vec::new(),
            media_forwarder: MediaForwarder::new(audio_port, video_port),
            require_key_exchange,
        };
        assert(r@.sessions =~= Seq::<SessionView>::empty());
        r
    }

    /// The media forwarder that this server runs.
    pub closed spec fn forwarder(&self) -> MediaForwarder {
        self.media_forwarder
    }

    /// The media forwarder, to start or stop it; nothing else changes.
    pub fn media_forwarder(&mut self) -> (r: &mut MediaForwarder)
        ensures
            *r == old(self).forwarder(),
            final(self).forwarder() == *final(r),
            final(self)@ == old(self)@,
            final(self).wf() == old(self).wf(),
            final(self).requires_key_exchange() == old(self).requires_key_exchange(),
    {
        &mut self.media_forwarder
    }

    /// The room registry.
    pub fn rooms(&self) -> (r: &RoomManager)
        ensures
            r@ == self@.rooms,
            self.wf() ==> r.wf(),
    {
        &self.rooms
    }

    /// Position of the session of `pid`, if present.
    fn find_session(&self, pid: &str) -> (r: Option<usize>)
        requires
            self.wf(),
        ensures
            match r {
                Some(i) => i < self@.sessions.len() && has_session(self@.sessions, pid@) && session_index(
                    self@.sessions,
                    pid@,
                ) == i,
                None => !has_session(self@.sessions, pid@),
            },
    {
        let mut i: usize = 0;
        while i < self.sessions.len()
            invariant
                self.wf(),
                i <= self.sessions@.len(),
                self@.sessions.len() == self.sessions@.len(),
                forall|j: int| 0 <= j < i ==> (#[trigger] self@.sessions[j]).participant_id != pid@,
            decreases self.sessions@.len() - i,
        {
            assert(self@.sessions[i as int] == self.sessions@[i as int]@);
            if str_eq(self.sessions[i].participant_id.as_str(), pid) {
                proof {
                    assert(has_session(self@.sessions, pid@));
                    let c = session_index(self@.sessions, pid@);
                    assert(self@.sessions[c].participant_id == pid@);
                }
                return Some(i);
            }
            i = i + 1;
        }
        None
    }

    /// Ids of the members of `room` that get a broadcast (see `recipients`).
    fn recipients_of(&self, room: &Room, exclude: Option<&str>) -> (r: Vec<String>)
        requires
            self.wf(),
        ensures
            r@.map_values(|s: String| s@) == recipients(
                room@.members,
                self@.sessions,
                match exclude {
                    Some(x) => Some(x@),
                    None => None,
                },
            ),
    {
        let ghost ex = match exclude {
            Some(x) => Some(x@),
            None => None::<Seq<char>>,
        };
        let mut out: Vec<String> = Vec::new();
        let mut k: usize = 0;
        while k < room.participants.len()
            invariant
                self.wf(),
                k <= room.participants@.len(),
                ex == match exclude {
                    Some(x) => Some(x@),
                    None => None::<Seq<char>>,
                },
                out@.map_values(|s: String| s@) == recipients(room@.members.subrange(0, k as int), self@.sessions, ex),
            decreases room.participants@.len() - k,
        {
            let id = &room.participants[k].id;
            let ghost prefix = room@.members.subrange(0, k as int + 1);
            assert(prefix.drop_last() =~= room@.members.subrange(0, k as int));
            assert(prefix.last().id == id@);
            let ghost before = recipients(room@.members.subrange(0, k as int), self@.sessions, ex);
            assert(recipients(prefix, self@.sessions, ex) == (if has_session(self@.sessions, id@) && ex != Some(id@) {
                before.push(id@)
            } else {
                before
            }));
            let excluded = match exclude {
                Some(x) => str_eq(id.as_str(), x),
                None => false,
            };
            if !excluded && self.find_session(id.as_str()).is_some() {
                out.push(id.clone());
                assert(out@.map_values(|s: String| s@) =~= before.push(id@));
            }
            k = k + 1;
        }
        assert(room@.members.subrange(0, k as int) =~= room@.members);
        out
    }

    /// Appends the direct reply to `pid`.
    fn reply(out: &mut Vec<Outbound>, pid: &str, message: SignalingMessage)
        ensures
            final(out)@ == old(out)@.push(Outbound { recipient: final(out)@.last().recipient, message }),
            final(out)@.last().recipient@ == pid@,
    {
        out.push(Outbound { recipient: pid.to_string(), message });
    }

    fn login(&mut self, i: usize, username: String) -> (out: Vec<Outbound>)
        requires
            old(self).wf(),
            i < old(self)@.sessions.len(),
        ensures
            final(self).wf(),
            final(self).requires_key_exchange() == old(self).requires_key_exchange(),
            login_outcome(old(self)@, final(self)@, i as int, username@, old(self).requires_key_exchange(), out@),
    {
        let mut out: Vec<Outbound> = Vec::new();
        let pid = self.sessions[i].participant_id.clone();
        assert(self@.sessions[i as int] == self.sessions@[i as int]@);
        if self.require_key_exchange && self.sessions[i].shared_secret.is_none() {
            SignalingServer::reply(
                &mut out,
                pid.as_str(),
                SignalingMessage::LoginResponse {
                    success: false,
                    participant_id: None,
                    error: Some("Key exchange required".to_string()),
                },
            );
            return out;
        }
        let ghost name = username@;
        self.sessions[i].username = Some(username);
        assert(self@.sessions =~= with_username(old(self)@.sessions, i as int, name));
        proof {
            lemma_same_ids_unique(old(self)@.sessions, self@.sessions);
        }
        SignalingServer::reply(
            &mut out,
            pid.as_str(),
            SignalingMessage::LoginResponse { success: true, participant_id: Some(pid.clone()), error: None },
        );
        out
    }

    fn key_exchange_init(&mut self, i: usize, public_key: Vec<u8>) -> (out: Vec<Outbound>)
        requires
            old(self).wf(),
            i < old(self)@.sessions.len(),
        ensures
            final(self).wf(),
            final(self).requires_key_exchange() == old(self).requires_key_exchange(),
            key_exchange_outcome(old(self)@, final(self)@, i as int, public_key@, out@),
    {
        let mut out: Vec<Outbound> = Vec::new();
        let pid = self.sessions[i].participant_id.clone();
        assert(self@.sessions[i as int] == self.sessions@[i as int]@);
        match KyberKeyExchange::public_key_from_bytes(public_key.as_slice()) {
            Ok(pk) => {
                let (ciphertext, shared_secret) = KyberKeyExchange::encapsulate(&pk);
                self.sessions[i].shared_secret = Some(shared_secret);
                assert forall|j: int| 0 <= j < self@.sessions.len() && j != i implies #[trigger] self@.sessions[j]
                    == old(self)@.sessions[j] by {
                    assert(self.sessions@[j] == old(self).sessions@[j]);
                }
                assert(self@.sessions[i as int] == self.sessions@[i as int]@);
                proof {
                    lemma_same_ids_unique(old(self)@.sessions, self@.sessions);
                }
                SignalingServer::reply(&mut out, pid.as_str(), SignalingMessage::KeyExchangeResponse { ciphertext });
            },
            Err(_) => {
                SignalingServer::reply(
                    &mut out,
                    pid.as_str(),
                    SignalingMessage::Error { message: "Key exchange failed: Invalid public key length".to_string() },
                );
            },
        }
        out
    }

    fn list_rooms(&self, pid: &str) -> (out: Vec<Outbound>)
        requires
            self.wf(),
        ensures
            list_rooms_outcome(self@, pid@, out@),
    {
        let all = self.rooms.list_rooms();
        let mut infos: Vec<RoomInfo> = Vec::new();
        let mut k: usize = 0;
        while k < all.len()
            invariant
                self.wf(),
                k <= all@.len(),
                all@.map_values(|room: Room| room@) == self@.rooms,
                infos@.len() == k,
                forall|j: int| 0 <= j < k ==> room_info_matches(#[trigger] infos@[j], self@.rooms[j]),
            decreases all@.len() - k,
        {
            let room = &all[k];
            assert(self@.rooms[k as int] == room@);
            proof {
                crate::room::lemma_registry_room_wf(self@.rooms, k as int);
            }
            infos.push(
                RoomInfo {
                    id: room.id.clone(),
                    name: room.name.clone(),
                    participants: room.participant_count() as u32,
                    max_participants: room.max_participants,
                    is_locked: room.is_locked,
                },
            );
            k = k + 1;
        }
        let mut out: Vec<Outbound> = Vec::new();
        SignalingServer::reply(&mut out, pid, SignalingMessage::RoomList { rooms: infos });
        out
    }

    fn list_server_users(&self, pid: &str, now: u64) -> (out: Vec<Outbound>)
        requires
            self.wf(),
        ensures
            list_users_outcome(self@, pid@, now, out@),
    {
        let mut users: Vec<ServerUserInfo> = Vec::new();
        let mut k: usize = 0;
        while k < self.sessions.len()
            invariant
                self.wf(),
                k <= self.sessions@.len(),
                self@.sessions.len() == self.sessions@.len(),
                users@.len() == logged_in(self@.sessions.subrange(0, k as int)).len(),
                forall|j: int|
                    0 <= j < users@.len() ==> user_info_matches(
                        #[trigger] users@[j],
                        logged_in(self@.sessions.subrange(0, k as int))[j],
                        self@.rooms,
                        now,
                    ),
            decreases self.sessions@.len() - k,
        {
            let sess = &self.sessions[k];
            let ghost prefix = self@.sessions.subrange(0, k as int + 1);
            assert(prefix.drop_last() =~= self@.sessions.subrange(0, k as int));
            assert(prefix.last() == sess@);
            match &sess.username {
                Some(name) => {
                    let id = sess.participant_id.as_str();
                    let (current_room, audio_enabled, video_enabled) = match self.rooms.get_participant_room(id) {
                        Some(room) => {
                            match room.get_participant(id) {
                                Some(p) => (Some(room.name.clone()), p.audio_enabled, p.video_enabled),
                                None => (Some(room.name.clone()), true, false),
                            }
                        },
                        None => (None, true, false),
                    };
                    users.push(
                        ServerUserInfo {
                            id: sess.participant_id.clone(),
                            username: name.clone(),
                            connected_at: now,
                            current_room,
                            audio_enabled,
                            video_enabled,
                        },
                    );
                },
                None => {},
            }
            k = k + 1;
        }
        assert(self@.sessions.subrange(0, k as int) =~= self@.sessions);
        let mut out: Vec<Outbound> = Vec::new();
        SignalingServer::reply(&mut out, pid, SignalingMessage::ServerUserList { users });
        out
    }

    fn create_room(&mut self, pid: &str, name: String, max_participants: Option<u32>, fresh_id: String, now: u64) -> (out: Vec<Outbound>)
        requires
            old(self).wf(),
        ensures
            final(self).wf(),
            final(self).requires_key_exchange() == old(self).requires_key_exchange(),
            create_room_outcome(old(self)@, final(self)@, pid@, name@, max_participants, fresh_id@, now, out@),
    {
        let cap = match max_participants {
            Some(m) => m,
            None => crate::config::default_max_participants(),
        };
        let mut out: Vec<Outbound> = Vec::new();
        let room_name = name.clone();
        let room_id = fresh_id.clone();
        if self.rooms.create_room_with_id(fresh_id, name, cap, now) {
            SignalingServer::reply(
                &mut out,
                pid,
                SignalingMessage::RoomCreated {
                    success: true,
                    room_id: Some(room_id),
                    room_name: Some(room_name),
                    error: None,
                },
            );
        } else {
            SignalingServer::reply(
                &mut out,
                pid,
                SignalingMessage::RoomCreated {
                    success: false,
                    room_id: None,
                    room_name: None,
                    error: Some("Room could not be created".to_string()),
                },
            );
        }
        out
    }

    fn room_joined(room: &Room) -> (m: SignalingMessage)
        ensures
            is_room_joined(m, room@),
    {
        let mut infos: Vec<ParticipantInfo> = Vec::new();
        let mut k: usize = 0;
        while k < room.participants.len()
            invariant
                k <= room.participants@.len(),
                infos@.len() == k,
                forall|j: int| 0 <= j < k ==> participant_info_matches(#[trigger] infos@[j], room@.members[j]),
            decreases room.participants@.len() - k,
        {
            let p = &room.participants[k];
            infos.push(
                ParticipantInfo {
                    id: p.id.clone(),
                    username: p.username.clone(),
                    audio_enabled: p.audio_enabled,
                    video_enabled: p.video_enabled,
                },
            );
            k = k + 1;
        }
        SignalingMessage::RoomJoined {
            success: true,
            room_id: Some(room.id.clone()),
            room_name: Some(room.name.clone()),
            participants: Some(infos),
            error: None,
        }
    }

    fn join_room(&mut self, pid: &str, room_id: &str, username: String, now: u64) -> (out: Vec<Outbound>)
        requires
            old(self).wf(),
        ensures
            final(self).wf(),
            final(self).requires_key_exchange() == old(self).requires_key_exchange(),
            join_room_outcome(old(self)@, final(self)@, pid@, room_id@, username@, now, out@),
    {
        let mut out: Vec<Outbound> = Vec::new();
        let participant = Participant::new_at(pid.to_string(), username.clone(), now);
        let ghost pv = participant@;
        let ghost left = registry_leave(old(self)@.rooms, pid@).0;
        match self.rooms.join_room(room_id, participant) {
            Ok(()) => {
                proof {
                    crate::room::lemma_leave_keeps_ids(old(self)@.rooms, pid@);
                    let i = room_index(left, room_id@);
                    assert(left[i].id == room_id@);
                    assert(self@.rooms[i].id == room_id@);
                }
                match self.rooms.get_room(room_id) {
                    Some(room) => {
                        let to = self.recipients_of(room, Some(pid));
                        let notice = Notice::Joined { participant_id: pid.to_string(), username };
                        fan_out(&mut out, &to, &notice);
                        let ghost before = out@;
                        SignalingServer::reply(&mut out, pid, SignalingServer::room_joined(room));
                        assert(out@.drop_last() =~= before);
                    },
                    None => {},
                }
            },
            Err(e) => {
                SignalingServer::reply(
                    &mut out,
                    pid,
                    SignalingMessage::RoomJoined {
                        success: false,
                        room_id: None,
                        room_name: None,
                        participants: None,
                        error: Some(e.message()),
                    },
                );
            },
        }
        out
    }

    fn leave_room(&mut self, pid: &str) -> (out: Vec<Outbound>)
        requires
            old(self).wf(),
        ensures
            final(self).wf(),
            final(self).requires_key_exchange() == old(self).requires_key_exchange(),
            leave_room_outcome(old(self)@, final(self)@, pid@, out@),
    {
        let mut out: Vec<Outbound> = Vec::new();
        let former = match self.rooms.get_participant_room(pid) {
            Some(room) => Some(room.id.clone()),
            None => None,
        };
        match self.rooms.leave_room(pid) {
            Ok(()) => {
                proof {
                    crate::room::lemma_leave_keeps_ids(old(self)@.rooms, pid@);
                    let i = room_of(old(self)@.rooms, pid@);
                    assert(self@.rooms[i].id == old(self)@.rooms[i].id);
                }
                match former {
                    Some(rid) => {
                        match self.rooms.get_room(rid.as_str()) {
                            Some(room) => {
                                let to = self.recipients_of(room, Some(pid));
                                let notice = Notice::Left { participant_id: pid.to_string() };
                                fan_out(&mut out, &to, &notice);
                            },
                            None => {},
                        }
                    },
                    None => {},
                }
                let ghost before = out@;
                SignalingServer::reply(&mut out, pid, SignalingMessage::RoomLeft { success: true, error: None });
                assert(out@.drop_last() =~= before);
            },
            Err(e) => {
                SignalingServer::reply(
                    &mut out,
                    pid,
                    SignalingMessage::RoomLeft { success: false, error: Some(e.message()) },
                );
            },
        }
        out
    }

    fn toggle(&mut self, pid: &str, enabled: bool, video: bool) -> (out: Vec<Outbound>)
        requires
            old(self).wf(),
        ensures
            final(self).wf(),
            final(self).requires_key_exchange() == old(self).requires_key_exchange(),
            toggle_outcome(old(self)@, final(self)@, pid@, enabled, video, out@),
    {
        let mut out: Vec<Outbound> = Vec::new();
        let to = match self.rooms.get_participant_room(pid) {
            Some(room) => Some(self.recipients_of(room, Some(pid))),
            None => None,
        };
        let notice = if video {
            let _ = self.rooms.set_participant_video(pid, enabled);
            Notice::Video { participant_id: pid.to_string(), enabled }
        } else {
            let _ = self.rooms.set_participant_audio(pid, enabled);
            Notice::Audio { participant_id: pid.to_string(), enabled }
        };
        match to {
            Some(to) => fan_out(&mut out, &to, &notice),
            None => {},
        }
        let ghost before = out@;
        SignalingServer::reply(&mut out, pid, notice.to_message());
        assert(out@.drop_last() =~= before);
        out
    }

    fn send_chat(&self, i: usize, content: String, now: u64) -> (out: Vec<Outbound>)
        requires
            self.wf(),
            i < self@.sessions.len(),
        ensures
            chat_outcome(self@, self@, i as int, content@, now, out@),
    {
        let mut out: Vec<Outbound> = Vec::new();
        let sess = &self.sessions[i];
        assert(self@.sessions[i as int] == sess@);
        let pid = sess.participant_id.as_str();
        let sender_username = match &sess.username {
            Some(n) => n.clone(),
            None => "Unknown".to_string(),
        };
        match self.rooms.get_participant_room(pid) {
            Some(room) => {
                let to = self.recipients_of(room, None);
                let notice = Notice::Chat { sender_id: pid.to_string(), sender_username, content, timestamp: now };
                fan_out(&mut out, &to, &notice);
            },
            None => {
                SignalingServer::reply(&mut out, pid, SignalingMessage::Error { message: "Not in a room".to_string() });
            },
        }
        out
    }

    fn relay_audio(&self, pid: &str, data: Vec<u8>) -> (out: Vec<Outbound>)
        requires
            self.wf(),
        ensures
            audio_outcome(self@, self@, pid@, data@, out@),
    {
        let mut out: Vec<Outbound> = Vec::new();
        match self.rooms.get_participant_room(pid) {
            Some(room) => {
                let to = self.recipients_of(room, Some(pid));
                let notice = Notice::Voice { sender_id: pid.to_string(), data };
                fan_out(&mut out, &to, &notice);
            },
            None => {
                SignalingServer::reply(&mut out, pid, SignalingMessage::Error { message: "Not in a room".to_string() });
            },
        }
        out
    }

    /// Handles one request from participant `pid`, given the time `now`
    /// (seconds since the epoch) and the id for a room it may create.
    /// Returns the messages to deliver, in order.
    pub fn handle_message_at(&mut self, pid: &str, message: SignalingMessage, now: u64, fresh_room_id: String) -> (out: Vec<Outbound>)
        requires
            old(self).wf(),
        ensures
            final(self).wf(),
            final(self).requires_key_exchange() == old(self).requires_key_exchange(),
            handled(old(self)@, final(self)@, pid@, message, now, fresh_room_id@, old(self).requires_key_exchange(), out@),
    {
        let i = match self.find_session(pid) {
            Some(i) => i,
            None => {
                return Vec::new();
            },
        };
        assert(self@.sessions[i as int].participant_id == pid@);
        match message {
            SignalingMessage::Login { username } => self.login(i, username),
            SignalingMessage::KeyExchangeInit { public_key } => self.key_exchange_init(i, public_key),
            SignalingMessage::ListRooms => self.list_rooms(pid),
            SignalingMessage::ListServerUsers => self.list_server_users(pid, now),
            SignalingMessage::CreateRoom { name, max_participants } => self.create_room(
                pid,
                name,
                max_participants,
                fresh_room_id,
                now,
            ),
            SignalingMessage::JoinRoom { room_id, username } => self.join_room(pid, room_id.as_str(), username, now),
            SignalingMessage::LeaveRoom => self.leave_room(pid),
            SignalingMessage::ToggleAudio { enabled } => self.toggle(pid, enabled, false),
            SignalingMessage::ToggleVideo { enabled } => self.toggle(pid, enabled, true),
            SignalingMessage::SendMessage { content } => self.send_chat(i, content, now),
            SignalingMessage::AudioData { data } => self.relay_audio(pid, data),
            _ => {
                let mut out: Vec<Outbound> = Vec::new();
                SignalingServer::reply(
                    &mut out,
                    pid,
                    SignalingMessage::Error { message: "Unsupported message type".to_string() },
                );
                out
            },
        }
    }

    /// Handles one request from participant `pid` at the current time,
    /// drawing a random id for a room it may create.
    pub fn handle_message(&mut self, pid: &str, message: SignalingMessage) -> (out: Vec<Outbound>)
        requires
            old(self).wf(),
        ensures
            final(self).wf(),
            final(self).requires_key_exchange() == old(self).requires_key_exchange(),
            exists|now: u64, fresh_id: Seq<char>|
                #[trigger] handled(old(self)@, final(self)@, pid@, message, now, fresh_id, old(self).requires_key_exchange(), out@),
    {
        let now = unix_time_secs();
        let fresh_room_id = fresh_uuid();
        let ghost m = message;
        let ghost fid = fresh_room_id@;
        let out = self.handle_message_at(pid, message, now, fresh_room_id);
        assert(handled(old(self)@, self@, pid@, m, now, fid, old(self).requires_key_exchange(), out@));
        out
    }

    /// Registers a connection under `participant_id`; refused (false) when
    /// that id already has a session.
    pub fn connect_with_id(&mut self, participant_id: String) -> (r: bool)
        requires
            old(self).wf(),
        ensures
            final(self).wf(),
            final(self).requires_key_exchange() == old(self).requires_key_exchange(),
            connect_outcome(old(self)@, final(self)@, participant_id@, r),
    {
        if self.find_session(participant_id.as_str()).is_some() {
            return false;
        }
        let session = Session { participant_id, username: None, shared_secret: None };
        let ghost sv = session@;
        self.sessions.push(session);
        assert(self@.sessions =~= old(self)@.sessions.push(sv));
        assert forall|x: int, y: int|
            0 <= x < self@.sessions.len() && 0 <= y < self@.sessions.len() && x != y implies #[trigger] self@.sessions[x].participant_id
            != #[trigger] self@.sessions[y].participant_id by {
            if x == old(self)@.sessions.len() as int {
                assert(old(self)@.sessions[y].participant_id != sv.participant_id);
            } else if y == old(self)@.sessions.len() as int {
                assert(old(self)@.sessions[x].participant_id != sv.participant_id);
            }
        }
        true
    }

    /// Registers a new connection under a fresh random participant id and
    /// returns it. It fails (`None`, nothing changed) only when the drawn
    /// 36-character id is already live, which needs such a session.
    pub fn connect(&mut self) -> (r: Option<String>)
        requires
            old(self).wf(),
        ensures
            final(self).wf(),
            final(self).requires_key_exchange() == old(self).requires_key_exchange(),
            match r {
                Some(id) => connect_outcome(old(self)@, final(self)@, id@, true),
                None => final(self)@ == old(self)@ && exists|i: int|
                    0 <= i < old(self)@.sessions.len() && (#[trigger] old(self)@.sessions[i]).participant_id.len() == 36,
            },
    {
        let id = fresh_uuid();
        if self.connect_with_id(id.clone()) {
            Some(id)
        } else {
            assert(old(self)@.sessions[session_index(old(self)@.sessions, id@)].participant_id.len() == 36);
            None
        }
    }

    /// Closes the connection of `pid`: drops its session, tells its former
    /// room-mates that it left, and releases its membership.
    pub fn disconnect(&mut self, pid: &str) -> (out: Vec<Outbound>)
        requires
            old(self).wf(),
        ensures
            final(self).wf(),
            final(self).requires_key_exchange() == old(self).requires_key_exchange(),
            disconnect_outcome(old(self)@, final(self)@, pid@, out@),
    {
        match self.find_session(pid) {
            Some(i) => {
                let _ = self.sessions.remove(i);
                let ghost t = old(self)@.sessions.remove(i as int);
                assert(self@.sessions =~= t);
                assert forall|x: int, y: int|
                    0 <= x < t.len() && 0 <= y < t.len() && x != y implies #[trigger] t[x].participant_id
                    != #[trigger] t[y].participant_id by {
                    let x1 = if x < i { x } else { x + 1 };
                    let y1 = if y < i { y } else { y + 1 };
                    assert(old(self)@.sessions[x1].participant_id != old(self)@.sessions[y1].participant_id);
                }
            },
            None => {},
        }
        let mut out: Vec<Outbound> = Vec::new();
        match self.rooms.get_participant_room(pid) {
            Some(room) => {
                let to = self.recipients_of(room, Some(pid));
                let notice = Notice::Left { participant_id: pid.to_string() };
                fan_out(&mut out, &to, &notice);
            },
            None => {},
        }
        let _ = self.rooms.leave_room(pid);
        out
    }

    /// Handles one inbound frame whose payload decoded to `decoded`, or
    /// failed to decode (`None`). Returns the messages to deliver and
    /// whether the connection stays open: a request is handled and the
    /// connection stays; an undecodable frame gets a best-effort error
    /// notice and closes the connection.
    pub fn handle_frame(&mut self, pid: &str, decoded: Option<SignalingMessage>) -> (r: (Vec<Outbound>, bool))
        requires
            old(self).wf(),
        ensures
            final(self).wf(),
            final(self).requires_key_exchange() == old(self).requires_key_exchange(),
            match decoded {
                Some(m) => r.1 && exists|now: u64, fresh_id: Seq<char>|
                    #[trigger] handled(old(self)@, final(self)@, pid@, m, now, fresh_id, old(self).requires_key_exchange(), r.0@),
                None => {
                    &&& !r.1
                    &&& final(self)@ == old(self)@
                    &&& has_session(old(self)@.sessions, pid@) ==> r.0@.len() == 1 && replied(r.0@, pid@) && is_error(
                        r.0@[0].message,
                        "Invalid message format"@,
                    )
                    &&& !has_session(old(self)@.sessions, pid@) ==> r.0@.len() == 0
                },
            },
    {
        match decoded {
            Some(m) => (self.handle_message(pid, m), true),
            None => {
                let mut out: Vec<Outbound> = Vec::new();
                if self.find_session(pid).is_some() {
                    SignalingServer::reply(
                        &mut out,
                        pid,
                        SignalingMessage::Error { message: "Invalid message format".to_string() },
                    );
                }
                (out, false)
            },
        }
    }
}

} // verus!
