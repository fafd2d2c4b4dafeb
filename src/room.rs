//! Rooms and the room registry.
//!
//! Membership is recorded once, in the rooms themselves; the room that a
//! participant is in is derived from it. The registry keeps, as its
//! well-formedness invariant, that no room holds more participants than its
//! capacity and that no participant is a member of two rooms.

use vstd::prelude::*;

use crate::ids::fresh_uuid;
use crate::text::str_eq;
use crate::time::unix_time_secs;

verus! {

/// Abstract state of a participant.
pub struct ParticipantView {
    pub id: Seq<char>,
    pub username: Seq<char>,
    pub joined_at: u64,
    pub audio_enabled: bool,
    pub video_enabled: bool,
}

/// Abstract state of a room.
pub struct RoomView {
    pub id: Seq<char>,
    pub name: Seq<char>,
    pub created_at: u64,
    pub max_participants: u32,
    pub is_locked: bool,
    pub members: Seq<ParticipantView>,
}

/// Room-related errors.
#[derive(Debug, Clone, Copy, PartialEq, Eq, Structural)]
pub enum RoomError {
    RoomFull,
    RoomLocked,
    RoomNotFound,
    ParticipantNotFound,
    AlreadyInRoom,
}

/// The description of each error shown to clients.
pub open spec fn room_error_text(e: RoomError) -> Seq<char> {
    match e {
        RoomError::RoomFull => "Room is full"@,
        RoomError::RoomLocked => "Room is locked"@,
        RoomError::RoomNotFound => "Room not found"@,
        RoomError::ParticipantNotFound => "Participant not found"@,
        RoomError::AlreadyInRoom => "Already in a room"@,
    }
}

impl RoomError {
    /// Human-readable description, as shown to clients.
    pub fn message(&self) -> (r: String)
        ensures
            r@ == room_error_text(*self),
    {
        match self {
            RoomError::RoomFull => "Room is full".to_string(),
            RoomError::RoomLocked => "Room is locked".to_string(),
            RoomError::RoomNotFound => "Room not found".to_string(),
            RoomError::ParticipantNotFound => "Participant not found".to_string(),
            RoomError::AlreadyInRoom => "Already in a room".to_string(),
        }
    }
}

/// No two members share an id.
pub open spec fn ids_unique(ms: Seq<ParticipantView>) -> bool {
    forall|i: int, j: int|
        0 <= i < ms.len() && 0 <= j < ms.len() && i != j ==> #[trigger] ms[i].id != #[trigger] ms[j].id
}

pub open spec fn has_member(ms: Seq<ParticipantView>, pid: Seq<char>) -> bool {
    exists|k: int| 0 <= k < ms.len() && ms[k].id == pid
}

/// Position of the member with id `pid` (meaningful when there is one).
pub open spec fn member_index(ms: Seq<ParticipantView>, pid: Seq<char>) -> int {
    choose|k: int| 0 <= k < ms.len() && ms[k].id == pid
}

/// The members without `pid`.
pub open spec fn without_member(ms: Seq<ParticipantView>, pid: Seq<char>) -> Seq<ParticipantView> {
    if has_member(ms, pid) {
        ms.remove(member_index(ms, pid))
    } else {
        ms
    }
}

/// The members with `p` inserted, replacing a member of the same id.
pub open spec fn with_member(ms: Seq<ParticipantView>, p: ParticipantView) -> Seq<ParticipantView> {
    if has_member(ms, p.id) {
        ms.update(member_index(ms, p.id), p)
    } else {
        ms.push(p)
    }
}

/// A room's invariant: unique member ids and no more members than capacity.
pub open spec fn room_wf(r: RoomView) -> bool {
    &&& ids_unique(r.members)
    &&& r.members.len() <= r.max_participants
}

/// Outcome of adding `p` to `r`: a locked room refuses, then a full one.
pub open spec fn room_add(r: RoomView, p: ParticipantView) -> (RoomView, Result<(), RoomError>) {
    if r.is_locked {
        (r, Err(RoomError::RoomLocked))
    } else if r.members.len() >= r.max_participants {
        (r, Err(RoomError::RoomFull))
    } else {
        (RoomView { members: with_member(r.members, p), ..r }, Ok(()))
    }
}

/// `r` with the audio flag of member `pid` set.
pub open spec fn room_set_audio(r: RoomView, pid: Seq<char>, enabled: bool) -> RoomView {
    if has_member(r.members, pid) {
        let k = member_index(r.members, pid);
        RoomView { members: r.members.update(k, ParticipantView { audio_enabled: enabled, ..r.members[k] }), ..r }
    } else {
        r
    }
}

/// `r` with the video flag of member `pid` set.
pub open spec fn room_set_video(r: RoomView, pid: Seq<char>, enabled: bool) -> RoomView {
    if has_member(r.members, pid) {
        let k = member_index(r.members, pid);
        RoomView { members: r.members.update(k, ParticipantView { video_enabled: enabled, ..r.members[k] }), ..r }
    } else {
        r
    }
}

/// With unique ids, the member found at `k` is the one `member_index` names.
proof fn lemma_member_index_unique(ms: Seq<ParticipantView>, pid: Seq<char>, k: int)
    requires
        ids_unique(ms),
        0 <= k < ms.len(),
        ms[k].id == pid,
    ensures
        has_member(ms, pid),
        member_index(ms, pid) == k,
{
    assert(has_member(ms, pid));
    let c = member_index(ms, pid);
    assert(ms[c].id == pid);
}

/// Represents a participant in a room.
#[derive(Debug, Clone)]
pub struct Participant {
    pub id: String,
    pub username: String,
    /// Seconds since the Unix epoch.
    pub joined_at: u64,
    pub audio_enabled: bool,
    pub video_enabled: bool,
}

impl View for Participant {
    type V = ParticipantView;

    open spec fn view(&self) -> ParticipantView {
        ParticipantView {
            id: self.id@,
            username: self.username@,
            joined_at: self.joined_at,
            audio_enabled: self.audio_enabled,
            video_enabled: self.video_enabled,
        }
    }
}

impl Participant {
    /// A participant joining now, with audio and video enabled.
    pub fn new(id: String, username: String) -> (r: Participant)
        ensures
            r.id@ == id@,
            r.username@ == username@,
            r.audio_enabled,
            r.video_enabled,
    {
        let now = unix_time_secs();
        Participant::new_at(id, username, now)
    }

    /// A participant that joined at `joined_at` (seconds since the epoch).
    pub fn new_at(id: String, username: String, joined_at: u64) -> (r: Participant)
        ensures
            r@ == (ParticipantView { id: id@, username: username@, joined_at, audio_enabled: true, video_enabled: true }),
    {
        Participant { id, username, joined_at, audio_enabled: true, video_enabled: true }
    }

    /// A copy with the same state.
    pub fn duplicate(&self) -> (r: Participant)
        ensures
            r@ == self@,
    {
        Participant {
            id: self.id.clone(),
            username: self.username.clone(),
            joined_at: self.joined_at,
            audio_enabled: self.audio_enabled,
            video_enabled: self.video_enabled,
        }
    }
}

/// Represents a chat room.
pub struct Room {
    pub id: String,
    pub name: String,
    /// Seconds since the Unix epoch.
    pub created_at: u64,
    pub max_participants: u32,
    pub is_locked: bool,
    /// Members in order of joining; see `Room::wf` for what they must satisfy.
    pub participants: Vec<Participant>,
}

impl View for Room {
    type V = RoomView;

    open spec fn view(&self) -> RoomView {
        RoomView {
            id: self.id@,
            name: self.name@,
            created_at: self.created_at,
            max_participants: self.max_participants,
            is_locked: self.is_locked,
            members: self.members(),
        }
    }
}

impl Room {
    /// The members, in order of joining.
    pub open spec fn members(&self) -> Seq<ParticipantView> {
        self.participants@.map_values(|p: Participant| p@)
    }

    pub open spec fn wf(&self) -> bool {
        room_wf(self@)
    }

    /// An empty, unlocked room with a fresh random id, created now.
    pub fn new(name: String, max_participants: u32) -> (r: Room)
        ensures
            r.wf(),
            r.id@.len() == 36,
            r.name@ == name@,
            r.max_participants == max_participants,
            !r.is_locked,
            r@.members.len() == 0,
    {
        let id = fresh_uuid();
        let now = unix_time_secs();
        Room::with_id(id, name, max_participants, now)
    }

    /// An empty, unlocked room with the given id and creation time.
    pub fn with_id(id: String, name: String, max_participants: u32, created_at: u64) -> (r: Room)
        ensures
            r.wf(),
            r@ == (RoomView {
                id: id@,
                name: name@,
                created_at,
                max_participants,
                is_locked: false,
                members: Seq::empty(),
            }),
    {
        let r = Room { id, name, created_at, max_participants, is_locked: false, participants: Vec::new() };
        assert(r.members() =~= Seq::<ParticipantView>::empty());
        r
    }

    /// Position of member `pid`, if present.
    pub(crate) fn find(&self, pid: &str) -> (r: Option<usize>)
        requires
            self.wf(),
        ensures
            match r {
                Some(k) => k < self@.members.len() && self@.members[k as int].id == pid@
                    && has_member(self@.members, pid@) && member_index(self@.members, pid@) == k,
                None => !has_member(self@.members, pid@),
            },
    {
        let mut k: usize = 0;
        while k < self.participants.len()
            invariant
                self.wf(),
                k <= self.participants@.len(),
                forall|j: int| 0 <= j < k ==> (#[trigger] self@.members[j]).id != pid@,
            decreases self.participants@.len() - k,
        {
            if str_eq(self.participants[k].id.as_str(), pid) {
                proof {
                    lemma_member_index_unique(self@.members, pid@, k as int);
                }
                return Some(k);
            }
            k = k + 1;
        }
        None
    }

    /// Adds a participant; a locked room refuses, then a full one. A member
    /// with the same id is replaced.
    pub fn add_participant(&mut self, participant: Participant) -> (r: Result<(), RoomError>)
        requires
            old(self).wf(),
        ensures
            final(self).wf(),
            (final(self)@, r) == room_add(old(self)@, participant@),
    {
        if self.is_locked {
            return Err(RoomError::RoomLocked);
        }
        if self.participants.len() >= self.max_participants as usize {
            return Err(RoomError::RoomFull);
        }
        let ghost pv = participant@;
        match self.find(participant.id.as_str()) {
            Some(k) => {
                self.participants.set(k, participant);
                assert(self.members() =~= old(self).members().update(k as int, pv));
            },
            None => {
                self.participants.push(participant);
                assert(self.members() =~= old(self).members().push(pv));
            },
        }
        Ok(())
    }

    /// Removes and returns member `pid`, if present.
    pub fn remove_participant(&mut self, participant_id: &str) -> (r: Option<Participant>)
        requires
            old(self).wf(),
        ensures
            final(self).wf(),
            final(self)@ == (RoomView { members: without_member(old(self)@.members, participant_id@), ..old(self)@ }),
            r.is_some() == has_member(old(self)@.members, participant_id@),
            r matches Some(p) ==> p@ == old(self)@.members[member_index(old(self)@.members, participant_id@)],
    {
        match self.find(participant_id) {
            Some(k) => {
                let p = self.participants.remove(k);
                assert(self.members() =~= old(self).members().remove(k as int));
                Some(p)
            },
            None => None,
        }
    }

    /// A copy of member `pid`, if present.
    pub fn get_participant(&self, participant_id: &str) -> (r: Option<Participant>)
        requires
            self.wf(),
        ensures
            r.is_some() == has_member(self@.members, participant_id@),
            r matches Some(p) ==> p@ == self@.members[member_index(self@.members, participant_id@)],
    {
        match self.find(participant_id) {
            Some(k) => Some(self.participants[k].duplicate()),
            None => None,
        }
    }

    /// Ids of all members, in order of joining.
    pub fn get_participant_ids(&self) -> (r: Vec<String>)
        ensures
            r@.len() == self@.members.len(),
            forall|k: int| 0 <= k < r@.len() ==> (#[trigger] r@[k])@ == self@.members[k].id,
    {
        let mut ids: Vec<String> = Vec::new();
        let mut k: usize = 0;
        while k < self.participants.len()
            invariant
                k <= self.participants@.len(),
                ids@.len() == k,
                forall|j: int| 0 <= j < k ==> (#[trigger] ids@[j])@ == self@.members[j].id,
            decreases self.participants@.len() - k,
        {
            ids.push(self.participants[k].id.clone());
            k = k + 1;
        }
        ids
    }

    /// Number of members.
    pub fn participant_count(&self) -> (r: usize)
        ensures
            r == self@.members.len(),
    {
        self.participants.len()
    }

    /// Copies of all members, in order of joining.
    pub fn get_participants(&self) -> (r: Vec<Participant>)
        ensures
            r@.map_values(|p: Participant| p@) == self@.members,
    {
        let mut all: Vec<Participant> = Vec::new();
        let mut k: usize = 0;
        while k < self.participants.len()
            invariant
                k <= self.participants@.len(),
                all@.len() == k,
                forall|j: int| 0 <= j < k ==> (#[trigger] all@[j])@ == self@.members[j],
            decreases self.participants@.len() - k,
        {
            let p = self.participants[k].duplicate();
            all.push(p);
            k = k + 1;
        }
        assert(all@.map_values(|p: Participant| p@) =~= self@.members);
        all
    }

    /// Sets the audio flag of member `pid`; false when there is no such member.
    pub fn set_participant_audio(&mut self, participant_id: &str, enabled: bool) -> (r: bool)
        requires
            old(self).wf(),
        ensures
            final(self).wf(),
            r == has_member(old(self)@.members, participant_id@),
            final(self)@ == room_set_audio(old(self)@, participant_id@, enabled),
    {
        match self.find(participant_id) {
            Some(k) => {
                let ghost pv = self@.members[k as int];
                let p = &self.participants[k];
                let updated = Participant {
                    id: p.id.clone(),
                    username: p.username.clone(),
                    joined_at: p.joined_at,
                    audio_enabled: enabled,
                    video_enabled: p.video_enabled,
                };
                self.participants.set(k, updated);
                assert(self.members() =~= old(self).members().update(k as int, ParticipantView { audio_enabled: enabled, ..pv }));
                true
            },
            None => false,
        }
    }

    /// Sets the video flag of member `pid`; false when there is no such member.
    pub fn set_participant_video(&mut self, participant_id: &str, enabled: bool) -> (r: bool)
        requires
            old(self).wf(),
        ensures
            final(self).wf(),
            r == has_member(old(self)@.members, participant_id@),
            final(self)@ == room_set_video(old(self)@, participant_id@, enabled),
    {
        match self.find(participant_id) {
            Some(k) => {
                let ghost pv = self@.members[k as int];
                let p = &self.participants[k];
                let updated = Participant {
                    id: p.id.clone(),
                    username: p.username.clone(),
                    joined_at: p.joined_at,
                    audio_enabled: p.audio_enabled,
                    video_enabled: enabled,
                };
                self.participants.set(k, updated);
                assert(self.members() =~= old(self).members().update(k as int, ParticipantView { video_enabled: enabled, ..pv }));
                true
            },
            None => false,
        }
    }
}

/// The registry's invariant: every room is well formed, room ids are
/// unique, and no participant is a member of two rooms.
pub open spec fn registry_wf(rooms: Seq<RoomView>) -> bool {
    &&& forall|i: int| 0 <= i < rooms.len() ==> room_wf(#[trigger] rooms[i])
    &&& forall|i: int, j: int|
        0 <= i < rooms.len() && 0 <= j < rooms.len() && i != j ==> #[trigger] rooms[i].id != #[trigger] rooms[j].id
    &&& forall|i: int, j: int, a: int, b: int|
        0 <= i < rooms.len() && 0 <= j < rooms.len() && i != j && 0 <= a < rooms[i].members.len() && 0 <= b
            < rooms[j].members.len() ==> #[trigger] rooms[i].members[a].id != #[trigger] rooms[j].members[b].id
}

pub open spec fn has_room(rooms: Seq<RoomView>, rid: Seq<char>) -> bool {
    exists|i: int| 0 <= i < rooms.len() && rooms[i].id == rid
}

/// Position of the room with id `rid` (meaningful when there is one).
pub open spec fn room_index(rooms: Seq<RoomView>, rid: Seq<char>) -> int {
    choose|i: int| 0 <= i < rooms.len() && rooms[i].id == rid
}

/// Whether participant `pid` is a member of some room.
pub open spec fn in_a_room(rooms: Seq<RoomView>, pid: Seq<char>) -> bool {
    exists|i: int| 0 <= i < rooms.len() && has_member(#[trigger] rooms[i].members, pid)
}

/// Position of the room that `pid` is in (meaningful when there is one).
pub open spec fn room_of(rooms: Seq<RoomView>, pid: Seq<char>) -> int {
    choose|i: int| 0 <= i < rooms.len() && has_member(#[trigger] rooms[i].members, pid)
}

/// Releasing the membership of `pid`.
pub open spec fn registry_leave(rooms: Seq<RoomView>, pid: Seq<char>) -> (Seq<RoomView>, Result<(), RoomError>) {
    if in_a_room(rooms, pid) {
        let i = room_of(rooms, pid);
        (rooms.update(i, RoomView { members: without_member(rooms[i].members, pid), ..rooms[i] }), Ok(()))
    } else {
        (rooms, Err(RoomError::ParticipantNotFound))
    }
}

/// Joining room `rid`: any current membership is released first, then the
/// room is looked up and asked to admit `p`.
pub open spec fn registry_join(rooms: Seq<RoomView>, rid: Seq<char>, p: ParticipantView) -> (Seq<RoomView>, Result<(), RoomError>) {
    let left = registry_leave(rooms, p.id).0;
    if has_room(left, rid) {
        let i = room_index(left, rid);
        let added = room_add(left[i], p);
        (left.update(i, added.0), added.1)
    } else {
        (left, Err(RoomError::RoomNotFound))
    }
}

/// Adding an empty room, unless its id is taken.
pub open spec fn registry_create(rooms: Seq<RoomView>, id: Seq<char>, name: Seq<char>, max_participants: u32, created_at: u64) -> (Seq<RoomView>, bool) {
    if has_room(rooms, id) {
        (rooms, false)
    } else {
        (rooms.push(RoomView { id, name, created_at, max_participants, is_locked: false, members: Seq::empty() }), true)
    }
}

/// Removing room `rid` together with its memberships.
pub open spec fn registry_delete(rooms: Seq<RoomView>, rid: Seq<char>) -> (Seq<RoomView>, bool) {
    if has_room(rooms, rid) {
        (rooms.remove(room_index(rooms, rid)), true)
    } else {
        (rooms, false)
    }
}

/// Setting the audio flag of `pid` in the room it is in.
pub open spec fn registry_set_audio(rooms: Seq<RoomView>, pid: Seq<char>, enabled: bool) -> (Seq<RoomView>, bool) {
    if in_a_room(rooms, pid) {
        let i = room_of(rooms, pid);
        (rooms.update(i, room_set_audio(rooms[i], pid, enabled)), true)
    } else {
        (rooms, false)
    }
}

/// Setting the video flag of `pid` in the room it is in.
pub open spec fn registry_set_video(rooms: Seq<RoomView>, pid: Seq<char>, enabled: bool) -> (Seq<RoomView>, bool) {
    if in_a_room(rooms, pid) {
        let i = room_of(rooms, pid);
        (rooms.update(i, room_set_video(rooms[i], pid, enabled)), true)
    } else {
        (rooms, false)
    }
}

proof fn lemma_room_index_unique(rooms: Seq<RoomView>, rid: Seq<char>, i: int)
    requires
        registry_wf(rooms),
        0 <= i < rooms.len(),
        rooms[i].id == rid,
    ensures
        has_room(rooms, rid),
        room_index(rooms, rid) == i,
{
    assert(has_room(rooms, rid));
}

proof fn lemma_room_of_unique(rooms: Seq<RoomView>, pid: Seq<char>, i: int)
    requires
        registry_wf(rooms),
        0 <= i < rooms.len(),
        has_member(rooms[i].members, pid),
    ensures
        in_a_room(rooms, pid),
        room_of(rooms, pid) == i,
{
    assert(in_a_room(rooms, pid));
    let c = room_of(rooms, pid);
    if c != i {
        let a = member_index(rooms[i].members, pid);
        let b = member_index(rooms[c].members, pid);
        assert(rooms[i].members[a].id == rooms[c].members[b].id);
    }
}

/// Removing a member keeps ids unique, keeps only former members, and
/// leaves `pid` absent.
proof fn lemma_without_member(ms: Seq<ParticipantView>, pid: Seq<char>)
    requires
        ids_unique(ms),
    ensures
        ids_unique(without_member(ms, pid)),
        without_member(ms, pid).len() <= ms.len(),
        !has_member(without_member(ms, pid), pid),
        forall|a: int|
            0 <= a < without_member(ms, pid).len() ==> has_member(ms, (#[trigger] without_member(ms, pid)[a]).id),
{
    let w = without_member(ms, pid);
    if has_member(ms, pid) {
        let k = member_index(ms, pid);
        assert forall|a: int| 0 <= a < w.len() implies w[a] == ms[if a < k { a } else { a + 1 }] by {}
        assert forall|a: int| 0 <= a < w.len() implies has_member(ms, (#[trigger] w[a]).id) by {
            let b = if a < k { a } else { a + 1 };
            assert(ms[b].id == w[a].id);
        }
        if has_member(w, pid) {
            let a = member_index(w, pid);
            let b = if a < k { a } else { a + 1 };
            assert(ms[b].id == pid);
            assert(ms[k].id == pid);
        }
        assert forall|a: int, c: int| 0 <= a < w.len() && 0 <= c < w.len() && a != c implies #[trigger] w[a].id
            != #[trigger] w[c].id by {
            let b1 = if a < k { a } else { a + 1 };
            let b2 = if c < k { c } else { c + 1 };
            assert(w[a] == ms[b1] && w[c] == ms[b2]);
        }
    } else {
        assert forall|a: int| 0 <= a < w.len() implies has_member(ms, (#[trigger] w[a]).id) by {
            assert(ms[a].id == w[a].id);
        }
    }
}

/// Replacing room `i` by a well-formed room with the same id whose members
/// are in no other room keeps the registry well formed.
proof fn lemma_replace_room(rooms: Seq<RoomView>, i: int, r: RoomView)
    requires
        registry_wf(rooms),
        0 <= i < rooms.len(),
        room_wf(r),
        r.id == rooms[i].id,
        forall|a: int, j: int, b: int|
            0 <= a < r.members.len() && 0 <= j < rooms.len() && j != i && 0 <= b < rooms[j].members.len()
                ==> #[trigger] r.members[a].id != #[trigger] rooms[j].members[b].id,
    ensures
        registry_wf(rooms.update(i, r)),
{
    let t = rooms.update(i, r);
    assert forall|x: int, y: int, a: int, b: int|
        0 <= x < t.len() && 0 <= y < t.len() && x != y && 0 <= a < t[x].members.len() && 0 <= b < t[y].members.len()
        implies #[trigger] t[x].members[a].id != #[trigger] t[y].members[b].id by {
        if x == i {
            assert(r.members[a].id != rooms[y].members[b].id);
        } else if y == i {
            assert(r.members[b].id != rooms[x].members[a].id);
        } else {
            assert(rooms[x].members[a].id != rooms[y].members[b].id);
        }
    }
}

/// Members that were all members of room `i` are in no other room.
proof fn lemma_former_members_disjoint(rooms: Seq<RoomView>, i: int, ms: Seq<ParticipantView>)
    requires
        registry_wf(rooms),
        0 <= i < rooms.len(),
        forall|a: int| 0 <= a < ms.len() ==> has_member(rooms[i].members, (#[trigger] ms[a]).id),
    ensures
        forall|a: int, j: int, b: int|
            0 <= a < ms.len() && 0 <= j < rooms.len() && j != i && 0 <= b < rooms[j].members.len()
                ==> #[trigger] ms[a].id != #[trigger] rooms[j].members[b].id,
{
    assert forall|a: int, j: int, b: int|
        0 <= a < ms.len() && 0 <= j < rooms.len() && j != i && 0 <= b < rooms[j].members.len()
        implies #[trigger] ms[a].id != #[trigger] rooms[j].members[b].id by {
        assert(has_member(rooms[i].members, ms[a].id));
        let k = member_index(rooms[i].members, ms[a].id);
        assert(rooms[i].members[k].id != rooms[j].members[b].id);
    }
}

/// Leaving keeps the registry well formed and leaves `pid` in no room.
proof fn lemma_leave_wf(rooms: Seq<RoomView>, pid: Seq<char>)
    requires
        registry_wf(rooms),
    ensures
        registry_wf(registry_leave(rooms, pid).0),
        !in_a_room(registry_leave(rooms, pid).0, pid),
        registry_leave(rooms, pid).0.len() == rooms.len(),
        forall|j: int| 0 <= j < rooms.len() ==> (#[trigger] registry_leave(rooms, pid).0[j]).id == rooms[j].id,
        forall|j: int|
            0 <= j < rooms.len() ==> (#[trigger] registry_leave(rooms, pid).0[j]).is_locked == rooms[j].is_locked,
        forall|j: int|
            0 <= j < rooms.len() ==> (#[trigger] registry_leave(rooms, pid).0[j]).max_participants
                == rooms[j].max_participants,
{
    let t = registry_leave(rooms, pid).0;
    if in_a_room(rooms, pid) {
        let i = room_of(rooms, pid);
        let ms = without_member(rooms[i].members, pid);
        lemma_without_member(rooms[i].members, pid);
        lemma_former_members_disjoint(rooms, i, ms);
        lemma_replace_room(rooms, i, RoomView { members: ms, ..rooms[i] });
        if in_a_room(t, pid) {
            let c = room_of(t, pid);
            if c != i {
                let b = member_index(rooms[c].members, pid);
                let a = member_index(rooms[i].members, pid);
                assert(rooms[i].members[a].id == rooms[c].members[b].id);
            }
        }
    }
}

/// Every room of a well-formed registry is well formed.
pub proof fn lemma_registry_room_wf(rooms: Seq<RoomView>, i: int)
    requires
        registry_wf(rooms),
        0 <= i < rooms.len(),
    ensures
        room_wf(rooms[i]),
{
}

/// Leaving keeps every room's id, lock and capacity in place.
pub proof fn lemma_leave_keeps_ids(rooms: Seq<RoomView>, pid: Seq<char>)
    requires
        registry_wf(rooms),
    ensures
        registry_leave(rooms, pid).0.len() == rooms.len(),
        forall|j: int| 0 <= j < rooms.len() ==> (#[trigger] registry_leave(rooms, pid).0[j]).id == rooms[j].id,
{
    lemma_leave_wf(rooms, pid);
}

/// Capacity: no room of a well-formed registry holds more participants than
/// its maximum. Every registry operation keeps the registry well formed, so
/// this holds at all times.
pub proof fn lemma_rooms_within_capacity(rooms: Seq<RoomView>, i: int)
    requires
        registry_wf(rooms),
        0 <= i < rooms.len(),
    ensures
        rooms[i].members.len() <= rooms[i].max_participants,
{
}

/// Exclusive membership: in a well-formed registry a participant is a
/// member of at most one room. Every registry operation keeps the registry
/// well formed, so this holds at all times.
pub proof fn lemma_member_of_at_most_one_room(rooms: Seq<RoomView>, pid: Seq<char>, i: int, j: int)
    requires
        registry_wf(rooms),
        0 <= i < rooms.len(),
        0 <= j < rooms.len(),
        has_member(rooms[i].members, pid),
        has_member(rooms[j].members, pid),
    ensures
        i == j,
{
    if i != j {
        let a = member_index(rooms[i].members, pid);
        let b = member_index(rooms[j].members, pid);
        assert(rooms[i].members[a].id == rooms[j].members[b].id);
    }
}

/// Manages all chat rooms.
pub struct RoomManager {
    rooms: Vec<Room>,
}

impl View for RoomManager {
    type V = Seq<RoomView>;

    closed spec fn view(&self) -> Seq<RoomView> {
        self.rooms@.map_values(|r: Room| r@)
    }
}

impl RoomManager {
    pub open spec fn wf(&self) -> bool {
        registry_wf(self@)
    }

    /// An empty registry.
    pub fn new() -> (r: RoomManager)
        ensures
            r.wf(),
            r@ == Seq::<RoomView>::empty(),
    {
        let r = RoomManager { rooms: Vec::new() };
        assert(r@ =~= Seq::<RoomView>::empty());
        r
    }

    /// Position of room `rid`, if present.
    fn find_room(&self, rid: &str) -> (r: Option<usize>)
        requires
            self.wf(),
        ensures
            match r {
                Some(i) => i < self@.len() && has_room(self@, rid@) && room_index(self@, rid@) == i,
                None => !has_room(self@, rid@),
            },
    {
        let mut i: usize = 0;
        while i < self.rooms.len()
            invariant
                self.wf(),
                i <= self.rooms@.len(),
                self@.len() == self.rooms@.len(),
                forall|j: int| 0 <= j < i ==> (#[trigger] self@[j]).id != rid@,
            decreases self.rooms@.len() - i,
        {
            assert(self@[i as int] == self.rooms@[i as int]@);
            if str_eq(self.rooms[i].id.as_str(), rid) {
                proof {
                    lemma_room_index_unique(self@, rid@, i as int);
                }
                return Some(i);
            }
            i = i + 1;
        }
        None
    }

    /// Position of the room that `pid` is in, if any.
    fn find_participant(&self, pid: &str) -> (r: Option<usize>)
        requires
            self.wf(),
        ensures
            match r {
                Some(i) => i < self@.len() && in_a_room(self@, pid@) && room_of(self@, pid@) == i,
                None => !in_a_room(self@, pid@),
            },
    {
        let mut i: usize = 0;
        while i < self.rooms.len()
            invariant
                self.wf(),
                i <= self.rooms@.len(),
                self@.len() == self.rooms@.len(),
                forall|j: int| 0 <= j < i ==> !has_member(#[trigger] self@[j].members, pid@),
            decreases self.rooms@.len() - i,
        {
            assert(self@[i as int] == self.rooms@[i as int]@);
            assert(self.rooms@[i as int].wf());
            if self.rooms[i].find(pid).is_some() {
                proof {
                    lemma_room_of_unique(self@, pid@, i as int);
                }
                return Some(i);
            }
            i = i + 1;
        }
        None
    }

    /// Room `rid`, if present.
    pub fn get_room(&self, room_id: &str) -> (r: Option<&Room>)
        requires
            self.wf(),
        ensures
            r.is_some() == has_room(self@, room_id@),
            r matches Some(room) ==> room@ == self@[room_index(self@, room_id@)] && room.wf(),
    {
        match self.find_room(room_id) {
            Some(i) => {
                assert(self@[i as int] == self.rooms@[i as int]@);
                Some(&self.rooms[i])
            },
            None => None,
        }
    }

    /// The earliest created room named `name`, if any.
    pub fn get_room_by_name(&self, name: &str) -> (r: Option<&Room>)
        requires
            self.wf(),
        ensures
            r.is_none() == (forall|i: int| 0 <= i < self@.len() ==> (#[trigger] self@[i]).name != name@),
            r matches Some(room) ==> exists|i: int|
                0 <= i < self@.len() && room@ == self@[i] && room.name@ == name@ && forall|j: int|
                    0 <= j < i ==> (#[trigger] self@[j]).name != name@,
    {
        let mut i: usize = 0;
        while i < self.rooms.len()
            invariant
                i <= self.rooms@.len(),
                self@.len() == self.rooms@.len(),
                forall|j: int| 0 <= j < i ==> (#[trigger] self@[j]).name != name@,
            decreases self.rooms@.len() - i,
        {
            assert(self@[i as int] == self.rooms@[i as int]@);
            if str_eq(self.rooms[i].name.as_str(), name) {
                return Some(&self.rooms[i]);
            }
            i = i + 1;
        }
        None
    }

    /// All rooms, in order of creation.
    pub fn list_rooms(&self) -> (r: &[Room])
        ensures
            r@.map_values(|room: Room| room@) == self@,
    {
        self.rooms.as_slice()
    }

    /// The room that participant `pid` is in, if any.
    pub fn get_participant_room(&self, participant_id: &str) -> (r: Option<&Room>)
        requires
            self.wf(),
        ensures
            r.is_some() == in_a_room(self@, participant_id@),
            r matches Some(room) ==> room@ == self@[room_of(self@, participant_id@)] && room.wf(),
    {
        match self.find_participant(participant_id) {
            Some(i) => {
                assert(self@[i as int] == self.rooms@[i as int]@);
                Some(&self.rooms[i])
            },
            None => None,
        }
    }

    /// Adds an empty room with the given id; refused (false) when the id is
    /// taken.
    pub fn create_room_with_id(&mut self, id: String, name: String, max_participants: u32, created_at: u64) -> (r: bool)
        requires
            old(self).wf(),
        ensures
            final(self).wf(),
            (final(self)@, r) == registry_create(old(self)@, id@, name@, max_participants, created_at),
    {
        if self.find_room(id.as_str()).is_some() {
            return false;
        }
        let room = Room::with_id(id, name, max_participants, created_at);
        let ghost rv = room@;
        self.rooms.push(room);
        assert(self@ =~= old(self)@.push(rv));
        assert forall|i: int, j: int|
            0 <= i < self@.len() && 0 <= j < self@.len() && i != j implies #[trigger] self@[i].id
            != #[trigger] self@[j].id by {
            if i == old(self)@.len() as int {
                assert(old(self)@[j].id != rv.id);
            } else if j == old(self)@.len() as int {
                assert(old(self)@[i].id != rv.id);
            }
        }
        true
    }

    /// Creates an empty room with a fresh random id and returns that id.
    /// It fails (`None`, nothing changed) only when the drawn 36-character
    /// id is already taken, which needs an existing room with such an id.
    pub fn create_room(&mut self, name: String, max_participants: u32) -> (r: Option<String>)
        requires
            old(self).wf(),
        ensures
            final(self).wf(),
            match r {
                Some(id) => !has_room(old(self)@, id@) && final(self)@ == old(self)@.push(
                    RoomView {
                        id: id@,
                        name: name@,
                        created_at: final(self)@.last().created_at,
                        max_participants,
                        is_locked: false,
                        members: Seq::empty(),
                    },
                ),
                None => final(self)@ == old(self)@ && exists|i: int|
                    0 <= i < old(self)@.len() && (#[trigger] old(self)@[i]).id.len() == 36,
            },
    {
        let id = fresh_uuid();
        let now = unix_time_secs();
        if self.create_room_with_id(id.clone(), name, max_participants, now) {
            Some(id)
        } else {
            assert(old(self)@[room_index(old(self)@, id@)].id.len() == 36);
            None
        }
    }

    /// Releases the membership of `pid`.
    pub fn leave_room(&mut self, participant_id: &str) -> (r: Result<(), RoomError>)
        requires
            old(self).wf(),
        ensures
            final(self).wf(),
            (final(self)@, r) == registry_leave(old(self)@, participant_id@),
    {
        proof {
            lemma_leave_wf(self@, participant_id@);
        }
        match self.find_participant(participant_id) {
            Some(i) => {
                assert(self@[i as int] == self.rooms@[i as int]@);
                assert(self.rooms@[i as int].wf());
                let _ = self.rooms[i].remove_participant(participant_id);
                assert(self@ =~= registry_leave(old(self)@, participant_id@).0);
                Ok(())
            },
            None => Err(RoomError::ParticipantNotFound),
        }
    }

    /// Joins room `rid`, releasing any current membership first.
    pub fn join_room(&mut self, room_id: &str, participant: Participant) -> (r: Result<(), RoomError>)
        requires
            old(self).wf(),
        ensures
            final(self).wf(),
            (final(self)@, r) == registry_join(old(self)@, room_id@, participant@),
    {
        let ghost pv = participant@;
        let _ = self.leave_room(participant.id.as_str());
        let ghost left = self@;
        assert(left == registry_leave(old(self)@, pv.id).0);
        proof {
            lemma_leave_wf(old(self)@, pv.id);
        }
        match self.find_room(room_id) {
            Some(i) => {
                assert(self@[i as int] == self.rooms@[i as int]@);
                assert(self.rooms@[i as int].wf());
                let res = self.rooms[i].add_participant(participant);
                let ghost added = room_add(left[i as int], pv);
                proof {
                    if added.1 is Ok {
                        assert(!has_member(left[i as int].members, pv.id));
                        assert(added.0.members =~= left[i as int].members.push(pv));
                        assert forall|a: int, j: int, b: int|
                            0 <= a < added.0.members.len() && 0 <= j < left.len() && j != i && 0 <= b
                                < left[j].members.len() implies #[trigger] added.0.members[a].id
                            != #[trigger] left[j].members[b].id by {
                            if a == left[i as int].members.len() as int {
                                assert(!has_member(left[j].members, pv.id));
                            } else {
                                assert(left[i as int].members[a].id != left[j].members[b].id);
                            }
                        }
                        lemma_replace_room(left, i as int, added.0);
                    } else {
                        assert(left.update(i as int, added.0) =~= left);
                    }
                }
                assert(self@ =~= left.update(i as int, added.0));
                res
            },
            None => Err(RoomError::RoomNotFound),
        }
    }

    /// Deletes room `rid` with its memberships; false when there is none.
    pub fn delete_room(&mut self, room_id: &str) -> (r: bool)
        requires
            old(self).wf(),
        ensures
            final(self).wf(),
            (final(self)@, r) == registry_delete(old(self)@, room_id@),
    {
        match self.find_room(room_id) {
            Some(i) => {
                let _ = self.rooms.remove(i);
                let ghost t = old(self)@.remove(i as int);
                assert(self@ =~= t);
                assert forall|x: int| 0 <= x < t.len() implies t[x] == old(self)@[if x < i { x } else { x + 1 }] by {}
                assert forall|x: int, y: int|
                    0 <= x < t.len() && 0 <= y < t.len() && x != y implies #[trigger] t[x].id != #[trigger] t[y].id by {
                    let x1 = if x < i { x } else { x + 1 };
                    let y1 = if y < i { y } else { y + 1 };
                    assert(old(self)@[x1].id != old(self)@[y1].id);
                }
                assert forall|x: int, y: int, a: int, b: int|
                    0 <= x < t.len() && 0 <= y < t.len() && x != y && 0 <= a < t[x].members.len() && 0 <= b
                        < t[y].members.len() implies #[trigger] t[x].members[a].id != #[trigger] t[y].members[b].id by {
                    let x1 = if x < i { x } else { x + 1 };
                    let y1 = if y < i { y } else { y + 1 };
                    assert(old(self)@[x1].members[a].id != old(self)@[y1].members[b].id);
                }
                true
            },
            None => false,
        }
    }

    /// Sets the audio flag of `pid` in its room; false when it is in none.
    pub fn set_participant_audio(&mut self, participant_id: &str, enabled: bool) -> (r: bool)
        requires
            old(self).wf(),
        ensures
            final(self).wf(),
            (final(self)@, r) == registry_set_audio(old(self)@, participant_id@, enabled),
    {
        match self.find_participant(participant_id) {
            Some(i) => {
                assert(self@[i as int] == self.rooms@[i as int]@);
                assert(self.rooms@[i as int].wf());
                let _ = self.rooms[i].set_participant_audio(participant_id, enabled);
                proof {
                    let old_room = old(self)@[i as int];
                    let new_room = room_set_audio(old_room, participant_id@, enabled);
                    assert forall|a: int| 0 <= a < new_room.members.len() implies has_member(
                        old_room.members,
                        (#[trigger] new_room.members[a]).id,
                    ) by {
                        assert(old_room.members[a].id == new_room.members[a].id);
                    }
                    assert(ids_unique(new_room.members)) by {
                        assert forall|a: int, c: int|
                            0 <= a < new_room.members.len() && 0 <= c < new_room.members.len() && a != c implies #[trigger] new_room.members[a].id
                            != #[trigger] new_room.members[c].id by {
                            assert(old_room.members[a].id == new_room.members[a].id);
                            assert(old_room.members[c].id == new_room.members[c].id);
                        }
                    }
                    lemma_former_members_disjoint(old(self)@, i as int, new_room.members);
                    lemma_replace_room(old(self)@, i as int, new_room);
                }
                assert(self@ =~= registry_set_audio(old(self)@, participant_id@, enabled).0);
                true
            },
            None => false,
        }
    }

    /// Sets the video flag of `pid` in its room; false when it is in none.
    pub fn set_participant_video(&mut self, participant_id: &str, enabled: bool) -> (r: bool)
        requires
            old(self).wf(),
        ensures
            final(self).wf(),
            (final(self)@, r) == registry_set_video(old(self)@, participant_id@, enabled),
    {
        match self.find_participant(participant_id) {
            Some(i) => {
                assert(self@[i as int] == self.rooms@[i as int]@);
                assert(self.rooms@[i as int].wf());
                let _ = self.rooms[i].set_participant_video(participant_id, enabled);
                proof {
                    let old_room = old(self)@[i as int];
                    let new_room = room_set_video(old_room, participant_id@, enabled);
                    assert forall|a: int| 0 <= a < new_room.members.len() implies has_member(
                        old_room.members,
                        (#[trigger] new_room.members[a]).id,
                    ) by {
                        assert(old_room.members[a].id == new_room.members[a].id);
                    }
                    assert(ids_unique(new_room.members)) by {
                        assert forall|a: int, c: int|
                            0 <= a < new_room.members.len() && 0 <= c < new_room.members.len() && a != c implies #[trigger] new_room.members[a].id
                            != #[trigger] new_room.members[c].id by {
                            assert(old_room.members[a].id == new_room.members[a].id);
                            assert(old_room.members[c].id == new_room.members[c].id);
                        }
                    }
                    lemma_former_members_disjoint(old(self)@, i as int, new_room.members);
                    lemma_replace_room(old(self)@, i as int, new_room);
                }
                assert(self@ =~= registry_set_video(old(self)@, participant_id@, enabled).0);
                true
            },
            None => false,
        }
    }
}

} // verus!
