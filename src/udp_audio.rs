//! Datagram audio path: the packet envelope and the age/count bounded
//! jitter buffer that feeds playback.

use vstd::prelude::*;

use crate::time::unix_time_millis;

verus! {

/// Most packets the jitter buffer holds at once.
pub const HARD_CAP: usize = 5;

/// One compressed audio chunk as carried over the datagram channel.
#[derive(Debug, Clone, PartialEq, Eq)]
pub struct UdpAudioPacket {
    pub session_id: String,
    pub sequence: u32,
    /// Capture time in microseconds since the Unix epoch.
    pub timestamp: u64,
    pub audio_data: Vec<u8>,
}

/// Stamps outgoing audio chunks of one session with consecutive sequence
/// numbers, wrapping at 2^32.
pub struct PacketSequencer {
    session_id: String,
    next_sequence: u32,
}

impl PacketSequencer {
    pub closed spec fn session(&self) -> Seq<char> {
        self.session_id@
    }

    /// The sequence number the next packet gets.
    pub closed spec fn next(&self) -> u32 {
        self.next_sequence
    }

    pub fn new(session_id: String) -> (r: Self)
        ensures
            r.session() == session_id@,
            r.next() == 0,
    {
        PacketSequencer { session_id, next_sequence: 0 }
    }

    /// The packet for `audio_data` captured at `timestamp_us`.
    pub fn next_packet(&mut self, timestamp_us: u64, audio_data: Vec<u8>) -> (r: UdpAudioPacket)
        ensures
            r.session_id@ == old(self).session(),
            r.sequence == old(self).next(),
            r.timestamp == timestamp_us,
            r.audio_data == audio_data,
            final(self).session() == old(self).session(),
            final(self).next() == (if old(self).next() == u32::MAX { 0 } else { (old(self).next() + 1) as u32 }),
    {
        let sequence = self.next_sequence;
        self.next_sequence = if sequence == u32::MAX { 0 } else { sequence + 1 };
        UdpAudioPacket { session_id: self.session_id.clone(), sequence, timestamp: timestamp_us, audio_data }
    }
}

/// An entry is stale when it arrived more than `max_age` before `now`.
pub open spec fn is_stale(arrival: u64, now: u64, max_age: u64) -> bool {
    now > arrival && now - arrival > max_age
}

/// Drops stale entries from the front of the queue, stopping at the first
/// entry that is fresh.
pub open spec fn drop_stale(s: Seq<(u64, Vec<u8>)>, now: u64, max_age: u64) -> Seq<(u64, Vec<u8>)>
    decreases s.len(),
{
    if s.len() > 0 && is_stale(s[0].0, now, max_age) {
        drop_stale(s.drop_first(), now, max_age)
    } else {
        s
    }
}

/// The queue after one insertion at time `now`: stale entries leave the
/// front, the new entry joins the back, and the oldest leaves when the
/// hard cap is exceeded.
pub open spec fn after_insert(s: Seq<(u64, Vec<u8>)>, now: u64, max_age: u64, data: Vec<u8>) -> Seq<(u64, Vec<u8>)> {
    let kept = drop_stale(s, now, max_age).push((now, data));
    if kept.len() > HARD_CAP {
        kept.drop_first()
    } else {
        kept
    }
}

/// Time between the oldest and the newest entry, zero when the queue is
/// empty or the newest arrived earlier than the oldest.
pub open spec fn span(s: Seq<(u64, Vec<u8>)>) -> u64 {
    if s.len() > 0 && s.last().0 >= s[0].0 {
        (s.last().0 - s[0].0) as u64
    } else {
        0
    }
}

/// Arrival times never decrease from front to back.
pub open spec fn arrivals_ordered(s: Seq<(u64, Vec<u8>)>) -> bool {
    forall|i: int, j: int| 0 <= i <= j < s.len() ==> s[i].0 <= s[j].0
}

/// What eviction keeps is a suffix of the queue that starts with a fresh
/// entry, or is empty.
proof fn lemma_drop_stale_suffix(s: Seq<(u64, Vec<u8>)>, now: u64, max_age: u64)
    ensures
        drop_stale(s, now, max_age).len() <= s.len(),
        drop_stale(s, now, max_age) == s.subrange(s.len() - drop_stale(s, now, max_age).len(), s.len() as int),
        drop_stale(s, now, max_age).len() > 0 ==> !is_stale(drop_stale(s, now, max_age)[0].0, now, max_age),
    decreases s.len(),
{
    if s.len() > 0 && is_stale(s[0].0, now, max_age) {
        lemma_drop_stale_suffix(s.drop_first(), now, max_age);
        let d = drop_stale(s.drop_first(), now, max_age);
        assert(s.drop_first().subrange(s.len() - 1 - d.len(), s.len() - 1) =~= s.subrange(s.len() - d.len(), s.len() as int));
    } else {
        assert(s.subrange(0, s.len() as int) =~= s);
    }
}

/// Steady-state insertion: when arrivals are recorded in order and the new
/// packet arrives no earlier than any held one, the buffer afterwards spans
/// at most the age limit, holds at most `HARD_CAP` packets, and keeps its
/// arrivals in order.
pub proof fn lemma_steady_state_bounds(s: Seq<(u64, Vec<u8>)>, now: u64, max_age: u64, data: Vec<u8>)
    requires
        s.len() <= HARD_CAP,
        arrivals_ordered(s),
        forall|i: int| 0 <= i < s.len() ==> s[i].0 <= now,
    ensures
        span(after_insert(s, now, max_age, data)) <= max_age,
        after_insert(s, now, max_age, data).len() <= HARD_CAP,
        arrivals_ordered(after_insert(s, now, max_age, data)),
{
    lemma_drop_stale_suffix(s, now, max_age);
    let d = drop_stale(s, now, max_age);
    let kept = d.push((now, data));
    let t = after_insert(s, now, max_age, data);
    let off = s.len() - d.len();
    assert forall|i: int| 0 <= i < d.len() implies d[i] == s[off + i] by {}
    assert(arrivals_ordered(kept)) by {
        assert forall|i: int, j: int| 0 <= i <= j < kept.len() implies kept[i].0 <= kept[j].0 by {
            if j < d.len() {
                assert(d[i] == s[off + i] && d[j] == s[off + j]);
            } else {
                assert(kept[j].0 == now);
                if i < d.len() {
                    assert(d[i] == s[off + i]);
                }
            }
        }
    }
    if kept.len() > HARD_CAP {
        assert(d.len() >= 2);
        assert(t =~= kept.drop_first());
        assert(t[0] == d[1]);
        assert(d[0].0 <= d[1].0);
        assert(t.last().0 == now);
        assert(arrivals_ordered(t)) by {
            assert forall|i: int, j: int| 0 <= i <= j < t.len() implies t[i].0 <= t[j].0 by {
                assert(t[i] == kept[i + 1] && t[j] == kept[j + 1]);
            }
        }
    } else {
        assert(t == kept);
        assert(t.last().0 == now);
        if d.len() > 0 {
            assert(t[0] == d[0]);
        }
    }
}

/// The bounds a buffer keeps: at most `HARD_CAP` packets, arrivals in
/// order, and a span within the age limit.
pub open spec fn buffer_bounds(s: Seq<(u64, Vec<u8>)>, max_age: u64) -> bool {
    &&& s.len() <= HARD_CAP
    &&& arrivals_ordered(s)
    &&& span(s) <= max_age
}

/// An empty buffer is within bounds.
pub proof fn lemma_empty_within_bounds(max_age: u64)
    ensures
        buffer_bounds(Seq::<(u64, Vec<u8>)>::empty(), max_age),
{
}

/// Insertion at a clock no earlier than the newest packet keeps the bounds.
pub proof fn lemma_insert_keeps_bounds(s: Seq<(u64, Vec<u8>)>, now: u64, max_age: u64, data: Vec<u8>)
    requires
        buffer_bounds(s, max_age),
        s.len() > 0 ==> s.last().0 <= now,
    ensures
        buffer_bounds(after_insert(s, now, max_age, data), max_age),
{
    assert forall|i: int| 0 <= i < s.len() implies s[i].0 <= now by {
        assert(s[i].0 <= s[s.len() - 1].0);
    }
    lemma_steady_state_bounds(s, now, max_age, data);
}

/// Taking the oldest packet keeps the bounds. With the two lemmas above,
/// any sequence of `new`, insertions at a non-decreasing clock and takes
/// keeps `buffer_age_ms() <= max_age` and `len() <= HARD_CAP` throughout.
pub proof fn lemma_take_keeps_bounds(s: Seq<(u64, Vec<u8>)>, max_age: u64)
    requires
        buffer_bounds(s, max_age),
        s.len() > 0,
    ensures
        buffer_bounds(s.drop_first(), max_age),
{
    let t = s.drop_first();
    assert forall|i: int, j: int| 0 <= i <= j < t.len() implies t[i].0 <= t[j].0 by {
        assert(t[i] == s[i + 1] && t[j] == s[j + 1]);
    }
    if t.len() > 0 {
        assert(t[0] == s[1]);
        assert(t.last() == s.last());
        assert(s[0].0 <= s[1].0);
        assert(s[1].0 <= s.last().0);
    }
}

/// Audio packet buffer that discards old packets on insertion.
pub struct RealTimeAudioBuffer {
    max_age_ms: u64,
    packets: std::collections::VecDeque<(u64, Vec<u8>)>,
}

impl View for RealTimeAudioBuffer {
    type V = Seq<(u64, Vec<u8>)>;

    closed spec fn view(&self) -> Seq<(u64, Vec<u8>)> {
        self.packets@
    }
}

impl RealTimeAudioBuffer {
    /// The buffer never holds more than `HARD_CAP` packets.
    pub closed spec fn wf(&self) -> bool {
        self.packets@.len() <= HARD_CAP
    }

    pub closed spec fn max_age(&self) -> u64 {
        self.max_age_ms
    }

    pub fn new(max_age_ms: u64) -> (r: Self)
        ensures
            r.wf(),
            r@ == Seq::<(u64, Vec<u8>)>::empty(),
            r.max_age() == max_age_ms,
    {
        RealTimeAudioBuffer { max_age_ms, packets: std::collections::VecDeque::with_capacity(10) }
    }

    /// Inserts `audio_data` as arriving at `now_ms` (milliseconds).
    pub fn add_packet_at(&mut self, now_ms: u64, audio_data: Vec<u8>)
        requires
            old(self).wf(),
        ensures
            final(self).wf(),
            final(self)@ == after_insert(old(self)@, now_ms, old(self).max_age(), audio_data),
            final(self).max_age() == old(self).max_age(),
    {
        let ghost start = self.packets@;
        let max_age = self.max_age_ms;
        loop
            invariant
                drop_stale(self.packets@, now_ms, max_age) == drop_stale(start, now_ms, max_age),
                self.packets@.len() <= HARD_CAP,
                self.max_age_ms == max_age,
            ensures
                self.packets@ == drop_stale(start, now_ms, max_age),
                self.packets@.len() <= HARD_CAP,
                self.max_age_ms == max_age,
            decreases self.packets@.len(),
        {
            if self.packets.len() == 0 {
                break;
            }
            let arrival = self.packets[0].0;
            if !(now_ms > arrival && now_ms - arrival > max_age) {
                break;
            }
            self.packets.pop_front();
        }
        let ghost kept = self.packets@.push((now_ms, audio_data));
        if self.packets.len() >= HARD_CAP {
            self.packets.pop_front();
        }
        self.packets.push_back((now_ms, audio_data));
        proof {
            if kept.len() > HARD_CAP {
                assert(self.packets@ =~= kept.drop_first());
            } else {
                assert(self.packets@ =~= kept);
            }
        }
    }

    /// Inserts `audio_data` as arriving now, by the system clock.
    pub fn add_packet(&mut self, audio_data: Vec<u8>)
        requires
            old(self).wf(),
        ensures
            final(self).wf(),
            exists|now: u64| final(self)@ == after_insert(old(self)@, now, old(self).max_age(), audio_data),
            final(self).max_age() == old(self).max_age(),
    {
        let now = unix_time_millis();
        self.add_packet_at(now, audio_data);
    }

    /// Takes the oldest packet, or `None` (play silence) when empty.
    pub fn get_next_packet(&mut self) -> (r: Option<Vec<u8>>)
        requires
            old(self).wf(),
        ensures
            final(self).wf(),
            old(self)@.len() == 0 ==> r.is_none() && final(self)@ == old(self)@,
            old(self)@.len() > 0 ==> r == Some(old(self)@[0].1) && final(self)@ == old(self)@.drop_first(),
            final(self).max_age() == old(self).max_age(),
    {
        match self.packets.pop_front() {
            Some(entry) => {
                assert(self.packets@ =~= old(self)@.drop_first());
                Some(entry.1)
            },
            None => None,
        }
    }

    /// Milliseconds between the oldest and newest held packet.
    pub fn buffer_age_ms(&self) -> (r: u64)
        ensures
            r == span(self@),
    {
        let n = self.packets.len();
        if n == 0 {
            return 0;
        }
        let oldest = self.packets[0].0;
        let newest = self.packets[n - 1].0;
        if newest >= oldest {
            newest - oldest
        } else {
            0
        }
    }

    pub fn len(&self) -> (r: usize)
        requires
            self.wf(),
        ensures
            r == self@.len(),
            r <= HARD_CAP,
    {
        self.packets.len()
    }
}

} // verus!
