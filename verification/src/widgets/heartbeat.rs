//! Per-identifier statistics: how many frames of each identifier were seen
//! and how long ago the previous one arrived.
use vstd::prelude::*;
use std::collections::BTreeMap;
use crate::events::CanPacketIn;
use crate::packet::CanPacket;
use crate::time::{nanos_between, Timestamp};
use crate::widgets::counting::{count_where, last_where, lemma_count_where};
use crate::widgets::listing::{keys_increase_u32, lemma_increasing_u32, lists_in_key_order, pairs_in_key_order};

verus! {

/// What the monitor remembers of one identifier.
#[derive(Debug, Clone, Copy)]
pub struct CanMessageEntry {
    /// The identifier of the last frame recorded.
    pub id: u32,
    /// How many frames were recorded.
    pub count: i32,
    /// When the last frame was recorded.
    pub last_received: Timestamp,
    /// Nanoseconds between the last two frames (zero when the last one was
    /// stamped before the one preceding it).
    pub delta_nanos: u64,
}

/// The entry that [`CanMessageEntry::new`] makes for `packet` at `now`.
pub open spec fn fresh_entry(packet: CanPacket, now: Timestamp) -> CanMessageEntry {
    CanMessageEntry { id: packet.id, count: 0, last_received: now, delta_nanos: 0 }
}

/// The entry `e` after recording `packet`: one more frame, the time since the
/// previous one, the new arrival time and the frame's identifier.
pub open spec fn entry_after(e: CanMessageEntry, packet: CanPacketIn) -> CanMessageEntry {
    CanMessageEntry {
        id: packet.0.id,
        count: (e.count + 1) as i32,
        last_received: packet.1,
        delta_nanos: nanos_between(packet.1, e.last_received),
    }
}

/// The statistics `m` after recording `packet` at `now`: the entry of its
/// identifier (a fresh one if there was none) records the frame.
pub open spec fn entries_after(m: Map<u32, CanMessageEntry>, packet: CanPacketIn, now: Timestamp) -> Map<
    u32,
    CanMessageEntry,
> {
    let id = packet.0.id;
    m.insert(
        id,
        entry_after(if m.contains_key(id) { m[id] } else { fresh_entry(packet.0, now) }, packet),
    )
}

impl CanMessageEntry {
    /// An entry for the identifier of `packet` with nothing recorded yet, as of `now`.
    pub fn new(packet: CanPacket, now: Timestamp) -> (e: Self)
        ensures
            e == fresh_entry(packet, now),
    {
        Self { id: packet.id, count: 0, last_received: now, delta_nanos: 0 }
    }

    /// Records `packet`.
    pub fn update(&mut self, packet: &CanPacketIn)
        requires
            old(self).count < i32::MAX,
        ensures
            *final(self) == entry_after(*old(self), *packet),
    {
        self.count += 1;
        self.delta_nanos = packet.1.duration_since(self.last_received);
        self.last_received = packet.1;
        self.id = packet.0.id;
    }
}

/// The statistics of every identifier seen, keyed by identifier.
#[derive(Debug, Clone)]
pub struct CanMessageWidget {
    map: BTreeMap<u32, CanMessageEntry>,
}

impl View for CanMessageWidget {
    type V = Map<u32, CanMessageEntry>;

    closed spec fn view(&self) -> Map<u32, CanMessageEntry> {
        self.map@
    }
}

impl Default for CanMessageWidget {
    /// No identifier seen yet.
    fn default() -> (w: Self)
        ensures
            w@ == Map::<u32, CanMessageEntry>::empty(),
            w@.dom().finite(),
    {
        Self { map: BTreeMap::new() }
    }
}

impl CanMessageWidget {
    /// The statistics hold finitely many identifiers.
    pub proof fn lemma_view_finite(&self)
        ensures
            self@.dom().finite(),
    {
    }

    /// Whether `packet` can be recorded without its count overflowing.
    pub open spec fn spec_can_record(&self, packet: CanPacketIn) -> bool {
        self@.contains_key(packet.0.id) ==> self@[packet.0.id].count < i32::MAX
    }

    /// Records `packet` under its identifier, starting a fresh entry as of
    /// `now` when the identifier is new.
    pub fn on_can_packet(&mut self, packet: &CanPacketIn, now: Timestamp)
        requires
            old(self).spec_can_record(*packet),
        ensures
            final(self)@ == entries_after(old(self)@, *packet, now),
            final(self)@.dom().finite(),
    {
        let id = packet.0.id;
        let mut entry = match self.map.get(&id) {
            Some(e) => *e,
            None => CanMessageEntry::new(packet.0, now),
        };
        entry.update(packet);
        self.map.insert(id, entry);
    }

    /// Whether `packet` can be recorded without its count overflowing.
    #[verifier::when_used_as_spec(spec_can_record)]
    pub fn can_record(&self, packet: CanPacketIn) -> (b: bool)
        ensures
            b == self.spec_can_record(packet),
    {
        match self.map.get(&packet.0.id) {
            Some(e) => e.count < i32::MAX,
            None => true,
        }
    }

    /// Every identifier seen with its statistics, in increasing identifier order.
    pub fn entries(&self) -> (v: Vec<(u32, CanMessageEntry)>)
        ensures
            lists_in_key_order(self@, v@),
            keys_increase_u32(v@),
    {
        let v = pairs_in_key_order(&self.map);
        proof {
            lemma_increasing_u32(v@);
        }
        v
    }
}

/// Recording a frame counts it once: its identifier's count grows by one (to
/// one for a new identifier), the entry holds the frame's arrival time, and
/// every other identifier keeps its entry.
pub proof fn law_record_counts_once(m: Map<u32, CanMessageEntry>, packet: CanPacketIn, now: Timestamp)
    requires
        m.contains_key(packet.0.id) ==> m[packet.0.id].count < i32::MAX,
    ensures
        ({
            let n = entries_after(m, packet, now);
            let id = packet.0.id;
            &&& n.dom() == m.dom().insert(id)
            &&& n[id].count == (if m.contains_key(id) { m[id].count + 1 } else { 1 })
            &&& n[id].last_received == packet.1
            &&& forall|k: u32| k != id && #[trigger] m.contains_key(k) ==> n[k] == m[k]
        }),
{
}

/// Whether a frame has identifier `k`.
pub open spec fn has_id(k: u32) -> spec_fn(CanPacketIn) -> bool {
    |p: CanPacketIn| p.0.id == k
}

/// The statistics after recording `ps[0]`, `ps[1]`, ... in turn, starting from
/// none, where `ps[i]` is recorded at `nows[i]`: what a default
/// [`CanMessageWidget`] holds after `on_can_packet(&ps[i], nows[i])` for each `i`.
pub open spec fn entries_after_all(ps: Seq<CanPacketIn>, nows: Seq<Timestamp>) -> Map<
    u32,
    CanMessageEntry,
>
    decreases ps.len(),
{
    if ps.len() == 0 {
        Map::empty()
    } else {
        entries_after(entries_after_all(ps.drop_last(), nows.drop_last()), ps.last(), nows.last())
    }
}

/// After a history of frames, the statistics hold exactly the identifiers
/// seen; each entry is under its own identifier, counts every frame with that
/// identifier, and holds the arrival time of the last of them.
pub proof fn law_history(ps: Seq<CanPacketIn>, nows: Seq<Timestamp>)
    requires
        nows.len() == ps.len(),
        ps.len() < i32::MAX,
    ensures
        ({
            let m = entries_after_all(ps, nows);
            &&& m.dom().finite()
            &&& forall|k: u32| #[trigger] m.contains_key(k) <==> count_where(ps, has_id(k)) > 0
            &&& forall|k: u32| #[trigger]
                m.contains_key(k) ==> {
                    &&& m[k].id == k
                    &&& m[k].count == count_where(ps, has_id(k))
                    &&& m[k].last_received == ps[last_where(ps, has_id(k))].1
                }
        }),
    decreases ps.len(),
{
    if ps.len() > 0 {
        let q = ps.drop_last();
        let p = ps.last();
        law_history(q, nows.drop_last());
        let m0 = entries_after_all(q, nows.drop_last());
        let m = entries_after_all(ps, nows);
        assert forall|k: u32| #[trigger] m.contains_key(k) <==> count_where(ps, has_id(k)) > 0 by {
            assert(count_where(ps, has_id(k)) == count_where(q, has_id(k)) + if has_id(k)(p) {
                1nat
            } else {
                0nat
            });
        }
        assert forall|k: u32| #[trigger] m.contains_key(k) implies {
            &&& m[k].id == k
            &&& m[k].count == count_where(ps, has_id(k))
            &&& m[k].last_received == ps[last_where(ps, has_id(k))].1
        } by {
            lemma_count_where(q, has_id(k));
            if p.0.id == k {
                assert(has_id(k)(p));
                assert(last_where(ps, has_id(k)) == ps.len() - 1);
            } else {
                assert(!has_id(k)(p));
                assert(last_where(ps, has_id(k)) == last_where(q, has_id(k)));
                assert(ps[last_where(q, has_id(k))] == q[last_where(q, has_id(k))]);
            }
        }
    }
}

/// After recording a frame, its identifier's interval is the time from that
/// identifier's previous arrival (for a new identifier: the time its entry was
/// created) to this frame's arrival, or zero when the frame is stamped earlier
/// than that.
pub proof fn law_interval(m: Map<u32, CanMessageEntry>, packet: CanPacketIn, now: Timestamp)
    ensures
        ({
            let id = packet.0.id;
            let before = if m.contains_key(id) {
                m[id].last_received.nanos
            } else {
                now.nanos
            };
            let e = entries_after(m, packet, now)[id];
            &&& packet.1.nanos >= before ==> e.delta_nanos + before == packet.1.nanos
            &&& packet.1.nanos < before ==> e.delta_nanos == 0
            &&& e.last_received == packet.1
        }),
{
}

} // verus!
