//! The message table: one row per identifier, and per SDO object index for
//! SDO frames, with the latest data bytes.
use vstd::prelude::*;
use std::collections::BTreeMap;
use crate::events::CanPacketIn;
use crate::open::{sdo_index_of, type_of_id, CanOpenPacket, CanOpenType};
use crate::packet::CanPacket;
use crate::time::{nanos_between, Timestamp};
use crate::widgets::counting::{count_where, last_where, lemma_count_where};
use crate::widgets::listing::{keys_increase_u64, lemma_increasing_u64, lists_in_key_order, pairs_in_key_order};

verus! {

/// One row of the table.
#[derive(Debug, Clone, Copy)]
pub struct CanMessageEntry {
    /// The identifier of the last frame recorded.
    pub id: u32,
    /// The data bytes of the last frame recorded.
    pub data: [u8; 8],
    /// How many frames were recorded.
    pub count: i32,
    /// When the last frame was recorded.
    pub last_received: Timestamp,
    /// Nanoseconds between the last two frames (zero when the last one was
    /// stamped before the one preceding it).
    pub delta_nanos: u64,
}

/// The row that [`CanMessageEntry::new`] makes for `packet` at `now`.
pub open spec fn fresh_row(packet: CanPacket, now: Timestamp) -> CanMessageEntry {
    CanMessageEntry {
        id: packet.id,
        data: packet.data,
        count: 0,
        last_received: now,
        delta_nanos: 0,
    }
}

/// The row `e` after recording `packet`.
pub open spec fn row_after(e: CanMessageEntry, packet: CanPacketIn) -> CanMessageEntry {
    CanMessageEntry {
        id: packet.0.id,
        data: packet.0.data,
        count: (e.count + 1) as i32,
        last_received: packet.1,
        delta_nanos: nanos_between(packet.1, e.last_received),
    }
}

/// The row a frame belongs to: its identifier in the high 32 bits, and for
/// SDO frames the object index in the low bits.
pub open spec fn table_key(p: CanPacket) -> u64 {
    let base = ((p.id as u64) << 32u64) as u64;
    match type_of_id(p.id) {
        CanOpenType::SdoRequest => base | (sdo_index_of(p) as u64),
        CanOpenType::SdoResponse => base | (sdo_index_of(p) as u64),
        _ => base,
    }
}

/// The table `m` after recording `packet` at `now`: the row of its key (a
/// fresh one if there was none) records the frame.
pub open spec fn rows_after(m: Map<u64, CanMessageEntry>, packet: CanPacketIn, now: Timestamp) -> Map<
    u64,
    CanMessageEntry,
> {
    let k = table_key(packet.0);
    m.insert(k, row_after(if m.contains_key(k) { m[k] } else { fresh_row(packet.0, now) }, packet))
}

impl CanMessageEntry {
    /// A row for `packet` with nothing recorded yet, as of `now`.
    pub fn new(packet: CanPacket, now: Timestamp) -> (e: Self)
        ensures
            e == fresh_row(packet, now),
    {
        Self { id: packet.id, data: packet.data, count: 0, last_received: now, delta_nanos: 0 }
    }

    /// Records `packet`.
    pub fn update(&mut self, packet: &CanPacketIn)
        requires
            old(self).count < i32::MAX,
        ensures
            *final(self) == row_after(*old(self), *packet),
    {
        self.count += 1;
        self.delta_nanos = packet.1.duration_since(self.last_received);
        self.last_received = packet.1;
        self.id = packet.0.id;
        self.data = packet.0.data;
    }
}

/// The row key of a frame: see [`table_key`].
pub fn row_key(p: &CanPacket) -> (k: u64)
    ensures
        k == table_key(*p),
{
    let mut id = p.id as u64;
    id = id << 32;
    match p.get_type() {
        CanOpenType::SdoRequest => {
            id = id | (p.get_sdo_index() as u64);
        },
        CanOpenType::SdoResponse => {
            id = id | (p.get_sdo_index() as u64);
        },
        _ => {},
    }
    id
}

/// The table: rows keyed by [`table_key`].
#[derive(Debug, Clone)]
pub struct TableWidget {
    map: BTreeMap<u64, CanMessageEntry>,
}

impl View for TableWidget {
    type V = Map<u64, CanMessageEntry>;

    closed spec fn view(&self) -> Map<u64, CanMessageEntry> {
        self.map@
    }
}

impl Default for TableWidget {
    /// An empty table.
    fn default() -> (w: Self)
        ensures
            w@ == Map::<u64, CanMessageEntry>::empty(),
            w@.dom().finite(),
    {
        Self { map: BTreeMap::new() }
    }
}

impl TableWidget {
    /// The table holds finitely many rows.
    pub proof fn lemma_view_finite(&self)
        ensures
            self@.dom().finite(),
    {
    }

    /// Whether `packet` can be recorded without its row's count overflowing.
    pub open spec fn spec_can_record(&self, packet: CanPacketIn) -> bool {
        let k = table_key(packet.0);
        self@.contains_key(k) ==> self@[k].count < i32::MAX
    }

    /// Records `packet` in its row, starting a fresh row as of `now` when the
    /// row is new.
    pub fn on_can_packet(&mut self, packet: &CanPacketIn, now: Timestamp)
        requires
            old(self).spec_can_record(*packet),
        ensures
            final(self)@ == rows_after(old(self)@, *packet, now),
            final(self)@.dom().finite(),
    {
        let id = row_key(&packet.0);
        let mut entry = match self.map.get(&id) {
            Some(e) => *e,
            None => CanMessageEntry::new(packet.0, now),
        };
        entry.update(packet);
        self.map.insert(id, entry);
    }

    /// Whether `packet` can be recorded without its row's count overflowing.
    #[verifier::when_used_as_spec(spec_can_record)]
    pub fn can_record(&self, packet: CanPacketIn) -> (b: bool)
        ensures
            b == self.spec_can_record(packet),
    {
        let k = row_key(&packet.0);
        match self.map.get(&k) {
            Some(e) => e.count < i32::MAX,
            None => true,
        }
    }

    /// Every row with its key, in increasing key order.
    pub fn rows(&self) -> (v: Vec<(u64, CanMessageEntry)>)
        ensures
            lists_in_key_order(self@, v@),
            keys_increase_u64(v@),
    {
        let v = pairs_in_key_order(&self.map);
        proof {
            lemma_increasing_u64(v@);
        }
        v
    }
}

/// Frames with different identifiers never share a row: the identifier is
/// the high half of the row key.
pub proof fn law_row_key_keeps_identifier(p: CanPacket)
    ensures
        table_key(p) >> 32u64 == p.id as u64,
{
    let id = p.id;
    let idx = sdo_index_of(p);
    assert((((id as u64) << 32u64) as u64) >> 32u64 == id as u64) by (bit_vector);
    assert(((((id as u64) << 32u64) as u64) | (idx as u64)) >> 32u64 == id as u64)
        by (bit_vector);
}

/// Recording a frame counts it once in its row: the row's count grows by one
/// (to one for a new row), the row holds the frame's data and arrival time,
/// and every other row is kept.
pub proof fn law_record_counts_once(m: Map<u64, CanMessageEntry>, packet: CanPacketIn, now: Timestamp)
    requires
        m.contains_key(table_key(packet.0)) ==> m[table_key(packet.0)].count < i32::MAX,
    ensures
        ({
            let n = rows_after(m, packet, now);
            let k = table_key(packet.0);
            &&& n.dom() == m.dom().insert(k)
            &&& n[k].count == (if m.contains_key(k) { m[k].count + 1 } else { 1 })
            &&& n[k].data == packet.0.data
            &&& n[k].last_received == packet.1
            &&& forall|j: u64| j != k && #[trigger] m.contains_key(j) ==> n[j] == m[j]
        }),
{
}

/// Whether a frame belongs to the row with key `k`.
pub open spec fn has_key(k: u64) -> spec_fn(CanPacketIn) -> bool {
    |p: CanPacketIn| table_key(p.0) == k
}

/// The table after recording `ps[0]`, `ps[1]`, ... in turn, starting empty,
/// where `ps[i]` is recorded at `nows[i]`: what a default [`TableWidget`]
/// holds after `on_can_packet(&ps[i], nows[i])` for each `i`.
pub open spec fn rows_after_all(ps: Seq<CanPacketIn>, nows: Seq<Timestamp>) -> Map<
    u64,
    CanMessageEntry,
>
    decreases ps.len(),
{
    if ps.len() == 0 {
        Map::empty()
    } else {
        rows_after(rows_after_all(ps.drop_last(), nows.drop_last()), ps.last(), nows.last())
    }
}

/// After a history of frames, the table holds exactly the row keys seen; each
/// row counts every frame with its key, holds the identifier, data and arrival
/// time of the last of them, and its key's high half is that identifier.
pub proof fn law_history(ps: Seq<CanPacketIn>, nows: Seq<Timestamp>)
    requires
        nows.len() == ps.len(),
        ps.len() < i32::MAX,
    ensures
        ({
            let m = rows_after_all(ps, nows);
            &&& m.dom().finite()
            &&& forall|k: u64| #[trigger] m.contains_key(k) <==> count_where(ps, has_key(k)) > 0
            &&& forall|k: u64| #[trigger]
                m.contains_key(k) ==> {
                    let last = ps[last_where(ps, has_key(k))];
                    &&& m[k].count == count_where(ps, has_key(k))
                    &&& m[k].id == last.0.id
                    &&& m[k].data == last.0.data
                    &&& m[k].last_received == last.1
                    &&& k >> 32u64 == m[k].id as u64
                }
        }),
    decreases ps.len(),
{
    if ps.len() > 0 {
        let q = ps.drop_last();
        let p = ps.last();
        law_history(q, nows.drop_last());
        let m = rows_after_all(ps, nows);
        assert forall|k: u64| #[trigger] m.contains_key(k) <==> count_where(ps, has_key(k)) > 0 by {
            assert(count_where(ps, has_key(k)) == count_where(q, has_key(k)) + if has_key(k)(p) {
                1nat
            } else {
                0nat
            });
        }
        assert forall|k: u64| #[trigger] m.contains_key(k) implies {
            let last = ps[last_where(ps, has_key(k))];
            &&& m[k].count == count_where(ps, has_key(k))
            &&& m[k].id == last.0.id
            &&& m[k].data == last.0.data
            &&& m[k].last_received == last.1
            &&& k >> 32u64 == m[k].id as u64
        } by {
            lemma_count_where(q, has_key(k));
            if table_key(p.0) == k {
                assert(has_key(k)(p));
                assert(last_where(ps, has_key(k)) == ps.len() - 1);
                law_row_key_keeps_identifier(p.0);
            } else {
                assert(!has_key(k)(p));
                assert(last_where(ps, has_key(k)) == last_where(q, has_key(k)));
                assert(ps[last_where(q, has_key(k))] == q[last_where(q, has_key(k))]);
            }
        }
    }
}

/// A row key's high 32 bits are the frame's identifier. Its low 32 bits are
/// the SDO object index (data byte 1 as high byte, data byte 2 as low byte)
/// when the function code `id & !0x7F` lies in `0x580..0x6E0`, whatever the
/// command byte, and zero for every other frame.
pub proof fn law_row_key_halves(p: CanPacket)
    ensures
        table_key(p) >> 32u64 == p.id as u64,
        0x580 <= (p.id & !0x7Fu32) && (p.id & !0x7Fu32) < 0x6E0 ==> table_key(p) & 0xFFFF_FFFFu64
            == (((p.data[1] as u64) << 8u64) | (p.data[2] as u64)),
        !(0x580 <= (p.id & !0x7Fu32) && (p.id & !0x7Fu32) < 0x6E0) ==> table_key(p)
            & 0xFFFF_FFFFu64 == 0,
{
    crate::open::law_type_by_function_code(p.id);
    law_row_key_keeps_identifier(p);
    let id = p.id;
    let d1 = p.data[1];
    let d2 = p.data[2];
    let idx = sdo_index_of(p);
    assert(idx == ((d1 as u16) << 8u16) | (d2 as u16));
    assert((((((id as u64) << 32u64) as u64) | (idx as u64)) & 0xFFFF_FFFFu64) == (((d1 as u64)
        << 8u64) | (d2 as u64))) by (bit_vector)
        requires
            idx == ((d1 as u16) << 8u16) | (d2 as u16),
    ;
    assert(((((id as u64) << 32u64) as u64) & 0xFFFF_FFFFu64) == 0) by (bit_vector);
}

/// After recording a frame, its row's interval is the time from the row's
/// previous arrival (for a new row: the time it was created) to this frame's
/// arrival, or zero when the frame is stamped earlier than that.
pub proof fn law_row_interval(m: Map<u64, CanMessageEntry>, packet: CanPacketIn, now: Timestamp)
    ensures
        ({
            let k = table_key(packet.0);
            let before = if m.contains_key(k) {
                m[k].last_received.nanos
            } else {
                now.nanos
            };
            let e = rows_after(m, packet, now)[k];
            &&& packet.1.nanos >= before ==> e.delta_nanos + before == packet.1.nanos
            &&& packet.1.nanos < before ==> e.delta_nanos == 0
            &&& e.last_received == packet.1
        }),
{
}

} // verus!
