//! The traffic graph: how many heartbeat-producer frames (function code
//! `0x100`) arrived in each second since the graph was started.
use vstd::prelude::*;
use std::collections::BTreeMap;
use crate::events::CanPacketIn;
use crate::open::{node_id_of, CanOpenPacket};
use crate::packet::CanPacket;
use crate::time::{nanos_between, Timestamp};
use crate::widgets::counting::{count_where, lemma_count_where, lemma_sum_values_insert, sum_values};
use crate::widgets::listing::{keys_increase_u64, lemma_increasing_u64, lists_in_key_order, pairs_in_key_order};

verus! {

/// Whether the graph counts a frame: its identifier with the node id bits
/// cleared is `0x100`.
pub open spec fn graph_counts(p: CanPacket) -> bool {
    (p.id ^ (node_id_of(p) as u32)) == 0x100
}

/// The second, counted from `start`, in which `t` falls (zero for times
/// before `start`).
pub open spec fn second_of(start: Timestamp, t: Timestamp) -> u64 {
    (nanos_between(t, start) / 1_000_000_000) as u64
}

/// The counts `m` of a graph started at `start` after `packet`: one more in
/// the packet's second when the graph counts the frame, unchanged otherwise.
pub open spec fn counts_after(m: Map<u64, u64>, start: Timestamp, packet: CanPacketIn) -> Map<u64, u64> {
    if graph_counts(packet.0) {
        let k = second_of(start, packet.1);
        m.insert(k, (if m.contains_key(k) { m[k] + 1 } else { 1 }) as u64)
    } else {
        m
    }
}

/// Frames per second since a start time, keyed by second.
pub struct GraphWidget {
    data: BTreeMap<u64, u64>,
    start: Timestamp,
}

impl View for GraphWidget {
    type V = Map<u64, u64>;

    closed spec fn view(&self) -> Map<u64, u64> {
        self.data@
    }
}

impl GraphWidget {
    /// The graph holds finitely many seconds.
    pub proof fn lemma_view_finite(&self)
        ensures
            self@.dom().finite(),
    {
    }

    /// The time from which seconds are counted.
    pub closed spec fn spec_start(&self) -> Timestamp {
        self.start
    }

    /// An empty graph whose seconds count from `start`.
    pub fn new(start: Timestamp) -> (g: Self)
        ensures
            g@ == Map::<u64, u64>::empty(),
            g@.dom().finite(),
            g.spec_start() == start,
    {
        Self { data: BTreeMap::new(), start }
    }

    /// The time from which seconds are counted.
    pub fn start(&self) -> (s: Timestamp)
        ensures
            s == self.spec_start(),
    {
        self.start
    }

    /// Whether `packet` can be counted without its second's count overflowing.
    pub open spec fn spec_can_record(&self, packet: CanPacketIn) -> bool {
        let k = second_of(self.spec_start(), packet.1);
        graph_counts(packet.0) && self@.contains_key(k) ==> self@[k] < u64::MAX
    }

    /// Counts `packet` in the second in which it arrived, if it is a frame the
    /// graph counts; other frames leave the graph as it was.
    pub fn on_can_packet(&mut self, packet: &CanPacketIn)
        requires
            old(self).spec_can_record(*packet),
        ensures
            final(self).spec_start() == old(self).spec_start(),
            final(self)@ == counts_after(old(self)@, old(self).spec_start(), *packet),
            final(self)@.dom().finite(),
    {
        if packet.0.id ^ packet.0.get_node_id() as u32 != 0x100 {
            return;
        }
        let duration = packet.1.duration_since(self.start);
        let key = duration / 1_000_000_000;
        let v = match self.data.get(&key) {
            Some(v) => *v,
            None => 0,
        };
        self.data.insert(key, v + 1);
    }

    /// Whether `packet` can be counted without its second's count overflowing.
    #[verifier::when_used_as_spec(spec_can_record)]
    pub fn can_record(&self, packet: CanPacketIn) -> (b: bool)
        ensures
            b == self.spec_can_record(packet),
    {
        if packet.0.id ^ packet.0.get_node_id() as u32 != 0x100 {
            return true;
        }
        let key = packet.1.duration_since(self.start) / 1_000_000_000;
        match self.data.get(&key) {
            Some(v) => *v < u64::MAX,
            None => true,
        }
    }

    /// The count of every second that has one, in increasing order of seconds.
    pub fn points(&self) -> (v: Vec<(u64, u64)>)
        ensures
            lists_in_key_order(self@, v@),
            keys_increase_u64(v@),
    {
        let v = pairs_in_key_order(&self.data);
        proof {
            lemma_increasing_u64(v@);
        }
        v
    }
}

/// The range of points the graph draws when it has `n` points and room for
/// `columns` of them: the last `columns` points when they do not all fit,
/// every point otherwise.
pub fn visible_window(n: usize, columns: usize) -> (w: (usize, usize))
    ensures
        w == (if n > columns { ((n - columns) as usize, n) } else { (0usize, n) }),
{
    let from = if n > columns {
        n - columns
    } else {
        0usize
    };
    let to = if n > columns {
        from + columns
    } else {
        n
    };
    (from, to)
}

/// The graph counts exactly the frames whose function code is `0x100`,
/// whatever node sent them.
pub proof fn law_graph_counts_function_code(p: CanPacket)
    ensures
        graph_counts(p) <==> (p.id & !0x7Fu32) == 0x100,
{
    let id = p.id;
    assert((id ^ (((id & 0x7Fu32) as u8) as u32)) == (id & !0x7Fu32)) by (bit_vector);
}

/// A frame the graph counts adds exactly one to the second in which it
/// arrived and changes no other second; any other frame changes nothing.
pub proof fn law_count_once(m: Map<u64, u64>, start: Timestamp, packet: CanPacketIn)
    requires
        graph_counts(packet.0) && m.contains_key(second_of(start, packet.1)) ==> m[second_of(
            start,
            packet.1,
        )] < u64::MAX,
    ensures
        ({
            let n = counts_after(m, start, packet);
            let k = second_of(start, packet.1);
            &&& !graph_counts(packet.0) ==> n == m
            &&& graph_counts(packet.0) ==> n.dom() == m.dom().insert(k) && n[k] == (if m.contains_key(
                k,
            ) {
                m[k] + 1
            } else {
                1
            })
            &&& forall|j: u64| j != k && #[trigger] m.contains_key(j) ==> n[j] == m[j]
        }),
{
}

/// Whether the graph counts a frame.
pub open spec fn is_counted() -> spec_fn(CanPacketIn) -> bool {
    |p: CanPacketIn| graph_counts(p.0)
}

/// Whether the graph counts a frame in second `k` from `start`.
pub open spec fn counted_in(start: Timestamp, k: u64) -> spec_fn(CanPacketIn) -> bool {
    |p: CanPacketIn| graph_counts(p.0) && second_of(start, p.1) == k
}

/// The counts after `ps[0]`, `ps[1]`, ... in turn, starting empty, for a graph
/// started at `start`: what `GraphWidget::new(start)` holds after
/// `on_can_packet(&ps[i])` for each `i`.
pub open spec fn counts_after_all(ps: Seq<CanPacketIn>, start: Timestamp) -> Map<u64, u64>
    decreases ps.len(),
{
    if ps.len() == 0 {
        Map::empty()
    } else {
        counts_after(counts_after_all(ps.drop_last(), start), start, ps.last())
    }
}

/// After a history of frames, the graph's counts add up to the number of
/// frames it counts; each second present has the number of counted frames
/// that arrived in it, which is at least one, and no other second is present.
pub proof fn law_history(ps: Seq<CanPacketIn>, start: Timestamp)
    requires
        ps.len() < u64::MAX,
    ensures
        ({
            let m = counts_after_all(ps, start);
            &&& m.dom().finite()
            &&& sum_values(m) == count_where(ps, is_counted())
            &&& forall|k: u64| #[trigger]
                m.contains_key(k) <==> count_where(ps, counted_in(start, k)) > 0
            &&& forall|k: u64| #[trigger]
                m.contains_key(k) ==> m[k] == count_where(ps, counted_in(start, k)) && m[k] >= 1
        }),
    decreases ps.len(),
{
    if ps.len() > 0 {
        let q = ps.drop_last();
        let p = ps.last();
        law_history(q, start);
        let m0 = counts_after_all(q, start);
        let m = counts_after_all(ps, start);
        let s = second_of(start, p.1);
        lemma_count_where(q, counted_in(start, s));
        if graph_counts(p.0) {
            let v = (if m0.contains_key(s) { m0[s] + 1 } else { 1 }) as u64;
            lemma_sum_values_insert(m0, s, v);
            assert(is_counted()(p));
        } else {
            assert(!is_counted()(p));
        }
        assert forall|k: u64| #[trigger]
            m.contains_key(k) <==> count_where(ps, counted_in(start, k)) > 0 by {
            assert(count_where(ps, counted_in(start, k)) == count_where(q, counted_in(start, k))
                + if counted_in(start, k)(p) {
                1nat
            } else {
                0nat
            });
        }
        assert forall|k: u64| #[trigger] m.contains_key(k) implies m[k] == count_where(
            ps,
            counted_in(start, k),
        ) && m[k] >= 1 by {
            assert(count_where(ps, counted_in(start, k)) == count_where(q, counted_in(start, k))
                + if counted_in(start, k)(p) {
                1nat
            } else {
                0nat
            });
        }
    }
}

/// A counted frame lands in the second `k` for which `k` whole seconds, and
/// not `k + 1`, have elapsed from the start to its arrival (second 0 for a
/// frame stamped before the start): that second's count grows by one.
pub proof fn law_count_lands_in_elapsed_second(
    m: Map<u64, u64>,
    start: Timestamp,
    packet: CanPacketIn,
    k: u64,
)
    requires
        graph_counts(packet.0),
        packet.1.nanos >= start.nanos ==> k * 1_000_000_000 <= packet.1.nanos - start.nanos < (k
            + 1) * 1_000_000_000,
        packet.1.nanos < start.nanos ==> k == 0,
    ensures
        counts_after(m, start, packet).contains_key(k),
        counts_after(m, start, packet)[k] == (if m.contains_key(k) {
            m[k] + 1
        } else {
            1
        }) as u64,
        forall|j: u64| j != k && #[trigger] m.contains_key(j) ==> counts_after(m, start, packet)[j] == m[j],
{
    let s = second_of(start, packet.1);
    if packet.1.nanos >= start.nanos {
        let e = (packet.1.nanos - start.nanos) as int;
        assert(s == e / 1_000_000_000);
        assert(k == e / 1_000_000_000) by (nonlinear_arith)
            requires
                k * 1_000_000_000 <= e < (k + 1) * 1_000_000_000,
                0 <= e,
        ;
    }
}

} // verus!
