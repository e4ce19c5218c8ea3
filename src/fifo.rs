//! The round-based FIFO scheduler: one queue per ingress port, drained at
//! most one packet per port per round onto the egress port of the same index.

use crate::packet::{Packet, PacketError};
use std::collections::VecDeque;
use vstd::prelude::*;

verus! {

/// The number of ports of a scheduler built by `FifoScheduler::new`.
pub const DEFAULT_PORTS: usize = 4;

/// One served packet: its id and the time it waited, in clock units.
#[derive(Debug, Clone, Copy, PartialEq, Eq, Structural)]
pub struct LatencyRecord {
    pub id: u64,
    pub latency: u64,
}

/// Time elapsed from `arrival` to `now`; zero for a clock read that lies
/// before the arrival, as a monotonic clock's duration does.
pub open spec fn latency_between(arrival: u64, now: u64) -> u64 {
    if arrival <= now {
        (now - arrival) as u64
    } else {
        0
    }
}

pub open spec fn record_of(p: Packet, now: u64) -> LatencyRecord {
    LatencyRecord { id: p.id, latency: latency_between(p.incoming_time, now) }
}

/// The queues after `p` is appended to the queue of its ingress port.
pub open spec fn enqueued(qs: Seq<Seq<Packet>>, p: Packet) -> Seq<Seq<Packet>> {
    qs.update(p.incoming_source as int, qs[p.incoming_source as int].push(p))
}

/// What leaves queue `i` in a round: its front packet, if any.
pub open spec fn departs(qs: Seq<Seq<Packet>>, i: int) -> Option<Packet> {
    if qs[i].len() > 0 {
        Some(qs[i][0])
    } else {
        None
    }
}

/// One queue after a round: its front packet removed, if it has one.
pub open spec fn after_round(q: Seq<Packet>) -> Seq<Packet> {
    if q.len() > 0 {
        q.drop_first()
    } else {
        q
    }
}

/// All queues after a round.
pub open spec fn served_queues(qs: Seq<Seq<Packet>>) -> Seq<Seq<Packet>> {
    Seq::new(qs.len(), |i: int| after_round(qs[i]))
}

/// The queues after `n` rounds with nothing enqueued in between.
pub open spec fn served_queues_n(qs: Seq<Seq<Packet>>, n: nat) -> Seq<Seq<Packet>>
    decreases n,
{
    if n == 0 {
        qs
    } else {
        served_queues(served_queues_n(qs, (n - 1) as nat))
    }
}

/// The egress slots after a round at time `now`: each port that had a
/// packet holds it with its departure time, the others keep what they held.
pub open spec fn served_slots(
    qs: Seq<Seq<Packet>>,
    slots: Seq<Option<(Packet, u64)>>,
    now: u64,
) -> Seq<Option<(Packet, u64)>> {
    Seq::new(
        slots.len(),
        |i: int|
            if i < qs.len() && qs[i].len() > 0 {
                Some((qs[i][0], now))
            } else {
                slots[i]
            },
    )
}

/// The latency records of a round over the first `n` ports, in port order.
pub open spec fn round_records(qs: Seq<Seq<Packet>>, now: u64, n: int) -> Seq<LatencyRecord>
    decreases n,
{
    if n <= 0 {
        seq![]
    } else {
        round_records(qs, now, n - 1) + if qs[n - 1].len() > 0 {
            seq![record_of(qs[n - 1][0], now)]
        } else {
            seq![]
        }
    }
}

pub struct FifoScheduler {
    input_queues: Vec<VecDeque<Packet>>,
    output_ports: Vec<Option<(Packet, u64)>>,
    served_packets_count: usize,
    round: u64,
}

impl FifoScheduler {
    /// The ingress queues, front first.
    pub closed spec fn queues(&self) -> Seq<Seq<Packet>> {
        Seq::new(self.input_queues@.len(), |i: int| self.input_queues@[i]@)
    }

    /// The egress slots: the packet last served on each port and when.
    pub closed spec fn slots(&self) -> Seq<Option<(Packet, u64)>> {
        self.output_ports@
    }

    pub closed spec fn spec_round(&self) -> u64 {
        self.round
    }

    pub closed spec fn spec_served_count(&self) -> usize {
        self.served_packets_count
    }

    pub open spec fn spec_ports(&self) -> nat {
        self.queues().len()
    }

    /// A well-formed scheduler has one egress slot per port.
    pub proof fn lemma_slot_per_port(&self)
        requires
            self.wf(),
        ensures
            self.slots().len() == self.spec_ports(),
    {
    }

    pub closed spec fn wf(&self) -> bool {
        &&& self.input_queues@.len() > 0
        &&& self.output_ports@.len() == self.input_queues@.len()
    }

    /// A scheduler with four ports, all queues empty and all slots free.
    pub fn new() -> (r: Self)
        ensures
            r.wf(),
            r.spec_ports() == DEFAULT_PORTS,
            r.slots().len() == DEFAULT_PORTS,
            forall|i: int| 0 <= i < DEFAULT_PORTS ==> #[trigger] r.queues()[i].len() == 0,
            forall|i: int| 0 <= i < DEFAULT_PORTS ==> #[trigger] r.slots()[i].is_none(),
            r.spec_round() == 0,
            r.spec_served_count() == 0,
    {
        Self::build(DEFAULT_PORTS)
    }

    /// A scheduler with `ports` ingress queues and as many egress slots;
    /// zero ports is an invalid parameter.
    pub fn with_ports(ports: usize) -> (r: Result<Self, PacketError>)
        ensures
            match r {
                Ok(s) => {
                    &&& ports > 0
                    &&& s.wf()
                    &&& s.spec_ports() == ports
                    &&& s.slots().len() == ports
                    &&& forall|i: int| 0 <= i < ports ==> #[trigger] s.queues()[i].len() == 0
                    &&& forall|i: int| 0 <= i < ports ==> #[trigger] s.slots()[i].is_none()
                    &&& s.spec_round() == 0
                    &&& s.spec_served_count() == 0
                },
                Err(e) => e == PacketError::InvalidParameter && ports == 0,
            },
    {
        if ports == 0 {
            return Err(PacketError::InvalidParameter);
        }
        Ok(Self::build(ports))
    }

    fn build(ports: usize) -> (r: Self)
        requires
            ports > 0,
        ensures
            r.wf(),
            r.spec_ports() == ports,
            r.slots().len() == ports,
            forall|i: int| 0 <= i < ports ==> #[trigger] r.queues()[i].len() == 0,
            forall|i: int| 0 <= i < ports ==> #[trigger] r.slots()[i].is_none(),
            r.spec_round() == 0,
            r.spec_served_count() == 0,
    {
        let mut input_queues: Vec<VecDeque<Packet>> = Vec::with_capacity(ports);
        let mut output_ports: Vec<Option<(Packet, u64)>> = Vec::with_capacity(ports);
        let mut i: usize = 0;
        while i < ports
            invariant
                i <= ports,
                input_queues@.len() == i,
                output_ports@.len() == i,
                forall|j: int| 0 <= j < i ==> (#[trigger] input_queues@[j])@.len() == 0,
                forall|j: int| 0 <= j < i ==> (#[trigger] output_ports@[j]).is_none(),
            decreases ports - i,
        {
            input_queues.push(VecDeque::new());
            output_ports.push(None);
            i = i + 1;
        }
        FifoScheduler { input_queues, output_ports, served_packets_count: 0, round: 0 }
    }

    pub fn ports(&self) -> (r: usize)
        ensures
            r == self.spec_ports(),
    {
        self.input_queues.len()
    }

    /// The number of rounds served so far.
    pub fn round(&self) -> (r: u64)
        ensures
            r == self.spec_round(),
    {
        self.round
    }

    /// The number of packets that departed in the last round.
    pub fn served_packets_count(&self) -> (r: usize)
        ensures
            r == self.spec_served_count(),
    {
        self.served_packets_count
    }

    /// Appends `packet` to the queue of its ingress port.
    pub fn enqueue(&mut self, packet: Packet)
        requires
            old(self).wf(),
            packet.incoming_source < old(self).spec_ports(),
        ensures
            final(self).wf(),
            final(self).slots().len() == final(self).spec_ports(),
            final(self).queues() == enqueued(old(self).queues(), packet),
            final(self).slots() == old(self).slots(),
            final(self).spec_round() == old(self).spec_round(),
            final(self).spec_served_count() == old(self).spec_served_count(),
    {
        let port = packet.incoming_source as usize;
        self.input_queues[port].push_back(packet);
        assert(self.queues() =~= enqueued(old(self).queues(), packet));
    }

    /// Takes the front packet of the queue of `output_port`, the one port
    /// that feeds it; `None` when that queue is empty.
    pub fn get_next_packet(&mut self, output_port: usize) -> (r: Option<Packet>)
        requires
            old(self).wf(),
            output_port < old(self).spec_ports(),
        ensures
            final(self).wf(),
            final(self).slots().len() == final(self).spec_ports(),
            r == departs(old(self).queues(), output_port as int),
            final(self).queues() == old(self).queues().update(
                output_port as int,
                after_round(old(self).queues()[output_port as int]),
            ),
            final(self).slots() == old(self).slots(),
            final(self).spec_round() == old(self).spec_round(),
            final(self).spec_served_count() == old(self).spec_served_count(),
    {
        let r = self.input_queues[output_port].pop_front();
        assert(self.queues() =~= old(self).queues().update(
            output_port as int,
            after_round(old(self).queues()[output_port as int]),
        ));
        r
    }

    /// Serves one round at time `now`: for each port in increasing order,
    /// the front packet of its queue, if any, departs onto the egress port of
    /// the same index, and its latency is recorded. Returns the records of
    /// the round in port order.
    pub fn serve_packets(&mut self, now: u64) -> (r: Vec<LatencyRecord>)
        requires
            old(self).wf(),
            old(self).spec_round() < u64::MAX,
        ensures
            final(self).wf(),
            final(self).slots().len() == final(self).spec_ports(),
            final(self).queues() == served_queues(old(self).queues()),
            final(self).slots() == served_slots(old(self).queues(), old(self).slots(), now),
            r@ == round_records(old(self).queues(), now, old(self).spec_ports() as int),
            final(self).spec_round() == old(self).spec_round() + 1,
            final(self).spec_served_count() == r@.len(),
    {
        let ghost qs = self.queues();
        let ghost slots = self.slots();
        let ports = self.input_queues.len();
        let mut records: Vec<LatencyRecord> = Vec::new();
        let mut i: usize = 0;
        while i < ports
            invariant
                self.wf(),
                ports == qs.len(),
                slots.len() == qs.len(),
                self.round == old(self).round,
                i <= ports,
                self.queues() == Seq::new(
                    qs.len(),
                    |j: int|
                        if j < i {
                            after_round(qs[j])
                        } else {
                            qs[j]
                        },
                ),
                self.slots() == Seq::new(
                    slots.len(),
                    |j: int|
                        if j < i && qs[j].len() > 0 {
                            Some((qs[j][0], now))
                        } else {
                            slots[j]
                        },
                ),
                records@ == round_records(qs, now, i as int),
            decreases ports - i,
        {
            let next = self.get_next_packet(i);
            match next {
                Some(packet) => {
                    let latency = if packet.incoming_time <= now {
                        now - packet.incoming_time
                    } else {
                        0
                    };
                    records.push(LatencyRecord { id: packet.id, latency });
                    self.output_ports[i] = Some((packet, now));
                },
                None => {},
            }
            assert(self.queues() =~= Seq::new(
                qs.len(),
                |j: int|
                    if j < i + 1 {
                        after_round(qs[j])
                    } else {
                        qs[j]
                    },
            ));
            assert(self.slots() =~= Seq::new(
                slots.len(),
                |j: int|
                    if j < i + 1 && qs[j].len() > 0 {
                        Some((qs[j][0], now))
                    } else {
                        slots[j]
                    },
            ));
            i = i + 1;
        }
        assert(self.queues() =~= served_queues(qs));
        assert(self.slots() =~= served_slots(qs, slots, now));
        self.served_packets_count = records.len();
        self.round = self.round + 1;
        records
    }

    /// The ids of the packets waiting at `port`, front first.
    pub fn queued_ids(&self, port: usize) -> (r: Vec<u64>)
        requires
            self.wf(),
            port < self.spec_ports(),
        ensures
            r@ == self.queues()[port as int].map_values(|p: Packet| p.id),
    {
        let queue = &self.input_queues[port];
        let mut ids: Vec<u64> = Vec::new();
        let mut k: usize = 0;
        while k < queue.len()
            invariant
                k <= queue@.len(),
                queue@ == self.queues()[port as int],
                ids@ == queue@.subrange(0, k as int).map_values(|p: Packet| p.id),
            decreases queue@.len() - k,
        {
            ids.push(queue[k].id);
            k = k + 1;
            assert(ids@ =~= queue@.subrange(0, k as int).map_values(|p: Packet| p.id));
        }
        assert(queue@.subrange(0, k as int) =~= queue@);
        ids
    }

    /// The egress slot of `port`: the packet last served there and its
    /// departure time.
    pub fn output_port(&self, port: usize) -> (r: &Option<(Packet, u64)>)
        requires
            self.wf(),
            port < self.spec_ports(),
        ensures
            *r == self.slots()[port as int],
    {
        &self.output_ports[port]
    }
}

/// After `n` rounds with nothing enqueued, a queue that held at least `n`
/// packets has lost exactly its first `n`.
pub proof fn lemma_served_queues_n(qs: Seq<Seq<Packet>>, n: nat, i: int)
    requires
        0 <= i < qs.len(),
        n <= qs[i].len(),
    ensures
        served_queues_n(qs, n).len() == qs.len(),
        served_queues_n(qs, n)[i] == qs[i].skip(n as int),
    decreases n,
{
    if n > 0 {
        lemma_served_queues_n(qs, (n - 1) as nat, i);
        let prev = served_queues_n(qs, (n - 1) as nat);
        assert(prev[i].drop_first() =~= qs[i].skip(n as int));
    } else {
        assert(qs[i].skip(0) =~= qs[i]);
    }
}

/// FIFO order: packets `a`, `b`, `c` enqueued in that order on one port
/// depart from it in that order, in successive rounds once the packets
/// queued before them have left.
pub proof fn lemma_fifo_order(qs: Seq<Seq<Packet>>, a: Packet, b: Packet, c: Packet)
    requires
        a.incoming_source < qs.len(),
        b.incoming_source == a.incoming_source,
        c.incoming_source == a.incoming_source,
    ensures
        ({
            let port = a.incoming_source as int;
            let queued = enqueued(enqueued(enqueued(qs, a), b), c);
            let k = qs[port].len();
            &&& departs(served_queues_n(queued, k), port) == Some(a)
            &&& departs(served_queues_n(queued, k + 1), port) == Some(b)
            &&& departs(served_queues_n(queued, k + 2), port) == Some(c)
        }),
{
    let port = a.incoming_source as int;
    let queued = enqueued(enqueued(enqueued(qs, a), b), c);
    let k = qs[port].len();
    assert(queued[port] =~= qs[port].push(a).push(b).push(c));
    lemma_served_queues_n(queued, k, port);
    lemma_served_queues_n(queued, k + 1, port);
    lemma_served_queues_n(queued, k + 2, port);
    assert(queued[port][k as int] == a);
    assert(queued[port][k as int + 1] == b);
    assert(queued[port][k as int + 2] == c);
}

proof fn lemma_round_records_len(qs: Seq<Seq<Packet>>, now: u64, n: int)
    requires
        0 <= n <= qs.len(),
    ensures
        round_records(qs, now, n).len() <= n,
    decreases n,
{
    if n > 0 {
        lemma_round_records_len(qs, now, n - 1);
    }
}

/// A round departs at most one packet per port, and so at most as many
/// packets as there are ports.
pub proof fn lemma_round_bound(qs: Seq<Seq<Packet>>, now: u64)
    ensures
        round_records(qs, now, qs.len() as int).len() <= qs.len(),
        served_queues(qs).len() == qs.len(),
        forall|i: int|
            0 <= i < qs.len() ==> #[trigger] served_queues(qs)[i].len() + 1 >= qs[i].len()
                && served_queues(qs)[i].len() <= qs[i].len(),
{
    lemma_round_records_len(qs, now, qs.len() as int);
}

/// `r` is the record of the packet that departs port `i`: it carries that
/// packet's id, and when the packet arrived no later than the service time
/// `now`, its latency is `now` less the arrival time, a value that is not
/// negative.
pub open spec fn records_departure(r: LatencyRecord, qs: Seq<Seq<Packet>>, i: int, now: u64) -> bool {
    &&& qs[i].len() > 0
    &&& r.id == qs[i][0].id
    &&& qs[i][0].incoming_time <= now ==> r.latency == now - qs[i][0].incoming_time && now
        - qs[i][0].incoming_time >= 0
}

/// `r` is the record of the packet that departs one of the first `n` ports.
pub open spec fn records_some_departure(
    r: LatencyRecord,
    qs: Seq<Seq<Packet>>,
    n: int,
    now: u64,
) -> bool {
    exists|i: int| 0 <= i < n && #[trigger] records_departure(r, qs, i, now)
}

/// Every latency recorded in a round over the first `n` ports belongs to a
/// packet that departed in it, and equals the service time less that
/// packet's arrival time.
pub proof fn lemma_latency_of_served(qs: Seq<Seq<Packet>>, now: u64, n: int)
    requires
        0 <= n <= qs.len(),
    ensures
        forall|j: int|
            0 <= j < round_records(qs, now, n).len() ==> #[trigger] records_some_departure(
                round_records(qs, now, n)[j],
                qs,
                n,
                now,
            ),
    decreases n,
{
    if n > 0 {
        lemma_latency_of_served(qs, now, n - 1);
        let prev = round_records(qs, now, n - 1);
        let all = round_records(qs, now, n);
        let extra = if qs[n - 1].len() > 0 {
            seq![record_of(qs[n - 1][0], now)]
        } else {
            seq![]
        };
        assert(all == prev + extra);
        assert forall|j: int| 0 <= j < all.len() implies #[trigger] records_some_departure(
            all[j],
            qs,
            n,
            now,
        ) by {
            if j < prev.len() {
                assert(all[j] == prev[j]);
                assert(records_some_departure(prev[j], qs, n - 1, now));
                let i = choose|i: int| 0 <= i < n - 1 && #[trigger] records_departure(prev[j], qs, i, now);
                assert(records_departure(all[j], qs, i, now));
            } else {
                assert(extra.len() > 0);
                assert(all[j] == extra[j - prev.len()]);
                assert(all[j] == record_of(qs[n - 1][0], now));
                assert(records_departure(all[j], qs, n - 1, now));
            }
        }
    } else {
        assert(round_records(qs, now, n).len() == 0);
    }
}

proof fn lemma_round_records_empty(qs: Seq<Seq<Packet>>, now: u64, n: int)
    requires
        0 <= n <= qs.len(),
        forall|i: int| 0 <= i < qs.len() ==> #[trigger] qs[i].len() == 0,
    ensures
        round_records(qs, now, n) == Seq::<LatencyRecord>::empty(),
    decreases n,
{
    if n > 0 {
        lemma_round_records_empty(qs, now, n - 1);
        assert(round_records(qs, now, n) =~= Seq::<LatencyRecord>::empty());
    }
}

/// A round over empty queues records nothing and changes neither the
/// queues nor the egress slots.
pub proof fn lemma_empty_round(
    qs: Seq<Seq<Packet>>,
    slots: Seq<Option<(Packet, u64)>>,
    now: u64,
)
    requires
        forall|i: int| 0 <= i < qs.len() ==> #[trigger] qs[i].len() == 0,
    ensures
        round_records(qs, now, qs.len() as int) == Seq::<LatencyRecord>::empty(),
        served_queues(qs) == qs,
        served_slots(qs, slots, now) == slots,
{
    lemma_round_records_empty(qs, now, qs.len() as int);
    assert(served_queues(qs) =~= qs);
    assert(served_slots(qs, slots, now) =~= slots);
}

} // verus!
