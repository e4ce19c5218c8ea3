//! Packets and the generator that synthesises them, a batch per tick.

use crate::random::{entropy_rng, random_bytes, random_range, seeded_rng};
use rand::rngs::StdRng;
use vstd::prelude::*;

verus! {

/// The cap on the packets generated in one tick when none is configured.
pub const MAX_PACKETS_PER_TICK: usize = 5;

/// The length of the longest payload that the generator draws.
pub const MAX_PAYLOAD_LEN: usize = 100;

/// A packet on its way through the multiplexer. Times are counted in the
/// caller's clock units (nanoseconds in the driver).
#[derive(Debug, Clone)]
pub struct Packet {
    pub id: u64,
    pub priority: u32,
    pub data: Vec<u8>,
    pub incoming_source: u32,
    pub outgoing_source: u32,
    pub incoming_time: u64,
}

#[derive(Debug, Clone, Copy, PartialEq, Eq, Structural)]
pub enum PacketError {
    /// A port count of zero was given at construction.
    InvalidParameter,
    /// The 64-bit id space cannot hold the packets of the batch.
    CounterOverflow,
}

/// Synthesises packets with unique, increasing ids. The arrival count and
/// the priorities are drawn by the caller from distributions of its choice
/// and handed in; payloads and ports are drawn here, from the generator's
/// own random source, which a caller may seed.
pub struct PacketGenerator {
    global_packet_id_counter: u64,
    incoming_sources: usize,
    outgoing_sources: usize,
    max_per_tick: usize,
    rng: StdRng,
}

/// How many packets a tick produces: the drawn sample, capped.
pub open spec fn capped(sample: u64, max_per_tick: nat) -> nat {
    if sample < max_per_tick {
        sample as nat
    } else {
        max_per_tick
    }
}

/// The packets of `batch` carry the ids `start`, `start + 1`, ... in order.
pub open spec fn ids_from(batch: Seq<Packet>, start: int) -> bool {
    forall|k: int| 0 <= k < batch.len() ==> #[trigger] batch[k].id == start + k
}

/// Every packet of `batch` is one that a generator with these port counts
/// makes at time `now`, with the priority drawn for its place in the batch.
pub open spec fn well_formed_batch(
    batch: Seq<Packet>,
    priorities: Seq<u32>,
    incoming: nat,
    outgoing: nat,
    now: u64,
) -> bool {
    forall|k: int|
        0 <= k < batch.len() ==> {
            &&& #[trigger] batch[k].priority == priorities[k]
            &&& batch[k].incoming_source < incoming
            &&& batch[k].outgoing_source < outgoing
            &&& 1 <= batch[k].data@.len() <= MAX_PAYLOAD_LEN
            &&& batch[k].incoming_time == now
        }
}

impl PacketGenerator {
    /// The id that the next packet gets.
    pub closed spec fn next_id(&self) -> u64 {
        self.global_packet_id_counter
    }

    pub closed spec fn spec_incoming_sources(&self) -> nat {
        self.incoming_sources as nat
    }

    pub closed spec fn spec_outgoing_sources(&self) -> nat {
        self.outgoing_sources as nat
    }

    pub closed spec fn spec_max_per_tick(&self) -> nat {
        self.max_per_tick as nat
    }

    pub closed spec fn wf(&self) -> bool {
        &&& 0 < self.incoming_sources <= u32::MAX
        &&& 0 < self.outgoing_sources <= u32::MAX
    }

    /// A generator with the default cap on packets per tick.
    pub fn new(incoming_sources: usize, outgoing_sources: usize) -> (r: Result<Self, PacketError>)
        requires
            incoming_sources <= u32::MAX,
            outgoing_sources <= u32::MAX,
        ensures
            match r {
                Ok(g) => {
                    &&& incoming_sources > 0 && outgoing_sources > 0
                    &&& g.wf()
                    &&& g.next_id() == 0
                    &&& g.spec_incoming_sources() == incoming_sources
                    &&& g.spec_outgoing_sources() == outgoing_sources
                    &&& g.spec_max_per_tick() == MAX_PACKETS_PER_TICK
                },
                Err(e) => e == PacketError::InvalidParameter && (incoming_sources == 0
                    || outgoing_sources == 0),
            },
    {
        Self::with_max_per_tick(incoming_sources, outgoing_sources, MAX_PACKETS_PER_TICK)
    }

    /// A generator that makes at most `max_per_tick` packets per tick.
    pub fn with_max_per_tick(
        incoming_sources: usize,
        outgoing_sources: usize,
        max_per_tick: usize,
    ) -> (r: Result<Self, PacketError>)
        requires
            incoming_sources <= u32::MAX,
            outgoing_sources <= u32::MAX,
        ensures
            match r {
                Ok(g) => {
                    &&& incoming_sources > 0 && outgoing_sources > 0
                    &&& g.wf()
                    &&& g.next_id() == 0
                    &&& g.spec_incoming_sources() == incoming_sources
                    &&& g.spec_outgoing_sources() == outgoing_sources
                    &&& g.spec_max_per_tick() == max_per_tick
                },
                Err(e) => e == PacketError::InvalidParameter && (incoming_sources == 0
                    || outgoing_sources == 0),
            },
    {
        if incoming_sources == 0 || outgoing_sources == 0 {
            return Err(PacketError::InvalidParameter);
        }
        Ok(
            PacketGenerator {
                global_packet_id_counter: 0,
                incoming_sources,
                outgoing_sources,
                max_per_tick,
                rng: entropy_rng(),
            },
        )
    }

    /// The same generator, with `first_id` as the id of its next packet.
    /// The counter only moves forward, so no id is issued twice.
    pub fn with_first_id(self, first_id: u64) -> (r: Self)
        requires
            first_id >= self.next_id(),
        ensures
            r.wf() == self.wf(),
            r.next_id() == first_id,
            r.spec_incoming_sources() == self.spec_incoming_sources(),
            r.spec_outgoing_sources() == self.spec_outgoing_sources(),
            r.spec_max_per_tick() == self.spec_max_per_tick(),
    {
        PacketGenerator { global_packet_id_counter: first_id, ..self }
    }

    /// The same generator, drawing from a source seeded with `seed`, so
    /// that its payloads and ports are reproducible.
    pub fn with_seed(self, seed: u64) -> (r: Self)
        ensures
            r.wf() == self.wf(),
            r.next_id() == self.next_id(),
            r.spec_incoming_sources() == self.spec_incoming_sources(),
            r.spec_outgoing_sources() == self.spec_outgoing_sources(),
            r.spec_max_per_tick() == self.spec_max_per_tick(),
    {
        PacketGenerator { rng: seeded_rng(seed), ..self }
    }

    pub fn incoming_sources(&self) -> (r: usize)
        ensures
            r == self.spec_incoming_sources(),
    {
        self.incoming_sources
    }

    pub fn outgoing_sources(&self) -> (r: usize)
        ensures
            r == self.spec_outgoing_sources(),
    {
        self.outgoing_sources
    }

    pub fn max_per_tick(&self) -> (r: usize)
        ensures
            r == self.spec_max_per_tick(),
    {
        self.max_per_tick
    }

    /// The id that the next generated packet will carry.
    pub fn peek_next_id(&self) -> (r: u64)
        ensures
            r == self.next_id(),
    {
        self.global_packet_id_counter
    }

    /// The number of packets that a tick whose arrival draw is `sample`
    /// produces: the draw, capped at the generator's limit.
    pub fn arrival_count(&self, sample: u64) -> (r: usize)
        ensures
            r == capped(sample, self.spec_max_per_tick()),
            r <= self.spec_max_per_tick(),
    {
        if sample < self.max_per_tick as u64 {
            sample as usize
        } else {
            self.max_per_tick
        }
    }

    /// Makes the batch of one tick. `arrival_sample` is the drawn arrival
    /// count, of which at most the cap is used; packet `k` of the batch gets
    /// priority `priorities[k]`, the next free id, a payload of 1 to 100
    /// random bytes, random ports, and arrival time `now`. Fails without
    /// any effect when the id space cannot hold the batch.
    pub fn generate_packets(
        &mut self,
        arrival_sample: u64,
        priorities: &Vec<u32>,
        now: u64,
    ) -> (r: Result<Vec<Packet>, PacketError>)
        requires
            old(self).wf(),
            priorities@.len() >= capped(arrival_sample, old(self).spec_max_per_tick()),
        ensures
            final(self).wf(),
            final(self).spec_incoming_sources() == old(self).spec_incoming_sources(),
            final(self).spec_outgoing_sources() == old(self).spec_outgoing_sources(),
            final(self).spec_max_per_tick() == old(self).spec_max_per_tick(),
            final(self).next_id() >= old(self).next_id(),
            match r {
                Ok(batch) => {
                    &&& old(self).next_id() + capped(
                        arrival_sample,
                        old(self).spec_max_per_tick(),
                    ) <= u64::MAX
                    &&& batch@.len() == capped(
                        arrival_sample,
                        old(self).spec_max_per_tick(),
                    )
                    &&& batch@.len() <= old(self).spec_max_per_tick()
                    &&& ids_from(batch@, old(self).next_id() as int)
                    &&& final(self).next_id() == old(self).next_id() + batch@.len()
                    &&& well_formed_batch(
                        batch@,
                        priorities@,
                        old(self).spec_incoming_sources(),
                        old(self).spec_outgoing_sources(),
                        now,
                    )
                },
                Err(e) => {
                    &&& e == PacketError::CounterOverflow
                    &&& old(self).next_id() + capped(
                        arrival_sample,
                        old(self).spec_max_per_tick(),
                    ) > u64::MAX
                    &&& *final(self) == *old(self)
                },
            },
    {
        let n = self.arrival_count(arrival_sample);
        if n as u64 > u64::MAX - self.global_packet_id_counter {
            return Err(PacketError::CounterOverflow);
        }
        let ghost start = self.global_packet_id_counter as int;
        let mut packets: Vec<Packet> = Vec::new();
        let mut k: usize = 0;
        while k < n
            invariant
                self.wf(),
                self.incoming_sources == old(self).incoming_sources,
                self.outgoing_sources == old(self).outgoing_sources,
                self.max_per_tick == old(self).max_per_tick,
                start == old(self).global_packet_id_counter,
                n == capped(arrival_sample, self.max_per_tick as nat),
                n <= priorities@.len(),
                start + n <= u64::MAX,
                k <= n,
                packets@.len() == k,
                self.global_packet_id_counter == start + k,
                ids_from(packets@, start),
                well_formed_batch(
                    packets@,
                    priorities@,
                    self.incoming_sources as nat,
                    self.outgoing_sources as nat,
                    now,
                ),
            decreases n - k,
        {
            let priority = priorities[k];
            let data_len = random_range(&mut self.rng, 1, (MAX_PAYLOAD_LEN + 1) as u32);
            let data = random_bytes(&mut self.rng, data_len as usize);
            let incoming_source = random_range(&mut self.rng, 0, self.incoming_sources as u32);
            let outgoing_source = random_range(&mut self.rng, 0, self.outgoing_sources as u32);
            let packet = Packet {
                id: self.global_packet_id_counter,
                priority,
                data,
                incoming_source,
                outgoing_source,
                incoming_time: now,
            };
            packets.push(packet);
            self.global_packet_id_counter = self.global_packet_id_counter + 1;
            k = k + 1;
        }
        Ok(packets)
    }
}

/// Ids are unique and strictly increasing over a run: a batch made after
/// another, with any calls in between, starts at or above the id where the
/// earlier one ended, so every id of the later batch exceeds every id of
/// the earlier one, and the two taken in generation order increase.
pub proof fn lemma_ids_strictly_increase(
    first: Seq<Packet>,
    second: Seq<Packet>,
    start: int,
    later_start: int,
)
    requires
        ids_from(first, start),
        ids_from(second, later_start),
        later_start >= start + first.len(),
    ensures
        forall|i: int, j: int|
            0 <= i < first.len() && 0 <= j < second.len() ==> #[trigger] first[i].id
                < #[trigger] second[j].id,
        forall|i: int, j: int|
            0 <= i < j < first.len() + second.len() ==> (first + second)[i].id < (first
                + second)[j].id,
{
    let all = first + second;
    assert forall|i: int, j: int| 0 <= i < j < all.len() implies all[i].id < all[j].id by {
        if j < first.len() {
            assert(all[i] == first[i] && all[j] == first[j]);
        } else if i < first.len() {
            assert(all[i] == first[i] && all[j] == second[j - first.len()]);
        } else {
            assert(all[i] == second[i - first.len()] && all[j] == second[j - first.len()]);
        }
    }
}

} // verus!
