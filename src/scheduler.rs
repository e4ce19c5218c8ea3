//! The capability set shared by scheduling policies: packets go in one at a
//! time, and leave a round at a time with their latencies recorded.

use crate::fifo::{
    enqueued, round_records, served_queues, served_slots, FifoScheduler, LatencyRecord,
};
use crate::packet::Packet;
use vstd::prelude::*;

verus! {

pub trait PacketScheduler {
    /// The scheduler's internal state is consistent.
    spec fn well_formed(&self) -> bool;

    /// `packet` names an ingress port that this scheduler has.
    spec fn accepts(&self, packet: Packet) -> bool;

    /// Another round can be counted.
    spec fn can_serve(&self) -> bool;

    /// `after` is this scheduler once `packet` has been enqueued.
    spec fn enqueued_to(&self, after: &Self, packet: Packet) -> bool;

    /// `after` is this scheduler once a round has been served at time
    /// `now`, and `records` are the latencies that the round recorded.
    spec fn served_to(&self, after: &Self, now: u64, records: Seq<LatencyRecord>) -> bool;

    fn enqueue(&mut self, packet: Packet)
        requires
            old(self).well_formed(),
            old(self).accepts(packet),
        ensures
            final(self).well_formed(),
            old(self).enqueued_to(&*final(self), packet),
    ;

    fn serve_round(&mut self, now: u64) -> (r: Vec<LatencyRecord>)
        requires
            old(self).well_formed(),
            old(self).can_serve(),
        ensures
            final(self).well_formed(),
            old(self).served_to(&*final(self), now, r@),
    ;
}

impl PacketScheduler for FifoScheduler {
    open spec fn well_formed(&self) -> bool {
        self.wf()
    }

    open spec fn accepts(&self, packet: Packet) -> bool {
        packet.incoming_source < self.spec_ports()
    }

    open spec fn can_serve(&self) -> bool {
        self.spec_round() < u64::MAX
    }

    open spec fn enqueued_to(&self, after: &Self, packet: Packet) -> bool {
        &&& after.queues() == enqueued(self.queues(), packet)
        &&& after.slots() == self.slots()
        &&& after.spec_round() == self.spec_round()
    }

    open spec fn served_to(&self, after: &Self, now: u64, records: Seq<LatencyRecord>) -> bool {
        &&& after.queues() == served_queues(self.queues())
        &&& after.slots() == served_slots(self.queues(), self.slots(), now)
        &&& records == round_records(self.queues(), now, self.spec_ports() as int)
        &&& after.spec_round() == self.spec_round() + 1
    }

    fn enqueue(&mut self, packet: Packet) {
        FifoScheduler::enqueue(self, packet);
    }

    fn serve_round(&mut self, now: u64) -> (r: Vec<LatencyRecord>) {
        let r = self.serve_packets(now);
        r
    }
}

} // verus!
