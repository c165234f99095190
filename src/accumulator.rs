//! Coalescing deliveries of packet batches within one call: after the first
//! delivery, more are taken while the deadline has not passed and the
//! packet count is under its ceiling.
use vstd::prelude::*;
use crate::pipeline::deliveries_packets;
use crate::stats::Packet;

verus! {

/// `n` held in a `usize`, saturating at its largest value.
pub open spec fn sat_usize(n: int) -> usize {
    if n > usize::MAX { usize::MAX } else { n as usize }
}

/// How many packets a sequence of deliveries holds.
pub open spec fn packet_total(ds: Seq<Vec<Vec<Packet>>>) -> int {
    deliveries_packets(ds).len() as int
}

/// The deliveries taken so far in one call, and their packet count.
pub struct PacketBatchAccumulator {
    packet_count: usize,
    packet_count_upperbound: usize,
    deliveries: Vec<Vec<Vec<Packet>>>,
}

impl PacketBatchAccumulator {
    pub closed spec fn deliveries_spec(&self) -> Seq<Vec<Vec<Packet>>> {
        self.deliveries@
    }

    pub closed spec fn count_spec(&self) -> usize {
        self.packet_count
    }

    pub closed spec fn upperbound_spec(&self) -> usize {
        self.packet_count_upperbound
    }

    /// At least one delivery; the count is that of the deliveries,
    /// saturating; and every delivery but the first was taken while the
    /// count before it was under the ceiling.
    pub closed spec fn wf(&self) -> bool {
        &&& self.deliveries@.len() >= 1
        &&& self.packet_count == sat_usize(packet_total(self.deliveries@))
        &&& forall|j: int| 1 <= j < self.deliveries@.len() ==>
            #[trigger] sat_usize(packet_total(self.deliveries@.take(j))) < self.packet_count_upperbound
    }

    /// The packets in one delivery, saturating at the largest `usize`.
    pub fn delivery_len(delivery: &Vec<Vec<Packet>>) -> (r: usize)
        ensures
            r == sat_usize(crate::pipeline::batches_packets(delivery@).len() as int),
    {
        let mut n: usize = 0;
        let mut j: usize = 0;
        while j < delivery.len()
            invariant
                j <= delivery@.len(),
                n == sat_usize(crate::pipeline::batches_packets(delivery@.take(j as int)).len() as int),
            decreases delivery@.len() - j,
        {
            n = n.saturating_add(delivery[j].len());
            j = j + 1;
            assert(delivery@.take(j as int).drop_last() =~= delivery@.take(j - 1));
        }
        assert(delivery@.take(j as int) =~= delivery@);
        n
    }

    /// Starts a call's accumulation with the delivery of its one blocking
    /// receive.
    pub fn new(first: Vec<Vec<Packet>>, packet_count_upperbound: usize) -> (r: Self)
        ensures
            r.wf(),
            r.deliveries_spec() == seq![first],
            r.count_spec() == sat_usize(packet_total(r.deliveries_spec())),
            r.upperbound_spec() == packet_count_upperbound,
    {
        let packet_count = Self::delivery_len(&first);
        let ghost g = first;
        let mut deliveries: Vec<Vec<Vec<Packet>>> = Vec::new();
        deliveries.push(first);
        proof {
            assert(deliveries@.drop_last() =~= Seq::<Vec<Vec<Packet>>>::empty());
            assert(deliveries@ =~= seq![g]);
            assert(deliveries@.last() == g);
            assert(deliveries_packets(deliveries@.drop_last()) =~= Seq::<Packet>::empty());
            assert(deliveries_packets(deliveries@) =~= crate::pipeline::batches_packets(g@));
        }
        PacketBatchAccumulator { packet_count, packet_count_upperbound, deliveries }
    }

    /// Whether to poll for another delivery: only while the deadline has not
    /// passed and the count is under the ceiling.
    pub fn should_poll(&self, deadline_passed: bool) -> (r: bool)
        ensures
            r == (!deadline_passed && self.count_spec() < self.upperbound_spec()),
    {
        !deadline_passed && self.packet_count < self.packet_count_upperbound
    }

    /// Adds a delivery that a poll returned.
    pub fn push(&mut self, delivery: Vec<Vec<Packet>>)
        requires
            old(self).wf(),
            old(self).count_spec() < old(self).upperbound_spec(),
        ensures
            final(self).wf(),
            final(self).deliveries_spec() == old(self).deliveries_spec().push(delivery),
            final(self).count_spec() == sat_usize(packet_total(final(self).deliveries_spec())),
            final(self).upperbound_spec() == old(self).upperbound_spec(),
    {
        let n = Self::delivery_len(&delivery);
        let ghost prev = self.deliveries@;
        self.packet_count = self.packet_count.saturating_add(n);
        self.deliveries.push(delivery);
        proof {
            assert(self.deliveries@.drop_last() =~= prev);
            assert forall|j: int| 1 <= j < self.deliveries@.len() implies
                #[trigger] sat_usize(packet_total(self.deliveries@.take(j))) < self.packet_count_upperbound by {
                if j < prev.len() {
                    assert(self.deliveries@.take(j) =~= prev.take(j));
                } else {
                    assert(self.deliveries@.take(j) =~= prev);
                }
            }
        }
    }

    /// The packet count and the deliveries, in the order they came.
    pub fn into_parts(self) -> (r: (usize, Vec<Vec<Vec<Packet>>>))
        requires
            self.wf(),
        ensures
            r.0 == sat_usize(packet_total(r.1@)),
            r.1@ == self.deliveries_spec(),
            r.1@.len() >= 1,
            forall|j: int| 1 <= j < r.1@.len() ==>
                #[trigger] sat_usize(packet_total(r.1@.take(j))) < self.upperbound_spec(),
    {
        (self.packet_count, self.deliveries)
    }
}

} // verus!
