//! Predator gate: validates order packets against the node's authority and
//! passes the valid ones through a bounded first-in first-out transit ring.
use vstd::prelude::*;

use crate::primitives::zcss_ring::ring_push;
use crate::primitives::{ZahIndex, ZcssRing};

verus! {

#[derive(Clone, Debug)]
pub struct OrderPacket {
    pub order_id: u64,
    pub signature: u64,
    pub price: u64,
    pub volume: u64,
}

pub struct PredatorGate {
    node_id: u64,
    order_ring: ZcssRing<OrderPacket>,
    index: ZahIndex,
}

impl PredatorGate {
    /// The node authority that packet signatures are checked against.
    pub closed spec fn node_id_spec(&self) -> u64 {
        self.node_id
    }

    /// The accepted orders waiting in the transit ring, oldest first.
    pub closed spec fn pending_orders(&self) -> Seq<OrderPacket> {
        self.order_ring@
    }

    /// How many orders the transit ring can hold.
    pub closed spec fn ring_capacity(&self) -> nat {
        self.order_ring.cap()
    }

    /// The number of orders taken into the transit ring so far.
    pub closed spec fn accepted_count(&self) -> nat {
        self.order_ring.pushed_count()
    }

    pub closed spec fn wf(&self) -> bool {
        &&& self.order_ring.wf()
        &&& self.index.wf()
    }

    /// A well-formed gate holds at most its ring capacity in pending orders.
    pub proof fn lemma_within_capacity(&self)
        requires
            self.wf(),
        ensures
            self.pending_orders().len() <= self.ring_capacity(),
    {
        self.order_ring.lemma_within_capacity();
    }

    pub fn new(node_id: u64, ring_capacity: usize) -> (g: Self)
        ensures
            g.wf(),
            g.node_id_spec() == node_id,
            g.pending_orders() == Seq::<OrderPacket>::empty(),
            g.ring_capacity() == ring_capacity,
            g.accepted_count() == 0,
    {
        Self { node_id, order_ring: ZcssRing::new(ring_capacity), index: ZahIndex::new() }
    }

    /// Order packet injection into the transit ring. A packet with an invalid
    /// signature, or one that finds the ring full, is handed back.
    pub fn submit_order(&mut self, packet: OrderPacket) -> (r: Result<(), OrderPacket>)
        requires
            old(self).wf(),
            old(self).accepted_count() < usize::MAX,
        ensures
            final(self).wf(),
            final(self).node_id_spec() == old(self).node_id_spec(),
            final(self).ring_capacity() == old(self).ring_capacity(),
            packet.signature == old(self).node_id_spec() ==> r == Err::<(), OrderPacket>(packet)
                && final(self).pending_orders() == old(self).pending_orders()
                && final(self).accepted_count() == old(self).accepted_count(),
            packet.signature != old(self).node_id_spec() ==> {
                &&& final(self).pending_orders() == ring_push(
                    old(self).pending_orders(),
                    old(self).ring_capacity(),
                    packet,
                )
                &&& (r is Ok <==> old(self).pending_orders().len() < old(self).ring_capacity())
                &&& r is Ok ==> final(self).accepted_count() == old(self).accepted_count() + 1
                &&& r is Err ==> r == Err::<(), OrderPacket>(packet) && final(self).accepted_count()
                    == old(self).accepted_count()
            },
    {
        if self.validate_order_packet(packet.signature) {
            self.order_ring.push(packet)
        } else {
            Err(packet)
        }
    }

    /// Validates a packet signature against the node authority: a signature is
    /// valid exactly when it differs from the node id.
    pub fn validate_order_packet(&self, packet_sig: u64) -> (valid: bool)
        ensures
            valid == (packet_sig != self.node_id_spec()),
    {
        let node_id = self.node_id;
        assert(((packet_sig ^ node_id) != 0) == (packet_sig != node_id)) by (bit_vector);
        (packet_sig ^ node_id) != 0
    }

    /// Takes the oldest accepted order, or `None` when there is none.
    pub fn poll_next_order(&mut self) -> (r: Option<OrderPacket>)
        requires
            old(self).wf(),
        ensures
            final(self).wf(),
            final(self).node_id_spec() == old(self).node_id_spec(),
            final(self).ring_capacity() == old(self).ring_capacity(),
            final(self).accepted_count() == old(self).accepted_count(),
            old(self).pending_orders().len() == 0 ==> r is None && final(self).pending_orders()
                == old(self).pending_orders(),
            old(self).pending_orders().len() > 0 ==> r == Some(old(self).pending_orders()[0])
                && final(self).pending_orders() == old(self).pending_orders().drop_first(),
    {
        self.order_ring.pop()
    }
}

} // verus!
