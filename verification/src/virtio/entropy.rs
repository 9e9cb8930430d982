//! The entropy device: random bytes, read through one queue.

use vstd::prelude::*;
use crate::virtio::{
    activate_trace, enqueue_trace, features_accepted, features_trace, lemma_enqueue_ordered,
    offered, poll_trace, reset_trace, seen, settled, submission_ordered, Desc, Op, Phase,
    Progress, Queue, QueueAddr, QueueView, Transport, TransportView, VirtioError, DESC_WRITE,
};

verus! {

/// The features that the entropy driver wants: none.
pub const ENTROPY_DEVICE_FEATURES: u32 = 0;

/// The one buffer of a request: the device fills all of it.
pub open spec fn entropy_desc(data: u64, len: u32) -> Desc {
    Desc { addr: data, len, flags: DESC_WRITE, next: 0 }
}

/// What the owner of the hardware does for one request, when the available
/// index is `idx`: it stores the buffer into slot 0, offers it on queue 0
/// and unmasks the interrupt.
pub open spec fn entropy_trace(data: u64, len: u32, idx: u16) -> Seq<Op> {
    seq![Op::Descriptor { queue: 0, slot: 0, desc: entropy_desc(data, len) }] + enqueue_trace(
        0,
        idx,
        0,
    ) + seq![Op::EnableIrq]
}

/// The driver of an entropy device.
pub struct VirtIOEntropy {
    transport: Transport,
    queue: Queue,
}

/// What the driver of an entropy device is made of.
pub struct EntropyView {
    pub transport: TransportView,
    pub queue: QueueView,
}

impl View for VirtIOEntropy {
    type V = EntropyView;

    closed spec fn view(&self) -> EntropyView {
        EntropyView { transport: self.transport@, queue: self.queue@ }
    }
}

impl VirtIOEntropy {
    /// The queue has its 128 slots.
    pub closed spec fn wf(&self) -> bool {
        self.queue.wf() && self.transport.wf()
    }

    /// Starts the bring-up of an entropy device whose queue lies at `addr`.
    /// Returns the driver and the first stores; the load at their end gives
    /// the device's features, for [`VirtIOEntropy::negotiate`].
    pub fn new(queue: Queue, addr: QueueAddr) -> (r: (VirtIOEntropy, Vec<Op>))
        requires
            queue.wf(),
        ensures
            r.0.wf(),
            r.0@.transport == (TransportView {
                wanted: ENTROPY_DEVICE_FEATURES,
                queues: seq![addr],
                phase: Phase::Negotiating,
            }),
            r.0@.queue == queue@,
            r.1@ == reset_trace(),
    {
        let queues = vec![addr];
        assert(queues@ =~= seq![addr]);
        let (transport, ops) = Transport::new(ENTROPY_DEVICE_FEATURES, queues);
        (VirtIOEntropy { transport, queue }, ops)
    }

    /// How far the bring-up has come.
    pub fn phase(&self) -> (r: Phase)
        ensures
            r == self@.transport.phase,
    {
        self.transport.phase()
    }

    /// Chooses the features; see [`Transport::negotiate`].
    pub fn negotiate(&mut self, device_features: u32) -> (ops: Vec<Op>)
        requires
            old(self)@.transport.phase == Phase::Negotiating,
        ensures
            final(self).wf() == old(self).wf(),
            final(self)@ == (EntropyView {
                transport: TransportView { phase: Phase::Confirming, ..old(self)@.transport },
                ..old(self)@
            }),
            ops@ == features_trace(old(self)@.transport.wanted, device_features),
    {
        self.transport.negotiate(device_features)
    }

    /// Installs the queue and starts the device, or fails where the device
    /// has not kept FEATURES_OK in `status`; see [`Transport::activate`].
    pub fn activate(&mut self, status: u32) -> (r: Result<Vec<Op>, VirtioError>)
        requires
            old(self).wf(),
            old(self)@.transport.phase == Phase::Confirming,
        ensures
            final(self).wf(),
            match r {
                Ok(ops) => features_accepted(status) && ops@ == activate_trace(
                    old(self)@.transport.queues,
                ) && final(self)@ == (EntropyView {
                    transport: TransportView { phase: Phase::Ready, ..old(self)@.transport },
                    ..old(self)@
                }),
                Err(e) => !features_accepted(status) && e == VirtioError::FeaturesRejected
                    && final(self)@ == (EntropyView {
                    transport: TransportView { phase: Phase::Failed, ..old(self)@.transport },
                    ..old(self)@
                }),
            },
    {
        self.transport.activate(status)
    }

    /// Asks for `len` random bytes into the buffer at `data`. Returns the
    /// stores and barriers to make, in order. The request is complete when
    /// [`VirtIOEntropy::poll`] says so.
    pub fn read(&mut self, data: u64, len: u32) -> (ops: Vec<Op>)
        requires
            old(self).wf(),
        ensures
            final(self).wf(),
            ops@ == entropy_trace(data, len, old(self)@.queue.available.idx),
            submission_ordered(ops@),
            final(self)@.transport == old(self)@.transport,
            final(self)@.queue == offered(
                QueueView {
                    descriptors: old(self)@.queue.descriptors.update(0, entropy_desc(data, len)),
                    ..old(self)@.queue
                },
                0,
            ),
    {
        let ghost idx = self.queue@.available.idx;
        let d0 = self.queue.describe(
            0,
            0,
            Desc { addr: data, len, flags: DESC_WRITE, next: 0 },
        );
        let mut ops = vec![d0];
        let ghost descs = ops@;
        let mut offer = self.queue.enqueue(0, 0);
        ops.append(&mut offer);
        ops.push(Op::EnableIrq);
        proof {
            assert(ops@ =~= entropy_trace(data, len, idx));
            assert(ops@ =~= descs + enqueue_trace(0, idx, 0) + seq![Op::EnableIrq]);
            lemma_enqueue_ordered(descs, 0, idx, 0, seq![Op::EnableIrq]);
        }
        ops
    }

    /// Looks whether the request is complete; see [`Queue::poll`].
    pub fn poll(&mut self, used_idx: u16, interrupt_status: u32) -> (r: Progress)
        ensures
            final(self).wf() == old(self).wf(),
            final(self)@.transport == old(self)@.transport,
            final(self)@.queue == seen(old(self)@.queue, used_idx),
            r.done == settled(final(self)@.queue),
            r.ops@ == poll_trace(interrupt_status, r.done),
    {
        self.queue.poll(used_idx, interrupt_status)
    }
}

} // verus!
