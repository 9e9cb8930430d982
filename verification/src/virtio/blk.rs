//! The block device: sectors of 512 bytes, read and written through one
//! queue, one request at a time.

use vstd::prelude::*;
use crate::utils::{Endian, Little};
use crate::virtio::{
    activate_trace, enqueue_trace, features_accepted, features_trace, lemma_enqueue_ordered,
    offered, poll_trace, reset_trace, seen, settled, submission_ordered, Desc, Op, Phase,
    Progress, Queue, QueueAddr, QueueView, Transport, TransportView, VirtioError, DESC_NEXT,
    DESC_WRITE,
};

verus! {

/// The features that the block driver wants: none.
pub const BLK_DEVICE_FEATURES: u32 = 0;

/// Bytes in a sector.
pub const SECTOR_SIZE: u32 = 512;

/// Bytes in a request header.
pub const BLK_HEADER_LEN: u32 = 16;

/// Request type: the device fills the buffer from the sector.
pub const BLK_READ: u32 = 0;

/// Request type: the device stores the buffer into the sector.
pub const BLK_WRITE: u32 = 1;

/// The head of every request: what to do, and on which sector.
pub struct BlkReqHdr {
    pub req_type: Endian<u32, Little>,
    pub reserved: u32,
    pub sector: Endian<u64, Little>,
}

/// Where the three buffers of a request lie in physical memory: the header
/// of 16 bytes, the sector of 512 bytes, and the status byte.
#[derive(Clone, Copy, Debug, PartialEq, Eq, Structural)]
pub struct BlkBuffers {
    pub header: u64,
    pub data: u64,
    pub status: u64,
}

/// The chain of a request: header out, sector in the direction that
/// `data_flags` gives, status byte in.
pub open spec fn blk_chain(buffers: BlkBuffers, data_flags: u16) -> Seq<Desc> {
    seq![
        Desc { addr: buffers.header, len: BLK_HEADER_LEN, flags: DESC_NEXT, next: 1 },
        Desc { addr: buffers.data, len: SECTOR_SIZE, flags: data_flags, next: 2 },
        Desc { addr: buffers.status, len: 1, flags: DESC_WRITE, next: 0 },
    ]
}

/// What the owner of the hardware does for one request, when the available
/// index is `idx`: it stores the chain into slots 0 to 2, offers slot 0 on
/// queue 0 and unmasks the interrupt.
pub open spec fn blk_trace(buffers: BlkBuffers, data_flags: u16, idx: u16) -> Seq<Op> {
    let chain = blk_chain(buffers, data_flags);
    seq![
        Op::Descriptor { queue: 0, slot: 0, desc: chain[0] },
        Op::Descriptor { queue: 0, slot: 1, desc: chain[1] },
        Op::Descriptor { queue: 0, slot: 2, desc: chain[2] },
    ] + enqueue_trace(0, idx, 0) + seq![Op::EnableIrq]
}

/// The queue after a request was put into it.
pub open spec fn blk_queued(q: QueueView, buffers: BlkBuffers, data_flags: u16) -> QueueView {
    let chain = blk_chain(buffers, data_flags);
    offered(
        QueueView {
            descriptors: q.descriptors.update(0, chain[0]).update(1, chain[1]).update(
                2,
                chain[2],
            ),
            ..q
        },
        0,
    )
}

/// The driver of a block device.
pub struct VirtIOBlk {
    transport: Transport,
    queue: Queue,
}

/// What the driver of a block device is made of.
pub struct BlkView {
    pub transport: TransportView,
    pub queue: QueueView,
}

impl View for VirtIOBlk {
    type V = BlkView;

    closed spec fn view(&self) -> BlkView {
        BlkView { transport: self.transport@, queue: self.queue@ }
    }
}

impl VirtIOBlk {
    /// The queue has its 128 slots.
    pub closed spec fn wf(&self) -> bool {
        self.queue.wf() && self.transport.wf()
    }

    /// Starts the bring-up of a block device whose queue lies at `addr`.
    /// Returns the driver and the first stores; the load at their end gives
    /// the device's features, for [`VirtIOBlk::negotiate`].
    pub fn new(queue: Queue, addr: QueueAddr) -> (r: (VirtIOBlk, Vec<Op>))
        requires
            queue.wf(),
        ensures
            r.0.wf(),
            r.0@.transport == (TransportView {
                wanted: BLK_DEVICE_FEATURES,
                queues: seq![addr],
                phase: Phase::Negotiating,
            }),
            r.0@.queue == queue@,
            r.1@ == reset_trace(),
    {
        let queues = vec![addr];
        assert(queues@ =~= seq![addr]);
        let (transport, ops) = Transport::new(BLK_DEVICE_FEATURES, queues);
        (VirtIOBlk { transport, queue }, ops)
    }

    /// How far the bring-up has come.
    pub fn phase(&self) -> (r: Phase)
        ensures
            r == self@.transport.phase,
    {
        self.transport.phase()
    }

    /// Chooses the features; see [`Transport::negotiate`].
    pub fn negotiate(&mut self, device_features: u32) -> (ops: Vec<Op>)
        requires
            old(self)@.transport.phase == Phase::Negotiating,
        ensures
            final(self).wf() == old(self).wf(),
            final(self)@ == (BlkView {
                transport: TransportView { phase: Phase::Confirming, ..old(self)@.transport },
                ..old(self)@
            }),
            ops@ == features_trace(old(self)@.transport.wanted, device_features),
    {
        self.transport.negotiate(device_features)
    }

    /// Installs the queue and starts the device, or fails where the device
    /// has not kept FEATURES_OK in `status`; see [`Transport::activate`].
    pub fn activate(&mut self, status: u32) -> (r: Result<Vec<Op>, VirtioError>)
        requires
            old(self).wf(),
            old(self)@.transport.phase == Phase::Confirming,
        ensures
            final(self).wf(),
            match r {
                Ok(ops) => features_accepted(status) && ops@ == activate_trace(
                    old(self)@.transport.queues,
                ) && final(self)@ == (BlkView {
                    transport: TransportView { phase: Phase::Ready, ..old(self)@.transport },
                    ..old(self)@
                }),
                Err(e) => !features_accepted(status) && e == VirtioError::FeaturesRejected
                    && final(self)@ == (BlkView {
                    transport: TransportView { phase: Phase::Failed, ..old(self)@.transport },
                    ..old(self)@
                }),
            },
    {
        self.transport.activate(status)
    }

    fn request(&mut self, req_type: u32, sector: u64, buffers: BlkBuffers, data_flags: u16) -> (r: (
        BlkReqHdr,
        Vec<Op>,
    ))
        requires
            old(self).wf(),
        ensures
            final(self).wf(),
            r.0.req_type.value() == req_type,
            r.0.reserved == 0,
            r.0.sector.value() == sector,
            r.1@ == blk_trace(buffers, data_flags, old(self)@.queue.available.idx),
            submission_ordered(r.1@),
            final(self)@.transport == old(self)@.transport,
            final(self)@.queue == blk_queued(old(self)@.queue, buffers, data_flags),
    {
        let header = BlkReqHdr {
            req_type: Endian::new(req_type),
            reserved: 0,
            sector: Endian::new(sector),
        };
        let ghost idx = self.queue@.available.idx;
        let d0 = self.queue.describe(
            0,
            0,
            Desc { addr: buffers.header, len: BLK_HEADER_LEN, flags: DESC_NEXT, next: 1 },
        );
        let d1 = self.queue.describe(
            0,
            1,
            Desc { addr: buffers.data, len: SECTOR_SIZE, flags: data_flags, next: 2 },
        );
        let d2 = self.queue.describe(
            0,
            2,
            Desc { addr: buffers.status, len: 1, flags: DESC_WRITE, next: 0 },
        );
        let mut ops = vec![d0, d1, d2];
        let ghost descs = ops@;
        let mut offer = self.queue.enqueue(0, 0);
        ops.append(&mut offer);
        ops.push(Op::EnableIrq);
        proof {
            assert(ops@ =~= blk_trace(buffers, data_flags, idx));
            assert(ops@ =~= descs + enqueue_trace(0, idx, 0) + seq![Op::EnableIrq]);
            lemma_enqueue_ordered(descs, 0, idx, 0, seq![Op::EnableIrq]);
        }
        (header, ops)
    }

    /// Asks for sector `sector` to be read into the data buffer. Returns
    /// the header to put into the header buffer, and the stores and barriers
    /// to make after that, in order. The request is complete when
    /// [`VirtIOBlk::poll`] says so.
    pub fn read(&mut self, sector: u64, buffers: BlkBuffers) -> (r: (BlkReqHdr, Vec<Op>))
        requires
            old(self).wf(),
        ensures
            final(self).wf(),
            r.0.req_type.value() == BLK_READ,
            r.0.reserved == 0,
            r.0.sector.value() == sector,
            r.1@ == blk_trace(buffers, DESC_WRITE | DESC_NEXT, old(self)@.queue.available.idx),
            submission_ordered(r.1@),
            final(self)@.transport == old(self)@.transport,
            final(self)@.queue == blk_queued(old(self)@.queue, buffers, DESC_WRITE | DESC_NEXT),
    {
        self.request(BLK_READ, sector, buffers, DESC_WRITE | DESC_NEXT)
    }

    /// Asks for the data buffer to be written to sector `sector`. Returns
    /// the header to put into the header buffer, and the stores and barriers
    /// to make after that, in order.
    pub fn write(&mut self, sector: u64, buffers: BlkBuffers) -> (r: (BlkReqHdr, Vec<Op>))
        requires
            old(self).wf(),
        ensures
            final(self).wf(),
            r.0.req_type.value() == BLK_WRITE,
            r.0.reserved == 0,
            r.0.sector.value() == sector,
            r.1@ == blk_trace(buffers, DESC_NEXT, old(self)@.queue.available.idx),
            submission_ordered(r.1@),
            final(self)@.transport == old(self)@.transport,
            final(self)@.queue == blk_queued(old(self)@.queue, buffers, DESC_NEXT),
    {
        self.request(BLK_WRITE, sector, buffers, DESC_NEXT)
    }

    /// Looks whether the request is complete; see [`Queue::poll`].
    pub fn poll(&mut self, used_idx: u16, interrupt_status: u32) -> (r: Progress)
        ensures
            final(self).wf() == old(self).wf(),
            final(self)@.transport == old(self)@.transport,
            final(self)@.queue == seen(old(self)@.queue, used_idx),
            r.done == settled(final(self)@.queue),
            r.ops@ == poll_trace(interrupt_status, r.done),
    {
        self.queue.poll(used_idx, interrupt_status)
    }
}

} // verus!
