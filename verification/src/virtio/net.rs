//! The network device: Ethernet frames, received on queue 0 and sent on
//! queue 1, each behind a header of the device's own.

use vstd::prelude::*;
use crate::utils::{Endian, Little};
use crate::virtio::{
    activate_trace, enqueue_trace, features_accepted, features_trace, lemma_enqueue_ordered,
    offered, poll_trace, reset_trace, seen, settled, submission_ordered, Desc, Op, Phase,
    Progress, Queue, QueueAddr, QueueView, Transport, TransportView, VirtioError, DESC_NEXT,
    DESC_WRITE,
};

verus! {

/// The features that the network driver wants: the device tells its MAC
/// address (VIRTIO_NET_F_MAC).
pub const NET_DEVICE_FEATURES: u32 = 0x20;

/// Bytes in a frame buffer.
pub const FRAME_SIZE: usize = 1526;

/// Bytes in the header that goes before every frame.
pub const NET_HEADER_LEN: u32 = 11;

/// Bytes of the device's configuration that the driver reads.
pub const NET_CONFIG_LEN: usize = 12;

/// The queue on which frames arrive.
pub const RECEIVE_QUEUE: u32 = 0;

/// The queue on which frames leave.
pub const TRANSMIT_QUEUE: u32 = 1;

/// The number that two bytes spell, least significant first.
pub open spec fn le16(lo: u8, hi: u8) -> u16 {
    (lo as u16 + hi as u16 * 256) as u16
}

/// The device's configuration.
#[derive(Clone, Copy)]
pub struct VirtIONetConfig {
    pub mac: [u8; 6],
    pub status: Endian<u16, Little>,
    pub max_virtqueue_pairs: Endian<u16, Little>,
    pub mtu: Endian<u16, Little>,
}

fn read_le16(bytes: &[u8], off: usize) -> (r: Endian<u16, Little>)
    requires
        off + 2 <= bytes@.len(),
    ensures
        r.value() == le16(bytes@[off as int], bytes@[off + 1]),
{
    let lo = bytes[off];
    let hi = bytes[off + 1];
    assert((lo as u16) | (hi as u16) << 8 == (lo as u16 + hi as u16 * 256) as u16) by (bit_vector);
    Endian::from_raw((lo as u16) | (hi as u16) << 8)
}

impl VirtIONetConfig {
    /// Reads the configuration from the first 12 bytes of the device's
    /// configuration space: the MAC address, then status, the number of
    /// queue pairs and the MTU, each in 2 bytes. `None` if there are fewer.
    pub fn from_bytes(bytes: &[u8]) -> (r: Option<VirtIONetConfig>)
        ensures
            r is Some <==> bytes@.len() >= NET_CONFIG_LEN,
            r matches Some(c) ==> c.mac@ == bytes@.subrange(0, 6) && c.status.value() == le16(
                bytes@[6],
                bytes@[7],
            ) && c.max_virtqueue_pairs.value() == le16(bytes@[8], bytes@[9]) && c.mtu.value()
                == le16(bytes@[10], bytes@[11]),
    {
        if bytes.len() < NET_CONFIG_LEN {
            return None;
        }
        let mac = [bytes[0], bytes[1], bytes[2], bytes[3], bytes[4], bytes[5]];
        assert(mac@ =~= bytes@.subrange(0, 6));
        Some(
            VirtIONetConfig {
                mac,
                status: read_le16(bytes, 6),
                max_virtqueue_pairs: read_le16(bytes, 8),
                mtu: read_le16(bytes, 10),
            },
        )
    }
}

/// The header that goes before every frame, in both directions.
#[derive(Clone, Copy)]
pub struct NetHdr {
    pub flags: u8,
    pub gso_type: u8,
    pub hdr_len: Endian<u16, Little>,
    pub gso_size: Endian<u16, Little>,
    pub csum_start: Endian<u16, Little>,
    pub csum_offset: Endian<u16, Little>,
}

impl Default for NetHdr {
    /// A header of zeroes: no offloads.
    fn default() -> (r: NetHdr)
        ensures
            r.flags == 0,
            r.gso_type == 0,
            r.hdr_len.value() == 0,
            r.gso_size.value() == 0,
            r.csum_start.value() == 0,
            r.csum_offset.value() == 0,
    {
        NetHdr {
            flags: 0,
            gso_type: 0,
            hdr_len: Endian::from_raw(0),
            gso_size: Endian::from_raw(0),
            csum_start: Endian::from_raw(0),
            csum_offset: Endian::from_raw(0),
        }
    }
}

/// Where the two buffers of a request lie in physical memory: the header of
/// 11 bytes and the frame of 1526 bytes.
#[derive(Clone, Copy, Debug, PartialEq, Eq, Structural)]
pub struct NetBuffers {
    pub header: u64,
    pub frame: u64,
}

/// The chain that receives a frame: the device writes header and frame.
pub open spec fn receive_chain(buffers: NetBuffers) -> Seq<Desc> {
    seq![
        Desc {
            addr: buffers.header,
            len: NET_HEADER_LEN,
            flags: (DESC_WRITE | DESC_NEXT) as u16,
            next: 1,
        },
        Desc { addr: buffers.frame, len: FRAME_SIZE as u32, flags: DESC_WRITE, next: 0 },
    ]
}

/// The chain that sends a frame: the device reads header and frame.
pub open spec fn transmit_chain(buffers: NetBuffers) -> Seq<Desc> {
    seq![
        Desc { addr: buffers.header, len: NET_HEADER_LEN, flags: DESC_NEXT, next: 1 },
        Desc { addr: buffers.frame, len: FRAME_SIZE as u32, flags: 0, next: 0 },
    ]
}

/// What the owner of the hardware does for one request on queue `queue`,
/// when that queue's available index is `idx`: it stores the chain into
/// slots 0 and 1, offers slot 0 and unmasks the interrupt.
pub open spec fn net_trace(queue: u32, chain: Seq<Desc>, idx: u16) -> Seq<Op> {
    seq![
        Op::Descriptor { queue, slot: 0, desc: chain[0] },
        Op::Descriptor { queue, slot: 1, desc: chain[1] },
    ] + enqueue_trace(queue, idx, 0) + seq![Op::EnableIrq]
}

/// A queue after a request was put into it.
pub open spec fn net_queued(q: QueueView, chain: Seq<Desc>) -> QueueView {
    offered(
        QueueView { descriptors: q.descriptors.update(0, chain[0]).update(1, chain[1]), ..q },
        0,
    )
}

/// The driver of a network device.
pub struct VirtIONet {
    transport: Transport,
    read_queue: Queue,
    write_queue: Queue,
    config: VirtIONetConfig,
}

/// What the driver of a network device is made of.
pub struct NetView {
    pub transport: TransportView,
    pub read_queue: QueueView,
    pub write_queue: QueueView,
    pub config: VirtIONetConfig,
}

impl View for VirtIONet {
    type V = NetView;

    closed spec fn view(&self) -> NetView {
        NetView {
            transport: self.transport@,
            read_queue: self.read_queue@,
            write_queue: self.write_queue@,
            config: self.config,
        }
    }
}

impl VirtIONet {
    /// Both queues have their 128 slots.
    pub closed spec fn wf(&self) -> bool {
        self.read_queue.wf() && self.write_queue.wf() && self.transport.wf()
    }

    /// Starts the bring-up of a network device whose receive queue lies at
    /// `read_addr` and whose transmit queue lies at `write_addr`. Returns the
    /// driver and the first stores; the load at their end gives the device's
    /// features, for [`VirtIONet::negotiate`].
    pub fn new(
        read_queue: Queue,
        read_addr: QueueAddr,
        write_queue: Queue,
        write_addr: QueueAddr,
        config: VirtIONetConfig,
    ) -> (r: (VirtIONet, Vec<Op>))
        requires
            read_queue.wf(),
            write_queue.wf(),
        ensures
            r.0.wf(),
            r.0@ == (NetView {
                transport: TransportView {
                    wanted: NET_DEVICE_FEATURES,
                    queues: seq![read_addr, write_addr],
                    phase: Phase::Negotiating,
                },
                read_queue: read_queue@,
                write_queue: write_queue@,
                config,
            }),
            r.1@ == reset_trace(),
    {
        let queues = vec![read_addr, write_addr];
        assert(queues@ =~= seq![read_addr, write_addr]);
        let (transport, ops) = Transport::new(NET_DEVICE_FEATURES, queues);
        (VirtIONet { transport, read_queue, write_queue, config }, ops)
    }

    /// How far the bring-up has come.
    pub fn phase(&self) -> (r: Phase)
        ensures
            r == self@.transport.phase,
    {
        self.transport.phase()
    }

    /// Chooses the features; see [`Transport::negotiate`].
    pub fn negotiate(&mut self, device_features: u32) -> (ops: Vec<Op>)
        requires
            old(self)@.transport.phase == Phase::Negotiating,
        ensures
            final(self).wf() == old(self).wf(),
            final(self)@ == (NetView {
                transport: TransportView { phase: Phase::Confirming, ..old(self)@.transport },
                ..old(self)@
            }),
            ops@ == features_trace(old(self)@.transport.wanted, device_features),
    {
        self.transport.negotiate(device_features)
    }

    /// Installs both queues and starts the device, or fails where the device
    /// has not kept FEATURES_OK in `status`; see [`Transport::activate`].
    pub fn activate(&mut self, status: u32) -> (r: Result<Vec<Op>, VirtioError>)
        requires
            old(self).wf(),
            old(self)@.transport.phase == Phase::Confirming,
        ensures
            final(self).wf(),
            match r {
                Ok(ops) => features_accepted(status) && ops@ == activate_trace(
                    old(self)@.transport.queues,
                ) && final(self)@ == (NetView {
                    transport: TransportView { phase: Phase::Ready, ..old(self)@.transport },
                    ..old(self)@
                }),
                Err(e) => !features_accepted(status) && e == VirtioError::FeaturesRejected
                    && final(self)@ == (NetView {
                    transport: TransportView { phase: Phase::Failed, ..old(self)@.transport },
                    ..old(self)@
                }),
            },
    {
        self.transport.activate(status)
    }

    /// The device's configuration; its `mac` is the address of this host.
    pub fn config(&self) -> (r: &VirtIONetConfig)
        ensures
            *r == self@.config,
    {
        &self.config
    }

    /// Offers the chain that starts in slot `descriptor`: on the receive
    /// queue where `qnum` is 0, on the transmit queue otherwise.
    pub fn enqueue(&mut self, qnum: u32, descriptor: u16) -> (ops: Vec<Op>)
        requires
            old(self).wf(),
        ensures
            final(self).wf(),
            ops@ == enqueue_trace(
                qnum,
                if qnum == 0 {
                    old(self)@.read_queue.available.idx
                } else {
                    old(self)@.write_queue.available.idx
                },
                descriptor,
            ),
            final(self)@ == if qnum == 0 {
                NetView { read_queue: offered(old(self)@.read_queue, descriptor), ..old(self)@ }
            } else {
                NetView { write_queue: offered(old(self)@.write_queue, descriptor), ..old(self)@ }
            },
    {
        if qnum == 0 {
            self.read_queue.enqueue(qnum, descriptor)
        } else {
            self.write_queue.enqueue(qnum, descriptor)
        }
    }

    /// Asks for the next frame to be received into the frame buffer.
    /// Returns the stores and barriers to make, in order. The frame is there
    /// when [`VirtIONet::poll`] says so for queue 0.
    pub fn read(&mut self, buffers: NetBuffers) -> (ops: Vec<Op>)
        requires
            old(self).wf(),
        ensures
            final(self).wf(),
            ops@ == net_trace(
                RECEIVE_QUEUE,
                receive_chain(buffers),
                old(self)@.read_queue.available.idx,
            ),
            submission_ordered(ops@),
            final(self)@ == (NetView {
                read_queue: net_queued(old(self)@.read_queue, receive_chain(buffers)),
                ..old(self)@
            }),
    {
        let ghost idx = self.read_queue@.available.idx;
        let d0 = self.read_queue.describe(
            RECEIVE_QUEUE,
            0,
            Desc {
                addr: buffers.header,
                len: NET_HEADER_LEN,
                flags: DESC_WRITE | DESC_NEXT,
                next: 1,
            },
        );
        let d1 = self.read_queue.describe(
            RECEIVE_QUEUE,
            1,
            Desc { addr: buffers.frame, len: FRAME_SIZE as u32, flags: DESC_WRITE, next: 0 },
        );
        let mut ops = vec![d0, d1];
        let ghost descs = ops@;
        let mut offer = self.enqueue(RECEIVE_QUEUE, 0);
        ops.append(&mut offer);
        ops.push(Op::EnableIrq);
        proof {
            assert(ops@ =~= net_trace(RECEIVE_QUEUE, receive_chain(buffers), idx));
            assert(ops@ =~= descs + enqueue_trace(RECEIVE_QUEUE, idx, 0) + seq![Op::EnableIrq]);
            lemma_enqueue_ordered(descs, RECEIVE_QUEUE, idx, 0, seq![Op::EnableIrq]);
        }
        ops
    }

    /// Asks for the frame in the frame buffer to be sent, behind the header
    /// in the header buffer, which must hold [`NetHdr::default`]. Returns
    /// the stores and barriers to make, in order. The frame is sent when
    /// [`VirtIONet::poll`] says so for queue 1.
    pub fn write(&mut self, buffers: NetBuffers) -> (ops: Vec<Op>)
        requires
            old(self).wf(),
        ensures
            final(self).wf(),
            ops@ == net_trace(
                TRANSMIT_QUEUE,
                transmit_chain(buffers),
                old(self)@.write_queue.available.idx,
            ),
            submission_ordered(ops@),
            final(self)@ == (NetView {
                write_queue: net_queued(old(self)@.write_queue, transmit_chain(buffers)),
                ..old(self)@
            }),
    {
        let ghost idx = self.write_queue@.available.idx;
        let d0 = self.write_queue.describe(
            TRANSMIT_QUEUE,
            0,
            Desc { addr: buffers.header, len: NET_HEADER_LEN, flags: DESC_NEXT, next: 1 },
        );
        let d1 = self.write_queue.describe(
            TRANSMIT_QUEUE,
            1,
            Desc { addr: buffers.frame, len: FRAME_SIZE as u32, flags: 0, next: 0 },
        );
        let mut ops = vec![d0, d1];
        let ghost descs = ops@;
        let mut offer = self.enqueue(TRANSMIT_QUEUE, 0);
        ops.append(&mut offer);
        ops.push(Op::EnableIrq);
        proof {
            assert(ops@ =~= net_trace(TRANSMIT_QUEUE, transmit_chain(buffers), idx));
            assert(ops@ =~= descs + enqueue_trace(TRANSMIT_QUEUE, idx, 0) + seq![Op::EnableIrq]);
            lemma_enqueue_ordered(descs, TRANSMIT_QUEUE, idx, 0, seq![Op::EnableIrq]);
        }
        ops
    }

    /// Looks whether the request on queue `qnum` is complete; see
    /// [`Queue::poll`].
    pub fn poll(&mut self, qnum: u32, used_idx: u16, interrupt_status: u32) -> (r: Progress)
        ensures
            final(self).wf() == old(self).wf(),
            final(self)@ == if qnum == 0 {
                NetView { read_queue: seen(old(self)@.read_queue, used_idx), ..old(self)@ }
            } else {
                NetView { write_queue: seen(old(self)@.write_queue, used_idx), ..old(self)@ }
            },
            r.done == settled(
                if qnum == 0 {
                    final(self)@.read_queue
                } else {
                    final(self)@.write_queue
                },
            ),
            r.ops@ == poll_trace(interrupt_status, r.done),
    {
        if qnum == 0 {
            self.read_queue.poll(used_idx, interrupt_status)
        } else {
            self.write_queue.poll(used_idx, interrupt_status)
        }
    }
}

} // verus!
