//! The virtio-mmio transport and the split virtqueue.
//!
//! The drivers here never touch a register or the rings in memory. Each
//! step hands out the stores and loads to make, in program order, as a list
//! of [`Op`]; whoever owns the hardware makes them and hands back what it
//! read. The driver keeps its own copy of what it has put into the rings.

use vstd::prelude::*;
use crate::utils::{Endian, Little};

pub mod blk;
pub mod entropy;
pub mod net;

verus! {

/// The magic word of a virtio-mmio window: "virt".
pub const MAGIC: u32 = 0x74726976;

/// The only version of the register layout that is driven.
pub const VERSION: u32 = 2;

/// Slots in every queue.
pub const QUEUE_SIZE: u16 = 128;

/// Descriptor flag: the chain goes on at `next`.
pub const DESC_NEXT: u16 = 1;

/// Descriptor flag: the device writes into the buffer.
pub const DESC_WRITE: u16 = 2;

/// Descriptor flag: the buffer holds a table of descriptors. Not used here.
pub const DESC_INDIRECT: u16 = 4;

/// The values of the device status register.
#[derive(Clone, Copy, Debug, PartialEq, Eq, Structural)]
pub enum Status {
    /// Writing this resets the device.
    Reset,
    /// The guest has found the device.
    Acknowledge,
    /// The guest knows how to drive the device.
    Driver,
    /// The guest has given up on the device.
    Failed,
    /// The driver has chosen its features.
    FeaturesOk,
    /// The driver is set up.
    DriverOk,
    /// The device has met an error it cannot recover from.
    NeedsReset,
}

impl Status {
    /// The bit of the status register.
    pub open spec fn spec_bits(self) -> u32 {
        match self {
            Status::Reset => 0,
            Status::Acknowledge => 1,
            Status::Driver => 2,
            Status::Failed => 128,
            Status::FeaturesOk => 8,
            Status::DriverOk => 4,
            Status::NeedsReset => 64,
        }
    }

    /// The bit of the status register.
    #[verifier::when_used_as_spec(spec_bits)]
    pub fn bits(self) -> (r: u32)
        ensures
            r == self.spec_bits(),
    {
        match self {
            Status::Reset => 0,
            Status::Acknowledge => 1,
            Status::Driver => 2,
            Status::Failed => 128,
            Status::FeaturesOk => 8,
            Status::DriverOk => 4,
            Status::NeedsReset => 64,
        }
    }
}

impl From<Status> for Endian<u32, Little> {
    /// The word to store into the status register.
    fn from(status: Status) -> (r: Self) {
        Endian::new(status.bits())
    }
}

impl vstd::std_specs::convert::FromSpecImpl<Status> for Endian<u32, Little> {
    open spec fn obeys_from_spec() -> bool {
        true
    }

    open spec fn from_spec(status: Status) -> Self {
        Endian::of(status.spec_bits())
    }
}

/// What kind of device answers in a window.
#[derive(Clone, Copy, Debug, PartialEq, Eq, Structural)]
pub enum DeviceId {
    Invalid,
    Net,
    Blk,
    Console,
    Entropy,
    MemoryBalloon,
    IOMemory,
    RPMSG,
    SCSIHost,
    NinePTransport,
}

impl DeviceId {
    /// The kind that the device id register names.
    pub open spec fn of(id: u32) -> DeviceId {
        if id == 1 {
            DeviceId::Net
        } else if id == 2 {
            DeviceId::Blk
        } else if id == 3 {
            DeviceId::Console
        } else if id == 4 {
            DeviceId::Entropy
        } else if id == 5 {
            DeviceId::MemoryBalloon
        } else if id == 6 {
            DeviceId::IOMemory
        } else if id == 7 {
            DeviceId::RPMSG
        } else if id == 8 {
            DeviceId::SCSIHost
        } else if id == 9 {
            DeviceId::NinePTransport
        } else {
            DeviceId::Invalid
        }
    }
}

/// The registers of a virtio-mmio window.
#[derive(Clone, Copy, Debug, PartialEq, Eq, Structural)]
pub enum Reg {
    Magic,
    Version,
    DeviceId,
    VendorId,
    DeviceFeatures,
    DeviceFeaturesSel,
    DriverFeatures,
    DriverFeaturesSel,
    QueueSel,
    QueueNumMax,
    QueueNum,
    QueueReady,
    QueueNotify,
    InterruptStatus,
    InterruptAck,
    Status,
    QueueDescLow,
    QueueDescHigh,
    QueueAvailLow,
    QueueAvailHigh,
    QueueUsedLow,
    QueueUsedHigh,
    ConfigGeneration,
    Config,
}

impl Reg {
    /// Offset of the register from the base of the window, in bytes.
    pub open spec fn spec_offset(self) -> usize {
        match self {
            Reg::Magic => 0x000,
            Reg::Version => 0x004,
            Reg::DeviceId => 0x008,
            Reg::VendorId => 0x00c,
            Reg::DeviceFeatures => 0x010,
            Reg::DeviceFeaturesSel => 0x014,
            Reg::DriverFeatures => 0x020,
            Reg::DriverFeaturesSel => 0x024,
            Reg::QueueSel => 0x030,
            Reg::QueueNumMax => 0x034,
            Reg::QueueNum => 0x038,
            Reg::QueueReady => 0x044,
            Reg::QueueNotify => 0x050,
            Reg::InterruptStatus => 0x060,
            Reg::InterruptAck => 0x064,
            Reg::Status => 0x070,
            Reg::QueueDescLow => 0x080,
            Reg::QueueDescHigh => 0x084,
            Reg::QueueAvailLow => 0x090,
            Reg::QueueAvailHigh => 0x094,
            Reg::QueueUsedLow => 0x0a0,
            Reg::QueueUsedHigh => 0x0a4,
            Reg::ConfigGeneration => 0x0fc,
            Reg::Config => 0x100,
        }
    }

    /// Offset of the register from the base of the window, in bytes.
    #[verifier::when_used_as_spec(spec_offset)]
    pub fn offset(self) -> (r: usize)
        ensures
            r == self.spec_offset(),
    {
        match self {
            Reg::Magic => 0x000,
            Reg::Version => 0x004,
            Reg::DeviceId => 0x008,
            Reg::VendorId => 0x00c,
            Reg::DeviceFeatures => 0x010,
            Reg::DeviceFeaturesSel => 0x014,
            Reg::DriverFeatures => 0x020,
            Reg::DriverFeaturesSel => 0x024,
            Reg::QueueSel => 0x030,
            Reg::QueueNumMax => 0x034,
            Reg::QueueNum => 0x038,
            Reg::QueueReady => 0x044,
            Reg::QueueNotify => 0x050,
            Reg::InterruptStatus => 0x060,
            Reg::InterruptAck => 0x064,
            Reg::Status => 0x070,
            Reg::QueueDescLow => 0x080,
            Reg::QueueDescHigh => 0x084,
            Reg::QueueAvailLow => 0x090,
            Reg::QueueAvailHigh => 0x094,
            Reg::QueueUsedLow => 0x0a0,
            Reg::QueueUsedHigh => 0x0a4,
            Reg::ConfigGeneration => 0x0fc,
            Reg::Config => 0x100,
        }
    }
}

/// The registers that say what answers in a window, as they were read.
pub struct VirtIORegs {
    pub magic: Endian<u32, Little>,
    pub version: Endian<u32, Little>,
    pub device_id: Endian<u32, Little>,
    pub vendor_id: Endian<u32, Little>,
}

/// A device is there: the magic and the version are right and the device id
/// is one of the nine known ones.
pub open spec fn device_present(magic: u32, version: u32, device_id: u32) -> bool {
    magic == MAGIC && version == VERSION && 1 <= device_id <= 9
}

impl VirtIORegs {
    /// Takes the four identification registers of a window. Returns them if a
    /// device is there, and `None` if not.
    pub fn new(
        magic: Endian<u32, Little>,
        version: Endian<u32, Little>,
        device_id: Endian<u32, Little>,
        vendor_id: Endian<u32, Little>,
    ) -> (r: Option<VirtIORegs>)
        ensures
            r is Some <==> device_present(magic.value(), version.value(), device_id.value()),
            r matches Some(regs) ==> regs.magic == magic && regs.version == version
                && regs.device_id == device_id && regs.vendor_id == vendor_id,
    {
        let id = device_id.native();
        if magic.native() == MAGIC && version.native() == VERSION && 1 <= id && id <= 9 {
            Some(VirtIORegs { magic, version, device_id, vendor_id })
        } else {
            None
        }
    }

    /// What kind of device this is.
    pub fn device_id(&self) -> (r: DeviceId)
        ensures
            r == DeviceId::of(self.device_id.value()),
    {
        let id = self.device_id.native();
        if id == 1 {
            DeviceId::Net
        } else if id == 2 {
            DeviceId::Blk
        } else if id == 3 {
            DeviceId::Console
        } else if id == 4 {
            DeviceId::Entropy
        } else if id == 5 {
            DeviceId::MemoryBalloon
        } else if id == 6 {
            DeviceId::IOMemory
        } else if id == 7 {
            DeviceId::RPMSG
        } else if id == 8 {
            DeviceId::SCSIHost
        } else if id == 9 {
            DeviceId::NinePTransport
        } else {
            DeviceId::Invalid
        }
    }
}

/// One buffer of a chain, in the numbers the driver computes with.
#[derive(Clone, Copy, Debug, PartialEq, Eq, Structural)]
pub struct Desc {
    /// Physical address of the buffer.
    pub addr: u64,
    /// Its length in bytes.
    pub len: u32,
    /// `DESC_NEXT`, `DESC_WRITE`, or both.
    pub flags: u16,
    /// The slot at which the chain goes on, where `DESC_NEXT` is set.
    pub next: u16,
}

/// One thing for the owner of the hardware to do.
#[derive(Clone, Copy, Debug, PartialEq, Eq, Structural)]
pub enum Op {
    /// Store `value` into the register.
    Write { reg: Reg, value: u32 },
    /// Load the register and hand the value to the driver's next step.
    Read { reg: Reg },
    /// Store a descriptor into slot `slot` of the table of queue `queue`.
    Descriptor { queue: u32, slot: u16, desc: Desc },
    /// Store the head `head` into slot `slot` of the available ring.
    Available { queue: u32, slot: u16, head: u16 },
    /// Store `idx` as the index of the available ring.
    AvailableIdx { queue: u32, idx: u16 },
    /// Let all stores so far become visible to the device.
    Barrier,
    /// Unmask the device's interrupt.
    EnableIrq,
    /// Mask the device's interrupt.
    DisableIrq,
    /// Sleep until an interrupt comes; then read the used index of the
    /// queue and the interrupt status, for the driver's next look.
    WaitForInterrupt,
}

/// A slot of the descriptor table, as it lies in memory.
#[derive(Clone, Copy)]
pub struct VirtQDesc {
    addr: Endian<u64, Little>,
    len: Endian<u32, Little>,
    flags: Endian<u16, Little>,
    next: Endian<u16, Little>,
}

impl View for VirtQDesc {
    type V = Desc;

    closed spec fn view(&self) -> Desc {
        Desc {
            addr: self.addr.value(),
            len: self.len.value(),
            flags: self.flags.value(),
            next: self.next.value(),
        }
    }
}

impl VirtQDesc {
    /// A slot of zeroes.
    pub fn empty() -> (r: VirtQDesc)
        ensures
            r@ == (Desc { addr: 0, len: 0, flags: 0, next: 0 }),
    {
        VirtQDesc {
            addr: Endian::from_raw(0),
            len: Endian::from_raw(0),
            flags: Endian::from_raw(0),
            next: Endian::from_raw(0),
        }
    }

    /// The slot that holds `desc`.
    pub fn new(desc: Desc) -> (r: VirtQDesc)
        ensures
            r@ == desc,
    {
        VirtQDesc {
            addr: Endian::new(desc.addr),
            len: Endian::new(desc.len),
            flags: Endian::new(desc.flags),
            next: Endian::new(desc.next),
        }
    }

    /// The buffer that the slot describes.
    pub fn get(&self) -> (r: Desc)
        ensures
            r == self@,
    {
        Desc {
            addr: self.addr.native(),
            len: self.len.native(),
            flags: self.flags.native(),
            next: self.next.native(),
        }
    }
}

/// The available ring, in the numbers the driver computes with.
pub struct AvailableView {
    pub flags: u16,
    /// The free-running index: the number of chains offered so far.
    pub idx: u16,
    /// The heads of the chains offered.
    pub ring: Seq<u16>,
    pub used_event: u16,
}

/// The available ring: what the driver offers to the device.
pub struct VirtqAvailable {
    flags: Endian<u16, Little>,
    idx: Endian<u16, Little>,
    ring: Vec<Endian<u16, Little>>,
    used_event: Endian<u16, Little>,
}

impl View for VirtqAvailable {
    type V = AvailableView;

    closed spec fn view(&self) -> AvailableView {
        AvailableView {
            flags: self.flags.value(),
            idx: self.idx.value(),
            ring: self.ring@.map_values(|e: Endian<u16, Little>| e.value()),
            used_event: self.used_event.value(),
        }
    }
}

impl VirtqAvailable {
    /// The ring has its 128 slots.
    pub open spec fn wf(&self) -> bool {
        self@.ring.len() == QUEUE_SIZE
    }

    /// A ring of zeroes.
    pub fn empty() -> (r: VirtqAvailable)
        ensures
            r.wf(),
            r@ == (AvailableView {
                flags: 0,
                idx: 0,
                ring: Seq::new(QUEUE_SIZE as nat, |i: int| 0u16),
                used_event: 0,
            }),
    {
        let mut ring: Vec<Endian<u16, Little>> = Vec::new();
        let mut i: u16 = 0;
        while i < QUEUE_SIZE
            invariant
                i <= QUEUE_SIZE,
                ring@.len() == i,
                forall|k: int| 0 <= k < i ==> (#[trigger] ring@[k]).value() == 0,
            decreases QUEUE_SIZE - i,
        {
            ring.push(Endian::from_raw(0));
            i = i + 1;
        }
        let r = VirtqAvailable {
            flags: Endian::from_raw(0),
            idx: Endian::from_raw(0),
            ring,
            used_event: Endian::from_raw(0),
        };
        assert(r@.ring =~= Seq::new(QUEUE_SIZE as nat, |i: int| 0u16));
        r
    }

    /// The flags; the driver sets none.
    pub fn flags(&self) -> (r: u16)
        ensures
            r == self@.flags,
    {
        self.flags.native()
    }

    /// The free-running index.
    pub fn idx(&self) -> (r: u16)
        ensures
            r == self@.idx,
    {
        self.idx.native()
    }

    /// The head in slot `slot`.
    pub fn head(&self, slot: u16) -> (r: u16)
        requires
            self.wf(),
            slot < QUEUE_SIZE,
        ensures
            r == self@.ring[slot as int],
    {
        self.ring[slot as usize].native()
    }

    /// The used index at which the driver wants an interrupt; not used.
    pub fn used_event(&self) -> (r: u16)
        ensures
            r == self@.used_event,
    {
        self.used_event.native()
    }
}

/// An entry of the used ring, in the numbers the driver computes with.
#[derive(Clone, Copy, Debug, PartialEq, Eq, Structural)]
pub struct Used {
    /// The head of the chain that the device is done with.
    pub id: u16,
    /// How many bytes the device wrote.
    pub len: u32,
}

/// An entry of the used ring, as it lies in memory.
#[derive(Clone, Copy)]
pub struct VirtQUsedElement {
    id: Endian<u16, Little>,
    len: Endian<u32, Little>,
}

impl View for VirtQUsedElement {
    type V = Used;

    closed spec fn view(&self) -> Used {
        Used { id: self.id.value(), len: self.len.value() }
    }
}

impl VirtQUsedElement {
    /// An entry of zeroes.
    pub fn empty() -> (r: VirtQUsedElement)
        ensures
            r@ == (Used { id: 0, len: 0 }),
    {
        VirtQUsedElement { id: Endian::from_raw(0), len: Endian::from_raw(0) }
    }

    /// The entry in the numbers the driver computes with.
    pub fn get(&self) -> (r: Used)
        ensures
            r == self@,
    {
        Used { id: self.id.native(), len: self.len.native() }
    }
}

/// The used ring, in the numbers the driver computes with.
pub struct UsedView {
    pub flags: u16,
    /// The free-running index: the number of chains handed back so far.
    pub idx: u16,
    /// The chains handed back.
    pub ring: Seq<Used>,
    pub avail_event: u16,
}

/// The used ring: what the device hands back. The device writes it; the
/// driver keeps what it has seen of it.
pub struct VirtQUsed {
    flags: Endian<u16, Little>,
    idx: Endian<u16, Little>,
    ring: Vec<VirtQUsedElement>,
    avail_event: Endian<u16, Little>,
}

impl View for VirtQUsed {
    type V = UsedView;

    closed spec fn view(&self) -> UsedView {
        UsedView {
            flags: self.flags.value(),
            idx: self.idx.value(),
            ring: self.ring@.map_values(|e: VirtQUsedElement| e@),
            avail_event: self.avail_event.value(),
        }
    }
}

impl VirtQUsed {
    /// The ring has its 128 slots.
    pub open spec fn wf(&self) -> bool {
        self@.ring.len() == QUEUE_SIZE
    }

    /// A ring of zeroes.
    pub fn empty() -> (r: VirtQUsed)
        ensures
            r.wf(),
            r@ == (UsedView {
                flags: 0,
                idx: 0,
                ring: Seq::new(QUEUE_SIZE as nat, |i: int| Used { id: 0, len: 0 }),
                avail_event: 0,
            }),
    {
        let mut ring: Vec<VirtQUsedElement> = Vec::new();
        let mut i: u16 = 0;
        while i < QUEUE_SIZE
            invariant
                i <= QUEUE_SIZE,
                ring@.len() == i,
                forall|k: int| 0 <= k < i ==> (#[trigger] ring@[k])@ == (Used { id: 0, len: 0 }),
            decreases QUEUE_SIZE - i,
        {
            ring.push(VirtQUsedElement::empty());
            i = i + 1;
        }
        let r = VirtQUsed {
            flags: Endian::from_raw(0),
            idx: Endian::from_raw(0),
            ring,
            avail_event: Endian::from_raw(0),
        };
        assert(r@.ring =~= Seq::new(QUEUE_SIZE as nat, |i: int| Used { id: 0, len: 0 }));
        r
    }

    /// The flags, as last seen.
    pub fn flags(&self) -> (r: u16)
        ensures
            r == self@.flags,
    {
        self.flags.native()
    }

    /// The free-running index, as last seen.
    pub fn idx(&self) -> (r: u16)
        ensures
            r == self@.idx,
    {
        self.idx.native()
    }

    /// The entry in slot `slot`, as last seen.
    pub fn element(&self, slot: u16) -> (r: Used)
        requires
            self.wf(),
            slot < QUEUE_SIZE,
        ensures
            r == self@.ring[slot as int],
    {
        self.ring[slot as usize].get()
    }

    /// The available index at which the device wants to be told; not used.
    pub fn avail_event(&self) -> (r: u16)
        ensures
            r == self@.avail_event,
    {
        self.avail_event.native()
    }
}

/// What the driver knows of a queue.
pub struct QueueView {
    /// The descriptor table.
    pub descriptors: Seq<Desc>,
    /// The available ring.
    pub available: AvailableView,
    /// The used ring, as last seen.
    pub used: UsedView,
}

/// What to do after a look at the used ring.
pub struct Progress {
    /// What to do now, in order.
    pub ops: Vec<Op>,
    /// The request is complete. Else the driver wants another look after
    /// `ops`, which end in a sleep.
    pub done: bool,
}

/// What follows a look at the used ring: an interrupt status other than 0
/// is acknowledged by storing it back; then the interrupt is masked if the
/// request is complete, and the processor sleeps if it is not.
pub open spec fn poll_trace(interrupt_status: u32, done: bool) -> Seq<Op> {
    let ack = if interrupt_status != 0 {
        seq![Op::Write { reg: Reg::InterruptAck, value: interrupt_status }]
    } else {
        Seq::empty()
    };
    if done {
        ack + seq![Op::DisableIrq]
    } else {
        ack + seq![Op::WaitForInterrupt]
    }
}

/// The stores that offer the chain at `head` on queue `queue`, whose
/// available index is `idx`: the head goes into the ring, then the index
/// grows, then the device is told, with a barrier after each.
pub open spec fn enqueue_trace(queue: u32, idx: u16, head: u16) -> Seq<Op> {
    seq![
        Op::Available { queue, slot: idx % QUEUE_SIZE, head },
        Op::Barrier,
        Op::AvailableIdx { queue, idx: next_idx(idx) },
        Op::Barrier,
        Op::Write { reg: Reg::QueueNotify, value: queue },
        Op::Barrier,
    ]
}

/// The index after one more chain; it wraps at 2^16.
pub open spec fn next_idx(idx: u16) -> u16 {
    if idx == 0xffff {
        0
    } else {
        (idx + 1) as u16
    }
}

/// The stores of one request are in order: every descriptor is stored
/// before the first of two barriers; between the two the available index is
/// stored, once; and only behind the second the device is told, once.
pub open spec fn submission_ordered(t: Seq<Op>) -> bool {
    exists|b1: int, a: int, b2: int, n: int|
        #![trigger t[b1], t[a], t[b2], t[n]]
        {
            &&& 0 <= b1 < a < b2 < n < t.len()
            &&& t[b1] == Op::Barrier
            &&& t[b2] == Op::Barrier
            &&& t[a] is AvailableIdx
            &&& is_notify(t[n])
            &&& forall|i: int| 0 <= i < t.len() && #[trigger] t[i] is Descriptor ==> i < b1
            &&& forall|i: int| 0 <= i < t.len() && #[trigger] t[i] is AvailableIdx ==> i == a
            &&& forall|i: int| 0 <= i < t.len() && is_notify(#[trigger] t[i]) ==> i == n
        }
}

/// The store tells the device of new chains.
pub open spec fn is_notify(op: Op) -> bool {
    op matches Op::Write { reg, .. } && reg == Reg::QueueNotify
}

/// The store is none of those whose order matters.
pub open spec fn is_plain(op: Op) -> bool {
    !(op is Descriptor) && !(op is AvailableIdx) && !is_notify(op)
}

/// Whatever descriptors are stored first, the stores that offer a chain come
/// in order behind them; and what follows, if it stores none of these
/// things, leaves them in order.
pub proof fn lemma_enqueue_ordered(
    descs: Seq<Op>,
    queue: u32,
    idx: u16,
    head: u16,
    tail: Seq<Op>,
)
    requires
        forall|i: int| 0 <= i < descs.len() ==> #[trigger] descs[i] is Descriptor,
        forall|i: int| 0 <= i < tail.len() ==> is_plain(#[trigger] tail[i]),
    ensures
        submission_ordered(descs + enqueue_trace(queue, idx, head) + tail),
{
    let e = enqueue_trace(queue, idx, head);
    let t = descs + e + tail;
    let d = descs.len() as int;
    assert(t[d + 1] == Op::Barrier);
    assert(t[d + 2] is AvailableIdx);
    assert(t[d + 3] == Op::Barrier);
    assert(is_notify(t[d + 4]));
    assert forall|i: int| 0 <= i < t.len() implies (#[trigger] t[i] is Descriptor ==> i < d + 1)
        && (t[i] is AvailableIdx ==> i == d + 2) && (is_notify(t[i]) ==> i == d + 4) by {
        if i < d {
            assert(t[i] == descs[i]);
        } else if i < d + 6 {
            assert(t[i] == e[i - d]);
        } else {
            assert(t[i] == tail[i - d - 6]);
        }
    }
}

/// A queue after the chain at `head` was offered on it: the head is in the
/// ring at the old index modulo 128, and the index has grown by one.
pub open spec fn offered(q: QueueView, head: u16) -> QueueView {
    QueueView {
        available: AvailableView {
            ring: q.available.ring.update((q.available.idx % QUEUE_SIZE) as int, head),
            idx: next_idx(q.available.idx),
            ..q.available
        },
        ..q
    }
}

/// A queue after the driver has seen the used index `used`.
pub open spec fn seen(q: QueueView, used: u16) -> QueueView {
    QueueView { used: UsedView { idx: used, ..q.used }, ..q }
}

/// Nothing is in flight: the device has handed back every chain offered.
pub open spec fn settled(q: QueueView) -> bool {
    q.used.idx == q.available.idx
}

/// A request on a settled queue is complete exactly when the device's used
/// index has grown by one; the queue is settled again then, and its
/// available index has grown by one, modulo 2^16.
pub proof fn lemma_request_completes(q: QueueView, head: u16, used: u16)
    requires
        settled(q),
    ensures
        offered(q, head).available.idx == (q.available.idx + 1) % 0x1_0000,
        !settled(offered(q, head)),
        settled(seen(offered(q, head), used)) <==> used == next_idx(q.used.idx),
{
}

/// A split virtqueue of 128 slots, as the driver has written it.
pub struct Queue {
    descriptors: Vec<VirtQDesc>,
    available: VirtqAvailable,
    used: VirtQUsed,
}

impl View for Queue {
    type V = QueueView;

    closed spec fn view(&self) -> QueueView {
        QueueView {
            descriptors: self.descriptors@.map_values(|d: VirtQDesc| d@),
            available: self.available@,
            used: self.used@,
        }
    }
}

impl Queue {
    /// The table and both rings have their 128 slots.
    pub closed spec fn wf(&self) -> bool {
        &&& self.descriptors@.len() == QUEUE_SIZE
        &&& self.available.wf()
        &&& self.used.wf()
    }

    /// A queue of zeroes.
    pub fn new() -> (r: Queue)
        ensures
            r.wf(),
            r@.descriptors == Seq::new(
                QUEUE_SIZE as nat,
                |i: int| Desc { addr: 0, len: 0, flags: 0, next: 0 },
            ),
            r@.available == (AvailableView {
                flags: 0,
                idx: 0,
                ring: Seq::new(QUEUE_SIZE as nat, |i: int| 0u16),
                used_event: 0,
            }),
            r@.used == (UsedView {
                flags: 0,
                idx: 0,
                ring: Seq::new(QUEUE_SIZE as nat, |i: int| Used { id: 0, len: 0 }),
                avail_event: 0,
            }),
    {
        let mut descriptors: Vec<VirtQDesc> = Vec::new();
        let mut i: u16 = 0;
        while i < QUEUE_SIZE
            invariant
                i <= QUEUE_SIZE,
                descriptors@.len() == i,
                forall|k: int|
                    0 <= k < i ==> (#[trigger] descriptors@[k])@ == (Desc {
                        addr: 0,
                        len: 0,
                        flags: 0,
                        next: 0,
                    }),
            decreases QUEUE_SIZE - i,
        {
            descriptors.push(VirtQDesc::empty());
            i = i + 1;
        }
        let r = Queue { descriptors, available: VirtqAvailable::empty(), used: VirtQUsed::empty() };
        assert(r@.descriptors =~= Seq::new(
            QUEUE_SIZE as nat,
            |i: int| Desc { addr: 0, len: 0, flags: 0, next: 0 },
        ));
        r
    }

    /// The descriptor in slot `slot`.
    pub fn descriptor(&self, slot: u16) -> (r: Desc)
        requires
            self.wf(),
            slot < QUEUE_SIZE,
        ensures
            r == self@.descriptors[slot as int],
    {
        self.descriptors[slot as usize].get()
    }

    /// The head in slot `slot` of the available ring.
    pub fn available_head(&self, slot: u16) -> (r: u16)
        requires
            self.wf(),
            slot < QUEUE_SIZE,
        ensures
            r == self@.available.ring[slot as int],
    {
        self.available.head(slot)
    }

    /// The available ring, as the driver has written it.
    pub fn available(&self) -> (r: &VirtqAvailable)
        ensures
            self.wf() ==> r.wf(),
            r@ == self@.available,
    {
        &self.available
    }

    /// The used ring, as the driver has last seen it.
    pub fn used(&self) -> (r: &VirtQUsed)
        ensures
            self.wf() ==> r.wf(),
            r@ == self@.used,
    {
        &self.used
    }

    /// The index of the available ring.
    pub fn available_idx(&self) -> (r: u16)
        ensures
            r == self@.available.idx,
    {
        self.available.idx()
    }

    /// The index of the used ring, as last seen.
    pub fn used_idx(&self) -> (r: u16)
        ensures
            r == self@.used.idx,
    {
        self.used.idx()
    }

    /// Puts `desc` into slot `slot` and returns the store that does so in
    /// the table of queue `queue`.
    pub fn describe(&mut self, queue: u32, slot: u16, desc: Desc) -> (op: Op)
        requires
            old(self).wf(),
            slot < QUEUE_SIZE,
        ensures
            final(self).wf(),
            final(self)@ == (QueueView {
                descriptors: old(self)@.descriptors.update(slot as int, desc),
                ..old(self)@
            }),
            op == (Op::Descriptor { queue, slot, desc }),
    {
        self.descriptors.set(slot as usize, VirtQDesc::new(desc));
        assert(self@.descriptors =~= old(self)@.descriptors.update(slot as int, desc));
        Op::Descriptor { queue, slot, desc }
    }

    /// Offers the chain that starts in slot `descriptor` on queue `qnum`:
    /// the head goes into the ring at the index modulo 128, and the index
    /// grows by one. Returns the stores and barriers to make, in order.
    pub fn enqueue(&mut self, qnum: u32, descriptor: u16) -> (ops: Vec<Op>)
        requires
            old(self).wf(),
        ensures
            final(self).wf(),
            final(self)@ == offered(old(self)@, descriptor),
            ops@ == enqueue_trace(qnum, old(self)@.available.idx, descriptor),
    {
        let idx = self.available.idx.native();
        let slot = idx % QUEUE_SIZE;
        self.available.ring.set(slot as usize, Endian::new(descriptor));
        let next = idx.wrapping_add(1);
        self.available.idx = Endian::new(next);
        assert(self@.available.ring =~= old(self)@.available.ring.update(
            slot as int,
            descriptor,
        ));
        let ops = vec![
            Op::Available { queue: qnum, slot, head: descriptor },
            Op::Barrier,
            Op::AvailableIdx { queue: qnum, idx: next },
            Op::Barrier,
            Op::Write { reg: Reg::QueueNotify, value: qnum },
            Op::Barrier,
        ];
        assert(ops@ =~= enqueue_trace(qnum, idx, descriptor));
        ops
    }

    /// Takes note of the used index `used_idx` and of the interrupt status
    /// `interrupt_status`, both read after the interrupt was unmasked or the
    /// processor woke. The request is complete exactly when the device has
    /// handed back as many chains as were offered. A status other than 0 is
    /// acknowledged; then the interrupt is masked, or the processor sleeps
    /// until the next look.
    pub fn poll(&mut self, used_idx: u16, interrupt_status: u32) -> (r: Progress)
        ensures
            final(self).wf() == old(self).wf(),
            final(self)@ == seen(old(self)@, used_idx),
            r.done == settled(final(self)@),
            r.ops@ == poll_trace(interrupt_status, r.done),
    {
        self.used.idx = Endian::new(used_idx);
        let done = used_idx == self.available.idx.native();
        let mut ops: Vec<Op> = Vec::new();
        if interrupt_status != 0 {
            ops.push(Op::Write { reg: Reg::InterruptAck, value: interrupt_status });
        }
        if done {
            ops.push(Op::DisableIrq);
        } else {
            ops.push(Op::WaitForInterrupt);
        }
        assert(ops@ =~= poll_trace(interrupt_status, done));
        Progress { ops, done }
    }
}

/// Where the three parts of a queue lie in physical memory.
#[derive(Clone, Copy, Debug, PartialEq, Eq, Structural)]
pub struct QueueAddr {
    pub descriptors: u64,
    pub available: u64,
    pub used: u64,
}

/// Why a device could not be brought up.
#[derive(Clone, Copy, Debug, PartialEq, Eq, Structural)]
pub enum VirtioError {
    /// The device did not keep FEATURES_OK: it refuses the features chosen.
    FeaturesRejected,
}

/// How far the bring-up of a device has come.
#[derive(Clone, Copy, Debug, PartialEq, Eq, Structural)]
pub enum Phase {
    /// The device is reset and asked for its features.
    Negotiating,
    /// The features are chosen; the device has yet to confirm them.
    Confirming,
    /// The queues are installed and the device runs.
    Ready,
    /// The device refused.
    Failed,
}

/// The low 32 bits of an address.
pub open spec fn low32(addr: u64) -> u32 {
    (addr & 0xffff_ffff) as u32
}

/// The high 32 bits of an address.
pub open spec fn high32(addr: u64) -> u32 {
    (addr >> 32) as u32
}

/// The first stores of a bring-up: reset, acknowledge, driver, and the
/// request for the low feature bits, which are then read.
pub open spec fn reset_trace() -> Seq<Op> {
    seq![
        Op::Write { reg: Reg::Status, value: Status::Reset.spec_bits() },
        Op::Write { reg: Reg::Status, value: Status::Acknowledge.spec_bits() },
        Op::Write { reg: Reg::Status, value: Status::Driver.spec_bits() },
        Op::Write { reg: Reg::DeviceFeaturesSel, value: 0 },
        Op::Read { reg: Reg::DeviceFeatures },
    ]
}

/// The stores that choose the features: those wanted that the device has.
/// The status is then read back.
pub open spec fn features_trace(wanted: u32, device: u32) -> Seq<Op> {
    seq![
        Op::Write { reg: Reg::DriverFeaturesSel, value: 0 },
        Op::Write { reg: Reg::DriverFeatures, value: wanted & device },
        Op::Write { reg: Reg::Status, value: Status::FeaturesOk.spec_bits() },
        Op::Read { reg: Reg::Status },
    ]
}

/// The stores that install queue `index`.
pub open spec fn queue_trace(index: u32, addr: QueueAddr) -> Seq<Op> {
    seq![
        Op::Write { reg: Reg::QueueSel, value: index },
        Op::Write { reg: Reg::QueueNum, value: QUEUE_SIZE as u32 },
        Op::Write { reg: Reg::QueueDescLow, value: low32(addr.descriptors) },
        Op::Write { reg: Reg::QueueDescHigh, value: high32(addr.descriptors) },
        Op::Write { reg: Reg::QueueAvailLow, value: low32(addr.available) },
        Op::Write { reg: Reg::QueueAvailHigh, value: high32(addr.available) },
        Op::Write { reg: Reg::QueueUsedLow, value: low32(addr.used) },
        Op::Write { reg: Reg::QueueUsedHigh, value: high32(addr.used) },
        Op::Write { reg: Reg::QueueReady, value: 1 },
    ]
}

/// The stores that install the first `n` of `queues`, in order.
pub open spec fn queues_trace(queues: Seq<QueueAddr>, n: nat) -> Seq<Op>
    decreases n,
{
    if n == 0 {
        Seq::empty()
    } else {
        queues_trace(queues, (n - 1) as nat) + queue_trace(
            (n - 1) as u32,
            queues[(n - 1) as int],
        )
    }
}

/// The last stores of a bring-up: every queue, then DRIVER_OK.
pub open spec fn activate_trace(queues: Seq<QueueAddr>) -> Seq<Op> {
    queues_trace(queues, queues.len()) + seq![
        Op::Write { reg: Reg::Status, value: Status::DriverOk.spec_bits() },
    ]
}

/// The device has kept FEATURES_OK.
pub open spec fn features_accepted(status: u32) -> bool {
    status & Status::FeaturesOk.spec_bits() != 0
}

/// The stores that install queue `index`.
pub fn install_queue(index: u32, addr: &QueueAddr) -> (ops: Vec<Op>)
    ensures
        ops@ == queue_trace(index, *addr),
{
    let ops = vec![
        Op::Write { reg: Reg::QueueSel, value: index },
        Op::Write { reg: Reg::QueueNum, value: QUEUE_SIZE as u32 },
        Op::Write { reg: Reg::QueueDescLow, value: (addr.descriptors & 0xffff_ffff) as u32 },
        Op::Write { reg: Reg::QueueDescHigh, value: (addr.descriptors >> 32) as u32 },
        Op::Write { reg: Reg::QueueAvailLow, value: (addr.available & 0xffff_ffff) as u32 },
        Op::Write { reg: Reg::QueueAvailHigh, value: (addr.available >> 32) as u32 },
        Op::Write { reg: Reg::QueueUsedLow, value: (addr.used & 0xffff_ffff) as u32 },
        Op::Write { reg: Reg::QueueUsedHigh, value: (addr.used >> 32) as u32 },
        Op::Write { reg: Reg::QueueReady, value: 1 },
    ];
    assert(ops@ =~= queue_trace(index, *addr));
    ops
}

/// The bring-up of one device: which features the driver wants, where its
/// queues lie, and how far it has come.
pub struct Transport {
    wanted: u32,
    queues: Vec<QueueAddr>,
    phase: Phase,
}

/// What a bring-up is made of.
pub struct TransportView {
    pub wanted: u32,
    pub queues: Seq<QueueAddr>,
    pub phase: Phase,
}

impl View for Transport {
    type V = TransportView;

    closed spec fn view(&self) -> TransportView {
        TransportView { wanted: self.wanted, queues: self.queues@, phase: self.phase }
    }
}

impl Transport {
    /// The queues can be numbered in the 32 bits of the selector register.
    pub closed spec fn wf(&self) -> bool {
        self.queues@.len() <= u32::MAX
    }

    /// Starts the bring-up of a device with the queues `queues`, numbered
    /// from 0, for a driver that wants the features `wanted`. Returns the
    /// first stores; the load at their end gives the device's features.
    pub fn new(wanted: u32, queues: Vec<QueueAddr>) -> (r: (Transport, Vec<Op>))
        requires
            queues@.len() <= u32::MAX,
        ensures
            r.0.wf(),
            r.0@ == (TransportView { wanted, queues: queues@, phase: Phase::Negotiating }),
            r.1@ == reset_trace(),
    {
        let ops = vec![
            Op::Write { reg: Reg::Status, value: Status::Reset.bits() },
            Op::Write { reg: Reg::Status, value: Status::Acknowledge.bits() },
            Op::Write { reg: Reg::Status, value: Status::Driver.bits() },
            Op::Write { reg: Reg::DeviceFeaturesSel, value: 0 },
            Op::Read { reg: Reg::DeviceFeatures },
        ];
        assert(ops@ =~= reset_trace());
        (Transport { wanted, queues, phase: Phase::Negotiating }, ops)
    }

    /// How far the bring-up has come.
    pub fn phase(&self) -> (r: Phase)
        ensures
            r == self@.phase,
    {
        self.phase
    }

    /// Chooses the features, given those that the device has. Returns the
    /// stores; the load at their end gives the status to confirm.
    pub fn negotiate(&mut self, device_features: u32) -> (ops: Vec<Op>)
        requires
            old(self)@.phase == Phase::Negotiating,
        ensures
            final(self).wf() == old(self).wf(),
            final(self)@ == (TransportView { phase: Phase::Confirming, ..old(self)@ }),
            ops@ == features_trace(old(self)@.wanted, device_features),
    {
        let ops = vec![
            Op::Write { reg: Reg::DriverFeaturesSel, value: 0 },
            Op::Write { reg: Reg::DriverFeatures, value: self.wanted & device_features },
            Op::Write { reg: Reg::Status, value: Status::FeaturesOk.bits() },
            Op::Read { reg: Reg::Status },
        ];
        assert(ops@ =~= features_trace(self.wanted, device_features));
        self.phase = Phase::Confirming;
        ops
    }

    /// Ends the bring-up, given the status read back. Where the device has
    /// kept FEATURES_OK, returns the stores that install the queues and set
    /// DRIVER_OK. Where it has not, the device cannot be driven.
    pub fn activate(&mut self, status: u32) -> (r: Result<Vec<Op>, VirtioError>)
        requires
            old(self).wf(),
            old(self)@.phase == Phase::Confirming,
        ensures
            final(self).wf(),
            match r {
                Ok(ops) => features_accepted(status) && ops@ == activate_trace(old(self)@.queues)
                    && final(self)@ == (TransportView { phase: Phase::Ready, ..old(self)@ }),
                Err(e) => !features_accepted(status) && e == VirtioError::FeaturesRejected
                    && final(self)@ == (TransportView { phase: Phase::Failed, ..old(self)@ }),
            },
    {
        if status & Status::FeaturesOk.bits() == 0 {
            self.phase = Phase::Failed;
            return Err(VirtioError::FeaturesRejected);
        }
        let mut ops: Vec<Op> = Vec::new();
        let mut i: usize = 0;
        while i < self.queues.len()
            invariant
                i <= self.queues@.len(),
                self.queues@.len() <= u32::MAX,
                *self == *old(self),
                ops@ == queues_trace(self.queues@, i as nat),
            decreases self.queues@.len() - i,
        {
            let mut more = install_queue(i as u32, &self.queues[i]);
            ops.append(&mut more);
            i = i + 1;
        }
        ops.push(Op::Write { reg: Reg::Status, value: Status::DriverOk.bits() });
        self.phase = Phase::Ready;
        Ok(ops)
    }
}

} // verus!
