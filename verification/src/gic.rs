//! The interrupt controller, a GICv2: which registers to store into, and
//! what, to turn the controller on and to unmask, mask and end an interrupt.
//!
//! The driver touches no register; it hands out what to do as a list of
//! [`GicOp`]. The lists are arrays: the controller is turned on before
//! there is a heap.

use vstd::prelude::*;

verus! {

/// Where the distributor lies on the virt machine.
pub const DISTRIBUTOR: usize = 0x0800_0000;

/// Where the interface of the processor lies on the virt machine.
pub const CPU_INTERFACE: usize = 0x0801_0000;

/// Distributor: the control register.
pub const GICD_CTLR: usize = 0x000;

/// Distributor: the first of the set-enable registers, one bit a line.
pub const GICD_ISENABLER: usize = 0x100;

/// Distributor: the first of the clear-enable registers, one bit a line.
pub const GICD_ICENABLER: usize = 0x180;

/// Distributor: the first of the clear-pending registers, one bit a line.
pub const GICD_ICPENDR: usize = 0x280;

/// Interface: the control register.
pub const GICC_CTLR: usize = 0x000;

/// Interface: the priority mask.
pub const GICC_PMR: usize = 0x004;

/// Interface: the acknowledge register; to read it takes the pending
/// interrupt.
pub const GICC_IAR: usize = 0x00c;

/// Interface: the end-of-interrupt register.
pub const GICC_EOIR: usize = 0x010;

/// One thing for the owner of the hardware to do.
#[derive(Clone, Copy, Debug, PartialEq, Eq, Structural)]
pub enum GicOp {
    /// Store `value` into the distributor's register at `offset`.
    Distributor { offset: usize, value: u32 },
    /// Store `value` into the interface's register at `offset`.
    Interface { offset: usize, value: u32 },
    /// Load the interface's acknowledge register and hand the value to
    /// [`GIC::end`].
    Acknowledge,
    /// Let the processor take interrupts.
    UnmaskProcessor,
    /// Let the processor take no interrupts.
    MaskProcessor,
}

/// The stores that turn the controller on for one processor: the
/// distributor forwards, every priority passes, the interface signals.
pub open spec fn init_trace() -> Seq<GicOp> {
    seq![
        GicOp::Distributor { offset: GICD_CTLR, value: 1 },
        GicOp::Interface { offset: GICC_PMR, value: 0xff },
        GicOp::Interface { offset: GICC_CTLR, value: 1 },
    ]
}

/// Turns the controller on for the processor that does this. Once per
/// processor.
pub fn init() -> (ops: [GicOp; 3])
    ensures
        ops@ == init_trace(),
{
    let ops = [
        GicOp::Distributor { offset: GICD_CTLR, value: 1 },
        GicOp::Interface { offset: GICC_PMR, value: 0xff },
        GicOp::Interface { offset: GICC_CTLR, value: 1 },
    ];
    assert(ops@ =~= init_trace());
    ops
}

/// One interrupt line.
#[derive(Clone, Copy, Debug, PartialEq, Eq, Structural)]
pub struct GIC {
    pub irq: u32,
}

/// The register of line `irq` in the bank of registers that starts at
/// `bank`: each register holds 32 lines.
pub open spec fn bank_offset(bank: usize, irq: u32) -> usize {
    (bank + 4 * (irq / 32)) as usize
}

/// The bit of line `irq` in its register.
pub open spec fn line_bit(irq: u32) -> u32 {
    1u32 << (irq % 32)
}

impl GIC {
    /// The line `irq`.
    pub fn new(irq: u32) -> (r: GIC)
        ensures
            r.irq == irq,
    {
        GIC { irq }
    }

    fn store(&self, bank: usize) -> (op: GicOp)
        requires
            bank <= 0x1000,
        ensures
            op == (GicOp::Distributor {
                offset: bank_offset(bank, self.irq),
                value: line_bit(self.irq),
            }),
    {
        GicOp::Distributor {
            offset: bank + 4 * (self.irq / 32) as usize,
            value: 1u32 << (self.irq % 32),
        }
    }

    /// Unmasks the line, at the distributor and at the processor.
    pub fn enable(&self) -> (ops: [GicOp; 2])
        ensures
            ops@ == seq![
                GicOp::Distributor {
                    offset: bank_offset(GICD_ISENABLER, self.irq),
                    value: line_bit(self.irq),
                },
                GicOp::UnmaskProcessor,
            ],
    {
        let ops = [self.store(GICD_ISENABLER), GicOp::UnmaskProcessor];
        assert(ops@ =~= seq![
            GicOp::Distributor {
                offset: bank_offset(GICD_ISENABLER, self.irq),
                value: line_bit(self.irq),
            },
            GicOp::UnmaskProcessor,
        ]);
        ops
    }

    /// Masks the line again, at the processor and at the distributor.
    pub fn disable(&self) -> (ops: [GicOp; 2])
        ensures
            ops@ == seq![
                GicOp::MaskProcessor,
                GicOp::Distributor {
                    offset: bank_offset(GICD_ICENABLER, self.irq),
                    value: line_bit(self.irq),
                },
            ],
    {
        let ops = [GicOp::MaskProcessor, self.store(GICD_ICENABLER)];
        assert(ops@ =~= seq![
            GicOp::MaskProcessor,
            GicOp::Distributor {
                offset: bank_offset(GICD_ICENABLER, self.irq),
                value: line_bit(self.irq),
            },
        ]);
        ops
    }

    /// Starts to clear what is pending: the interrupt is acknowledged. What
    /// the acknowledge register held goes to [`GIC::end`].
    pub fn clear(&self) -> (ops: [GicOp; 1])
        ensures
            ops@ == seq![GicOp::Acknowledge],
    {
        let ops = [GicOp::Acknowledge];
        assert(ops@ =~= seq![GicOp::Acknowledge]);
        ops
    }

    /// Ends the interrupt that was acknowledged, given what the acknowledge
    /// register held, and takes the line out of the pending ones.
    pub fn end(&self, acknowledged: u32) -> (ops: [GicOp; 2])
        ensures
            ops@ == seq![
                GicOp::Interface { offset: GICC_EOIR, value: acknowledged },
                GicOp::Distributor {
                    offset: bank_offset(GICD_ICPENDR, self.irq),
                    value: line_bit(self.irq),
                },
            ],
    {
        let ops = [
            GicOp::Interface { offset: GICC_EOIR, value: acknowledged },
            self.store(GICD_ICPENDR),
        ];
        assert(ops@ =~= seq![
            GicOp::Interface { offset: GICC_EOIR, value: acknowledged },
            GicOp::Distributor {
                offset: bank_offset(GICD_ICPENDR, self.irq),
                value: line_bit(self.irq),
            },
        ]);
        ops
    }
}

} // verus!
