use allora::gic::{
    init, GicOp, CPU_INTERFACE, DISTRIBUTOR, GIC, GICC_CTLR, GICC_EOIR, GICC_IAR, GICC_PMR,
    GICD_CTLR, GICD_ICENABLER, GICD_ICPENDR, GICD_ISENABLER,
};

fn distributor(offset: usize, value: u32) -> GicOp {
    GicOp::Distributor { offset, value }
}

#[test]
fn controller_register_layout() {
    assert_eq!((DISTRIBUTOR, CPU_INTERFACE), (0x0800_0000, 0x0801_0000));
    assert_eq!((GICD_CTLR, GICD_ISENABLER, GICD_ICENABLER, GICD_ICPENDR), (0, 0x100, 0x180, 0x280));
    assert_eq!((GICC_CTLR, GICC_PMR, GICC_IAR, GICC_EOIR), (0, 4, 0xc, 0x10));
}

#[test]
fn init_turns_distributor_and_interface_on() {
    assert_eq!(
        init(),
        [
            distributor(GICD_CTLR, 1),
            GicOp::Interface { offset: GICC_PMR, value: 0xff },
            GicOp::Interface { offset: GICC_CTLR, value: 1 },
        ]
    );
}

#[test]
fn enable_sets_the_bit_of_the_line() {
    assert_eq!(GIC::new(0x21).enable(), [distributor(0x104, 2), GicOp::UnmaskProcessor]);
    assert_eq!(GIC::new(0).enable(), [distributor(0x100, 1), GicOp::UnmaskProcessor]);
    assert_eq!(
        GIC::new(31).enable(),
        [distributor(0x100, 0x8000_0000), GicOp::UnmaskProcessor]
    );
    assert_eq!(GIC::new(48).enable(), [distributor(0x104, 0x1_0000), GicOp::UnmaskProcessor]);
    assert_eq!(
        GIC::new(u32::MAX).enable(),
        [distributor(0x100 + 4 * 0x07ff_ffff, 0x8000_0000), GicOp::UnmaskProcessor]
    );
}

#[test]
fn disable_clears_the_bit_of_the_line() {
    assert_eq!(GIC::new(0x21).disable(), [GicOp::MaskProcessor, distributor(0x184, 2)]);
    assert_eq!(GIC::new(64).disable(), [GicOp::MaskProcessor, distributor(0x188, 1)]);
}

#[test]
fn clear_acknowledges_and_ends() {
    let line = GIC::new(0x21);
    assert_eq!(line.irq, 0x21);
    assert_eq!(line.clear(), [GicOp::Acknowledge]);
    assert_eq!(
        line.end(0x21),
        [GicOp::Interface { offset: GICC_EOIR, value: 0x21 }, distributor(0x284, 2)]
    );
    assert_eq!(
        line.end(1023),
        [GicOp::Interface { offset: GICC_EOIR, value: 1023 }, distributor(0x284, 2)]
    );
}
