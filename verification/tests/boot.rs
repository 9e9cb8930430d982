use allora::boot::{
    find_console, find_heap, find_virtio, interrupt_for_node, null_terminated_str, read_cells,
    regs_to_usize, BootError, Cells, HeapRegion, MmioDevice, UartConfig,
};
use allora::device_tree::DeviceTree;

const BEGIN_NODE: u32 = 1;
const END_NODE: u32 = 2;
const PROP: u32 = 3;
const END: u32 = 9;

/// Builds blobs token by token.
struct Blob {
    structs: Vec<u8>,
    strings: Vec<u8>,
}

impl Blob {
    fn new() -> Blob {
        Blob { structs: Vec::new(), strings: Vec::new() }
    }

    fn word(&mut self, w: u32) -> &mut Blob {
        self.structs.extend_from_slice(&w.to_be_bytes());
        self
    }

    fn pad(&mut self) {
        while self.structs.len() % 4 != 0 {
            self.structs.push(0);
        }
    }

    fn begin(&mut self, name: &str) -> &mut Blob {
        self.word(BEGIN_NODE);
        self.structs.extend_from_slice(name.as_bytes());
        self.structs.push(0);
        self.pad();
        self
    }

    fn end(&mut self) -> &mut Blob {
        self.word(END_NODE)
    }

    fn prop(&mut self, name: &str, value: &[u8]) -> &mut Blob {
        let nameoff = self.strings.len() as u32;
        self.strings.extend_from_slice(name.as_bytes());
        self.strings.push(0);
        self.word(PROP);
        self.word(value.len() as u32);
        self.word(nameoff);
        self.structs.extend_from_slice(value);
        self.pad();
        self
    }

    fn finish(&mut self) -> Vec<u8> {
        self.word(END);
        self.assemble()
    }

    fn assemble(&self) -> Vec<u8> {
        let struct_off = 40u32;
        let strings_off = struct_off + self.structs.len() as u32;
        let total = strings_off + self.strings.len() as u32;
        let mut out = Vec::new();
        for w in [
            0xd00d_feedu32,
            total,
            struct_off,
            strings_off,
            40,
            17,
            16,
            0,
            self.strings.len() as u32,
            self.structs.len() as u32,
        ] {
            out.extend_from_slice(&w.to_be_bytes());
        }
        out.extend_from_slice(&self.structs);
        out.extend_from_slice(&self.strings);
        out
    }
}

fn cells(values: &[u32]) -> Vec<u8> {
    let mut out = Vec::new();
    for v in values {
        out.extend_from_slice(&v.to_be_bytes());
    }
    out
}

const TWO: Cells = Cells { address: 2, size: 2 };

/// A tree as the virt machine hands it over, much shortened.
fn virt(uart_size: u32) -> Vec<u8> {
    let mut b = Blob::new();
    b.begin("")
        .prop("#size-cells", &cells(&[2]))
        .prop("#address-cells", &cells(&[2]))
        .begin("memory@40000000")
        .prop("device_type", b"memory\0")
        .prop("reg", &cells(&[0, 0x4000_0000, 0, 0x0800_0000]))
        .end()
        .begin("pl011@9000000")
        .prop("compatible", b"arm,pl011\0arm,primecell\0")
        .prop("interrupts", &cells(&[0, 1, 4]))
        .prop("reg", &cells(&[0, 0x0900_0000, 0, uart_size]))
        .end()
        .begin("virtio_mmio@a000000")
        .prop("compatible", b"virtio,mmio\0")
        .prop("interrupts", &cells(&[0, 0x10, 1]))
        .prop("reg", &cells(&[0, 0x0a00_0000, 0, 0x200]))
        .end()
        .begin("cpus")
        .begin("cpu@0")
        .prop("compatible", b"virtio,mmio\0")
        .end()
        .end()
        .begin("virtio_mmio@a000200")
        .prop("compatible", b"virtio,mmio\0")
        .prop("reg", &cells(&[0, 0x0a00_0200, 0, 0x200]))
        .end()
        .begin("virtio_mmio@a000400")
        .prop("compatible", b"virtio,mmio\0")
        .prop("interrupts", &cells(&[1, 3, 1]))
        .end()
        .begin("chosen")
        .prop("stdout-path", b"/pl011@9000000\0")
        .end()
        .end();
    b.finish()
}

#[test]
fn null_terminated_str_strips_one_nul() {
    assert_eq!(null_terminated_str(b"abc\0"), b"abc");
    assert_eq!(null_terminated_str(b"abc"), b"abc");
    assert_eq!(null_terminated_str(b"abc\0\0"), b"abc\0");
    assert_eq!(null_terminated_str(b"\0"), b"");
    assert_eq!(null_terminated_str(b""), b"");
}

#[test]
fn regs_to_usize_concatenates_big_endian_cells() {
    let regs = cells(&[0x1122_3344, 0x5566_7788, 0x99aa_bbcc]);
    let (one, rest) = regs_to_usize(&regs, 1);
    assert_eq!(one, 0x1122_3344);
    assert_eq!(rest, &regs[4..]);
    let (two, rest) = regs_to_usize(&regs, 2);
    assert_eq!(two, 0x1122_3344_5566_7788);
    assert_eq!(rest, &regs[8..]);
    let (none, rest) = regs_to_usize(&regs, 0);
    assert_eq!(none, 0);
    assert_eq!(rest, &regs[..]);
}

#[test]
fn regs_to_usize_shifts_out_what_does_not_fit() {
    let regs = cells(&[0x1122_3344, 0x5566_7788, 0x99aa_bbcc]);
    let (three, rest) = regs_to_usize(&regs, 3);
    assert_eq!(three as u64, 0x5566_7788_99aa_bbcc);
    assert!(rest.is_empty());
}

#[test]
fn interrupt_numbers_follow_the_kind() {
    let mut b = Blob::new();
    b.begin("")
        .begin("spi")
        .prop("interrupts", &cells(&[0, 1, 4]))
        .end()
        .begin("ppi")
        .prop("interrupts", &cells(&[1, 3, 4]))
        .end()
        .begin("other")
        .prop("interrupts", &cells(&[7, 3]))
        .end()
        .begin("none")
        .end()
        .begin("short")
        .prop("interrupts", &cells(&[0]))
        .end()
        .begin("huge")
        .prop("interrupts", &cells(&[0, 0xffff_fff0]))
        .end()
        .begin("edge")
        .prop("interrupts", &cells(&[0, 0xffff_ffdf]))
        .end()
        .end();
    let blob = b.finish();
    let tree = DeviceTree::new(&blob).unwrap();
    let root = tree.root().unwrap();
    let irq = |name: &str| interrupt_for_node(&root.child_by_name(name).unwrap());
    assert_eq!(irq("spi"), Ok(Some(33)));
    assert_eq!(irq("ppi"), Ok(Some(19)));
    assert_eq!(irq("other"), Ok(Some(19)));
    assert_eq!(irq("none"), Ok(None));
    assert_eq!(irq("short"), Err(BootError::MalformedProperty));
    assert_eq!(irq("huge"), Err(BootError::MalformedProperty));
    assert_eq!(irq("edge"), Ok(Some(0xffff_ffff)));
}

#[test]
fn cells_default_to_two() {
    let mut b = Blob::new();
    b.begin("").end();
    let blob = b.finish();
    let tree = DeviceTree::new(&blob).unwrap();
    assert_eq!(read_cells(&tree.root().unwrap()), Ok(TWO));
}

#[test]
fn cells_are_read_from_the_root() {
    let mut b = Blob::new();
    b.begin("").prop("#address-cells", &cells(&[1])).prop("#size-cells", &cells(&[3])).end();
    let blob = b.finish();
    let tree = DeviceTree::new(&blob).unwrap();
    assert_eq!(read_cells(&tree.root().unwrap()), Ok(Cells { address: 1, size: 3 }));
}

#[test]
fn cells_of_a_wrong_length_are_malformed() {
    let mut b = Blob::new();
    b.begin("").prop("#size-cells", &[0, 0, 2]).end();
    let blob = b.finish();
    let tree = DeviceTree::new(&blob).unwrap();
    assert_eq!(read_cells(&tree.root().unwrap()), Err(BootError::MalformedProperty));
}

#[test]
fn heap_is_what_is_left_of_memory() {
    let blob = virt(0x1000);
    let tree = DeviceTree::new(&blob).unwrap();
    let root = tree.root().unwrap();
    assert_eq!(
        find_heap(&root, &TWO, 0x4020_0000),
        Ok(Some(HeapRegion { start: 0x4020_0000, size: 0x07e0_0000 }))
    );
    assert_eq!(
        find_heap(&root, &TWO, 0x4000_0000),
        Ok(Some(HeapRegion { start: 0x4000_0000, size: 0x0800_0000 }))
    );
    assert_eq!(
        find_heap(&root, &TWO, 0x47ff_ffff),
        Ok(Some(HeapRegion { start: 0x47ff_ffff, size: 1 }))
    );
}

#[test]
fn heap_outside_memory_is_fatal() {
    let blob = virt(0x1000);
    let tree = DeviceTree::new(&blob).unwrap();
    let root = tree.root().unwrap();
    assert_eq!(find_heap(&root, &TWO, 0x3fff_ffff), Err(BootError::HeapOutsideMemory));
    assert_eq!(find_heap(&root, &TWO, 0x4800_0000), Err(BootError::HeapOutsideMemory));
}

#[test]
fn heap_needs_a_memory_node_with_reg() {
    let mut b = Blob::new();
    b.begin("")
        .begin("not-memory")
        .prop("device_type", b"cpu\0")
        .prop("reg", &cells(&[0, 0, 0, 0x1000]))
        .end()
        .begin("memory-without-reg")
        .prop("device_type", b"memory\0")
        .end()
        .end();
    let blob = b.finish();
    let tree = DeviceTree::new(&blob).unwrap();
    assert_eq!(find_heap(&tree.root().unwrap(), &TWO, 0x100), Ok(None));
}

#[test]
fn heap_takes_the_first_memory_node_with_reg() {
    let mut b = Blob::new();
    b.begin("")
        .begin("memory@0")
        .prop("device_type", b"memory\0")
        .end()
        .begin("memory@1000")
        .prop("device_type", b"memory\0")
        .prop("reg", &cells(&[0, 0x1000, 0, 0x1000]))
        .end()
        .begin("memory@8000")
        .prop("device_type", b"memory\0")
        .prop("reg", &cells(&[0, 0x8000, 0, 0x1000]))
        .end()
        .end();
    let blob = b.finish();
    let tree = DeviceTree::new(&blob).unwrap();
    let root = tree.root().unwrap();
    assert_eq!(
        find_heap(&root, &TWO, 0x1800),
        Ok(Some(HeapRegion { start: 0x1800, size: 0x800 }))
    );
    assert_eq!(find_heap(&root, &TWO, 0x8800), Err(BootError::HeapOutsideMemory));
}

#[test]
fn short_memory_reg_is_malformed() {
    let mut b = Blob::new();
    b.begin("")
        .begin("memory@0")
        .prop("device_type", b"memory\0")
        .prop("reg", &cells(&[0, 0x1000, 0]))
        .end()
        .end();
    let blob = b.finish();
    let tree = DeviceTree::new(&blob).unwrap();
    assert_eq!(
        find_heap(&tree.root().unwrap(), &TWO, 0x1800),
        Err(BootError::MalformedProperty)
    );
}

#[test]
fn console_is_the_pl011_of_the_right_size() {
    let blob = virt(0x1000);
    let tree = DeviceTree::new(&blob).unwrap();
    let root = tree.root().unwrap();
    assert_eq!(
        find_console(&root, &TWO),
        Ok(Some(UartConfig { base: 0x0900_0000, irq: 33 }))
    );
}

#[test]
fn console_of_another_size_is_none() {
    let blob = virt(0x2000);
    let tree = DeviceTree::new(&blob).unwrap();
    let root = tree.root().unwrap();
    assert_eq!(find_console(&root, &TWO), Ok(None));
}

#[test]
fn console_needs_the_very_path() {
    for path in [&b"/pl011@9000001\0"[..], b"pl011@9000000\0", b"/pl011@9000000\0\0", b""] {
        let mut b = Blob::new();
        b.begin("")
            .begin("pl011@9000000")
            .prop("reg", &cells(&[0, 0x0900_0000, 0, 0x1000]))
            .end()
            .begin("chosen")
            .prop("stdout-path", path)
            .end()
            .end();
        let blob = b.finish();
        let tree = DeviceTree::new(&blob).unwrap();
        assert_eq!(find_console(&tree.root().unwrap(), &TWO), Ok(None));
    }
}

#[test]
fn console_path_may_lack_its_nul() {
    let mut b = Blob::new();
    b.begin("")
        .begin("pl011@9000000")
        .prop("reg", &cells(&[0, 0x0900_0000, 0, 0x1000]))
        .end()
        .begin("chosen")
        .prop("stdout-path", b"/pl011@9000000")
        .end()
        .end();
    let blob = b.finish();
    let tree = DeviceTree::new(&blob).unwrap();
    assert_eq!(
        find_console(&tree.root().unwrap(), &TWO),
        Ok(Some(UartConfig { base: 0x0900_0000, irq: 0 }))
    );
}

#[test]
fn console_without_chosen_is_none() {
    let mut b = Blob::new();
    b.begin("").begin("pl011@9000000").end().end();
    let blob = b.finish();
    let tree = DeviceTree::new(&blob).unwrap();
    assert_eq!(find_console(&tree.root().unwrap(), &TWO), Ok(None));
}

#[test]
fn virtio_windows_are_listed_in_file_order() {
    let blob = virt(0x1000);
    let tree = DeviceTree::new(&blob).unwrap();
    let root = tree.root().unwrap();
    assert_eq!(
        find_virtio(&root, &TWO),
        Ok(vec![
            MmioDevice { base: 0x0a00_0000, irq: 48 },
            MmioDevice { base: 0x0a00_0200, irq: 0 },
        ])
    );
}

#[test]
fn virtio_with_one_address_cell() {
    let mut b = Blob::new();
    b.begin("")
        .begin("v")
        .prop("compatible", b"virtio,mmio\0")
        .prop("reg", &cells(&[0x0a00_0000]))
        .end()
        .end();
    let blob = b.finish();
    let tree = DeviceTree::new(&blob).unwrap();
    let root = tree.root().unwrap();
    assert_eq!(
        find_virtio(&root, &Cells { address: 1, size: 1 }),
        Ok(vec![MmioDevice { base: 0x0a00_0000, irq: 0 }])
    );
    assert_eq!(find_virtio(&root, &TWO), Err(BootError::MalformedProperty));
}

#[test]
fn virtio_with_a_bad_interrupt_is_malformed() {
    let mut b = Blob::new();
    b.begin("")
        .begin("v")
        .prop("compatible", b"virtio,mmio\0")
        .prop("reg", &cells(&[0, 0x0a00_0000]))
        .prop("interrupts", &cells(&[0]))
        .end()
        .end();
    let blob = b.finish();
    let tree = DeviceTree::new(&blob).unwrap();
    assert_eq!(find_virtio(&tree.root().unwrap(), &TWO), Err(BootError::MalformedProperty));
}
