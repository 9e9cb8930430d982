//! What the kernel learns from the device tree when it starts: where its heap
//! is, where the console is, and where the virtio devices are.
//!
//! Nothing here touches memory or devices. Each function reads the checked
//! tree and returns plain numbers, or the reason why the kernel has to give up.

use vstd::prelude::*;
use vstd::string::StringSliceAdditionalSpecFns;
use vstd::arithmetic::div_mod::{lemma_add_mod_noop, lemma_mul_mod_noop_left};
use crate::text::bytes_eq;
use crate::device_tree::{
    be32, children_of, decides, descend, find_node, find_prop, keeps, node_views,
    path_segments, prop_matches, props_at, read_be32, Node, NodeView, Prop, PropView,
};

verus! {

/// Why the kernel cannot go on with this device tree.
#[derive(Clone, Copy, Debug, PartialEq, Eq, Structural)]
pub enum BootError {
    /// A property is shorter than the cells it must hold, or holds an
    /// interrupt number that does not fit.
    MalformedProperty,
    /// The kernel's heap does not start inside the memory that the tree
    /// reports.
    HeapOutsideMemory,
}

/// How many 4-byte cells an address and a size take in a `reg` property.
#[derive(Clone, Copy, Debug, PartialEq, Eq, Structural)]
pub struct Cells {
    pub address: usize,
    pub size: usize,
}

/// The memory handed to the allocator.
#[derive(Clone, Copy, Debug, PartialEq, Eq, Structural)]
pub struct HeapRegion {
    pub start: usize,
    pub size: usize,
}

/// Where the console's registers are, and its interrupt.
#[derive(Clone, Copy, Debug, PartialEq, Eq, Structural)]
pub struct UartConfig {
    pub base: usize,
    pub irq: u32,
}

/// Where a virtio device may be, and its interrupt.
#[derive(Clone, Copy, Debug, PartialEq, Eq, Structural)]
pub struct MmioDevice {
    pub base: usize,
    pub irq: u32,
}

/// Size of the register window that the console must have.
pub const UART_WINDOW: usize = 0x1000;

/// `s` without its last byte, if that is a NUL.
pub open spec fn strip_nul(s: Seq<u8>) -> Seq<u8> {
    if s.len() > 0 && s.last() == 0 {
        s.drop_last()
    } else {
        s
    }
}

/// The string without the NUL that ends it, if one does.
pub fn null_terminated_str(bytes: &[u8]) -> (r: &[u8])
    ensures
        r@ == strip_nul(bytes@),
{
    let n = bytes.len();
    if n > 0 && bytes[n - 1] == 0 {
        &bytes[0..n - 1]
    } else {
        bytes
    }
}

/// The number that the first `n` big-endian cells of `s` spell, most
/// significant cell first.
pub open spec fn cells_value(s: Seq<u8>, n: nat) -> nat
    decreases n,
{
    if n == 0 {
        0
    } else {
        cells_value(s, (n - 1) as nat) * 0x1_0000_0000 + be32(s, 4 * (n - 1)) as nat
    }
}

/// What 64 bits keep of a number.
pub open spec fn low64(x: nat) -> u64 {
    (x % 0x1_0000_0000_0000_0000) as u64
}

/// What a machine word keeps of a number.
pub open spec fn word(x: nat) -> usize {
    low64(x) as usize
}

proof fn lemma_shift_in(acc: u64, cell: u32)
    ensures
        (acc << 32 | cell as u64) as int == (acc as int * 0x1_0000_0000 + cell as int)
            % 0x1_0000_0000_0000_0000,
{
    assert((acc << 32 | cell as u64) as int == (acc as int * 0x1_0000_0000 + cell as int)
        % 0x1_0000_0000_0000_0000) by (bit_vector);
}

proof fn lemma_low64_step(v: nat, cell: nat)
    ensures
        low64(v * 0x1_0000_0000 + cell) as int == (low64(v) as int * 0x1_0000_0000 + cell as int)
            % 0x1_0000_0000_0000_0000,
{
    let m = 0x1_0000_0000_0000_0000int;
    lemma_mul_mod_noop_left(v as int, 0x1_0000_0000, m);
    lemma_add_mod_noop((v % (m as nat)) as int * 0x1_0000_0000, cell as int, m);
    lemma_add_mod_noop(v as int * 0x1_0000_0000, cell as int, m);
}

/// Reads `cell_size` cells from the front of `regs` as one number, and
/// returns it with the bytes that follow. Cells beyond the width of a machine
/// word are shifted out at the top.
pub fn regs_to_usize(regs: &[u8], cell_size: usize) -> (r: (usize, &[u8]))
    requires
        cell_size * 4 <= regs@.len(),
    ensures
        r.0 == word(cells_value(regs@, cell_size as nat)),
        r.1@ == regs@.skip(cell_size * 4),
{
    let mut result: u64 = 0;
    let mut i: usize = 0;
    assert(regs@.len() == regs.len());
    while i < cell_size
        invariant
            i <= cell_size,
            cell_size * 4 <= regs@.len(),
            regs@.len() <= usize::MAX,
            result == low64(cells_value(regs@, i as nat)),
        decreases cell_size - i,
    {
        let cell = read_be32(regs, i * 4);
        proof {
            lemma_shift_in(result, cell);
            lemma_low64_step(cells_value(regs@, i as nat), cell as nat);
        }
        result = result << 32 | cell as u64;
        i = i + 1;
    }
    (result as usize, &regs[cell_size * 4..regs.len()])
}

/// The interrupt that an `interrupts` property of two cells names: the
/// second cell, raised by 32 where the first is 0 and by 16 otherwise.
pub open spec fn interrupt_of(value: Seq<u8>) -> Result<u32, BootError> {
    if value.len() < 8 {
        Err(BootError::MalformedProperty)
    } else {
        let base: int = if be32(value, 0) == 0 {
            32
        } else {
            16
        };
        if base + be32(value, 4) > u32::MAX {
            Err(BootError::MalformedProperty)
        } else {
            Ok((base + be32(value, 4)) as u32)
        }
    }
}

/// The interrupt of a node with the properties `props`, if it names one.
pub open spec fn interrupt_spec(props: Seq<PropView>) -> Result<Option<u32>, BootError> {
    match find_prop(props, "interrupts".spec_bytes()) {
        None => Ok(None),
        Some(p) => match interrupt_of(p.value) {
            Ok(irq) => Ok(Some(irq)),
            Err(e) => Err(e),
        },
    }
}

/// The interrupt line of a node, from its `interrupts` property.
pub fn interrupt_for_node(node: &Node) -> (r: Result<Option<u32>, BootError>)
    requires
        node.wf(),
    ensures
        r == interrupt_spec(node.props_spec()),
{
    match node.prop_by_name("interrupts") {
        None => Ok(None),
        Some(interrupt) => {
            if interrupt.value.len() < 8 {
                return Err(BootError::MalformedProperty);
            }
            let (irq_type, rest) = regs_to_usize(interrupt.value, 1);
            let (irq, _rest) = regs_to_usize(rest, 1);
            proof {
                let v = interrupt.value@;
                assert(cells_value(v, 1) == be32(v, 0)) by {
                    assert(cells_value(v, 0) == 0);
                }
                assert(cells_value(rest@, 1) == be32(rest@, 0)) by {
                    assert(cells_value(rest@, 0) == 0);
                }
                assert(be32(rest@, 0) == be32(v, 4));
            }
            let base: usize = if irq_type == 0 {
                32
            } else {
                16
            };
            if irq > 0xffff_ffff - base {
                return Err(BootError::MalformedProperty);
            }
            Ok(Some((base + irq) as u32))
        },
    }
}

/// The count that a `#...-cells` property gives; 2 where there is none.
pub open spec fn cell_count_spec(props: Seq<PropView>, name: Seq<u8>) -> Result<usize, BootError> {
    match find_prop(props, name) {
        None => Ok(2),
        Some(p) => if p.value.len() == 4 {
            Ok(be32(p.value, 0) as usize)
        } else {
            Err(BootError::MalformedProperty)
        },
    }
}

/// The cell counts that the properties `props` of the root give.
pub open spec fn cells_spec(props: Seq<PropView>) -> Result<Cells, BootError> {
    match cell_count_spec(props, "#size-cells".spec_bytes()) {
        Err(e) => Err(e),
        Ok(size) => match cell_count_spec(props, "#address-cells".spec_bytes()) {
            Err(e) => Err(e),
            Ok(address) => Ok(Cells { address, size }),
        },
    }
}

fn cell_count(node: &Node, name: &str) -> (r: Result<usize, BootError>)
    requires
        node.wf(),
    ensures
        r == cell_count_spec(node.props_spec(), name.spec_bytes()),
{
    match node.prop_by_name(name) {
        None => Ok(2),
        Some(p) => {
            if p.value.len() == 4 {
                Ok(read_be32(p.value, 0) as usize)
            } else {
                Err(BootError::MalformedProperty)
            }
        },
    }
}

/// Reads `#size-cells` and `#address-cells` of the root.
pub fn read_cells(root: &Node) -> (r: Result<Cells, BootError>)
    requires
        root.wf(),
    ensures
        r == cells_spec(root.props_spec()),
{
    let size = match cell_count(root, "#size-cells") {
        Ok(n) => n,
        Err(e) => {
            return Err(e);
        },
    };
    let address = match cell_count(root, "#address-cells") {
        Ok(n) => n,
        Err(e) => {
            return Err(e);
        },
    };
    Ok(Cells { address, size })
}

/// The address that a `reg` value starts with.
pub open spec fn reg_address(value: Seq<u8>, cells: Cells) -> Result<usize, BootError> {
    if cells.address * 4 > value.len() {
        Err(BootError::MalformedProperty)
    } else {
        Ok(word(cells_value(value, cells.address as nat)))
    }
}

/// The address and the size that a `reg` value starts with.
pub open spec fn reg_range(value: Seq<u8>, cells: Cells) -> Result<(usize, usize), BootError> {
    if (cells.address + cells.size) * 4 > value.len() {
        Err(BootError::MalformedProperty)
    } else {
        Ok(
            (
                word(cells_value(value, cells.address as nat)),
                word(cells_value(value.skip(cells.address * 4), cells.size as nat)),
            ),
        )
    }
}

fn read_reg_address(value: &[u8], cells: &Cells) -> (r: Result<usize, BootError>)
    ensures
        r == reg_address(value@, *cells),
{
    if cells.address > value.len() / 4 {
        return Err(BootError::MalformedProperty);
    }
    let (addr, _rest) = regs_to_usize(value, cells.address);
    Ok(addr)
}

fn read_reg_range(value: &[u8], cells: &Cells) -> (r: Result<(usize, usize), BootError>)
    ensures
        r == reg_range(value@, *cells),
{
    let quarter = value.len() / 4;
    if cells.address > quarter || cells.size > quarter - cells.address {
        return Err(BootError::MalformedProperty);
    }
    let (addr, rest) = regs_to_usize(value, cells.address);
    let (size, _rest) = regs_to_usize(rest, cells.size);
    Ok((addr, size))
}

/// The value marks a memory node.
pub open spec fn is_memory(p: PropView) -> bool {
    p.value == "memory\0".spec_bytes()
}

/// The value marks a virtio device behind memory-mapped registers.
pub open spec fn is_virtio_mmio(p: PropView) -> bool {
    p.value == "virtio,mmio\0".spec_bytes()
}

/// The heap for a kernel whose heap starts at `heap_start`, from the first
/// of `nodes` that is a memory node with a `reg` property: what is left of
/// that memory from `heap_start` on. The heap must start inside it.
pub open spec fn heap_spec(
    s: Seq<u8>,
    strings: int,
    nodes: Seq<NodeView>,
    cells: Cells,
    heap_start: usize,
) -> Result<Option<HeapRegion>, BootError>
    decreases nodes.len(),
{
    if nodes.len() == 0 {
        Ok(None)
    } else if !prop_matches(
        s,
        strings,
        nodes[0],
        "device_type".spec_bytes(),
        |p: PropView| is_memory(p),
    ) {
        heap_spec(s, strings, nodes.drop_first(), cells, heap_start)
    } else {
        match find_prop(props_at(s, strings, nodes[0].body), "reg".spec_bytes()) {
            None => heap_spec(s, strings, nodes.drop_first(), cells, heap_start),
            Some(reg) => match reg_range(reg.value, cells) {
                Err(e) => Err(e),
                Ok((addr, size)) => if addr <= heap_start && heap_start - addr < size {
                    Ok(
                        Some(
                            HeapRegion {
                                start: heap_start,
                                size: (size - (heap_start - addr)) as usize,
                            },
                        ),
                    )
                } else {
                    Err(BootError::HeapOutsideMemory)
                },
            },
        }
    }
}

/// Finds the memory that holds the kernel's heap, which starts at
/// `heap_start`. Allocates nothing: there is no heap yet.
pub fn find_heap(root: &Node, cells: &Cells, heap_start: usize) -> (r: Result<
    Option<HeapRegion>,
    BootError,
>)
    requires
        root.wf(),
    ensures
        r == heap_spec(root.blob(), root.strings(), root.children_spec(), *cells, heap_start),
{
    let mut children = root.children();
    loop
        invariant
            children.wf(),
            children.blob() == root.blob(),
            children.strings() == root.strings(),
            heap_spec(root.blob(), root.strings(), children.remaining(), *cells, heap_start)
                == heap_spec(
                root.blob(),
                root.strings(),
                root.children_spec(),
                *cells,
                heap_start,
            ),
        decreases children.remaining().len(),
    {
        match children.next() {
            None => {
                return Ok(None);
            },
            Some(node) => {
                let memory = match node.prop_by_name("device_type") {
                    Some(p) => bytes_eq(p.value, "memory\0".as_bytes()),
                    None => false,
                };
                if memory {
                    if let Some(reg) = node.prop_by_name("reg") {
                        match read_reg_range(reg.value, cells) {
                            Err(e) => {
                                return Err(e);
                            },
                            Ok((addr, size)) => {
                                if addr <= heap_start && heap_start - addr < size {
                                    return Ok(
                                        Some(
                                            HeapRegion {
                                                start: heap_start,
                                                size: size - (heap_start - addr),
                                            },
                                        ),
                                    );
                                } else {
                                    return Err(BootError::HeapOutsideMemory);
                                }
                            },
                        }
                    }
                }
            },
        }
    }
}

/// The console that the tree names: the node that `/chosen/stdout-path`
/// leads to, if that path is `/pl011@9000000` and the node's register window
/// has the size of a PL011.
pub open spec fn console_spec(s: Seq<u8>, strings: int, root: NodeView, cells: Cells) -> Result<
    Option<UartConfig>,
    BootError,
> {
    match find_node(children_of(s, root), "chosen".spec_bytes()) {
        None => Ok(None),
        Some(chosen) => match find_prop(
            props_at(s, strings, chosen.body),
            "stdout-path".spec_bytes(),
        ) {
            None => Ok(None),
            Some(p) => {
                let path = strip_nul(p.value);
                if path != "/pl011@9000000".spec_bytes() {
                    Ok(None)
                } else {
                    let stdout = descend(s, root, path_segments(path));
                    let props = props_at(s, strings, stdout.body);
                    match interrupt_spec(props) {
                        Err(e) => Err(e),
                        Ok(irq) => match find_prop(props, "reg".spec_bytes()) {
                            None => Ok(None),
                            Some(reg) => match reg_range(reg.value, cells) {
                                Err(e) => Err(e),
                                Ok((addr, size)) => if size == UART_WINDOW {
                                    Ok(
                                        Some(
                                            UartConfig {
                                                base: addr,
                                                irq: match irq {
                                                    Some(n) => n,
                                                    None => 0,
                                                },
                                            },
                                        ),
                                    )
                                } else {
                                    Ok(None)
                                },
                            },
                        },
                    }
                }
            },
        },
    }
}

/// Finds the console.
pub fn find_console(root: &Node, cells: &Cells) -> (r: Result<Option<UartConfig>, BootError>)
    requires
        root.wf(),
    ensures
        r == console_spec(root.blob(), root.strings(), root@, *cells),
{
    let chosen = match root.child_by_name("chosen") {
        Some(n) => n,
        None => {
            return Ok(None);
        },
    };
    let stdout_path = match chosen.prop_by_name("stdout-path") {
        Some(p) => null_terminated_str(p.value),
        None => {
            return Ok(None);
        },
    };
    if !bytes_eq(stdout_path, "/pl011@9000000".as_bytes()) {
        return Ok(None);
    }
    let stdout = match root.child_by_path(stdout_path) {
        Some(n) => n,
        None => {
            return Ok(None);
        },
    };
    let irq = match interrupt_for_node(&stdout) {
        Ok(Some(n)) => n,
        Ok(None) => 0,
        Err(e) => {
            return Err(e);
        },
    };
    match stdout.prop_by_name("reg") {
        None => Ok(None),
        Some(reg) => match read_reg_range(reg.value, cells) {
            Err(e) => Err(e),
            Ok((addr, size)) => {
                if size == UART_WINDOW {
                    Ok(Some(UartConfig { base: addr, irq }))
                } else {
                    Ok(None)
                }
            },
        },
    }
}

/// The register windows of the virtio nodes among `nodes`, in file order:
/// of each that has a `reg` property its address, and its interrupt or 0.
pub open spec fn virtio_spec(s: Seq<u8>, strings: int, nodes: Seq<NodeView>, cells: Cells)
    -> Result<Seq<MmioDevice>, BootError>
    decreases nodes.len(),
{
    if nodes.len() == 0 {
        Ok(Seq::empty())
    } else {
        let props = props_at(s, strings, nodes.last().body);
        match virtio_spec(s, strings, nodes.drop_last(), cells) {
            Err(e) => Err(e),
            Ok(before) => match find_prop(props, "reg".spec_bytes()) {
                None => Ok(before),
                Some(reg) => match reg_address(reg.value, cells) {
                    Err(e) => Err(e),
                    Ok(base) => match interrupt_spec(props) {
                        Err(e) => Err(e),
                        Ok(irq) => Ok(
                            before.push(
                                MmioDevice {
                                    base,
                                    irq: match irq {
                                        Some(n) => n,
                                        None => 0,
                                    },
                                },
                            ),
                        ),
                    },
                },
            },
        }
    }
}

/// The children of `root` that are virtio devices behind memory-mapped
/// registers.
pub open spec fn virtio_nodes(s: Seq<u8>, strings: int, root: NodeView) -> Seq<NodeView> {
    children_of(s, root).filter(
        keeps(s, strings, "compatible".spec_bytes(), |p: PropView| is_virtio_mmio(p)),
    )
}

/// Lists where virtio devices may be. Whether one answers there, and which,
/// the registers tell.
pub fn find_virtio(root: &Node, cells: &Cells) -> (r: Result<Vec<MmioDevice>, BootError>)
    requires
        root.wf(),
    ensures
        match r {
            Ok(found) => virtio_spec(
                root.blob(),
                root.strings(),
                virtio_nodes(root.blob(), root.strings(), root@),
                *cells,
            ) == Ok::<Seq<MmioDevice>, BootError>(found@),
            Err(e) => virtio_spec(
                root.blob(),
                root.strings(),
                virtio_nodes(root.blob(), root.strings(), root@),
                *cells,
            ) == Err::<Seq<MmioDevice>, BootError>(e),
        },
{
    let matches = |p: &Prop| -> (b: bool)
        ensures
            b == is_virtio_mmio(p@),
        { bytes_eq(p.value, "virtio,mmio\0".as_bytes()) };
    let nodes = root.children_by_prop("compatible", matches);
    let ghost all = virtio_nodes(root.blob(), root.strings(), root@);
    proof {
        let pred = |p: PropView| is_virtio_mmio(p);
        assert(decides(matches, pred));
        assert(node_views(nodes@) == all);
    }
    let mut found: Vec<MmioDevice> = Vec::new();
    let mut i: usize = 0;
    while i < nodes.len()
        invariant
            i <= nodes@.len(),
            all == virtio_nodes(root.blob(), root.strings(), root@),
            node_views(nodes@) == all,
            forall|k: int|
                0 <= k < nodes@.len() ==> (#[trigger] nodes@[k]).wf() && nodes@[k].blob()
                    == root.blob() && nodes@[k].strings() == root.strings(),
            virtio_spec(root.blob(), root.strings(), all.take(i as int), *cells) == Ok::<
                Seq<MmioDevice>,
                BootError,
            >(found@),
        decreases nodes@.len() - i,
    {
        let node = &nodes[i];
        proof {
            let upto = all.take(i + 1);
            assert(upto.drop_last() == all.take(i as int));
            assert(upto.last() == node@);
        }
        if let Some(reg) = node.prop_by_name("reg") {
            let base = match read_reg_address(reg.value, cells) {
                Ok(base) => base,
                Err(e) => {
                    proof {
                        assert(virtio_spec(root.blob(), root.strings(), all.take(i + 1), *cells)
                            == Err::<Seq<MmioDevice>, BootError>(e));
                        lemma_virtio_fails_on(root.blob(), root.strings(), all, *cells, i + 1);
                    }
                    return Err(e);
                },
            };
            let irq = match interrupt_for_node(node) {
                Ok(Some(n)) => n,
                Ok(None) => 0,
                Err(e) => {
                    proof {
                        assert(virtio_spec(root.blob(), root.strings(), all.take(i + 1), *cells)
                            == Err::<Seq<MmioDevice>, BootError>(e));
                        lemma_virtio_fails_on(root.blob(), root.strings(), all, *cells, i + 1);
                    }
                    return Err(e);
                },
            };
            found.push(MmioDevice { base, irq });
        }
        i = i + 1;
    }
    assert(all.take(nodes@.len() as int) == all);
    Ok(found)
}

/// A fault met among the first `n` nodes is the fault of the whole list.
proof fn lemma_virtio_fails_on(s: Seq<u8>, strings: int, nodes: Seq<NodeView>, cells: Cells, n: int)
    requires
        0 <= n <= nodes.len(),
        virtio_spec(s, strings, nodes.take(n), cells) is Err,
    ensures
        virtio_spec(s, strings, nodes, cells) == virtio_spec(s, strings, nodes.take(n), cells),
    decreases nodes.len() - n,
{
    if n < nodes.len() {
        assert(nodes.take(n + 1).drop_last() == nodes.take(n));
        lemma_virtio_fails_on(s, strings, nodes, cells, n + 1);
    } else {
        assert(nodes.take(n) == nodes);
    }
}

} // verus!
