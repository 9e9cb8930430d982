//! The core of a small kernel for the AArch64 virt machine, without the
//! machine: what the kernel decides, as verified functions on plain values.
//!
//! - [`utils`]: integers tagged with their byte order.
//! - [`text`]: byte strings, fields and decimal numbers.
//! - [`device_tree`]: the walker over the flattened device tree.
//! - [`boot`]: what the kernel learns from the tree when it starts.
//! - [`gic`]: the interrupt controller.
//! - [`uart`]: the serial console.
//! - [`virtio`]: the virtio-mmio transport, the split virtqueue, and the
//!   block, entropy and network devices.
//! - [`thread`]: which processor cores are busy.
//! - [`apps`]: the shell and the network responder.
//!
//! No function here touches a register or memory that a device shares. A
//! driver hands out what to load and to store, in order, and takes what was
//! loaded; whoever owns the hardware does the loading and storing.

pub mod apps;
pub mod boot;
pub mod device_tree;
pub mod gic;
pub mod text;
pub mod thread;
pub mod uart;
pub mod utils;
pub mod virtio;
