//! Identity and driver-binding model for USB devices on Linux.
//!
//! The crate describes how a USB device is identified (`vendor:product`), how
//! the bus-topology token that the kernel accepts for binding is derived, and
//! which single control-file write toggles a device. It performs no I/O: the
//! caller reads attributes and descriptors, hands them over as plain values,
//! and carries out the write that the library decides on.

pub mod text;
pub mod topology;
pub mod device;
pub mod sysfs;
pub mod descriptor;
pub mod control;
pub mod command;
