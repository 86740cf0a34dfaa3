//! The virtio PCI transport.
//!
//! BAR 0 holds the common configuration, the interrupt status, the device
//! configuration and the notify registers; BAR 2 holds the MSI-X table and the
//! pending bits.
pub mod adapter;
pub mod capabilities;
pub mod common;
pub mod transport;
