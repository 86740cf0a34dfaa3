//! PCI: addressing, configuration space, MSI-X and the root complex.
pub mod address;
pub mod bus;
pub mod configuration;
pub mod legacy_pio;
pub mod msix;
pub mod root;
