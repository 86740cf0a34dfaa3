//! Survey of a base device tree into a machine.
//!
//! [`survey::Machine::survey`] proves total coverage: a fixed sequence of
//! device constructors takes its own nodes and properties out of the tree, and
//! whatever is left over fails the survey. Every guest-visible region is
//! declared from a claimed property, so no constant can reach the resource
//! plan.
pub mod arm;
pub mod claim;
pub mod devices;
pub mod error;
pub mod plan;
pub mod topology;
pub mod survey;
pub mod x86;
pub mod laws;
pub mod changes;
pub mod decoding;
