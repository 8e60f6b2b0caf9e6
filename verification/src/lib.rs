//! Core of a minimal type-1 hypervisor for one guest on one virtual CPU.
//!
//! The crate holds everything the hypervisor decides: how a raw VM exit is
//! decoded, how the second-stage address space grows on demand, how the guest
//! context is prepared and advanced, and what the run loop does with each
//! exit. Privileged instructions, the page-table walker, the console and the
//! file system stay with the caller, which performs the actions this crate
//! hands out and reports back what the hardware said.
pub mod arch;
pub mod context;
pub mod exit;
pub mod s2as;
pub mod vm;
pub mod vmcb;
pub mod script;
pub mod aarch64_guest;
pub mod x86_64_guest;
pub mod machine;
pub mod laws;
pub mod tooling;
