//! Library core of a local virtual-machine orchestrator.
//!
//! The library resolves a layered, per-VM configuration (instance record over
//! ancestor records over global defaults), selects VMs against user criteria
//! with a deterministic specificity ranking, and reconciles an image catalog
//! by a directive-driven three-way merge.  All logic here is verified; the
//! surrounding process plumbing lives outside the library.

pub mod config;
pub mod cache;
pub mod errors;
pub mod gui;
pub mod images;
pub mod ip;
pub mod merge;
pub mod net;
pub mod openssh_config;
pub mod specified_by;
pub mod ssh;
pub mod string_like;
pub mod vm;
pub mod vm_config;
pub mod vms_creator;
pub mod text;

pub use errors::Error;
pub use vm::create as create_vm;
pub use vm::VM;
pub use vms_creator::{VMsCreator, WithPid};
