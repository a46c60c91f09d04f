//! Core of a small interrupt-driven kernel: a bump-pointer region allocator,
//! a write-once handler registry with its builder, a scancode decoder, and the
//! interrupt-dispatch and controller-acknowledgment protocol. The hardware
//! entry shims (port I/O, the CPU's descriptor-table load, the idle halt) live
//! outside this crate; they feed raw bytes and events in and carry the
//! decisions made here back out to the devices.

pub mod allocator;
pub mod handlers;
pub mod interrupts;
pub mod keyboard;
