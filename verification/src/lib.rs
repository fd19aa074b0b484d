//! A signal-propagation kernel for pin-level circuit emulation.
//!
//! The kernel models the terminals of integrated circuits (`Pin`), the wires
//! that join them (`Trace`), and the components that own them (`Device`), and
//! propagates level changes through the resulting network deterministically
//! and synchronously.  Signal levels are fixed-point integers: a full logic
//! high is `1000`, a full low is `0`, and anything at or above `500` reads as
//! high.  An absent level models a floating (high-impedance) wire.
//!
//! Propagation is synchronous and deterministic.  The one structural
//! departure from a direct observer callback is that the kernel records
//! every device notification in the circuit's event log, in the order it
//! arises, and the surrounding program delivers the log's entries to the
//! devices it keeps; the decisions all live in the kernel, only that
//! dispatch loop stands outside it.

pub mod level;
pub mod pin;
pub mod trace;
pub mod device;
pub mod circuit;
pub mod laws;
pub mod common;
pub mod memory;
pub mod utils;
pub mod instruction;
pub mod alu;
pub mod cpu;
pub mod save;
pub mod text;
