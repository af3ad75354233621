//! Peripheral subsystem of the Zilog MCZ-1 business computer: the address and
//! port bus, the floppy disk controller with its sector format, and the
//! scheduler that delivers the controller's deferred completions.
//!
//! Instruction execution is not part of this crate. The driver that steps the
//! processor hands the register values in before every instruction and writes
//! the returned ones back.

pub mod media;
pub mod pds_machine;
pub mod floppy;
pub mod scheduler;
pub mod step;
pub mod laws;
