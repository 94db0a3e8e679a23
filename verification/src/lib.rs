//! Controller/port abstraction for a memory-mapped multi-bank GPIO
//! peripheral.
//!
//! The crate resolves, from a tree of description nodes, how many line banks
//! ("ports") the device exposes, how many signal lines each bank has and how
//! those lines are numbered globally, and then offers per-line direction and
//! level control through read-modify-write sequences on a register region.
//! The register region here is a simulated backing store that models the
//! peripheral's register file, including the electrical coupling from the
//! driven-data register to the externally observed level register, so the
//! whole control path can be verified against it.

use vstd::prelude::*;

pub mod adapter;
pub mod bits;
pub mod controller;
pub mod errors;
pub mod laws;
pub mod port;
pub mod regs;
pub mod topology;

verus! {

/// Largest number of line banks the controller can address.
pub const MAX_PORTS: usize = 4;

/// Largest number of signal lines one bank can expose; line counts above
/// this are clamped during topology resolution.
pub const MAX_GPIOS: u32 = 32;

/// Number of 32-bit registers in one bank's register block.
pub const PORT_STRIDE: usize = 3;

/// Word offset, within a bank, of the driven-data register.
pub const DATA_REG: usize = 0;

/// Word offset, within a bank, of the direction register.
pub const DIR_REG: usize = 1;

/// Word offset, within a bank, of the external-level register.
pub const EXT_REG: usize = 2;

/// Total number of 32-bit words in the mapped register region.
pub const REGION_WORDS: usize = MAX_PORTS * PORT_STRIDE;

} // verus!
