//! Error taxonomy: topology-resolution failures abort the whole attach,
//! per-line index failures stay local to the caller, and a failed register
//! mapping is reported once at attach time.

use vstd::prelude::*;

verus! {

/// A topology-resolution failure. Any of these aborts the attach as a whole:
/// no partial set of ports is ever left registered.
#[derive(Clone, Copy, Debug, PartialEq, Eq, Structural)]
pub enum ConfigError {
    /// The device node has more children than `MAX_PORTS`.
    TooManyPorts,
    /// A mandatory property (`reg`, or the selected numbering-base property)
    /// is absent, or the bank index is out of range or already claimed.
    MissingProperty,
    /// Both the primary and the legacy line-count properties are absent or
    /// zero: a bank with no lines is not a valid configuration.
    ZeroLineCount,
}

/// A line or bank index outside its valid range; local and recoverable,
/// returned to the immediate caller.
#[derive(Clone, Copy, Debug, PartialEq, Eq, Structural)]
pub enum IndexError {
    OutOfRange,
}

/// A failed register mapping, detected once when the region is mapped,
/// never on an individual access.
#[derive(Clone, Copy, Debug, PartialEq, Eq, Structural)]
pub enum HardwareAccessError {
    MappingFailed,
}

} // verus!
