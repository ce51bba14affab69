//! Errors of the miners.
use vstd::prelude::*;

verus! {

/// Why a mining request failed.
#[derive(Clone, Copy, Debug, PartialEq, Eq)]
pub enum MineError {
    /// A depth of zero, or one beyond the 64 nibbles of a digest.
    InvalidDepth { depth: usize },
    /// An address that is not 40 characters once a `0x` prefix is removed.
    AddressLength { len: usize },
    /// An address of the right length holding a character that is no hex digit.
    AddressNotHex,
    /// The search of a level used its whole budget without a match.
    Exhausted { level: usize },
    /// GPU acceleration was asked for and is not available in this build.
    GpuUnavailable,
}

} // verus!
