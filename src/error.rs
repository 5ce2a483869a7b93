//! Why a block or a frame could not be decoded.
use vstd::prelude::*;

verus! {

#[derive(Debug, Clone, Copy, PartialEq, Eq, Structural)]
pub enum DecodeError {
    /// The block handed to a decoder is not exactly as wide as its layout.
    SizeMismatch { expected: usize, actual: usize },
    /// A hemisphere indicator byte outside `N`, `S`, `E`, `W`.
    InvalidEnumeration(u8),
    /// A unit byte that is not an ASCII character.
    InvalidCharacter(u8),
}

/// The error for a block of `actual` bytes where `expected` were needed.
pub open spec fn size_mismatch(expected: usize, actual: nat) -> DecodeError {
    DecodeError::SizeMismatch { expected, actual: actual as usize }
}

} // verus!
