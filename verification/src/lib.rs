//! A small decoder for the Aseprite (`.ase` / `.aseprite`) animation container.
//!
//! The decoder is a set of cursors over one immutable byte buffer: the document
//! header, the frames behind it, the chunks inside each frame, and the layer and
//! cel payloads inside the chunks. Nothing is copied except the fixed-width
//! integers that are decoded from the buffer, and nothing here performs I/O.

use vstd::prelude::*;

pub mod draw;
pub mod parser;

pub use parser::ASEHeader;

verus! {

/// Adds two numbers whose sum fits in a `u64`.
pub fn add(left: u64, right: u64) -> (sum: u64)
    requires
        left + right <= u64::MAX,
    ensures
        sum == left + right,
{
    left + right
}

} // verus!
