//! A byte-exact persistence codec for the universal parameters of a
//! polynomial-commitment scheme: large sequences and integer-keyed maps of
//! fixed-size curve-point blobs, plus two "prepared" pairing elements, are
//! encoded into per-field byte buffers together with a small fixed-layout
//! metadata record, and decoded back deterministically.
//!
//! The codec never interprets a curve point's internal structure: every
//! element is an opaque fixed-size blob whose bytes are preserved exactly.
//! File I/O and the conversion between the algebra library's values and raw
//! blobs live outside this crate; the codec works on in-memory buffers.
use vstd::prelude::*;

pub mod codec;
pub mod files;
pub mod laws;
pub mod load;
pub mod meta;
pub mod params;
pub mod store;

pub use load::load_params;
pub use store::store_params;

verus! {

/// Why decoding a stored parameter set failed.
#[derive(Clone, Copy, Debug, PartialEq, Eq, Structural)]
pub enum LoadError {
    /// A per-field buffer was not supplied (its file was missing or unreadable).
    IoError,
    /// A per-field buffer holds fewer bytes than its recorded shape requires.
    ShortRead,
    /// The metadata buffer is missing or shorter than its fixed layout.
    CorruptMetadata,
}

} // verus!
