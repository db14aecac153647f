//! The fixed-layout metadata record.
//!
//! One small buffer holds, in a fixed order, the five sequence lengths and
//! two infinity flags needed to size every other buffer before decoding:
//! four 8-byte little-endian lengths, one flag byte, one more 8-byte length,
//! one more flag byte — 42 bytes in all. A buffer shorter than that is
//! corrupt; longer values are trusted as-is, however nonsensical, and
//! surface later as short reads.
use vstd::prelude::*;

use crate::codec::push_u64_le;
use crate::LoadError;
use vstd::bytes::{
    lemma_auto_spec_u64_to_from_le_bytes, spec_u64_from_le_bytes, spec_u64_to_le_bytes,
    u64_from_le_bytes,
};
use vstd::seq_lib::assert_seqs_equal;
use vstd::slice::slice_subrange;

verus! {

/// Width in bytes of the fixed metadata record.
pub const METADATA_BYTES: usize = 42;

/// The lengths and flags recorded ahead of the bulk field buffers, in the
/// exact order they are laid out on disk.
#[derive(Clone, Copy, Debug, PartialEq, Eq, Structural)]
pub struct Metadata {
    pub num_powers_of_g: u64,
    pub num_powers_of_gamma_g: u64,
    pub num_neg_powers_of_h: u64,
    pub num_prepared_h_coeffs: u64,
    pub prepared_h_infinity: bool,
    pub num_prepared_beta_h_coeffs: u64,
    pub prepared_beta_h_infinity: bool,
}

/// The single byte that records a flag: 1 for set, 0 for clear.
pub open spec fn flag_byte(b: bool) -> u8 {
    if b {
        1u8
    } else {
        0u8
    }
}

/// The 42-byte layout of a metadata record.
pub open spec fn encode_metadata_spec(m: Metadata) -> Seq<u8> {
    spec_u64_to_le_bytes(m.num_powers_of_g) + spec_u64_to_le_bytes(m.num_powers_of_gamma_g)
        + spec_u64_to_le_bytes(m.num_neg_powers_of_h) + spec_u64_to_le_bytes(
        m.num_prepared_h_coeffs,
    ) + seq![flag_byte(m.prepared_h_infinity)] + spec_u64_to_le_bytes(
        m.num_prepared_beta_h_coeffs,
    ) + seq![flag_byte(m.prepared_beta_h_infinity)]
}

/// The record read back from the first 42 bytes of a buffer. A flag byte is
/// read as "set exactly when it is 1", mirroring how it is written.
pub open spec fn decode_metadata_spec(b: Seq<u8>) -> Metadata
    recommends
        b.len() >= METADATA_BYTES,
{
    Metadata {
        num_powers_of_g: spec_u64_from_le_bytes(b.subrange(0, 8)),
        num_powers_of_gamma_g: spec_u64_from_le_bytes(b.subrange(8, 16)),
        num_neg_powers_of_h: spec_u64_from_le_bytes(b.subrange(16, 24)),
        num_prepared_h_coeffs: spec_u64_from_le_bytes(b.subrange(24, 32)),
        prepared_h_infinity: b[32] == 1,
        num_prepared_beta_h_coeffs: spec_u64_from_le_bytes(b.subrange(33, 41)),
        prepared_beta_h_infinity: b[41] == 1,
    }
}

/// Decoding reads back exactly the record that was encoded.
pub proof fn lemma_metadata_round_trip(m: Metadata)
    ensures
        encode_metadata_spec(m).len() == METADATA_BYTES,
        decode_metadata_spec(encode_metadata_spec(m)) == m,
{
    lemma_auto_spec_u64_to_from_le_bytes();
    let e = encode_metadata_spec(m);
    assert_seqs_equal!(e.subrange(0, 8) == spec_u64_to_le_bytes(m.num_powers_of_g));
    assert_seqs_equal!(e.subrange(8, 16) == spec_u64_to_le_bytes(m.num_powers_of_gamma_g));
    assert_seqs_equal!(e.subrange(16, 24) == spec_u64_to_le_bytes(m.num_neg_powers_of_h));
    assert_seqs_equal!(e.subrange(24, 32) == spec_u64_to_le_bytes(m.num_prepared_h_coeffs));
    assert(e[32] == flag_byte(m.prepared_h_infinity));
    assert_seqs_equal!(e.subrange(33, 41) == spec_u64_to_le_bytes(m.num_prepared_beta_h_coeffs));
    assert(e[41] == flag_byte(m.prepared_beta_h_infinity));
}

/// Encode a metadata record into its fixed 42-byte buffer.
pub fn encode_metadata(m: &Metadata) -> (out: Vec<u8>)
    ensures
        out@ == encode_metadata_spec(*m),
        out@.len() == METADATA_BYTES,
{
    proof {
        lemma_auto_spec_u64_to_from_le_bytes();
    }
    let mut out: Vec<u8> = Vec::new();
    push_u64_le(&mut out, m.num_powers_of_g);
    push_u64_le(&mut out, m.num_powers_of_gamma_g);
    push_u64_le(&mut out, m.num_neg_powers_of_h);
    push_u64_le(&mut out, m.num_prepared_h_coeffs);
    out.push(if m.prepared_h_infinity {
        1
    } else {
        0
    });
    push_u64_le(&mut out, m.num_prepared_beta_h_coeffs);
    out.push(if m.prepared_beta_h_infinity {
        1
    } else {
        0
    });
    proof {
        assert(out@ =~= encode_metadata_spec(*m));
    }
    out
}

/// Decode the metadata record at the head of a buffer, rejecting a buffer
/// shorter than the record's fixed width.
pub fn decode_metadata(b: &Vec<u8>) -> (r: Result<Metadata, LoadError>)
    ensures
        b@.len() < METADATA_BYTES ==> r == Err::<Metadata, LoadError>(LoadError::CorruptMetadata),
        b@.len() >= METADATA_BYTES ==> r == Ok::<Metadata, LoadError>(decode_metadata_spec(b@)),
{
    if b.len() < METADATA_BYTES {
        return Err(LoadError::CorruptMetadata);
    }
    let m = Metadata {
        num_powers_of_g: read_u64_le(b, 0),
        num_powers_of_gamma_g: read_u64_le(b, 8),
        num_neg_powers_of_h: read_u64_le(b, 16),
        num_prepared_h_coeffs: read_u64_le(b, 24),
        prepared_h_infinity: b[32] == 1,
        num_prepared_beta_h_coeffs: read_u64_le(b, 33),
        prepared_beta_h_infinity: b[41] == 1,
    };
    Ok(m)
}

/// Read the 8-byte little-endian value starting at `off`.
fn read_u64_le(b: &Vec<u8>, off: usize) -> (v: u64)
    requires
        off + 8 <= b@.len(),
    ensures
        v == spec_u64_from_le_bytes(b@.subrange(off as int, off as int + 8)),
{
    let n: usize = b.len();
    assert(off + 8 <= n);
    u64_from_le_bytes(slice_subrange(b.as_slice(), off, off + 8))
}

} // verus!
