//! Loading a parameter set from its per-field buffers.
//!
//! The metadata buffer is decoded first and sizes every other buffer; the
//! recorded counts are trusted as-is, and an impossible count simply fails as
//! a short read when the bytes are not there. The stored keys of the two map
//! fields are never read back: each loaded entry is keyed by its position.
use vstd::prelude::*;

use crate::codec::{
    dec_blobs, dec_pairs, load_pair_sequence, load_sequence, load_value, pair_slot,
};
use crate::files::{LoadInput, LoadInputModel};
use crate::meta::{decode_metadata, decode_metadata_spec, Metadata, METADATA_BYTES};
use crate::params::{
    ParamsModel, Prepared, PreparedModel, UniversalParams, COEFF_TRIPLE_BYTES, POINT_A_BYTES,
    POINT_B_BYTES,
};
use crate::LoadError;

verus! {

/// What loading from the buffers `f` yields: missing or truncated metadata
/// is corrupt metadata before any other buffer is looked at; then, field by
/// field in the fixed order, a missing buffer is an I/O failure and one
/// shorter than its recorded shape is a short read; otherwise every field
/// decodes and the two map fields come back keyed by position.
pub open spec fn load_spec(f: LoadInputModel) -> Result<ParamsModel, LoadError> {
    if f.misc is None {
        Err(LoadError::CorruptMetadata)
    } else if f.misc->0.len() < METADATA_BYTES {
        Err(LoadError::CorruptMetadata)
    } else {
        load_fields_spec(decode_metadata_spec(f.misc->0), f)
    }
}

/// The per-field part of [`load_spec`], once the metadata record `m` is
/// known.
pub open spec fn load_fields_spec(m: Metadata, f: LoadInputModel) -> Result<
    ParamsModel,
    LoadError,
> {
    if f.powers_of_g is None {
        Err(LoadError::IoError)
    } else if f.powers_of_g->0.len() < m.num_powers_of_g * POINT_A_BYTES {
        Err(LoadError::ShortRead)
    } else if f.powers_of_gamma_g is None {
        Err(LoadError::IoError)
    } else if f.powers_of_gamma_g->0.len() < m.num_powers_of_gamma_g * pair_slot(
        POINT_A_BYTES as nat,
    ) {
        Err(LoadError::ShortRead)
    } else if f.h is None {
        Err(LoadError::IoError)
    } else if f.h->0.len() < POINT_B_BYTES {
        Err(LoadError::ShortRead)
    } else if f.beta_h is None {
        Err(LoadError::IoError)
    } else if f.beta_h->0.len() < POINT_B_BYTES {
        Err(LoadError::ShortRead)
    } else if f.neg_powers_of_h is None {
        Err(LoadError::IoError)
    } else if f.neg_powers_of_h->0.len() < m.num_neg_powers_of_h * pair_slot(
        POINT_B_BYTES as nat,
    ) {
        Err(LoadError::ShortRead)
    } else if f.prepared_h is None {
        Err(LoadError::IoError)
    } else if f.prepared_h->0.len() < m.num_prepared_h_coeffs * COEFF_TRIPLE_BYTES {
        Err(LoadError::ShortRead)
    } else if f.prepared_beta_h is None {
        Err(LoadError::IoError)
    } else if f.prepared_beta_h->0.len() < m.num_prepared_beta_h_coeffs * COEFF_TRIPLE_BYTES {
        Err(LoadError::ShortRead)
    } else {
        Ok(
            ParamsModel {
                powers_of_g: dec_blobs(
                    f.powers_of_g->0,
                    m.num_powers_of_g as nat,
                    POINT_A_BYTES as nat,
                ),
                powers_of_gamma_g: dec_pairs(
                    f.powers_of_gamma_g->0,
                    m.num_powers_of_gamma_g as nat,
                    POINT_A_BYTES as nat,
                ),
                h: f.h->0.subrange(0, POINT_B_BYTES as int),
                beta_h: f.beta_h->0.subrange(0, POINT_B_BYTES as int),
                neg_powers_of_h: dec_pairs(
                    f.neg_powers_of_h->0,
                    m.num_neg_powers_of_h as nat,
                    POINT_B_BYTES as nat,
                ),
                prepared_h: PreparedModel {
                    coeffs: dec_blobs(
                        f.prepared_h->0,
                        m.num_prepared_h_coeffs as nat,
                        COEFF_TRIPLE_BYTES as nat,
                    ),
                    infinity: m.prepared_h_infinity,
                },
                prepared_beta_h: PreparedModel {
                    coeffs: dec_blobs(
                        f.prepared_beta_h->0,
                        m.num_prepared_beta_h_coeffs as nat,
                        COEFF_TRIPLE_BYTES as nat,
                    ),
                    infinity: m.prepared_beta_h_infinity,
                },
            },
        )
    }
}

/// The model of a load's outcome.
pub open spec fn loaded_view(r: Result<UniversalParams, LoadError>) -> Result<
    ParamsModel,
    LoadError,
> {
    match r {
        Ok(p) => Ok(p@),
        Err(e) => Err(e),
    }
}

/// Bring a recorded count into `usize`. A count beyond `usize` cannot be
/// satisfied by any in-memory buffer of `size`-byte elements, so it is
/// already a short read.
fn count_to_usize(len64: u64, data: &Vec<u8>, size: usize) -> (r: Result<usize, LoadError>)
    requires
        1 <= size,
    ensures
        r matches Ok(n) ==> n == len64,
        r is Err ==> r == Err::<usize, LoadError>(LoadError::ShortRead) && data@.len() < len64
            * size,
{
    let dl: usize = data.len();
    if len64 <= usize::MAX as u64 {
        Ok(len64 as usize)
    } else {
        proof {
            assert(len64 * size >= len64) by (nonlinear_arith)
                requires
                    size >= 1,
                    len64 >= 0,
            ;
        }
        Err(LoadError::ShortRead)
    }
}

/// Load a parameter set from its per-field buffers, metadata first, failing
/// fast on the first missing or short buffer.
pub fn load_params(input: &LoadInput) -> (r: Result<UniversalParams, LoadError>)
    ensures
        loaded_view(r) == load_spec(input@),
{
    let mb = match &input.misc {
        None => {
            return Err(LoadError::CorruptMetadata);
        },
        Some(v) => v,
    };
    let m = match decode_metadata(mb) {
        Err(e) => {
            return Err(e);
        },
        Ok(m) => m,
    };
    let gd = match &input.powers_of_g {
        None => {
            return Err(LoadError::IoError);
        },
        Some(v) => v,
    };
    let n_g = match count_to_usize(m.num_powers_of_g, gd, POINT_A_BYTES) {
        Err(e) => {
            return Err(e);
        },
        Ok(n) => n,
    };
    let powers_of_g = match load_sequence(gd, n_g, POINT_A_BYTES) {
        Err(e) => {
            return Err(e);
        },
        Ok(v) => v,
    };
    let ggd = match &input.powers_of_gamma_g {
        None => {
            return Err(LoadError::IoError);
        },
        Some(v) => v,
    };
    let n_gg = match count_to_usize(m.num_powers_of_gamma_g, ggd, POINT_A_BYTES + 8) {
        Err(e) => {
            return Err(e);
        },
        Ok(n) => n,
    };
    let powers_of_gamma_g = match load_pair_sequence(ggd, n_gg, POINT_A_BYTES) {
        Err(e) => {
            return Err(e);
        },
        Ok(v) => v,
    };
    let hd = match &input.h {
        None => {
            return Err(LoadError::IoError);
        },
        Some(v) => v,
    };
    let h = match load_value(hd, POINT_B_BYTES) {
        Err(e) => {
            return Err(e);
        },
        Ok(b) => b,
    };
    let bhd = match &input.beta_h {
        None => {
            return Err(LoadError::IoError);
        },
        Some(v) => v,
    };
    let beta_h = match load_value(bhd, POINT_B_BYTES) {
        Err(e) => {
            return Err(e);
        },
        Ok(b) => b,
    };
    let nd = match &input.neg_powers_of_h {
        None => {
            return Err(LoadError::IoError);
        },
        Some(v) => v,
    };
    let n_neg = match count_to_usize(m.num_neg_powers_of_h, nd, POINT_B_BYTES + 8) {
        Err(e) => {
            return Err(e);
        },
        Ok(n) => n,
    };
    let neg_powers_of_h = match load_pair_sequence(nd, n_neg, POINT_B_BYTES) {
        Err(e) => {
            return Err(e);
        },
        Ok(v) => v,
    };
    let phd = match &input.prepared_h {
        None => {
            return Err(LoadError::IoError);
        },
        Some(v) => v,
    };
    let n_ph = match count_to_usize(m.num_prepared_h_coeffs, phd, COEFF_TRIPLE_BYTES) {
        Err(e) => {
            return Err(e);
        },
        Ok(n) => n,
    };
    let ph_coeffs = match load_sequence(phd, n_ph, COEFF_TRIPLE_BYTES) {
        Err(e) => {
            return Err(e);
        },
        Ok(v) => v,
    };
    let pbhd = match &input.prepared_beta_h {
        None => {
            return Err(LoadError::IoError);
        },
        Some(v) => v,
    };
    let n_pbh = match count_to_usize(m.num_prepared_beta_h_coeffs, pbhd, COEFF_TRIPLE_BYTES) {
        Err(e) => {
            return Err(e);
        },
        Ok(n) => n,
    };
    let pbh_coeffs = match load_sequence(pbhd, n_pbh, COEFF_TRIPLE_BYTES) {
        Err(e) => {
            return Err(e);
        },
        Ok(v) => v,
    };
    let p = UniversalParams {
        powers_of_g,
        powers_of_gamma_g,
        h,
        beta_h,
        neg_powers_of_h,
        prepared_h: Prepared { coeffs: ph_coeffs, infinity: m.prepared_h_infinity },
        prepared_beta_h: Prepared { coeffs: pbh_coeffs, infinity: m.prepared_beta_h_infinity },
    };
    proof {
        assert(load_spec(input@) is Ok);
        assert(p@ =~~= load_spec(input@)->Ok_0);
    }
    Ok(p)
}

} // verus!
