//! Storing a parameter set: the metadata record first, then each field's
//! buffer, in the fixed field order of the format.
use vstd::prelude::*;

use crate::codec::{cat_all, enc_pairs, store_pair_sequence, store_sequence, store_value};
use crate::files::{FilesModel, StoredFiles};
use crate::meta::{encode_metadata, encode_metadata_spec, Metadata};
use crate::params::{ParamsModel, UniversalParams};

verus! {

/// The metadata record that describes the shape of a parameter set.
pub open spec fn metadata_of(p: ParamsModel) -> Metadata
    recommends
        p.wf(),
{
    Metadata {
        num_powers_of_g: p.powers_of_g.len() as u64,
        num_powers_of_gamma_g: p.powers_of_gamma_g.len() as u64,
        num_neg_powers_of_h: p.neg_powers_of_h.len() as u64,
        num_prepared_h_coeffs: p.prepared_h.coeffs.len() as u64,
        prepared_h_infinity: p.prepared_h.infinity,
        num_prepared_beta_h_coeffs: p.prepared_beta_h.coeffs.len() as u64,
        prepared_beta_h_infinity: p.prepared_beta_h.infinity,
    }
}

/// Every buffer a store of `p` produces: the encoded metadata record, the
/// plain concatenations of the sequence fields, the key+value entries of the
/// two map fields, and the single values' exact bytes.
pub open spec fn store_spec(p: ParamsModel) -> FilesModel {
    FilesModel {
        misc: encode_metadata_spec(metadata_of(p)),
        powers_of_g: cat_all(p.powers_of_g),
        powers_of_gamma_g: enc_pairs(p.powers_of_gamma_g),
        h: p.h,
        beta_h: p.beta_h,
        neg_powers_of_h: enc_pairs(p.neg_powers_of_h),
        prepared_h: cat_all(p.prepared_h.coeffs),
        prepared_beta_h: cat_all(p.prepared_beta_h.coeffs),
    }
}

/// Store a parameter set into its eight per-field buffers. Every element's
/// bytes are copied exactly as they are, in the fixed field order; nothing of
/// their content is interpreted.
pub fn store_params(p: &UniversalParams) -> (files: StoredFiles)
    requires
        p@.wf(),
    ensures
        files@ == store_spec(p@),
{
    let m = Metadata {
        num_powers_of_g: p.powers_of_g.len() as u64,
        num_powers_of_gamma_g: p.powers_of_gamma_g.len() as u64,
        num_neg_powers_of_h: p.neg_powers_of_h.len() as u64,
        num_prepared_h_coeffs: p.prepared_h.coeffs.len() as u64,
        prepared_h_infinity: p.prepared_h.infinity,
        num_prepared_beta_h_coeffs: p.prepared_beta_h.coeffs.len() as u64,
        prepared_beta_h_infinity: p.prepared_beta_h.infinity,
    };
    proof {
        assert(m == metadata_of(p@));
    }
    let files = StoredFiles {
        misc: encode_metadata(&m),
        powers_of_g: store_sequence(&p.powers_of_g),
        powers_of_gamma_g: store_pair_sequence(&p.powers_of_gamma_g),
        h: store_value(&p.h),
        beta_h: store_value(&p.beta_h),
        neg_powers_of_h: store_pair_sequence(&p.neg_powers_of_h),
        prepared_h: store_sequence(&p.prepared_h.coeffs),
        prepared_beta_h: store_sequence(&p.prepared_beta_h.coeffs),
    };
    proof {
        assert(files@ =~= store_spec(p@));
    }
    files
}

} // verus!
