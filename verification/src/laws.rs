//! What the format guarantees, proved once and for all:
//! a store followed by a load reconstructs every field's effective value,
//! with the two map fields re-keyed by position; an empty sequence stores to
//! an empty buffer and loads back without error; the prepared elements'
//! infinity flags survive exactly; a truncated per-field buffer fails as a
//! short read, never as a silently padded value; and missing or truncated
//! metadata fails as corrupt metadata whatever the other buffers hold.
use vstd::prelude::*;

use crate::codec::{
    lemma_blobs_round_trip, lemma_cat_all_len, lemma_enc_pairs_len, lemma_pairs_round_trip,
    pair_slot, rekeyed,
};
use crate::files::{input_of, with_field, FieldId, LoadInputModel};
use crate::load::load_spec;
use crate::meta::{decode_metadata_spec, lemma_metadata_round_trip, METADATA_BYTES};
use crate::params::{ParamsModel, COEFF_TRIPLE_BYTES, POINT_A_BYTES, POINT_B_BYTES};
use crate::store::{metadata_of, store_spec};
use crate::LoadError;

verus! {

/// A parameter set with its two map fields re-keyed by position — the exact
/// value a store followed by a load reconstructs.
pub open spec fn rekeyed_params(p: ParamsModel) -> ParamsModel {
    ParamsModel {
        powers_of_gamma_g: rekeyed(p.powers_of_gamma_g),
        neg_powers_of_h: rekeyed(p.neg_powers_of_h),
        ..p
    }
}

/// Positional re-keying: loading what was stored succeeds and reconstructs
/// every field byte for byte — the two map fields with each entry's original
/// key discarded and replaced by its position, every other field exactly as
/// it was, the infinity flags included.
pub proof fn lemma_store_load_round_trip(p: ParamsModel)
    requires
        p.wf(),
    ensures
        load_spec(input_of(store_spec(p))) == Ok::<ParamsModel, LoadError>(rekeyed_params(p)),
{
    let fs = store_spec(p);
    let f = input_of(fs);
    let m0 = metadata_of(p);
    lemma_metadata_round_trip(m0);
    assert(decode_metadata_spec(f.misc->0) == m0);
    lemma_cat_all_len(p.powers_of_g, POINT_A_BYTES as nat);
    lemma_enc_pairs_len(p.powers_of_gamma_g, POINT_A_BYTES as nat);
    lemma_enc_pairs_len(p.neg_powers_of_h, POINT_B_BYTES as nat);
    lemma_cat_all_len(p.prepared_h.coeffs, COEFF_TRIPLE_BYTES as nat);
    lemma_cat_all_len(p.prepared_beta_h.coeffs, COEFF_TRIPLE_BYTES as nat);
    lemma_blobs_round_trip(p.powers_of_g, POINT_A_BYTES as nat);
    lemma_pairs_round_trip(p.powers_of_gamma_g, POINT_A_BYTES as nat);
    lemma_pairs_round_trip(p.neg_powers_of_h, POINT_B_BYTES as nat);
    lemma_blobs_round_trip(p.prepared_h.coeffs, COEFF_TRIPLE_BYTES as nat);
    lemma_blobs_round_trip(p.prepared_beta_h.coeffs, COEFF_TRIPLE_BYTES as nat);
    assert(fs.h.subrange(0, POINT_B_BYTES as int) =~= p.h);
    assert(fs.beta_h.subrange(0, POINT_B_BYTES as int) =~= p.beta_h);
    let r = load_spec(f);
    assert(r is Ok);
    assert(r->Ok_0 =~~= rekeyed_params(p));
}

/// Round-trip identity: when the map fields' keys already equal their
/// positions, loading what was stored reconstructs the parameter set exactly.
pub proof fn lemma_round_trip_identity(p: ParamsModel)
    requires
        p.wf(),
        forall|i: int|
            0 <= i < p.powers_of_gamma_g.len() ==> (#[trigger] p.powers_of_gamma_g[i]).0 == i,
        forall|i: int|
            0 <= i < p.neg_powers_of_h.len() ==> (#[trigger] p.neg_powers_of_h[i]).0 == i,
    ensures
        load_spec(input_of(store_spec(p))) == Ok::<ParamsModel, LoadError>(p),
{
    lemma_store_load_round_trip(p);
    assert(rekeyed(p.powers_of_gamma_g) =~~= p.powers_of_gamma_g);
    assert(rekeyed(p.neg_powers_of_h) =~~= p.neg_powers_of_h);
    assert(rekeyed_params(p) =~~= p);
}

/// An empty map field stores to an empty buffer and a zero in the metadata
/// record, and loads back as an empty map without error.
pub proof fn lemma_empty_map_round_trip(p: ParamsModel)
    requires
        p.wf(),
        p.powers_of_gamma_g.len() == 0,
    ensures
        store_spec(p).powers_of_gamma_g.len() == 0,
        metadata_of(p).num_powers_of_gamma_g == 0,
        (load_spec(input_of(store_spec(p))) matches Ok(q) && q.powers_of_gamma_g.len() == 0),
{
    lemma_enc_pairs_len(p.powers_of_gamma_g, POINT_A_BYTES as nat);
    lemma_store_load_round_trip(p);
}

/// Flag fidelity: a prepared element stored with the infinity flag set and an
/// empty coefficient sequence loads back with the flag still set and the
/// sequence still empty.
pub proof fn lemma_infinity_flag_round_trip(p: ParamsModel)
    requires
        p.wf(),
        p.prepared_h.infinity,
        p.prepared_h.coeffs.len() == 0,
    ensures
        (load_spec(input_of(store_spec(p))) matches Ok(q) && q.prepared_h.infinity
            && q.prepared_h.coeffs.len() == 0),
{
    lemma_store_load_round_trip(p);
}

/// The exact number of bytes the load of the buffer named by `id` demands,
/// given the shape recorded for `p`.
pub open spec fn required_field_bytes(p: ParamsModel, id: FieldId) -> int {
    match id {
        FieldId::PowersOfG => p.powers_of_g.len() * POINT_A_BYTES,
        FieldId::PowersOfGammaG => p.powers_of_gamma_g.len() * pair_slot(POINT_A_BYTES as nat),
        FieldId::H => POINT_B_BYTES as int,
        FieldId::BetaH => POINT_B_BYTES as int,
        FieldId::NegPowersOfH => p.neg_powers_of_h.len() * pair_slot(POINT_B_BYTES as nat),
        FieldId::PreparedH => p.prepared_h.coeffs.len() * COEFF_TRIPLE_BYTES,
        FieldId::PreparedBetaH => p.prepared_beta_h.coeffs.len() * COEFF_TRIPLE_BYTES,
    }
}

/// Short-file failure: replacing any one per-field buffer of a stored set by
/// one shorter than its recorded shape makes the load fail as a short read —
/// never yield a padded or partial value.
pub proof fn lemma_truncated_field_fails(p: ParamsModel, id: FieldId, b: Seq<u8>)
    requires
        p.wf(),
        b.len() < required_field_bytes(p, id),
    ensures
        load_spec(input_of(with_field(store_spec(p), id, b))) == Err::<ParamsModel, LoadError>(
            LoadError::ShortRead,
        ),
{
    let f = input_of(with_field(store_spec(p), id, b));
    lemma_metadata_round_trip(metadata_of(p));
    assert(decode_metadata_spec(f.misc->0) == metadata_of(p));
    lemma_cat_all_len(p.powers_of_g, POINT_A_BYTES as nat);
    lemma_enc_pairs_len(p.powers_of_gamma_g, POINT_A_BYTES as nat);
    lemma_enc_pairs_len(p.neg_powers_of_h, POINT_B_BYTES as nat);
    lemma_cat_all_len(p.prepared_h.coeffs, COEFF_TRIPLE_BYTES as nat);
    lemma_cat_all_len(p.prepared_beta_h.coeffs, COEFF_TRIPLE_BYTES as nat);
}

/// Missing-metadata failure: without the metadata buffer a load fails as
/// corrupt metadata, whatever every per-field buffer holds — none of them is
/// looked at.
pub proof fn lemma_missing_metadata_fails(f: LoadInputModel)
    requires
        f.misc is None,
    ensures
        load_spec(f) == Err::<ParamsModel, LoadError>(LoadError::CorruptMetadata),
{
}

/// A metadata buffer shorter than its fixed layout fails the same way.
pub proof fn lemma_truncated_metadata_fails(f: LoadInputModel)
    requires
        f.misc is Some,
        f.misc->0.len() < METADATA_BYTES,
    ensures
        load_spec(f) == Err::<ParamsModel, LoadError>(LoadError::CorruptMetadata),
{
}

} // verus!
