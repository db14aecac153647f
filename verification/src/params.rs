//! The in-memory shape of a universal parameter set.
//!
//! Every curve element is carried as an opaque fixed-size byte blob: the
//! codec copies those bytes without reading them, so the blob's length is the
//! only structure it relies on. The widths below are the algebra library's
//! fixed in-memory layouts on the supported platform; the caller that
//! converts real curve values to blobs checks them against `size_of`.
use vstd::prelude::*;

verus! {

/// Width in bytes of a blob holding one curve point of the first group.
pub const POINT_A_BYTES: usize = 104;

/// Width in bytes of a blob holding one curve point of the second group.
pub const POINT_B_BYTES: usize = 200;

/// Width in bytes of a blob holding one field-element triple of a prepared
/// pairing element's coefficient sequence.
pub const COEFF_TRIPLE_BYTES: usize = 288;

/// One opaque fixed-size value, carried as its exact bytes.
#[derive(Clone, Debug, PartialEq, Eq)]
pub struct Blob {
    pub bytes: Vec<u8>,
}

impl View for Blob {
    type V = Seq<u8>;

    open spec fn view(&self) -> Seq<u8> {
        self.bytes@
    }
}

/// A prepared pairing element: a coefficient sequence of field-element
/// triples and a point-at-infinity flag. The flag only tells the consuming
/// algebra layer how to read the coefficients; no consistency between the
/// two is enforced here.
#[derive(Clone, Debug, PartialEq, Eq)]
pub struct Prepared {
    pub coeffs: Vec<Blob>,
    pub infinity: bool,
}

/// Mathematical model of a [`Prepared`] value.
#[verifier::ext_equal]
pub struct PreparedModel {
    pub coeffs: Seq<Seq<u8>>,
    pub infinity: bool,
}

impl View for Prepared {
    type V = PreparedModel;

    open spec fn view(&self) -> PreparedModel {
        PreparedModel { coeffs: blobs_view(self.coeffs@), infinity: self.infinity }
    }
}

/// The persisted aggregate: seven fields, each independently encoded.
///
/// The two map fields are ordered sequences of (key, value) entries. Their
/// keys are written out but never read back: on load the entry's position
/// becomes its key.
#[derive(Clone, Debug, PartialEq, Eq)]
pub struct UniversalParams {
    pub powers_of_g: Vec<Blob>,
    pub powers_of_gamma_g: Vec<(u64, Blob)>,
    pub h: Blob,
    pub beta_h: Blob,
    pub neg_powers_of_h: Vec<(u64, Blob)>,
    pub prepared_h: Prepared,
    pub prepared_beta_h: Prepared,
}

/// Mathematical model of a [`UniversalParams`] value.
#[verifier::ext_equal]
pub struct ParamsModel {
    pub powers_of_g: Seq<Seq<u8>>,
    pub powers_of_gamma_g: Seq<(u64, Seq<u8>)>,
    pub h: Seq<u8>,
    pub beta_h: Seq<u8>,
    pub neg_powers_of_h: Seq<(u64, Seq<u8>)>,
    pub prepared_h: PreparedModel,
    pub prepared_beta_h: PreparedModel,
}

impl View for UniversalParams {
    type V = ParamsModel;

    open spec fn view(&self) -> ParamsModel {
        ParamsModel {
            powers_of_g: blobs_view(self.powers_of_g@),
            powers_of_gamma_g: pairs_view(self.powers_of_gamma_g@),
            h: self.h@,
            beta_h: self.beta_h@,
            neg_powers_of_h: pairs_view(self.neg_powers_of_h@),
            prepared_h: self.prepared_h@,
            prepared_beta_h: self.prepared_beta_h@,
        }
    }
}

/// The byte sequences held by a sequence of blobs.
pub open spec fn blobs_view(s: Seq<Blob>) -> Seq<Seq<u8>> {
    s.map_values(|b: Blob| b@)
}

/// The (key, bytes) entries held by a sequence of keyed blobs.
pub open spec fn pairs_view(s: Seq<(u64, Blob)>) -> Seq<(u64, Seq<u8>)> {
    s.map_values(|p: (u64, Blob)| (p.0, p.1@))
}

/// Every byte sequence of `s` is exactly `size` bytes wide.
pub open spec fn blobs_sized(s: Seq<Seq<u8>>, size: nat) -> bool {
    forall|i: int| 0 <= i < s.len() ==> (#[trigger] s[i]).len() == size
}

/// Every entry of `s` carries a value exactly `size` bytes wide.
pub open spec fn pairs_sized(s: Seq<(u64, Seq<u8>)>, size: nat) -> bool {
    forall|i: int| 0 <= i < s.len() ==> (#[trigger] s[i]).1.len() == size
}

impl PreparedModel {
    /// Every coefficient triple has its fixed width.
    pub open spec fn wf(self) -> bool {
        &&& blobs_sized(self.coeffs, COEFF_TRIPLE_BYTES as nat)
        &&& self.coeffs.len() <= u64::MAX
    }
}

impl ParamsModel {
    /// Every element has its fixed width and every sequence length fits the
    /// metadata record's 8-byte counters.
    pub open spec fn wf(self) -> bool {
        &&& blobs_sized(self.powers_of_g, POINT_A_BYTES as nat)
        &&& pairs_sized(self.powers_of_gamma_g, POINT_A_BYTES as nat)
        &&& self.h.len() == POINT_B_BYTES
        &&& self.beta_h.len() == POINT_B_BYTES
        &&& pairs_sized(self.neg_powers_of_h, POINT_B_BYTES as nat)
        &&& self.prepared_h.wf()
        &&& self.prepared_beta_h.wf()
        &&& self.powers_of_g.len() <= u64::MAX
        &&& self.powers_of_gamma_g.len() <= u64::MAX
        &&& self.neg_powers_of_h.len() <= u64::MAX
    }
}

/// Whether every blob of `v` is exactly `size` bytes wide.
fn blobs_well_sized(v: &Vec<Blob>, size: usize) -> (r: bool)
    ensures
        r == blobs_sized(blobs_view(v@), size as nat),
{
    let mut i: usize = 0;
    while i < v.len()
        invariant
            i <= v@.len(),
            forall|j: int| 0 <= j < i ==> (#[trigger] blobs_view(v@)[j]).len() == size,
        decreases v@.len() - i,
    {
        if v[i].bytes.len() != size {
            proof {
                assert(blobs_view(v@)[i as int].len() != size);
            }
            return false;
        }
        i = i + 1;
    }
    true
}

/// Whether every entry of `v` carries a value exactly `size` bytes wide.
fn pairs_well_sized(v: &Vec<(u64, Blob)>, size: usize) -> (r: bool)
    ensures
        r == pairs_sized(pairs_view(v@), size as nat),
{
    let mut i: usize = 0;
    while i < v.len()
        invariant
            i <= v@.len(),
            forall|j: int| 0 <= j < i ==> (#[trigger] pairs_view(v@)[j]).1.len() == size,
        decreases v@.len() - i,
    {
        if v[i].1.bytes.len() != size {
            proof {
                assert(pairs_view(v@)[i as int].1.len() != size);
            }
            return false;
        }
        i = i + 1;
    }
    true
}

impl UniversalParams {
    /// Whether every element of the set has its fixed width — the condition
    /// a store demands. The sequence-length bounds of the model's
    /// well-formedness hold of any in-memory vector and need no check.
    pub fn is_well_formed(&self) -> (r: bool)
        ensures
            r == self@.wf(),
    {
        let _ng: usize = self.powers_of_g.len();
        let _ngg: usize = self.powers_of_gamma_g.len();
        let _nneg: usize = self.neg_powers_of_h.len();
        let _nph: usize = self.prepared_h.coeffs.len();
        let _npbh: usize = self.prepared_beta_h.coeffs.len();
        blobs_well_sized(&self.powers_of_g, POINT_A_BYTES) && pairs_well_sized(
            &self.powers_of_gamma_g,
            POINT_A_BYTES,
        ) && self.h.bytes.len() == POINT_B_BYTES && self.beta_h.bytes.len() == POINT_B_BYTES
            && pairs_well_sized(&self.neg_powers_of_h, POINT_B_BYTES) && blobs_well_sized(
            &self.prepared_h.coeffs,
            COEFF_TRIPLE_BYTES,
        ) && blobs_well_sized(&self.prepared_beta_h.coeffs, COEFF_TRIPLE_BYTES)
    }
}

} // verus!
