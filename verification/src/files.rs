//! The per-field buffers that a stored parameter set consists of.
//!
//! Each buffer is destined for (or came from) a file of its own, named by a
//! caller-supplied base name plus a fixed per-field suffix; the metadata
//! buffer always comes first on load because it sizes all the others.
use vstd::prelude::*;

verus! {

/// The eight buffers produced by a store, in the fixed field order.
#[derive(Clone, Debug, PartialEq, Eq)]
pub struct StoredFiles {
    pub misc: Vec<u8>,
    pub powers_of_g: Vec<u8>,
    pub powers_of_gamma_g: Vec<u8>,
    pub h: Vec<u8>,
    pub beta_h: Vec<u8>,
    pub neg_powers_of_h: Vec<u8>,
    pub prepared_h: Vec<u8>,
    pub prepared_beta_h: Vec<u8>,
}

/// Mathematical model of [`StoredFiles`].
#[verifier::ext_equal]
pub struct FilesModel {
    pub misc: Seq<u8>,
    pub powers_of_g: Seq<u8>,
    pub powers_of_gamma_g: Seq<u8>,
    pub h: Seq<u8>,
    pub beta_h: Seq<u8>,
    pub neg_powers_of_h: Seq<u8>,
    pub prepared_h: Seq<u8>,
    pub prepared_beta_h: Seq<u8>,
}

impl View for StoredFiles {
    type V = FilesModel;

    open spec fn view(&self) -> FilesModel {
        FilesModel {
            misc: self.misc@,
            powers_of_g: self.powers_of_g@,
            powers_of_gamma_g: self.powers_of_gamma_g@,
            h: self.h@,
            beta_h: self.beta_h@,
            neg_powers_of_h: self.neg_powers_of_h@,
            prepared_h: self.prepared_h@,
            prepared_beta_h: self.prepared_beta_h@,
        }
    }
}

/// The eight buffers offered to a load. `None` stands for a file that could
/// not be opened or read at all, as opposed to one that was read but is too
/// short.
pub struct LoadInput {
    pub misc: Option<Vec<u8>>,
    pub powers_of_g: Option<Vec<u8>>,
    pub powers_of_gamma_g: Option<Vec<u8>>,
    pub h: Option<Vec<u8>>,
    pub beta_h: Option<Vec<u8>>,
    pub neg_powers_of_h: Option<Vec<u8>>,
    pub prepared_h: Option<Vec<u8>>,
    pub prepared_beta_h: Option<Vec<u8>>,
}

/// Mathematical model of [`LoadInput`].
#[verifier::ext_equal]
pub struct LoadInputModel {
    pub misc: Option<Seq<u8>>,
    pub powers_of_g: Option<Seq<u8>>,
    pub powers_of_gamma_g: Option<Seq<u8>>,
    pub h: Option<Seq<u8>>,
    pub beta_h: Option<Seq<u8>>,
    pub neg_powers_of_h: Option<Seq<u8>>,
    pub prepared_h: Option<Seq<u8>>,
    pub prepared_beta_h: Option<Seq<u8>>,
}

/// The bytes of a possibly missing buffer.
pub open spec fn opt_bytes(o: Option<Vec<u8>>) -> Option<Seq<u8>> {
    match o {
        Option::Some(v) => Option::Some(v@),
        Option::None => Option::None,
    }
}

impl View for LoadInput {
    type V = LoadInputModel;

    open spec fn view(&self) -> LoadInputModel {
        LoadInputModel {
            misc: opt_bytes(self.misc),
            powers_of_g: opt_bytes(self.powers_of_g),
            powers_of_gamma_g: opt_bytes(self.powers_of_gamma_g),
            h: opt_bytes(self.h),
            beta_h: opt_bytes(self.beta_h),
            neg_powers_of_h: opt_bytes(self.neg_powers_of_h),
            prepared_h: opt_bytes(self.prepared_h),
            prepared_beta_h: opt_bytes(self.prepared_beta_h),
        }
    }
}

/// A stored set of buffers offered back to a load, every file present.
pub open spec fn input_of(f: FilesModel) -> LoadInputModel {
    LoadInputModel {
        misc: Option::Some(f.misc),
        powers_of_g: Option::Some(f.powers_of_g),
        powers_of_gamma_g: Option::Some(f.powers_of_gamma_g),
        h: Option::Some(f.h),
        beta_h: Option::Some(f.beta_h),
        neg_powers_of_h: Option::Some(f.neg_powers_of_h),
        prepared_h: Option::Some(f.prepared_h),
        prepared_beta_h: Option::Some(f.prepared_beta_h),
    }
}

impl StoredFiles {
    /// Offer every stored buffer back to a load, as if each file were read
    /// back intact.
    pub fn into_load_input(self) -> (r: LoadInput)
        ensures
            r@ == input_of(self@),
    {
        let r = LoadInput {
            misc: Some(self.misc),
            powers_of_g: Some(self.powers_of_g),
            powers_of_gamma_g: Some(self.powers_of_gamma_g),
            h: Some(self.h),
            beta_h: Some(self.beta_h),
            neg_powers_of_h: Some(self.neg_powers_of_h),
            prepared_h: Some(self.prepared_h),
            prepared_beta_h: Some(self.prepared_beta_h),
        };
        proof {
            assert(r@ =~= input_of(self@));
        }
        r
    }
}

/// Which per-field buffer a statement about one file speaks of.
pub enum FieldId {
    PowersOfG,
    PowersOfGammaG,
    H,
    BetaH,
    NegPowersOfH,
    PreparedH,
    PreparedBetaH,
}

/// `f` with the buffer named by `id` replaced by `b`.
pub open spec fn with_field(f: FilesModel, id: FieldId, b: Seq<u8>) -> FilesModel {
    match id {
        FieldId::PowersOfG => FilesModel { powers_of_g: b, ..f },
        FieldId::PowersOfGammaG => FilesModel { powers_of_gamma_g: b, ..f },
        FieldId::H => FilesModel { h: b, ..f },
        FieldId::BetaH => FilesModel { beta_h: b, ..f },
        FieldId::NegPowersOfH => FilesModel { neg_powers_of_h: b, ..f },
        FieldId::PreparedH => FilesModel { prepared_h: b, ..f },
        FieldId::PreparedBetaH => FilesModel { prepared_beta_h: b, ..f },
    }
}

} // verus!
