//! Failure behaviour: short buffers, missing buffers, bad metadata.
use params_io::files::{LoadInput, StoredFiles};
use params_io::params::{
    Blob, Prepared, UniversalParams, COEFF_TRIPLE_BYTES, POINT_A_BYTES, POINT_B_BYTES,
};
use params_io::LoadError;

fn blob(n: usize, fill: u8) -> Blob {
    Blob { bytes: vec![fill; n] }
}

fn sample_params() -> UniversalParams {
    UniversalParams {
        powers_of_g: vec![blob(POINT_A_BYTES, 1)],
        powers_of_gamma_g: vec![(0, blob(POINT_A_BYTES, 2))],
        h: blob(POINT_B_BYTES, 3),
        beta_h: blob(POINT_B_BYTES, 4),
        neg_powers_of_h: vec![(0, blob(POINT_B_BYTES, 5))],
        prepared_h: Prepared { coeffs: vec![blob(COEFF_TRIPLE_BYTES, 6)], infinity: false },
        prepared_beta_h: Prepared { coeffs: vec![blob(COEFF_TRIPLE_BYTES, 7)], infinity: true },
    }
}

fn stored() -> StoredFiles {
    params_io::store::store_params(&sample_params())
}

#[test]
fn short_powers_of_g_fails() {
    let mut files = stored();
    files.powers_of_g.pop();
    let r = params_io::load::load_params(&files.into_load_input());
    assert_eq!(r, Err(LoadError::ShortRead));
}

#[test]
fn short_powers_of_gamma_g_fails() {
    let mut files = stored();
    files.powers_of_gamma_g.truncate(8);
    let r = params_io::load::load_params(&files.into_load_input());
    assert_eq!(r, Err(LoadError::ShortRead));
}

#[test]
fn short_h_fails() {
    let mut files = stored();
    files.h.pop();
    let r = params_io::load::load_params(&files.into_load_input());
    assert_eq!(r, Err(LoadError::ShortRead));
}

#[test]
fn short_beta_h_fails() {
    let mut files = stored();
    files.beta_h.clear();
    let r = params_io::load::load_params(&files.into_load_input());
    assert_eq!(r, Err(LoadError::ShortRead));
}

#[test]
fn short_neg_powers_of_h_fails() {
    let mut files = stored();
    files.neg_powers_of_h.pop();
    let r = params_io::load::load_params(&files.into_load_input());
    assert_eq!(r, Err(LoadError::ShortRead));
}

#[test]
fn short_prepared_h_fails() {
    let mut files = stored();
    files.prepared_h.pop();
    let r = params_io::load::load_params(&files.into_load_input());
    assert_eq!(r, Err(LoadError::ShortRead));
}

#[test]
fn short_prepared_beta_h_fails() {
    let mut files = stored();
    files.prepared_beta_h.pop();
    let r = params_io::load::load_params(&files.into_load_input());
    assert_eq!(r, Err(LoadError::ShortRead));
}

#[test]
fn missing_metadata_fails_first() {
    let files = stored();
    let mut input = files.into_load_input();
    input.misc = None;
    // Every other buffer is still present and intact; the load must fail on
    // the metadata alone.
    let r = params_io::load::load_params(&input);
    assert_eq!(r, Err(LoadError::CorruptMetadata));
}

#[test]
fn truncated_metadata_fails() {
    let mut files = stored();
    files.misc.pop();
    let r = params_io::load::load_params(&files.into_load_input());
    assert_eq!(r, Err(LoadError::CorruptMetadata));
}

#[test]
fn missing_field_buffer_fails_as_io_error() {
    let files = stored();
    let mut input = files.into_load_input();
    input.powers_of_g = None;
    let r = params_io::load::load_params(&input);
    assert_eq!(r, Err(LoadError::IoError));
}

#[test]
fn missing_later_field_buffer_fails_as_io_error() {
    let files = stored();
    let mut input = files.into_load_input();
    input.prepared_beta_h = None;
    let r = params_io::load::load_params(&input);
    assert_eq!(r, Err(LoadError::IoError));
}

#[test]
fn absurd_recorded_length_fails_as_short_read() {
    let mut files = stored();
    // Record a length of u64::MAX for powers_of_g: the bytes cannot be there,
    // so the load fails as a short read rather than attempting an allocation.
    for i in 0..8 {
        files.misc[i] = 0xFF;
    }
    let r = params_io::load::load_params(&files.into_load_input());
    assert_eq!(r, Err(LoadError::ShortRead));
}

#[test]
fn empty_input_fails_on_metadata() {
    let input = LoadInput {
        misc: None,
        powers_of_g: None,
        powers_of_gamma_g: None,
        h: None,
        beta_h: None,
        neg_powers_of_h: None,
        prepared_h: None,
        prepared_beta_h: None,
    };
    let r = params_io::load::load_params(&input);
    assert_eq!(r, Err(LoadError::CorruptMetadata));
}
