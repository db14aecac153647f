//! Storing and loading whole parameter sets.
use params_io::files::LoadInput;
use params_io::params::{
    Blob, Prepared, UniversalParams, COEFF_TRIPLE_BYTES, POINT_A_BYTES, POINT_B_BYTES,
};

fn blob(n: usize, fill: u8) -> Blob {
    Blob { bytes: vec![fill; n] }
}

fn sample_params() -> UniversalParams {
    UniversalParams {
        powers_of_g: vec![blob(POINT_A_BYTES, 1), blob(POINT_A_BYTES, 2)],
        powers_of_gamma_g: vec![(0, blob(POINT_A_BYTES, 3)), (1, blob(POINT_A_BYTES, 4))],
        h: blob(POINT_B_BYTES, 5),
        beta_h: blob(POINT_B_BYTES, 6),
        neg_powers_of_h: vec![(0, blob(POINT_B_BYTES, 7))],
        prepared_h: Prepared {
            coeffs: vec![blob(COEFF_TRIPLE_BYTES, 8)],
            infinity: false,
        },
        prepared_beta_h: Prepared {
            coeffs: vec![blob(COEFF_TRIPLE_BYTES, 9), blob(COEFF_TRIPLE_BYTES, 10)],
            infinity: true,
        },
    }
}

#[test]
fn round_trip_identity() {
    let p = sample_params();
    let files = params_io::store::store_params(&p);
    let loaded = params_io::load::load_params(&files.into_load_input()).unwrap();
    assert_eq!(loaded, sample_params());
}

#[test]
fn positional_rekeying() {
    let mut p = sample_params();
    p.powers_of_gamma_g = vec![(5, blob(POINT_A_BYTES, 11)), (1, blob(POINT_A_BYTES, 12))];
    p.neg_powers_of_h = vec![(9, blob(POINT_B_BYTES, 13))];
    let files = params_io::store::store_params(&p);
    let loaded = params_io::load::load_params(&files.into_load_input()).unwrap();
    assert_eq!(
        loaded.powers_of_gamma_g,
        vec![(0, blob(POINT_A_BYTES, 11)), (1, blob(POINT_A_BYTES, 12))]
    );
    assert_eq!(loaded.neg_powers_of_h, vec![(0, blob(POINT_B_BYTES, 13))]);
}

#[test]
fn empty_gamma_map() {
    let mut p = sample_params();
    p.powers_of_gamma_g = vec![];
    let files = params_io::store::store_params(&p);
    assert!(files.powers_of_gamma_g.is_empty());
    assert_eq!(&files.misc[8..16], &[0u8; 8]);
    let loaded = params_io::load::load_params(&files.into_load_input()).unwrap();
    assert!(loaded.powers_of_gamma_g.is_empty());
}

#[test]
fn infinity_flag_round_trip() {
    let mut p = sample_params();
    p.prepared_h = Prepared { coeffs: vec![], infinity: true };
    let files = params_io::store::store_params(&p);
    assert!(files.prepared_h.is_empty());
    let loaded = params_io::load::load_params(&files.into_load_input()).unwrap();
    assert!(loaded.prepared_h.infinity);
    assert!(loaded.prepared_h.coeffs.is_empty());
}

#[test]
fn empty_everything_round_trips() {
    let p = UniversalParams {
        powers_of_g: vec![],
        powers_of_gamma_g: vec![],
        h: blob(POINT_B_BYTES, 0),
        beta_h: blob(POINT_B_BYTES, 0),
        neg_powers_of_h: vec![],
        prepared_h: Prepared { coeffs: vec![], infinity: false },
        prepared_beta_h: Prepared { coeffs: vec![], infinity: false },
    };
    let files = params_io::store::store_params(&p);
    assert!(files.powers_of_g.is_empty());
    let loaded = params_io::load::load_params(&files.into_load_input()).unwrap();
    assert_eq!(loaded, p);
}

#[test]
fn extra_trailing_bytes_are_ignored() {
    let p = sample_params();
    let mut files = params_io::store::store_params(&p);
    files.powers_of_g.push(0xEE);
    files.misc.push(0xEE);
    let loaded = params_io::load::load_params(&files.into_load_input()).unwrap();
    assert_eq!(loaded, sample_params());
}

#[test]
fn flag_byte_other_than_one_reads_as_clear() {
    let mut p = sample_params();
    p.prepared_h = Prepared { coeffs: vec![], infinity: true };
    let mut files = params_io::store::store_params(&p);
    assert_eq!(files.misc[32], 1);
    files.misc[32] = 2;
    let loaded = params_io::load::load_params(&files.into_load_input()).unwrap();
    assert!(!loaded.prepared_h.infinity);
}

#[test]
fn well_formedness_checks_element_widths() {
    let p = sample_params();
    assert!(p.is_well_formed());
    let mut bad = sample_params();
    bad.powers_of_g[0].bytes.pop();
    assert!(!bad.is_well_formed());
    let mut bad_h = sample_params();
    bad_h.h = blob(POINT_B_BYTES - 1, 5);
    assert!(!bad_h.is_well_formed());
}

#[test]
fn into_load_input_wraps_every_buffer() {
    let files = params_io::store::store_params(&sample_params());
    let misc = files.misc.clone();
    let input: LoadInput = files.into_load_input();
    assert_eq!(input.misc, Some(misc));
    assert!(input.prepared_beta_h.is_some());
}
