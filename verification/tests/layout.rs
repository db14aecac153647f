//! The exact on-disk byte layout: the metadata record and the per-field
//! buffers.
use params_io::codec::{load_pair_sequence, store_pair_sequence, store_sequence};
use params_io::meta::{decode_metadata, encode_metadata, Metadata, METADATA_BYTES};
use params_io::params::{Blob, Prepared, UniversalParams, POINT_A_BYTES, POINT_B_BYTES};

fn blob(n: usize, fill: u8) -> Blob {
    Blob { bytes: vec![fill; n] }
}

#[test]
fn metadata_encodes_to_exact_bytes() {
    let m = Metadata {
        num_powers_of_g: 0x0102030405060708,
        num_powers_of_gamma_g: 2,
        num_neg_powers_of_h: 3,
        num_prepared_h_coeffs: 4,
        prepared_h_infinity: true,
        num_prepared_beta_h_coeffs: 5,
        prepared_beta_h_infinity: false,
    };
    let bytes = encode_metadata(&m);
    let mut expected = vec![8u8, 7, 6, 5, 4, 3, 2, 1];
    expected.extend_from_slice(&[2, 0, 0, 0, 0, 0, 0, 0]);
    expected.extend_from_slice(&[3, 0, 0, 0, 0, 0, 0, 0]);
    expected.extend_from_slice(&[4, 0, 0, 0, 0, 0, 0, 0]);
    expected.push(1);
    expected.extend_from_slice(&[5, 0, 0, 0, 0, 0, 0, 0]);
    expected.push(0);
    assert_eq!(bytes.len(), METADATA_BYTES);
    assert_eq!(bytes, expected);
}

#[test]
fn metadata_decodes_back() {
    let m = Metadata {
        num_powers_of_g: 11,
        num_powers_of_gamma_g: 0,
        num_neg_powers_of_h: 22,
        num_prepared_h_coeffs: 33,
        prepared_h_infinity: false,
        num_prepared_beta_h_coeffs: 44,
        prepared_beta_h_infinity: true,
    };
    let bytes = encode_metadata(&m);
    assert_eq!(decode_metadata(&bytes), Ok(m));
}

#[test]
fn sequence_stores_as_plain_concatenation() {
    let elems = vec![
        Blob { bytes: vec![1, 2, 3] },
        Blob { bytes: vec![4, 5] },
        Blob { bytes: vec![] },
        Blob { bytes: vec![6] },
    ];
    assert_eq!(store_sequence(&elems), vec![1, 2, 3, 4, 5, 6]);
}

#[test]
fn pair_sequence_stores_key_then_value() {
    let elems = vec![(5u64, Blob { bytes: vec![0xAB, 0xCD] }), (1u64, Blob { bytes: vec![0xEF, 0x01] })];
    let out = store_pair_sequence(&elems);
    let expected = vec![
        5u8, 0, 0, 0, 0, 0, 0, 0, 0xAB, 0xCD, 1, 0, 0, 0, 0, 0, 0, 0, 0xEF, 0x01,
    ];
    assert_eq!(out, expected);
}

#[test]
fn pair_sequence_loads_by_position_not_stored_key() {
    let elems = vec![(5u64, Blob { bytes: vec![0xAB, 0xCD] }), (1u64, Blob { bytes: vec![0xEF, 0x01] })];
    let out = store_pair_sequence(&elems);
    let loaded = load_pair_sequence(&out, 2, 2).unwrap();
    assert_eq!(
        loaded,
        vec![(0u64, Blob { bytes: vec![0xAB, 0xCD] }), (1u64, Blob { bytes: vec![0xEF, 0x01] })]
    );
}

#[test]
fn stored_field_files_hold_expected_bytes() {
    let p = UniversalParams {
        powers_of_g: vec![blob(POINT_A_BYTES, 1), blob(POINT_A_BYTES, 2)],
        powers_of_gamma_g: vec![(7, blob(POINT_A_BYTES, 3))],
        h: blob(POINT_B_BYTES, 4),
        beta_h: blob(POINT_B_BYTES, 5),
        neg_powers_of_h: vec![],
        prepared_h: Prepared { coeffs: vec![], infinity: false },
        prepared_beta_h: Prepared { coeffs: vec![], infinity: false },
    };
    let files = params_io::store::store_params(&p);

    let mut g_expected = vec![1u8; POINT_A_BYTES];
    g_expected.extend_from_slice(&vec![2u8; POINT_A_BYTES]);
    assert_eq!(files.powers_of_g, g_expected);

    let mut gg_expected = vec![7u8, 0, 0, 0, 0, 0, 0, 0];
    gg_expected.extend_from_slice(&vec![3u8; POINT_A_BYTES]);
    assert_eq!(files.powers_of_gamma_g, gg_expected);

    assert_eq!(files.h, vec![4u8; POINT_B_BYTES]);
    assert_eq!(files.beta_h, vec![5u8; POINT_B_BYTES]);
    assert!(files.neg_powers_of_h.is_empty());
    assert_eq!(files.misc.len(), METADATA_BYTES);
    assert_eq!(files.misc[0], 2);
    assert_eq!(files.misc[8], 1);
}
