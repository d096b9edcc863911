use mist::sidecar::{decode_sidecar, encode_sidecar};

#[test]
fn sidecar_is_eight_bytes_most_significant_first() {
    assert_eq!(encode_sidecar(0x0102030405060708), vec![1, 2, 3, 4, 5, 6, 7, 8]);
    assert_eq!(encode_sidecar(0), vec![0; 8]);
    assert_eq!(encode_sidecar(u64::MAX), vec![255; 8]);
    assert_eq!(encode_sidecar(258), 258u64.to_be_bytes().to_vec());
}

#[test]
fn decoding_undoes_encoding() {
    for d in [0u64, 1, 42, 0x0102030405060708, u64::MAX, 1 << 63] {
        assert_eq!(decode_sidecar(&encode_sidecar(d)), Some(d));
    }
    assert_eq!(decode_sidecar(&vec![0, 0, 0, 0, 0, 0, 1, 2]), Some(258));
}

#[test]
fn only_eight_bytes_carry_a_digest() {
    assert_eq!(decode_sidecar(&vec![]), None);
    assert_eq!(decode_sidecar(&vec![1; 7]), None);
    assert_eq!(decode_sidecar(&vec![1; 9]), None);
}
