use smpc::codec::{decode_share_pairs, decode_u64_vec, encode_share_pairs, encode_u64_vec};
use smpc::{MpcError, Rep3ShareU64};

#[test]
fn u64_vec_encoding_is_count_then_big_endian_values() {
    let bytes = encode_u64_vec(&[1, 0x0102_0304_0506_0708]);
    assert_eq!(
        bytes,
        vec![0, 0, 0, 2, 0, 0, 0, 0, 0, 0, 0, 1, 1, 2, 3, 4, 5, 6, 7, 8]
    );
    assert_eq!(decode_u64_vec(&bytes).unwrap(), vec![1, 0x0102_0304_0506_0708]);
}

#[test]
fn u64_vec_roundtrip_edge_values() {
    let values = vec![0, u64::MAX, 42, 1 << 63];
    assert_eq!(decode_u64_vec(&encode_u64_vec(&values)).unwrap(), values);
    assert_eq!(decode_u64_vec(&encode_u64_vec(&[])).unwrap(), Vec::<u64>::new());
}

#[test]
fn u64_vec_rejects_short_and_mismatched_payloads() {
    match decode_u64_vec(&[0, 0, 1]) {
        Err(MpcError::Protocol(s)) => assert_eq!(s, "short u64 vector payload"),
        _ => panic!("expected a short payload error"),
    }
    match decode_u64_vec(&[0, 0, 0, 1, 9]) {
        Err(MpcError::Protocol(s)) => assert_eq!(s, "u64 vector payload length mismatch"),
        _ => panic!("expected a length mismatch"),
    }
}

#[test]
fn share_pairs_roundtrip() {
    let shares = vec![Rep3ShareU64::new(1, 2), Rep3ShareU64::new(u64::MAX, 0)];
    let bytes = encode_share_pairs(&shares);
    assert_eq!(bytes.len(), 4 + 2 * 16);
    assert_eq!(&bytes[..4], &[0, 0, 0, 2]);
    let back = decode_share_pairs(&bytes).unwrap();
    assert_eq!(back.len(), 2);
    assert_eq!((back[0].own(), back[0].next()), (1, 2));
    assert_eq!((back[1].own(), back[1].next()), (u64::MAX, 0));
}

#[test]
fn share_pairs_reject_short_and_mismatched_payloads() {
    match decode_share_pairs(&[]) {
        Err(MpcError::Protocol(s)) => assert_eq!(s, "short share-pair payload"),
        _ => panic!("expected a short payload error"),
    }
    match decode_share_pairs(&[0, 0, 0, 1, 0, 0, 0, 0, 0, 0, 0, 0]) {
        Err(MpcError::Protocol(s)) => assert_eq!(s, "share-pair payload length mismatch"),
        _ => panic!("expected a length mismatch"),
    }
}
