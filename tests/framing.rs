use mysql_conn::consts::MAX_PAYLOAD_LEN;
use mysql_conn::framing::{decode_packet, encode_packet, Decoded};
use mysql_conn::lenenc::read_lenenc_int;

#[test]
fn small_payload_is_one_frame() {
    let (bytes, next) = encode_packet(&vec![1u8, 2, 3], 0);
    assert_eq!(bytes, vec![3u8, 0, 0, 0, 1, 2, 3]);
    assert_eq!(next, 1);
}

#[test]
fn empty_payload_is_one_empty_frame() {
    let (bytes, next) = encode_packet(&Vec::new(), 7);
    assert_eq!(bytes, vec![0u8, 0, 0, 7]);
    assert_eq!(next, 8);
}

#[test]
fn sequence_id_wraps() {
    let (bytes, next) = encode_packet(&vec![9u8], 255);
    assert_eq!(bytes, vec![1u8, 0, 0, 255, 9]);
    assert_eq!(next, 0);
}

#[test]
fn max_payload_needs_trailing_empty_frame() {
    let payload = vec![0x41u8; MAX_PAYLOAD_LEN];
    let (bytes, next) = encode_packet(&payload, 0);
    assert_eq!(bytes.len(), MAX_PAYLOAD_LEN + 8);
    assert_eq!(&bytes[0..4], &[0xffu8, 0xff, 0xff, 0][..]);
    assert_eq!(&bytes[MAX_PAYLOAD_LEN + 4..], &[0u8, 0, 0, 1][..]);
    assert_eq!(next, 2);
    match decode_packet(&bytes, 0) {
        Decoded::Packet(p, n, s) => {
            assert_eq!(p, payload);
            assert_eq!(n, MAX_PAYLOAD_LEN + 8);
            assert_eq!(s, 2);
        }
        other => panic!("unexpected {:?}", other),
    }
}

#[test]
fn large_payload_round_trips() {
    let payload = vec![0x41u8; 20_000_000];
    let (bytes, next) = encode_packet(&payload, 3);
    assert_eq!(bytes.len(), 20_000_000 + 8);
    assert_eq!(next, 5);
    let mut with_rest = bytes.clone();
    with_rest.extend_from_slice(&[9, 9, 9]);
    match decode_packet(&with_rest, 3) {
        Decoded::Packet(p, n, s) => {
            assert_eq!(p.len(), 20_000_000);
            assert!(p.iter().all(|b| *b == 0x41));
            assert_eq!(n, bytes.len());
            assert_eq!(s, 5);
        }
        other => panic!("unexpected {:?}", other),
    }
}

#[test]
fn decode_needs_whole_frames() {
    assert_eq!(decode_packet(&vec![3u8, 0, 0], 0), Decoded::Incomplete);
    assert_eq!(decode_packet(&vec![3u8, 0, 0, 0, 1, 2], 0), Decoded::Incomplete);
}

#[test]
fn decode_rejects_wrong_sequence_id() {
    assert_eq!(decode_packet(&vec![1u8, 0, 0, 4, 1], 3), Decoded::OutOfSync);
}

#[test]
fn lenenc_integers() {
    assert_eq!(read_lenenc_int(&vec![0xfau8]), Some((250, 1)));
    assert_eq!(read_lenenc_int(&vec![0xfcu8, 0x34, 0x12]), Some((0x1234, 3)));
    assert_eq!(read_lenenc_int(&vec![0xfdu8, 1, 2, 3, 9]), Some((0x030201, 4)));
    assert_eq!(
        read_lenenc_int(&vec![0xfeu8, 1, 0, 0, 0, 0, 0, 0, 0x80]),
        Some((0x8000_0000_0000_0001, 9))
    );
    assert_eq!(read_lenenc_int(&vec![0xfcu8, 1]), None);
    assert_eq!(read_lenenc_int(&vec![0xffu8]), None);
    assert_eq!(read_lenenc_int(&Vec::new()), None);
}
