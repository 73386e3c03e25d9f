use mysql_conn::compression::{compress_packets, decode_compressed, CompDecoded};
use mysql_conn::framing::encode_packet;

#[test]
fn short_chunks_are_stored() {
    let (bytes, next) = compress_packets(&vec![1u8, 2, 3], 0, 16_777_215);
    assert_eq!(bytes, vec![3u8, 0, 0, 0, 0, 0, 0, 1, 2, 3]);
    assert_eq!(next, 1);
}

#[test]
fn data_is_split_into_chunks() {
    let data: Vec<u8> = (0u8..10).collect();
    let (bytes, next) = compress_packets(&data, 5, 4);
    assert_eq!(next, 8);
    assert_eq!(bytes.len(), 3 * 7 + 10);
    assert_eq!(&bytes[0..7], &[4u8, 0, 0, 5, 0, 0, 0][..]);
    assert_eq!(&bytes[11..18], &[4u8, 0, 0, 6, 0, 0, 0][..]);
    assert_eq!(&bytes[22..29], &[2u8, 0, 0, 7, 0, 0, 0][..]);
}

#[test]
fn long_chunks_are_compressed_and_read_back() {
    let (framed, _) = encode_packet(&vec![b'A'; 1000], 0);
    let (bytes, next) = compress_packets(&framed, 3, 16_777_215);
    assert_eq!(next, 4);
    assert!(bytes.len() < framed.len());
    assert_eq!(bytes[3], 3);
    assert_eq!(&bytes[4..7], &[0xecu8, 0x03, 0][..]);
    match decode_compressed(&bytes, 3) {
        CompDecoded::Frame(data, used, next) => {
            assert_eq!(data, framed);
            assert_eq!(used, bytes.len());
            assert_eq!(next, 4);
        }
        other => panic!("unexpected {:?}", other),
    }
}

#[test]
fn compressed_frame_checks() {
    assert_eq!(decode_compressed(&vec![3u8, 0, 0, 1, 0, 0, 0, 1], 0), CompDecoded::OutOfSync);
    assert_eq!(decode_compressed(&vec![3u8, 0, 0, 0, 0, 0, 0, 1], 0), CompDecoded::Incomplete);
    assert_eq!(decode_compressed(&vec![2u8, 0, 0, 0, 5, 0, 0, 1, 2], 0), CompDecoded::Corrupt);
}
