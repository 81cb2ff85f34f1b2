use rendezvous::codec::{ByteUtils, CodecError};

#[test]
fn pack_u32_big_endian_bytes() {
    assert_eq!(ByteUtils::pack_u32(0x01020304), vec![1u8, 2, 3, 4]);
    assert_eq!(ByteUtils::pack_u32(0), vec![0u8, 0, 0, 0]);
    assert_eq!(ByteUtils::pack_u32(u32::MAX), vec![0xFFu8, 0xFF, 0xFF, 0xFF]);
    assert_eq!(ByteUtils::pack_u32(5), vec![0u8, 0, 0, 5]);
}

#[test]
fn unpack_u32_reads_at_offset() {
    let data = [9u8, 9, 1, 2, 3, 4];
    assert_eq!(ByteUtils::unpack_u32(&data, 2), Ok(0x01020304));
    assert_eq!(ByteUtils::unpack_u32(&data, 0), Ok(0x09090102));
}

#[test]
fn unpack_u32_truncated() {
    let data = [1u8, 2, 3];
    assert_eq!(ByteUtils::unpack_u32(&data, 0), Err(CodecError::TruncatedInput));
    let data = [1u8, 2, 3, 4];
    assert_eq!(ByteUtils::unpack_u32(&data, 1), Err(CodecError::TruncatedInput));
    assert_eq!(ByteUtils::unpack_u32(&[], 0), Err(CodecError::TruncatedInput));
}

#[test]
fn u32_round_trip() {
    for v in [0u32, 1, 255, 256, 0xDEADBEEF, u32::MAX] {
        let packed = ByteUtils::pack_u32(v);
        assert_eq!(ByteUtils::unpack_u32(&packed, 0), Ok(v));
    }
}

#[test]
fn pack_str_length_prefixed() {
    let packed = ByteUtils::pack_str("K3N7Q");
    assert_eq!(&packed[..4], &[0u8, 0, 0, 5]);
    assert_eq!(&packed[4..], b"K3N7Q");
    assert_eq!(ByteUtils::pack_str(""), vec![0u8, 0, 0, 0]);
}

#[test]
fn str_round_trip() {
    for s in ["", "K3N7Q", "hello world", "\u{00e9}\u{30c6}\u{1F600}"] {
        let packed = ByteUtils::pack_str(s);
        let (decoded, end) = ByteUtils::unpack_str(&packed, 0).unwrap();
        assert_eq!(decoded, s);
        assert_eq!(end, packed.len());
    }
}

#[test]
fn str_round_trip_at_offset() {
    let mut data = vec![0u8, 0, 0, 2];
    data.extend_from_slice(&ByteUtils::pack_str("P9X2L"));
    let (decoded, end) = ByteUtils::unpack_str(&data, 4).unwrap();
    assert_eq!(decoded, "P9X2L");
    assert_eq!(end, data.len());
}

#[test]
fn unpack_str_truncated_prefix() {
    assert_eq!(
        ByteUtils::unpack_str(&[0u8, 0, 0], 0),
        Err(CodecError::TruncatedInput)
    );
}

#[test]
fn unpack_str_truncated_body() {
    // declares 5 bytes, provides 3
    let data = [0u8, 0, 0, 5, b'a', b'b', b'c'];
    assert_eq!(ByteUtils::unpack_str(&data, 0), Err(CodecError::TruncatedInput));
}

#[test]
fn unpack_str_invalid_encoding() {
    // 0xFF is never valid UTF-8
    let data = [0u8, 0, 0, 2, 0xFF, 0xFF];
    assert_eq!(ByteUtils::unpack_str(&data, 0), Err(CodecError::InvalidEncoding));
}
