use spv_relay::bytes::read_bytes;
use spv_relay::compact_int::decode;
use spv_relay::compact_int::encode;
use spv_relay::errors::RelayError;

#[test]
fn read_bytes_in_range() {
    let data = [1u8, 2, 3, 4, 5];
    let r = read_bytes(&data, 1, 3).unwrap();
    assert_eq!(r, &[2u8, 3, 4]);
    let whole = read_bytes(&data, 0, 5).unwrap();
    assert_eq!(whole, &[1u8, 2, 3, 4, 5]);
    let empty = read_bytes(&data, 5, 0).unwrap();
    assert_eq!(empty.len(), 0);
}

#[test]
fn read_bytes_overrun() {
    let data = [1u8, 2, 3, 4, 5];
    assert_eq!(read_bytes(&data, 3, 3), Err(RelayError::ReadOverrun));
    assert_eq!(read_bytes(&data, 6, 0), Err(RelayError::ReadOverrun));
    assert_eq!(read_bytes(&data, 0, 6), Err(RelayError::ReadOverrun));
    assert_eq!(read_bytes(&[], 0, 1), Err(RelayError::ReadOverrun));
}

#[test]
fn compact_int_round_trip_boundary_values() {
    let cases: [(u64, usize); 8] = [
        (0, 1),
        (252, 1),
        (253, 3),
        (65535, 3),
        (65536, 5),
        (4294967295, 5),
        (4294967296, 9),
        (18446744073709551615, 9),
    ];
    for (n, expected_len) in cases {
        let enc = encode(n);
        assert_eq!(enc.len(), expected_len, "encoded length of {}", n);
        assert_eq!(decode(&enc, 0), Ok((n, expected_len)), "round trip of {}", n);
    }
}

#[test]
fn compact_int_known_encodings() {
    assert_eq!(encode(0), vec![0x00]);
    assert_eq!(encode(252), vec![0xfc]);
    assert_eq!(encode(253), vec![0xfd, 0xfd, 0x00]);
    assert_eq!(encode(65535), vec![0xfd, 0xff, 0xff]);
    assert_eq!(encode(65536), vec![0xfe, 0x00, 0x00, 0x01, 0x00]);
    assert_eq!(encode(u64::MAX), vec![0xff; 9]);
}

#[test]
fn compact_int_decode_two_byte_payload() {
    assert_eq!(decode(&[0xfd, 0x00, 0x01], 0), Ok((256, 3)));
}

#[test]
fn compact_int_decode_at_offset_and_non_minimal() {
    assert_eq!(decode(&[0xaa, 0x07], 1), Ok((7, 1)));
    // A non-minimal encoding decodes too; only encoding is minimal.
    assert_eq!(decode(&[0xfd, 0x05, 0x00], 0), Ok((5, 3)));
}

#[test]
fn compact_int_decode_missing_bytes() {
    assert_eq!(decode(&[], 0), Err(RelayError::BadCompactInt));
    assert_eq!(decode(&[0x01], 1), Err(RelayError::BadCompactInt));
    assert_eq!(decode(&[0xfd, 0x00], 0), Err(RelayError::BadCompactInt));
    assert_eq!(decode(&[0xfe, 0x00, 0x00, 0x00], 0), Err(RelayError::BadCompactInt));
    assert_eq!(
        decode(&[0xff, 0, 0, 0, 0, 0, 0, 0], 0),
        Err(RelayError::BadCompactInt)
    );
}

#[test]
fn error_codes_round_trip() {
    let all = [
        RelayError::AlreadyInit,
        RelayError::InsufficientStateSpace,
        RelayError::ReadOverrun,
        RelayError::BadCompactInt,
        RelayError::MalformattedOpReturnOutput,
        RelayError::MalformattedP2SHOutput,
        RelayError::MalformattedP2PKHOutput,
        RelayError::MalformattedWitnessOutput,
        RelayError::MalformattedOutput,
        RelayError::WrongLengthHeader,
        RelayError::UnexpectedDifficultyChange,
        RelayError::InsufficientWork,
        RelayError::InvalidChain,
        RelayError::WrongDigest,
        RelayError::WrongMerkleRoot,
        RelayError::WrongPrevHash,
        RelayError::InvalidVin,
        RelayError::InvalidVout,
        RelayError::WrongTxID,
        RelayError::BadMerkleProof,
        RelayError::OutputLengthMismatch,
        RelayError::UnknownError,
    ];
    for (i, e) in all.iter().enumerate() {
        assert_eq!(e.code(), i as u32);
        assert_eq!(RelayError::from_code(i as u32), Some(*e));
    }
    assert_eq!(RelayError::from_code(22), None);
    assert_eq!(RelayError::from_code(u32::MAX), None);
    assert_eq!(RelayError::ReadOverrun.description(), "ReadOverrun");
    assert_eq!(RelayError::WrongTxID.description(), "WrongTxID");
}
