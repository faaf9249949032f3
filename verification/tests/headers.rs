use spv_relay::errors::RelayError;
use spv_relay::header::verify_header;

fn hex_decode(s: &str) -> Vec<u8> {
    fn nibble(c: u8) -> u8 {
        match c {
            b'0'..=b'9' => c - b'0',
            b'a'..=b'f' => c - b'a' + 10,
            b'A'..=b'F' => c - b'A' + 10,
            _ => panic!("not a hex digit"),
        }
    }
    let b = s.as_bytes();
    assert!(b.len() % 2 == 0);
    let mut out = Vec::with_capacity(b.len() / 2);
    for i in 0..b.len() / 2 {
        out.push(nibble(b[2 * i]) << 4 | nibble(b[2 * i + 1]));
    }
    out
}

// The Bitcoin mainnet genesis block header and its hash (little-endian, as
// the wire carries them).
const GENESIS_RAW: &str = "0100000000000000000000000000000000000000000000000000000000000000000000003ba3edfd7a7b12b27ac72c3e67768f617fc81bc3888a51323a9fb8aa4b1e5e4a29ab5f49ffff001d1dac2b7c";
const GENESIS_HASH: &str = "6fe28c0ab6f1b372c1a6a246ae63f74f931e8365e15a089c68d6190000000000";
const GENESIS_MERKLE_ROOT: &str =
    "3ba3edfd7a7b12b27ac72c3e67768f617fc81bc3888a51323a9fb8aa4b1e5e4a";

fn genesis_parts() -> (Vec<u8>, [u8; 32], [u8; 32], [u8; 32]) {
    let raw = hex_decode(GENESIS_RAW);
    assert_eq!(raw.len(), 80);
    let mut hash = [0u8; 32];
    hash.copy_from_slice(&hex_decode(GENESIS_HASH));
    let mut root = [0u8; 32];
    root.copy_from_slice(&hex_decode(GENESIS_MERKLE_ROOT));
    let prev = [0u8; 32];
    (raw, hash, root, prev)
}

#[test]
fn genesis_header_validates() {
    let (raw, hash, root, prev) = genesis_parts();
    let header = verify_header(&raw, &hash, &root, &prev, 0).unwrap();
    assert_eq!(header.raw, raw);
    assert_eq!(header.hash, hash);
    assert_eq!(header.merkle_root, root);
    assert_eq!(header.prev_hash, prev);
    assert_eq!(header.height, 0);
}

#[test]
fn header_wrong_length_rejected() {
    let (raw, hash, root, prev) = genesis_parts();
    assert_eq!(
        verify_header(&raw[..79], &hash, &root, &prev, 0),
        Err(RelayError::WrongLengthHeader)
    );
    let mut long = raw.clone();
    long.push(0);
    assert_eq!(
        verify_header(&long, &hash, &root, &prev, 0),
        Err(RelayError::WrongLengthHeader)
    );
}

#[test]
fn any_single_bit_flip_changes_the_digest() {
    let (raw, hash, root, prev) = genesis_parts();
    for byte in 0..80 {
        for bit in 0..8 {
            let mut tampered = raw.clone();
            tampered[byte] ^= 1u8 << bit;
            assert_eq!(
                verify_header(&tampered, &hash, &root, &prev, 0),
                Err(RelayError::WrongDigest),
                "flip of bit {} in byte {}",
                bit,
                byte
            );
        }
    }
}

#[test]
fn wrong_claimed_merkle_root_rejected() {
    let (raw, hash, mut root, prev) = genesis_parts();
    root[0] ^= 1;
    assert_eq!(
        verify_header(&raw, &hash, &root, &prev, 0),
        Err(RelayError::WrongMerkleRoot)
    );
}

#[test]
fn wrong_claimed_prev_hash_rejected() {
    let (raw, hash, root, mut prev) = genesis_parts();
    prev[31] = 0x01;
    assert_eq!(
        verify_header(&raw, &hash, &root, &prev, 0),
        Err(RelayError::WrongPrevHash)
    );
}

#[test]
fn insufficient_work_rejected() {
    // A header whose `bits` encode a zero target: no digest can meet it.
    let mut raw = vec![0u8; 80];
    raw[0] = 0x01;
    raw[72] = 0x00;
    raw[73] = 0x00;
    raw[74] = 0x00;
    raw[75] = 0x03;
    let digest = *bitcoin_spv::btcspv::hash256(&[&raw]).as_ref();
    let mut root = [0u8; 32];
    root.copy_from_slice(&raw[36..68]);
    let mut prev = [0u8; 32];
    prev.copy_from_slice(&raw[4..36]);
    assert_eq!(
        verify_header(&raw, &digest, &root, &prev, 7),
        Err(RelayError::InsufficientWork)
    );
}
