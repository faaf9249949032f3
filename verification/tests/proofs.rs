use spv_relay::errors::RelayError;
use spv_relay::header::BitcoinHeader;
use spv_relay::script::classify_output;
use spv_relay::script::OutputType;
use spv_relay::tx::parse_tx_in;
use spv_relay::tx::parse_tx_out;
use spv_relay::merkle::verify_merkle;
use spv_relay::spv::verify_proof;
use spv_relay::spv::SPVProof;
use spv_relay::tx::compute_txid;
use spv_relay::tx::validate_vin;
use spv_relay::tx::validate_vout;

const EASY_BITS: [u8; 4] = [0xff, 0xff, 0x00, 0x22];

fn digest_pair(a: &[u8; 32], b: &[u8; 32]) -> [u8; 32] {
    *bitcoin_spv::btcspv::hash256(&[a, b]).as_ref()
}

fn sample_vin() -> Vec<u8> {
    let mut vin = vec![0x01];
    vin.extend_from_slice(&[0x33; 32]);
    vin.extend_from_slice(&[0, 0, 0, 0]);
    vin.push(0x00);
    vin.extend_from_slice(&[0xff, 0xff, 0xff, 0xff]);
    vin
}

fn sample_vout() -> Vec<u8> {
    let mut vout = vec![0x01];
    vout.extend_from_slice(&[0x40, 0x42, 0x0f, 0, 0, 0, 0, 0]);
    vout.push(0x01);
    vout.push(0x51);
    vout
}

/// A proof whose transaction is the only leaf of its block, confirmed by a
/// header built around it.
fn sample_proof() -> SPVProof {
    let version = [0x01, 0, 0, 0];
    let locktime = [0, 0, 0, 0];
    let vin = sample_vin();
    let vout = sample_vout();
    let tx_id = compute_txid(&version, &vin, &vout, &locktime);

    let mut raw = vec![0u8; 80];
    raw[0] = 0x01;
    raw[36..68].copy_from_slice(&tx_id);
    raw[72..76].copy_from_slice(&EASY_BITS);
    let hash = *bitcoin_spv::btcspv::hash256(&[&raw]).as_ref();
    let confirming_header = BitcoinHeader {
        raw,
        hash,
        merkle_root: tx_id,
        prev_hash: [0u8; 32],
        height: 100,
    };
    SPVProof {
        version,
        vin,
        vout,
        locktime,
        tx_id,
        leaf_index: 0,
        intermediate_nodes: vec![],
        confirming_header,
    }
}

#[test]
fn txid_matches_outside_digest() {
    let version = [0x01, 0, 0, 0];
    let locktime = [0, 0, 0, 0];
    let vin = sample_vin();
    let vout = sample_vout();
    let tx_id = compute_txid(&version, &vin, &vout, &locktime);
    let mut serialized = Vec::new();
    serialized.extend_from_slice(&version);
    serialized.extend_from_slice(&vin);
    serialized.extend_from_slice(&vout);
    serialized.extend_from_slice(&locktime);
    assert_eq!(
        tx_id,
        *bitcoin_spv::btcspv::hash256(&[&serialized]).as_ref()
    );
}

#[test]
fn vin_vout_validation() {
    assert_eq!(validate_vin(&sample_vin()), Ok(()));
    assert_eq!(validate_vout(&sample_vout()), Ok(()));
    // A zero count is rejected.
    assert_eq!(validate_vin(&[0x00]), Err(RelayError::InvalidVin));
    assert_eq!(validate_vout(&[0x00]), Err(RelayError::InvalidVout));
    // Truncation is rejected.
    let mut vin = sample_vin();
    vin.pop();
    assert_eq!(validate_vin(&vin), Err(RelayError::InvalidVin));
    let mut vout = sample_vout();
    vout.pop();
    assert_eq!(validate_vout(&vout), Err(RelayError::InvalidVout));
    // Leftover bytes are rejected.
    let mut vin = sample_vin();
    vin.push(0x00);
    assert_eq!(validate_vin(&vin), Err(RelayError::InvalidVin));
    let mut vout = sample_vout();
    vout.push(0x00);
    assert_eq!(validate_vout(&vout), Err(RelayError::InvalidVout));
}

#[test]
fn input_and_output_records_extracted() {
    let vin = sample_vin();
    let (txin, consumed) = parse_tx_in(&vin, 1).unwrap();
    assert_eq!(consumed, 41);
    assert_eq!(&txin.outpoint[..32], &[0x33u8; 32][..]);
    assert_eq!(&txin.outpoint[32..], &[0u8; 4][..]);
    assert!(txin.script_sig.is_empty());
    assert_eq!(txin.sequence, 0xffffffff);

    let vout = sample_vout();
    let (txout, consumed) = parse_tx_out(&vout, 1).unwrap();
    assert_eq!(consumed, 10);
    assert_eq!(txout.value, 1_000_000);
    assert_eq!(txout.script, vec![0x51]);

    // Records that run past the end of the vector are rejected.
    assert_eq!(parse_tx_in(&vin, 2), Err(RelayError::InvalidVin));
    assert_eq!(parse_tx_out(&vout, 5), Err(RelayError::InvalidVout));
}

#[test]
fn extracted_output_script_classifies() {
    // An output whose script is a full pay-to-pubkey-hash template.
    let mut vout = vec![0x01];
    vout.extend_from_slice(&[0, 0, 0, 0, 0, 0, 0, 0]);
    vout.push(0x19);
    vout.extend_from_slice(&[0x76, 0xa9, 0x14]);
    vout.extend_from_slice(&[0xcd; 20]);
    vout.extend_from_slice(&[0x88, 0xac]);
    let (txout, consumed) = parse_tx_out(&vout, 1).unwrap();
    assert_eq!(consumed, vout.len() - 1);
    let (ty, payload) = classify_output(&txout.script, txout.script.len()).unwrap();
    assert_eq!(ty, OutputType::P2PKH);
    assert_eq!(payload, vec![0xcd; 20]);
}

#[test]
fn merkle_path_verifies_and_tampering_fails() {
    let leaf = [0x11u8; 32];
    let sibling = [0x22u8; 32];
    let root_even = digest_pair(&leaf, &sibling);
    let root_odd = digest_pair(&sibling, &leaf);
    assert!(verify_merkle(&leaf, &vec![sibling], 0, &root_even));
    assert!(verify_merkle(&leaf, &vec![sibling], 1, &root_odd));
    assert!(!verify_merkle(&leaf, &vec![sibling], 0, &root_odd));

    let mut bad_sibling = sibling;
    bad_sibling[7] ^= 0x10;
    assert!(!verify_merkle(&leaf, &vec![bad_sibling], 0, &root_even));
}

#[test]
fn merkle_two_level_path() {
    let leaf = [0x11u8; 32];
    let s0 = [0x22u8; 32];
    let s1 = [0x33u8; 32];
    // Leaf index 2: even at the first level, odd at the second.
    let level1 = digest_pair(&leaf, &s0);
    let root = digest_pair(&s1, &level1);
    assert!(verify_merkle(&leaf, &vec![s0, s1], 2, &root));
    assert!(!verify_merkle(&leaf, &vec![s0, s1], 0, &root));
}

#[test]
fn merkle_empty_path_means_leaf_is_root() {
    let leaf = [0x44u8; 32];
    assert!(verify_merkle(&leaf, &vec![], 0, &leaf));
    assert!(!verify_merkle(&leaf, &vec![], 0, &[0x45u8; 32]));
    // An index beyond the implied tree height is inconsistent.
    assert!(!verify_merkle(&leaf, &vec![], 1, &leaf));
}

#[test]
fn valid_proof_accepted() {
    assert_eq!(verify_proof(&sample_proof()), Ok(()));
}

#[test]
fn proof_with_sibling_path_accepted() {
    let mut proof = sample_proof();
    let sibling = [0x66u8; 32];
    let root = digest_pair(&proof.tx_id, &sibling);
    proof.intermediate_nodes = vec![sibling];
    proof.confirming_header.merkle_root = root;
    proof.confirming_header.raw[36..68].copy_from_slice(&root);
    proof.confirming_header.hash =
        *bitcoin_spv::btcspv::hash256(&[&proof.confirming_header.raw]).as_ref();
    assert_eq!(verify_proof(&proof), Ok(()));
}

#[test]
fn wrong_txid_reported_even_when_path_would_verify() {
    let mut proof = sample_proof();
    // Claim a different transaction id and build the confirming header
    // around that claim, so the Merkle path itself would verify.
    proof.tx_id[0] ^= 1;
    proof.confirming_header.merkle_root = proof.tx_id;
    proof.confirming_header.raw[36..68].copy_from_slice(&proof.tx_id);
    proof.confirming_header.hash =
        *bitcoin_spv::btcspv::hash256(&[&proof.confirming_header.raw]).as_ref();
    assert_eq!(verify_proof(&proof), Err(RelayError::WrongTxID));
}

#[test]
fn bad_merkle_path_rejected() {
    let mut proof = sample_proof();
    // A root unrelated to the transaction id, claimed consistently.
    let other_root = [0x5au8; 32];
    proof.confirming_header.merkle_root = other_root;
    proof.confirming_header.raw[36..68].copy_from_slice(&other_root);
    proof.confirming_header.hash =
        *bitcoin_spv::btcspv::hash256(&[&proof.confirming_header.raw]).as_ref();
    assert_eq!(verify_proof(&proof), Err(RelayError::BadMerkleProof));
}

#[test]
fn proof_with_malformed_vectors_rejected() {
    let mut proof = sample_proof();
    proof.vin = vec![0x00];
    assert_eq!(verify_proof(&proof), Err(RelayError::InvalidVin));

    let mut proof = sample_proof();
    proof.vout = vec![0x00];
    assert_eq!(verify_proof(&proof), Err(RelayError::InvalidVout));
}

#[test]
fn proof_with_tampered_header_claim_rejected() {
    let mut proof = sample_proof();
    proof.confirming_header.hash[0] ^= 1;
    assert_eq!(verify_proof(&proof), Err(RelayError::WrongDigest));
}
