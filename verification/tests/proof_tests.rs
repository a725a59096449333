use relay_core::BitcoinHeader;
use relay_core::HeaderInfo;
use relay_core::Relay;
use relay_core::RelayError;
use relay_core::SPVProof;

fn digest(h: &[u8]) -> [u8; 32] {
    *bitcoin_spv::types::RawHeader::new(&h).unwrap().digest().as_ref()
}

fn empty_info() -> HeaderInfo {
    HeaderInfo { digest: [0; 32], parent_index: 0, epoch_start_index: 0, height: 0 }
}

// A minimal transaction with one input and one empty-script output.
fn minimal_tx() -> (Vec<u8>, Vec<u8>, Vec<u8>, Vec<u8>, [u8; 32]) {
    let version = vec![1u8, 0, 0, 0];
    let mut vin = vec![1u8];
    vin.extend_from_slice(&[0u8; 36]);
    vin.push(0);
    vin.extend_from_slice(&[0xff, 0xff, 0xff, 0xff]);
    let mut vout = vec![1u8];
    vout.extend_from_slice(&[0u8; 8]);
    vout.push(0);
    let locktime = vec![0u8; 4];
    let tx_id = *bitcoin_spv::btcspv::hash256(&[&version, &vin, &vout, &locktime])
        .as_ref();
    (version, vin, vout, locktime, tx_id)
}

// A proof whose transaction is the only one in its block: the merkle root
// is the transaction id and the intermediate nodes are empty.
fn proof_for(conf_raw: &[u8]) -> SPVProof {
    let (version, vin, vout, locktime, tx_id) = minimal_tx();
    let mut merkle_root = [0u8; 32];
    merkle_root.copy_from_slice(&conf_raw[36..68]);
    assert_eq!(merkle_root, tx_id);
    let mut prevhash = [0u8; 32];
    prevhash.copy_from_slice(&conf_raw[4..36]);
    SPVProof {
        version,
        vin,
        vout,
        locktime,
        tx_id,
        index: 0,
        confirming_header: BitcoinHeader {
            hash: digest(conf_raw),
            raw: conf_raw.to_vec(),
            height: 1,
            prevhash,
            merkle_root,
        },
        intermediate_nodes: Vec::new(),
    }
}

// A linear chain of records at heights 0..len-1, where the record at
// index 1 carries the digest of the confirming header.
fn linear_relay(len: usize, conf_raw: &[u8]) -> Relay {
    let mut slots = vec![empty_info(); 4096];
    for i in 0..len {
        let mut d = [0u8; 32];
        d[0] = (i % 256) as u8;
        d[1] = (i / 256) as u8;
        d[2] = 0xaa;
        slots[i] = HeaderInfo {
            digest: d,
            parent_index: if i == 0 { u32::MAX } else { (i - 1) as u32 },
            epoch_start_index: 0,
            height: i as u32,
        };
    }
    slots[1].digest = digest(conf_raw);
    let best = (len - 1) as u32;
    let best_digest = slots[len - 1].digest;
    Relay::from_parts(true, slots[1], [0u8; 32], best, best_digest, [0u8; 32], slots, len)
        .unwrap()
}

// The confirming header: its merkle-root field holds the transaction id.
fn confirming_header_raw() -> Vec<u8> {
    let (_, _, _, _, tx_id) = minimal_tx();
    let mut h = vec![0u8; 80];
    h[0] = 1;
    h[4..36].copy_from_slice(&[5u8; 32]);
    h[36..68].copy_from_slice(&tx_id);
    h[72..76].copy_from_slice(&0x207fffffu32.to_le_bytes());
    h
}

#[test]
fn proofs_two_thousand_seventeen_behind_are_too_deep() {
    let conf = confirming_header_raw();
    let proof = proof_for(&conf);
    // tip at height 2018: the record at height 1 is 2017 blocks behind
    let relay = linear_relay(2019, &conf);
    let r = relay.validate_proof(1, &proof);
    assert_eq!(r.err().unwrap(), RelayError::TooDeep);
}

#[test]
fn proofs_exactly_at_the_window_edge_succeed() {
    let conf = confirming_header_raw();
    let proof = proof_for(&conf);
    // tip at height 2017: the record at height 1 is exactly 2016 behind
    let relay = linear_relay(2018, &conf);
    let confirmations = relay.validate_proof(1, &proof).unwrap();
    assert_eq!(confirmations, 2017);
}

#[test]
fn proofs_off_the_best_chain_are_rejected() {
    let conf = confirming_header_raw();
    let proof = proof_for(&conf);
    let mut relay = linear_relay(300, &conf);
    // a fork record at the same height as the tip, carrying the claimed
    // digest, but not an ancestor of the tip
    let r = relay.validate_proof(1, &proof);
    assert_eq!(r.ok().unwrap(), 299);
    // now point the confirming index at a record whose digest differs
    let r = relay.validate_proof(2, &proof);
    assert_eq!(r.err().unwrap(), RelayError::WrongDigest);
    // and at a record carrying the right digest but sitting on a fork:
    // the walk from the tip lands on the main-chain record instead
    let mut slots = vec![empty_info(); 4096];
    for i in 0..300usize {
        let mut d = [0u8; 32];
        d[0] = (i % 256) as u8;
        d[2] = 0xbb;
        slots[i] = HeaderInfo {
            digest: d,
            parent_index: if i == 0 { u32::MAX } else { (i - 1) as u32 },
            epoch_start_index: 0,
            height: i as u32,
        };
    }
    // a fork record at height 250 carrying the confirming digest
    slots[300] = HeaderInfo {
        digest: digest(&conf),
        parent_index: 249,
        epoch_start_index: 0,
        height: 250,
    };
    let best = 299u32;
    let best_digest = slots[299].digest;
    relay = Relay::from_parts(
        true,
        slots[1],
        [0u8; 32],
        best,
        best_digest,
        [0u8; 32],
        slots,
        301,
    )
    .unwrap();
    let r = relay.validate_proof(300, &proof);
    assert_eq!(r.err().unwrap(), RelayError::NotInBestChain);
}

#[test]
fn malformed_proofs_are_rejected_before_the_store_is_read() {
    let conf = confirming_header_raw();
    let mut proof = proof_for(&conf);
    // break the claimed transaction id
    proof.tx_id[0] ^= 1;
    let relay = linear_relay(10, &conf);
    let r = relay.validate_proof(1, &proof);
    assert_eq!(r.err().unwrap(), RelayError::WrongTxID);

    // break the claimed header hash
    let mut proof = proof_for(&conf);
    proof.confirming_header.hash[0] ^= 1;
    let r = relay.validate_proof(1, &proof);
    assert_eq!(r.err().unwrap(), RelayError::WrongDigest);
}
