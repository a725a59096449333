use relay_core::HeaderInfo;
use relay_core::Relay;
use relay_core::RelayError;

// The raw Bitcoin mainnet genesis header and the block-1 header.
const GENESIS_HEX: &str = "0100000000000000000000000000000000000000000000000000000000000000000000003ba3edfd7a7b12b27ac72c3e67768f617fc81bc3888a51323a9fb8aa4b1e5e4a29ab5f49ffff001d1dac2b7c";
const BLOCK1_HEX: &str = "010000006fe28c0ab6f1b372c1a6a246ae63f74f931e8365e15a089c68d6190000000000982051fd1e4ba744bbbe680e1fee14677ba1a3c3540bf7b1cdb606e857233e0e61bc6649ffff001d01e36299";

fn unhex(s: &str) -> Vec<u8> {
    let digit = |c: u8| -> u8 {
        match c {
            b'0'..=b'9' => c - b'0',
            b'a'..=b'f' => c - b'a' + 10,
            b'A'..=b'F' => c - b'A' + 10,
            _ => panic!("bad hex digit"),
        }
    };
    s.as_bytes().chunks(2).map(|p| (digit(p[0]) << 4) | digit(p[1])).collect()
}

fn digest(h: &[u8]) -> [u8; 32] {
    *bitcoin_spv::types::RawHeader::new(&h).unwrap().digest().as_ref()
}

// Build an 80-byte header from its fields.
fn header(prev: &[u8; 32], merkle: &[u8; 32], time: u32, bits: u32, nonce: u32) -> Vec<u8> {
    let mut h = vec![0u8; 80];
    h[0] = 1;
    h[4..36].copy_from_slice(prev);
    h[36..68].copy_from_slice(merkle);
    h[68..72].copy_from_slice(&time.to_le_bytes());
    h[72..76].copy_from_slice(&bits.to_le_bytes());
    h[76..80].copy_from_slice(&nonce.to_le_bytes());
    h
}

// Grind the nonce until the digest's top byte falls below the bound, so
// the header meets its own (easy) target.
fn mine(mut h: Vec<u8>, top: u8) -> Vec<u8> {
    for nonce in 0u32..200000 {
        h[76..80].copy_from_slice(&nonce.to_le_bytes());
        let d = digest(&h);
        if d[31] < top && d != [0u8; 32] {
            return h;
        }
    }
    panic!("no nonce met the target");
}

fn empty_info() -> HeaderInfo {
    HeaderInfo { digest: [0; 32], parent_index: 0, epoch_start_index: 0, height: 0 }
}

// A relay whose store holds the given records at external indices
// 0, 1, ..., with the record at `best` as the current tip.
fn synthetic_relay(records: &[HeaderInfo], best: u32) -> Relay {
    assert!(records.len() >= 2 && records.len() <= 4096);
    let mut slots = vec![empty_info(); 4096];
    for (i, r) in records.iter().enumerate() {
        slots[i] = *r;
    }
    Relay::from_parts(
        true,
        records[1],
        [0u8; 32],
        best,
        records[best as usize].digest,
        records[0].digest,
        slots,
        records.len(),
    )
    .unwrap()
}

#[test]
fn it_initializes_and_ingests_one_header() {
    // initialize with the genesis header claimed at height 500000; one
    // valid next header extends the chain to height 500001
    let genesis = unhex(GENESIS_HEX);
    let block1 = unhex(BLOCK1_HEX);
    let relay = Relay::new(true, &genesis, 500000, &[0u8; 32]);
    let mut relay = relay.unwrap();
    assert_eq!(relay.current_best_index, 1);
    assert_eq!(relay.best_known_digest, digest(&genesis));

    relay.add_headers(1, &genesis, &block1.clone()).unwrap();
    let idx = relay.find_digest(&digest(&block1)).unwrap();
    assert_eq!(idx, 2);
    let info = relay.read_metadata_store(2);
    assert_eq!(info.height, 500001);
    assert_eq!(info.parent_index, 1);
    assert_eq!(info.epoch_start_index, 0);
    assert_eq!(info.digest, digest(&block1));
}

#[test]
fn it_rejects_bad_genesis_input() {
    let genesis = unhex(GENESIS_HEX);
    // a header that is not 80 bytes is rejected outright
    let r = Relay::new(true, &genesis[..79], 500000, &[0u8; 32]);
    assert_eq!(r.err().unwrap(), RelayError::WrongLengthHeader);
    // a header whose digest does not end in four zero bytes lacks work
    let weak = header(&[9u8; 32], &[7u8; 32], 1234, 0x207fffff, 4);
    let r = Relay::new(true, &weak, 500000, &[0u8; 32]);
    assert_eq!(r.err().unwrap(), RelayError::InsufficientWork);
}

#[test]
fn it_rejects_wrong_anchor_digest_and_length() {
    let genesis = unhex(GENESIS_HEX);
    let block1 = unhex(BLOCK1_HEX);
    let mut relay = Relay::new(true, &genesis, 500000, &[0u8; 32]).unwrap();
    let before_best = relay.best_known_digest;

    // anchor bytes that do not match the stored record's digest
    let r = relay.add_headers(0, &genesis, &block1.clone());
    assert_eq!(r.err().unwrap(), RelayError::WrongDigest);

    // a header array that is not a multiple of 80 bytes
    let mut short = block1.clone();
    short.pop();
    let r = relay.add_headers(1, &genesis, &short);
    assert_eq!(r.err().unwrap(), RelayError::WrongLengthHeader);

    // failed calls leave the relay unchanged
    assert_eq!(relay.best_known_digest, before_best);
    assert_eq!(relay.current_best_index, 1);
    assert!(relay.find_digest(&digest(&block1)).is_none());
}

#[test]
fn it_rejects_broken_links_and_insufficient_work() {
    let genesis = unhex(GENESIS_HEX);
    let mut relay = Relay::new(true, &genesis, 500000, &[0u8; 32]).unwrap();

    // same target as the anchor but the digest misses it: no work
    let lazy = header(&digest(&genesis), &[7u8; 32], 1231469665, 0x1d00ffff, 1);
    let r = relay.add_headers(1, &genesis, &lazy);
    assert_eq!(r.err().unwrap(), RelayError::InsufficientWork);

    // two crafted headers whose internal linkage is broken
    let anchor = mine(header(&[1u8; 32], &[2u8; 32], 100, 0x207fffff, 0), 0x7f);
    let mut relay2 = synthetic_relay(
        &[
            empty_info(),
            HeaderInfo {
                digest: digest(&anchor),
                parent_index: u32::MAX,
                epoch_start_index: 0,
                height: 10,
            },
        ],
        1,
    );
    let h1 = mine(header(&digest(&anchor), &[3u8; 32], 101, 0x207fffff, 0), 0x7f);
    let h2 = mine(header(&[9u8; 32], &[4u8; 32], 102, 0x207fffff, 0), 0x7f);
    let mut bytes = h1.clone();
    bytes.extend_from_slice(&h2);
    let r = relay2.internal_add_headers(1, &anchor, &bytes, false);
    assert_eq!(r.err().unwrap(), RelayError::InvalidChain);
}

#[test]
fn it_rejects_target_changes_unless_internal() {
    // a target change on mainnet is refused on the public path but
    // accepted on the internal (retarget) path
    let anchor = mine(header(&[1u8; 32], &[2u8; 32], 100, 0x207fffff, 0), 0x7f);
    let anchor_info = HeaderInfo {
        digest: digest(&anchor),
        parent_index: u32::MAX,
        epoch_start_index: 0,
        height: 10,
    };
    let changed = mine(header(&digest(&anchor), &[3u8; 32], 101, 0x203fffff, 0), 0x3f);

    let mut relay = synthetic_relay(&[empty_info(), anchor_info], 1);
    let r = relay.internal_add_headers(1, &anchor, &changed.clone(), false);
    assert_eq!(r.err().unwrap(), RelayError::UnexpectedDifficultyChange);
    let r = relay.add_headers(1, &anchor, &changed.clone());
    assert_eq!(r.err().unwrap(), RelayError::UnexpectedDifficultyChange);

    let mut relay = synthetic_relay(&[empty_info(), anchor_info], 1);
    relay.internal_add_headers(1, &anchor, &changed.clone(), true).unwrap();
    let info = relay.read_metadata_store(2);
    assert_eq!(info.height, 11);
    assert_eq!(info.digest, digest(&changed));
}

#[test]
fn it_validates_difficulty_changes() {
    // Positive retargets need headers with real proof of work against a
    // realistic target, so the runtime cases here exercise the rejection
    // paths; acceptance of a correctly masked target is part of the
    // operation's verified contract.
    let t0 = 1_000_000u32;
    let t1 = t0 + 604_800;
    // a realistic (small) old target keeps the retarget arithmetic in range
    let start = header(&[1u8; 32], &[2u8; 32], t0, 0x1d00ffff, 7);
    let end = header(&[3u8; 32], &[4u8; 32], t1, 0x1d00ffff, 8);
    let records = [
        HeaderInfo {
            digest: digest(&start),
            parent_index: u32::MAX,
            epoch_start_index: 0,
            height: 0,
        },
        HeaderInfo {
            digest: digest(&end),
            parent_index: u32::MAX,
            epoch_start_index: 0,
            height: 2015,
        },
    ];

    // a next-period target that is no truncation of the halved target
    let off_target = header(&digest(&end), &[5u8; 32], t1 + 600, 0x207fffff, 0);
    let mut relay = synthetic_relay(&records, 1);
    let before = relay.best_known_digest;
    let r = relay.add_difficulty_change(&start, 1, &end, &off_target.clone());
    assert_eq!(r.err().unwrap(), RelayError::IncorrectDifficultyChange);
    assert_eq!(relay.best_known_digest, before);
    assert!(relay.find_digest(&digest(&off_target)).is_none());

    // keeping the old target is no truncation of the halved target either
    let stale = header(&digest(&end), &[5u8; 32], t1 + 600, 0x1d00ffff, 0);
    let mut relay = synthetic_relay(&records, 1);
    let r = relay.add_difficulty_change(&start, 1, &end, &stale);
    assert_eq!(r.err().unwrap(), RelayError::IncorrectDifficultyChange);

    // an anchor that does not close an epoch is refused
    let mut records_off = records;
    records_off[1].height = 2014;
    records_off[0].height = 0;
    let mut relay = synthetic_relay(&[records_off[0], records_off[1]], 1);
    let r = relay.add_difficulty_change(&start, 1, &end, &off_target.clone());
    assert_eq!(r.err().unwrap(), RelayError::WrongEnd);

    // digest mismatches on either boundary header are refused
    let mut relay = synthetic_relay(&records, 1);
    let r = relay.add_difficulty_change(&end, 1, &end, &off_target.clone());
    assert_eq!(r.err().unwrap(), RelayError::WrongDigest);
    let r = relay.add_difficulty_change(&start, 1, &start, &off_target.clone());
    assert_eq!(r.err().unwrap(), RelayError::WrongDigest);
}

#[test]
fn epoch_start_references_follow_the_quirk() {
    // records extended across an epoch boundary without a target change:
    // the boundary record inherits the old epoch start, the next record
    // points at the boundary record
    let anchor = mine(header(&[1u8; 32], &[2u8; 32], 100, 0x207fffff, 0), 0x7f);
    let records = [
        HeaderInfo { digest: [9u8; 32], parent_index: u32::MAX, epoch_start_index: 0, height: 0 },
        HeaderInfo {
            digest: digest(&anchor),
            parent_index: u32::MAX,
            epoch_start_index: 0,
            height: 2015,
        },
    ];
    let h1 = mine(header(&digest(&anchor), &[5u8; 32], 200, 0x207fffff, 0), 0x7f);
    let h2 = mine(header(&digest(&h1), &[6u8; 32], 300, 0x207fffff, 0), 0x7f);
    let h3 = mine(header(&digest(&h2), &[7u8; 32], 400, 0x207fffff, 0), 0x7f);
    let mut bytes = h1.clone();
    bytes.extend_from_slice(&h2);
    bytes.extend_from_slice(&h3);
    let mut relay = synthetic_relay(&records, 1);
    relay.add_headers(1, &anchor, &bytes).unwrap();

    let b2016 = relay.read_metadata_store(2);
    let b2017 = relay.read_metadata_store(3);
    let b2018 = relay.read_metadata_store(4);
    // height 2016 opens the new epoch but still points at the old start
    assert_eq!(b2016.height, 2016);
    assert_eq!(b2016.epoch_start_index, 0);
    // height 2017 points at the record of height 2016
    assert_eq!(b2017.height, 2017);
    assert_eq!(b2017.epoch_start_index, 2);
    assert_eq!(b2018.epoch_start_index, 2);
    // parent links decrease the height by one per hop
    assert_eq!(relay.parent_of(&b2018).height, 2017);
    assert_eq!(relay.parent_of(&b2017).height, 2016);
    assert_eq!(relay.ancestor_of(&b2018, 2).height, 2016);
}
