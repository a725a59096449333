use relay_core::HeaderInfo;
use relay_core::Relay;
use relay_core::RelayError;

fn digest(h: &[u8]) -> [u8; 32] {
    *bitcoin_spv::types::RawHeader::new(&h).unwrap().digest().as_ref()
}

fn header(prev: &[u8; 32], merkle: &[u8; 32], time: u32, bits: u32, nonce: u32) -> Vec<u8> {
    let mut h = vec![0u8; 80];
    h[0] = 1;
    h[4..36].copy_from_slice(prev);
    h[36..68].copy_from_slice(merkle);
    h[68..72].copy_from_slice(&time.to_le_bytes());
    h[72..76].copy_from_slice(&bits.to_le_bytes());
    h[76..80].copy_from_slice(&nonce.to_le_bytes());
    h
}

fn empty_info() -> HeaderInfo {
    HeaderInfo { digest: [0; 32], parent_index: 0, epoch_start_index: 0, height: 0 }
}

fn info(raw: &[u8], parent_index: u32, height: u32) -> HeaderInfo {
    HeaderInfo { digest: digest(raw), parent_index, epoch_start_index: 0, height }
}

fn synthetic_relay(records: &[HeaderInfo], best: u32) -> Relay {
    assert!(records.len() >= 2 && records.len() <= 4096);
    let mut slots = vec![empty_info(); 4096];
    for (i, r) in records.iter().enumerate() {
        slots[i] = *r;
    }
    Relay::from_parts(
        true,
        records[1],
        [0u8; 32],
        best,
        records[best as usize].digest,
        records[0].digest,
        slots,
        records.len(),
    )
    .unwrap()
}

#[test]
fn within_one_epoch_the_higher_tip_wins() {
    // two one-block extensions of the same parent within one epoch: the
    // higher wins, the equal or lower one is rejected as not heavier
    let anc = header(&[1u8; 32], &[0u8; 32], 1, 0x207fffff, 0);
    let left = header(&digest(&anc), &[2u8; 32], 2, 0x207fffff, 0);
    let mid = header(&digest(&anc), &[3u8; 32], 3, 0x207fffff, 0);
    let right = header(&digest(&mid), &[4u8; 32], 4, 0x207fffff, 0);
    let records = [
        empty_info(),
        info(&anc, u32::MAX, 10),
        info(&left, 1, 11),
        info(&mid, 1, 11),
        info(&right, 3, 12),
    ];

    // higher tip: promoted
    let mut relay = synthetic_relay(&records, 2);
    relay.mark_new_heaviest(1, &left, 4, &right).unwrap();
    assert_eq!(relay.current_best_index, 4);
    assert_eq!(relay.best_known_digest, digest(&right));
    assert_eq!(relay.last_reorg_lca, digest(&anc));

    // lower tip: rejected, relay untouched
    let mut relay = synthetic_relay(&records, 4);
    let r = relay.mark_new_heaviest(1, &right, 2, &left);
    assert_eq!(r.err().unwrap(), RelayError::NotHeavier);
    assert_eq!(relay.current_best_index, 4);
    assert_eq!(relay.best_known_digest, digest(&right));

    // equal-height tip: rejected
    let mut relay = synthetic_relay(&records, 2);
    let r = relay.mark_new_heaviest(1, &left, 3, &mid);
    assert_eq!(r.err().unwrap(), RelayError::NotHeavier);
}

#[test]
fn crossing_into_a_new_epoch_beats_height() {
    // a branch that crossed the epoch boundary beats one that did not,
    // regardless of height
    let anc = header(&[1u8; 32], &[0u8; 32], 1, 0x207fffff, 0);
    let tall = header(&digest(&anc), &[2u8; 32], 2, 0x207fffff, 0);
    let crossed = header(&digest(&anc), &[3u8; 32], 3, 0x207fffff, 0);
    let records = [
        empty_info(),
        info(&anc, u32::MAX, 2000),
        info(&tall, 1, 2015),
        info(&crossed, 1, 2016),
    ];

    let mut relay = synthetic_relay(&records, 2);
    relay.mark_new_heaviest(1, &tall, 3, &crossed).unwrap();
    assert_eq!(relay.current_best_index, 3);

    let mut relay = synthetic_relay(&records, 3);
    let r = relay.mark_new_heaviest(1, &crossed, 2, &tall);
    assert_eq!(r.err().unwrap(), RelayError::NotHeavier);
}

#[test]
fn past_the_boundary_the_weight_formula_decides() {
    // both branches crossed: height-within-epoch times per-header
    // difficulty decides, and a tie keeps the incumbent
    let anc = header(&[1u8; 32], &[0u8; 32], 1, 0x207fffff, 0);
    // difficulty 1 (the difficulty-one target), 14 headers into the epoch
    let light = header(&digest(&anc), &[2u8; 32], 2, 0x1d00ffff, 0);
    // difficulty 256, only 4 headers into the epoch: weight 1024
    let heavy = header(&digest(&anc), &[3u8; 32], 3, 0x1c00ffff, 0);
    // difficulty 1 at the same height as `light`: an exact tie
    let peer = header(&digest(&anc), &[4u8; 32], 4, 0x1d00ffff, 0);
    let records = [
        empty_info(),
        info(&anc, u32::MAX, 2000),
        info(&light, 1, 2030),
        info(&heavy, 1, 2020),
        info(&peer, 1, 2030),
    ];

    // the shorter but heavier branch wins on weight
    let mut relay = synthetic_relay(&records, 2);
    relay.mark_new_heaviest(1, &light, 3, &heavy).unwrap();
    assert_eq!(relay.current_best_index, 3);

    // same weight on both sides: the incumbent stays
    let mut relay = synthetic_relay(&records, 2);
    let r = relay.mark_new_heaviest(1, &light, 4, &peer);
    assert_eq!(r.err().unwrap(), RelayError::NotHeavier);

    // the heavier incumbent cannot be replaced by the lighter branch
    let mut relay = synthetic_relay(&records, 3);
    let r = relay.mark_new_heaviest(1, &heavy, 2, &light);
    assert_eq!(r.err().unwrap(), RelayError::NotHeavier);
}

#[test]
fn a_stale_common_ancestor_is_rejected() {
    // the two candidates meet at a nearer record than the claimed
    // ancestor, which is discoverable within the walk bound
    let anc = header(&[1u8; 32], &[0u8; 32], 1, 0x207fffff, 0);
    let mid = header(&digest(&anc), &[2u8; 32], 2, 0x207fffff, 0);
    let left = header(&digest(&mid), &[3u8; 32], 3, 0x207fffff, 0);
    let right = header(&digest(&mid), &[4u8; 32], 4, 0x207fffff, 0);
    let records = [
        empty_info(),
        info(&anc, u32::MAX, 10),
        info(&mid, 1, 11),
        info(&left, 2, 12),
        info(&right, 2, 13),
    ];

    let mut relay = synthetic_relay(&records, 3);
    let r = relay.mark_new_heaviest(1, &left, 4, &right);
    assert_eq!(r.err().unwrap(), RelayError::NotLatestAncestor);

    // with the true nearest ancestor the same promotion goes through
    let mut relay = synthetic_relay(&records, 3);
    relay.mark_new_heaviest(2, &left, 4, &right).unwrap();
    assert_eq!(relay.current_best_index, 4);
    assert_eq!(relay.last_reorg_lca, digest(&mid));
}

#[test]
fn identical_tips_are_not_heavier() {
    let anc = header(&[1u8; 32], &[0u8; 32], 1, 0x207fffff, 0);
    let records = [empty_info(), info(&anc, u32::MAX, 10)];
    let mut relay = synthetic_relay(&records, 1);
    let r = relay.mark_new_heaviest(1, &anc, 1, &anc);
    assert_eq!(r.err().unwrap(), RelayError::NotHeavier);
}

#[test]
fn mark_new_heaviest_checks_digests() {
    let anc = header(&[1u8; 32], &[0u8; 32], 1, 0x207fffff, 0);
    let left = header(&digest(&anc), &[2u8; 32], 2, 0x207fffff, 0);
    let right = header(&digest(&anc), &[3u8; 32], 3, 0x207fffff, 0);
    let records =
        [empty_info(), info(&anc, u32::MAX, 10), info(&left, 1, 11), info(&right, 1, 12)];
    let mut relay = synthetic_relay(&records, 2);
    // new-best bytes that do not hash to the stored record
    let r = relay.mark_new_heaviest(1, &left, 3, &left);
    assert_eq!(r.err().unwrap(), RelayError::WrongDigest);
    // current-best bytes that do not hash to the stored tip
    let r = relay.mark_new_heaviest(1, &right, 3, &right);
    assert_eq!(r.err().unwrap(), RelayError::WrongDigest);
    assert_eq!(relay.current_best_index, 2);
}
