//! The Bitcoin relay state machine.
//!
//! A [`Relay`] keeps the metadata of the most recent headers in a bounded
//! store, extends the known chain after validating new headers, checks
//! difficulty retargets at epoch boundaries, promotes heavier chain tips,
//! and evaluates SPV confirmation proofs against the current tip.

use crate::error::RelayError;
use crate::fake_vec::FakeVec;
use crate::header::chunk;
use crate::header::digests_equal;
use crate::header::header_prev_hash;
use crate::header::header_target;
use crate::header::num_chunks;
use crate::header::target_representable;
use crate::header::targets_equal;
use crate::spv::chain_valid;
use crate::spv::digest_of;
use crate::spv::header_digest;
use crate::spv::links_ok;
use crate::spv::targets_uniform;
use crate::spv::validate_chain;
use crate::spv::work_ok;
use vstd::prelude::*;

verus! {

/// The number of header records the relay retains.
pub const RELAY_CAPACITY: usize = 4096;

/// The sentinel parent index of the two bootstrap records. No record is
/// ever stored at this index, so a walk past the bootstrap fails loudly.
pub const SENTINEL_INDEX: u32 = 0xffff_ffff;

/// Information about one accepted header.
#[derive(Clone, Copy)]
pub struct HeaderInfo {
    /// The digest of the header, little-endian.
    pub digest: [u8; 32],
    /// The external index of the parent record in the store.
    pub parent_index: u32,
    /// The external index of the record opening this record's epoch.
    pub epoch_start_index: u32,
    /// The height of the header.
    pub height: u32,
}

/// Field-wise equality of two header records.
pub open spec fn info_eq(a: HeaderInfo, b: HeaderInfo) -> bool {
    &&& a.digest@ == b.digest@
    &&& a.parent_index == b.parent_index
    &&& a.epoch_start_index == b.epoch_start_index
    &&& a.height == b.height
}

impl PartialEq for HeaderInfo {
    fn eq(&self, other: &HeaderInfo) -> (r: bool) {
        digests_equal(&self.digest, &other.digest) && self.parent_index == other.parent_index
            && self.epoch_start_index == other.epoch_start_index && self.height
            == other.height
    }
}

impl vstd::std_specs::cmp::PartialEqSpecImpl for HeaderInfo {
    open spec fn obeys_eq_spec() -> bool {
        true
    }

    open spec fn eq_spec(&self, other: &HeaderInfo) -> bool {
        info_eq(*self, *other)
    }
}

/// A raw header together with its stored record.
pub struct RawWithInfo {
    /// The 80 raw header bytes.
    pub raw: Vec<u8>,
    /// The record found for them in the store.
    pub info: HeaderInfo,
}

/// The first height of the epoch containing height `h`.
pub open spec fn epoch_base(h: int) -> int {
    h - (h % 2016)
}

/// A Bitcoin relay.
///
/// The relay tracks the most recent `RELAY_CAPACITY` header records. Rather
/// than querying anything, it passively accepts proofs of chain updates,
/// validates them, and folds them into its bounded store.
pub struct Relay {
    /// Whether mainnet difficulty rules are enforced.
    pub mainnet: bool,
    /// The trusted genesis record the relay was seeded with.
    pub relay_genesis: HeaderInfo,
    /// The digest of the header opening the pre-genesis epoch.
    pub pre_genesis_epoch_start: [u8; 32],
    /// The index of the current best-known header in the store.
    pub current_best_index: u32,
    /// The digest of the chain tip.
    pub best_known_digest: [u8; 32],
    /// The latest common ancestor of the most recent reorg or extension.
    pub last_reorg_lca: [u8; 32],
    /// The bounded store of header records.
    pub header_store: FakeVec<HeaderInfo>,
}

impl Relay {
    /// The full push history of the store: every record ever accepted,
    /// indexed by external index.
    pub open spec fn hist(&self) -> Seq<HeaderInfo> {
        self.header_store@
    }

    /// Whether a record index is still retained.
    pub open spec fn retained(&self, index: int) -> bool {
        self.header_store.spec_retained(index)
    }

    /// The relay is well formed: the store is well formed with the fixed
    /// capacity, holds the two bootstrap records, and the current best
    /// index resolves to a retained record carrying the best known digest.
    pub open spec fn wf(&self) -> bool {
        &&& self.header_store.wf()
        &&& self.header_store.spec_capacity() == RELAY_CAPACITY
        &&& self.hist().len() >= 2
        &&& self.retained(self.current_best_index as int)
        &&& self.hist()[self.current_best_index as int].digest@ == self.best_known_digest@
    }

    /// The digest's trailing four bytes, which a plausible mainnet header
    /// digest leaves at zero.
    pub open spec fn spec_sufficient_work(d: Seq<u8>) -> bool {
        d.len() == 32 && d[28] == 0 && d[29] == 0 && d[30] == 0 && d[31] == 0
    }

    /// Instantiate a new relay from a trusted genesis state.
    ///
    /// The genesis header anchors the relay; `epoch_start_digest` names the
    /// header that opened the difficulty epoch containing it. Two bootstrap
    /// records are seeded: a pseudo-record for the epoch start at index 0,
    /// and the genesis record at index 1.
    pub fn new(
        mainnet: bool,
        genesis_header: &[u8],
        genesis_height: u32,
        epoch_start_digest: &[u8; 32],
    ) -> (r: Result<Relay, RelayError>)
        ensures
            r is Ok <==> genesis_header@.len() == 80 && Self::spec_sufficient_work(
                digest_of(genesis_header@),
            ),
            r matches Err(e) ==> (e == RelayError::WrongLengthHeader <==> genesis_header@.len()
                != 80),
            r matches Err(e) ==> (e == RelayError::InsufficientWork <==> genesis_header@.len()
                == 80),
            r matches Ok(relay) ==> {
                &&& relay.wf()
                &&& relay.mainnet == mainnet
                &&& relay.hist().len() == 2
                &&& relay.hist()[0].digest@ == epoch_start_digest@
                &&& relay.hist()[0].parent_index == SENTINEL_INDEX
                &&& relay.hist()[0].epoch_start_index == 0
                &&& relay.hist()[0].height == genesis_height - (genesis_height % 2016)
                &&& relay.hist()[1].digest@ == digest_of(genesis_header@)
                &&& relay.hist()[1].parent_index == SENTINEL_INDEX
                &&& relay.hist()[1].epoch_start_index == 0
                &&& relay.hist()[1].height == genesis_height
                &&& relay.current_best_index == 1
                &&& relay.best_known_digest@ == digest_of(genesis_header@)
                &&& relay.last_reorg_lca@ == digest_of(genesis_header@)
                &&& relay.relay_genesis == relay.hist()[1]
                &&& relay.pre_genesis_epoch_start@ == epoch_start_digest@
            },
    {
        if genesis_header.len() != 80 {
            return Err(RelayError::WrongLengthHeader);
        }
        let genesis_digest = header_digest(genesis_header);
        if genesis_digest[28] != 0 || genesis_digest[29] != 0 || genesis_digest[30] != 0
            || genesis_digest[31] != 0 {
            return Err(RelayError::InsufficientWork);
        }
        let epoch_start = HeaderInfo {
            digest: *epoch_start_digest,
            parent_index: SENTINEL_INDEX,
            epoch_start_index: 0,
            height: genesis_height - (genesis_height % 2016),
        };
        let genesis_info = HeaderInfo {
            digest: genesis_digest,
            parent_index: SENTINEL_INDEX,
            epoch_start_index: 0,
            height: genesis_height,
        };
        let fill = HeaderInfo { digest: [0; 32], parent_index: 0, epoch_start_index: 0, height: 0 };
        let mut header_store: FakeVec<HeaderInfo> = FakeVec::new(RELAY_CAPACITY, fill);
        header_store.push(epoch_start);
        header_store.push(genesis_info);
        Ok(
            Relay {
                mainnet,
                relay_genesis: genesis_info,
                pre_genesis_epoch_start: *epoch_start_digest,
                current_best_index: 1,
                best_known_digest: genesis_digest,
                last_reorg_lca: genesis_digest,
                header_store,
            },
        )
    }

    /// Read the record stored at an index.
    ///
    /// The index must resolve to a retained record: an unretained index
    /// signals corrupted caller input, not an expected outcome.
    pub fn read_metadata_store(&self, index: u32) -> (r: HeaderInfo)
        requires
            self.wf(),
            self.retained(index as int),
        ensures
            r == self.hist()[index as int],
    {
        *self.header_store.get(index as usize).unwrap()
    }

    /// Associate a raw header with its stored record, checking the digest.
    pub fn load_header(&self, index: u32, raw: &[u8]) -> (r: Result<RawWithInfo, RelayError>)
        requires
            self.wf(),
            raw@.len() == 80,
            self.retained(index as int),
        ensures
            r is Ok <==> digest_of(raw@) == self.hist()[index as int].digest@,
            r matches Ok(w) ==> w.info == self.hist()[index as int] && w.raw@ == raw@,
            r matches Err(e) ==> e == RelayError::WrongDigest,
    {
        let info = self.read_metadata_store(index);
        let digest = header_digest(raw);
        if !digests_equal(&info.digest, &digest) {
            return Err(RelayError::WrongDigest);
        }
        Ok(RawWithInfo { raw: vstd::slice::slice_to_vec(raw), info })
    }

    /// Whether a `depth`-hop parent walk from `start` stays on retained
    /// records whose heights decrease by one per hop.
    pub open spec fn walk_ok(&self, start: HeaderInfo, depth: nat) -> bool
        decreases depth,
    {
        depth == 0 || {
            &&& self.retained(start.parent_index as int)
            &&& self.hist()[start.parent_index as int].height + 1 == start.height
            &&& self.walk_ok(self.hist()[start.parent_index as int], (depth - 1) as nat)
        }
    }

    /// The record reached by a `depth`-hop parent walk from `start`.
    pub open spec fn walk(&self, start: HeaderInfo, depth: nat) -> HeaderInfo
        decreases depth,
    {
        if depth == 0 {
            start
        } else {
            self.walk(self.hist()[start.parent_index as int], (depth - 1) as nat)
        }
    }

    /// Read the stored record of the parent of a header.
    ///
    /// The parent must be retained and one height below: a violation means
    /// the store is corrupted.
    pub fn parent_of(&self, info: &HeaderInfo) -> (r: HeaderInfo)
        requires
            self.wf(),
            self.retained(info.parent_index as int),
            self.hist()[info.parent_index as int].height + 1 == info.height,
        ensures
            r == self.hist()[info.parent_index as int],
            r.height + 1 == info.height,
    {
        self.read_metadata_store(info.parent_index)
    }

    /// Read the stored record of the `depth`-th ancestor of a header.
    ///
    /// This makes one store lookup per hop.
    pub fn ancestor_of(&self, info: &HeaderInfo, depth: u32) -> (r: HeaderInfo)
        requires
            self.wf(),
            self.walk_ok(*info, depth as nat),
        ensures
            r == self.walk(*info, depth as nat),
    {
        let mut current: HeaderInfo = *info;
        let mut i: u32 = 0;
        while i < depth
            invariant
                self.wf(),
                i <= depth,
                self.walk_ok(current, (depth - i) as nat),
                self.walk(*info, depth as nat) == self.walk(current, (depth - i) as nat),
            decreases depth - i,
        {
            current = self.parent_of(&current);
            i = i + 1;
        }
        current
    }
}


/// The epoch-start index of the `j`-th record attached to an anchor.
///
/// It points at the most recent record at an epoch-opening height among the
/// new records, or inherits the anchor's own epoch start before the first
/// boundary. A record at an epoch-opening height therefore still points at
/// the previous epoch's start.
pub open spec fn spec_attach_esi(anchor: HeaderInfo, anchor_index: int, j: int) -> int {
    let base = epoch_base(anchor.height + j);
    if base > anchor.height {
        anchor_index + (base - anchor.height)
    } else {
        anchor.epoch_start_index as int
    }
}

/// The fields of the `j`-th record attached to an anchor.
pub open spec fn spec_attached_rec(
    old_hist: Seq<HeaderInfo>,
    anchor_index: int,
    bytes: Seq<u8>,
    j: int,
    r: HeaderInfo,
) -> bool {
    let anchor = old_hist[anchor_index];
    &&& r.digest@ == digest_of(chunk(bytes, j))
    &&& r.parent_index == anchor_index + j
    &&& r.height == anchor.height + 1 + j
    &&& r.epoch_start_index == spec_attach_esi(anchor, anchor_index, j)
}

/// The store history after attaching a packed header array to an anchor:
/// the old history, extended by one record per header.
pub open spec fn spec_attached(
    old_hist: Seq<HeaderInfo>,
    new_hist: Seq<HeaderInfo>,
    anchor_index: int,
    bytes: Seq<u8>,
) -> bool {
    &&& new_hist.len() == old_hist.len() + num_chunks(bytes)
    &&& forall|i: int| 0 <= i < old_hist.len() ==> new_hist[i] == old_hist[i]
    &&& forall|j: int|
        0 <= j < num_chunks(bytes) ==> spec_attached_rec(
            old_hist,
            anchor_index,
            bytes,
            j,
            #[trigger] new_hist[old_hist.len() + j],
        )
}

impl Relay {
    /// Whether a packed header array parses: its length must be a multiple
    /// of 80 bytes.
    pub open spec fn spec_parse_ok(b: Seq<u8>) -> bool {
        b.len() % 80 == 0
    }

    /// Whether the first new header's target is acceptable: a change from
    /// the anchor's target is rejected on mainnet unless the call comes
    /// from the retarget path.
    pub open spec fn spec_target_ok(
        &self,
        internal: bool,
        anchor_bytes: Seq<u8>,
        b: Seq<u8>,
    ) -> bool {
        internal || !self.mainnet || header_target(chunk(b, 0)) == header_target(anchor_bytes)
    }

    /// What must hold of a header array that reaches validation and
    /// attachment: representable targets for the library's 256-bit
    /// arithmetic, linkage of the first header to the stored anchor record,
    /// room in the index and height spaces, and a current best record that
    /// stays retained.
    pub open spec fn spec_attach_safe(&self, anchor_index: int, b: Seq<u8>) -> bool {
        &&& forall|i: int|
            0 <= i < num_chunks(b) ==> target_representable(#[trigger] chunk(b, i))
        &&& header_prev_hash(chunk(b, 0)) == self.hist()[anchor_index].digest@
        &&& self.hist()[anchor_index].height + num_chunks(b) < u32::MAX
        &&& anchor_index + num_chunks(b) <= u32::MAX
        &&& self.current_best_index + RELAY_CAPACITY >= self.hist().len() + num_chunks(b)
    }

    /// Append one record per validated header, chaining sequentially from
    /// the anchor.
    ///
    /// Heights increase by one per header. The epoch-start back-reference
    /// is inherited from the anchor until a record at an epoch-opening
    /// height is pushed; records after it point there.
    fn attach_to_store(&mut self, anchor_index: u32, header_bytes: &Vec<u8>)
        requires
            old(self).wf(),
            old(self).retained(anchor_index as int),
            header_bytes@.len() % 80 == 0,
            header_bytes@.len() >= 80,
            old(self).hist().len() + num_chunks(header_bytes@) <= usize::MAX,
            header_prev_hash(chunk(header_bytes@, 0)) == old(self).hist()[
                anchor_index as int
            ].digest@,
            old(self).hist()[anchor_index as int].height + num_chunks(header_bytes@)
                < u32::MAX,
            anchor_index + num_chunks(header_bytes@) <= u32::MAX,
            old(self).current_best_index + RELAY_CAPACITY >= old(self).hist().len()
                + num_chunks(header_bytes@),
        ensures
            final(self).wf(),
            spec_attached(
                old(self).hist(),
                final(self).hist(),
                anchor_index as int,
                header_bytes@,
            ),
            final(self).mainnet == old(self).mainnet,
            final(self).relay_genesis == old(self).relay_genesis,
            final(self).pre_genesis_epoch_start == old(self).pre_genesis_epoch_start,
            final(self).current_best_index == old(self).current_best_index,
            final(self).best_known_digest == old(self).best_known_digest,
            final(self).last_reorg_lca == old(self).last_reorg_lca,
            final(self).header_store.spec_capacity() == old(
                self,
            ).header_store.spec_capacity(),
    {
        let ghost old_hist = old(self).hist();
        let ghost a = anchor_index as int;
        let anchor = self.read_metadata_store(anchor_index);
        let n = header_bytes.len() / 80;
        proof {
            vstd::arithmetic::div_mod::lemma_fundamental_div_mod(header_bytes@.len() as int, 80);
        }
        let mut parent_index: u32 = anchor_index;
        let mut height: u32 = anchor.height + 1;
        let mut epoch_start_index: u32 = anchor.epoch_start_index;
        let mut k: usize = 0;
        while k < n
            invariant
                self.wf(),
                k <= n,
                n == num_chunks(header_bytes@),
                header_bytes@.len() == 80 * n,
                header_bytes@.len() <= usize::MAX,
                n >= 1,
                anchor == old_hist[a],
                0 <= a < old_hist.len(),
                a + n <= u32::MAX,
                anchor.height + n < u32::MAX,
                old_hist.len() + n <= usize::MAX,
                old(self).current_best_index + RELAY_CAPACITY >= old_hist.len() + n,
                self.hist().len() == old_hist.len() + k,
                forall|i: int| 0 <= i < old_hist.len() ==> self.hist()[i] == old_hist[i],
                forall|j: int|
                    0 <= j < k ==> spec_attached_rec(
                        old_hist,
                        a,
                        header_bytes@,
                        j,
                        #[trigger] self.hist()[old_hist.len() + j],
                    ),
                parent_index == a + k,
                height == anchor.height + 1 + k,
                epoch_start_index == spec_attach_esi(anchor, a, k as int),
                self.mainnet == old(self).mainnet,
                self.relay_genesis == old(self).relay_genesis,
                self.pre_genesis_epoch_start == old(self).pre_genesis_epoch_start,
                self.current_best_index == old(self).current_best_index,
                self.best_known_digest == old(self).best_known_digest,
                self.last_reorg_lca == old(self).last_reorg_lca,
                self.header_store.spec_capacity() == RELAY_CAPACITY,
            decreases n - k,
        {
            proof {
                vstd::arithmetic::mul::lemma_mul_inequality(k as int + 1, n as int, 80);
            }
            let chunk_bytes = vstd::slice::slice_subrange(
                header_bytes.as_slice(),
                80 * k,
                80 * k + 80,
            );
            proof {
                assert(chunk_bytes@ =~= chunk(header_bytes@, k as int));
            }
            let digest = header_digest(chunk_bytes);
            self.header_store.push(
                HeaderInfo { digest, parent_index, epoch_start_index, height },
            );
            parent_index = parent_index + 1;
            height = height + 1;
            if height % 2016 == 1 {
                epoch_start_index = parent_index;
            }
            proof {
                let h = anchor.height as int;
                // the epoch base steps only when a boundary record was pushed
                if (h + 2 + k) % 2016 == 1 {
                    assert((h + 1 + k) % 2016 == 0);
                    assert(epoch_base(h + 1 + k) == h + 1 + k);
                } else {
                    assert((h + 1 + k) % 2016 != 0);
                    assert(epoch_base(h + 1 + k) == epoch_base(h + k)) by {
                        lemma_epoch_base_step(h + k);
                    }
                }
            }
            k = k + 1;
        }
    }
}


impl Relay {
    /// Validate a chain of headers against an anchor record and attach it.
    ///
    /// The anchor must immediately precede the first header of the chain.
    /// Unless `internal` is set (the retarget path) or the relay is off
    /// mainnet, the first header must carry the anchor's target. Per-header
    /// proof-of-work and linkage validation is delegated to the
    /// header-validation library; on success one record per header is
    /// appended, chaining sequentially from the anchor.
    pub fn internal_add_headers(
        &mut self,
        anchor_index: u32,
        anchor_bytes: &[u8],
        header_bytes: &Vec<u8>,
        internal: bool,
    ) -> (r: Result<(), RelayError>)
        requires
            old(self).wf(),
            anchor_bytes@.len() == 80,
            old(self).retained(anchor_index as int),
            header_bytes@.len() > 0,
            old(self).hist().len() + num_chunks(header_bytes@) <= usize::MAX,
            (Self::spec_parse_ok(header_bytes@) && old(self).spec_target_ok(
                internal,
                anchor_bytes@,
                header_bytes@,
            )) ==> old(self).spec_attach_safe(anchor_index as int, header_bytes@),
        ensures
            final(self).wf(),
            r is Err ==> *final(self) == *old(self),
            r is Ok <==> {
                &&& digest_of(anchor_bytes@) == old(self).hist()[anchor_index as int].digest@
                &&& Self::spec_parse_ok(header_bytes@)
                &&& old(self).spec_target_ok(internal, anchor_bytes@, header_bytes@)
                &&& chain_valid(header_bytes@)
            },
            r is Ok ==> spec_attached(
                old(self).hist(),
                final(self).hist(),
                anchor_index as int,
                header_bytes@,
            ),
            r is Ok ==> final(self).mainnet == old(self).mainnet && final(self).relay_genesis
                == old(self).relay_genesis && final(self).pre_genesis_epoch_start == old(
                self,
            ).pre_genesis_epoch_start && final(self).current_best_index == old(
                self,
            ).current_best_index && final(self).best_known_digest == old(
                self,
            ).best_known_digest && final(self).last_reorg_lca == old(self).last_reorg_lca,
            (r == Err::<(), RelayError>(RelayError::WrongDigest)) <==> digest_of(anchor_bytes@)
                != old(self).hist()[anchor_index as int].digest@,
            (r == Err::<(), RelayError>(RelayError::WrongLengthHeader)) <==> (digest_of(
                anchor_bytes@,
            ) == old(self).hist()[anchor_index as int].digest@
                && !Self::spec_parse_ok(header_bytes@)),
            (r == Err::<(), RelayError>(RelayError::UnexpectedDifficultyChange)) ==> (!old(
                self,
            ).spec_target_ok(internal, anchor_bytes@, header_bytes@) || !targets_uniform(
                header_bytes@,
            )),
            (digest_of(anchor_bytes@) == old(self).hist()[anchor_index as int].digest@
                && Self::spec_parse_ok(header_bytes@) && !old(self).spec_target_ok(
                internal,
                anchor_bytes@,
                header_bytes@,
            )) ==> r == Err::<(), RelayError>(RelayError::UnexpectedDifficultyChange),
            (r == Err::<(), RelayError>(RelayError::InvalidChain)) ==> !links_ok(header_bytes@),
            (r == Err::<(), RelayError>(RelayError::InsufficientWork)) ==> !work_ok(
                header_bytes@,
            ),
            r matches Err(e) ==> (e == RelayError::WrongDigest || e
                == RelayError::WrongLengthHeader || e == RelayError::UnexpectedDifficultyChange
                || e == RelayError::InvalidChain || e == RelayError::InsufficientWork),
    {
        let anchor = match self.load_header(anchor_index, anchor_bytes) {
            Ok(a) => a,
            Err(e) => return Err(e),
        };
        if header_bytes.len() % 80 != 0 {
            return Err(RelayError::WrongLengthHeader);
        }
        proof {
            vstd::arithmetic::div_mod::lemma_fundamental_div_mod(
                header_bytes@.len() as int,
                80,
            );
        }
        let first = vstd::slice::slice_subrange(header_bytes.as_slice(), 0, 80);
        proof {
            assert(first@ =~= chunk(header_bytes@, 0));
        }
        if !internal && self.mainnet && !targets_equal(first, anchor_bytes) {
            return Err(RelayError::UnexpectedDifficultyChange);
        }
        match validate_chain(header_bytes.as_slice()) {
            Ok(_) => {},
            Err(e) => {
                return Err(e);
            },
        }
        self.attach_to_store(anchor_index, header_bytes);
        Ok(())
    }

    /// Add headers to the relay.
    ///
    /// This validates a chain of headers and its connection to an
    /// already-stored anchor header, enforcing Bitcoin consensus rules
    /// under the SPV assumption, and then attaches the header records to
    /// the store. The anchor must immediately precede the first header.
    pub fn add_headers(
        &mut self,
        anchor_index: u32,
        anchor_bytes: &[u8],
        header_bytes: &Vec<u8>,
    ) -> (r: Result<(), RelayError>)
        requires
            old(self).wf(),
            anchor_bytes@.len() == 80,
            old(self).retained(anchor_index as int),
            header_bytes@.len() > 0,
            old(self).hist().len() + num_chunks(header_bytes@) <= usize::MAX,
            (Self::spec_parse_ok(header_bytes@) && old(self).spec_target_ok(
                false,
                anchor_bytes@,
                header_bytes@,
            )) ==> old(self).spec_attach_safe(anchor_index as int, header_bytes@),
        ensures
            final(self).wf(),
            r is Err ==> *final(self) == *old(self),
            r is Ok <==> {
                &&& digest_of(anchor_bytes@) == old(self).hist()[anchor_index as int].digest@
                &&& Self::spec_parse_ok(header_bytes@)
                &&& old(self).spec_target_ok(false, anchor_bytes@, header_bytes@)
                &&& chain_valid(header_bytes@)
            },
            r is Ok ==> spec_attached(
                old(self).hist(),
                final(self).hist(),
                anchor_index as int,
                header_bytes@,
            ),
            r is Ok ==> final(self).mainnet == old(self).mainnet && final(self).relay_genesis
                == old(self).relay_genesis && final(self).pre_genesis_epoch_start == old(
                self,
            ).pre_genesis_epoch_start && final(self).current_best_index == old(
                self,
            ).current_best_index && final(self).best_known_digest == old(
                self,
            ).best_known_digest && final(self).last_reorg_lca == old(self).last_reorg_lca,
            (r == Err::<(), RelayError>(RelayError::WrongDigest)) <==> digest_of(anchor_bytes@)
                != old(self).hist()[anchor_index as int].digest@,
            (r == Err::<(), RelayError>(RelayError::WrongLengthHeader)) <==> (digest_of(
                anchor_bytes@,
            ) == old(self).hist()[anchor_index as int].digest@
                && !Self::spec_parse_ok(header_bytes@)),
            (r == Err::<(), RelayError>(RelayError::UnexpectedDifficultyChange)) ==> (!old(
                self,
            ).spec_target_ok(false, anchor_bytes@, header_bytes@) || !targets_uniform(
                header_bytes@,
            )),
            (digest_of(anchor_bytes@) == old(self).hist()[anchor_index as int].digest@
                && Self::spec_parse_ok(header_bytes@) && !old(self).spec_target_ok(
                false,
                anchor_bytes@,
                header_bytes@,
            )) ==> r == Err::<(), RelayError>(RelayError::UnexpectedDifficultyChange),
            (r == Err::<(), RelayError>(RelayError::InvalidChain)) ==> !links_ok(header_bytes@),
            (r == Err::<(), RelayError>(RelayError::InsufficientWork)) ==> !work_ok(
                header_bytes@,
            ),
            r matches Err(e) ==> (e == RelayError::WrongDigest || e
                == RelayError::WrongLengthHeader || e == RelayError::UnexpectedDifficultyChange
                || e == RelayError::InvalidChain || e == RelayError::InsufficientWork),
    {
        self.internal_add_headers(anchor_index, anchor_bytes, header_bytes, false)
    }
}


impl Relay {
    /// The full-precision target that the retarget algorithm computes from
    /// an epoch's opening and closing headers.
    pub open spec fn spec_expected_target(start_bytes: Seq<u8>, end_bytes: Seq<u8>) -> nat {
        crate::header::spec_retarget(
            header_target(start_bytes),
            crate::header::header_timestamp(start_bytes),
            crate::header::header_timestamp(end_bytes),
        )
    }

    /// Add a difficulty change to the relay.
    ///
    /// The anchor (`old_period_end`) must be the last header of the closing
    /// difficulty epoch; `old_period_start_bytes` must be the header that
    /// opened it, found through the anchor's epoch-start back-reference.
    /// The first new header's truncated target must be reproducible by
    /// masking the full-precision retarget output; the headers are then
    /// attached through the internal (retarget) path, which permits the
    /// target change.
    pub fn add_difficulty_change(
        &mut self,
        old_period_start_bytes: &[u8],
        old_period_end_index: u32,
        old_period_end_bytes: &[u8],
        header_bytes: &Vec<u8>,
    ) -> (r: Result<(), RelayError>)
        requires
            old(self).wf(),
            old_period_start_bytes@.len() == 80,
            old_period_end_bytes@.len() == 80,
            old(self).retained(old_period_end_index as int),
            old(self).retained(
                old(self).hist()[old_period_end_index as int].epoch_start_index as int,
            ),
            header_bytes@.len() > 0,
            old(self).hist().len() + num_chunks(header_bytes@) <= usize::MAX,
            (Self::spec_parse_ok(header_bytes@) && old(self).hist()[
                old_period_end_index as int
            ].height % 2016 == 2015) ==> {
                let end = old(self).hist()[old_period_end_index as int];
                let start = old(self).hist()[end.epoch_start_index as int];
                &&& start.height == end.height - 2015
                &&& header_target(old_period_start_bytes@) == header_target(
                    old_period_end_bytes@,
                )
                &&& target_representable(old_period_start_bytes@)
                &&& crate::header::header_timestamp(old_period_start_bytes@)
                    <= crate::header::header_timestamp(old_period_end_bytes@)
                &&& header_target(old_period_start_bytes@)
                    * crate::header::spec_clamped_elapsed(
                    crate::header::header_timestamp(old_period_start_bytes@),
                    crate::header::header_timestamp(old_period_end_bytes@),
                ) < crate::header::pow256(32)
                &&& target_representable(chunk(header_bytes@, 0))
                &&& old(self).spec_attach_safe(old_period_end_index as int, header_bytes@)
            },
        ensures
            final(self).wf(),
            r is Err ==> *final(self) == *old(self),
            r is Ok <==> {
                let end = old(self).hist()[old_period_end_index as int];
                let start = old(self).hist()[end.epoch_start_index as int];
                &&& Self::spec_parse_ok(header_bytes@)
                &&& digest_of(old_period_end_bytes@) == end.digest@
                &&& digest_of(old_period_start_bytes@) == start.digest@
                &&& end.height % 2016 == 2015
                &&& crate::header::masked_by(
                    header_target(chunk(header_bytes@, 0)),
                    Self::spec_expected_target(old_period_start_bytes@, old_period_end_bytes@),
                )
                &&& chain_valid(header_bytes@)
            },
            r is Ok ==> spec_attached(
                old(self).hist(),
                final(self).hist(),
                old_period_end_index as int,
                header_bytes@,
            ),
            r is Ok ==> final(self).mainnet == old(self).mainnet && final(self).relay_genesis
                == old(self).relay_genesis && final(self).pre_genesis_epoch_start == old(
                self,
            ).pre_genesis_epoch_start && final(self).current_best_index == old(
                self,
            ).current_best_index && final(self).best_known_digest == old(
                self,
            ).best_known_digest && final(self).last_reorg_lca == old(self).last_reorg_lca,
            (r == Err::<(), RelayError>(RelayError::WrongLengthHeader)) <==> !Self::spec_parse_ok(
                header_bytes@,
            ),
            (r == Err::<(), RelayError>(RelayError::WrongDigest)) <==> (Self::spec_parse_ok(
                header_bytes@,
            ) && {
                let end = old(self).hist()[old_period_end_index as int];
                let start = old(self).hist()[end.epoch_start_index as int];
                digest_of(old_period_end_bytes@) != end.digest@ || digest_of(
                    old_period_start_bytes@,
                ) != start.digest@
            }),
            (r == Err::<(), RelayError>(RelayError::WrongEnd)) <==> (Self::spec_parse_ok(
                header_bytes@,
            ) && {
                let end = old(self).hist()[old_period_end_index as int];
                let start = old(self).hist()[end.epoch_start_index as int];
                &&& digest_of(old_period_end_bytes@) == end.digest@
                &&& digest_of(old_period_start_bytes@) == start.digest@
                &&& end.height % 2016 != 2015
            }),
            (r == Err::<(), RelayError>(RelayError::IncorrectDifficultyChange))
                <==> (Self::spec_parse_ok(header_bytes@) && {
                let end = old(self).hist()[old_period_end_index as int];
                let start = old(self).hist()[end.epoch_start_index as int];
                &&& digest_of(old_period_end_bytes@) == end.digest@
                &&& digest_of(old_period_start_bytes@) == start.digest@
                &&& end.height % 2016 == 2015
                &&& !crate::header::masked_by(
                    header_target(chunk(header_bytes@, 0)),
                    Self::spec_expected_target(old_period_start_bytes@, old_period_end_bytes@),
                )
            }),
            (r == Err::<(), RelayError>(RelayError::UnexpectedDifficultyChange))
                ==> !targets_uniform(header_bytes@),
            (r == Err::<(), RelayError>(RelayError::InvalidChain)) ==> !links_ok(header_bytes@),
            (r == Err::<(), RelayError>(RelayError::InsufficientWork)) ==> !work_ok(
                header_bytes@,
            ),
    {
        if header_bytes.len() % 80 != 0 {
            return Err(RelayError::WrongLengthHeader);
        }
        let old_period_end = match self.load_header(old_period_end_index, old_period_end_bytes) {
            Ok(w) => w,
            Err(e) => return Err(e),
        };
        let old_period_start = match self.load_header(
            old_period_end.info.epoch_start_index,
            old_period_start_bytes,
        ) {
            Ok(w) => w,
            Err(e) => return Err(e),
        };
        // A change is allowed only at the end of an epoch.
        if old_period_end.info.height % 2016 != 2015 {
            return Err(RelayError::WrongEnd);
        }
        // Validate the difficulty change. Header targets are truncated
        // encodings, so the new target must survive masking by the
        // full-precision expected target rather than equal it.
        let t0 = crate::header::extract_timestamp(old_period_start_bytes);
        let t1 = crate::header::extract_timestamp(old_period_end_bytes);
        let expected_target = crate::spv::retarget(old_period_start_bytes, t0, t1);
        proof {
            vstd::arithmetic::div_mod::lemma_fundamental_div_mod(
                header_bytes@.len() as int,
                80,
            );
        }
        let first = vstd::slice::slice_subrange(header_bytes.as_slice(), 0, 80);
        proof {
            assert(first@ =~= chunk(header_bytes@, 0));
        }
        let new_target = crate::header::target_bytes(first);
        if !crate::header::bytes_masked(&new_target, &expected_target) {
            return Err(RelayError::IncorrectDifficultyChange);
        }
        match self.internal_add_headers(
            old_period_end_index,
            old_period_end_bytes,
            header_bytes,
            true,
        ) {
            Ok(_) => Ok(()),
            Err(e) => Err(e),
        }
    }
}


impl Relay {
    /// The record the reconciliation walk holds after `k` iterations,
    /// starting from `start` and freezing once it reaches `ancestor`.
    pub open spec fn recon_prev(&self, ancestor: HeaderInfo, start: HeaderInfo, k: nat) -> HeaderInfo
        decreases k,
    {
        if k == 0 {
            start
        } else {
            let p = self.recon_prev(ancestor, start, (k - 1) as nat);
            if info_eq(p, ancestor) {
                p
            } else {
                self.hist()[p.parent_index as int]
            }
        }
    }

    /// The record one step behind the reconciliation walk after `k`
    /// iterations: the child through which the walk reached its current
    /// record.
    pub open spec fn recon_cur(&self, ancestor: HeaderInfo, start: HeaderInfo, k: nat) -> HeaderInfo
        decreases k,
    {
        if k == 0 {
            start
        } else {
            let p = self.recon_prev(ancestor, start, (k - 1) as nat);
            if info_eq(p, ancestor) {
                self.recon_cur(ancestor, start, (k - 1) as nat)
            } else {
                p
            }
        }
    }

    /// Whether `k` iterations of the reconciliation walk only ever read
    /// retained records.
    pub open spec fn recon_ok(&self, ancestor: HeaderInfo, start: HeaderInfo, k: nat) -> bool
        decreases k,
    {
        k == 0 || {
            let p = self.recon_prev(ancestor, start, (k - 1) as nat);
            &&& self.recon_ok(ancestor, start, (k - 1) as nat)
            &&& (info_eq(p, ancestor) || self.retained(p.parent_index as int))
        }
    }

    /// The approximate weight of a fork tip in its (new) epoch: the number
    /// of headers since the epoch boundary times the per-header difficulty.
    /// This deliberately approximates accumulated work rather than summing
    /// it.
    pub open spec fn spec_fork_weight(raw: Seq<u8>, height: u32) -> int {
        (height as int % 2016) * crate::header::header_difficulty(raw)
    }

    /// The fork-choice rule: whether `right` is a strictly better
    /// descendant of `ancestor` than `left`.
    ///
    /// After confirming that `ancestor` is the nearest common ancestor
    /// discoverable within 200 hops, the rule prefers the candidate that
    /// crossed into a new difficulty epoch; if neither crossed, the higher
    /// one; if both crossed, the one with the larger approximate weight,
    /// with ties favoring `left`.
    pub open spec fn spec_better_descendant(
        &self,
        ancestor: HeaderInfo,
        left_raw: Seq<u8>,
        left: HeaderInfo,
        right_raw: Seq<u8>,
        right: HeaderInfo,
    ) -> Result<(), RelayError> {
        if ancestor.digest@ == left.digest@ && ancestor.digest@ == right.digest@ {
            Err(RelayError::NotHeavier)
        } else if info_eq(
            self.recon_cur(ancestor, left, 200),
            self.recon_cur(ancestor, right, 200),
        ) || !info_eq(
            self.recon_prev(ancestor, left, 200),
            self.recon_prev(ancestor, right, 200),
        ) {
            Err(RelayError::NotLatestAncestor)
        } else {
            let nps = ancestor.height + 2016 - (ancestor.height as int % 2016);
            let left_in = (left.height as int) < nps;
            let right_in = (right.height as int) < nps;
            if !left_in && right_in {
                Err(RelayError::NotHeavier)
            } else if left_in && !right_in {
                Ok(())
            } else if left_in && right_in {
                if right.height > left.height {
                    Ok(())
                } else {
                    Err(RelayError::NotHeavier)
                }
            } else {
                if Self::spec_fork_weight(right_raw, right.height) > Self::spec_fork_weight(
                    left_raw,
                    left.height,
                ) {
                    Ok(())
                } else {
                    Err(RelayError::NotHeavier)
                }
            }
        }
    }

    /// Whether the fork-choice rule reaches the approximate-weight
    /// comparison, which reads the candidates' difficulty fields.
    pub open spec fn spec_weights_needed(
        &self,
        ancestor: HeaderInfo,
        left: HeaderInfo,
        right: HeaderInfo,
    ) -> bool {
        let nps = ancestor.height + 2016 - (ancestor.height as int % 2016);
        &&& !(ancestor.digest@ == left.digest@ && ancestor.digest@ == right.digest@)
        &&& !info_eq(self.recon_cur(ancestor, left, 200), self.recon_cur(ancestor, right, 200))
        &&& info_eq(self.recon_prev(ancestor, left, 200), self.recon_prev(ancestor, right, 200))
        &&& (left.height as int) >= nps
        &&& (right.height as int) >= nps
    }

    /// Decide whether `right` is a strictly better descendant of
    /// `ancestor` than `left`.
    fn verify_better_descendant(
        &self,
        ancestor: &HeaderInfo,
        left: &RawWithInfo,
        right: &RawWithInfo,
    ) -> (r: Result<(), RelayError>)
        requires
            self.wf(),
            left.raw@.len() == 80,
            right.raw@.len() == 80,
            self.recon_ok(*ancestor, left.info, 200),
            self.recon_ok(*ancestor, right.info, 200),
            ancestor.height + 2016 <= u32::MAX,
            self.spec_weights_needed(*ancestor, left.info, right.info) ==> {
                &&& target_representable(left.raw@)
                &&& header_target(left.raw@) >= 1
                &&& target_representable(right.raw@)
                &&& header_target(right.raw@) >= 1
            },
        ensures
            r == self.spec_better_descendant(
                *ancestor,
                left.raw@,
                left.info,
                right.raw@,
                right.info,
            ),
    {
        if digests_equal(&ancestor.digest, &left.info.digest) && digests_equal(
            &ancestor.digest,
            &right.info.digest,
        ) {
            // Everything is the same: nothing to promote.
            return Err(RelayError::NotHeavier);
        }
        // Check that the claimed ancestor is the latest common ancestor,
        // walking at most 200 hops from each candidate.
        let mut left_current: HeaderInfo = left.info;
        let mut left_prev: HeaderInfo = left.info;
        let mut right_current: HeaderInfo = right.info;
        let mut right_prev: HeaderInfo = right.info;
        let mut i: u32 = 0;
        while i < 200
            invariant
                self.wf(),
                i <= 200,
                self.recon_ok(*ancestor, left.info, 200),
                self.recon_ok(*ancestor, right.info, 200),
                left_prev == self.recon_prev(*ancestor, left.info, i as nat),
                left_current == self.recon_cur(*ancestor, left.info, i as nat),
                right_prev == self.recon_prev(*ancestor, right.info, i as nat),
                right_current == self.recon_cur(*ancestor, right.info, i as nat),
            decreases 200 - i,
        {
            proof {
                self.lemma_recon_ok_mono(*ancestor, left.info, (i + 1) as nat, 200);
                self.lemma_recon_ok_mono(*ancestor, right.info, (i + 1) as nat, 200);
            }
            if !(left_prev == *ancestor) {
                left_current = left_prev;
                left_prev = self.read_metadata_store(left_prev.parent_index);
            }
            if !(right_prev == *ancestor) {
                right_current = right_prev;
                right_prev = self.read_metadata_store(right_prev.parent_index);
            }
            i = i + 1;
        }
        if left_current == right_current {
            // A nearer common ancestor exists.
            return Err(RelayError::NotLatestAncestor);
        }
        if !(left_prev == right_prev) {
            // No common ancestor was found within the walk bound.
            return Err(RelayError::NotLatestAncestor);
        }
        let next_period_start_height: u32 = (ancestor.height + 2016) - (ancestor.height % 2016);
        let left_in_period = left.info.height < next_period_start_height;
        let right_in_period = right.info.height < next_period_start_height;
        if !left_in_period && right_in_period {
            return Err(RelayError::NotHeavier);
        }
        if left_in_period && !right_in_period {
            return Ok(());
        }
        if left_in_period && right_in_period {
            if right.info.height > left.info.height {
                return Ok(());
            } else {
                return Err(RelayError::NotHeavier);
            }
        }
        let left_diff = crate::spv::difficulty(left.raw.as_slice());
        let right_diff = crate::spv::difficulty(right.raw.as_slice());
        let left_acc_diff = crate::header::mul_le_bytes(&left_diff, left.info.height % 2016);
        let right_acc_diff = crate::header::mul_le_bytes(&right_diff, right.info.height % 2016);
        proof {
            lemma_weight_commutes(
                crate::header::header_difficulty(left.raw@) as int,
                left.info.height as int % 2016,
            );
            lemma_weight_commutes(
                crate::header::header_difficulty(right.raw@) as int,
                right.info.height as int % 2016,
            );
        }
        if crate::header::le_bytes_lt(&left_acc_diff, &right_acc_diff) {
            Ok(())
        } else {
            Err(RelayError::NotHeavier)
        }
    }

    /// A walk that reads only retained records for `k2` iterations does so
    /// for any shorter run.
    pub proof fn lemma_recon_ok_mono(
        &self,
        ancestor: HeaderInfo,
        start: HeaderInfo,
        k1: nat,
        k2: nat,
    )
        requires
            k1 <= k2,
            self.recon_ok(ancestor, start, k2),
        ensures
            self.recon_ok(ancestor, start, k1),
        decreases k2,
    {
        if k1 < k2 {
            self.lemma_recon_ok_mono(ancestor, start, k1, (k2 - 1) as nat);
        }
    }

    /// Mark a new heaviest chain tip.
    ///
    /// The caller proves that the record at `new_best_index` is a better
    /// descendant of the record at `lca_index` than the current best; on
    /// success the relay adopts the new tip and remembers the common
    /// ancestor of the reorg.
    pub fn mark_new_heaviest(
        &mut self,
        lca_index: u32,
        current_best: &[u8],
        new_best_index: u32,
        new_best: &[u8],
    ) -> (r: Result<(), RelayError>)
        requires
            old(self).wf(),
            current_best@.len() == 80,
            new_best@.len() == 80,
            old(self).retained(lca_index as int),
            old(self).retained(new_best_index as int),
            old(self).recon_ok(
                old(self).hist()[lca_index as int],
                old(self).hist()[new_best_index as int],
                200,
            ),
            old(self).recon_ok(
                old(self).hist()[lca_index as int],
                old(self).hist()[old(self).current_best_index as int],
                200,
            ),
            old(self).hist()[lca_index as int].height + 2016 <= u32::MAX,
            old(self).spec_weights_needed(
                old(self).hist()[lca_index as int],
                old(self).hist()[old(self).current_best_index as int],
                old(self).hist()[new_best_index as int],
            ) ==> {
                &&& target_representable(current_best@)
                &&& header_target(current_best@) >= 1
                &&& target_representable(new_best@)
                &&& header_target(new_best@) >= 1
            },
        ensures
            final(self).wf(),
            r is Err ==> *final(self) == *old(self),
            r is Ok <==> {
                &&& digest_of(new_best@) == old(self).hist()[new_best_index as int].digest@
                &&& digest_of(current_best@) == old(self).hist()[
                    old(self).current_best_index as int
                ].digest@
                &&& old(self).spec_better_descendant(
                    old(self).hist()[lca_index as int],
                    current_best@,
                    old(self).hist()[old(self).current_best_index as int],
                    new_best@,
                    old(self).hist()[new_best_index as int],
                ) is Ok
            },
            (r == Err::<(), RelayError>(RelayError::WrongDigest)) <==> (digest_of(new_best@)
                != old(self).hist()[new_best_index as int].digest@ || (digest_of(new_best@)
                == old(self).hist()[new_best_index as int].digest@ && digest_of(current_best@)
                != old(self).hist()[old(self).current_best_index as int].digest@)),
            (digest_of(new_best@) == old(self).hist()[new_best_index as int].digest@
                && digest_of(current_best@) == old(self).hist()[
                old(self).current_best_index as int
            ].digest@) ==> r == old(self).spec_better_descendant(
                old(self).hist()[lca_index as int],
                current_best@,
                old(self).hist()[old(self).current_best_index as int],
                new_best@,
                old(self).hist()[new_best_index as int],
            ),
            r is Ok ==> {
                &&& final(self).current_best_index == new_best_index
                &&& final(self).best_known_digest@ == old(self).hist()[
                    new_best_index as int
                ].digest@
                &&& final(self).last_reorg_lca@ == old(self).hist()[lca_index as int].digest@
                &&& final(self).hist() == old(self).hist()
                &&& final(self).header_store == old(self).header_store
                &&& final(self).mainnet == old(self).mainnet
                &&& final(self).relay_genesis == old(self).relay_genesis
                &&& final(self).pre_genesis_epoch_start == old(self).pre_genesis_epoch_start
            },
    {
        let new_best_w = match self.load_header(new_best_index, new_best) {
            Ok(w) => w,
            Err(e) => return Err(e),
        };
        let current_best_w = match self.load_header(self.current_best_index, current_best) {
            Ok(w) => w,
            Err(e) => return Err(e),
        };
        let ancestor = self.read_metadata_store(lca_index);
        match self.verify_better_descendant(&ancestor, &current_best_w, &new_best_w) {
            Ok(_) => {},
            Err(e) => return Err(e),
        }
        self.last_reorg_lca = ancestor.digest;
        self.best_known_digest = new_best_w.info.digest;
        self.current_best_index = new_best_index;
        Ok(())
    }
}

/// The fork weight multiplies in either order.
proof fn lemma_weight_commutes(d: int, m: int)
    ensures
        d * m == m * d,
{
    vstd::arithmetic::mul::lemma_mul_is_commutative(d, m);
}


impl Relay {
    /// The exact confirmation rule, given the claimed confirming-header
    /// hash of an already-validated proof.
    ///
    /// The confirming header must be within the servable window of 2016
    /// blocks below the tip, must carry the claimed hash, and must lie on
    /// the best chain; the confirmation count includes both endpoints.
    pub fn confirmations_for(
        &self,
        confirming_header_index: u32,
        claimed_hash: &[u8; 32],
    ) -> (r: Result<u32, RelayError>)
        requires
            self.wf(),
            self.retained(confirming_header_index as int),
            self.hist()[confirming_header_index as int].height <= self.hist()[
                self.current_best_index as int
            ].height,
            self.hist()[self.current_best_index as int].height - self.hist()[
                confirming_header_index as int
            ].height <= 2016 ==> self.walk_ok(
                self.hist()[self.current_best_index as int],
                (self.hist()[self.current_best_index as int].height - self.hist()[
                    confirming_header_index as int
                ].height) as nat,
            ),
        ensures
            ({
                let hdr = self.hist()[confirming_header_index as int];
                let tip = self.hist()[self.current_best_index as int];
                let depth = tip.height - hdr.height;
                r == if depth > 2016 {
                    Err::<u32, RelayError>(RelayError::TooDeep)
                } else if hdr.digest@ != claimed_hash@ {
                    Err::<u32, RelayError>(RelayError::WrongDigest)
                } else if self.walk(tip, depth as nat).digest@ != hdr.digest@ {
                    Err::<u32, RelayError>(RelayError::NotInBestChain)
                } else {
                    Ok::<u32, RelayError>((depth + 1) as u32)
                }
            }),
    {
        let header_info = self.read_metadata_store(confirming_header_index);
        let chaintip = self.read_metadata_store(self.current_best_index);
        if chaintip.height - header_info.height > 2016 {
            return Err(RelayError::TooDeep);
        }
        let ancestor = self.ancestor_of(&chaintip, chaintip.height - header_info.height);
        if !digests_equal(&header_info.digest, claimed_hash) {
            return Err(RelayError::WrongDigest);
        }
        if !digests_equal(&ancestor.digest, &header_info.digest) {
            return Err(RelayError::NotInBestChain);
        }
        Ok(chaintip.height - header_info.height + 1)
    }

    /// Validate an SPV proof against the relay.
    ///
    /// Merkle and transaction-id validation is delegated to the
    /// header-validation library; the relay then checks that the
    /// confirming header is stored at the given index, lies within the
    /// servable window, and sits on the best chain, and returns the
    /// confirmation count.
    pub fn validate_proof(
        &self,
        confirming_header_index: u32,
        proof: &crate::spv::SPVProof,
    ) -> (r: Result<u32, RelayError>)
        requires
            self.wf(),
            proof.version@.len() == 4,
            proof.locktime@.len() == 4,
            proof.confirming_header.raw@.len() == 80,
            proof.vin@.len() >= 1,
            proof.vout@.len() >= 1,
            proof.vin@.len() <= 0x40000000,
            proof.vout@.len() <= 0x40000000,
            crate::spv::vin_lengths_bounded(proof.vin@),
            crate::spv::vout_lengths_bounded(proof.vout@),
            self.retained(confirming_header_index as int),
            self.hist()[confirming_header_index as int].height <= self.hist()[
                self.current_best_index as int
            ].height,
            self.hist()[self.current_best_index as int].height - self.hist()[
                confirming_header_index as int
            ].height <= 2016 ==> self.walk_ok(
                self.hist()[self.current_best_index as int],
                (self.hist()[self.current_best_index as int].height - self.hist()[
                    confirming_header_index as int
                ].height) as nat,
            ),
        ensures
            ({
                let hdr = self.hist()[confirming_header_index as int];
                let tip = self.hist()[self.current_best_index as int];
                let depth = tip.height - hdr.height;
                &&& (crate::spv::spec_proof_ok(proof) ==> r == (if depth > 2016 {
                    Err::<u32, RelayError>(RelayError::TooDeep)
                } else if hdr.digest@ != proof.confirming_header.hash@ {
                    Err::<u32, RelayError>(RelayError::WrongDigest)
                } else if self.walk(tip, depth as nat).digest@ != hdr.digest@ {
                    Err::<u32, RelayError>(RelayError::NotInBestChain)
                } else {
                    Ok::<u32, RelayError>((depth + 1) as u32)
                }))
                &&& (r is Ok <==> {
                    &&& crate::spv::spec_proof_ok(proof)
                    &&& depth <= 2016
                    &&& hdr.digest@ == proof.confirming_header.hash@
                    &&& self.walk(tip, depth as nat).digest@ == hdr.digest@
                })
                &&& (r is Ok ==> proof.confirming_header.hash@ == digest_of(
                    proof.confirming_header.raw@,
                ) && r->Ok_0 == depth + 1)
                &&& (r == Err::<u32, RelayError>(RelayError::TooDeep) <==> (
                crate::spv::spec_proof_ok(proof) && depth > 2016))
                &&& (r == Err::<u32, RelayError>(RelayError::NotInBestChain) <==> (
                crate::spv::spec_proof_ok(proof) && depth <= 2016 && hdr.digest@
                    == proof.confirming_header.hash@ && self.walk(tip, depth as nat).digest@
                    != hdr.digest@))
                &&& (!crate::spv::spec_proof_ok(proof) ==> (r matches Err(e) && (e
                    == RelayError::InvalidVin || e == RelayError::InvalidVout || e
                    == RelayError::WrongTxID || e == RelayError::WrongDigest || e
                    == RelayError::WrongMerkleRoot || e == RelayError::WrongPrevHash || e
                    == RelayError::BadMerkleProof || e == RelayError::UnknownError)))
            }),
    {
        match crate::spv::spv_proof_validate(proof) {
            Ok(_) => {},
            Err(e) => {
                return Err(crate::spv::spv_error_to_relay(e));
            },
        }
        self.confirmations_for(confirming_header_index, &proof.confirming_header.hash)
    }

    /// Find the external index of the first stored record equal to the
    /// value passed in. This scans the whole physical store.
    pub fn find(&self, value: &HeaderInfo) -> (r: Option<usize>)
        requires
            self.wf(),
        ensures
            match r {
                Some(e) => self.retained(e as int) && info_eq(self.hist()[e as int], *value),
                None => forall|i: int|
                    self.retained(i) ==> !info_eq(#[trigger] self.hist()[i], *value),
            },
    {
        self.header_store.find(value)
    }

    /// Find the external index of the first stored record carrying a
    /// digest. This scans the whole physical store.
    pub fn find_digest(&self, value: &[u8; 32]) -> (r: Option<usize>)
        requires
            self.wf(),
        ensures
            match r {
                Some(e) => self.retained(e as int) && self.hist()[e as int].digest@ == value@,
                None => forall|i: int|
                    self.retained(i) ==> (#[trigger] self.hist()[i]).digest@ != value@,
            },
    {
        let f = |t: HeaderInfo| -> (b: bool)
            ensures
                b == (t.digest@ == value@),
            { digests_equal(&t.digest, value) };
        self.header_store.position(&f)
    }

    /// Rebuild a relay from a persisted snapshot of its fields.
    ///
    /// This is the host binding's way back from a serialized state. The
    /// parts are accepted when the store has the fixed capacity and the
    /// current best index resolves to a retained record carrying the best
    /// known digest.
    pub fn from_parts(
        mainnet: bool,
        relay_genesis: HeaderInfo,
        pre_genesis_epoch_start: [u8; 32],
        current_best_index: u32,
        best_known_digest: [u8; 32],
        last_reorg_lca: [u8; 32],
        records: Vec<HeaderInfo>,
        next: usize,
    ) -> (r: Option<Relay>)
        ensures
            r is Some <==> {
                &&& records@.len() == RELAY_CAPACITY
                &&& next >= 2
                &&& current_best_index < next
                &&& next - current_best_index <= RELAY_CAPACITY
                &&& records@[current_best_index as int % (RELAY_CAPACITY as int)].digest@
                    == best_known_digest@
            },
            r matches Some(relay) ==> {
                &&& relay.wf()
                &&& relay.mainnet == mainnet
                &&& relay.relay_genesis == relay_genesis
                &&& relay.pre_genesis_epoch_start == pre_genesis_epoch_start
                &&& relay.current_best_index == current_best_index
                &&& relay.best_known_digest == best_known_digest
                &&& relay.last_reorg_lca == last_reorg_lca
                &&& relay.hist().len() == next
                &&& forall|i: int|
                    relay.retained(i) ==> #[trigger] relay.hist()[i] == records@[i % (
                    RELAY_CAPACITY as int)]
            },
    {
        if records.len() != RELAY_CAPACITY || next < 2 {
            return None;
        }
        let store = FakeVec::from_parts(records, next);
        let cbi = current_best_index as usize;
        if !(cbi < next && next - cbi <= RELAY_CAPACITY) {
            return None;
        }
        let best = *store.get(cbi).unwrap();
        if !digests_equal(&best.digest, &best_known_digest) {
            return None;
        }
        Some(
            Relay {
                mainnet,
                relay_genesis,
                pre_genesis_epoch_start,
                current_best_index,
                best_known_digest,
                last_reorg_lca,
                header_store: store,
            },
        )
    }
}


/// Every record with a real (non-sentinel) parent link points below itself
/// at a record exactly one height down.
pub open spec fn heights_linked(hist: Seq<HeaderInfo>) -> bool {
    forall|i: int|
        0 <= i < hist.len() && (#[trigger] hist[i]).parent_index != SENTINEL_INDEX ==> {
            &&& hist[i].parent_index < i
            &&& hist[hist[i].parent_index as int].height + 1 == hist[i].height
        }
}

/// Every non-bootstrap record's epoch-start back-reference points below
/// itself at a record whose height opens the record's epoch; a record at
/// an epoch-opening height itself points one full epoch down.
pub open spec fn epoch_linked(hist: Seq<HeaderInfo>) -> bool {
    forall|i: int|
        2 <= i < hist.len() ==> {
            let r = #[trigger] hist[i];
            &&& 0 <= r.epoch_start_index < i
            &&& hist[r.epoch_start_index as int].height == (if r.height % 2016 == 0 {
                r.height - 2016
            } else {
                r.height - (r.height % 2016)
            })
        }
}

/// The records a sequential attachment chains through carry the heights
/// the chain expects: each index after the anchor that already exists
/// holds the matching height, and indices past the end arise only when
/// the anchor is the latest record.
pub open spec fn spec_anchor_aligned(hist: Seq<HeaderInfo>, a: int, n: int) -> bool {
    &&& forall|j: int|
        1 <= j < n && a + j < hist.len() ==> (#[trigger] hist[a + j]).height == hist[a].height
            + j
    &&& (a + n > hist.len() ==> a == hist.len() - 1)
}

/// The index reached after `k` parent-link hops from index `i`.
pub open spec fn parent_chain(hist: Seq<HeaderInfo>, i: int, k: nat) -> int
    decreases k,
{
    if k == 0 {
        i
    } else {
        parent_chain(hist, hist[i].parent_index as int, (k - 1) as nat)
    }
}

/// Whether `k` parent-link hops from index `i` stay clear of the
/// bootstrap sentinel.
pub open spec fn parent_chain_live(hist: Seq<HeaderInfo>, i: int, k: nat) -> bool
    decreases k,
{
    k == 0 || {
        &&& hist[i].parent_index != SENTINEL_INDEX
        &&& parent_chain_live(hist, hist[i].parent_index as int, (k - 1) as nat)
    }
}

/// Walking the parent links from any record of a height-linked history
/// (in particular from the current best) moves strictly down the store
/// and decreases the height by exactly one per hop, until a sentinel
/// parent is reached.
pub proof fn lemma_parent_walk_heights(hist: Seq<HeaderInfo>, i: int, k: nat)
    requires
        heights_linked(hist),
        0 <= i < hist.len(),
        parent_chain_live(hist, i, k),
    ensures
        0 <= parent_chain(hist, i, k) <= i - k,
        hist[parent_chain(hist, i, k)].height == hist[i].height - k,
    decreases k,
{
    if k > 0 {
        let p = hist[i].parent_index as int;
        lemma_parent_walk_heights(hist, p, (k - 1) as nat);
    }
}

/// A fresh relay's two bootstrap records leave both chain laws holding.
pub proof fn lemma_new_relay_linked(relay: Relay)
    requires
        relay.hist().len() == 2,
        relay.hist()[0].parent_index == SENTINEL_INDEX,
        relay.hist()[1].parent_index == SENTINEL_INDEX,
    ensures
        heights_linked(relay.hist()),
        epoch_linked(relay.hist()),
{
}

/// The largest epoch boundary at or below `y` is unchanged at `x` when it
/// already lies at or below `x`.
proof fn lemma_epoch_base_between(x: int, y: int)
    requires
        0 <= x <= y,
        epoch_base(y) <= x,
    ensures
        epoch_base(x) == epoch_base(y),
{
    let q = y / 2016;
    vstd::arithmetic::div_mod::lemma_fundamental_div_mod(y, 2016);
    assert(y == 2016 * q + y % 2016);
    assert(epoch_base(y) == 2016 * q);
    vstd::arithmetic::div_mod::lemma_fundamental_div_mod_converse_mod(x, 2016, q, x - 2016 * q);
    assert(x % 2016 == x - 2016 * q);
}

/// Attaching headers to an aligned anchor — the store change that a
/// successful `add_headers` or `add_difficulty_change` performs —
/// preserves the height law.
pub proof fn lemma_attach_preserves_heights_linked(
    old_hist: Seq<HeaderInfo>,
    new_hist: Seq<HeaderInfo>,
    a: int,
    bytes: Seq<u8>,
)
    requires
        heights_linked(old_hist),
        spec_attached(old_hist, new_hist, a, bytes),
        0 <= a < old_hist.len(),
        spec_anchor_aligned(old_hist, a, num_chunks(bytes)),
        a + num_chunks(bytes) <= u32::MAX,
    ensures
        heights_linked(new_hist),
{
    let n = num_chunks(bytes);
    let len = old_hist.len() as int;
    assert forall|i: int|
        0 <= i < new_hist.len() && (#[trigger] new_hist[i]).parent_index != SENTINEL_INDEX
        implies {
        &&& new_hist[i].parent_index < i
        &&& new_hist[new_hist[i].parent_index as int].height + 1 == new_hist[i].height
    } by {
        if i < len {
            assert(new_hist[i] == old_hist[i]);
            let p = old_hist[i].parent_index as int;
            assert(old_hist[p] == new_hist[p]);
        } else {
            let j = i - len;
            assert(spec_attached_rec(old_hist, a, bytes, j, new_hist[len + j]));
            let p = a + j;
            if p < len {
                if j == 0 {
                } else {
                    assert(old_hist[a + j].height == old_hist[a].height + j);
                }
                assert(new_hist[p] == old_hist[p]);
            } else {
                assert(a + n > len);
                assert(a == len - 1);
                let jp = p - len;
                assert(spec_attached_rec(old_hist, a, bytes, jp, new_hist[len + jp]));
            }
        }
    }
}

/// Attaching headers to an aligned anchor whose own epoch-start reference
/// resolves plainly — the store change that a successful `add_headers` or
/// `add_difficulty_change` performs — preserves the epoch law.
///
/// The resolution condition fails exactly for anchors at an epoch-opening
/// height, whose back-reference points one full epoch down; extending such
/// an anchor leaves the first records of the new epoch pointing at the old
/// one.
pub proof fn lemma_attach_preserves_epoch_linked(
    old_hist: Seq<HeaderInfo>,
    new_hist: Seq<HeaderInfo>,
    a: int,
    bytes: Seq<u8>,
)
    requires
        epoch_linked(old_hist),
        spec_attached(old_hist, new_hist, a, bytes),
        0 <= a < old_hist.len(),
        2 <= old_hist.len(),
        spec_anchor_aligned(old_hist, a, num_chunks(bytes)),
        0 <= old_hist[a].epoch_start_index <= a,
        old_hist[old_hist[a].epoch_start_index as int].height == old_hist[a].height - (
        old_hist[a].height % 2016),
    ensures
        epoch_linked(new_hist),
{
    let n = num_chunks(bytes);
    let len = old_hist.len() as int;
    let anchor = old_hist[a];
    let ah = anchor.height as int;
    assert forall|i: int| 2 <= i < new_hist.len() implies {
        let r = #[trigger] new_hist[i];
        &&& 0 <= r.epoch_start_index < i
        &&& new_hist[r.epoch_start_index as int].height == (if r.height % 2016 == 0 {
            r.height - 2016
        } else {
            r.height - (r.height % 2016)
        })
    } by {
        if i < len {
            assert(new_hist[i] == old_hist[i]);
            let e = old_hist[i].epoch_start_index as int;
            assert(old_hist[e] == new_hist[e]);
        } else {
            let j = i - len;
            assert(spec_attached_rec(old_hist, a, bytes, j, new_hist[len + j]));
            let r = new_hist[i];
            let hj = ah + 1 + j;
            let base = epoch_base(ah + j);
            vstd::arithmetic::div_mod::lemma_mod_bound(ah + j, 2016);
            vstd::arithmetic::div_mod::lemma_mod_bound(hj, 2016);
            vstd::arithmetic::div_mod::lemma_mod_bound(ah, 2016);
            if hj % 2016 == 0 {
                // the record sits exactly on a boundary: its predecessor
                // closes the previous epoch
                assert((ah + j) % 2016 == 2015) by {
                    lemma_epoch_pred(ah + j);
                }
                assert(base == hj - 2016);
            } else {
                assert((ah + j + 1) % 2016 != 0);
                assert(epoch_base(hj) == base) by {
                    lemma_epoch_base_step(ah + j);
                }
            }
            if base > ah {
                let d = base - ah;
                assert(1 <= d <= j);
                let target = a + d;
                assert(r.epoch_start_index == target);
                if target < len {
                    assert(old_hist[target].height == ah + d);
                    assert(new_hist[target] == old_hist[target]);
                } else {
                    assert(a + n > len);
                    assert(a == len - 1);
                    let dp = target - len;
                    assert(spec_attached_rec(old_hist, a, bytes, dp, new_hist[len + dp]));
                    assert(new_hist[target].height == ah + 1 + dp);
                }
                assert(new_hist[target].height == base);
            } else {
                assert(r.epoch_start_index == anchor.epoch_start_index);
                let e = anchor.epoch_start_index as int;
                assert(new_hist[e] == old_hist[e]);
                assert(old_hist[e].height == ah - ah % 2016);
                assert(epoch_base(ah) == base) by {
                    lemma_epoch_base_between(ah, ah + j);
                }
            }
        }
    }
}

/// The height below an epoch boundary closes the previous epoch.
proof fn lemma_epoch_pred(h: int)
    requires
        h >= 0,
        (h + 1) % 2016 == 0,
    ensures
        h % 2016 == 2015,
        epoch_base(h) == h - 2015,
{
    vstd::arithmetic::div_mod::lemma_mod_bound(h, 2016);
    vstd::arithmetic::div_mod::lemma_add_mod_noop(h, 1, 2016);
    vstd::arithmetic::div_mod::lemma_small_mod(1, 2016);
    if h % 2016 < 2015 {
        vstd::arithmetic::div_mod::lemma_small_mod((h % 2016 + 1) as nat, 2016);
    } else {
        vstd::arithmetic::div_mod::lemma_mod_self_0(2016);
    }
}

/// Moving one height up leaves the epoch base unchanged unless the new
/// height opens an epoch.
proof fn lemma_epoch_base_step(h: int)
    requires
        h >= 0,
        (h + 1) % 2016 != 0,
    ensures
        epoch_base(h + 1) == epoch_base(h),
{
    vstd::arithmetic::div_mod::lemma_mod_is_mod_recursive(h, 2016);
    vstd::arithmetic::div_mod::lemma_mod_is_mod_recursive(h + 1, 2016);
    assert((h + 1) % 2016 == (h % 2016 + 1) % 2016) by {
        vstd::arithmetic::div_mod::lemma_add_mod_noop(h, 1, 2016);
        vstd::arithmetic::div_mod::lemma_small_mod(1, 2016);
    }
    if h % 2016 + 1 < 2016 {
        vstd::arithmetic::div_mod::lemma_small_mod((h % 2016 + 1) as nat, 2016);
    } else {
        // h % 2016 + 1 == 2016 would make (h + 1) % 2016 == 0
        vstd::arithmetic::div_mod::lemma_mod_self_0(2016);
    }
}

} // verus!
