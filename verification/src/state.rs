//! The host-binding state machine around the relay.
//!
//! The host keeps a persisted snapshot that is either uninitialized or an
//! active relay. Each instruction is a pure state transition: the host
//! deserializes the snapshot and the instruction, applies the transition
//! here, and persists the result. Serialization itself stays with the
//! host.

use crate::error::spec_relay_to_solana_error;
use crate::error::SolanaRelayError;
use crate::header::chunk;
use crate::header::header_target;
use crate::header::num_chunks;
use crate::header::target_representable;
use crate::relay::spec_attached;
use crate::relay::Relay;
use crate::spv::chain_valid;
use crate::spv::digest_of;
use crate::spv::targets_uniform;
use vstd::prelude::*;

verus! {

/// The persisted state of a relay account.
pub enum State {
    /// Not yet initialized.
    Uninitialized,
    /// Actively running.
    Active(Relay),
}

/// An instruction for the relay, with its plain-value arguments.
///
/// All header byte strings must be exactly 80 bytes per header.
pub enum RelayInstruction {
    /// Initialize the relay around a trusted genesis header.
    Initialize {
        /// The 80-byte genesis header.
        genesis_header: Vec<u8>,
        /// The height of the genesis header.
        genesis_height: u32,
        /// The digest of the header opening the genesis header's epoch.
        epoch_start: [u8; 32],
    },
    /// Extend the chain from an already-stored anchor.
    AddHeaders {
        /// The index of the anchor record in the store.
        anchor_index: u32,
        /// The 80-byte anchor header.
        anchor_bytes: Vec<u8>,
        /// The tightly-packed new headers.
        headers: Vec<u8>,
    },
    /// Cross a difficulty-epoch boundary.
    AddDifficultyChange {
        /// The 80-byte header that opened the closing epoch.
        old_period_start_bytes: Vec<u8>,
        /// The index of the record closing the epoch.
        old_period_end_index: u32,
        /// The 80-byte header closing the epoch.
        old_period_end_bytes: Vec<u8>,
        /// The tightly-packed new headers.
        headers: Vec<u8>,
    },
    /// Promote a heavier chain tip.
    MarkNewHeaviest {
        /// The index of the latest common ancestor record.
        lca_index: u32,
        /// The 80-byte current best header.
        current_best: Vec<u8>,
        /// The index of the new best record.
        new_best_index: u32,
        /// The 80-byte new best header.
        new_best: Vec<u8>,
    },
}

impl State {
    /// A usable state is either uninitialized or a well-formed relay.
    pub open spec fn wf(&self) -> bool {
        match *self {
            State::Uninitialized => true,
            State::Active(relay) => relay.wf(),
        }
    }


    /// What processing the initialize instruction guarantees: a second
    /// initialization is refused, and a fresh relay is seeded exactly when
    /// the genesis header is 80 bytes whose digest shows the trailing
    /// zero bytes.
    pub open spec fn spec_initialize_post(
        pre: State,
        post: State,
        r: Result<(), SolanaRelayError>,
        genesis_header: Seq<u8>,
        genesis_height: u32,
        epoch_start_digest: Seq<u8>,
    ) -> bool {
        &&& post.wf()
        &&& (pre is Active ==> r == Err::<(), SolanaRelayError>(SolanaRelayError::AlreadyInit)
            && post == pre)
        &&& (r is Err ==> post == pre)
        &&& (pre is Uninitialized ==> {
            &&& (r is Ok <==> genesis_header.len() == 80 && Relay::spec_sufficient_work(
                digest_of(genesis_header),
            ))
            &&& (r is Ok ==> (post matches State::Active(relay) && relay.wf()
                && relay.mainnet && relay.hist().len() == 2 && relay.current_best_index == 1
                && relay.best_known_digest@ == digest_of(genesis_header) && relay.hist()[
                1
            ].height == genesis_height && relay.hist()[0].digest@ == epoch_start_digest))
        })
    }

    /// What processing the add-headers instruction guarantees: the
    /// relay-level acceptance rule, with core errors mapped to host
    /// errors.
    pub open spec fn spec_add_headers_post(
        pre: State,
        post: State,
        r: Result<(), SolanaRelayError>,
        anchor_index: u32,
        anchor_bytes: Seq<u8>,
        header_bytes: Seq<u8>,
    ) -> bool {
        &&& post.wf()
        &&& (r is Err ==> post == pre)
        &&& (pre is Uninitialized ==> r == Err::<(), SolanaRelayError>(
            SolanaRelayError::NotYetInit,
        ))
        &&& (pre matches State::Active(relay) ==> {
            &&& (r is Ok <==> {
                &&& digest_of(anchor_bytes) == relay.hist()[anchor_index as int].digest@
                &&& Relay::spec_parse_ok(header_bytes)
                &&& relay.spec_target_ok(false, anchor_bytes, header_bytes)
                &&& chain_valid(header_bytes)
            })
            &&& (r is Ok ==> (post matches State::Active(r2) && spec_attached(
                relay.hist(),
                r2.hist(),
                anchor_index as int,
                header_bytes,
            ) && r2.current_best_index == relay.current_best_index))
            &&& (r == Err::<(), SolanaRelayError>(SolanaRelayError::WrongDigest) <==> digest_of(
                anchor_bytes,
            ) != relay.hist()[anchor_index as int].digest@)
            &&& (r == Err::<(), SolanaRelayError>(SolanaRelayError::UnexpectedDifficultyChange)
                ==> (!relay.spec_target_ok(false, anchor_bytes, header_bytes)
                || !targets_uniform(header_bytes)))
            &&& ((digest_of(anchor_bytes) == relay.hist()[anchor_index as int].digest@
                && Relay::spec_parse_ok(header_bytes) && !relay.spec_target_ok(
                false,
                anchor_bytes,
                header_bytes,
            )) ==> r == Err::<(), SolanaRelayError>(
                SolanaRelayError::UnexpectedDifficultyChange,
            ))
        })
    }

    /// What processing the add-difficulty-change instruction guarantees:
    /// the relay-level retarget rule, with core errors mapped to host
    /// errors.
    pub open spec fn spec_add_difficulty_change_post(
        pre: State,
        post: State,
        r: Result<(), SolanaRelayError>,
        old_period_start_bytes: Seq<u8>,
        old_period_end_index: u32,
        old_period_end_bytes: Seq<u8>,
        header_bytes: Seq<u8>,
    ) -> bool {
        &&& post.wf()
        &&& (r is Err ==> post == pre)
        &&& (pre is Uninitialized ==> r == Err::<(), SolanaRelayError>(
            SolanaRelayError::NotYetInit,
        ))
        &&& (pre matches State::Active(relay) ==> {
            &&& (r is Ok <==> {
                let end = relay.hist()[old_period_end_index as int];
                let start = relay.hist()[end.epoch_start_index as int];
                &&& Relay::spec_parse_ok(header_bytes)
                &&& digest_of(old_period_end_bytes) == end.digest@
                &&& digest_of(old_period_start_bytes) == start.digest@
                &&& end.height % 2016 == 2015
                &&& crate::header::masked_by(
                    header_target(chunk(header_bytes, 0)),
                    Relay::spec_expected_target(old_period_start_bytes, old_period_end_bytes),
                )
                &&& chain_valid(header_bytes)
            })
            &&& (r is Ok ==> (post matches State::Active(r2) && spec_attached(
                relay.hist(),
                r2.hist(),
                old_period_end_index as int,
                header_bytes,
            )))
            &&& (r == Err::<(), SolanaRelayError>(SolanaRelayError::WrongEnd) ==> relay.hist()[
                old_period_end_index as int
            ].height % 2016 != 2015)
        })
    }

    /// What processing the mark-new-heaviest instruction guarantees: the
    /// relay-level fork-choice rule, with core errors mapped to host
    /// errors.
    pub open spec fn spec_mark_new_heaviest_post(
        pre: State,
        post: State,
        r: Result<(), SolanaRelayError>,
        lca_index: u32,
        current_best: Seq<u8>,
        new_best_index: u32,
        new_best: Seq<u8>,
    ) -> bool {
        &&& post.wf()
        &&& (r is Err ==> post == pre)
        &&& (pre is Uninitialized ==> r == Err::<(), SolanaRelayError>(
            SolanaRelayError::NotYetInit,
        ))
        &&& (pre matches State::Active(relay) ==> {
            &&& (r is Ok <==> {
                &&& digest_of(new_best) == relay.hist()[new_best_index as int].digest@
                &&& digest_of(current_best) == relay.hist()[
                    relay.current_best_index as int
                ].digest@
                &&& relay.spec_better_descendant(
                    relay.hist()[lca_index as int],
                    current_best,
                    relay.hist()[relay.current_best_index as int],
                    new_best,
                    relay.hist()[new_best_index as int],
                ) is Ok
            })
            &&& (r is Ok ==> (post matches State::Active(r2) && r2.current_best_index
                == new_best_index && r2.best_known_digest@ == relay.hist()[
                new_best_index as int
            ].digest@ && r2.last_reorg_lca@ == relay.hist()[lca_index as int].digest@
                && r2.hist() == relay.hist()))
            &&& (relay.spec_better_descendant(
                relay.hist()[lca_index as int],
                current_best,
                relay.hist()[relay.current_best_index as int],
                new_best,
                relay.hist()[new_best_index as int],
            ) matches Err(e) ==> ((digest_of(new_best) == relay.hist()[
                new_best_index as int
            ].digest@ && digest_of(current_best) == relay.hist()[
                relay.current_best_index as int
            ].digest@) ==> r == Err::<(), SolanaRelayError>(spec_relay_to_solana_error(e))))
        })
    }

    /// Process the initialize instruction: seed a mainnet relay, once.
    pub fn process_initialize(
        &mut self,
        genesis_header: &[u8],
        genesis_height: u32,
        epoch_start_digest: &[u8; 32],
    ) -> (r: Result<(), SolanaRelayError>)
        requires
            old(self).wf(),
        ensures
            Self::spec_initialize_post(
                *old(self),
                *final(self),
                r,
                genesis_header@,
                genesis_height,
                epoch_start_digest@,
            ),
    {
        match self {
            State::Active(_) => Err(SolanaRelayError::AlreadyInit),
            State::Uninitialized => {
                match Relay::new(true, genesis_header, genesis_height, epoch_start_digest) {
                    Ok(relay) => {
                        *self = State::Active(relay);
                        Ok(())
                    },
                    Err(e) => Err(SolanaRelayError::from(e)),
                }
            },
        }
    }

    /// Process the add-headers instruction.
    pub fn process_add_headers(
        &mut self,
        anchor_index: u32,
        anchor_bytes: &[u8],
        header_bytes: &Vec<u8>,
    ) -> (r: Result<(), SolanaRelayError>)
        requires
            old(self).wf(),
            *old(self) matches State::Active(relay) ==> {
                &&& anchor_bytes@.len() == 80
                &&& relay.retained(anchor_index as int)
                &&& header_bytes@.len() > 0
                &&& relay.hist().len() + num_chunks(header_bytes@) <= usize::MAX
                &&& (Relay::spec_parse_ok(header_bytes@) && relay.spec_target_ok(
                    false,
                    anchor_bytes@,
                    header_bytes@,
                )) ==> relay.spec_attach_safe(anchor_index as int, header_bytes@)
            },
        ensures
            Self::spec_add_headers_post(
                *old(self),
                *final(self),
                r,
                anchor_index,
                anchor_bytes@,
                header_bytes@,
            ),
    {
        match self {
            State::Uninitialized => {
                proof {
                    assert(*old(self) is Uninitialized);
                }
                Err(SolanaRelayError::NotYetInit)
            },
            State::Active(relay) => {
                match relay.add_headers(anchor_index, anchor_bytes, header_bytes) {
                    Ok(_) => Ok(()),
                    Err(e) => Err(SolanaRelayError::from(e)),
                }
            },
        }
    }

    /// Process the add-difficulty-change instruction.
    pub fn process_add_difficulty_change(
        &mut self,
        old_period_start_bytes: &[u8],
        old_period_end_index: u32,
        old_period_end_bytes: &[u8],
        header_bytes: &Vec<u8>,
    ) -> (r: Result<(), SolanaRelayError>)
        requires
            old(self).wf(),
            *old(self) matches State::Active(relay) ==> {
                &&& old_period_start_bytes@.len() == 80
                &&& old_period_end_bytes@.len() == 80
                &&& relay.retained(old_period_end_index as int)
                &&& relay.retained(
                    relay.hist()[old_period_end_index as int].epoch_start_index as int,
                )
                &&& header_bytes@.len() > 0
                &&& relay.hist().len() + num_chunks(header_bytes@) <= usize::MAX
                &&& (Relay::spec_parse_ok(header_bytes@) && relay.hist()[
                    old_period_end_index as int
                ].height % 2016 == 2015) ==> {
                    let end = relay.hist()[old_period_end_index as int];
                    let start = relay.hist()[end.epoch_start_index as int];
                    &&& start.height == end.height - 2015
                    &&& header_target(old_period_start_bytes@) == header_target(
                        old_period_end_bytes@,
                    )
                    &&& target_representable(old_period_start_bytes@)
                    &&& crate::header::header_timestamp(old_period_start_bytes@)
                        <= crate::header::header_timestamp(old_period_end_bytes@)
                    &&& header_target(old_period_start_bytes@)
                        * crate::header::spec_clamped_elapsed(
                        crate::header::header_timestamp(old_period_start_bytes@),
                        crate::header::header_timestamp(old_period_end_bytes@),
                    ) < crate::header::pow256(32)
                    &&& target_representable(chunk(header_bytes@, 0))
                    &&& relay.spec_attach_safe(old_period_end_index as int, header_bytes@)
                }
            },
        ensures
            Self::spec_add_difficulty_change_post(
                *old(self),
                *final(self),
                r,
                old_period_start_bytes@,
                old_period_end_index,
                old_period_end_bytes@,
                header_bytes@,
            ),
    {
        match self {
            State::Uninitialized => Err(SolanaRelayError::NotYetInit),
            State::Active(relay) => {
                match relay.add_difficulty_change(
                    old_period_start_bytes,
                    old_period_end_index,
                    old_period_end_bytes,
                    header_bytes,
                ) {
                    Ok(_) => Ok(()),
                    Err(e) => Err(SolanaRelayError::from(e)),
                }
            },
        }
    }

    /// Process the mark-new-heaviest instruction.
    pub fn process_mark_new_heaviest(
        &mut self,
        lca_index: u32,
        current_best: &[u8],
        new_best_index: u32,
        new_best: &[u8],
    ) -> (r: Result<(), SolanaRelayError>)
        requires
            old(self).wf(),
            *old(self) matches State::Active(relay) ==> {
                &&& current_best@.len() == 80
                &&& new_best@.len() == 80
                &&& relay.retained(lca_index as int)
                &&& relay.retained(new_best_index as int)
                &&& relay.recon_ok(
                    relay.hist()[lca_index as int],
                    relay.hist()[new_best_index as int],
                    200,
                )
                &&& relay.recon_ok(
                    relay.hist()[lca_index as int],
                    relay.hist()[relay.current_best_index as int],
                    200,
                )
                &&& relay.hist()[lca_index as int].height + 2016 <= u32::MAX
                &&& relay.spec_weights_needed(
                    relay.hist()[lca_index as int],
                    relay.hist()[relay.current_best_index as int],
                    relay.hist()[new_best_index as int],
                ) ==> {
                    &&& target_representable(current_best@)
                    &&& header_target(current_best@) >= 1
                    &&& target_representable(new_best@)
                    &&& header_target(new_best@) >= 1
                }
            },
        ensures
            Self::spec_mark_new_heaviest_post(
                *old(self),
                *final(self),
                r,
                lca_index,
                current_best@,
                new_best_index,
                new_best@,
            ),
    {
        match self {
            State::Uninitialized => Err(SolanaRelayError::NotYetInit),
            State::Active(relay) => {
                match relay.mark_new_heaviest(
                    lca_index,
                    current_best,
                    new_best_index,
                    new_best,
                ) {
                    Ok(_) => Ok(()),
                    Err(e) => Err(SolanaRelayError::from(e)),
                }
            },
        }
    }

    /// Whether an instruction meets the preconditions of its transition in
    /// the given state.
    pub open spec fn instruction_ok(&self, instruction: RelayInstruction) -> bool {
        match *self {
            State::Uninitialized => true,
            State::Active(relay) => match instruction {
                RelayInstruction::Initialize { .. } => true,
                RelayInstruction::AddHeaders { anchor_index, anchor_bytes, headers } => {
                    &&& anchor_bytes@.len() == 80
                    &&& relay.retained(anchor_index as int)
                    &&& headers@.len() > 0
                    &&& relay.hist().len() + num_chunks(headers@) <= usize::MAX
                    &&& (Relay::spec_parse_ok(headers@) && relay.spec_target_ok(
                        false,
                        anchor_bytes@,
                        headers@,
                    )) ==> relay.spec_attach_safe(anchor_index as int, headers@)
                },
                RelayInstruction::AddDifficultyChange {
                    old_period_start_bytes,
                    old_period_end_index,
                    old_period_end_bytes,
                    headers,
                } => {
                    &&& old_period_start_bytes@.len() == 80
                    &&& old_period_end_bytes@.len() == 80
                    &&& relay.retained(old_period_end_index as int)
                    &&& relay.retained(
                        relay.hist()[old_period_end_index as int].epoch_start_index as int,
                    )
                    &&& headers@.len() > 0
                    &&& relay.hist().len() + num_chunks(headers@) <= usize::MAX
                    &&& (Relay::spec_parse_ok(headers@) && relay.hist()[
                        old_period_end_index as int
                    ].height % 2016 == 2015) ==> {
                        let end = relay.hist()[old_period_end_index as int];
                        let start = relay.hist()[end.epoch_start_index as int];
                        &&& start.height == end.height - 2015
                        &&& header_target(old_period_start_bytes@) == header_target(
                            old_period_end_bytes@,
                        )
                        &&& target_representable(old_period_start_bytes@)
                        &&& crate::header::header_timestamp(old_period_start_bytes@)
                            <= crate::header::header_timestamp(old_period_end_bytes@)
                        &&& header_target(old_period_start_bytes@)
                            * crate::header::spec_clamped_elapsed(
                            crate::header::header_timestamp(old_period_start_bytes@),
                            crate::header::header_timestamp(old_period_end_bytes@),
                        ) < crate::header::pow256(32)
                        &&& target_representable(chunk(headers@, 0))
                        &&& relay.spec_attach_safe(old_period_end_index as int, headers@)
                    }
                },
                RelayInstruction::MarkNewHeaviest {
                    lca_index,
                    current_best,
                    new_best_index,
                    new_best,
                } => {
                    &&& current_best@.len() == 80
                    &&& new_best@.len() == 80
                    &&& relay.retained(lca_index as int)
                    &&& relay.retained(new_best_index as int)
                    &&& relay.recon_ok(
                        relay.hist()[lca_index as int],
                        relay.hist()[new_best_index as int],
                        200,
                    )
                    &&& relay.recon_ok(
                        relay.hist()[lca_index as int],
                        relay.hist()[relay.current_best_index as int],
                        200,
                    )
                    &&& relay.hist()[lca_index as int].height + 2016 <= u32::MAX
                    &&& relay.spec_weights_needed(
                        relay.hist()[lca_index as int],
                        relay.hist()[relay.current_best_index as int],
                        relay.hist()[new_best_index as int],
                    ) ==> {
                        &&& target_representable(current_best@)
                        &&& header_target(current_best@) >= 1
                        &&& target_representable(new_best@)
                        &&& header_target(new_best@) >= 1
                    }
                },
            },
        }
    }

    /// Dispatch one instruction against the state.
    pub fn process(&mut self, instruction: RelayInstruction) -> (r: Result<
        (),
        SolanaRelayError,
    >)
        requires
            old(self).wf(),
            old(self).instruction_ok(instruction),
        ensures
            final(self).wf(),
            r is Err ==> *final(self) == *old(self),
            instruction matches RelayInstruction::Initialize {
                genesis_header,
                genesis_height,
                epoch_start,
            } ==> Self::spec_initialize_post(
                *old(self),
                *final(self),
                r,
                genesis_header@,
                genesis_height,
                epoch_start@,
            ),
            instruction matches RelayInstruction::AddHeaders {
                anchor_index,
                anchor_bytes,
                headers,
            } ==> Self::spec_add_headers_post(
                *old(self),
                *final(self),
                r,
                anchor_index,
                anchor_bytes@,
                headers@,
            ),
            instruction matches RelayInstruction::AddDifficultyChange {
                old_period_start_bytes,
                old_period_end_index,
                old_period_end_bytes,
                headers,
            } ==> Self::spec_add_difficulty_change_post(
                *old(self),
                *final(self),
                r,
                old_period_start_bytes@,
                old_period_end_index,
                old_period_end_bytes@,
                headers@,
            ),
            instruction matches RelayInstruction::MarkNewHeaviest {
                lca_index,
                current_best,
                new_best_index,
                new_best,
            } ==> Self::spec_mark_new_heaviest_post(
                *old(self),
                *final(self),
                r,
                lca_index,
                current_best@,
                new_best_index,
                new_best@,
            ),
    {
        match instruction {
            RelayInstruction::Initialize { genesis_header, genesis_height, epoch_start } => {
                self.process_initialize(
                    genesis_header.as_slice(),
                    genesis_height,
                    &epoch_start,
                )
            },
            RelayInstruction::AddHeaders { anchor_index, anchor_bytes, headers } => {
                self.process_add_headers(anchor_index, anchor_bytes.as_slice(), &headers)
            },
            RelayInstruction::AddDifficultyChange {
                old_period_start_bytes,
                old_period_end_index,
                old_period_end_bytes,
                headers,
            } => {
                self.process_add_difficulty_change(
                    old_period_start_bytes.as_slice(),
                    old_period_end_index,
                    old_period_end_bytes.as_slice(),
                    &headers,
                )
            },
            RelayInstruction::MarkNewHeaviest {
                lca_index,
                current_best,
                new_best_index,
                new_best,
            } => {
                self.process_mark_new_heaviest(
                    lca_index,
                    current_best.as_slice(),
                    new_best_index,
                    new_best.as_slice(),
                )
            },
        }
    }
}

} // verus!
