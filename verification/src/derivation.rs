//! The content derivation engine: a pure, deterministic transformation from
//! a parsed consensus object (plus, for update ranges, the current time) to
//! a content key and a fork-versioned content value.

use vstd::prelude::*;
use vstd::slice::slice_to_vec;
use crate::FixtureError;
use crate::keys::ContentKey;
use crate::slots::{start_period_of, get_start_period, BEACON_GENESIS_TIME, SLOTS_PER_EPOCH};
use crate::values::{
    ContentValue, ForkName, HistoricalSummariesProof, HistoricalSummary,
    HISTORICAL_SUMMARIES_LIMIT,
};

verus! {

/// The parsed, fork-specific representation of one consensus-layer API
/// response, reduced to the data the derivation rules read: slots, roots,
/// the canonical payload bytes of the inner object, and, for a beacon
/// state, its historical summaries and their proof hashes.
#[derive(Debug)]
pub enum ConsensusObject {
    /// A light-client bootstrap and the block root it was fetched for.
    Bootstrap { block_root: Vec<u8>, payload: Vec<u8> },
    /// A finality update and the slot of its finalized header.
    FinalityUpdate { finalized_slot: u64, payload: Vec<u8> },
    /// An optimistic update and its signature slot.
    OptimisticUpdate { signature_slot: u64, payload: Vec<u8> },
    /// The single update fetched for the current sync committee period.
    UpdateRange { payload: Vec<u8> },
    /// A finalized beacon state: its slot, historical summaries, and the
    /// hashes of the historical-summaries proof built from it.
    BeaconState {
        slot: u64,
        summaries: Vec<HistoricalSummary>,
        state_proof_hashes: Vec<Vec<u8>>,
    },
}

impl ConsensusObject {
    /// Well-formedness of a consensus object.
    pub open spec fn wf(self) -> bool {
        match self {
            ConsensusObject::Bootstrap { block_root, payload } => block_root@.len() == 32,
            ConsensusObject::BeaconState { slot, summaries, state_proof_hashes } => {
                &&& summaries@.len() <= HISTORICAL_SUMMARIES_LIMIT
                &&& forall|i: int| 0 <= i < summaries@.len() ==> (#[trigger] summaries@[i]).wf()
            },
            _ => true,
        }
    }

    /// Whether derivation succeeds on this object: everything derives,
    /// except a beacon state whose proof is not five 32-byte hashes.
    pub open spec fn derivable(self) -> bool {
        match self {
            ConsensusObject::BeaconState { slot, summaries, state_proof_hashes } => {
                state_proof_hashes@.len() == 5 && forall|i: int|
                    0 <= i < 5 ==> (#[trigger] state_proof_hashes@[i]@).len() == 32
            },
            _ => true,
        }
    }
}

/// What derivation promises of its result: per query kind, which key is
/// produced and how the value wraps the object, all fork-tagged.
pub open spec fn derive_post(
    obj: ConsensusObject,
    now_secs: u64,
    key: ContentKey,
    value: ContentValue,
) -> bool {
    match obj {
        ConsensusObject::Bootstrap { block_root, payload } => {
            &&& (key matches ContentKey::Bootstrap { block_hash } && block_hash@ == block_root@)
            &&& (value matches ContentValue::Bootstrap { fork, payload: vp } && fork
                == ForkName::Deneb && vp@ == payload@)
        },
        ConsensusObject::FinalityUpdate { finalized_slot, payload } => {
            &&& (key matches ContentKey::FinalityUpdate { finalized_slot: s } && s
                == finalized_slot)
            &&& (value matches ContentValue::FinalityUpdate { fork, payload: vp } && fork
                == ForkName::Deneb && vp@ == payload@)
        },
        ConsensusObject::OptimisticUpdate { signature_slot, payload } => {
            &&& (key matches ContentKey::OptimisticUpdate { signature_slot: s } && s
                == signature_slot)
            &&& (value matches ContentValue::OptimisticUpdate { fork, payload: vp } && fork
                == ForkName::Deneb && vp@ == payload@)
        },
        ConsensusObject::UpdateRange { payload } => {
            &&& (key matches ContentKey::UpdatesByRange { start_period, count } && start_period
                == start_period_of(now_secs) && count == 1)
            &&& (value matches ContentValue::UpdatesByRange { fork, payload: vp } && fork
                == ForkName::Deneb && vp@ == payload@)
        },
        ConsensusObject::BeaconState { slot, summaries, state_proof_hashes } => {
            &&& (key matches ContentKey::HistoricalSummaries { epoch } && epoch == slot
                / SLOTS_PER_EPOCH)
            &&& (value matches ContentValue::HistoricalSummariesWithProof {
                fork,
                epoch,
                summaries: vs,
                state_proof,
            } && {
                &&& fork == ForkName::Deneb
                &&& epoch == slot / SLOTS_PER_EPOCH
                &&& vs@.len() == summaries@.len()
                &&& (forall|i: int|
                    0 <= i < vs@.len() ==> (#[trigger] vs@[i]).block_summary_root@ == summaries@[
                        i
                    ].block_summary_root@ && vs@[i].state_summary_root@ == summaries@[
                        i
                    ].state_summary_root@)
                &&& state_proof.spec_hashes().len() == 5
                &&& (forall|i: int|
                    0 <= i < 5 ==> #[trigger] state_proof.spec_hashes()[i]
                        == state_proof_hashes@[i]@)
            })
        },
    }
}

/// Copies a list of byte strings.
fn copy_byte_vecs(v: &Vec<Vec<u8>>) -> (r: Vec<Vec<u8>>)
    ensures
        r@.len() == v@.len(),
        forall|i: int| 0 <= i < v@.len() ==> (#[trigger] r@[i]@) == v@[i]@,
{
    let mut out: Vec<Vec<u8>> = Vec::new();
    let mut i: usize = 0;
    while i < v.len()
        invariant
            0 <= i <= v@.len(),
            out@.len() == i,
            forall|j: int| 0 <= j < i ==> (#[trigger] out@[j]@) == v@[j]@,
        decreases v@.len() - i,
    {
        out.push(slice_to_vec(v[i].as_slice()));
        i += 1;
    }
    out
}

/// Copies a summaries list root by root.
fn copy_summaries(v: &Vec<HistoricalSummary>) -> (r: Vec<HistoricalSummary>)
    ensures
        r@.len() == v@.len(),
        forall|i: int|
            0 <= i < v@.len() ==> (#[trigger] r@[i]).block_summary_root@ == v@[
                i
            ].block_summary_root@ && r@[i].state_summary_root@ == v@[i].state_summary_root@,
{
    let mut out: Vec<HistoricalSummary> = Vec::new();
    let mut i: usize = 0;
    while i < v.len()
        invariant
            0 <= i <= v@.len(),
            out@.len() == i,
            forall|j: int|
                0 <= j < i ==> (#[trigger] out@[j]).block_summary_root@ == v@[
                    j
                ].block_summary_root@ && out@[j].state_summary_root@ == v@[j].state_summary_root@,
        decreases v@.len() - i,
    {
        let s = &v[i];
        out.push(
            HistoricalSummary {
                block_summary_root: slice_to_vec(s.block_summary_root.as_slice()),
                state_summary_root: slice_to_vec(s.state_summary_root.as_slice()),
            },
        );
        i += 1;
    }
    out
}

/// Derives the content key and fork-versioned content value for one
/// consensus object. For an update range, `now_secs` fixes the sync
/// committee period; no other derivation reads the clock. Fails with
/// `FixtureError::InvariantViolation` exactly when a beacon state's proof is not
/// five 32-byte hashes.
pub fn derive(obj: &ConsensusObject, now_secs: u64) -> (r: Result<(ContentKey, ContentValue), FixtureError>)
    requires
        obj is UpdateRange ==> now_secs >= BEACON_GENESIS_TIME,
        obj.wf(),
    ensures
        r is Ok <==> obj.derivable(),
        r is Ok ==> derive_post(*obj, now_secs, r->Ok_0.0, r->Ok_0.1) && r->Ok_0.0.wf()
            && r->Ok_0.1.wf(),
        r is Err ==> r->Err_0 == FixtureError::InvariantViolation,
{
    match obj {
        ConsensusObject::Bootstrap { block_root, payload } => {
            let key = ContentKey::Bootstrap { block_hash: slice_to_vec(block_root.as_slice()) };
            let value = ContentValue::Bootstrap {
                fork: ForkName::Deneb,
                payload: slice_to_vec(payload.as_slice()),
            };
            Ok((key, value))
        },
        ConsensusObject::FinalityUpdate { finalized_slot, payload } => {
            let key = ContentKey::FinalityUpdate { finalized_slot: *finalized_slot };
            let value = ContentValue::FinalityUpdate {
                fork: ForkName::Deneb,
                payload: slice_to_vec(payload.as_slice()),
            };
            Ok((key, value))
        },
        ConsensusObject::OptimisticUpdate { signature_slot, payload } => {
            let key = ContentKey::OptimisticUpdate { signature_slot: *signature_slot };
            let value = ContentValue::OptimisticUpdate {
                fork: ForkName::Deneb,
                payload: slice_to_vec(payload.as_slice()),
            };
            Ok((key, value))
        },
        ConsensusObject::UpdateRange { payload } => {
            let start_period = get_start_period(now_secs);
            let key = ContentKey::UpdatesByRange { start_period, count: 1 };
            let value = ContentValue::UpdatesByRange {
                fork: ForkName::Deneb,
                payload: slice_to_vec(payload.as_slice()),
            };
            Ok((key, value))
        },
        ConsensusObject::BeaconState { slot, summaries, state_proof_hashes } => {
            let hashes = copy_byte_vecs(state_proof_hashes);
            proof {
                assert forall|i: int|
                    0 <= i < hashes@.len() implies (#[trigger] hashes@[i]@).len()
                    == state_proof_hashes@[i]@.len() by {
                    assert(hashes@[i]@ == state_proof_hashes@[i]@);
                }
                assert forall|i: int|
                    0 <= i < state_proof_hashes@.len() implies (
                #[trigger] state_proof_hashes@[i]@).len() == hashes@[i]@.len() by {
                    assert(hashes@[i]@ == state_proof_hashes@[i]@);
                }
            }
            let state_proof = match HistoricalSummariesProof::new(hashes) {
                Ok(p) => p,
                Err(e) => {
                    return Err(e);
                },
            };
            let epoch = *slot / SLOTS_PER_EPOCH;
            let key = ContentKey::HistoricalSummaries { epoch };
            let value = ContentValue::HistoricalSummariesWithProof {
                fork: ForkName::Deneb,
                epoch,
                summaries: copy_summaries(summaries),
                state_proof,
            };
            Ok((key, value))
        },
    }
}

/// Idempotence of derivation: two runs on the same consensus object and
/// the same instant yield a key and a value with identical bytes. Nothing
/// but the object and the explicitly passed time enters the result.
pub proof fn lemma_derive_deterministic(
    obj: ConsensusObject,
    now_secs: u64,
    k1: ContentKey,
    v1: ContentValue,
    k2: ContentKey,
    v2: ContentValue,
)
    requires
        derive_post(obj, now_secs, k1, v1),
        derive_post(obj, now_secs, k2, v2),
    ensures
        k1.spec_bytes() == k2.spec_bytes(),
        v1.spec_bytes() == v2.spec_bytes(),
{
    match obj {
        ConsensusObject::Bootstrap { block_root, payload } => {
            assert(k1.spec_bytes() =~= k2.spec_bytes());
            assert(v1.spec_bytes() =~= v2.spec_bytes());
        },
        ConsensusObject::FinalityUpdate { finalized_slot, payload } => {
            assert(k1.spec_bytes() =~= k2.spec_bytes());
            assert(v1.spec_bytes() =~= v2.spec_bytes());
        },
        ConsensusObject::OptimisticUpdate { signature_slot, payload } => {
            assert(k1.spec_bytes() =~= k2.spec_bytes());
            assert(v1.spec_bytes() =~= v2.spec_bytes());
        },
        ConsensusObject::UpdateRange { payload } => {
            assert(k1.spec_bytes() =~= k2.spec_bytes());
            assert(v1.spec_bytes() =~= v2.spec_bytes());
        },
        ConsensusObject::BeaconState { slot, summaries, state_proof_hashes } => {
            assert(k1.spec_bytes() =~= k2.spec_bytes());
            match v1 {
                ContentValue::HistoricalSummariesWithProof {
                    fork: f1,
                    epoch: e1,
                    summaries: s1,
                    state_proof: sp1,
                } => {
                    match v2 {
                        ContentValue::HistoricalSummariesWithProof {
                            fork: f2,
                            epoch: e2,
                            summaries: s2,
                            state_proof: sp2,
                        } => {
                            assert(sp1.spec_hashes() =~= sp2.spec_hashes());
                            crate::values::lemma_summaries_bytes_congruence(s1@, s2@);
                            assert(v1.spec_bytes() == v2.spec_bytes());
                        },
                        _ => {
                            assert(false);
                        },
                    }
                },
                _ => {
                    assert(false);
                },
            }
        },
    }
}

} // verus!
