//! Fork-versioned content values and their canonical binary encoding.
//!
//! Every value carries an explicit fork-name tag, rendered as a four-byte
//! fork digest in front of the payload, so that decoders can switch on the
//! tag when future forks are added.

use vstd::prelude::*;
use vstd::bytes::{
    spec_u32_from_le_bytes, spec_u32_to_le_bytes, spec_u64_from_le_bytes, spec_u64_to_le_bytes,
    u32_from_le_bytes, u32_to_le_bytes, u64_from_le_bytes, u64_to_le_bytes,
};
use vstd::slice::{slice_index_get, slice_subrange, slice_to_vec};
use crate::FixtureError;

verus! {

/// The historical summaries proof always has a length of 5 hashes.
pub const HISTORICAL_SUMMARIES_PROOF_LENGTH: usize = 5;

/// Capacity bound of the historical-summaries list in the beacon state.
pub const HISTORICAL_SUMMARIES_LIMIT: u64 = 16777216;

/// Byte length of the fixed-size part of the historical-summaries-with-
/// proof container: an 8-byte epoch, a 4-byte offset and a 160-byte proof.
pub const SUMMARIES_DATA_OFFSET: u32 = 172;

/// The consensus fork a value is tagged with. This system pins all values
/// to one fork; decoding switches on the tag so further forks can be added
/// without breaking older values.
#[derive(Clone, Copy, Debug, PartialEq, Eq, Structural)]
pub enum ForkName {
    Deneb,
}

/// The four-byte digest that renders a fork tag in the binary encoding.
pub open spec fn fork_digest(f: ForkName) -> Seq<u8> {
    match f {
        ForkName::Deneb => seq![0x6au8, 0x95u8, 0xa1u8, 0xa9u8],
    }
}

/// Serializes a fork tag as its four-byte digest.
pub fn fork_digest_bytes(f: ForkName) -> (r: Vec<u8>)
    ensures
        r@ == fork_digest(f),
{
    match f {
        ForkName::Deneb => {
            let mut v: Vec<u8> = Vec::new();
            v.push(0x6a);
            v.push(0x95);
            v.push(0xa1);
            v.push(0xa9);
            proof {
                assert(v@ =~= fork_digest(ForkName::Deneb));
            }
            v
        },
    }
}

/// One entry of the historical-summaries list: the roots summarizing a span
/// of blocks and states.
#[derive(Debug)]
pub struct HistoricalSummary {
    pub block_summary_root: Vec<u8>,
    pub state_summary_root: Vec<u8>,
}

impl HistoricalSummary {
    /// Both roots are 32-byte hashes.
    pub open spec fn wf(self) -> bool {
        self.block_summary_root@.len() == 32 && self.state_summary_root@.len() == 32
    }

    /// The fixed 64-byte encoding of a summary: block root then state root.
    pub open spec fn spec_bytes(self) -> Seq<u8> {
        self.block_summary_root@ + self.state_summary_root@
    }
}

/// The merkle proof anchoring the historical-summaries list root inside the
/// beacon state root. Its length is exactly five hashes; any other length
/// is a hard construction error.
#[derive(Debug)]
pub struct HistoricalSummariesProof {
    hashes: Vec<Vec<u8>>,
}

impl HistoricalSummariesProof {
    /// The proof's hashes, each a 32-byte value.
    pub closed spec fn spec_hashes(self) -> Seq<Seq<u8>> {
        Seq::new(self.hashes@.len(), |i: int| self.hashes@[i]@)
    }

    /// Well-formedness: exactly five 32-byte hashes.
    pub open spec fn wf(self) -> bool {
        self.spec_hashes().len() == 5 && forall|i: int|
            0 <= i < 5 ==> (#[trigger] self.spec_hashes()[i]).len() == 32
    }

    /// Builds a proof from a hash sequence. Fails with
    /// `FixtureError::InvariantViolation` exactly when the sequence is not five
    /// 32-byte hashes: such a sequence signals a mismatch with the proof
    /// scheme and must not be tolerated.
    pub fn new(hashes: Vec<Vec<u8>>) -> (r: Result<Self, FixtureError>)
        ensures
            r is Ok <==> (hashes@.len() == 5 && forall|i: int|
                0 <= i < 5 ==> (#[trigger] hashes@[i]@).len() == 32),
            r is Ok ==> r->Ok_0.wf() && r->Ok_0.spec_hashes() == Seq::new(
                5,
                |i: int| hashes@[i]@,
            ),
            r is Err ==> r->Err_0 == FixtureError::InvariantViolation,
    {
        if hashes.len() != HISTORICAL_SUMMARIES_PROOF_LENGTH {
            return Err(FixtureError::InvariantViolation);
        }
        let mut i: usize = 0;
        while i < hashes.len()
            invariant
                0 <= i <= hashes@.len(),
                hashes@.len() == 5,
                forall|j: int| 0 <= j < i ==> (#[trigger] hashes@[j]@).len() == 32,
            decreases hashes@.len() - i,
        {
            if hashes[i].len() != 32 {
                return Err(FixtureError::InvariantViolation);
            }
            i += 1;
        }
        let ghost gh = hashes@;
        let r = HistoricalSummariesProof { hashes };
        proof {
            assert(r.spec_hashes() =~= Seq::new(5, |i: int| gh[i]@));
        }
        Ok(r)
    }

    /// The number of hashes in the proof.
    pub fn len(&self) -> (n: usize)
        ensures
            n == self.spec_hashes().len(),
    {
        self.hashes.len()
    }
}

/// The flat 160-byte encoding of a five-hash proof.
pub open spec fn proof_flat(h: Seq<Seq<u8>>) -> Seq<u8>
    recommends
        h.len() == 5,
{
    h[0] + h[1] + h[2] + h[3] + h[4]
}

/// The concatenated fixed-size encodings of a summaries list.
pub open spec fn summaries_bytes(s: Seq<HistoricalSummary>) -> Seq<u8>
    decreases s.len(),
{
    if s.len() == 0 {
        Seq::empty()
    } else {
        summaries_bytes(s.drop_last()) + s.last().spec_bytes()
    }
}

/// A tagged, fork-versioned content payload, one variant per query kind.
///
/// The light-client payloads are carried as the canonical binary encoding
/// of the inner consensus object; the encoding layer frames them with the
/// fork digest and, where the scheme asks for it, list offsets.
#[derive(Debug)]
pub enum ContentValue {
    /// A light-client bootstrap, fork-tagged.
    Bootstrap { fork: ForkName, payload: Vec<u8> },
    /// A light-client finality update, fork-tagged.
    FinalityUpdate { fork: ForkName, payload: Vec<u8> },
    /// A light-client optimistic update, fork-tagged.
    OptimisticUpdate { fork: ForkName, payload: Vec<u8> },
    /// A single-element update range: the one fetched update, fork-tagged.
    UpdatesByRange { fork: ForkName, payload: Vec<u8> },
    /// The historical summaries of the state at an epoch, with the proof
    /// anchoring their root in the state root.
    HistoricalSummariesWithProof {
        fork: ForkName,
        epoch: u64,
        summaries: Vec<HistoricalSummary>,
        state_proof: HistoricalSummariesProof,
    },
}

/// The query kind a value or key belongs to.
#[derive(Clone, Copy, Debug, PartialEq, Eq, Structural)]
pub enum ContentKind {
    Bootstrap,
    UpdatesByRange,
    FinalityUpdate,
    OptimisticUpdate,
    HistoricalSummaries,
}

impl ContentValue {
    /// The query kind this value belongs to.
    pub open spec fn kind(self) -> ContentKind {
        match self {
            ContentValue::Bootstrap { .. } => ContentKind::Bootstrap,
            ContentValue::FinalityUpdate { .. } => ContentKind::FinalityUpdate,
            ContentValue::OptimisticUpdate { .. } => ContentKind::OptimisticUpdate,
            ContentValue::UpdatesByRange { .. } => ContentKind::UpdatesByRange,
            ContentValue::HistoricalSummariesWithProof { .. } => ContentKind::HistoricalSummaries,
        }
    }

    /// Well-formedness of a value.
    pub open spec fn wf(self) -> bool {
        match self {
            ContentValue::HistoricalSummariesWithProof { fork, epoch, summaries, state_proof } => {
                &&& state_proof.wf()
                &&& summaries@.len() <= HISTORICAL_SUMMARIES_LIMIT
                &&& forall|i: int| 0 <= i < summaries@.len() ==> (#[trigger] summaries@[i]).wf()
            },
            _ => true,
        }
    }

    /// The exact canonical bytes of the value.
    pub open spec fn spec_bytes(self) -> Seq<u8> {
        match self {
            ContentValue::Bootstrap { fork, payload } => fork_digest(fork) + payload@,
            ContentValue::FinalityUpdate { fork, payload } => fork_digest(fork) + payload@,
            ContentValue::OptimisticUpdate { fork, payload } => fork_digest(fork) + payload@,
            ContentValue::UpdatesByRange { fork, payload } => seq![4u8, 0u8, 0u8, 0u8]
                + fork_digest(fork) + payload@,
            ContentValue::HistoricalSummariesWithProof { fork, epoch, summaries, state_proof } =>
                fork_digest(fork) + spec_u64_to_le_bytes(epoch) + spec_u32_to_le_bytes(
                SUMMARIES_DATA_OFFSET,
            ) + proof_flat(state_proof.spec_hashes()) + summaries_bytes(summaries@),
        }
    }

    /// Serializes the value to its canonical bytes.
    pub fn encode(&self) -> (r: Vec<u8>)
        requires
            self.wf(),
        ensures
            r@ == self.spec_bytes(),
    {
        match self {
            ContentValue::Bootstrap { fork, payload } => {
                let mut out = fork_digest_bytes(*fork);
                let mut body = slice_to_vec(payload.as_slice());
                out.append(&mut body);
                out
            },
            ContentValue::FinalityUpdate { fork, payload } => {
                let mut out = fork_digest_bytes(*fork);
                let mut body = slice_to_vec(payload.as_slice());
                out.append(&mut body);
                out
            },
            ContentValue::OptimisticUpdate { fork, payload } => {
                let mut out = fork_digest_bytes(*fork);
                let mut body = slice_to_vec(payload.as_slice());
                out.append(&mut body);
                out
            },
            ContentValue::UpdatesByRange { fork, payload } => {
                let mut out: Vec<u8> = Vec::new();
                out.push(4);
                out.push(0);
                out.push(0);
                out.push(0);
                let mut digest = fork_digest_bytes(*fork);
                out.append(&mut digest);
                let mut body = slice_to_vec(payload.as_slice());
                out.append(&mut body);
                proof {
                    assert(out@ =~= self.spec_bytes());
                }
                out
            },
            ContentValue::HistoricalSummariesWithProof { fork, epoch, summaries, state_proof } => {
                let mut out = fork_digest_bytes(*fork);
                let mut epoch_bytes = u64_to_le_bytes(*epoch);
                out.append(&mut epoch_bytes);
                let mut offset_bytes = u32_to_le_bytes(SUMMARIES_DATA_OFFSET);
                out.append(&mut offset_bytes);
                let ghost prefix = out@;
                let mut i: usize = 0;
                while i < state_proof.hashes.len()
                    invariant
                        0 <= i <= state_proof.hashes@.len(),
                        state_proof.wf(),
                        out@ == prefix + partial_proof_flat(state_proof.spec_hashes(), i as int),
                    decreases state_proof.hashes@.len() - i,
                {
                    let mut h = slice_to_vec(state_proof.hashes[i].as_slice());
                    out.append(&mut h);
                    proof {
                        assert(partial_proof_flat(state_proof.spec_hashes(), i + 1)
                            =~= partial_proof_flat(state_proof.spec_hashes(), i as int)
                            + state_proof.spec_hashes()[i as int]);
                        assert(out@ =~= prefix + partial_proof_flat(state_proof.spec_hashes(), i + 1));
                    }
                    i += 1;
                }
                proof {
                    reveal_with_fuel(partial_proof_flat, 6);
                    assert(partial_proof_flat(state_proof.spec_hashes(), 5) =~= proof_flat(
                        state_proof.spec_hashes(),
                    ));
                }
                let ghost prefix2 = out@;
                let mut k: usize = 0;
                while k < summaries.len()
                    invariant
                        0 <= k <= summaries@.len(),
                        forall|j: int| 0 <= j < summaries@.len() ==> (#[trigger] summaries@[j]).wf(),
                        out@ == prefix2 + summaries_bytes(summaries@.take(k as int)),
                    decreases summaries@.len() - k,
                {
                    let s = &summaries[k];
                    let mut b = slice_to_vec(s.block_summary_root.as_slice());
                    out.append(&mut b);
                    let mut t = slice_to_vec(s.state_summary_root.as_slice());
                    out.append(&mut t);
                    proof {
                        assert(summaries@.take(k + 1).drop_last() =~= summaries@.take(k as int));
                        assert(summaries@.take(k + 1).last() == summaries@[k as int]);
                        assert(out@ =~= prefix2 + summaries_bytes(summaries@.take(k + 1)));
                    }
                    k += 1;
                }
                proof {
                    assert(summaries@.take(summaries@.len() as int) =~= summaries@);
                    assert(out@ =~= self.spec_bytes());
                }
                out
            },
        }
    }
}

/// The flat encoding of the first `i` hashes of a proof.
pub open spec fn partial_proof_flat(h: Seq<Seq<u8>>, i: int) -> Seq<u8>
    decreases i,
{
    if i <= 0 {
        Seq::empty()
    } else {
        partial_proof_flat(h, i - 1) + h[i - 1]
    }
}

/// Whether `b` can be decoded as a value of the given kind.
pub open spec fn decodable(kind: ContentKind, b: Seq<u8>) -> bool {
    match kind {
        ContentKind::Bootstrap => b.len() >= 4 && b.subrange(0, 4) == fork_digest(ForkName::Deneb),
        ContentKind::FinalityUpdate => b.len() >= 4 && b.subrange(0, 4) == fork_digest(
            ForkName::Deneb,
        ),
        ContentKind::OptimisticUpdate => b.len() >= 4 && b.subrange(0, 4) == fork_digest(
            ForkName::Deneb,
        ),
        ContentKind::UpdatesByRange => b.len() >= 8 && b.subrange(0, 4) == seq![4u8, 0u8, 0u8, 0u8]
            && b.subrange(4, 8) == fork_digest(ForkName::Deneb),
        ContentKind::HistoricalSummaries => {
            &&& b.len() >= 176
            &&& b.subrange(0, 4) == fork_digest(ForkName::Deneb)
            &&& spec_u32_from_le_bytes(b.subrange(12, 16)) == SUMMARIES_DATA_OFFSET
            &&& (b.len() - 176) % 64 == 0
            &&& (b.len() - 176) / 64 <= HISTORICAL_SUMMARIES_LIMIT
        },
    }
}

/// How a decoded value relates to the bytes it was decoded from.
pub open spec fn decoded_matches(v: ContentValue, b: Seq<u8>) -> bool {
    match v {
        ContentValue::Bootstrap { fork, payload } => fork == ForkName::Deneb && payload@ == b.skip(
            4,
        ),
        ContentValue::FinalityUpdate { fork, payload } => fork == ForkName::Deneb && payload@
            == b.skip(4),
        ContentValue::OptimisticUpdate { fork, payload } => fork == ForkName::Deneb && payload@
            == b.skip(4),
        ContentValue::UpdatesByRange { fork, payload } => fork == ForkName::Deneb && payload@
            == b.skip(8),
        ContentValue::HistoricalSummariesWithProof { fork, epoch, summaries, state_proof } => {
            &&& fork == ForkName::Deneb
            &&& epoch == spec_u64_from_le_bytes(b.subrange(4, 12))
            &&& state_proof.spec_hashes().len() == 5
            &&& forall|i: int|
                0 <= i < 5 ==> #[trigger] state_proof.spec_hashes()[i] == b.subrange(
                    16 + 32 * i,
                    48 + 32 * i,
                )
            &&& summaries@.len() == (b.len() - 176) / 64
            &&& forall|i: int|
                0 <= i < summaries@.len() ==> (#[trigger] summaries@[i]).block_summary_root@
                    == b.subrange(176 + 64 * i, 208 + 64 * i) && summaries@[i].state_summary_root@
                    == b.subrange(208 + 64 * i, 240 + 64 * i)
        },
    }
}

proof fn lemma_summaries_bytes_props(s: Seq<HistoricalSummary>)
    requires
        forall|i: int| 0 <= i < s.len() ==> (#[trigger] s[i]).wf(),
    ensures
        summaries_bytes(s).len() == 64 * s.len(),
        forall|i: int|
            0 <= i < s.len() ==> summaries_bytes(s).subrange(64 * i, 64 * i + 32) == (
            #[trigger] s[i]).block_summary_root@ && summaries_bytes(s).subrange(
                64 * i + 32,
                64 * i + 64,
            ) == s[i].state_summary_root@,
    decreases s.len(),
{
    if s.len() > 0 {
        let pre = s.drop_last();
        assert forall|i: int| 0 <= i < pre.len() implies (#[trigger] pre[i]).wf() by {
            assert(pre[i] == s[i]);
        }
        lemma_summaries_bytes_props(pre);
        assert(s.last().wf());
        assert forall|i: int|
            0 <= i < s.len() implies summaries_bytes(s).subrange(64 * i, 64 * i + 32) == (
        #[trigger] s[i]).block_summary_root@ && summaries_bytes(s).subrange(
            64 * i + 32,
            64 * i + 64,
        ) == s[i].state_summary_root@ by {
            if i < s.len() - 1 {
                assert(pre[i] == s[i]);
                assert(summaries_bytes(s).subrange(64 * i, 64 * i + 32) =~= summaries_bytes(
                    pre,
                ).subrange(64 * i, 64 * i + 32));
                assert(summaries_bytes(s).subrange(64 * i + 32, 64 * i + 64) =~= summaries_bytes(
                    pre,
                ).subrange(64 * i + 32, 64 * i + 64));
            } else {
                assert(summaries_bytes(s).subrange(64 * i, 64 * i + 32)
                    =~= s[i].block_summary_root@);
                assert(summaries_bytes(s).subrange(64 * i + 32, 64 * i + 64)
                    =~= s[i].state_summary_root@);
            }
        }
    }
}

/// Two summaries lists that agree root by root encode to the same bytes.
pub proof fn lemma_summaries_bytes_congruence(s1: Seq<HistoricalSummary>, s2: Seq<HistoricalSummary>)
    requires
        s1.len() == s2.len(),
        forall|i: int|
            0 <= i < s1.len() ==> (#[trigger] s1[i]).block_summary_root@
                == s2[i].block_summary_root@ && s1[i].state_summary_root@
                == s2[i].state_summary_root@,
    ensures
        summaries_bytes(s1) == summaries_bytes(s2),
    decreases s1.len(),
{
    if s1.len() > 0 {
        let p1 = s1.drop_last();
        let p2 = s2.drop_last();
        assert forall|i: int|
            0 <= i < p1.len() implies (#[trigger] p1[i]).block_summary_root@
            == p2[i].block_summary_root@ && p1[i].state_summary_root@
            == p2[i].state_summary_root@ by {
            assert(p1[i] == s1[i]);
            assert(p2[i] == s2[i]);
        }
        lemma_summaries_bytes_congruence(p1, p2);
        assert(s1[s1.len() - 1].block_summary_root@ == s2[s2.len() - 1].block_summary_root@);
        assert(s1.last().spec_bytes() == s2.last().spec_bytes());
    }
}

/// The canonical bytes of a well-formed value decode under the value's own
/// kind: encoding never leaves the decodable set.
pub proof fn lemma_encoded_decodable(v: ContentValue)
    requires
        v.wf(),
    ensures
        decodable(v.kind(), v.spec_bytes()),
{
    vstd::bytes::lemma_auto_spec_u64_to_from_le_bytes();
    vstd::bytes::lemma_auto_spec_u32_to_from_le_bytes();
    let b = v.spec_bytes();
    match v {
        ContentValue::Bootstrap { fork, payload } => {
            assert(b.subrange(0, 4) =~= fork_digest(ForkName::Deneb));
        },
        ContentValue::FinalityUpdate { fork, payload } => {
            assert(b.subrange(0, 4) =~= fork_digest(ForkName::Deneb));
        },
        ContentValue::OptimisticUpdate { fork, payload } => {
            assert(b.subrange(0, 4) =~= fork_digest(ForkName::Deneb));
        },
        ContentValue::UpdatesByRange { fork, payload } => {
            assert(b.subrange(0, 4) =~= seq![4u8, 0u8, 0u8, 0u8]);
            assert(b.subrange(4, 8) =~= fork_digest(ForkName::Deneb));
        },
        ContentValue::HistoricalSummariesWithProof { fork, epoch, summaries, state_proof } => {
            lemma_summaries_bytes_props(summaries@);
            assert(b.len() == 176 + 64 * summaries@.len());
            assert(b.subrange(0, 4) =~= fork_digest(ForkName::Deneb));
            assert(b.subrange(12, 16) =~= spec_u32_to_le_bytes(SUMMARIES_DATA_OFFSET));
            vstd::arithmetic::div_mod::lemma_mod_multiples_basic(summaries@.len() as int, 64);
            assert(64 * summaries@.len() == summaries@.len() * 64);
            vstd::arithmetic::div_mod::lemma_div_multiples_vanish(summaries@.len() as int, 64);
            assert((b.len() - 176) % 64 == 0);
            assert((b.len() - 176) / 64 == summaries@.len());
        },
    }
}

/// Round trip: any decode result for the canonical bytes of a well-formed
/// value is equal to that value, variant by variant and byte for byte.
pub proof fn lemma_value_round_trip(v: ContentValue, d: ContentValue)
    requires
        v.wf(),
        d.kind() == v.kind(),
        decoded_matches(d, v.spec_bytes()),
    ensures
        d.equiv(v),
{
    vstd::bytes::lemma_auto_spec_u64_to_from_le_bytes();
    vstd::bytes::lemma_auto_spec_u32_to_from_le_bytes();
    let b = v.spec_bytes();
    match v {
        ContentValue::Bootstrap { fork, payload } => {
            assert(b.skip(4) =~= payload@);
        },
        ContentValue::FinalityUpdate { fork, payload } => {
            assert(b.skip(4) =~= payload@);
        },
        ContentValue::OptimisticUpdate { fork, payload } => {
            assert(b.skip(4) =~= payload@);
        },
        ContentValue::UpdatesByRange { fork, payload } => {
            assert(b.skip(8) =~= payload@);
        },
        ContentValue::HistoricalSummariesWithProof { fork, epoch, summaries, state_proof } => {
            lemma_summaries_bytes_props(summaries@);
            assert(b.len() == 176 + 64 * summaries@.len());
            assert(b.subrange(4, 12) =~= spec_u64_to_le_bytes(epoch));
            vstd::arithmetic::div_mod::lemma_mod_multiples_basic(summaries@.len() as int, 64);
            assert(64 * summaries@.len() == summaries@.len() * 64);
            vstd::arithmetic::div_mod::lemma_div_multiples_vanish(summaries@.len() as int, 64);
            assert((b.len() - 176) / 64 == summaries@.len());
            assert forall|i: int|
                0 <= i < 5 implies b.subrange(16 + 32 * i, 48 + 32 * i) == #[trigger] state_proof
                .spec_hashes()[i] by {
                assert(b.subrange(16 + 32 * i, 48 + 32 * i) =~= state_proof.spec_hashes()[i]);
            }
            assert forall|i: int|
                0 <= i < summaries@.len() implies b.subrange(176 + 64 * i, 208 + 64 * i) == (
            #[trigger] summaries@[i]).block_summary_root@ && b.subrange(208 + 64 * i, 240 + 64 * i)
                == summaries@[i].state_summary_root@ by {
                assert(b.subrange(176 + 64 * i, 208 + 64 * i) =~= summaries_bytes(
                    summaries@,
                ).subrange(64 * i, 64 * i + 32));
                assert(b.subrange(208 + 64 * i, 240 + 64 * i) =~= summaries_bytes(
                    summaries@,
                ).subrange(64 * i + 32, 64 * i + 64));
            }
            match d {
                ContentValue::HistoricalSummariesWithProof {
                    fork: df,
                    epoch: de,
                    summaries: ds,
                    state_proof: dsp,
                } => {
                    assert(dsp.spec_hashes() =~= state_proof.spec_hashes());
                },
                _ => {
                    assert(false);
                },
            }
        },
    }
}

/// Whether the Deneb fork digest stands at position `at` of `bytes`.
fn digest_matches(bytes: &[u8], at: usize) -> (r: bool)
    requires
        at + 4 <= bytes@.len(),
    ensures
        r <==> bytes@.subrange(at as int, at + 4) == fork_digest(ForkName::Deneb),
{
    let l = bytes.len();
    let r = *slice_index_get(bytes, at) == 0x6a && *slice_index_get(bytes, at + 1) == 0x95
        && *slice_index_get(bytes, at + 2) == 0xa1 && *slice_index_get(bytes, at + 3) == 0xa9;
    proof {
        assert(bytes@.subrange(at as int, at + 4)[0] == bytes@[at as int]);
        assert(bytes@.subrange(at as int, at + 4)[1] == bytes@[at + 1]);
        assert(bytes@.subrange(at as int, at + 4)[2] == bytes@[at + 2]);
        assert(bytes@.subrange(at as int, at + 4)[3] == bytes@[at + 3]);
        if r {
            assert(bytes@.subrange(at as int, at + 4) =~= fork_digest(ForkName::Deneb));
        }
    }
    r
}

impl ContentValue {
    /// Decodes the canonical bytes of a value of the given kind. Fails with
    /// `FixtureError::Decode` exactly when the bytes do not carry a known fork
    /// digest and a well-formed body for that kind.
    pub fn decode(kind: ContentKind, bytes: &[u8]) -> (r: Result<ContentValue, FixtureError>)
        ensures
            r is Ok <==> decodable(kind, bytes@),
            r is Ok ==> r->Ok_0.kind() == kind && r->Ok_0.wf() && decoded_matches(
                r->Ok_0,
                bytes@,
            ),
            r is Err ==> r->Err_0 == FixtureError::Decode,
    {
        match kind {
            ContentKind::Bootstrap => {
                let payload = Self::decode_tagged_payload(bytes)?;
                Ok(ContentValue::Bootstrap { fork: ForkName::Deneb, payload })
            },
            ContentKind::FinalityUpdate => {
                let payload = Self::decode_tagged_payload(bytes)?;
                Ok(ContentValue::FinalityUpdate { fork: ForkName::Deneb, payload })
            },
            ContentKind::OptimisticUpdate => {
                let payload = Self::decode_tagged_payload(bytes)?;
                Ok(ContentValue::OptimisticUpdate { fork: ForkName::Deneb, payload })
            },
            ContentKind::UpdatesByRange => {
                if bytes.len() < 8 {
                    return Err(FixtureError::Decode);
                }
                let off_ok = *slice_index_get(bytes, 0) == 4 && *slice_index_get(bytes, 1) == 0
                    && *slice_index_get(bytes, 2) == 0 && *slice_index_get(bytes, 3) == 0;
                proof {
                    assert(bytes@.subrange(0, 4)[0] == bytes@[0]);
                    assert(bytes@.subrange(0, 4)[1] == bytes@[1]);
                    assert(bytes@.subrange(0, 4)[2] == bytes@[2]);
                    assert(bytes@.subrange(0, 4)[3] == bytes@[3]);
                    if off_ok {
                        assert(bytes@.subrange(0, 4) =~= seq![4u8, 0u8, 0u8, 0u8]);
                    }
                }
                if !off_ok {
                    return Err(FixtureError::Decode);
                }
                if !digest_matches(bytes, 4) {
                    return Err(FixtureError::Decode);
                }
                let payload = slice_to_vec(slice_subrange(bytes, 8, bytes.len()));
                proof {
                    assert(bytes@.subrange(8, bytes@.len() as int) =~= bytes@.skip(8));
                }
                Ok(ContentValue::UpdatesByRange { fork: ForkName::Deneb, payload })
            },
            ContentKind::HistoricalSummaries => {
                if bytes.len() < 176 {
                    return Err(FixtureError::Decode);
                }
                if !digest_matches(bytes, 0) {
                    return Err(FixtureError::Decode);
                }
                let epoch = u64_from_le_bytes(slice_subrange(bytes, 4, 12));
                let off = u32_from_le_bytes(slice_subrange(bytes, 12, 16));
                if off != SUMMARIES_DATA_OFFSET {
                    return Err(FixtureError::Decode);
                }
                let rem = bytes.len() - 176;
                if rem % 64 != 0 {
                    return Err(FixtureError::Decode);
                }
                let n = rem / 64;
                if (n as u64) > HISTORICAL_SUMMARIES_LIMIT {
                    return Err(FixtureError::Decode);
                }
                let mut hashes: Vec<Vec<u8>> = Vec::new();
                let mut i: usize = 0;
                while i < 5
                    invariant
                        0 <= i <= 5,
                        bytes@.len() >= 176,
                        hashes@.len() == i,
                        forall|j: int|
                            0 <= j < i ==> (#[trigger] hashes@[j]@) == bytes@.subrange(
                                16 + 32 * j,
                                48 + 32 * j,
                            ),
                    decreases 5 - i,
                {
                    let h = slice_to_vec(slice_subrange(bytes, 16 + 32 * i, 48 + 32 * i));
                    hashes.push(h);
                    i += 1;
                }
                let ghost gh = hashes@;
                let state_proof = match HistoricalSummariesProof::new(hashes) {
                    Ok(p) => p,
                    Err(_) => {
                        proof {
                            assert(gh[0]@.len() == 32);
                            assert(false);
                        }
                        return Err(FixtureError::Decode);
                    },
                };
                let mut summaries: Vec<HistoricalSummary> = Vec::new();
                let mut k: usize = 0;
                while k < n
                    invariant
                        0 <= k <= n,
                        bytes@.len() >= 176,
                        bytes@.len() <= usize::MAX,
                        n == (bytes@.len() - 176) / 64,
                        (bytes@.len() - 176) % 64 == 0,
                        summaries@.len() == k,
                        forall|j: int|
                            0 <= j < k ==> (#[trigger] summaries@[j]).block_summary_root@
                                == bytes@.subrange(176 + 64 * j, 208 + 64 * j) && summaries@[j]
                                .state_summary_root@ == bytes@.subrange(
                                208 + 64 * j,
                                240 + 64 * j,
                            ),
                        forall|j: int| 0 <= j < k ==> (#[trigger] summaries@[j]).wf(),
                    decreases n - k,
                {
                    proof {
                        vstd::arithmetic::div_mod::lemma_fundamental_div_mod(
                            (bytes@.len() - 176) as int,
                            64,
                        );
                        assert(64 * n == bytes@.len() - 176);
                    }
                    let base = 176 + 64 * k;
                    let block = slice_to_vec(slice_subrange(bytes, base, base + 32));
                    let state = slice_to_vec(slice_subrange(bytes, base + 32, base + 64));
                    summaries.push(
                        HistoricalSummary { block_summary_root: block, state_summary_root: state },
                    );
                    k += 1;
                }
                let v = ContentValue::HistoricalSummariesWithProof {
                    fork: ForkName::Deneb,
                    epoch,
                    summaries,
                    state_proof,
                };
                Ok(v)
            },
        }
    }

    /// Decoded and original agree: same variant, same fork tag, and all
    /// carried bytes equal.
    pub open spec fn equiv(self, other: ContentValue) -> bool {
        match (self, other) {
            (
                ContentValue::Bootstrap { fork: f1, payload: p1 },
                ContentValue::Bootstrap { fork: f2, payload: p2 },
            ) => f1 == f2 && p1@ == p2@,
            (
                ContentValue::FinalityUpdate { fork: f1, payload: p1 },
                ContentValue::FinalityUpdate { fork: f2, payload: p2 },
            ) => f1 == f2 && p1@ == p2@,
            (
                ContentValue::OptimisticUpdate { fork: f1, payload: p1 },
                ContentValue::OptimisticUpdate { fork: f2, payload: p2 },
            ) => f1 == f2 && p1@ == p2@,
            (
                ContentValue::UpdatesByRange { fork: f1, payload: p1 },
                ContentValue::UpdatesByRange { fork: f2, payload: p2 },
            ) => f1 == f2 && p1@ == p2@,
            (
                ContentValue::HistoricalSummariesWithProof {
                    fork: f1,
                    epoch: e1,
                    summaries: s1,
                    state_proof: sp1,
                },
                ContentValue::HistoricalSummariesWithProof {
                    fork: f2,
                    epoch: e2,
                    summaries: s2,
                    state_proof: sp2,
                },
            ) => {
                &&& f1 == f2
                &&& e1 == e2
                &&& sp1.spec_hashes() == sp2.spec_hashes()
                &&& s1@.len() == s2@.len()
                &&& forall|i: int|
                    0 <= i < s1@.len() ==> (#[trigger] s1@[i]).block_summary_root@
                        == s2@[i].block_summary_root@ && s1@[i].state_summary_root@
                        == s2@[i].state_summary_root@
            },
            _ => false,
        }
    }

    /// Splits a fork digest off the front of `bytes`, returning the payload.
    fn decode_tagged_payload(bytes: &[u8]) -> (r: Result<Vec<u8>, FixtureError>)
        ensures
            r is Ok <==> bytes@.len() >= 4 && bytes@.subrange(0, 4) == fork_digest(
                ForkName::Deneb,
            ),
            r is Ok ==> r->Ok_0@ == bytes@.skip(4),
            r is Err ==> r->Err_0 == FixtureError::Decode,
    {
        if bytes.len() < 4 {
            return Err(FixtureError::Decode);
        }
        if !digest_matches(bytes, 0) {
            return Err(FixtureError::Decode);
        }
        let payload = slice_to_vec(slice_subrange(bytes, 4, bytes.len()));
        proof {
            assert(bytes@.subrange(4, bytes@.len() as int) =~= bytes@.skip(4));
        }
        Ok(payload)
    }
}

} // verus!
