//! Content-addressing keys for beacon light-client data, with their exact
//! byte layout: a one-byte selector followed by the key body.

use vstd::prelude::*;
use vstd::bytes::{spec_u64_to_le_bytes, u64_to_le_bytes};
use vstd::slice::slice_to_vec;
use crate::hex::{hex_encode, hex_of};

verus! {

/// Selector byte of a bootstrap key.
pub const BOOTSTRAP_SELECTOR: u8 = 0x10;

/// Selector byte of an updates-by-range key.
pub const UPDATES_BY_RANGE_SELECTOR: u8 = 0x11;

/// Selector byte of a finality-update key.
pub const FINALITY_UPDATE_SELECTOR: u8 = 0x12;

/// Selector byte of an optimistic-update key.
pub const OPTIMISTIC_UPDATE_SELECTOR: u8 = 0x13;

/// Selector byte of a historical-summaries key.
pub const HISTORICAL_SUMMARIES_SELECTOR: u8 = 0x14;

/// A tagged identifier addressing one piece of light-client content, one
/// variant per query kind.
#[derive(Debug)]
pub enum ContentKey {
    /// Addresses a bootstrap by the block root it was fetched for.
    Bootstrap { block_hash: Vec<u8> },
    /// Addresses a range of sync-committee updates.
    UpdatesByRange { start_period: u64, count: u64 },
    /// Addresses a finality update by its finalized slot.
    FinalityUpdate { finalized_slot: u64 },
    /// Addresses an optimistic update by its signature slot.
    OptimisticUpdate { signature_slot: u64 },
    /// Addresses the historical summaries of the state at an epoch.
    HistoricalSummaries { epoch: u64 },
}

impl ContentKey {
    /// Well-formedness: a bootstrap key carries a 32-byte block root.
    pub open spec fn wf(self) -> bool {
        match self {
            ContentKey::Bootstrap { block_hash } => block_hash@.len() == 32,
            _ => true,
        }
    }

    /// The exact serialized bytes of the key.
    pub open spec fn spec_bytes(self) -> Seq<u8> {
        match self {
            ContentKey::Bootstrap { block_hash } => seq![BOOTSTRAP_SELECTOR] + block_hash@,
            ContentKey::UpdatesByRange { start_period, count } => seq![UPDATES_BY_RANGE_SELECTOR]
                + spec_u64_to_le_bytes(start_period) + spec_u64_to_le_bytes(count),
            ContentKey::FinalityUpdate { finalized_slot } => seq![FINALITY_UPDATE_SELECTOR]
                + spec_u64_to_le_bytes(finalized_slot),
            ContentKey::OptimisticUpdate { signature_slot } => seq![OPTIMISTIC_UPDATE_SELECTOR]
                + spec_u64_to_le_bytes(signature_slot),
            ContentKey::HistoricalSummaries { epoch } => seq![HISTORICAL_SUMMARIES_SELECTOR]
                + spec_u64_to_le_bytes(epoch),
        }
    }

    /// Serializes the key to its byte layout.
    pub fn encode(&self) -> (r: Vec<u8>)
        ensures
            r@ == self.spec_bytes(),
    {
        match self {
            ContentKey::Bootstrap { block_hash } => {
                let mut out: Vec<u8> = Vec::new();
                out.push(BOOTSTRAP_SELECTOR);
                let mut body = slice_to_vec(block_hash.as_slice());
                out.append(&mut body);
                proof {
                    assert(out@ =~= self.spec_bytes());
                }
                out
            },
            ContentKey::UpdatesByRange { start_period, count } => {
                let mut out: Vec<u8> = Vec::new();
                out.push(UPDATES_BY_RANGE_SELECTOR);
                let mut p = u64_to_le_bytes(*start_period);
                out.append(&mut p);
                let mut c = u64_to_le_bytes(*count);
                out.append(&mut c);
                proof {
                    assert(out@ =~= self.spec_bytes());
                }
                out
            },
            ContentKey::FinalityUpdate { finalized_slot } => {
                let mut out: Vec<u8> = Vec::new();
                out.push(FINALITY_UPDATE_SELECTOR);
                let mut b = u64_to_le_bytes(*finalized_slot);
                out.append(&mut b);
                proof {
                    assert(out@ =~= self.spec_bytes());
                }
                out
            },
            ContentKey::OptimisticUpdate { signature_slot } => {
                let mut out: Vec<u8> = Vec::new();
                out.push(OPTIMISTIC_UPDATE_SELECTOR);
                let mut b = u64_to_le_bytes(*signature_slot);
                out.append(&mut b);
                proof {
                    assert(out@ =~= self.spec_bytes());
                }
                out
            },
            ContentKey::HistoricalSummaries { epoch } => {
                let mut out: Vec<u8> = Vec::new();
                out.push(HISTORICAL_SUMMARIES_SELECTOR);
                let mut b = u64_to_le_bytes(*epoch);
                out.append(&mut b);
                proof {
                    assert(out@ =~= self.spec_bytes());
                }
                out
            },
        }
    }

    /// Renders the key as `0x`-prefixed lowercase hex, the form written to
    /// fixture files.
    pub fn to_hex(&self) -> (s: String)
        ensures
            s@ == seq!['0', 'x'] + hex_of(self.spec_bytes()),
    {
        let bytes = self.encode();
        hex_encode(bytes.as_slice())
    }
}

} // verus!
