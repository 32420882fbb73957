//! Parsing of consensus-layer JSON payloads into consensus objects.
//!
//! JSON handling itself is delegated to `serde_json`; this module reads the
//! few fields the derivation rules need (slots, roots, the historical
//! summaries) and checks their shape. What a lookup finds in a body is a
//! function of the body text and the key path alone, so it is given a name
//! (`json_str_at` and its list-entry companions) that the contracts below
//! speak of exactly. Slot numbers arrive as quoted decimal strings and
//! roots as `0x`-prefixed hex strings; both go through this crate's
//! verified parsers.

use vstd::prelude::*;
use crate::FixtureError;
use crate::derivation::ConsensusObject;
use crate::hex::{hex_decode, hex_val, valid_hex};
use crate::numbers::{dec_val, parse_u64_dec, valid_dec};
use crate::values::{HistoricalSummary, HISTORICAL_SUMMARIES_LIMIT};

verus! {

/// The JSON string at a key path from the document root: `Some` exactly
/// when the body parses as JSON, every path segment steps into an object
/// under that key, and the value reached is a string.
pub uninterp spec fn json_str_at(body: Seq<char>, path: Seq<Seq<char>>) -> Option<Seq<char>>;

/// The length of the `data.historical_summaries` array of the body:
/// `Some` exactly when the body parses as JSON and holds an array there.
pub uninterp spec fn json_summaries_len(body: Seq<char>) -> Option<int>;

/// The JSON string under `key` of entry `index` of the body's
/// `data.historical_summaries` array, or `None` where the entry or the
/// string is not there.
pub uninterp spec fn json_summary_root_at(body: Seq<char>, index: int, key: Seq<char>) -> Option<
    Seq<char>,
>;

/// Relies on `serde_json::from_str`, `Value::get` and `Value::as_str`: the
/// JSON string at the given key path. The result depends on the body text
/// and the path alone.
#[verifier::external_body]
fn json_str_under(body: &str, path: &[&str]) -> (r: Option<String>)
    ensures
        r is Some <==> json_str_at(body@, path@.map_values(|t: &str| t@)) is Some,
        r is Some ==> r->Some_0@ == json_str_at(body@, path@.map_values(|t: &str| t@))->Some_0,
{
    let doc: serde_json::Value = serde_json::from_str(body).ok()?;
    let mut cur = &doc;
    for key in path {
        cur = cur.get(*key)?;
    }
    cur.as_str().map(|s| s.to_owned())
}

/// Relies on `serde_json::from_str`, `Value::get` and `Value::as_array`:
/// how many entries the body's `data.historical_summaries` array has.
#[verifier::external_body]
fn json_summaries_count(body: &str) -> (r: Option<usize>)
    ensures
        r is Some <==> json_summaries_len(body@) is Some,
        r is Some ==> r->Some_0 == json_summaries_len(body@)->Some_0,
{
    let doc: serde_json::Value = serde_json::from_str(body).ok()?;
    doc.get("data")?.get("historical_summaries")?.as_array().map(|a| a.len())
}

/// Relies on `serde_json::from_str`, `Value::get` and `Value::as_str`: the
/// string under `key` of one `data.historical_summaries` entry.
#[verifier::external_body]
fn json_summary_root(body: &str, index: usize, key: &str) -> (r: Option<String>)
    ensures
        r is Some <==> json_summary_root_at(body@, index as int, key@) is Some,
        r is Some ==> r->Some_0@ == json_summary_root_at(body@, index as int, key@)->Some_0,
{
    let doc: serde_json::Value = serde_json::from_str(body).ok()?;
    let entry = doc.get("data")?.get("historical_summaries")?.get(index)?;
    entry.get(key)?.as_str().map(|s| s.to_owned())
}

/// Reads a 32-byte root from a `0x`-prefixed hex string. Fails with
/// `FixtureError::Decode` exactly when the string is not well-formed
/// lowercase hex for 32 bytes.
pub fn parse_root(s: &str) -> (r: Result<Vec<u8>, FixtureError>)
    ensures
        r is Ok <==> valid_hex(s@) && hex_val(s@).len() == 32,
        r is Ok ==> r->Ok_0@ == hex_val(s@) && r->Ok_0@.len() == 32,
        r is Err ==> r->Err_0 == FixtureError::Decode,
{
    let bytes = hex_decode(s)?;
    if bytes.len() != 32 {
        return Err(FixtureError::Decode);
    }
    Ok(bytes)
}

/// The key path of the finalized block root in the finalized-root body.
pub open spec fn finalized_root_path() -> Seq<Seq<char>> {
    seq!["data"@, "root"@]
}

/// Reads the finalized block root out of the body answering the finalized
/// block-root query. Succeeds exactly when the body carries a string at
/// `data.root` that is well-formed lowercase hex for 32 bytes, and then
/// returns exactly those bytes.
pub fn finalized_root_from_json(body: &str) -> (r: Result<Vec<u8>, FixtureError>)
    ensures
        r is Ok <==> (json_str_at(body@, finalized_root_path()) matches Some(s) && valid_hex(s)
            && hex_val(s).len() == 32),
        r is Ok ==> r->Ok_0@ == hex_val(json_str_at(body@, finalized_root_path())->Some_0)
            && r->Ok_0@.len() == 32,
        r is Err ==> r->Err_0 == FixtureError::Decode,
{
    let mut path: Vec<&str> = Vec::new();
    path.push("data");
    path.push("root");
    proof {
        assert(path@.map_values(|t: &str| t@) =~= finalized_root_path());
    }
    let root_str = match json_str_under(body, path.as_slice()) {
        Some(s) => s,
        None => {
            return Err(FixtureError::Decode);
        },
    };
    parse_root(root_str.as_str())
}

/// Reads the decimal string at a key path and parses it as a slot number.
fn slot_from_json(body: &str, path: &[&str]) -> (r: Result<u64, FixtureError>)
    ensures
        r is Ok <==> (json_str_at(body@, path@.map_values(|t: &str| t@)) matches Some(s)
            && valid_dec(s) && dec_val(s) <= u64::MAX),
        r is Ok ==> r->Ok_0 == dec_val(
            json_str_at(body@, path@.map_values(|t: &str| t@))->Some_0,
        ),
        r is Err ==> r->Err_0 == FixtureError::Decode,
{
    let slot_str = match json_str_under(body, path) {
        Some(s) => s,
        None => {
            return Err(FixtureError::Decode);
        },
    };
    match parse_u64_dec(slot_str.as_str()) {
        Some(slot) => Ok(slot),
        None => Err(FixtureError::Decode),
    }
}

/// Builds the bootstrap consensus object from the block root the bootstrap
/// was fetched for (as returned by the finalized-root query) and the
/// canonical payload bytes of the bootstrap itself.
pub fn bootstrap_object(block_root_hex: &str, payload: Vec<u8>) -> (r: Result<
    ConsensusObject,
    FixtureError,
>)
    ensures
        r is Ok <==> valid_hex(block_root_hex@) && hex_val(block_root_hex@).len() == 32,
        r is Ok ==> (r->Ok_0 matches ConsensusObject::Bootstrap { block_root, payload: p }
            && block_root@ == hex_val(block_root_hex@) && p@ == payload@) && r->Ok_0.wf(),
        r is Err ==> r->Err_0 == FixtureError::Decode,
{
    let block_root = parse_root(block_root_hex)?;
    Ok(ConsensusObject::Bootstrap { block_root, payload })
}

/// The key path of the finalized slot in a finality-update body.
pub open spec fn finality_slot_path() -> Seq<Seq<char>> {
    seq!["data"@, "finalized_header"@, "beacon"@, "slot"@]
}

/// Builds the finality-update consensus object. Succeeds exactly when the
/// body carries a decimal string at `data.finalized_header.beacon.slot` —
/// not the signature slot — whose value fits 64 bits; that value becomes
/// the finalized slot, and the payload bytes are carried through
/// unchanged.
pub fn finality_update_object(body: &str, payload: Vec<u8>) -> (r: Result<
    ConsensusObject,
    FixtureError,
>)
    ensures
        r is Ok <==> (json_str_at(body@, finality_slot_path()) matches Some(s) && valid_dec(s)
            && dec_val(s) <= u64::MAX),
        r is Ok ==> (r->Ok_0 matches ConsensusObject::FinalityUpdate { finalized_slot, payload: p }
            && finalized_slot == dec_val(json_str_at(body@, finality_slot_path())->Some_0) && p@
            == payload@) && r->Ok_0.wf(),
        r is Err ==> r->Err_0 == FixtureError::Decode,
{
    let mut path: Vec<&str> = Vec::new();
    path.push("data");
    path.push("finalized_header");
    path.push("beacon");
    path.push("slot");
    proof {
        assert(path@.map_values(|t: &str| t@) =~= finality_slot_path());
    }
    let finalized_slot = slot_from_json(body, path.as_slice())?;
    Ok(ConsensusObject::FinalityUpdate { finalized_slot, payload })
}

/// The key path of the signature slot in an optimistic-update body.
pub open spec fn optimistic_slot_path() -> Seq<Seq<char>> {
    seq!["data"@, "signature_slot"@]
}

/// Builds the optimistic-update consensus object. Succeeds exactly when
/// the body carries a decimal string at `data.signature_slot` whose value
/// fits 64 bits; that value becomes the signature slot, and the payload
/// bytes are carried through unchanged.
pub fn optimistic_update_object(body: &str, payload: Vec<u8>) -> (r: Result<
    ConsensusObject,
    FixtureError,
>)
    ensures
        r is Ok <==> (json_str_at(body@, optimistic_slot_path()) matches Some(s) && valid_dec(s)
            && dec_val(s) <= u64::MAX),
        r is Ok ==> (r->Ok_0 matches ConsensusObject::OptimisticUpdate {
            signature_slot,
            payload: p,
        } && signature_slot == dec_val(json_str_at(body@, optimistic_slot_path())->Some_0) && p@
            == payload@) && r->Ok_0.wf(),
        r is Err ==> r->Err_0 == FixtureError::Decode,
{
    let mut path: Vec<&str> = Vec::new();
    path.push("data");
    path.push("signature_slot");
    proof {
        assert(path@.map_values(|t: &str| t@) =~= optimistic_slot_path());
    }
    let signature_slot = slot_from_json(body, path.as_slice())?;
    Ok(ConsensusObject::OptimisticUpdate { signature_slot, payload })
}

/// Builds the update-range consensus object around the canonical payload
/// bytes of the one fetched update.
pub fn update_range_object(payload: Vec<u8>) -> (r: ConsensusObject)
    ensures
        r matches ConsensusObject::UpdateRange { payload: p } && p@ == payload@,
        r.wf(),
{
    ConsensusObject::UpdateRange { payload }
}

/// The key path of the state slot in a finalized-state body.
pub open spec fn state_slot_path() -> Seq<Seq<char>> {
    seq!["data"@, "slot"@]
}

/// Whether entry `i` of the body's summaries list carries two well-formed
/// 32-byte roots.
pub open spec fn summary_entry_decodable(body: Seq<char>, i: int) -> bool {
    &&& (json_summary_root_at(body, i, "block_summary_root"@) matches Some(b) && valid_hex(b)
        && hex_val(b).len() == 32)
    &&& (json_summary_root_at(body, i, "state_summary_root"@) matches Some(s) && valid_hex(s)
        && hex_val(s).len() == 32)
}

/// Whether the body's summaries list is present, within the list's
/// capacity bound, and made of well-formed entries.
pub open spec fn summaries_decodable(body: Seq<char>) -> bool {
    json_summaries_len(body) matches Some(n) && n <= HISTORICAL_SUMMARIES_LIMIT && (forall|i: int|
        0 <= i < n ==> summary_entry_decodable(body, i))
}

/// Builds the beacon-state consensus object from the finalized-state
/// response body and the hashes of the historical-summaries proof built
/// from that state. Succeeds exactly when the body carries a decimal slot
/// string at `data.slot` and a well-formed `data.historical_summaries`
/// list; the slot, the summaries and the proof hashes all carry through
/// exactly.
pub fn beacon_state_object(body: &str, state_proof_hashes: Vec<Vec<u8>>) -> (r: Result<
    ConsensusObject,
    FixtureError,
>)
    ensures
        r is Ok <==> (json_str_at(body@, state_slot_path()) matches Some(s) && valid_dec(s)
            && dec_val(s) <= u64::MAX) && summaries_decodable(body@),
        r is Ok ==> (r->Ok_0 matches ConsensusObject::BeaconState {
            slot,
            summaries,
            state_proof_hashes: h,
        } && {
            &&& slot == dec_val(json_str_at(body@, state_slot_path())->Some_0)
            &&& summaries@.len() == json_summaries_len(body@)->Some_0
            &&& (forall|i: int|
                0 <= i < summaries@.len() ==> (#[trigger] summaries@[i]).block_summary_root@
                    == hex_val(json_summary_root_at(body@, i, "block_summary_root"@)->Some_0)
                    && summaries@[i].state_summary_root@ == hex_val(
                    json_summary_root_at(body@, i, "state_summary_root"@)->Some_0,
                ))
            &&& h@.len() == state_proof_hashes@.len()
            &&& (forall|i: int| 0 <= i < h@.len() ==> (#[trigger] h@[i]@) == state_proof_hashes@[i]@)
        }) && r->Ok_0.wf(),
        r is Err ==> r->Err_0 == FixtureError::Decode,
{
    let mut path: Vec<&str> = Vec::new();
    path.push("data");
    path.push("slot");
    proof {
        assert(path@.map_values(|t: &str| t@) =~= state_slot_path());
    }
    let slot = slot_from_json(body, path.as_slice())?;
    let n = match json_summaries_count(body) {
        Some(n) => n,
        None => {
            return Err(FixtureError::Decode);
        },
    };
    if (n as u64) > HISTORICAL_SUMMARIES_LIMIT {
        return Err(FixtureError::Decode);
    }
    let mut summaries: Vec<HistoricalSummary> = Vec::new();
    let mut i: usize = 0;
    while i < n
        invariant
            0 <= i <= n,
            n as u64 <= HISTORICAL_SUMMARIES_LIMIT,
            n == json_summaries_len(body@)->Some_0,
            summaries@.len() == i,
            forall|j: int| 0 <= j < i ==> summary_entry_decodable(body@, j),
            forall|j: int|
                0 <= j < i ==> (#[trigger] summaries@[j]).block_summary_root@ == hex_val(
                    json_summary_root_at(body@, j, "block_summary_root"@)->Some_0,
                ) && summaries@[j].state_summary_root@ == hex_val(
                    json_summary_root_at(body@, j, "state_summary_root"@)->Some_0,
                ),
            forall|j: int| 0 <= j < i ==> (#[trigger] summaries@[j]).wf(),
        decreases n - i,
    {
        let block_str = match json_summary_root(body, i, "block_summary_root") {
            Some(s) => s,
            None => {
                proof {
                    assert(!summary_entry_decodable(body@, i as int));
                }
                return Err(FixtureError::Decode);
            },
        };
        let block_summary_root = match parse_root(block_str.as_str()) {
            Ok(v) => v,
            Err(e) => {
                proof {
                    assert(!summary_entry_decodable(body@, i as int));
                }
                return Err(e);
            },
        };
        let state_str = match json_summary_root(body, i, "state_summary_root") {
            Some(s) => s,
            None => {
                proof {
                    assert(!summary_entry_decodable(body@, i as int));
                }
                return Err(FixtureError::Decode);
            },
        };
        let state_summary_root = match parse_root(state_str.as_str()) {
            Ok(v) => v,
            Err(e) => {
                proof {
                    assert(!summary_entry_decodable(body@, i as int));
                }
                return Err(e);
            },
        };
        summaries.push(HistoricalSummary { block_summary_root, state_summary_root });
        i += 1;
    }
    Ok(ConsensusObject::BeaconState { slot, summaries, state_proof_hashes })
}

} // verus!
