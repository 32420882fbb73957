//! Slot, epoch and sync-committee-period arithmetic.

use vstd::prelude::*;

verus! {

/// Beacon chain mainnet genesis time (unix seconds).
pub const BEACON_GENESIS_TIME: u64 = 1606824023;

/// Seconds between consecutive slots.
pub const SECONDS_PER_SLOT: u64 = 12;

/// The number of slots in an epoch.
pub const SLOTS_PER_EPOCH: u64 = 32;

/// The number of slots in a sync committee period.
pub const SLOTS_PER_PERIOD: u64 = SLOTS_PER_EPOCH * 256;

/// The slot whose span covers `now_secs` on a chain with the given genesis
/// time.
pub open spec fn slot_at(genesis_time: u64, now_secs: u64) -> int
    recommends
        genesis_time <= now_secs,
{
    (now_secs - genesis_time) / (SECONDS_PER_SLOT as int)
}

/// The sync committee period that `now_secs` falls into, estimated from the
/// wall clock alone.
pub open spec fn start_period_of(now_secs: u64) -> int
    recommends
        BEACON_GENESIS_TIME <= now_secs,
{
    slot_at(BEACON_GENESIS_TIME, now_secs) / (SLOTS_PER_PERIOD as int)
}

/// The slot the chain is expected to be at when the wall clock reads
/// `now_secs`, for a chain with the given genesis time.
pub fn expected_current_slot(genesis_time: u64, now_secs: u64) -> (slot: u64)
    requires
        genesis_time <= now_secs,
    ensures
        slot == slot_at(genesis_time, now_secs),
{
    (now_secs - genesis_time) / SECONDS_PER_SLOT
}

/// The sync committee period to query an update range for, estimated from
/// the wall clock. Near a period boundary the estimate may be off by one,
/// since it never consults the chain's own head slot.
pub fn get_start_period(now_secs: u64) -> (period: u64)
    requires
        BEACON_GENESIS_TIME <= now_secs,
    ensures
        period == start_period_of(now_secs),
{
    expected_current_slot(BEACON_GENESIS_TIME, now_secs) / SLOTS_PER_PERIOD
}

} // verus!
