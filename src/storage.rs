use vstd::prelude::*;

use crate::types::SlotStatus;

verus! {

/// Name of the durable checkpoint that holds the last contiguously processed
/// finalized slot.
pub const FINALIZED_CHECKPOINT: &'static str = "last_finalized_slot";

/// The text stored in the `status` column for each slot status.
pub open spec fn status_label(status: SlotStatus) -> Seq<char> {
    match status {
        SlotStatus::Confirmed => "Confirmed"@,
        SlotStatus::Finalized => "Finalized"@,
        SlotStatus::Processed => "Processed"@,
        SlotStatus::Completed => "Completed"@,
        SlotStatus::Dead => "Dead"@,
        SlotStatus::CreatedBank => "Created Bank"@,
        SlotStatus::FirstShredReceived => "First shred recieved"@,
    }
}

/// Column text for a slot status.
pub fn slot_status_str(status: &SlotStatus) -> (r: &'static str)
    ensures
        r@ == status_label(*status),
{
    match status {
        SlotStatus::Confirmed => "Confirmed",
        SlotStatus::Finalized => "Finalized",
        SlotStatus::Processed => "Processed",
        SlotStatus::Completed => "Completed",
        SlotStatus::Dead => "Dead",
        SlotStatus::CreatedBank => "Created Bank",
        SlotStatus::FirstShredReceived => "First shred recieved",
    }
}

/// The signed column value that stores a slot number: the same 64 bits.
pub open spec fn column_of(v: u64) -> i64 {
    v as i64
}

/// The slot number held by a signed column value: the same 64 bits.
pub open spec fn slot_of_column(c: i64) -> u64 {
    c as u64
}

/// Encodes a slot number for a signed 64-bit column.
pub fn to_column(v: u64) -> (r: i64)
    ensures
        r == column_of(v),
        v <= i64::MAX ==> r == v,
{
    v as i64
}

/// Decodes a slot number from a signed 64-bit column.
pub fn from_column(c: i64) -> (r: u64)
    ensures
        r == slot_of_column(c),
        c >= 0 ==> r == c,
{
    c as u64
}

/// A slot number stored in a column reads back unchanged.
pub proof fn lemma_column_round_trip(v: u64)
    ensures
        slot_of_column(column_of(v)) == v,
{
    assert(((v as i64) as u64) == v) by (bit_vector);
}

} // verus!
