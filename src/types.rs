use vstd::prelude::*;

verus! {

/// Lifecycle state that the chain reports for a slot.
///
/// Only `Finalized` takes part in gap detection and checkpoint advancement;
/// the other states are recorded for observation only.
#[derive(Debug, Clone, Copy, PartialEq, Eq, Structural)]
pub enum SlotStatus {
    Processed,
    Confirmed,
    Finalized,
    Completed,
    Dead,
    CreatedBank,
    FirstShredReceived,
}

/// One observed slot event: the neutral notification shape consumed by every
/// slot processor.
#[derive(Debug, Clone, Copy, PartialEq, Eq, Structural)]
pub struct SlotMeta {
    pub slot: u64,
    pub parent: Option<u64>,
    pub status: SlotStatus,
}

/// A transaction signature indexed at a slot.
#[derive(Debug, Clone, Copy, PartialEq, Eq, Structural)]
pub struct IndexedTransactions {
    pub txnsign: u64,
    pub slot: u64,
    pub status: SlotStatus,
}

/// Metadata of the block produced at a slot.
pub struct BlockMeta {
    pub slot: u64,
    pub blockhash: String,
    pub updated_account_count: u64,
    pub entries_count: u64,
}

impl SlotMeta {
    /// Whether the notification takes part in the consistency contract.
    pub open spec fn is_finalized(self) -> bool {
        self.status == SlotStatus::Finalized
    }

    /// The record that a backfill synthesises for `slot` from the parent that
    /// the historical source reported.
    pub open spec fn synthetic(slot: u64, parent: u64) -> SlotMeta {
        SlotMeta { slot, parent: Some(parent), status: SlotStatus::Finalized }
    }

    pub fn finalized(slot: u64, parent: u64) -> (r: SlotMeta)
        ensures
            r == SlotMeta::synthetic(slot, parent),
    {
        SlotMeta { slot, parent: Some(parent), status: SlotStatus::Finalized }
    }

    pub fn is_final(&self) -> (r: bool)
        ensures
            r == self.is_finalized(),
    {
        match self.status {
            SlotStatus::Finalized => true,
            _ => false,
        }
    }
}

} // verus!
