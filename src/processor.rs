use vstd::prelude::*;

use crate::types::SlotMeta;

verus! {

/// Why a notification could not be applied. Each variant names the slots
/// involved so that the caller can log or retry.
#[derive(Debug, Clone, Copy, PartialEq, Eq, Structural)]
pub enum ProcessError {
    /// A store or source call failed while handling `slot`; retrying the same
    /// notification is safe.
    TransientIo { slot: u64 },
    /// The historical source has no block for `slot` inside a detected gap.
    GapUnresolvable { slot: u64 },
    /// The driver reported an outcome that does not answer the pending request.
    InvariantViolation,
    /// A processor that only validates was handed a slot that is not finalized.
    NotFinalized { slot: u64 },
    /// `slot` does not directly follow the last finalized slot `last`.
    GapDetected { last: u64, slot: u64 },
}

/// Whether `slot` may follow `prev` as the next finalized slot: any slot starts
/// an empty history, otherwise it must be the immediate successor.
pub open spec fn is_successor(prev: Option<u64>, slot: u64) -> bool {
    match prev {
        None => true,
        Some(p) => slot == p + 1,
    }
}

/// The unit of work applied to one slot notification.
///
/// An implementation states, over its own state, which notifications it
/// accepts, the error with which it rejects the others, and the state that a
/// call leaves behind.
pub trait SlotProcessor: Sized {
    /// Whether `slot` is accepted in this state.
    spec fn accepts(&self, slot: SlotMeta) -> bool;

    /// The error with which `slot` is rejected in this state.
    spec fn rejection(&self, slot: SlotMeta) -> ProcessError;

    /// The state after a call on `slot` from this state.
    spec fn after(&self, slot: SlotMeta) -> Self;

    fn process_slot(&mut self, slot: SlotMeta) -> (r: Result<(), ProcessError>)
        ensures
            r is Ok <==> old(self).accepts(slot),
            r is Err ==> r == Err::<(), ProcessError>(old(self).rejection(slot)),
            *final(self) == old(self).after(slot),
    ;
}

/// A processor that applies the gap rule in isolation: no persistence and no
/// backfill, and a gap fails at once.
pub struct Simpleprocessor {
    last_finalized_slot: Option<u64>,
}

impl Simpleprocessor {
    pub closed spec fn last(&self) -> Option<u64> {
        self.last_finalized_slot
    }

    /// The processor whose last finalized slot is `last`.
    pub closed spec fn holding(last: Option<u64>) -> Simpleprocessor {
        Simpleprocessor { last_finalized_slot: last }
    }

    /// A processor is determined by its last finalized slot.
    pub proof fn lemma_holding(last: Option<u64>, p: Simpleprocessor)
        ensures
            Simpleprocessor::holding(last).last() == last,
            p == Simpleprocessor::holding(p.last()),
    {
    }

    pub fn new() -> (r: Simpleprocessor)
        ensures
            r.last() == None::<u64>,
    {
        Simpleprocessor { last_finalized_slot: None }
    }

    pub fn last_finalized(&self) -> (r: Option<u64>)
        ensures
            r == self.last(),
    {
        self.last_finalized_slot
    }

    /// Accepts a finalized slot that directly follows the last one and makes it
    /// the last; rejects anything else and leaves the state as it was.
    pub fn check_slot(&mut self, slot: SlotMeta) -> (r: Result<(), ProcessError>)
        ensures
            !slot.is_finalized() ==> r == Err::<(), _>(ProcessError::NotFinalized { slot: slot.slot }),
            slot.is_finalized() && !is_successor(old(self).last(), slot.slot) ==> r == Err::<(), _>(
                ProcessError::GapDetected { last: old(self).last().unwrap(), slot: slot.slot },
            ),
            slot.is_finalized() && is_successor(old(self).last(), slot.slot) ==> r is Ok,
            r is Ok ==> final(self).last() == Some(slot.slot),
            r is Err ==> final(self).last() == old(self).last(),
    {
        if !slot.is_final() {
            return Err(ProcessError::NotFinalized { slot: slot.slot });
        }
        match self.last_finalized_slot {
            Some(prev) => {
                if prev == u64::MAX || slot.slot != prev + 1 {
                    return Err(ProcessError::GapDetected { last: prev, slot: slot.slot });
                }
            },
            None => {},
        }
        self.last_finalized_slot = Some(slot.slot);
        Ok(())
    }
}

impl SlotProcessor for Simpleprocessor {
    open spec fn accepts(&self, slot: SlotMeta) -> bool {
        slot.is_finalized() && is_successor(self.last(), slot.slot)
    }

    open spec fn rejection(&self, slot: SlotMeta) -> ProcessError {
        if !slot.is_finalized() {
            ProcessError::NotFinalized { slot: slot.slot }
        } else {
            ProcessError::GapDetected { last: self.last().unwrap(), slot: slot.slot }
        }
    }

    open spec fn after(&self, slot: SlotMeta) -> Simpleprocessor {
        if self.accepts(slot) {
            Simpleprocessor::holding(Some(slot.slot))
        } else {
            *self
        }
    }

    fn process_slot(&mut self, slot: SlotMeta) -> (r: Result<(), ProcessError>)
        ensures
            !slot.is_finalized() ==> r == Err::<(), _>(ProcessError::NotFinalized { slot: slot.slot }),
            slot.is_finalized() && !is_successor(old(self).last(), slot.slot) ==> r == Err::<(), _>(
                ProcessError::GapDetected { last: old(self).last().unwrap(), slot: slot.slot },
            ),
            slot.is_finalized() && is_successor(old(self).last(), slot.slot) ==> r is Ok,
            r is Ok ==> final(self).last() == Some(slot.slot),
            r is Err ==> final(self).last() == old(self).last(),
    {
        self.check_slot(slot)
    }
}

} // verus!
