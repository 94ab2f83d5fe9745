use vstd::prelude::*;

use crate::processor::{ProcessError, SlotProcessor};
use crate::rpc::Rpcblock;
use crate::types::SlotMeta;

verus! {

/// Replays the half-open slot range `(from, to]` through a slot processor, one
/// slot at a time in ascending order.
///
/// The driver asks `next_slot` which block to query, queries the historical
/// source, and hands the block to `block_fetched`, which builds the finalized
/// notification and feeds it to the processor. The first failure, of the query
/// or of the processor, closes the range.
pub struct Backfiller<P> {
    processor: P,
    /// The last slot that the processor accepted (`from` at the start).
    done: u64,
    to: u64,
    from: Ghost<u64>,
    /// The notifications handed to the processor, in order; all but a failed
    /// last one were accepted.
    fed: Ghost<Seq<SlotMeta>>,
}

impl<P: SlotProcessor> Backfiller<P> {
    pub closed spec fn next(&self) -> Option<u64> {
        if self.done < self.to {
            Some((self.done + 1) as u64)
        } else {
            None
        }
    }

    pub closed spec fn range_start(&self) -> u64 {
        self.from@
    }

    pub closed spec fn range_end(&self) -> u64 {
        self.to
    }

    /// The processor that the backfiller feeds, in its current state.
    pub closed spec fn processor_state(&self) -> P {
        self.processor
    }

    pub closed spec fn fed(&self) -> Seq<SlotMeta> {
        self.fed@
    }

    pub closed spec fn wf(&self) -> bool {
        &&& self.from@ <= self.done
        &&& self.done - self.from@ <= self.fed@.len() <= self.done - self.from@ + 1
        &&& self.fed@.len() > self.done - self.from@ ==> self.to <= self.done
        &&& forall|i: int|
            0 <= i < self.fed@.len() ==> {
                &&& (#[trigger] self.fed@[i]).slot == self.from@ + 1 + i
                &&& self.fed@[i].is_finalized()
            }
    }

    /// A backfiller with an empty range.
    pub fn new(processor: P) -> (r: Backfiller<P>)
        ensures
            r.wf(),
            r.next() == None::<u64>,
            r.fed() == Seq::<SlotMeta>::empty(),
            r.processor_state() == processor,
    {
        Backfiller { processor, done: 0, to: 0, from: Ghost(0), fed: Ghost(Seq::empty()) }
    }

    /// Opens the range `(from, to]`; it is empty unless `from < to`.
    pub fn backfiller_range(&mut self, from: u64, to: u64)
        ensures
            final(self).wf(),
            final(self).range_start() == from,
            final(self).range_end() == to,
            final(self).next() == (if from < to { Some((from + 1) as u64) } else { None }),
            final(self).fed() == Seq::<SlotMeta>::empty(),
            final(self).processor_state() == old(self).processor_state(),
    {
        self.done = from;
        self.to = to;
        self.from = Ghost(from);
        self.fed = Ghost(Seq::empty());
    }

    /// The slot whose block must be queried next, if any remains.
    pub fn next_slot(&self) -> (r: Option<u64>)
        ensures
            r == self.next(),
    {
        if self.done < self.to {
            Some(self.done + 1)
        } else {
            None
        }
    }

    /// Feeds the processor the finalized notification for the pending slot,
    /// built from the block that the historical source returned for it, and
    /// returns what the processor returned. The range moves on to the next
    /// slot only if the processor accepted this one; otherwise it closes.
    pub fn block_fetched(&mut self, block: &Rpcblock) -> (r: Result<(), ProcessError>)
        requires
            old(self).wf(),
            old(self).next() is Some,
        ensures
            final(self).wf(),
            final(self).range_start() == old(self).range_start(),
            r is Ok ==> final(self).range_end() == old(self).range_end(),
            final(self).fed() == old(self).fed().push(
                SlotMeta::synthetic(old(self).next().unwrap(), block.parent_slot),
            ),
            r is Ok <==> old(self).processor_state().accepts(
                SlotMeta::synthetic(old(self).next().unwrap(), block.parent_slot),
            ),
            r is Err ==> r == Err::<(), ProcessError>(
                old(self).processor_state().rejection(
                    SlotMeta::synthetic(old(self).next().unwrap(), block.parent_slot),
                ),
            ),
            final(self).processor_state() == old(self).processor_state().after(
                SlotMeta::synthetic(old(self).next().unwrap(), block.parent_slot),
            ),
            r is Ok ==> final(self).next() == (if old(self).next().unwrap() < old(self).range_end() {
                Some((old(self).next().unwrap() + 1) as u64)
            } else {
                None
            }),
            r is Err ==> final(self).next() == None::<u64>,
    {
        let slot = self.done + 1;
        let note = SlotMeta::finalized(slot, block.parent_slot);
        proof {
            self.fed@ = self.fed@.push(note);
        }
        match self.processor.process_slot(note) {
            Ok(()) => {
                self.done = slot;
                Ok(())
            },
            Err(e) => {
                self.to = self.done;
                Err(e)
            },
        }
    }

    /// Closes the range after a failed query.
    pub fn abort(&mut self)
        requires
            old(self).wf(),
        ensures
            final(self).wf(),
            final(self).next() == None::<u64>,
            final(self).fed() == old(self).fed(),
            final(self).processor_state() == old(self).processor_state(),
    {
        self.to = self.done;
    }

    pub fn processor(&self) -> (r: &P)
        ensures
            *r == self.processor_state(),
    {
        &self.processor
    }
}

} // verus!
