use vstd::prelude::*;

use crate::processor::ProcessError;
use crate::rpc::Rpcblock;
use crate::types::{SlotMeta, SlotStatus};

verus! {

/// Outcome of a historical query that did not produce a block.
#[derive(Debug, Clone, Copy, PartialEq, Eq, Structural)]
pub enum SourceFailure {
    NotFound,
    TransientIo,
}

/// What the driver reports back after performing the pending action.
pub enum Event {
    /// The upsert or checkpoint write went through durably.
    Completed,
    /// The historical source answered the pending block query.
    BlockFetched(Rpcblock),
    /// The pending call failed.
    Failed(SourceFailure),
}

/// What the driver must do next.
#[derive(Debug, Clone, Copy, PartialEq, Eq, Structural)]
pub enum Action {
    /// Durably upsert this slot record (idempotent by slot number).
    Upsert(SlotMeta),
    /// Query the historical source for the finalized block at this slot.
    FetchBlock(u64),
    /// Durably write the checkpoint with this value.
    WriteCheckpoint(u64),
    /// The call succeeded.
    Done,
    /// The call failed with this error.
    Failed(ProcessError),
}

/// Where a `process_slot` call stands.
#[derive(Debug, Clone, Copy, PartialEq, Eq, Structural)]
pub enum Task {
    /// No call in flight.
    Idle,
    /// The incoming notification is being recorded.
    Recording { note: SlotMeta },
    /// The block at `slot` is being queried while filling the gap up to `target`.
    Fetching { target: u64, slot: u64 },
    /// The backfilled record of `slot` is being upserted.
    Storing { target: u64, slot: u64 },
    /// The checkpoint is being moved to `slot`, on its way to `target`.
    Advancing { target: u64, slot: u64 },
}

/// The observable state of the engine: the in-memory last finalized slot and
/// the call in flight.
pub struct EngineState {
    pub last: Option<u64>,
    pub task: Task,
}

/// The step after the incoming notification has been recorded.
pub open spec fn after_record(last: Option<u64>, note: SlotMeta) -> (EngineState, Action) {
    let t = note.slot;
    if !note.is_finalized() {
        (EngineState { last, task: Task::Idle }, Action::Done)
    } else {
        match last {
            None => (
                EngineState { last, task: Task::Advancing { target: t, slot: t } },
                Action::WriteCheckpoint(t),
            ),
            Some(p) => if t <= p {
                (EngineState { last, task: Task::Idle }, Action::Done)
            } else if t == p + 1 {
                (
                    EngineState { last, task: Task::Advancing { target: t, slot: t } },
                    Action::WriteCheckpoint(t),
                )
            } else {
                (
                    EngineState { last, task: Task::Fetching { target: t, slot: (p + 1) as u64 } },
                    Action::FetchBlock((p + 1) as u64),
                )
            },
        }
    }
}

/// Abandon the call in flight: the last finalized slot stays where it is.
pub open spec fn abort(last: Option<u64>, e: ProcessError) -> (EngineState, Action) {
    (EngineState { last, task: Task::Idle }, Action::Failed(e))
}

/// The error for a failed historical query of `slot`.
pub open spec fn fetch_error(f: SourceFailure, slot: u64) -> ProcessError {
    match f {
        SourceFailure::NotFound => ProcessError::GapUnresolvable { slot },
        SourceFailure::TransientIo => ProcessError::TransientIo { slot },
    }
}

/// One step of the engine: the state and the action that follow `event`.
pub open spec fn transition(s: EngineState, event: Event) -> (EngineState, Action) {
    let last = s.last;
    match s.task {
        Task::Idle => abort(last, ProcessError::InvariantViolation),
        Task::Recording { note } => match event {
            Event::Completed => after_record(last, note),
            Event::Failed(_) => abort(last, ProcessError::TransientIo { slot: note.slot }),
            Event::BlockFetched(_) => abort(last, ProcessError::InvariantViolation),
        },
        Task::Fetching { target, slot } => match event {
            Event::BlockFetched(b) => (
                EngineState { last, task: Task::Storing { target, slot } },
                Action::Upsert(SlotMeta::synthetic(slot, b.parent_slot)),
            ),
            Event::Failed(f) => abort(last, fetch_error(f, slot)),
            Event::Completed => abort(last, ProcessError::InvariantViolation),
        },
        Task::Storing { target, slot } => match event {
            Event::Completed => if slot < target {
                (
                    EngineState { last, task: Task::Fetching { target, slot: (slot + 1) as u64 } },
                    Action::FetchBlock((slot + 1) as u64),
                )
            } else {
                let first = (last.unwrap() + 1) as u64;
                (
                    EngineState { last, task: Task::Advancing { target, slot: first } },
                    Action::WriteCheckpoint(first),
                )
            },
            Event::Failed(_) => abort(last, ProcessError::TransientIo { slot }),
            Event::BlockFetched(_) => abort(last, ProcessError::InvariantViolation),
        },
        Task::Advancing { target, slot } => match event {
            Event::Completed => if slot < target {
                (
                    EngineState { last: Some(slot), task: Task::Advancing { target, slot: (slot + 1) as u64 } },
                    Action::WriteCheckpoint((slot + 1) as u64),
                )
            } else {
                (EngineState { last: Some(slot), task: Task::Idle }, Action::Done)
            },
            Event::Failed(_) => abort(last, ProcessError::TransientIo { slot }),
            Event::BlockFetched(_) => abort(last, ProcessError::InvariantViolation),
        },
    }
}

/// The slots `lo, lo + 1, ..., hi - 1`.
pub open spec fn span(lo: int, hi: int) -> Seq<u64> {
    Seq::new((hi - lo) as nat, |i: int| (lo + i) as u64)
}

/// Each value directly follows the one before it.
pub open spec fn consecutive(s: Seq<u64>) -> bool {
    forall|i: int| 0 <= i < s.len() - 1 ==> #[trigger] s[i + 1] == s[i] + 1
}

/// The last finalized slot after a successful call on `note`.
pub open spec fn planned_last(prev: Option<u64>, note: SlotMeta) -> Option<u64> {
    if !note.is_finalized() {
        prev
    } else {
        match prev {
            None => Some(note.slot),
            Some(p) => if note.slot <= p { prev } else { Some(note.slot) },
        }
    }
}

/// The checkpoint values that a successful call on `note` writes, in order.
pub open spec fn checkpoint_writes(prev: Option<u64>, note: SlotMeta) -> Seq<u64> {
    if !note.is_finalized() {
        Seq::empty()
    } else {
        match prev {
            None => seq![note.slot],
            Some(p) => if note.slot <= p { Seq::empty() } else { span(p + 1, note.slot + 1) },
        }
    }
}

/// The slots that a successful call on `note` queries from the historical
/// source, in order.
pub open spec fn backfilled(prev: Option<u64>, note: SlotMeta) -> Seq<u64> {
    match prev {
        Some(p) => if note.is_finalized() && note.slot > p + 1 {
            span(p + 1, note.slot + 1)
        } else {
            Seq::empty()
        },
        None => Seq::empty(),
    }
}

/// The checkpointed processor: the in-memory last finalized slot, mirrored by
/// the durable checkpoint, and the call in flight.
///
/// A driver owns it under one exclusive lock for the whole of a call, performs
/// each returned action and reports its outcome with `resume`. The checkpoint
/// is written before the in-memory value moves, only for slots whose record was
/// durably upserted during the call, and one slot at a time.
#[allow(non_camel_case_types)]
pub struct db_processor {
    last_finalized: Option<u64>,
    task: Task,
    /// Every checkpoint value acknowledged so far, the loaded one first.
    history: Ghost<Seq<u64>>,
    /// `history` when the call in flight began.
    base: Ghost<Seq<u64>>,
    /// The last finalized slot when the call in flight began.
    prev: Ghost<Option<u64>>,
    /// The notification of the call in flight.
    note: Ghost<SlotMeta>,
    /// Slots durably recorded as finalized during the call in flight.
    recorded: Ghost<Set<u64>>,
    /// Slots queried from the historical source during the call in flight.
    queried: Ghost<Seq<u64>>,
}

impl db_processor {
    pub closed spec fn state(&self) -> EngineState {
        EngineState { last: self.last_finalized, task: self.task }
    }

    /// Every checkpoint value acknowledged so far, the loaded one first.
    pub closed spec fn history(&self) -> Seq<u64> {
        self.history@
    }

    /// The last finalized slot when the current or latest call began.
    pub closed spec fn call_start(&self) -> Option<u64> {
        self.prev@
    }

    /// The notification of the current or latest call.
    pub closed spec fn call_note(&self) -> SlotMeta {
        self.note@
    }

    /// `history` when the current or latest call began.
    pub closed spec fn call_history(&self) -> Seq<u64> {
        self.base@
    }

    /// Slots whose finalized record was acknowledged during the current or
    /// latest call.
    pub closed spec fn recorded(&self) -> Set<u64> {
        self.recorded@
    }

    /// Slots queried from the historical source during the current or latest
    /// call, in order.
    pub closed spec fn queried(&self) -> Seq<u64> {
        self.queried@
    }

    pub open spec fn last(&self) -> Option<u64> {
        self.state().last
    }

    pub open spec fn is_idle(&self) -> bool {
        self.state().task == Task::Idle
    }

    pub closed spec fn wf(&self) -> bool {
        let h = self.history@;
        let prev = self.prev@;
        let note = self.note@;
        &&& consecutive(h)
        &&& self.last_finalized == (if h.len() == 0 { None } else { Some(h.last()) })
        &&& match self.task {
            Task::Idle => true,
            Task::Recording { note: n } => {
                &&& n == note
                &&& self.queried@ == Seq::<u64>::empty()
                &&& self.last_finalized == prev
                &&& h == self.base@
            },
            Task::Fetching { target, slot } | Task::Storing { target, slot } => {
                &&& note.is_finalized()
                &&& target == note.slot
                &&& self.last_finalized == prev
                &&& h == self.base@
                &&& prev is Some
                &&& prev.unwrap() + 1 <= slot <= target
                &&& prev.unwrap() + 1 < target
                &&& forall|x: u64| prev.unwrap() < x < slot ==> self.recorded@.contains(x)
                &&& self.queried@ == span(prev.unwrap() + 1, slot + 1)
            },
            Task::Advancing { target, slot } => {
                &&& note.is_finalized()
                &&& target == note.slot
                &&& slot <= target
                &&& forall|x: u64| slot <= x <= target ==> self.recorded@.contains(x)
                &&& self.queried@ == backfilled(prev, note)
                &&& match prev {
                    None => slot == target && self.last_finalized == prev && h == self.base@,
                    Some(p) => {
                        &&& p < slot
                        &&& self.last_finalized == Some((slot - 1) as u64)
                        &&& h == self.base@ + span(p + 1, slot as int)
                    },
                }
            },
        }
    }

    /// Across every call so far, failed ones included, the checkpoint values
    /// acknowledged (the loaded one first) form one run of consecutive slots
    /// that ends at the in-memory last finalized slot.
    pub proof fn lemma_history_contiguous(&self)
        requires
            self.wf(),
        ensures
            consecutive(self.history()),
            self.last() == (if self.history().len() == 0 {
                None
            } else {
                Some(self.history().last())
            }),
    {
    }
}

impl db_processor {
    /// An engine resumed from the durable checkpoint (absent until the first
    /// finalized slot is ever processed).
    pub fn new(checkpoint: Option<u64>) -> (r: db_processor)
        ensures
            r.wf(),
            r.state() == (EngineState { last: checkpoint, task: Task::Idle }),
            r.history() == (match checkpoint {
                None => Seq::<u64>::empty(),
                Some(c) => seq![c],
            }),
    {
        let ghost h = match checkpoint {
            None => Seq::<u64>::empty(),
            Some(c) => seq![c],
        };
        db_processor {
            last_finalized: checkpoint,
            task: Task::Idle,
            history: Ghost(h),
            base: Ghost(h),
            prev: Ghost(checkpoint),
            note: Ghost(SlotMeta { slot: 0, parent: None, status: SlotStatus::Processed }),
            recorded: Ghost(Set::empty()),
            queried: Ghost(Seq::empty()),
        }
    }

    pub fn last_finalized(&self) -> (r: Option<u64>)
        ensures
            r == self.last(),
    {
        self.last_finalized
    }

    pub fn idle(&self) -> (r: bool)
        ensures
            r == self.is_idle(),
    {
        match self.task {
            Task::Idle => true,
            _ => false,
        }
    }

    /// Begins a call on `slot`: its record is upserted first, whatever its
    /// status.
    pub fn process_slot(&mut self, slot: SlotMeta) -> (r: Action)
        requires
            old(self).wf(),
            old(self).is_idle(),
        ensures
            final(self).wf(),
            final(self).state() == (EngineState { last: old(self).last(), task: Task::Recording { note: slot } }),
            r == Action::Upsert(slot),
            final(self).history() == old(self).history(),
            final(self).call_start() == old(self).last(),
            final(self).call_note() == slot,
            final(self).call_history() == old(self).history(),
            final(self).recorded() == Set::<u64>::empty(),
            final(self).queried() == Seq::<u64>::empty(),
    {
        self.task = Task::Recording { note: slot };
        self.base = Ghost(self.history@);
        self.prev = Ghost(self.last_finalized);
        self.note = Ghost(slot);
        self.recorded = Ghost(Set::empty());
        self.queried = Ghost(Seq::empty());
        Action::Upsert(slot)
    }

    fn abort_with(&mut self, e: ProcessError) -> (r: Action)
        requires
            consecutive(old(self).history@),
            old(self).last_finalized == (if old(self).history@.len() == 0 { None } else { Some(old(self).history@.last()) }),
        ensures
            final(self).wf(),
            (final(self).state(), r) == abort(old(self).last(), e),
            final(self).history() == old(self).history(),
            final(self).call_start() == old(self).call_start(),
            final(self).call_note() == old(self).call_note(),
            final(self).call_history() == old(self).call_history(),
            final(self).recorded() == old(self).recorded(),
            final(self).queried() == old(self).queried(),
    {
        self.task = Task::Idle;
        Action::Failed(e)
    }

    /// Takes the outcome of the pending action and returns the next one.
    ///
    /// The checkpoint moves one slot at a time, only over slots recorded during
    /// this call, and only once every slot up to the target has been recorded;
    /// a failure before that leaves the last finalized slot where the call
    /// found it.
    pub fn resume(&mut self, event: Event) -> (r: Action)
        requires
            old(self).wf(),
        ensures
            final(self).wf(),
            (final(self).state(), r) == transition(old(self).state(), event),
            final(self).history() == (if final(self).last() == old(self).last() {
                old(self).history()
            } else {
                old(self).history().push(final(self).last().unwrap())
            }),
            final(self).call_start() == old(self).call_start(),
            final(self).call_note() == old(self).call_note(),
            final(self).call_history() == old(self).call_history(),
            final(self).queried() == (if r is FetchBlock {
                old(self).queried().push(r->FetchBlock_0)
            } else {
                old(self).queried()
            }),
            !old(self).is_idle() && r == Action::Done ==> {
                &&& final(self).queried() == backfilled(old(self).call_start(), old(self).call_note())
                &&& final(self).last() == planned_last(old(self).call_start(), old(self).call_note())
                &&& final(self).history() == old(self).call_history() + checkpoint_writes(
                    old(self).call_start(),
                    old(self).call_note(),
                )
            },
            r is Failed && !old(self).is_idle() && !(old(self).state().task is Advancing)
                ==> final(self).last() == old(self).call_start(),
            final(self).recorded() == (match old(self).state().task {
                Task::Recording { note } => if event is Completed && note.is_finalized() {
                    old(self).recorded().insert(note.slot)
                } else {
                    old(self).recorded()
                },
                Task::Storing { target, slot } => if event is Completed {
                    old(self).recorded().insert(slot)
                } else {
                    old(self).recorded()
                },
                _ => old(self).recorded(),
            }),
            r is WriteCheckpoint ==> forall|x: u64|
                r->WriteCheckpoint_0 <= x <= old(self).call_note().slot
                    ==> final(self).recorded().contains(x),
    {
        match self.task {
            Task::Idle => self.abort_with(ProcessError::InvariantViolation),
            Task::Recording { note } => match event {
                Event::Completed => {
                    if !note.is_final() {
                        self.task = Task::Idle;
                        proof {
                            assert(self.base@ + checkpoint_writes(self.prev@, note) =~= self.base@);
                        }
                        return Action::Done;
                    }
                    proof {
                        self.recorded@ = self.recorded@.insert(note.slot);
                    }
                    let t = note.slot;
                    match self.last_finalized {
                        None => {
                            self.task = Task::Advancing { target: t, slot: t };
                            Action::WriteCheckpoint(t)
                        },
                        Some(p) => {
                            if t <= p {
                                self.task = Task::Idle;
                                proof {
                                    assert(self.base@ + checkpoint_writes(self.prev@, note) =~= self.base@);
                                }
                                Action::Done
                            } else if t == p + 1 {
                                self.task = Task::Advancing { target: t, slot: t };
                                proof {
                                    assert(self.base@ + span(p + 1, t as int) =~= self.base@);
                                }
                                Action::WriteCheckpoint(t)
                            } else {
                                self.task = Task::Fetching { target: t, slot: p + 1 };
                                proof {
                                    self.queried@ = self.queried@.push((p + 1) as u64);
                                    assert(self.queried@ =~= span(p + 1, p + 2));
                                }
                                Action::FetchBlock(p + 1)
                            }
                        },
                    }
                },
                Event::Failed(_) => self.abort_with(ProcessError::TransientIo { slot: note.slot }),
                Event::BlockFetched(_) => self.abort_with(ProcessError::InvariantViolation),
            },
            Task::Fetching { target, slot } => match event {
                Event::BlockFetched(b) => {
                    self.task = Task::Storing { target, slot };
                    Action::Upsert(SlotMeta::finalized(slot, b.parent_slot))
                },
                Event::Failed(f) => {
                    let e = match f {
                        SourceFailure::NotFound => ProcessError::GapUnresolvable { slot },
                        SourceFailure::TransientIo => ProcessError::TransientIo { slot },
                    };
                    self.abort_with(e)
                },
                Event::Completed => self.abort_with(ProcessError::InvariantViolation),
            },
            Task::Storing { target, slot } => match event {
                Event::Completed => {
                    proof {
                        self.recorded@ = self.recorded@.insert(slot);
                    }
                    if slot < target {
                        self.task = Task::Fetching { target, slot: slot + 1 };
                        proof {
                            let p = self.prev@.unwrap();
                            assert(span(p + 1, slot + 1).push((slot + 1) as u64) =~= span(p + 1, slot + 2));
                            self.queried@ = self.queried@.push((slot + 1) as u64);
                        }
                        Action::FetchBlock(slot + 1)
                    } else {
                        let p = self.last_finalized.unwrap();
                        self.task = Task::Advancing { target, slot: p + 1 };
                        proof {
                            assert(self.base@ + span(p + 1, p + 1) =~= self.base@);
                        }
                        Action::WriteCheckpoint(p + 1)
                    }
                },
                Event::Failed(_) => self.abort_with(ProcessError::TransientIo { slot }),
                Event::BlockFetched(_) => self.abort_with(ProcessError::InvariantViolation),
            },
            Task::Advancing { target, slot } => match event {
                Event::Completed => {
                    let ghost old_h = self.history@;
                    self.last_finalized = Some(slot);
                    proof {
                        self.history@ = old_h.push(slot);
                        match self.prev@ {
                            None => {
                                assert(self.history@ =~= self.base@ + checkpoint_writes(self.prev@, self.note@));
                            },
                            Some(p) => {
                                assert(span(p + 1, slot as int).push(slot) =~= span(p + 1, slot + 1));
                                assert(self.history@ =~= self.base@ + span(p + 1, slot + 1));
                            },
                        }
                        assert forall|i: int| 0 <= i < self.history@.len() - 1 implies #[trigger] self.history@[i + 1]
                            == self.history@[i] + 1 by {
                            if i < old_h.len() - 1 {
                                assert(old_h[i + 1] == old_h[i] + 1);
                            }
                        }
                    }
                    if slot < target {
                        self.task = Task::Advancing { target, slot: slot + 1 };
                        Action::WriteCheckpoint(slot + 1)
                    } else {
                        self.task = Task::Idle;
                        Action::Done
                    }
                },
                Event::Failed(_) => self.abort_with(ProcessError::TransientIo { slot }),
                Event::BlockFetched(_) => self.abort_with(ProcessError::InvariantViolation),
            },
        }
    }
}

} // verus!
