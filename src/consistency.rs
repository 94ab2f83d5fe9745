use vstd::prelude::*;

use crate::engine::{
    after_record, backfilled, checkpoint_writes, consecutive, planned_last, span, transition,
    Action, EngineState, Event, Task,
};
use crate::processor::{is_successor, Simpleprocessor, SlotProcessor};
use crate::types::SlotMeta;

verus! {

/// The last finalized slot after successful calls on `notes`, in order.
pub open spec fn replay(prev: Option<u64>, notes: Seq<SlotMeta>) -> Option<u64>
    decreases notes.len(),
{
    if notes.len() == 0 {
        prev
    } else {
        planned_last(replay(prev, notes.drop_last()), notes.last())
    }
}

/// Every checkpoint value that successful calls on `notes` write, in order.
pub open spec fn replay_writes(prev: Option<u64>, notes: Seq<SlotMeta>) -> Seq<u64>
    decreases notes.len(),
{
    if notes.len() == 0 {
        Seq::empty()
    } else {
        replay_writes(prev, notes.drop_last()) + checkpoint_writes(
            replay(prev, notes.drop_last()),
            notes.last(),
        )
    }
}

/// The checkpoint that was already there, if any.
pub open spec fn anchor(prev: Option<u64>) -> Seq<u64> {
    match prev {
        None => Seq::empty(),
        Some(c) => seq![c],
    }
}

/// The index of the first finalized notification, if any.
pub open spec fn first_finalized(notes: Seq<SlotMeta>) -> Option<int>
    decreases notes.len(),
{
    if notes.len() == 0 {
        None
    } else {
        match first_finalized(notes.drop_last()) {
            Some(i) => Some(i),
            None => if notes.last().is_finalized() { Some(notes.len() - 1) } else { None },
        }
    }
}

proof fn lemma_span_consecutive(lo: int, hi: int)
    requires
        0 <= lo <= hi <= u64::MAX + 1,
    ensures
        consecutive(span(lo, hi)),
{
    let s = span(lo, hi);
    assert(s.len() == hi - lo);
    assert forall|i: int| 0 <= i < s.len() - 1 implies #[trigger] s[i + 1] == s[i] + 1 by {
        assert(s[i] == lo + i);
        assert(s[i + 1] == lo + i + 1);
    }
}

proof fn lemma_append_consecutive(a: Seq<u64>, b: Seq<u64>)
    requires
        consecutive(a),
        consecutive(b),
        a.len() > 0 && b.len() > 0 ==> b[0] == a.last() + 1,
    ensures
        consecutive(a + b),
{
    assert forall|i: int| 0 <= i < (a + b).len() - 1 implies #[trigger] (a + b)[i + 1] == (a + b)[i]
        + 1 by {
        if i < a.len() - 1 {
            assert(a[i + 1] == a[i] + 1);
        } else if i >= a.len() {
            assert(b[i - a.len() + 1] == b[i - a.len()] + 1);
        }
    }
}

/// Contiguity: over any sequence of successful calls, the checkpoint values
/// written, after the one that was loaded, form one run in which each value
/// directly follows the one before, and the run ends at the last finalized
/// slot. Starting with no checkpoint, the run begins at the first finalized
/// notification.
pub proof fn lemma_checkpoints_contiguous(prev: Option<u64>, notes: Seq<SlotMeta>)
    ensures
        consecutive(anchor(prev) + replay_writes(prev, notes)),
        replay(prev, notes) == (if (anchor(prev) + replay_writes(prev, notes)).len() == 0 {
            None
        } else {
            Some((anchor(prev) + replay_writes(prev, notes)).last())
        }),
        prev is None ==> match first_finalized(notes) {
            None => replay_writes(prev, notes).len() == 0,
            Some(i) => 0 <= i < notes.len() && replay_writes(prev, notes).len() > 0
                && replay_writes(prev, notes)[0] == notes[i].slot,
        },
    decreases notes.len(),
{
    if notes.len() == 0 {
        assert(anchor(prev) + replay_writes(prev, notes) =~= anchor(prev));
    } else {
        let init = notes.drop_last();
        let n = notes.last();
        lemma_checkpoints_contiguous(prev, init);
        let before = anchor(prev) + replay_writes(prev, init);
        let r = replay(prev, init);
        let w = checkpoint_writes(r, n);
        assert(anchor(prev) + replay_writes(prev, notes) =~= before + w);
        if n.is_finalized() {
            match r {
                None => {},
                Some(p) => {
                    if n.slot > p {
                        lemma_span_consecutive(p + 1, n.slot + 1);
                    }
                },
            }
        }
        lemma_append_consecutive(before, w);
        if prev is None {
            match first_finalized(init) {
                Some(i) => {
                    assert(replay_writes(prev, notes) =~= replay_writes(prev, init) + w);
                    assert(notes[i] == init[i]);
                },
                None => {},
            }
        }
    }
}

/// Idempotence: a notification processed again right after a successful call
/// on it writes no checkpoint, queries nothing, and leaves the last finalized
/// slot as it was; its only effect is the upsert of the same record.
pub proof fn lemma_idempotent(prev: Option<u64>, note: SlotMeta)
    ensures
        planned_last(planned_last(prev, note), note) == planned_last(prev, note),
        checkpoint_writes(planned_last(prev, note), note) == Seq::<u64>::empty(),
        backfilled(planned_last(prev, note), note) == Seq::<u64>::empty(),
{
}

/// A notification that is not finalized never moves the checkpoint: a
/// successful call writes none, and every step of its call keeps the last
/// finalized slot.
pub proof fn lemma_not_finalized_inert(last: Option<u64>, note: SlotMeta, event: Event)
    requires
        !note.is_finalized(),
    ensures
        planned_last(last, note) == last,
        checkpoint_writes(last, note) == Seq::<u64>::empty(),
        backfilled(last, note) == Seq::<u64>::empty(),
        transition(EngineState { last, task: Task::Recording { note } }, event).0 == (EngineState {
            last,
            task: Task::Idle,
        }),
{
}

/// Serialized callers: two finalized notifications for the two slots after
/// `p`, applied one after the other in either order, move the checkpoint
/// through `p + 1` before `p + 2` and never straight from `p` to `p + 2`.
pub proof fn lemma_serialized_pair(p: u64, a: SlotMeta, b: SlotMeta)
    requires
        p + 2 <= u64::MAX,
        a.is_finalized(),
        b.is_finalized(),
        a.slot == p + 1,
        b.slot == p + 2,
    ensures
        checkpoint_writes(Some(p), a) + checkpoint_writes(planned_last(Some(p), a), b) == seq![
            (p + 1) as u64,
            (p + 2) as u64,
        ],
        checkpoint_writes(Some(p), b) + checkpoint_writes(planned_last(Some(p), b), a) == seq![
            (p + 1) as u64,
            (p + 2) as u64,
        ],
        planned_last(planned_last(Some(p), a), b) == Some((p + 2) as u64),
        planned_last(planned_last(Some(p), b), a) == Some((p + 2) as u64),
{
    assert(checkpoint_writes(Some(p), a) + checkpoint_writes(planned_last(Some(p), a), b) =~= seq![
        (p + 1) as u64,
        (p + 2) as u64,
    ]);
    assert(checkpoint_writes(Some(p), b) + checkpoint_writes(planned_last(Some(p), b), a) =~= seq![
        (p + 1) as u64,
        (p + 2) as u64,
    ]);
}

/// Recovery: an engine restarted from a durable checkpoint `c` and an engine
/// that reached `c` in memory take the same steps on the next notification
/// for `c + 1`: one upsert, the checkpoint write of `c + 1`, and success.
pub proof fn lemma_recovery(c: u64, running: EngineState, note: SlotMeta)
    requires
        c < u64::MAX,
        running.last == Some(c),
        running.task == Task::Idle,
        note.is_finalized(),
        note.slot == c + 1,
    ensures
        ({
            let restarted = EngineState { last: Some(c), task: Task::Idle };
            let recording = |s: EngineState| EngineState { last: s.last, task: Task::Recording { note } };
            &&& restarted == running
            &&& transition(recording(restarted), Event::Completed) == transition(
                recording(running),
                Event::Completed,
            )
            &&& transition(recording(restarted), Event::Completed) == (
                EngineState { last: Some(c), task: Task::Advancing { target: note.slot, slot: note.slot } },
                Action::WriteCheckpoint(note.slot),
            )
            &&& transition(transition(recording(restarted), Event::Completed).0, Event::Completed) == (
                EngineState { last: Some(note.slot), task: Task::Idle },
                Action::Done,
            )
        }),
{
    assert(after_record(Some(c), note).1 == Action::WriteCheckpoint(note.slot));
}

/// The slots that a validation-only processor whose last slot is `last`
/// accepts from `notes`, in order.
pub open spec fn accepted_run(last: Option<u64>, notes: Seq<SlotMeta>) -> Seq<u64>
    decreases notes.len(),
{
    if notes.len() == 0 {
        Seq::empty()
    } else {
        let before = accepted_run(last, notes.drop_last());
        let cur = if before.len() == 0 { last } else { Some(before.last()) };
        let n = notes.last();
        if n.is_finalized() && is_successor(cur, n.slot) {
            before.push(n.slot)
        } else {
            before
        }
    }
}

/// The state of a validation-only processor after calls on `notes`, in order.
pub open spec fn simple_replay(p: Simpleprocessor, notes: Seq<SlotMeta>) -> Simpleprocessor
    decreases notes.len(),
{
    if notes.len() == 0 {
        p
    } else {
        simple_replay(p, notes.drop_last()).after(notes.last())
    }
}

/// Contiguity for the validation-only processor: the slots it accepts over any
/// sequence of calls, after the one it held, each directly follow the one
/// before, and the last of them is the slot it then holds.
pub proof fn lemma_simple_contiguous(p: Simpleprocessor, notes: Seq<SlotMeta>)
    ensures
        consecutive(anchor(p.last()) + accepted_run(p.last(), notes)),
        simple_replay(p, notes).last() == (if accepted_run(p.last(), notes).len() == 0 {
            p.last()
        } else {
            Some(accepted_run(p.last(), notes).last())
        }),
    decreases notes.len(),
{
    if notes.len() == 0 {
        assert(anchor(p.last()) + accepted_run(p.last(), notes) =~= anchor(p.last()));
    } else {
        let init = notes.drop_last();
        let n = notes.last();
        lemma_simple_contiguous(p, init);
        let q = simple_replay(p, init);
        Simpleprocessor::lemma_holding(Some(n.slot), q);
        let before = anchor(p.last()) + accepted_run(p.last(), init);
        if n.is_finalized() && is_successor(q.last(), n.slot) {
            assert(anchor(p.last()) + accepted_run(p.last(), notes) =~= before + seq![n.slot]);
            lemma_append_consecutive(before, seq![n.slot]);
        } else {
            assert(anchor(p.last()) + accepted_run(p.last(), notes) =~= before);
        }
    }
}

/// A validation-only processor rejects a slot that it has just accepted, and
/// the second call changes nothing.
pub proof fn lemma_simple_repeat_rejected(p: Simpleprocessor, note: SlotMeta)
    requires
        p.accepts(note),
    ensures
        !p.after(note).accepts(note),
        p.after(note).after(note) == p.after(note),
{
    Simpleprocessor::lemma_holding(Some(note.slot), p);
}

} // verus!
