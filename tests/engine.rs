use std::collections::{BTreeMap, BTreeSet};

use slot_indexer::engine::{db_processor, Action, Event, SourceFailure};
use slot_indexer::processor::ProcessError;
use slot_indexer::rpc::Rpcblock;
use slot_indexer::types::{SlotMeta, SlotStatus};

#[derive(Debug, Clone, PartialEq)]
enum Step {
    Upsert(u64),
    Fetch(u64),
    Checkpoint(u64),
}

#[derive(Default)]
struct World {
    records: BTreeMap<u64, SlotMeta>,
    checkpoint: Option<u64>,
    checkpoint_log: Vec<u64>,
    trace: Vec<Step>,
    missing: BTreeSet<u64>,
    flaky: BTreeSet<u64>,
    failing_upserts: BTreeSet<u64>,
    failing_checkpoints: BTreeSet<u64>,
}

impl World {
    fn with_checkpoint(c: u64) -> World {
        World { checkpoint: Some(c), ..World::default() }
    }

    fn run(&mut self, engine: &mut db_processor, note: SlotMeta) -> Result<(), ProcessError> {
        let mut action = engine.process_slot(note);
        loop {
            let event = match action {
                Action::Done => return Ok(()),
                Action::Failed(e) => return Err(e),
                Action::Upsert(meta) => {
                    self.trace.push(Step::Upsert(meta.slot));
                    if self.failing_upserts.contains(&meta.slot) {
                        Event::Failed(SourceFailure::TransientIo)
                    } else {
                        self.records.insert(meta.slot, meta);
                        Event::Completed
                    }
                }
                Action::FetchBlock(slot) => {
                    self.trace.push(Step::Fetch(slot));
                    if self.missing.contains(&slot) {
                        Event::Failed(SourceFailure::NotFound)
                    } else if self.flaky.contains(&slot) {
                        Event::Failed(SourceFailure::TransientIo)
                    } else {
                        Event::BlockFetched(Rpcblock {
                            block_height: Some(slot),
                            parent_slot: slot - 1,
                            transactions: None,
                        })
                    }
                }
                Action::WriteCheckpoint(v) => {
                    self.trace.push(Step::Checkpoint(v));
                    if self.failing_checkpoints.contains(&v) {
                        Event::Failed(SourceFailure::TransientIo)
                    } else {
                        self.checkpoint = Some(v);
                        self.checkpoint_log.push(v);
                        Event::Completed
                    }
                }
            };
            action = engine.resume(event);
        }
    }
}

fn fin(slot: u64) -> SlotMeta {
    SlotMeta { slot, parent: Some(slot.saturating_sub(1)), status: SlotStatus::Finalized }
}

fn with_status(slot: u64, status: SlotStatus) -> SlotMeta {
    SlotMeta { slot, parent: Some(slot.saturating_sub(1)), status }
}

#[test]
fn gap_is_backfilled_in_order_before_checkpoint_moves() {
    let mut world = World::with_checkpoint(100);
    let mut engine = db_processor::new(world.checkpoint);
    assert_eq!(world.run(&mut engine, fin(105)), Ok(()));
    let fetched: Vec<u64> = world
        .trace
        .iter()
        .filter_map(|s| if let Step::Fetch(x) = s { Some(*x) } else { None })
        .collect();
    assert_eq!(fetched, vec![101, 102, 103, 104, 105]);
    let first_checkpoint = world.trace.iter().position(|s| matches!(s, Step::Checkpoint(_))).unwrap();
    for slot in 101..=105 {
        let stored = world.trace.iter().rposition(|s| *s == Step::Upsert(slot)).unwrap();
        assert!(stored < first_checkpoint);
        assert_eq!(world.records[&slot].status, SlotStatus::Finalized);
        assert_eq!(world.records[&slot].parent, Some(slot - 1));
    }
    assert_eq!(world.checkpoint_log, vec![101, 102, 103, 104, 105]);
    assert_eq!(world.checkpoint, Some(105));
    assert_eq!(engine.last_finalized(), Some(105));
    assert!(engine.idle());
}

#[test]
fn failed_query_inside_gap_leaves_checkpoint() {
    let mut world = World::with_checkpoint(100);
    world.missing.insert(103);
    let mut engine = db_processor::new(world.checkpoint);
    assert_eq!(world.run(&mut engine, fin(105)), Err(ProcessError::GapUnresolvable { slot: 103 }));
    assert_eq!(world.checkpoint, Some(100));
    assert!(world.checkpoint_log.is_empty());
    assert_eq!(engine.last_finalized(), Some(100));
    assert!(!world.trace.contains(&Step::Fetch(104)));
    assert!(!world.records.contains_key(&103));
    assert!(!world.records.contains_key(&104));
    assert!(engine.idle());
}

#[test]
fn transient_query_failure_is_reported_and_retry_converges() {
    let mut world = World::with_checkpoint(100);
    world.flaky.insert(103);
    let mut engine = db_processor::new(world.checkpoint);
    assert_eq!(world.run(&mut engine, fin(105)), Err(ProcessError::TransientIo { slot: 103 }));
    assert_eq!(world.checkpoint, Some(100));
    world.flaky.clear();
    assert_eq!(world.run(&mut engine, fin(105)), Ok(()));
    assert_eq!(world.checkpoint_log, vec![101, 102, 103, 104, 105]);
    assert_eq!(engine.last_finalized(), Some(105));
}

#[test]
fn concurrent_callers_pass_through_each_slot() {
    let mut world = World::with_checkpoint(100);
    let mut engine = db_processor::new(world.checkpoint);
    assert_eq!(world.run(&mut engine, fin(101)), Ok(()));
    assert_eq!(world.run(&mut engine, fin(102)), Ok(()));
    assert_eq!(world.checkpoint_log, vec![101, 102]);

    let mut world = World::with_checkpoint(100);
    let mut engine = db_processor::new(world.checkpoint);
    assert_eq!(world.run(&mut engine, fin(102)), Ok(()));
    assert_eq!(world.run(&mut engine, fin(101)), Ok(()));
    assert_eq!(world.checkpoint_log, vec![101, 102]);
    assert_eq!(world.checkpoint, Some(102));
    assert_eq!(engine.last_finalized(), Some(102));
}

#[test]
fn restart_from_checkpoint_behaves_like_running_engine() {
    let mut restarted_world = World::with_checkpoint(100);
    let mut restarted = db_processor::new(restarted_world.checkpoint);
    assert_eq!(restarted_world.run(&mut restarted, fin(101)), Ok(()));

    let mut running_world = World::default();
    let mut running = db_processor::new(None);
    assert_eq!(running_world.run(&mut running, fin(100)), Ok(()));
    running_world.trace.clear();
    running_world.checkpoint_log.clear();
    assert_eq!(running_world.run(&mut running, fin(101)), Ok(()));

    assert_eq!(restarted_world.trace, running_world.trace);
    assert_eq!(restarted_world.trace, vec![Step::Upsert(101), Step::Checkpoint(101)]);
    assert_eq!(restarted.last_finalized(), running.last_finalized());
    assert_eq!(restarted_world.checkpoint, Some(101));
}

#[test]
fn checkpoints_stay_contiguous_over_a_noisy_feed() {
    let mut world = World::default();
    let mut engine = db_processor::new(None);
    let feed = [
        fin(10),
        with_status(11, SlotStatus::Processed),
        fin(12),
        fin(12),
        fin(11),
        with_status(20, SlotStatus::Confirmed),
        fin(13),
        fin(17),
        fin(16),
        fin(18),
    ];
    for note in feed {
        assert_eq!(world.run(&mut engine, note), Ok(()));
    }
    assert_eq!(world.checkpoint_log, (10..=18).collect::<Vec<u64>>());
    for slot in 10..=18 {
        assert_eq!(world.records[&slot].status, SlotStatus::Finalized);
    }
}

#[test]
fn processing_twice_equals_processing_once() {
    let mut once = World::with_checkpoint(100);
    let mut engine_once = db_processor::new(once.checkpoint);
    assert_eq!(once.run(&mut engine_once, fin(104)), Ok(()));

    let mut twice = World::with_checkpoint(100);
    let mut engine_twice = db_processor::new(twice.checkpoint);
    assert_eq!(twice.run(&mut engine_twice, fin(104)), Ok(()));
    assert_eq!(twice.run(&mut engine_twice, fin(104)), Ok(()));

    assert_eq!(once.records, twice.records);
    assert_eq!(once.checkpoint, twice.checkpoint);
    assert_eq!(once.checkpoint_log, twice.checkpoint_log);
    assert_eq!(engine_once.last_finalized(), engine_twice.last_finalized());
}

#[test]
fn non_finalized_never_moves_checkpoint() {
    let statuses = [
        SlotStatus::Processed,
        SlotStatus::Confirmed,
        SlotStatus::Completed,
        SlotStatus::Dead,
        SlotStatus::CreatedBank,
        SlotStatus::FirstShredReceived,
    ];
    for slot in [0u64, 99, 100, 101, 105, u64::MAX] {
        for status in statuses {
            let mut world = World::with_checkpoint(100);
            let mut engine = db_processor::new(world.checkpoint);
            assert_eq!(world.run(&mut engine, with_status(slot, status)), Ok(()));
            assert_eq!(world.checkpoint, Some(100));
            assert!(world.checkpoint_log.is_empty());
            assert_eq!(engine.last_finalized(), Some(100));
            assert_eq!(world.records[&slot].status, status);
            assert_eq!(world.trace, vec![Step::Upsert(slot)]);
        }
    }
}

#[test]
fn first_finalized_slot_is_the_baseline() {
    let mut world = World::default();
    let mut engine = db_processor::new(None);
    assert_eq!(engine.last_finalized(), None);
    assert_eq!(world.run(&mut engine, fin(50)), Ok(()));
    assert_eq!(world.trace, vec![Step::Upsert(50), Step::Checkpoint(50)]);
    assert_eq!(engine.last_finalized(), Some(50));
}

#[test]
fn stale_finalized_slot_keeps_checkpoint() {
    let mut world = World::with_checkpoint(100);
    let mut engine = db_processor::new(world.checkpoint);
    assert_eq!(world.run(&mut engine, fin(90)), Ok(()));
    assert_eq!(world.trace, vec![Step::Upsert(90)]);
    assert_eq!(engine.last_finalized(), Some(100));
}

#[test]
fn failed_record_upsert_is_transient() {
    let mut world = World::with_checkpoint(100);
    world.failing_upserts.insert(101);
    let mut engine = db_processor::new(world.checkpoint);
    assert_eq!(world.run(&mut engine, fin(101)), Err(ProcessError::TransientIo { slot: 101 }));
    assert_eq!(engine.last_finalized(), Some(100));
    assert!(world.checkpoint_log.is_empty());
}

#[test]
fn failed_backfill_upsert_leaves_checkpoint() {
    let mut world = World::with_checkpoint(100);
    world.failing_upserts.insert(102);
    let mut engine = db_processor::new(world.checkpoint);
    assert_eq!(world.run(&mut engine, fin(103)), Err(ProcessError::TransientIo { slot: 102 }));
    assert_eq!(engine.last_finalized(), Some(100));
    assert_eq!(world.checkpoint, Some(100));
}

#[test]
fn failed_checkpoint_write_keeps_last_durable_value() {
    let mut world = World::with_checkpoint(100);
    world.failing_checkpoints.insert(103);
    let mut engine = db_processor::new(world.checkpoint);
    assert_eq!(world.run(&mut engine, fin(104)), Err(ProcessError::TransientIo { slot: 103 }));
    assert_eq!(world.checkpoint, Some(102));
    assert_eq!(engine.last_finalized(), Some(102));
    world.failing_checkpoints.clear();
    assert_eq!(world.run(&mut engine, fin(104)), Ok(()));
    assert_eq!(world.checkpoint_log, vec![101, 102, 103, 104]);
}

#[test]
fn unexpected_event_is_an_invariant_violation() {
    let mut engine = db_processor::new(Some(7));
    assert_eq!(engine.resume(Event::Completed), Action::Failed(ProcessError::InvariantViolation));
    assert_eq!(engine.process_slot(fin(9)), Action::Upsert(fin(9)));
    let block = Rpcblock { block_height: None, parent_slot: 8, transactions: None };
    assert_eq!(
        engine.resume(Event::BlockFetched(block)),
        Action::Failed(ProcessError::InvariantViolation)
    );
    assert!(engine.idle());
    assert_eq!(engine.last_finalized(), Some(7));
}

#[test]
fn backfilled_record_takes_parent_from_source() {
    let mut engine = db_processor::new(Some(7));
    assert_eq!(engine.process_slot(fin(9)), Action::Upsert(fin(9)));
    assert_eq!(engine.resume(Event::Completed), Action::FetchBlock(8));
    let block = Rpcblock { block_height: None, parent_slot: 6, transactions: None };
    assert_eq!(
        engine.resume(Event::BlockFetched(block)),
        Action::Upsert(SlotMeta { slot: 8, parent: Some(6), status: SlotStatus::Finalized })
    );
}
