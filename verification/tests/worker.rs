use aixker_rlt::worker::{BatchSchedule, WorkerStep};

#[test]
fn waits_for_a_full_batch() {
    let mut schedule = BatchSchedule::new();
    assert_eq!(schedule.tick(3, 4, 10), WorkerStep::Wait);
    assert_eq!(schedule.batch_counter(), 0);
}

#[test]
fn trains_batches_in_turn_then_finishes() {
    let mut schedule = BatchSchedule::new();
    assert_eq!(schedule.tick(4, 4, 2), WorkerStep::Train(1));
    assert_eq!(schedule.tick(9, 4, 2), WorkerStep::Train(2));
    assert_eq!(schedule.tick(9, 4, 2), WorkerStep::Finish);
    assert_eq!(schedule.tick(9, 4, 2), WorkerStep::Finish);
    assert_eq!(schedule.tick(1, 4, 2), WorkerStep::Wait);
    assert_eq!(schedule.batch_counter(), 2);
}

#[test]
fn zero_total_batches_never_trains() {
    let mut schedule = BatchSchedule::new();
    assert_eq!(schedule.tick(1, 1, 0), WorkerStep::Finish);
    assert_eq!(schedule.batch_counter(), 0);
}

#[test]
fn one_total_batch_trains_once() {
    let mut schedule = BatchSchedule::new();
    assert_eq!(schedule.tick(5, 1, 1), WorkerStep::Train(1));
    assert_eq!(schedule.tick(5, 1, 1), WorkerStep::Finish);
    assert_eq!(schedule.batch_counter(), 1);
}
