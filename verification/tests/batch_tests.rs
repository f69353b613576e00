use freo::batch::{BatchAction, BatchEvent, BatchRun};

#[test]
fn files_are_written_back_only_after_all_are_prepared() {
    let mut run = BatchRun::new(3);
    assert_eq!(run.next_action(), BatchAction::Prepare(0));
    run.record(BatchEvent::Prepared);
    assert_eq!(run.next_action(), BatchAction::Prepare(1));
    run.record(BatchEvent::Skipped);
    assert_eq!(run.next_action(), BatchAction::Prepare(2));
    run.record(BatchEvent::Prepared);
    assert_eq!(run.next_action(), BatchAction::Commit(0));
    run.record(BatchEvent::Committed);
    assert_eq!(run.next_action(), BatchAction::Commit(2));
    run.record(BatchEvent::Committed);
    assert_eq!(run.next_action(), BatchAction::Finish);
}

#[test]
fn a_failed_preparation_aborts_before_anything_is_written() {
    let mut run = BatchRun::new(3);
    run.record(BatchEvent::Prepared);
    run.record(BatchEvent::PrepareFailed);
    assert_eq!(run.next_action(), BatchAction::Abort);
    run.record(BatchEvent::Prepared);
    run.record(BatchEvent::Committed);
    assert_eq!(run.next_action(), BatchAction::Abort);
}

#[test]
fn a_failed_write_back_aborts() {
    let mut run = BatchRun::new(2);
    run.record(BatchEvent::Prepared);
    run.record(BatchEvent::Prepared);
    assert_eq!(run.next_action(), BatchAction::Commit(0));
    run.record(BatchEvent::CommitFailed);
    assert_eq!(run.next_action(), BatchAction::Abort);
}

#[test]
fn events_that_do_not_answer_the_action_change_nothing() {
    let mut run = BatchRun::new(1);
    run.record(BatchEvent::Committed);
    assert_eq!(run.next_action(), BatchAction::Prepare(0));
    run.record(BatchEvent::Skipped);
    run.record(BatchEvent::Prepared);
    assert_eq!(run.next_action(), BatchAction::Finish);
}

#[test]
fn an_empty_batch_finishes_at_once() {
    let run = BatchRun::new(0);
    assert_eq!(run.next_action(), BatchAction::Finish);
}
