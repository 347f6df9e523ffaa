use blockscout_services::active_value::ActiveValue;
use blockscout_services::fetch::{FetchEffect, FetchError, FetchOperations, FetchReply};
use blockscout_services::interval::{self, Model};
use blockscout_services::operation::Operation;
use blockscout_services::reply::Reply;
use blockscout_services::save::{SaveEffect, SaveError, SaveIntervals};
use blockscout_services::watermark;
use blockscout_services::{Indexer, IndexerSettings, Job};

fn settings() -> IndexerSettings {
    IndexerSettings {
        start_timestamp: 1000,
        catchup_interval: 10,
    }
}

fn interval_row() -> Model {
    Model {
        id: 7,
        start: 1000,
        end: 1010,
        timestamp: 1000,
        status: 1,
        next_retry: Some(990),
        retry_count: 2,
    }
}

/// Answers every effect with success, but the one numbered `failing` with a failure.
fn drive_save(
    indexer: &mut Indexer,
    now: u64,
    failing: usize,
    existing: Option<watermark::Model>,
) -> (Vec<Vec<interval::ActiveModel>>, Vec<&'static str>, Result<usize, SaveError>) {
    let mut run: SaveIntervals = indexer.save_intervals(now);
    let mut reply = Reply::Done;
    let mut batches = Vec::new();
    let mut log = Vec::new();
    loop {
        let (next, effect) = run.resume(indexer, reply);
        run = next;
        reply = Reply::Done;
        match effect {
            SaveEffect::Begin => log.push("begin"),
            SaveEffect::Insert(rows) => {
                batches.push(rows);
                log.push("insert");
            }
            SaveEffect::FindWatermark => {
                log.push("find");
                reply = Reply::Row(existing);
            }
            SaveEffect::SaveWatermark(change) => {
                let batch: &Vec<interval::ActiveModel> = batches.last().expect("rows are inserted");
                assert_eq!(change.timestamp, batch.last().expect("a batch is not empty").end);
                match existing {
                    Some(row) => assert_eq!(change.id, ActiveValue::Unchanged(row.id)),
                    None => assert_eq!(change.id, ActiveValue::NotSet),
                }
                log.push("save");
            }
            SaveEffect::Commit => log.push("commit"),
            SaveEffect::Rollback => log.push("rollback"),
            SaveEffect::Return(result) => {
                let (_, after) = run.resume(indexer, Reply::Done);
                assert!(matches!(after, SaveEffect::Nothing));
                return (batches, log, result);
            }
            SaveEffect::Nothing => panic!("the run is not over"),
        }
        if log.len() == failing {
            reply = Reply::Failed;
        }
    }
}

#[test]
fn indexer_starts_from_the_later_instant() {
    assert_eq!(Indexer::new(settings(), None).watermark(), 1000);
    let stored = |timestamp| Some(watermark::Model { id: 1, timestamp });
    assert_eq!(Indexer::new(settings(), stored(999)).watermark(), 1000);
    assert_eq!(Indexer::new(settings(), stored(1000)).watermark(), 1000);
    assert_eq!(Indexer::new(settings(), stored(1001)).watermark(), 1001);
    assert_eq!(Indexer::new(settings(), stored(-1)).watermark(), u64::MAX);
}

#[test]
fn inconsistent_intervals_start_beyond_the_watermark() {
    let indexer = Indexer::new(settings(), None);
    let row = |id, start| Model { id, start, ..interval_row() };
    let rows = vec![row(1, 1001), row(2, 1000), row(3, 999), row(4, 5000)];
    assert_eq!(indexer.find_inconsistent_intervals(&rows), vec![1, 4]);
    assert_eq!(indexer.inconsistency_bound(), 1000);
    assert!(indexer.find_inconsistent_intervals(&Vec::new()).is_empty());
}

#[test]
fn saving_goes_through_one_transaction_per_batch() {
    let mut indexer = Indexer::new(settings(), None);
    assert!(indexer.can_save(1025));
    let (batches, log, result) = drive_save(&mut indexer, 1025, usize::MAX, None);
    assert_eq!(result, Ok(3));
    assert_eq!(log, vec!["begin", "insert", "find", "save", "commit"]);
    assert_eq!(batches.len(), 1);
    assert_eq!(batches[0].len(), 3);
    assert_eq!(indexer.watermark(), 1025);
}

#[test]
fn saving_cuts_batches_of_a_thousand() {
    let mut indexer = Indexer::new(settings(), None);
    let existing = Some(watermark::Model { id: 3, timestamp: 1 });
    let now = 1000 + 10 * 2500;
    let (batches, log, result) = drive_save(&mut indexer, now, usize::MAX, existing);
    assert_eq!(result, Ok(2500));
    let sizes: Vec<usize> = batches.iter().map(|rows| rows.len()).collect();
    assert_eq!(sizes, vec![1000, 1000, 500]);
    assert_eq!(log.len(), 15);
    let starts: Vec<ActiveValue<i64>> =
        batches.concat().iter().map(|row| row.start).collect();
    let expected: Vec<ActiveValue<i64>> =
        (0..2500).map(|k| ActiveValue::Write(1000 + 10 * k)).collect();
    assert_eq!(starts, expected);
    assert_eq!(indexer.watermark(), now);
}

#[test]
fn saving_nothing_leaves_the_watermark() {
    let mut indexer = Indexer::new(settings(), None);
    let (batches, log, result) = drive_save(&mut indexer, 900, usize::MAX, None);
    assert_eq!(result, Ok(0));
    assert!(batches.is_empty());
    assert!(log.is_empty());
    assert_eq!(indexer.watermark(), 1000);
}

#[test]
fn saving_names_the_effect_that_failed() {
    let expected = [
        (1, SaveError::Begin, 1000),
        (2, SaveError::Insert, 1000),
        (3, SaveError::FindWatermark, 1000),
        (4, SaveError::SaveWatermark, 1000),
        (5, SaveError::Commit, 1025),
    ];
    for (failing, error, watermark) in expected {
        let mut indexer = Indexer::new(settings(), None);
        let (_, log, result) = drive_save(&mut indexer, 1025, failing, None);
        assert_eq!(result, Err(error));
        assert_eq!(indexer.watermark(), watermark);
        assert_eq!(log.contains(&"rollback"), error == SaveError::Insert);
    }
}

#[test]
fn saving_reports_a_failed_rollback() {
    let mut indexer = Indexer::new(settings(), None);
    let run = indexer.save_intervals(1025);
    let (run, _) = run.resume(&mut indexer, Reply::Done);
    let (run, _) = run.resume(&mut indexer, Reply::Done);
    let (run, effect) = run.resume(&mut indexer, Reply::Failed);
    assert!(matches!(effect, SaveEffect::Rollback));
    let (_, effect) = run.resume(&mut indexer, Reply::Failed);
    assert!(matches!(effect, SaveEffect::Return(Err(SaveError::Rollback))));
}

#[test]
fn a_later_batch_can_fail_after_the_watermark_moved() {
    let mut indexer = Indexer::new(settings(), None);
    let now = 1000 + 10 * 1500;
    let (batches, _, result) = drive_save(&mut indexer, now, 7, None);
    assert_eq!(result, Err(SaveError::Insert));
    assert_eq!(batches.len(), 2);
    assert_eq!(indexer.watermark(), 1000 + 10 * 1000);
    assert_eq!(batches[0][999].end, ActiveValue::Write(1000 + 10 * 1000));
}

#[test]
fn what_a_failed_run_left_is_saved_by_the_next() {
    let now = 1000 + 10 * 2500 - 3;
    let planned = blockscout_services::plan::plan(1000, now, 10);
    // The second transaction fails at each of its effects but the commit.
    for failing in [6, 7, 8, 9] {
        let mut indexer = Indexer::new(settings(), None);
        let (first, _, result) = drive_save(&mut indexer, now, failing, None);
        assert!(result.is_err());
        assert_eq!(indexer.watermark(), 11_000);
        let stored = Some(watermark::Model { id: 1, timestamp: 11_000 });
        let mut restarted = Indexer::new(settings(), stored);
        for again in [&mut indexer, &mut restarted] {
            let (second, _, result) = drive_save(again, now, usize::MAX, stored);
            assert_eq!(result, Ok(1500));
            assert_eq!(again.watermark(), now);
            let mut rows = first[0].clone();
            rows.extend(second.concat());
            assert_eq!(rows, planned);
        }
    }
}

#[test]
fn watermark_follows_each_batch() {
    let mut indexer = Indexer::new(settings(), None);
    let now = 1000 + 10 * 1001 + 5;
    let mut run = indexer.save_intervals(now);
    assert_eq!(run.total(), 1002);
    let mut reply = Reply::Done;
    let mut moves = vec![indexer.watermark()];
    let mut asked = Vec::new();
    loop {
        let (next, effect) = run.resume(&mut indexer, reply);
        run = next;
        reply = Reply::Done;
        if indexer.watermark() != moves[moves.len() - 1] {
            assert!(matches!(effect, SaveEffect::Commit));
            moves.push(indexer.watermark());
        }
        match effect {
            SaveEffect::FindWatermark => reply = Reply::Row(None),
            SaveEffect::SaveWatermark(change) => asked.push(change.timestamp),
            SaveEffect::Return(result) => {
                assert_eq!(result, Ok(1002));
                break;
            }
            _ => {}
        }
    }
    assert_eq!(moves, vec![1000, 11_000, now]);
    assert_eq!(
        asked,
        vec![ActiveValue::Write(11_000), ActiveValue::Write(now as i64)]
    );
}

#[test]
fn stored_watermark_ends_with_the_committed_rows() {
    let now = 1000 + 10 * 2500;
    let planned = blockscout_services::plan::plan(1000, now, 10);
    // Fails each effect of the three transactions in turn, commits too, and none at last.
    for failing in 1..=16 {
        let mut indexer = Indexer::new(settings(), None);
        let mut run = indexer.save_intervals(now);
        let mut reply = Reply::Done;
        let mut asked = 0;
        let mut committed: Vec<interval::ActiveModel> = Vec::new();
        let mut inserted: Vec<interval::ActiveModel> = Vec::new();
        let mut stored = 1000;
        let mut written = 1000;
        loop {
            let (next, effect) = run.resume(&mut indexer, reply);
            run = next;
            asked += 1;
            let good = asked != failing;
            reply = if good { Reply::Done } else { Reply::Failed };
            match effect {
                SaveEffect::Begin => {
                    inserted.clear();
                    written = stored;
                }
                SaveEffect::Insert(rows) => inserted = rows,
                SaveEffect::FindWatermark if good => reply = Reply::Row(None),
                SaveEffect::SaveWatermark(change) if good => match change.timestamp {
                    ActiveValue::Write(timestamp) => written = timestamp,
                    other => panic!("{:?}", other),
                },
                SaveEffect::Commit if good => {
                    committed.append(&mut inserted);
                    stored = written;
                }
                SaveEffect::Return(_) => break,
                _ => {}
            }
        }
        let end = committed.last().map_or(1000, |row| row.written_end());
        assert_eq!(stored, end as i64);
        assert_eq!(committed.len(), [0, 1000, 2000, 2500][(failing - 1) / 5]);
        // A failed commit alone leaves the watermark in memory ahead.
        let ahead = failing % 5 == 0;
        assert_eq!(indexer.watermark() > end, ahead);
        let row = Some(watermark::Model { id: 1, timestamp: stored });
        let mut restarted = Indexer::new(settings(), row);
        let (rest, _, _) = drive_save(&mut restarted, now, usize::MAX, row);
        committed.extend(rest.concat());
        assert_eq!(committed, planned);
    }
}

#[test]
fn zero_width_cannot_be_saved() {
    let indexer = Indexer::new(
        IndexerSettings { start_timestamp: 0, catchup_interval: 0 },
        None,
    );
    assert!(!indexer.can_save(10));
}

fn operations() -> Vec<Operation> {
    vec![
        Operation { id: "a".to_string(), timestamp: 1001 },
        Operation { id: "b".to_string(), timestamp: 1002 },
    ]
}

fn fetching() -> FetchOperations {
    let indexer = Indexer::new(settings(), None);
    indexer.fetch_operations(&Job { interval: interval_row() })
}

fn begun() -> FetchOperations {
    let (run, _) = fetching().resume(FetchReply::Done);
    let (run, effect) = run.resume(FetchReply::Operations(operations()));
    assert!(matches!(effect, FetchEffect::Begin));
    run
}

#[test]
fn fetching_asks_for_the_interval() {
    let (_, effect) = fetching().resume(FetchReply::Failed);
    assert!(matches!(effect, FetchEffect::Fetch { start: 1000, end: 1010 }));
}

#[test]
fn fetching_inserts_each_operation_and_finishes_the_interval() {
    let (run, effect) = begun().resume(FetchReply::Done);
    match effect {
        FetchEffect::Insert(row) => {
            assert_eq!(row.id, ActiveValue::Write("a".to_string()));
            assert_eq!(row.operation_type, ActiveValue::Write(None));
            assert_eq!(row.timestamp, ActiveValue::Write(1001));
            assert_eq!(row.status, ActiveValue::Write(0));
            assert_eq!(row.next_retry, ActiveValue::Write(None));
            assert_eq!(row.retry_count, ActiveValue::Write(0));
        }
        other => panic!("{:?}", other),
    }
    let (run, effect) = run.resume(FetchReply::Done);
    match effect {
        FetchEffect::Insert(row) => assert_eq!(row.id, ActiveValue::Write("b".to_string())),
        other => panic!("{:?}", other),
    }
    let (run, effect) = run.resume(FetchReply::Done);
    match effect {
        FetchEffect::Update(change) => {
            assert_eq!(change.id, ActiveValue::Unchanged(7));
            assert_eq!(change.status, ActiveValue::Write(2));
            assert_eq!(change.next_retry, ActiveValue::Unchanged(Some(990)));
            assert_eq!(change.retry_count, ActiveValue::Unchanged(2));
            assert_eq!(change.start, ActiveValue::Unchanged(1000));
        }
        other => panic!("{:?}", other),
    }
    let (run, effect) = run.resume(FetchReply::Done);
    assert!(matches!(effect, FetchEffect::Commit));
    let (run, effect) = run.resume(FetchReply::Done);
    assert!(matches!(effect, FetchEffect::Return(Ok(()))));
    let (_, effect) = run.resume(FetchReply::Done);
    assert!(matches!(effect, FetchEffect::Nothing));
}

#[test]
fn fetching_goes_on_after_a_failed_insert() {
    let (run, _) = begun().resume(FetchReply::Done);
    let (run, effect) = run.resume(FetchReply::Failed);
    match effect {
        FetchEffect::Insert(row) => assert_eq!(row.id, ActiveValue::Write("b".to_string())),
        other => panic!("{:?}", other),
    }
    let (_, effect) = run.resume(FetchReply::Failed);
    assert!(matches!(effect, FetchEffect::Update(_)));
}

#[test]
fn fetching_no_operations_finishes_the_interval() {
    let (run, _) = fetching().resume(FetchReply::Done);
    let (run, _) = run.resume(FetchReply::Operations(Vec::new()));
    let (_, effect) = run.resume(FetchReply::Done);
    assert!(matches!(effect, FetchEffect::Update(_)));
}

#[test]
fn fetching_names_the_effect_that_failed() {
    let (run, _) = fetching().resume(FetchReply::Done);
    let (_, effect) = run.resume(FetchReply::Failed);
    assert!(matches!(effect, FetchEffect::Return(Err(FetchError::Fetch))));

    let (_, effect) = begun().resume(FetchReply::Failed);
    assert!(matches!(effect, FetchEffect::Return(Err(FetchError::Begin))));

    let updating = || {
        let (run, _) = begun().resume(FetchReply::Done);
        let (run, _) = run.resume(FetchReply::Done);
        run.resume(FetchReply::Done).0
    };
    let (_, effect) = updating().resume(FetchReply::Failed);
    assert!(matches!(effect, FetchEffect::Return(Err(FetchError::Update))));

    let (run, _) = updating().resume(FetchReply::Done);
    let (_, effect) = run.resume(FetchReply::Failed);
    assert!(matches!(effect, FetchEffect::Return(Err(FetchError::Commit))));
}

/// Carries a run out on a table of ids and timestamps, and gives the change to the interval.
fn fetch_into(table: &mut Vec<(String, i64)>) -> interval::ActiveModel {
    let mut run = fetching();
    let mut reply = FetchReply::Done;
    let mut marked = None;
    loop {
        let (next, effect) = run.resume(reply);
        run = next;
        reply = FetchReply::Done;
        match effect {
            FetchEffect::Fetch { .. } => reply = FetchReply::Operations(operations()),
            FetchEffect::Insert(row) => match (row.id, row.timestamp) {
                (ActiveValue::Write(id), ActiveValue::Write(timestamp)) => {
                    if !table.iter().any(|stored| stored.0 == id) {
                        table.push((id, timestamp));
                    }
                }
                other => panic!("{:?}", other),
            },
            FetchEffect::Update(change) => marked = Some(change),
            FetchEffect::Return(result) => {
                assert_eq!(result, Ok(()));
                return marked.expect("the interval is marked");
            }
            _ => {}
        }
    }
}

#[test]
fn fetching_a_second_time_changes_nothing() {
    let mut table = vec![("b".to_string(), 5)];
    let first = fetch_into(&mut table);
    assert_eq!(table, vec![("b".to_string(), 5), ("a".to_string(), 1001)]);
    let before = table.clone();
    let second = fetch_into(&mut table);
    assert_eq!(table, before);
    assert_eq!(first, second);
}

/// Fetches these operations with the answers to effects after `Fetch` given by `good`, and gives
/// what the transaction wrote, once it is committed.
fn fetch_with(
    given: Vec<Operation>,
    stored: &[(&str, i64)],
    good: impl Fn(usize) -> bool,
) -> (Vec<(String, i64)>, i16, Result<(), FetchError>) {
    let before: Vec<(String, i64)> =
        stored.iter().map(|(id, timestamp)| (id.to_string(), *timestamp)).collect();
    let (mut table, mut status) = (before.clone(), 1);
    let (mut written, mut marked) = (before, 1);
    let mut given = Some(given);
    let mut run = fetching();
    let mut reply = FetchReply::Done;
    let mut asked = 0;
    loop {
        let (next, effect) = run.resume(reply);
        run = next;
        reply = if good(asked) { FetchReply::Done } else { FetchReply::Failed };
        let done = good(asked);
        match effect {
            FetchEffect::Fetch { .. } => {
                reply = FetchReply::Operations(given.take().expect("asked for once"));
                continue;
            }
            FetchEffect::Insert(row) if done => match (row.id, row.timestamp) {
                (ActiveValue::Write(id), ActiveValue::Write(timestamp)) => {
                    if !written.iter().any(|stored| stored.0 == id) {
                        written.push((id, timestamp));
                    }
                }
                other => panic!("{:?}", other),
            },
            FetchEffect::Update(change) if done => match change.status {
                ActiveValue::Write(status) => marked = status,
                other => panic!("{:?}", other),
            },
            FetchEffect::Commit if done => {
                table = written.clone();
                status = marked;
            }
            FetchEffect::Return(result) => return (table, status, result),
            _ => {}
        }
        asked += 1;
    }
}

fn repeated() -> Vec<Operation> {
    [("a", 1), ("b", 2), ("a", 3), ("c", 4), ("b", 5)]
        .iter()
        .map(|(id, timestamp)| Operation { id: id.to_string(), timestamp: *timestamp })
        .collect()
}

#[test]
fn finished_fetch_stores_the_first_of_each_id() {
    // Effects: begin, five inserts, update, commit.
    let (table, status, result) = fetch_with(repeated(), &[("c", 9)], |_| true);
    assert_eq!(result, Ok(()));
    assert_eq!(status, 2);
    let expected = [("c", 9), ("a", 1), ("b", 2)];
    assert_eq!(table, expected.map(|(id, timestamp)| (id.to_string(), timestamp)).to_vec());

    // The first insert of "a" and both of "b" fail.
    let failing = [1, 2, 5];
    let (table, status, result) =
        fetch_with(repeated(), &[("c", 9)], |asked| !failing.contains(&asked));
    assert_eq!(result, Ok(()));
    assert_eq!(status, 2);
    let expected = [("c", 9), ("a", 3)];
    assert_eq!(table, expected.map(|(id, timestamp)| (id.to_string(), timestamp)).to_vec());
}

#[test]
fn failed_fetch_changes_nothing() {
    for (failing, error) in [
        (0, FetchError::Begin),
        (6, FetchError::Update),
        (7, FetchError::Commit),
    ] {
        let (table, status, result) =
            fetch_with(repeated(), &[("c", 9)], |asked| asked != failing);
        assert_eq!(result, Err(error));
        assert_eq!(status, 1);
        assert_eq!(table, vec![("c".to_string(), 9)]);
    }
}

#[test]
fn rescheduled_interval_is_pending_again() {
    let change = interval_row().reschedule(2000);
    assert_eq!(change.status, ActiveValue::Write(0));
    assert_eq!(change.next_retry, ActiveValue::Write(Some(2020)));
    assert_eq!(change.retry_count, ActiveValue::Write(3));
    assert_eq!(change.id, ActiveValue::Unchanged(7));
    assert_eq!(change.start, ActiveValue::Unchanged(1000));
    assert_eq!(change.end, ActiveValue::Unchanged(1010));
    assert_eq!(change.timestamp, ActiveValue::Unchanged(1000));
}

#[test]
fn restarted_indexer_goes_on_at_the_stored_watermark() {
    let change = watermark::move_to(None, 5000);
    let timestamp = match change.timestamp {
        ActiveValue::Write(timestamp) => timestamp,
        _ => panic!("the watermark is written"),
    };
    let stored = Some(watermark::Model { id: 1, timestamp });
    assert_eq!(Indexer::new(settings(), stored).watermark(), 5000);
}

#[test]
fn saved_intervals_are_consistent() {
    let stored = |batch: &Vec<interval::ActiveModel>| -> Vec<Model> {
        batch
            .iter()
            .map(|row| match row.start {
                ActiveValue::Write(start) => Model { start, ..interval_row() },
                _ => panic!("a planned row has a start"),
            })
            .collect()
    };
    let mut indexer = Indexer::new(settings(), None);
    let (batches, _, _) = drive_save(&mut indexer, 1025, usize::MAX, None);
    assert!(indexer.find_inconsistent_intervals(&stored(&batches[0])).is_empty());

    let mut indexer = Indexer::new(settings(), None);
    let (batches, _, _) = drive_save(&mut indexer, 1000 + 10 * 1500, 10, None);
    assert!(indexer.find_inconsistent_intervals(&stored(&batches[0])).is_empty());
    let mut indexer = Indexer::new(settings(), None);
    let (batches, _, _) = drive_save(&mut indexer, 1000 + 10 * 1500, 9, None);
    assert!(indexer.find_inconsistent_intervals(&stored(&batches[0])).is_empty());
    let unsaved = indexer.find_inconsistent_intervals(&stored(&batches[1]));
    assert_eq!(unsaved.len(), 499);
}
