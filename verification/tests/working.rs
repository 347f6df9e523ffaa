use blockscout_services::active_value::ActiveValue;
use blockscout_services::interval;
use blockscout_services::operation;
use blockscout_services::process::{ProcessEffect, ProcessOperation, ProcessReply};
use blockscout_services::reply::Reply;
use blockscout_services::request::{is_success, StageProfilingRequest};
use blockscout_services::run::{RunEffect, RunReply};
use blockscout_services::statement;
use blockscout_services::stream::StreamEffect;
use blockscout_services::{
    Indexer, IndexerJob, IndexerSettings, Job, OperationJob, OrderDirection,
};
use sea_orm::{DatabaseBackend, Statement, Value};

fn indexer() -> Indexer {
    let settings = IndexerSettings {
        start_timestamp: 1000,
        catchup_interval: 10,
    };
    Indexer::new(settings, None)
}

fn interval_row(id: i32, status: i16) -> interval::Model {
    interval::Model {
        id,
        start: 1000,
        end: 1010,
        timestamp: 1000,
        status,
        next_retry: None,
        retry_count: 1,
    }
}

fn operation_row(id: &str, status: i16) -> operation::Model {
    operation::Model {
        id: id.to_string(),
        operation_type: Some("TON_TAC".to_string()),
        timestamp: 1003,
        status,
        next_retry: None,
        retry_count: 4,
    }
}

fn parameters(statement: &Statement) -> Vec<Value> {
    match &statement.values {
        Some(values) => values.0.clone(),
        None => panic!("no parameters"),
    }
}

#[test]
fn pending_interval_statement_has_the_order() {
    let query = statement::pending_interval(OrderDirection::Descending);
    assert_eq!(
        query.sql,
        r#"
                    SELECT id, start, "end", timestamp, status, next_retry, retry_count
                    FROM interval
                    WHERE status = 0
                    AND (next_retry IS NULL OR next_retry <= EXTRACT(EPOCH FROM NOW()))
                    ORDER BY start DESC
                    LIMIT 1
                    FOR UPDATE SKIP LOCKED
                    "#
    );
    assert!(parameters(&query).is_empty());
    assert_eq!(query.db_backend, DatabaseBackend::Postgres);
    let query = statement::pending_interval(OrderDirection::Ascending);
    assert!(query.sql.contains("ORDER BY start ASC\n"));
    assert_eq!(query.sql, statement::pending_interval_text(OrderDirection::Ascending));
}

#[test]
fn claiming_an_interval_binds_its_id() {
    let query = statement::claim_interval(42);
    assert_eq!(
        query.sql,
        r#"
                    UPDATE interval
                    SET status = 1
                    WHERE id = $1
                    RETURNING id, start, "end", timestamp, status, next_retry, retry_count
                    "#
    );
    assert_eq!(parameters(&query), vec![Value::from(42i32)]);
    assert_eq!(query.db_backend, DatabaseBackend::Postgres);
}

#[test]
fn pending_operation_statement() {
    let query = statement::pending_operation();
    assert_eq!(
        query.sql,
        r#"
                    SELECT id, operation_type, timestamp, status, next_retry, retry_count
                    FROM operation
                    WHERE status = 0
                    AND (next_retry IS NULL OR next_retry <= EXTRACT(EPOCH FROM NOW()))
                    ORDER BY timestamp ASC
                    LIMIT 1
                    FOR UPDATE SKIP LOCKED
                    "#
    );
    assert!(parameters(&query).is_empty());
}

#[test]
fn claiming_an_operation_binds_its_id() {
    let query = statement::claim_operation("0xabc".to_string());
    assert_eq!(
        query.sql,
        r#"
                    UPDATE operation
                    SET status = 1
                    WHERE id = $1
                    RETURNING id, operation_type, timestamp, status, next_retry, retry_count
                    "#
    );
    assert_eq!(parameters(&query), vec![Value::from("0xabc".to_string())]);
    assert_eq!(query.db_backend, DatabaseBackend::Postgres);
}

#[test]
fn interval_stream_hands_out_what_it_claimed() {
    let stream = indexer().operations_stream(OrderDirection::Ascending);
    let (stream, effect) = stream.resume(Reply::Done);
    assert!(matches!(effect, StreamEffect::Begin));
    let (stream, effect) = stream.resume(Reply::Done);
    match effect {
        StreamEffect::Query(query) => {
            assert_eq!(query, statement::pending_interval(OrderDirection::Ascending))
        }
        other => panic!("{:?}", other),
    }
    let (stream, effect) = stream.resume(Reply::Row(Some(interval_row(9, 0))));
    match effect {
        StreamEffect::Query(query) => assert_eq!(query, statement::claim_interval(9)),
        other => panic!("{:?}", other),
    }
    let (stream, effect) = stream.resume(Reply::Row(Some(interval_row(9, 1))));
    assert!(matches!(effect, StreamEffect::Commit));
    let (stream, effect) = stream.resume(Reply::Done);
    match effect {
        StreamEffect::Yield(job) => {
            let claimed = Job { interval: interval_row(9, 1) };
            assert_eq!(job, IndexerJob::Interval(claimed));
            assert_eq!(job.clone(), job);
        }
        other => panic!("{:?}", other),
    }
    let (stream, effect) = stream.resume(Reply::Done);
    assert!(matches!(effect, StreamEffect::Sleep(100)));
    let (stream, effect) = stream.resume(Reply::Done);
    assert!(matches!(effect, StreamEffect::Begin));
    assert_eq!(stream.direction, OrderDirection::Ascending);
}

#[test]
fn interval_stream_waits_where_it_finds_nothing() {
    let stream = indexer().operations_stream(OrderDirection::Descending);
    let (stream, _) = stream.resume(Reply::Done);
    let (stream, _) = stream.resume(Reply::Done);
    let (stream, effect) = stream.resume(Reply::Row(None));
    assert!(matches!(effect, StreamEffect::Commit));
    let (stream, effect) = stream.resume(Reply::Failed);
    assert!(matches!(effect, StreamEffect::Sleep(500)));
    let (_, effect) = stream.resume(Reply::Done);
    assert!(matches!(effect, StreamEffect::Begin));
}

#[test]
fn interval_stream_waits_where_it_fails() {
    let begun = || {
        let stream = indexer().operations_stream(OrderDirection::Descending);
        stream.resume(Reply::Done).0
    };
    let (_, effect) = begun().resume(Reply::Failed);
    assert!(matches!(effect, StreamEffect::Sleep(500)));

    let (stream, _) = begun().resume(Reply::Done);
    let (stream, effect) = stream.resume(Reply::Failed);
    assert!(matches!(effect, StreamEffect::Rollback));
    let (_, effect) = stream.resume(Reply::Done);
    assert!(matches!(effect, StreamEffect::Sleep(500)));

    for reply in [Reply::Failed, Reply::Row(None)] {
        let (stream, _) = begun().resume(Reply::Done);
        let (stream, _) = stream.resume(Reply::Row(Some(interval_row(1, 0))));
        let (stream, effect) = stream.resume(reply);
        assert!(matches!(effect, StreamEffect::Rollback));
        let (_, effect) = stream.resume(Reply::Done);
        assert!(matches!(effect, StreamEffect::Sleep(500)));
    }
}

#[test]
fn interval_stream_begins_anew_where_a_claim_is_lost() {
    let stream = indexer().operations_stream(OrderDirection::Descending);
    let (stream, _) = stream.resume(Reply::Done);
    let (stream, _) = stream.resume(Reply::Done);
    let (stream, _) = stream.resume(Reply::Row(Some(interval_row(1, 0))));
    let (stream, _) = stream.resume(Reply::Row(Some(interval_row(1, 1))));
    let (_, effect) = stream.resume(Reply::Failed);
    assert!(matches!(effect, StreamEffect::Begin));
}

#[test]
fn operation_stream_goes_on_without_a_rest() {
    let stream = indexer().operation_stages_stream();
    let (stream, effect) = stream.resume(Reply::Done);
    assert!(matches!(effect, StreamEffect::Begin));
    let (stream, effect) = stream.resume(Reply::Done);
    match effect {
        StreamEffect::Query(query) => assert_eq!(query, statement::pending_operation()),
        other => panic!("{:?}", other),
    }
    let (stream, effect) = stream.resume(Reply::Row(Some(operation_row("x", 0))));
    match effect {
        StreamEffect::Query(query) => {
            assert_eq!(query, statement::claim_operation("x".to_string()))
        }
        other => panic!("{:?}", other),
    }
    let (stream, effect) = stream.resume(Reply::Row(Some(operation_row("x", 1))));
    assert!(matches!(effect, StreamEffect::Commit));
    let (stream, effect) = stream.resume(Reply::Done);
    match effect {
        StreamEffect::Yield(IndexerJob::Operation(job)) => {
            assert_eq!(job.operation, operation_row("x", 1))
        }
        other => panic!("{:?}", other),
    }
    let (_, effect) = stream.resume(Reply::Done);
    assert!(matches!(effect, StreamEffect::Begin));
}

#[test]
fn new_intervals_come_before_old_ones() {
    let (operations, high, low) = indexer().job_streams();
    let (_, effect) = operations.resume(Reply::Done);
    assert!(matches!(effect, StreamEffect::Begin));
    assert_eq!(high.direction, OrderDirection::Descending);
    assert_eq!(low.direction, OrderDirection::Ascending);
}

#[test]
fn request_names_the_operation() {
    let request = StageProfilingRequest::for_operation("0x\"1\"\n");
    assert_eq!(request.url, "https://data.turin.tac.build/stage-profiling");
    assert_eq!(request.accept, "application/json");
    assert_eq!(request.content_type, "application/json");
    assert_eq!(request.body, r#"{"operationIds":["0x\"1\"\n"]}"#);
    let parsed: serde_json::Value = serde_json::from_str(&request.body).unwrap();
    assert_eq!(parsed["operationIds"][0], "0x\"1\"\n");
}

#[test]
fn request_takes_any_body() {
    let request = StageProfilingRequest::with_body("{}".to_string());
    assert_eq!(request.body, "{}");
    assert_eq!(request.url, "https://data.turin.tac.build/stage-profiling");
}

#[test]
fn success_is_in_the_two_hundreds() {
    assert!(!is_success(199));
    assert!(is_success(200));
    assert!(is_success(299));
    assert!(!is_success(300));
    assert!(!is_success(500));
}

fn processing() -> ProcessOperation {
    let job = OperationJob { operation: operation_row("op", 1) };
    let run = indexer().process_operation_with_retries(&job);
    let (run, effect) = run.resume(ProcessReply::Done);
    match effect {
        ProcessEffect::Send(request) => assert_eq!(request.body, r#"{"operationIds":["op"]}"#),
        other => panic!("{:?}", other),
    }
    run
}

#[test]
fn processed_operation_is_finished() {
    let (run, effect) = processing().resume(ProcessReply::Response(200));
    assert!(matches!(effect, ProcessEffect::Begin));
    let (run, effect) = run.resume(ProcessReply::Done);
    match effect {
        ProcessEffect::UpdateInTransaction(change) => {
            assert_eq!(change.id, ActiveValue::Unchanged("op".to_string()));
            assert_eq!(change.status, ActiveValue::Write(2));
            assert_eq!(change.retry_count, ActiveValue::Unchanged(4));
            assert_eq!(
                change.operation_type,
                ActiveValue::Unchanged(Some("TON_TAC".to_string()))
            );
        }
        other => panic!("{:?}", other),
    }
    let (run, effect) = run.resume(ProcessReply::Done);
    assert!(matches!(effect, ProcessEffect::Commit));
    let (run, effect) = run.resume(ProcessReply::Failed);
    assert!(matches!(effect, ProcessEffect::Return));
    let (_, effect) = run.resume(ProcessReply::Done);
    assert!(matches!(effect, ProcessEffect::Nothing));
}

#[test]
fn refused_operation_is_tried_again_later() {
    for reply in [ProcessReply::Response(500), ProcessReply::Failed] {
        let (run, effect) = processing().resume(reply);
        assert!(matches!(effect, ProcessEffect::ReadClock));
        let (run, effect) = run.resume(ProcessReply::Failed);
        assert!(matches!(effect, ProcessEffect::ReadClock));
        let (run, effect) = run.resume(ProcessReply::Time(2000));
        match effect {
            ProcessEffect::Update(change) => {
                assert_eq!(change.status, ActiveValue::Write(0));
                assert_eq!(change.next_retry, ActiveValue::Write(Some(2080)));
                assert_eq!(change.retry_count, ActiveValue::Write(5));
                assert_eq!(change.id, ActiveValue::Unchanged("op".to_string()));
                assert_eq!(change.timestamp, ActiveValue::Unchanged(1003));
            }
            other => panic!("{:?}", other),
        }
        let (_, effect) = run.resume(ProcessReply::Failed);
        assert!(matches!(effect, ProcessEffect::Return));
    }
}

#[test]
fn failed_update_is_rolled_back() {
    let (run, _) = processing().resume(ProcessReply::Response(204));
    let (run, _) = run.resume(ProcessReply::Done);
    let (run, effect) = run.resume(ProcessReply::Failed);
    assert!(matches!(effect, ProcessEffect::Rollback));
    let (_, effect) = run.resume(ProcessReply::Failed);
    assert!(matches!(effect, ProcessEffect::Return));
}

#[test]
fn processing_stops_without_a_transaction() {
    let (run, _) = processing().resume(ProcessReply::Response(200));
    let (_, effect) = run.resume(ProcessReply::Failed);
    assert!(matches!(effect, ProcessEffect::Return));
}

#[test]
fn loop_saves_intervals_first() {
    let run = indexer().start();
    let (run, effect) = run.resume(RunReply::Done);
    assert!(matches!(effect, RunEffect::ReadDate));
    let (run, effect) = run.resume(RunReply::Date(1_700_000_000));
    assert!(matches!(effect, RunEffect::SaveIntervals(1_700_000_000)));
    let (_, effect) = run.resume(RunReply::Failed);
    assert!(matches!(effect, RunEffect::Return(Err(()))));
    let (run, effect) = run.resume(RunReply::Done);
    assert!(matches!(effect, RunEffect::NextJob));
    let (run, effect) = run.resume(RunReply::Job(None));
    assert!(matches!(effect, RunEffect::Return(Ok(()))));
    let (_, effect) = run.resume(RunReply::Done);
    assert!(matches!(effect, RunEffect::Nothing));
}

#[test]
fn loop_dispatches_jobs() {
    let run = indexer().start();
    let (run, _) = run.resume(RunReply::Done);
    let (run, _) = run.resume(RunReply::Date(5));
    let (run, _) = run.resume(RunReply::Done);

    let job = OperationJob { operation: operation_row("z", 1) };
    let (working, effect) = run.resume(RunReply::Job(Some(IndexerJob::Operation(job.clone()))));
    match effect {
        RunEffect::ProcessOperation(given) => assert_eq!(given, job),
        other => panic!("{:?}", other),
    }
    let (_, effect) = working.resume(RunReply::Done);
    assert!(matches!(effect, RunEffect::NextJob));

    let job = Job { interval: interval_row(3, 1) };
    let (working, effect) = run.resume(RunReply::Job(Some(IndexerJob::Interval(job))));
    match effect {
        RunEffect::FetchOperations(given) => assert_eq!(given, job),
        other => panic!("{:?}", other),
    }
    let (_, effect) = working.resume(RunReply::Done);
    assert!(matches!(effect, RunEffect::NextJob));
    let (working, effect) = working.resume(RunReply::Failed);
    assert!(matches!(effect, RunEffect::ReadClock));
    let (working, effect) = working.resume(RunReply::Time(3000));
    match effect {
        RunEffect::Update(change) => {
            assert_eq!(change.status, ActiveValue::Write(0));
            assert_eq!(change.next_retry, ActiveValue::Write(Some(3010)));
            assert_eq!(change.retry_count, ActiveValue::Write(2));
            assert_eq!(change.id, ActiveValue::Unchanged(3));
        }
        other => panic!("{:?}", other),
    }
    let (_, effect) = working.resume(RunReply::Failed);
    assert!(matches!(effect, RunEffect::NextJob));
}

#[test]
fn stream_keeps_one_transaction_at_a_time() {
    let mut stream = indexer().operations_stream(OrderDirection::Descending);
    let mut open = false;
    let mut seed: u64 = 12345;
    let mut reply = Reply::Done;
    let mut yielded = 0;
    for _ in 0..5000 {
        let (next, effect) = stream.resume(reply);
        stream = next;
        seed = seed.wrapping_mul(6364136223846793005).wrapping_add(1442695040888963407);
        let good = (seed >> 33) % 4 != 0;
        let found = (seed >> 40) % 4 != 0;
        match effect {
            StreamEffect::Begin => {
                assert!(!open);
                open = good;
            }
            StreamEffect::Query(_) => assert!(open),
            StreamEffect::Commit | StreamEffect::Rollback => {
                assert!(open);
                open = false;
            }
            StreamEffect::Sleep(_) => assert!(!open),
            StreamEffect::Yield(_) => {
                assert!(!open);
                yielded += 1;
            }
        }
        let queried = matches!(effect, StreamEffect::Query(_));
        reply = if !good {
            Reply::Failed
        } else if !queried {
            Reply::Done
        } else if found {
            Reply::Row(Some(interval_row(1, 1)))
        } else {
            Reply::Row(None)
        };
    }
    assert!(yielded > 0);
}
