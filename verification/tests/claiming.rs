use blockscout_services::interval::Model;
use blockscout_services::operation;
use blockscout_services::reply::Reply;
use blockscout_services::statement;
use blockscout_services::stream::{IntervalStream, OperationStream, StreamEffect};
use blockscout_services::{Indexer, IndexerJob, IndexerSettings, OrderDirection};
use sea_orm::{Statement, Value};

fn indexer() -> Indexer {
    let settings = IndexerSettings {
        start_timestamp: 1000,
        catchup_interval: 10,
    };
    Indexer::new(settings, None)
}

fn row(id: i32, start: i64, status: i16, next_retry: Option<i64>) -> Model {
    Model {
        id,
        start,
        end: start + 10,
        timestamp: start,
        status,
        next_retry,
        retry_count: 0,
    }
}

fn first_parameter(query: &Statement) -> Value {
    query.values.as_ref().expect("the statement has parameters").0[0].clone()
}

/// A table of intervals, a clock, and the row that each of the streams has locked and marked.
struct Table {
    rows: Vec<Model>,
    now: i64,
    locks: Vec<Option<i32>>,
    marks: Vec<Option<Model>>,
}

impl Table {
    fn new(rows: Vec<Model>, streams: usize) -> Table {
        Table {
            rows,
            now: 5000,
            locks: vec![None; streams],
            marks: vec![None; streams],
        }
    }

    fn find(&self, direction: OrderDirection) -> Option<Model> {
        let mut found: Vec<Model> = self
            .rows
            .iter()
            .filter(|row| row.status == 0)
            .filter(|row| row.next_retry.map_or(true, |at| at <= self.now))
            .filter(|row| !self.locks.contains(&Some(row.id)))
            .copied()
            .collect();
        found.sort_by_key(|row| row.start);
        match direction {
            OrderDirection::Ascending => found.first().copied(),
            OrderDirection::Descending => found.last().copied(),
        }
    }

    /// Answers an effect of stream `i`; a job that it hands out goes to `out`.
    fn answer(&mut self, i: usize, effect: StreamEffect, out: &mut Vec<Model>) -> Reply<Model> {
        match effect {
            StreamEffect::Query(query) => {
                for direction in [OrderDirection::Ascending, OrderDirection::Descending] {
                    if query == statement::pending_interval(direction) {
                        let found = self.find(direction);
                        self.locks[i] = found.map(|row| row.id);
                        return Reply::Row(found);
                    }
                }
                let id = self.locks[i].expect("a claimed row is locked");
                assert_eq!(query, statement::claim_interval(id));
                assert_eq!(first_parameter(&query), Value::from(id));
                let found = self.rows.iter().find(|row| row.id == id);
                let marked = Model { status: 1, ..*found.expect("a locked row stays") };
                self.marks[i] = Some(marked);
                Reply::Row(Some(marked))
            }
            StreamEffect::Commit => {
                if let Some(marked) = self.marks[i].take() {
                    for row in self.rows.iter_mut().filter(|row| row.id == marked.id) {
                        *row = marked;
                    }
                }
                self.locks[i] = None;
                Reply::Done
            }
            StreamEffect::Rollback => {
                self.marks[i] = None;
                self.locks[i] = None;
                Reply::Done
            }
            StreamEffect::Yield(IndexerJob::Interval(job)) => {
                out.push(job.interval);
                Reply::Done
            }
            StreamEffect::Yield(other) => panic!("{:?}", other),
            StreamEffect::Begin | StreamEffect::Sleep(_) => Reply::Done,
        }
    }
}

/// Resumes one stream `steps` times.
fn run_alone(table: &mut Table, direction: OrderDirection, steps: usize) -> Vec<Model> {
    let mut stream: IntervalStream = indexer().operations_stream(direction);
    let mut out = Vec::new();
    let mut reply = Reply::Done;
    for _ in 0..steps {
        let (next, effect) = stream.resume(reply);
        stream = next;
        reply = table.answer(0, effect, &mut out);
    }
    out
}

#[test]
fn lone_stream_hands_every_pending_interval_out_in_order() {
    let rows = vec![
        row(1, 1030, 0, None),
        row(2, 1000, 0, None),
        row(3, 1010, 2, None),
        row(4, 1020, 0, Some(5000)),
        row(5, 1040, 1, None),
    ];
    for (direction, ids) in [
        (OrderDirection::Ascending, vec![2, 4, 1]),
        (OrderDirection::Descending, vec![1, 4, 2]),
    ] {
        let mut table = Table::new(rows.clone(), 1);
        let out = run_alone(&mut table, direction, 6 * 3);
        let given: Vec<i32> = out.iter().map(|row| row.id).collect();
        assert_eq!(given, ids);
        assert!(out.iter().all(|row| row.status == 1));
        assert!(table.rows.iter().all(|row| row.status != 0));
        assert_eq!(table.rows[2], rows[2]);
        assert_eq!(table.rows[4], rows[4]);
        assert!(run_alone(&mut table, direction, 50).is_empty());
    }
}

#[test]
fn interval_is_left_alone_until_its_retry() {
    let rows = vec![row(1, 1000, 0, Some(5001)), row(2, 1010, 0, None)];
    let mut table = Table::new(rows, 1);
    let out = run_alone(&mut table, OrderDirection::Ascending, 50);
    let given: Vec<i32> = out.iter().map(|row| row.id).collect();
    assert_eq!(given, vec![2]);
    table.now = 5001;
    let out = run_alone(&mut table, OrderDirection::Ascending, 50);
    assert_eq!(out, vec![row(1, 1000, 1, Some(5001))]);
}

#[test]
fn streams_take_the_first_free_row_of_their_own_order() {
    let rows = vec![
        row(1, 1000, 0, Some(9999)),
        row(2, 1010, 0, None),
        row(3, 1020, 0, None),
        row(4, 1030, 0, None),
        row(5, 1040, 2, None),
    ];
    let mut table = Table::new(rows, 3);
    let mut streams: Vec<IntervalStream> = vec![
        indexer().operations_stream(OrderDirection::Ascending),
        indexer().operations_stream(OrderDirection::Descending),
        indexer().operations_stream(OrderDirection::Ascending),
    ];
    let mut replies: Vec<Reply<Model>> = vec![Reply::Done, Reply::Done, Reply::Done];
    let mut out = Vec::new();
    // One after the other begin, find and claim; then each commits and hands out.
    for i in [0, 0, 0, 1, 1, 1, 2, 2, 2, 0, 0, 0, 1, 1, 1, 2, 2, 2] {
        let stream = streams.remove(i);
        let (next, effect) = stream.resume(replies.remove(i));
        streams.insert(i, next);
        let reply = table.answer(i, effect, &mut out);
        replies.insert(i, reply);
    }
    let given: Vec<i32> = out.iter().map(|row| row.id).collect();
    assert_eq!(given, vec![2, 4, 3]);
}

#[test]
fn no_interval_is_claimed_twice() {
    let mut seed: u64 = 99;
    let mut random = |n: u64| {
        seed = seed.wrapping_mul(6364136223846793005).wrapping_add(1442695040888963407);
        (seed >> 33) % n
    };
    for _ in 0..20 {
        let rows: Vec<Model> = (0..40).map(|id| row(id, 1000 + 10 * i64::from(id), 0, None)).collect();
        let mut table = Table::new(rows, 4);
        let mut streams: Vec<IntervalStream> = vec![
            indexer().operations_stream(OrderDirection::Descending),
            indexer().operations_stream(OrderDirection::Ascending),
            indexer().operations_stream(OrderDirection::Ascending),
            indexer().operations_stream(OrderDirection::Descending),
        ];
        let mut replies: Vec<Reply<Model>> =
            vec![Reply::Done, Reply::Done, Reply::Done, Reply::Done];
        let mut out = Vec::new();
        for _ in 0..600 {
            let i = random(4) as usize;
            let stream = streams.remove(i);
            let (next, effect) = stream.resume(replies.remove(i));
            streams.insert(i, next);
            // A query or a rollback may fail.
            let failing = matches!(effect, StreamEffect::Query(_) | StreamEffect::Rollback)
                && random(5) == 0;
            if failing && matches!(effect, StreamEffect::Rollback) {
                table.answer(i, StreamEffect::Rollback, &mut out);
            }
            let reply = if failing {
                Reply::Failed
            } else {
                table.answer(i, effect, &mut out)
            };
            replies.insert(i, reply);
        }
        let mut given: Vec<i32> = out.iter().map(|row| row.id).collect();
        assert!(given.len() > 20);
        let claimed = given.len();
        given.sort();
        given.dedup();
        assert_eq!(given.len(), claimed);
    }
}

#[test]
fn oldest_operation_is_claimed_with_all_its_columns() {
    let stored = operation::Model {
        id: "0x1".to_string(),
        operation_type: Some("TON_TAC".to_string()),
        timestamp: 1003,
        status: 0,
        next_retry: Some(4999),
        retry_count: 3,
    };
    let marked = operation::Model { status: 1, ..stored.clone() };
    let mut stream: OperationStream = indexer().operation_stages_stream();
    let mut reply = Reply::Done;
    let mut out = Vec::new();
    for _ in 0..5 {
        let (next, effect) = stream.resume(reply);
        stream = next;
        reply = match effect {
            StreamEffect::Query(query) if query == statement::pending_operation() => {
                Reply::Row(Some(stored.clone()))
            }
            StreamEffect::Query(query) => {
                assert_eq!(query, statement::claim_operation("0x1".to_string()));
                Reply::Row(Some(marked.clone()))
            }
            StreamEffect::Yield(job) => {
                out.push(job);
                Reply::Done
            }
            _ => Reply::Done,
        };
    }
    match &out[..] {
        [IndexerJob::Operation(job)] => assert_eq!(job.operation, marked),
        other => panic!("{:?}", other),
    }
}
