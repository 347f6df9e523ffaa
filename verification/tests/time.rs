use blockscout_services::active_value::ActiveValue;
use blockscout_services::casts::{to_signed, to_unsigned};
use blockscout_services::interval::ActiveModel;
use blockscout_services::plan::{can_plan, plan};
use blockscout_services::retry::{can_retry, next_retry};

fn span(row: &ActiveModel) -> (i64, i64) {
    match (row.start, row.end) {
        (ActiveValue::Write(start), ActiveValue::Write(end)) => (start, end),
        _ => panic!("a planned row has a start and an end"),
    }
}

#[test]
fn instants_survive_a_signed_column() {
    assert_eq!(to_signed(0), 0);
    assert_eq!(to_signed(1_700_000_000), 1_700_000_000);
    assert_eq!(to_signed(i64::MAX as u64), i64::MAX);
    assert_eq!(to_signed(i64::MAX as u64 + 1), i64::MIN);
    assert_eq!(to_signed(u64::MAX), -1);
    assert_eq!(to_unsigned(-1), u64::MAX);
    for x in [0, 1, 5, i64::MAX as u64, i64::MAX as u64 + 1, u64::MAX] {
        assert_eq!(to_unsigned(to_signed(x)), x);
    }
    for x in [i64::MIN, -1, 0, 1, i64::MAX] {
        assert_eq!(to_signed(to_unsigned(x)), x);
    }
}

#[test]
fn plan_cuts_the_last_interval_short() {
    let rows = plan(100, 125, 10);
    let spans: Vec<(i64, i64)> = rows.iter().map(span).collect();
    assert_eq!(spans, vec![(100, 110), (110, 120), (120, 125)]);
}

#[test]
fn plan_of_whole_widths() {
    let rows = plan(100, 130, 10);
    let spans: Vec<(i64, i64)> = rows.iter().map(span).collect();
    assert_eq!(spans, vec![(100, 110), (110, 120), (120, 130)]);
}

#[test]
fn plan_of_one_short_interval() {
    let rows = plan(100, 101, 3600);
    assert_eq!(rows.len(), 1);
    assert_eq!(span(&rows[0]), (100, 101));
}

#[test]
fn plan_of_no_time_is_empty() {
    assert!(plan(100, 100, 10).is_empty());
    assert!(plan(101, 100, 10).is_empty());
}

#[test]
fn planned_rows_are_new_and_pending() {
    let row = plan(100, 105, 10)[0];
    assert_eq!(row.id, ActiveValue::NotSet);
    assert_eq!(row.timestamp, ActiveValue::Write(100));
    assert_eq!(row.status, ActiveValue::Write(0));
    assert_eq!(row.next_retry, ActiveValue::Write(None));
    assert_eq!(row.retry_count, ActiveValue::Write(0));
}

#[test]
fn planned_intervals_tile_the_time() {
    let rows = plan(7, 1009, 13);
    assert_eq!(span(&rows[0]).0, 7);
    for pair in rows.windows(2) {
        assert_eq!(span(&pair[0]).1, span(&pair[1]).0);
    }
    assert_eq!(span(&rows[rows.len() - 1]).1, 1009);
    for t in 7..1009 {
        let n = rows
            .iter()
            .filter(|row| span(row).0 <= t && t < span(row).1)
            .count();
        assert_eq!(n, 1);
    }
}

#[test]
fn plan_can_be_taken_up_anywhere() {
    let rows = plan(7, 1009, 13);
    for k in 1..=rows.len() {
        let end = span(&rows[k - 1]).1 as u64;
        assert_eq!(end, rows[k - 1].written_end());
        assert_eq!(rows[k..].to_vec(), plan(end, 1009, 13));
    }
    assert_eq!(ActiveModel { end: ActiveValue::NotSet, ..rows[0] }.written_end(), 0);
}

#[test]
fn plan_needs_a_width_and_room() {
    assert!(!can_plan(0, 10, 0));
    assert!(can_plan(0, 10, 1));
    assert!(can_plan(10, 0, u64::MAX));
    assert!(!can_plan(1, 2, u64::MAX));
    assert!(can_plan(0, 2, u64::MAX));
    assert!(can_plan(u64::MAX - 10, u64::MAX, 10));
    assert!(can_plan(u64::MAX - 10, u64::MAX, 5));
    assert!(!can_plan(u64::MAX - 10, u64::MAX, 3));
    assert_eq!(plan(u64::MAX - 10, u64::MAX, 5).len(), 2);
}

#[test]
fn delays_double() {
    assert_eq!(next_retry(1000, 0), 1005);
    assert_eq!(next_retry(1000, 1), 1010);
    assert_eq!(next_retry(1000, 2), 1020);
    assert_eq!(next_retry(1000, 10), 6120);
    for r in 0..59 {
        assert_eq!(next_retry(0, r + 1), 2 * next_retry(0, r));
    }
    assert_eq!(next_retry(0, 60), 5_764_607_523_034_234_880);
}

#[test]
fn retries_stop_where_they_overflow() {
    assert!(can_retry(1_700_000_000, 0));
    assert!(can_retry(1_700_000_000, 60));
    assert!(!can_retry(0, 61));
    assert!(!can_retry(0, i16::MAX));
    assert!(!can_retry(0, -1));
    assert!(can_retry(i64::MAX as u64 - 5, 0));
    assert!(!can_retry(i64::MAX as u64 - 4, 0));
    assert!(can_retry(u64::MAX, 0));
    assert_eq!(next_retry(u64::MAX, 0), 4);
}
