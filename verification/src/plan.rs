//! How the time between the watermark and now is cut into intervals.
use vstd::arithmetic::div_mod::lemma_fundamental_div_mod;
use vstd::prelude::*;

use crate::active_value::ActiveValue;
use crate::casts;
use crate::interval;
use crate::status;

verus! {

/// The least of two instants.
pub open spec fn earlier(a: int, b: int) -> int {
    if a <= b {
        a
    } else {
        b
    }
}

/// How many intervals of `width` seconds it takes to reach from `from` to `to`.
pub open spec fn interval_count(from: int, to: int, width: int) -> int {
    if from < to {
        (to - from + width - 1) / width
    } else {
        0
    }
}

/// Where interval number `k` starts.
pub open spec fn interval_start(from: int, width: int, k: int) -> int {
    from + k * width
}

/// Where interval number `k` ends: a full width later, but never beyond `to`.
pub open spec fn interval_end(from: int, to: int, width: int, k: int) -> int {
    earlier(interval_start(from, width, k) + width, to)
}

/// The new rows that cover the time from `from` to `to`.
pub open spec fn planned(from: u64, to: u64, width: u64) -> Seq<interval::ActiveModel> {
    Seq::new(
        interval_count(from as int, to as int, width as int) as nat,
        |k: int|
            interval::ActiveModel::pending(
                interval_start(from as int, width as int, k) as u64,
                interval_end(from as int, to as int, width as int, k) as u64,
            ),
    )
}

/// Whether the time from `from` to `to` can be cut: the width is not zero, and a full width after
/// the last start is still an instant.
pub open spec fn fits(from: u64, to: u64, width: u64) -> bool {
    &&& width > 0
    &&& interval_start(
        from as int,
        width as int,
        interval_count(from as int, to as int, width as int),
    ) <= u64::MAX
}

/// Interval number `k` exists exactly if its start lies before `to`.
proof fn lemma_count(from: int, to: int, width: int, k: int)
    requires
        width > 0,
        k >= 0,
    ensures
        k < interval_count(from, to, width) <==> interval_start(from, width, k) < to,
{
    if from < to {
        let n = to - from + width - 1;
        let q = n / width;
        let r = n % width;
        lemma_fundamental_div_mod(n, width);
        assert(0 <= r < width) by (nonlinear_arith)
            requires
                width > 0,
                r == n % width,
        ;
        if k < q {
            assert(k * width <= (q - 1) * width) by (nonlinear_arith)
                requires
                    k <= q - 1,
                    width > 0,
            ;
            assert((q - 1) * width == width * q - width) by (nonlinear_arith);
        } else {
            assert(k * width >= q * width) by (nonlinear_arith)
                requires
                    k >= q,
                    width > 0,
            ;
            assert(q * width == width * q) by (nonlinear_arith);
        }
    } else {
        assert(k * width >= 0) by (nonlinear_arith)
            requires
                k >= 0,
                width > 0,
        ;
    }
}

proof fn lemma_start_step(from: int, width: int, k: int)
    ensures
        interval_start(from, width, 0) == from,
        interval_start(from, width, k + 1) == interval_start(from, width, k) + width,
{
    assert((k + 1) * width == k * width + width) by (nonlinear_arith);
}

proof fn lemma_start_monotone(from: int, width: int, a: int, b: int)
    requires
        width > 0,
        a <= b,
    ensures
        interval_start(from, width, a) <= interval_start(from, width, b),
{
    assert(a * width <= b * width) by (nonlinear_arith)
        requires
            width > 0,
            a <= b,
    ;
}

/// The last interval is the one in which the second before `to` lies.
proof fn lemma_last_start(from: int, to: int, width: int)
    requires
        width > 0,
        from < to,
    ensures
        ({
            let full = (to - from - 1) / width;
            &&& 0 <= full * width <= to - from - 1
            &&& interval_count(from, to, width) == full + 1
            &&& interval_start(from, width, full + 1) == from + full * width + width
        }),
{
    let full = (to - from - 1) / width;
    let rest = (to - from - 1) % width;
    lemma_fundamental_div_mod(to - from - 1, width);
    assert(0 <= rest < width && full >= 0) by (nonlinear_arith)
        requires
            width > 0,
            to - from - 1 >= 0,
            rest == (to - from - 1) % width,
            full == (to - from - 1) / width,
    ;
    assert(width * full == full * width) by (nonlinear_arith);
    assert(full * width >= 0) by (nonlinear_arith)
        requires
            full >= 0,
            width > 0,
    ;
    lemma_start_step(from, width, full);
    lemma_count(from, to, width, full);
    lemma_count(from, to, width, full + 1);
}

/// Tells whether the time from `from` to `to` can be cut.
pub fn can_plan(from: u64, to: u64, width: u64) -> (r: bool)
    ensures
        r == fits(from, to, width),
{
    if width == 0 {
        return false;
    }
    if from >= to {
        return true;
    }
    let span: u64 = to - from;
    let full: u64 = (span - 1) / width;
    proof {
        lemma_last_start(from as int, to as int, width as int);
    }
    let last: u64 = from + full * width;
    last <= u64::MAX - width
}

/// Cuts the time from `from` to `to` into pending intervals of `width` seconds; the last one ends
/// at `to`.
pub fn plan(from: u64, to: u64, width: u64) -> (rows: Vec<interval::ActiveModel>)
    requires
        fits(from, to, width),
    ensures
        rows@ == planned(from, to, width),
{
    let mut rows: Vec<interval::ActiveModel> = Vec::new();
    let mut at: u64 = from;
    let ghost count = interval_count(from as int, to as int, width as int);
    proof {
        lemma_start_step(from as int, width as int, 0);
        lemma_count(from as int, to as int, width as int, 0);
    }
    while at < to
        invariant
            fits(from, to, width),
            count == interval_count(from as int, to as int, width as int),
            at == interval_start(from as int, width as int, rows@.len() as int),
            rows@.len() <= count,
            rows@ == planned(from, to, width).take(rows@.len() as int),
        decreases count - rows@.len(),
    {
        let ghost k = rows@.len() as int;
        proof {
            lemma_start_step(from as int, width as int, k);
            lemma_count(from as int, to as int, width as int, k);
            lemma_start_monotone(from as int, width as int, k + 1, count);
        }
        let next: u64 = at + width;
        let end: u64 = if next <= to { next } else { to };
        rows.push(interval::ActiveModel::new_pending(at, end));
        at = next;
        assert(rows@ =~= planned(from, to, width).take(k + 1));
    }
    proof {
        lemma_count(from as int, to as int, width as int, rows@.len() as int);
    }
    assert(rows@ =~= planned(from, to, width));
    rows
}

/// The intervals tile the time from `from` to `to`: the first starts at `from`, each further one
/// starts where the one before it ends, and the last ends at `to`. None is empty, none is wider
/// than `width`, and all but the last are exactly that wide.
pub proof fn law_intervals_tile_the_time(from: u64, to: u64, width: u64, k: int)
    requires
        width > 0,
        0 <= k < interval_count(from as int, to as int, width as int),
    ensures
        ({
            let count = interval_count(from as int, to as int, width as int);
            let start = interval_start(from as int, width as int, k);
            let end = interval_end(from as int, to as int, width as int, k);
            &&& k == 0 ==> start == from
            &&& k + 1 < count ==> end == interval_start(from as int, width as int, k + 1)
            &&& k + 1 < count ==> end == start + width
            &&& k + 1 == count ==> end == to
            &&& from <= start < end <= to
            &&& end <= start + width
        }),
{
    lemma_start_step(from as int, width as int, k);
    lemma_count(from as int, to as int, width as int, k);
    lemma_count(from as int, to as int, width as int, k + 1);
    lemma_start_monotone(from as int, width as int, 0, k);
}

/// Every instant from `from` up to, but not including, `to` lies in exactly one interval.
pub proof fn law_every_instant_is_covered_once(from: u64, to: u64, width: u64, t: u64)
    requires
        width > 0,
        from <= t < to,
    ensures
        exists|k: int|
            0 <= k < interval_count(from as int, to as int, width as int) && #[trigger]
            interval_start(from as int, width as int, k) <= t < interval_end(
                from as int,
                to as int,
                width as int,
                k,
            ),
        forall|j: int, k: int|
            0 <= j < interval_count(from as int, to as int, width as int) && 0 <= k
                < interval_count(from as int, to as int, width as int) && #[trigger] interval_start(
                from as int,
                width as int,
                j,
            ) <= t < interval_end(from as int, to as int, width as int, j)
                && #[trigger] interval_start(from as int, width as int, k) <= t < interval_end(
                from as int,
                to as int,
                width as int,
                k,
            ) ==> j == k,
{
    let f = from as int;
    let w = width as int;
    lemma_last_start(f, t + 1, w);
    let k = (t - f) / w;
    lemma_fundamental_div_mod(t - f, w);
    assert(w * k == k * w) by (nonlinear_arith);
    assert((t - f) % w < w) by (nonlinear_arith)
        requires
            w > 0,
    ;
    assert(k >= 0) by (nonlinear_arith)
        requires
            w > 0,
            t - f >= 0,
            k == (t - f) / w,
    ;
    lemma_count(f, to as int, w, k);
    assert(interval_start(f, w, k) <= t < interval_end(f, to as int, w, k));
    assert forall|i: int, j: int|
        0 <= i < interval_count(f, to as int, w) && 0 <= j < interval_count(f, to as int, w)
            && #[trigger] interval_start(f, w, i) <= t < interval_end(f, to as int, w, i)
            && #[trigger] interval_start(f, w, j) <= t < interval_end(
            f,
            to as int,
            w,
            j,
        ) implies i == j by {
        lemma_start_step(f, w, i);
        lemma_start_step(f, w, j);
        if i < j {
            lemma_start_monotone(f, w, i + 1, j);
        } else if j < i {
            lemma_start_monotone(f, w, j + 1, i);
        }
    }
}

/// What is planned ends with the present: no row reaches beyond `to`, and with `to` in the signed
/// range the stored columns are the instants themselves.
pub proof fn law_no_row_lies_in_the_future(from: u64, to: u64, width: u64, k: int)
    requires
        fits(from, to, width),
        to <= i64::MAX,
        0 <= k < planned(from, to, width).len(),
    ensures
        ({
            let row = planned(from, to, width)[k];
            &&& row.start matches ActiveValue::Write(start) && row.end matches ActiveValue::Write(
                end,
            ) && from <= start < end <= to && start == interval_start(
                from as int,
                width as int,
                k,
            ) && end == interval_end(from as int, to as int, width as int, k)
            &&& row.timestamp == row.start
        }),
{
    law_intervals_tile_the_time(from, to, width, k);
}

/// The stored end of a planned row reads back as the end of its interval.
pub(crate) proof fn lemma_row_end(from: u64, to: u64, width: u64, k: int)
    requires
        fits(from, to, width),
        0 <= k < planned(from, to, width).len(),
    ensures
        planned(from, to, width)[k].end_instant() == interval_end(
            from as int,
            to as int,
            width as int,
            k,
        ),
        from < planned(from, to, width)[k].end_instant() <= to,
        k + 1 == planned(from, to, width).len() ==> planned(from, to, width)[k].end_instant() == to,
{
    law_intervals_tile_the_time(from, to, width, k);
    casts::law_stored_instant_reads_back(
        interval_end(from as int, to as int, width as int, k) as u64,
    );
}

/// Later rows end later.
pub(crate) proof fn lemma_row_ends_ascend(from: u64, to: u64, width: u64, j: int, k: int)
    requires
        fits(from, to, width),
        0 <= j <= k < planned(from, to, width).len(),
    ensures
        planned(from, to, width)[j].end_instant() <= planned(from, to, width)[k].end_instant(),
{
    lemma_row_end(from, to, width, j);
    lemma_row_end(from, to, width, k);
    lemma_start_monotone(from as int, width as int, j, k);
}

/// A plan can be taken up where any of its intervals ends: its first `k` rows and the plan from
/// where they end are together the whole plan.
pub proof fn law_plan_can_be_resumed(from: u64, to: u64, width: u64, k: int)
    requires
        fits(from, to, width),
        0 <= k <= planned(from, to, width).len(),
    ensures
        ({
            let middle = if k == 0 {
                from
            } else {
                interval_end(from as int, to as int, width as int, k - 1) as u64
            };
            &&& fits(middle, to, width)
            &&& planned(from, to, width).take(k) + planned(middle, to, width) == planned(
                from,
                to,
                width,
            )
        }),
{
    let f = from as int;
    let t = to as int;
    let w = width as int;
    let count = interval_count(f, t, w);
    let rows = planned(from, to, width);
    if k == 0 {
        assert(rows.take(0) + rows =~= rows);
    } else {
        law_intervals_tile_the_time(from, to, width, k - 1);
        let middle = interval_end(f, t, w, k - 1) as u64;
        lemma_start_step(f, w, k - 1);
        if k == count {
            assert(middle == to);
            assert(interval_start(t, w, 0) == t) by (nonlinear_arith)
                requires
                    interval_start(t, w, 0) == t + 0 * w,
            ;
            assert(rows.take(k) + planned(middle, to, width) =~= rows);
        } else {
            lemma_count(f, t, w, k);
            assert(middle == interval_start(f, w, k));
            assert forall|j: int|
                #![trigger interval_start(middle as int, w, j)]
                interval_start(middle as int, w, j) == interval_start(f, w, k + j) by {
                assert(k * w + j * w == (k + j) * w) by (nonlinear_arith);
            }
            lemma_count(middle as int, t, w, count - k);
            lemma_count(f, t, w, count);
            lemma_count(middle as int, t, w, count - k - 1);
            lemma_count(f, t, w, count - 1);
            let rest = interval_count(middle as int, t, w);
            assert(interval_start(middle as int, w, count - k) == interval_start(f, w, count));
            assert(interval_start(middle as int, w, count - k - 1) == interval_start(
                f,
                w,
                count - 1,
            ));
            assert(rest == count - k);
            assert(rows.take(k) + planned(middle, to, width) =~= rows);
        }
    }
}

/// What the plan says of its rows: there is none exactly if there is no time to cut. The first
/// starts at `from` and each further one where the one before it ends; the last ends at `to` and
/// the others a full width after they start. Every one of them is a new row that waits to be
/// claimed, has no retry scheduled and none behind it.
pub proof fn law_planned_rows_cut_the_time(from: u64, to: u64, width: u64, k: int)
    requires
        fits(from, to, width),
    ensures
        planned(from, to, width).len() == 0 <==> from >= to,
        0 <= k < planned(from, to, width).len() ==> {
            let rows = planned(from, to, width);
            let start = casts::unsigned_of(rows[k].start->Write_0);
            let end = casts::unsigned_of(rows[k].end->Write_0);
            &&& rows[k].start is Write
            &&& rows[k].end is Write
            &&& rows[k].timestamp == rows[k].start
            &&& rows[k].id is NotSet
            &&& rows[k].status == ActiveValue::Write(status::PENDING)
            &&& rows[k].next_retry == ActiveValue::Write(None::<i64>)
            &&& rows[k].retry_count == ActiveValue::Write(0i16)
            &&& k == 0 ==> start == from
            &&& k > 0 ==> start == casts::unsigned_of(rows[k - 1].end->Write_0)
            &&& k + 1 < rows.len() ==> end == start + width
            &&& k + 1 == rows.len() ==> end == to && start < to <= start + width
        },
{
    let rows = planned(from, to, width);
    let count = interval_count(from as int, to as int, width as int);
    lemma_count(from as int, to as int, width as int, 0);
    lemma_start_step(from as int, width as int, 0);
    if 0 <= k < rows.len() {
        law_intervals_tile_the_time(from, to, width, k);
        interval::law_new_interval_is_pending(
            interval_start(from as int, width as int, k) as u64,
            interval_end(from as int, to as int, width as int, k) as u64,
        );
        if k > 0 {
            law_intervals_tile_the_time(from, to, width, k - 1);
            interval::law_new_interval_is_pending(
                interval_start(from as int, width as int, k - 1) as u64,
                interval_end(from as int, to as int, width as int, k - 1) as u64,
            );
        }
    }
}

/// Time can be cut exactly if the width is not zero and, where there is time to cut, a full width
/// after the last start, which is the last whole number of widths from `from` that lies before
/// `to`, does not overflow.
pub proof fn law_plan_fits_exactly_without_overflow(from: u64, to: u64, width: u64)
    ensures
        fits(from, to, width) <==> width > 0 && (from >= to || from + (to - from - 1) / (width as int)
            * width + width <= u64::MAX),
{
    if width > 0 {
        if from < to {
            lemma_last_start(from as int, to as int, width as int);
        } else {
            lemma_start_step(from as int, width as int, 0);
        }
    }
}

} // verus!
