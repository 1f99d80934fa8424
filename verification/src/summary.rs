//! How the reports of the workers of one run add up.

use vstd::prelude::*;
use crate::split_indices::{lemma_range_start_bound, lemma_range_start_step, range_len, range_start};

verus! {

/// Whether every report among the first `count` tells of success.
pub open spec fn all_written<E>(reports: Seq<Result<usize, E>>, count: int) -> bool {
    forall|i: int| 0 <= i < count ==> (#[trigger] reports[i]) is Ok
}

/// Whether report `index` is the first that tells of a failure.
pub open spec fn is_first_failure<E>(reports: Seq<Result<usize, E>>, index: int) -> bool {
    &&& 0 <= index < reports.len()
    &&& reports[index] is Err
    &&& all_written(reports, index)
}

/// The number of entries that the reports say were written, a failed worker
/// counting for none.
pub open spec fn total_written<E>(reports: Seq<Result<usize, E>>) -> nat
    decreases reports.len(),
{
    if reports.len() == 0 {
        0
    } else {
        total_written(reports.drop_last()) + match reports.last() {
            Ok(count) => count as nat,
            Err(_) => 0,
        }
    }
}

/// The first reports tell of no more entries than all reports do.
pub proof fn lemma_total_written_grows<E>(reports: Seq<Result<usize, E>>, count: int)
    requires
        0 <= count <= reports.len(),
    ensures
        total_written(reports.take(count)) <= total_written(reports),
    decreases reports.len(),
{
    if count == reports.len() {
        assert(reports.take(count) =~= reports);
    } else {
        lemma_total_written_grows(reports.drop_last(), count);
        assert(reports.drop_last().take(count) =~= reports.take(count));
    }
}

/// Whether `reports` can be the reports of the workers of one run over
/// `num_items` entries dealt out to `num_ranges` ranges: there is one report
/// for each range, a worker has written no more entries than its range holds,
/// and a worker that failed had an entry to fail on.
pub open spec fn reports_of_run<E>(reports: Seq<Result<usize, E>>, num_items: nat, num_ranges: nat) -> bool {
    &&& reports.len() == num_ranges
    &&& forall|i: int|
        0 <= i < num_ranges ==> match #[trigger] reports[i] {
            Ok(count) => count <= range_len(num_items, num_ranges, i as nat),
            Err(_) => range_len(num_items, num_ranges, i as nat) > 0,
        }
}

/// The first `count` workers of a run have written no more entries than
/// their ranges hold, and fewer if one of them failed.
proof fn lemma_reports_within_ranges<E>(
    reports: Seq<Result<usize, E>>,
    num_items: nat,
    num_ranges: nat,
    count: int,
)
    requires
        num_ranges >= 1,
        reports_of_run(reports, num_items, num_ranges),
        0 <= count <= num_ranges,
    ensures
        total_written(reports.take(count)) <= range_start(num_items, num_ranges, count as nat),
        !all_written(reports, count) ==> total_written(reports.take(count)) < range_start(
            num_items,
            num_ranges,
            count as nat,
        ),
    decreases count,
{
    if count == 0 {
        lemma_range_start_bound(num_items, num_ranges, 0);
    } else {
        lemma_reports_within_ranges(reports, num_items, num_ranges, count - 1);
        lemma_range_start_step(num_items, num_ranges, (count - 1) as nat);
        assert(reports.take(count).drop_last() =~= reports.take(count - 1));
        assert(reports.take(count).last() == reports[count - 1]);
        if !all_written(reports, count) && all_written(reports, count - 1) {
            assert(reports[count - 1] is Err);
        }
    }
}

/// The workers of one run never report more entries than the package holds,
/// so their counts can be added up; and where a worker failed, fewer entries
/// were written than the package holds.
pub proof fn reports_of_run_fit<E>(reports: Seq<Result<usize, E>>, num_items: nat, num_ranges: nat)
    requires
        num_ranges >= 1,
        reports_of_run(reports, num_items, num_ranges),
    ensures
        total_written(reports) <= num_items,
        !all_written(reports, reports.len() as int) ==> total_written(reports) < num_items,
        num_items <= usize::MAX ==> can_be_added(reports),
{
    lemma_reports_within_ranges(reports, num_items, num_ranges, num_ranges as int);
    lemma_range_start_bound(num_items, num_ranges, num_ranges);
    assert(reports.take(num_ranges as int) =~= reports);
}

/// Whether the reports can be added up: one of them tells of a failure, or
/// the entries that they say were written can be counted.
pub open spec fn can_be_added<E>(reports: Seq<Result<usize, E>>) -> bool {
    all_written(reports, reports.len() as int) ==> total_written(reports) <= usize::MAX
}

/// Tests whether the reports can be added up.
pub fn counts_fit<E>(reports: &Vec<Result<usize, E>>) -> (fit: bool)
    ensures
        fit == can_be_added(reports@),
{
    let mut at: usize = 0;
    while at < reports.len()
        invariant
            at <= reports@.len(),
            all_written(reports@, at as int),
        decreases reports@.len() - at,
    {
        if reports[at].is_err() {
            return true;
        }
        at = at + 1;
    }
    let mut total: usize = 0;
    let mut at: usize = 0;
    while at < reports.len()
        invariant
            at <= reports@.len(),
            all_written(reports@, reports@.len() as int),
            total == total_written(reports@.take(at as int)),
        decreases reports@.len() - at,
    {
        proof {
            lemma_total_written_grows(reports@, at + 1);
            assert(reports@.take(at + 1).drop_last() =~= reports@.take(at as int));
        }
        match reports[at] {
            Ok(count) => {
                if count > usize::MAX - total {
                    return false;
                }
                total = total + count;
            },
            Err(_) => {},
        }
        at = at + 1;
    }
    proof {
        assert(reports@.take(at as int) =~= reports@);
    }
    true
}

/// Adds up the reports of the workers of one run: the failure of the first
/// worker, in the order of the ranges, that reports one, and else the number
/// of entries that all workers together have written.
pub fn total_unpacked<E>(reports: Vec<Result<usize, E>>) -> (total: Result<usize, E>)
    requires
        can_be_added(reports@),
    ensures
        total is Err <==> exists|i: int| is_first_failure(reports@, i),
        forall|i: int| is_first_failure(reports@, i) ==> total == reports@[i],
        total is Ok ==> total == Ok::<usize, E>(total_written(reports@) as usize),
{
    let mut rest = reports;
    let ghost given = rest@;
    let mut at: usize = 0;
    while at < rest.len()
        invariant
            rest@ == given,
            reports@ == given,
            at <= given.len(),
            all_written(given, at as int),
        decreases given.len() - at,
    {
        if rest[at].is_err() {
            assert(is_first_failure(given, at as int));
            return rest.swap_remove(at);
        }
        at = at + 1;
    }
    let mut total: usize = 0;
    let mut at: usize = 0;
    while at < rest.len()
        invariant
            rest@ == given,
            at <= given.len(),
            all_written(given, given.len() as int),
            total_written(given) <= usize::MAX,
            total == total_written(given.take(at as int)),
        decreases given.len() - at,
    {
        proof {
            lemma_total_written_grows(given, at + 1);
            assert(given.take(at + 1).drop_last() =~= given.take(at as int));
        }
        match rest[at] {
            Ok(count) => {
                total = total + count;
            },
            Err(_) => {},
        }
        at = at + 1;
    }
    proof {
        assert(given.take(at as int) =~= given);
    }
    Ok(total)
}

} // verus!
