use slpk_unpack::split_indices::split_indices_into_ranges;
use slpk_unpack::summary::{counts_fit, total_unpacked};
use slpk_unpack::worker::{worker_count, workers_for_cores, WorkerRun};

fn run_worker(start: usize, end: usize, failing: Option<usize>) -> (Vec<usize>, Result<usize, String>) {
    let mut run: WorkerRun<String> = WorkerRun::new(start, end);
    let mut visited = Vec::new();
    while let Some(index) = run.pending() {
        visited.push(index);
        if failing == Some(index) {
            run.record(Err(format!("entry {}", index)));
        } else {
            run.record(Ok(()));
        }
    }
    (visited, run.report())
}

#[test]
fn workers_for_known_cores() {
    assert_eq!(workers_for_cores(0), 1);
    assert_eq!(workers_for_cores(1), 1);
    assert_eq!(workers_for_cores(8), 8);
    assert_eq!(workers_for_cores(usize::MAX), usize::MAX);
}

#[test]
fn worker_count_is_positive() {
    assert!(worker_count() >= 1);
}

#[test]
fn worker_walks_its_range_in_order() {
    let (visited, report) = run_worker(3, 7, None);
    assert_eq!(visited, vec![3, 4, 5, 6]);
    assert_eq!(report, Ok(4));
}

#[test]
fn worker_with_empty_range() {
    let (visited, report) = run_worker(5, 5, None);
    assert_eq!(visited, Vec::<usize>::new());
    assert_eq!(report, Ok(0));
    let (visited, report) = run_worker(9, 2, None);
    assert_eq!(visited, Vec::<usize>::new());
    assert_eq!(report, Ok(0));
}

#[test]
fn worker_stops_at_the_first_failure() {
    let (visited, report) = run_worker(10, 20, Some(13));
    assert_eq!(visited, vec![10, 11, 12, 13]);
    assert_eq!(report, Err("entry 13".to_string()));
}

#[test]
fn worker_counts_what_it_has_written() {
    let mut run: WorkerRun<String> = WorkerRun::new(2, 5);
    assert_eq!(run.written(), 0);
    assert_eq!(run.pending(), Some(2));
    run.record(Ok(()));
    assert_eq!(run.written(), 1);
    assert_eq!(run.pending(), Some(3));
    run.record(Err("disk full".to_string()));
    assert_eq!(run.written(), 1);
    assert_eq!(run.pending(), None);
    run.record(Ok(()));
    run.record(Err("again".to_string()));
    assert_eq!(run.written(), 1);
    assert_eq!(run.report(), Err("disk full".to_string()));
}

#[test]
fn worker_ignores_outcomes_after_the_end() {
    let mut run: WorkerRun<String> = WorkerRun::new(0, 1);
    run.record(Ok(()));
    assert_eq!(run.pending(), None);
    run.record(Ok(()));
    run.record(Err("late".to_string()));
    assert_eq!(run.report(), Ok(1));
}

#[test]
fn worker_at_the_largest_index() {
    let (visited, report) = run_worker(usize::MAX - 2, usize::MAX, None);
    assert_eq!(visited, vec![usize::MAX - 2, usize::MAX - 1]);
    assert_eq!(report, Ok(2));
}

#[test]
fn total_of_successes() {
    let reports: Vec<Result<usize, String>> = vec![Ok(3), Ok(0), Ok(4)];
    assert_eq!(total_unpacked(reports), Ok(7));
}

#[test]
fn total_of_no_reports() {
    assert_eq!(total_unpacked(Vec::<Result<usize, String>>::new()), Ok(0));
}

#[test]
fn total_gives_the_first_failure() {
    let reports: Vec<Result<usize, String>> =
        vec![Ok(3), Err("second".to_string()), Ok(4), Err("fourth".to_string())];
    assert_eq!(total_unpacked(reports), Err("second".to_string()));
    let reports: Vec<Result<usize, String>> = vec![Err("first".to_string()), Ok(usize::MAX), Ok(usize::MAX)];
    assert_eq!(total_unpacked(reports), Err("first".to_string()));
    let reports: Vec<Result<usize, String>> = vec![Ok(1), Ok(2), Err("last".to_string())];
    assert_eq!(total_unpacked(reports), Err("last".to_string()));
}

#[test]
fn total_up_to_the_largest_count() {
    let reports: Vec<Result<usize, String>> = vec![Ok(usize::MAX - 1), Ok(1)];
    assert_eq!(total_unpacked(reports), Ok(usize::MAX));
}

#[test]
fn run_over_all_ranges_unpacks_everything() {
    for workers in 1..9 {
        let ranges = split_indices_into_ranges(29, workers);
        let mut visited = Vec::new();
        let mut reports = Vec::new();
        for (start, end) in ranges {
            let (seen, report) = run_worker(start, end, None);
            visited.extend(seen);
            reports.push(report);
        }
        assert_eq!(visited, (0..29).collect::<Vec<usize>>());
        assert_eq!(total_unpacked(reports), Ok(29));
    }
}

#[test]
fn run_with_a_failing_entry_fails_and_writes_less() {
    let ranges = split_indices_into_ranges(20, 4);
    let mut written = 0;
    let mut reports = Vec::new();
    for (start, end) in ranges {
        let (seen, report) = run_worker(start, end, Some(7));
        written += seen.iter().filter(|&&index| index != 7).count();
        reports.push(report);
    }
    assert_eq!(written, 17);
    assert!(written < 20);
    assert_eq!(total_unpacked(reports), Err("entry 7".to_string()));
}

#[test]
fn counts_that_fit() {
    assert!(counts_fit(&Vec::<Result<usize, String>>::new()));
    let reports: Vec<Result<usize, String>> = vec![Ok(3), Ok(4)];
    assert!(counts_fit(&reports));
    let reports: Vec<Result<usize, String>> = vec![Ok(usize::MAX - 1), Ok(1), Ok(0)];
    assert!(counts_fit(&reports));
}

#[test]
fn counts_that_do_not_fit() {
    let reports: Vec<Result<usize, String>> = vec![Ok(usize::MAX), Ok(1)];
    assert!(!counts_fit(&reports));
    let reports: Vec<Result<usize, String>> = vec![Ok(usize::MAX / 2 + 1), Ok(0), Ok(usize::MAX / 2 + 1)];
    assert!(!counts_fit(&reports));
}

#[test]
fn counts_with_a_failure_need_not_fit() {
    let reports: Vec<Result<usize, String>> = vec![Ok(usize::MAX), Ok(1), Err("late".to_string())];
    assert!(counts_fit(&reports));
    assert_eq!(total_unpacked(reports), Err("late".to_string()));
}
