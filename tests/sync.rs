use iracing_stats::discovery::{
    concat_chunks, driver_search, driver_search_since, hit_ids, hosted_windows, not_yet_ingested,
    season_quarters, unique_ids, HOSTED_WINDOW, SECONDS_PER_DAY,
};
use iracing_stats::rate_limit::RateLimits;
use iracing_stats::retry::{Outcome, RetryPolicy, Step, MAX_ATTEMPTS, RATE_LIMIT_WAIT_MS};
use iracing_stats::sync::{FetchResult, SyncAction, SyncRun};

#[test]
fn second_fetch_of_same_id_is_a_cache_hit() {
    let mut run = SyncRun::new();
    assert!(run.begin(42, false) == SyncAction::Fetch);
    run.finish(42, FetchResult::Cached);
    assert!(run.begin(42, false) == SyncAction::AlreadyCached);
    assert_eq!(run.requests(), 1);
    assert_eq!(run.synced(), &vec![42]);
}

#[test]
fn id_on_disk_needs_no_request() {
    let mut run = SyncRun::new();
    assert!(run.begin(7, true) == SyncAction::AlreadyCached);
    assert_eq!(run.requests(), 0);
}

#[test]
fn forbidden_fetch_is_skipped_and_run_goes_on() {
    let mut run = SyncRun::new();
    assert!(run.begin(1, false) == SyncAction::Fetch);
    run.finish(1, FetchResult::Forbidden);
    assert!(run.synced().is_empty());
    assert_eq!(run.skipped(), &vec![1]);
    assert!(!run.is_stopped());
    assert!(run.begin(2, false) == SyncAction::Fetch);
    run.finish(2, FetchResult::Cached);
    assert_eq!(run.synced(), &vec![2]);
}

#[test]
fn failed_fetch_stops_the_run() {
    let mut run = SyncRun::new();
    assert!(run.begin(1, false) == SyncAction::Fetch);
    run.finish(1, FetchResult::Failed);
    assert!(run.begin(2, false) == SyncAction::Stop);
}

#[test]
fn server_errors_exhaust_after_ten_attempts() {
    let mut p = RetryPolicy::new();
    let mut steps = Vec::new();
    loop {
        let s = p.on_outcome(Outcome::Status(500));
        steps.push(s);
        if s != Step::Retry {
            break;
        }
    }
    assert_eq!(steps.len(), 10);
    assert_eq!(MAX_ATTEMPTS, 10);
    assert!(steps[9] == Step::Exhausted);
    assert_eq!(p.attempts(), 10);
}

#[test]
fn forbidden_is_skip() {
    let mut p = RetryPolicy::new();
    assert!(p.on_outcome(Outcome::Status(403)) == Step::Skip);
}

#[test]
fn rate_limited_waits_two_seconds() {
    let mut p = RetryPolicy::new();
    assert!(p.on_outcome(Outcome::Status(429)) == Step::WaitThenRetry(2000));
    assert_eq!(RATE_LIMIT_WAIT_MS, 2000);
    assert!(p.on_outcome(Outcome::Status(200)) == Step::Done);
}

#[test]
fn unauthorized_reauthenticates_once() {
    let mut p = RetryPolicy::new();
    assert!(p.on_outcome(Outcome::Status(401)) == Step::Reauthenticate);
    assert!(p.on_outcome(Outcome::Status(401)) == Step::Fatal(401));
}

#[test]
fn other_status_is_fatal_and_no_response_retries() {
    let mut p = RetryPolicy::new();
    assert!(p.on_outcome(Outcome::NoResponse) == Step::Retry);
    assert!(p.on_outcome(Outcome::Status(404)) == Step::Fatal(404));
}

#[test]
fn three_chunks_concatenate_in_list_order() {
    let chunks = vec![vec![1, 2], vec![3], vec![4, 5, 6]];
    assert_eq!(concat_chunks(&chunks), vec![1, 2, 3, 4, 5, 6]);
    assert_eq!(concat_chunks(&vec![]), Vec::<i64>::new());
}

#[test]
fn hits_without_id_are_rejected() {
    assert_eq!(hit_ids(&vec![Some(3), Some(1)]), Some(vec![3, 1]));
    assert_eq!(hit_ids(&vec![Some(3), None]), None);
}

#[test]
fn quarters_from_join_year() {
    let q = season_quarters(2022, 2023, 2);
    assert_eq!(q, vec![(2022, 1), (2022, 2), (2022, 3), (2022, 4), (2023, 1), (2023, 2)]);
    assert!(season_quarters(2024, 2023, 2).is_empty());
}

#[test]
fn hosted_windows_cover_until_tomorrow() {
    let w = hosted_windows(0, 100 * SECONDS_PER_DAY);
    assert_eq!(HOSTED_WINDOW, 89 * 86400);
    assert_eq!(w, vec![(0, HOSTED_WINDOW), (HOSTED_WINDOW, 2 * HOSTED_WINDOW)]);
    assert!(hosted_windows(10, 10 - 2 * SECONDS_PER_DAY).is_empty());
}

#[test]
fn partial_search_covers_current_quarter_and_last_days() {
    let now = 1_700_000_000;
    let s = driver_search(2010, 0, now, true);
    assert_eq!(s.seasons, vec![(2023, 2)]);
    assert_eq!(s.hosted, vec![(now - 10 * SECONDS_PER_DAY, now - 10 * SECONDS_PER_DAY + HOSTED_WINDOW)]);
}

#[test]
fn full_search_from_member_since_date() {
    let now = 1651536000 + 50 * SECONDS_PER_DAY;
    let s = driver_search_since("2022-05-03", now).unwrap();
    assert_eq!(s.seasons.len(), 6);
    assert_eq!(s.seasons[0], (2022, 1));
    assert_eq!(s.hosted, vec![(1651536000, 1651536000 + HOSTED_WINDOW)]);
    assert!(driver_search_since("May 3rd", now).is_none());
}

#[test]
fn unique_ids_drop_repeats() {
    let u = unique_ids(&vec![5, 3, 5, 1, 3]);
    assert_eq!(u, vec![5, 3, 1]);
}

#[test]
fn only_ids_missing_from_store_are_ingested() {
    assert_eq!(not_yet_ingested(&vec![1, 2, 3, 4], &vec![2, 4, 9]), vec![1, 3]);
}

#[test]
fn rate_limit_headers_update_state() {
    let mut r = RateLimits::new();
    assert_eq!((r.limit, r.remaining, r.reset), (1, 1, 0));
    r.update(Some("240"), Some("17"), None);
    assert_eq!((r.limit, r.remaining, r.reset), (240, 17, 0));
    r.update(None, Some("oops"), Some("1700000000"));
    assert_eq!((r.limit, r.remaining, r.reset), (240, 17, 1700000000));
}
