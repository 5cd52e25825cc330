use seedr_dl::downloader::chunk::{after_failure, chunk_attempt, chunk_range_header, should_flush, ChunkAttempt, RetryDecision};
use seedr_dl::downloader::coordinator::{should_save, ProgressTracker};
use seedr_dl::downloader::parallel::{average_speed, chunk_finished, indexed_part_path, parallel_range_header, plan_parallel};
use seedr_dl::downloader::rate::{elapsed_millis, eta_secs, rate_per_sec, remaining_bytes, saturating_mul};
use seedr_dl::downloader::single::{open_range_header, single_start, stream_layout, stream_report, SingleStart};
use seedr_dl::downloader::state::{checked_total_downloaded, plan_fits_check, ChunkRange, DownloadState};

#[test]
fn rate_arithmetic() {
    assert_eq!(saturating_mul(3, 4), 12);
    assert_eq!(saturating_mul(u64::MAX, 2), u64::MAX);
    assert_eq!(saturating_mul(0, u64::MAX), 0);
    assert_eq!(rate_per_sec(500, 250), 2000);
    assert_eq!(rate_per_sec(500, 0), 0);
    assert_eq!(eta_secs(100, 30), 3);
    assert_eq!(eta_secs(100, 0), 0);
    assert_eq!(remaining_bytes(10, 3), 7);
    assert_eq!(remaining_bytes(3, 10), 0);
    assert_eq!(elapsed_millis(1234), 1234);
    assert_eq!(elapsed_millis(u128::from(u64::MAX) + 1), 1);
}

#[test]
fn tracker_smooths_speed() {
    let mut t = ProgressTracker::new(1000);
    let r = t.tick(3000, 11000, 1000);
    assert_eq!((r.downloaded, r.total, r.speed, r.eta), (3000, 11000, 2000, 4));
    let r = t.tick(5000, 11000, 500);
    // (2000 * 7 + 4000 * 3) / 10
    assert_eq!(r.speed, 2600);
    assert_eq!(r.eta, 6000 / 2600);
    assert_eq!(t.last_downloaded, 5000);
    assert!(should_save(2000));
    assert!(!should_save(1999));
}

#[test]
fn chunk_worker_decisions() {
    let c = ChunkRange { index: 0, start: 100, end: 199, downloaded: 40 };
    assert_eq!(chunk_attempt(true, &c), ChunkAttempt::Abort);
    assert_eq!(chunk_attempt(false, &c), ChunkAttempt::Stream);
    let done = ChunkRange { index: 0, start: 100, end: 199, downloaded: 100 };
    assert_eq!(chunk_attempt(false, &done), ChunkAttempt::Done);
    assert_eq!(chunk_range_header(&c), "bytes=140-199");
    assert_eq!(after_failure(1), RetryDecision::Retry(1));
    assert_eq!(after_failure(2), RetryDecision::Retry(2));
    assert_eq!(after_failure(3), RetryDecision::Retry(4));
    assert_eq!(after_failure(4), RetryDecision::GiveUp);
    assert_eq!(after_failure(9), RetryDecision::GiveUp);
    assert!(should_flush(262144));
    assert!(!should_flush(262143));
}

#[test]
fn single_stream_decisions() {
    assert_eq!(single_start(100, 100), SingleStart::AlreadyComplete);
    assert_eq!(single_start(50, 100), SingleStart::Fetch(Some(50)));
    assert_eq!(single_start(0, 100), SingleStart::Fetch(None));
    assert_eq!(single_start(5, 0), SingleStart::Fetch(Some(5)));
    assert_eq!(open_range_header(77), "bytes=77-");
    let l = stream_layout(true, 50, 0, Some(150));
    assert_eq!((l.seek_to, l.downloaded, l.effective_total, l.truncate), (50, 50, 200, false));
    let l = stream_layout(false, 50, 0, Some(150));
    assert_eq!((l.seek_to, l.downloaded, l.effective_total, l.truncate), (0, 0, 150, true));
    let l = stream_layout(true, 50, 300, None);
    assert_eq!(l.effective_total, 300);
    assert_eq!(stream_report(1000, 0, 399, 5000), None);
    assert_eq!(stream_report(1000, 200, 400, 5000), Some((2000, 2)));
}

#[test]
fn parallel_plan_resumes_ranges() {
    let parts = vec![100, 30, 0, 500];
    let p = plan_parallel(800, &parts);
    assert_eq!(p.initial_total, 230);
    let starts: Vec<(u64, u64, u64, u64)> = p.jobs.iter().map(|j| (j.index, j.start, j.resume_from, j.end)).collect();
    assert_eq!(starts[0], (1, 100, 130, 199));
    assert_eq!(starts[1], (2, 200, 200, 299));
    assert_eq!(p.jobs.len(), 6);
    assert_eq!(p.jobs.last().map(|j| (j.start, j.end)), Some((700, 799)));
    let remaining: u64 = p.jobs.iter().map(|j| j.len - j.done).sum();
    assert_eq!(p.initial_total + remaining, 800);
    assert_eq!(average_speed(1000, 0), 1000);
    assert_eq!(average_speed(1000, 4), 250);
    assert_eq!(indexed_part_path("/d", "f.mkv", 3), "/d/f.mkv.part.3");
}

#[test]
fn overflow_guards() {
    assert!(plan_fits_check(1000, 4));
    assert!(plan_fits_check(0, 4));
    assert!(plan_fits_check(u64::MAX, 0));
    assert!(plan_fits_check(u64::MAX, 1));
    assert!(plan_fits_check(u64::MAX, 3));
    assert!(!plan_fits_check(u64::MAX, 2));
    assert!(plan_fits_check(u64::MAX - 1, 2));
    let mut s = DownloadState::new(1000, 2);
    s.chunks[0].downloaded = 200;
    s.chunks[1].downloaded = 350;
    assert_eq!(checked_total_downloaded(&s), Some(550));
    s.chunks[0].downloaded = u64::MAX;
    assert_eq!(checked_total_downloaded(&s), None);
    let mut t = ProgressTracker::new(0);
    assert!(t.tick_fits_check(100, 1000));
    t.tick(100, 1000, 1000);
    assert!(t.tick_fits_check(200, 1000));
    let big = ProgressTracker { last_downloaded: 0, smoothed_speed: u64::MAX / 2 };
    assert!(!big.tick_fits_check(u64::MAX, 1));
}

#[test]
fn recording_progress_caps_and_completes() {
    let mut s = DownloadState::new(100, 2);
    s.record_progress(0, 30);
    assert_eq!(s.chunks[0].downloaded, 30);
    assert_eq!(s.total_downloaded(), 30);
    s.record_progress(0, 500);
    assert_eq!(s.chunks[0].downloaded, 50);
    assert!(s.chunks[0].is_complete());
    assert_eq!((s.chunks[0].start, s.chunks[0].end), (0, 49));
    assert_eq!(s.total_downloaded(), 50);
    s.record_progress(1, 7);
    assert_eq!(s.total_downloaded(), 57);
    s.reset_progress();
    assert_eq!(s.total_downloaded(), 0);
    assert_eq!((s.chunks[1].start, s.chunks[1].end), (50, 99));
}

#[test]
fn small_and_huge_files_skip_ranges_past_the_end() {
    let p = plan_parallel(9, &vec![]);
    let ranges: Vec<(u64, u64, u64)> = p.jobs.iter().map(|j| (j.index, j.start, j.end)).collect();
    assert_eq!(ranges, vec![(0, 0, 1), (1, 2, 3), (2, 4, 5), (3, 6, 7), (4, 8, 8)]);
    assert_eq!(p.initial_total, 0);
    let empty = plan_parallel(0, &vec![5, 5]);
    assert!(empty.jobs.is_empty());
    assert_eq!(empty.initial_total, 0);
    let one = plan_parallel(1, &vec![1]);
    assert!(one.jobs.is_empty());
    assert_eq!(one.initial_total, 1);
    let huge = plan_parallel(u64::MAX, &vec![]);
    assert_eq!(huge.jobs.len(), 8);
    assert_eq!(huge.jobs[7].end, u64::MAX - 1);
    let covered: u128 = huge.jobs.iter().map(|j| u128::from(j.len)).sum();
    assert_eq!(covered, u128::from(u64::MAX));
}

#[test]
fn parallel_job_requests_and_stop_rule() {
    let p = plan_parallel(800, &vec![100, 30]);
    let job = p.jobs[0];
    assert_eq!(parallel_range_header(&job), "bytes=130-199");
    assert!(!chunk_finished(&job, 99));
    assert!(chunk_finished(&job, 100));
    assert!(chunk_finished(&job, 150));
}
