use sps_pipeline::event::PipelineEvent;
use sps_pipeline::job::JobInfo;
use sps_pipeline::model::JobStatus;
use sps_pipeline::status::StatusDisplay;
use sps_pipeline::units::format_speed;

const SECOND: u64 = 1_000_000_000;

fn names(list: &Vec<String>) -> Vec<String> {
    let mut sorted = list.clone();
    sorted.sort();
    sorted
}

fn sum_of_sizes(display: &StatusDisplay) -> u128 {
    display
        .jobs()
        .iter()
        .map(|job| job.size_bytes.unwrap_or(0) as u128)
        .sum()
}

fn downloading_names(display: &StatusDisplay) -> Vec<String> {
    let mut found: Vec<String> = display
        .jobs()
        .iter()
        .filter(|job| job.status == JobStatus::Downloading)
        .map(|job| job.name.clone())
        .collect();
    found.sort();
    found
}

fn job<'a>(display: &'a StatusDisplay, name: &str) -> &'a JobInfo {
    display
        .jobs()
        .iter()
        .find(|job| job.name == name)
        .unwrap()
}

#[test]
fn new_display_is_empty() {
    let display = StatusDisplay::new(5);
    assert!(display.jobs().is_empty());
    assert!(display.active_downloads().is_empty());
    assert_eq!(display.total_jobs(), 0);
    assert_eq!(display.total_bytes(), 0);
    assert_eq!(display.downloaded_bytes(), 0);
    assert_eq!(display.current_speed_bps(), 0);
    assert!(!display.header_printed());
    assert_eq!(display.last_line_count(), 0);
}

#[test]
fn add_job_numbers_jobs_in_order_of_first_sight() {
    let mut display = StatusDisplay::new(0);
    display.add_job("wget".to_string(), JobStatus::Downloading, None, 1);
    display.add_job("curl".to_string(), JobStatus::Waiting, None, 2);
    display.add_job("git".to_string(), JobStatus::Cached, Some(10), 3);
    let ids: Vec<usize> = display.jobs().iter().map(|job| job.pool_id).collect();
    assert_eq!(ids, vec![1, 2, 3]);
    let order: Vec<&str> = display.jobs().iter().map(|job| job.name.as_str()).collect();
    assert_eq!(order, vec!["wget", "curl", "git"]);
}

#[test]
fn add_job_leaves_a_known_job_as_it_is() {
    let mut display = StatusDisplay::new(0);
    display.add_job("wget".to_string(), JobStatus::Downloading, Some(100), 1);
    display.add_job("wget".to_string(), JobStatus::Failed, Some(900), 2);
    assert_eq!(display.jobs().len(), 1);
    assert_eq!(job(&display, "wget").status, JobStatus::Downloading);
    assert_eq!(job(&display, "wget").size_bytes, Some(100));
    assert_eq!(job(&display, "wget").pool_id, 1);
    assert_eq!(display.total_bytes(), 100);
}

#[test]
fn add_job_sets_up_the_record_by_status() {
    let mut display = StatusDisplay::new(0);
    display.add_job("a".to_string(), JobStatus::Waiting, None, 7);
    display.add_job("b".to_string(), JobStatus::Downloading, Some(50), 8);
    display.add_job("c".to_string(), JobStatus::Processing, None, 9);
    assert_eq!(job(&display, "a").start_time, None);
    assert_eq!(job(&display, "a").current_bytes_downloaded, None);
    assert_eq!(job(&display, "b").start_time, Some(8));
    assert_eq!(job(&display, "b").current_bytes_downloaded, Some(0));
    assert_eq!(job(&display, "c").start_time, Some(9));
    assert_eq!(job(&display, "c").current_bytes_downloaded, None);
    assert_eq!(names(display.active_downloads()), vec!["b".to_string()]);
    assert_eq!(display.total_bytes(), 50);
}

#[test]
fn update_job_status_ignores_an_unknown_job() {
    let mut display = StatusDisplay::new(0);
    display.add_job("a".to_string(), JobStatus::Downloading, Some(1), 1);
    display.update_job_status("zzz", JobStatus::Failed, Some(77), 2);
    assert_eq!(display.jobs().len(), 1);
    assert_eq!(display.total_bytes(), 1);
    assert_eq!(display.status_of("zzz"), None);
    assert_eq!(display.status_of("a"), Some(JobStatus::Downloading));
}

#[test]
fn update_job_status_starts_the_timer_once() {
    let mut display = StatusDisplay::new(0);
    display.add_job("a".to_string(), JobStatus::Waiting, None, 1);
    display.update_job_status("a", JobStatus::Waiting, None, 2);
    assert_eq!(job(&display, "a").start_time, None);
    display.update_job_status("a", JobStatus::Downloading, None, 3);
    assert_eq!(job(&display, "a").start_time, Some(3));
    display.update_job_status("a", JobStatus::Downloaded, None, 4);
    assert_eq!(job(&display, "a").start_time, Some(3));
}

#[test]
fn update_job_status_entering_and_leaving_downloading() {
    let mut display = StatusDisplay::new(0);
    display.add_job("a".to_string(), JobStatus::Waiting, None, 1);
    display.update_job_status("a", JobStatus::Downloading, None, 2);
    assert_eq!(names(display.active_downloads()), vec!["a".to_string()]);
    assert_eq!(job(&display, "a").current_bytes_downloaded, Some(0));
    display.update_download_progress("a", 300, Some(1000));
    display.update_job_status("a", JobStatus::Downloaded, Some(1200), 3);
    assert!(display.active_downloads().is_empty());
    assert_eq!(job(&display, "a").status, JobStatus::Downloaded);
    assert_eq!(job(&display, "a").size_bytes, Some(1200));
    assert_eq!(job(&display, "a").current_bytes_downloaded, Some(1200));
    assert_eq!(display.downloaded_bytes(), 1200);
    assert_eq!(display.total_bytes(), 1200);
}

#[test]
fn update_job_status_leaving_downloading_without_a_size() {
    let mut display = StatusDisplay::new(0);
    display.add_job("a".to_string(), JobStatus::Downloading, None, 1);
    display.update_download_progress("a", 300, None);
    display.update_job_status("a", JobStatus::Failed, None, 2);
    assert!(display.active_downloads().is_empty());
    assert_eq!(job(&display, "a").current_bytes_downloaded, Some(300));
    assert_eq!(display.downloaded_bytes(), 0);
    assert_eq!(display.total_bytes(), 0);
}

#[test]
fn update_job_status_overwrites_a_final_status() {
    let mut display = StatusDisplay::new(0);
    display.add_job("a".to_string(), JobStatus::Success, None, 1);
    display.update_job_status("a", JobStatus::Failed, None, 2);
    assert_eq!(display.status_of("a"), Some(JobStatus::Failed));
    display.update_job_status("a", JobStatus::Downloading, None, 3);
    assert_eq!(display.status_of("a"), Some(JobStatus::Downloading));
    assert_eq!(names(display.active_downloads()), vec!["a".to_string()]);
}

#[test]
fn update_job_status_downloaded_bytes_add_up_at_every_leave() {
    let mut display = StatusDisplay::new(0);
    display.add_job("a".to_string(), JobStatus::Downloading, Some(10), 1);
    display.update_job_status("a", JobStatus::Failed, None, 2);
    display.update_job_status("a", JobStatus::Downloading, None, 3);
    display.update_job_status("a", JobStatus::Downloaded, Some(25), 4);
    assert_eq!(display.downloaded_bytes(), 35);
    assert_eq!(display.total_bytes(), 25);
}

#[test]
fn update_download_progress_keeps_the_status() {
    let mut display = StatusDisplay::new(0);
    display.add_job("a".to_string(), JobStatus::Waiting, None, 1);
    display.update_download_progress("a", 40, Some(100));
    assert_eq!(display.status_of("a"), Some(JobStatus::Waiting));
    assert_eq!(job(&display, "a").current_bytes_downloaded, Some(40));
    assert_eq!(job(&display, "a").size_bytes, Some(100));
    assert!(display.active_downloads().is_empty());
}

#[test]
fn update_download_progress_follows_a_changed_estimate() {
    let mut display = StatusDisplay::new(0);
    display.add_job("a".to_string(), JobStatus::Downloading, None, 1);
    display.add_job("b".to_string(), JobStatus::Downloading, Some(500), 1);
    display.update_download_progress("a", 1, Some(1000));
    assert_eq!(display.total_bytes(), 1500);
    display.update_download_progress("a", 2, Some(800));
    assert_eq!(display.total_bytes(), 1300);
    display.update_download_progress("a", 3, None);
    assert_eq!(display.total_bytes(), 1300);
    assert_eq!(job(&display, "a").size_bytes, Some(800));
    display.update_download_progress("a", 4, Some(800));
    assert_eq!(display.total_bytes(), 1300);
    display.update_download_progress("nobody", 4, Some(999));
    assert_eq!(display.total_bytes(), 1300);
}

#[test]
fn total_bytes_is_the_sum_of_the_size_estimates() {
    let mut display = StatusDisplay::new(0);
    assert_eq!(display.total_bytes(), sum_of_sizes(&display));
    display.add_job("a".to_string(), JobStatus::Downloading, Some(u64::MAX), 1);
    assert_eq!(display.total_bytes(), sum_of_sizes(&display));
    display.add_job("b".to_string(), JobStatus::Downloading, Some(u64::MAX), 1);
    assert_eq!(display.total_bytes(), sum_of_sizes(&display));
    assert_eq!(display.total_bytes(), 2 * (u64::MAX as u128));
    display.update_download_progress("a", 5, Some(17));
    assert_eq!(display.total_bytes(), sum_of_sizes(&display));
    display.update_job_status("b", JobStatus::Cached, Some(3), 2);
    assert_eq!(display.total_bytes(), sum_of_sizes(&display));
    display.update_job_status("a", JobStatus::Downloaded, Some(20), 2);
    assert_eq!(display.total_bytes(), sum_of_sizes(&display));
    assert_eq!(display.total_bytes(), 23);
}

#[test]
fn active_downloads_are_the_jobs_that_are_downloading() {
    let mut display = StatusDisplay::new(0);
    display.add_job("a".to_string(), JobStatus::Downloading, None, 1);
    display.add_job("b".to_string(), JobStatus::Waiting, None, 1);
    display.add_job("c".to_string(), JobStatus::Downloading, None, 1);
    assert_eq!(names(display.active_downloads()), downloading_names(&display));
    display.update_job_status("b", JobStatus::Downloading, None, 2);
    assert_eq!(names(display.active_downloads()), downloading_names(&display));
    display.update_job_status("a", JobStatus::Failed, None, 2);
    assert_eq!(names(display.active_downloads()), downloading_names(&display));
    display.update_job_status("c", JobStatus::Downloading, None, 2);
    assert_eq!(names(display.active_downloads()), downloading_names(&display));
    assert_eq!(
        names(display.active_downloads()),
        vec!["b".to_string(), "c".to_string()]
    );
    display.update_job_status("c", JobStatus::Cached, Some(4), 3);
    display.update_job_status("b", JobStatus::Downloaded, Some(4), 3);
    assert!(display.active_downloads().is_empty());
    assert_eq!(names(display.active_downloads()), downloading_names(&display));
}

#[test]
fn update_speed_waits_for_the_window() {
    let mut display = StatusDisplay::new(0);
    display.add_job("a".to_string(), JobStatus::Downloading, None, 0);
    display.update_download_progress("a", 1000, None);
    display.update_speed(62_499_999);
    assert_eq!(display.current_speed_bps(), 0);
    display.update_speed(62_500_000);
    assert_eq!(display.current_speed_bps(), 16_000);
}

#[test]
fn update_speed_of_two_thousand_bytes_per_second() {
    let mut display = StatusDisplay::new(0);
    display.add_job("a".to_string(), JobStatus::Downloading, None, 0);
    display.update_download_progress("a", 2000, None);
    display.update_speed(SECOND);
    assert_eq!(display.current_speed_bps(), 2000);
    display.update_download_progress("a", 4000, None);
    display.update_speed(2 * SECOND);
    assert_eq!(display.current_speed_bps(), 2000);
    assert_eq!(format_speed(display.current_speed_bps()), "2.0kB/s");
}

#[test]
fn update_speed_rounds_down_to_whole_bytes() {
    let mut display = StatusDisplay::new(0);
    display.add_job("a".to_string(), JobStatus::Downloading, None, 0);
    display.update_download_progress("a", 1, None);
    display.update_speed(2 * SECOND);
    assert_eq!(display.current_speed_bps(), 0);
    assert_eq!(format_speed(display.current_speed_bps()), "0 B/s");
    display.update_download_progress("a", 1000, None);
    display.update_speed(5 * SECOND);
    assert_eq!(display.current_speed_bps(), 333);
}

#[test]
fn update_speed_keeps_the_rate_while_a_download_stalls() {
    let mut display = StatusDisplay::new(0);
    display.add_job("a".to_string(), JobStatus::Downloading, None, 0);
    display.update_download_progress("a", 5000, None);
    display.update_speed(SECOND);
    assert_eq!(display.current_speed_bps(), 5000);
    display.update_speed(2 * SECOND);
    assert_eq!(display.current_speed_bps(), 5000);
}

#[test]
fn update_speed_falls_to_zero_without_downloads() {
    let mut display = StatusDisplay::new(0);
    display.add_job("a".to_string(), JobStatus::Downloading, None, 0);
    display.update_download_progress("a", 5000, None);
    display.update_speed(SECOND);
    display.update_job_status("a", JobStatus::Downloaded, Some(5000), SECOND);
    display.update_speed(2 * SECOND);
    assert_eq!(display.current_speed_bps(), 0);
}

#[test]
fn update_speed_counts_only_downloading_jobs() {
    let mut display = StatusDisplay::new(0);
    display.add_job("a".to_string(), JobStatus::Downloading, None, 0);
    display.add_job("b".to_string(), JobStatus::Waiting, None, 0);
    display.update_download_progress("a", 100, None);
    display.update_download_progress("b", 900, None);
    display.update_speed(SECOND);
    assert_eq!(display.current_speed_bps(), 100);
}

#[test]
fn update_speed_ignores_a_clock_that_went_back() {
    let mut display = StatusDisplay::new(10 * SECOND);
    display.add_job("a".to_string(), JobStatus::Downloading, None, 0);
    display.update_download_progress("a", 100, None);
    display.update_speed(SECOND);
    assert_eq!(display.current_speed_bps(), 0);
    display.update_speed(11 * SECOND);
    assert_eq!(display.current_speed_bps(), 100);
}

#[test]
fn update_speed_holds_at_the_largest_rate() {
    let mut display = StatusDisplay::new(0);
    display.add_job("a".to_string(), JobStatus::Downloading, None, 0);
    display.add_job("b".to_string(), JobStatus::Downloading, None, 0);
    display.update_download_progress("a", u64::MAX, None);
    display.update_download_progress("b", u64::MAX, None);
    display.update_speed(62_500_000);
    assert_eq!(display.current_speed_bps(), u64::MAX);
}

#[test]
fn size_str_of_known_and_unknown_sizes() {
    let mut display = StatusDisplay::new(0);
    display.add_job("a".to_string(), JobStatus::Waiting, None, 0);
    display.add_job("b".to_string(), JobStatus::Waiting, Some(1_500_000), 0);
    assert_eq!(job(&display, "a").size_str(), "–");
    assert_eq!(job(&display, "b").size_str(), "1.5MB");
}

#[test]
fn progress_str_shows_received_bytes_while_downloading() {
    let mut display = StatusDisplay::new(0);
    display.add_job("a".to_string(), JobStatus::Downloading, Some(1_000_000), 0);
    assert_eq!(job(&display, "a").progress_str(), "0B");
    display.update_download_progress("a", 400_000, Some(1_000_000));
    assert_eq!(job(&display, "a").progress_str(), "400.0kB");
    display.update_job_status("a", JobStatus::Downloaded, None, 1);
    assert_eq!(job(&display, "a").progress_str(), "1.0MB");
    display.add_job("b".to_string(), JobStatus::Waiting, None, 0);
    display.update_download_progress("b", 7, None);
    assert_eq!(job(&display, "b").progress_str(), "–");
}

#[test]
fn elapsed_str_in_seconds_with_one_decimal() {
    let mut display = StatusDisplay::new(0);
    display.add_job("a".to_string(), JobStatus::Waiting, None, 0);
    display.add_job("b".to_string(), JobStatus::Downloading, None, SECOND);
    assert_eq!(job(&display, "a").elapsed_str(9 * SECOND), "–");
    assert_eq!(job(&display, "b").elapsed_str(SECOND), "0.0s");
    assert_eq!(job(&display, "b").elapsed_str(0), "0.0s");
    assert_eq!(job(&display, "b").elapsed_str(SECOND + 1_540_000_000), "1.5s");
    assert_eq!(job(&display, "b").elapsed_str(SECOND + 250_000_000), "0.2s");
    assert_eq!(job(&display, "b").elapsed_str(SECOND + 350_000_000), "0.4s");
    assert_eq!(job(&display, "b").elapsed_str(SECOND + 125 * SECOND), "125.0s");
}

#[test]
fn status_of_known_and_unknown_jobs() {
    let mut display = StatusDisplay::new(0);
    display.add_job("a".to_string(), JobStatus::Linking, None, 0);
    assert_eq!(display.status_of("a"), Some(JobStatus::Linking));
    assert_eq!(display.status_of("A"), None);
    assert_eq!(display.status_of(""), None);
}

#[test]
fn set_total_jobs_is_kept() {
    let mut display = StatusDisplay::new(0);
    display.set_total_jobs(12);
    assert_eq!(display.total_jobs(), 12);
}

#[test]
fn apply_takes_the_number_of_jobs_from_the_start_of_the_run() {
    let mut display = StatusDisplay::new(0);
    display.apply(&PipelineEvent::PipelineStarted { total_jobs: 7 }, 1);
    assert_eq!(display.total_jobs(), 7);
    assert!(display.jobs().is_empty());
}

#[test]
fn apply_creates_a_job_at_its_first_mention() {
    let mut display = StatusDisplay::new(0);
    display.apply(
        &PipelineEvent::InstallStarted {
            target_id: "wget".to_string(),
        },
        5,
    );
    assert_eq!(display.jobs().len(), 1);
    assert_eq!(job(&display, "wget").pool_id, 1);
    assert_eq!(job(&display, "wget").status, JobStatus::Installing);
    assert_eq!(job(&display, "wget").start_time, Some(5));
    assert_eq!(job(&display, "wget").size_bytes, None);
    assert_eq!(job(&display, "wget").current_bytes_downloaded, None);
}

#[test]
fn apply_of_a_started_download_is_as_announcing_it_downloading() {
    let mut by_event = StatusDisplay::new(0);
    by_event.apply(
        &PipelineEvent::DownloadStarted {
            target_id: "wget".to_string(),
            url: "https://example.org/wget".to_string(),
        },
        5,
    );
    let mut by_hand = StatusDisplay::new(0);
    by_hand.add_job("wget".to_string(), JobStatus::Downloading, None, 5);
    for display in [&by_event, &by_hand] {
        assert_eq!(job(display, "wget").status, JobStatus::Downloading);
        assert_eq!(job(display, "wget").start_time, Some(5));
        assert_eq!(job(display, "wget").current_bytes_downloaded, Some(0));
        assert_eq!(job(display, "wget").size_bytes, None);
        assert_eq!(names(display.active_downloads()), vec!["wget".to_string()]);
    }
}

#[test]
fn apply_overwrites_the_status_of_a_known_job() {
    let mut display = StatusDisplay::new(0);
    display.add_job("wget".to_string(), JobStatus::Failed, Some(9), 1);
    display.apply(
        &PipelineEvent::DownloadStarted {
            target_id: "wget".to_string(),
            url: "u".to_string(),
        },
        2,
    );
    assert_eq!(display.status_of("wget"), Some(JobStatus::Downloading));
    assert_eq!(job(&display, "wget").start_time, Some(1));
    assert_eq!(display.total_bytes(), 9);
}

#[test]
fn apply_leaves_the_table_on_events_without_a_job() {
    let mut display = StatusDisplay::new(0);
    display.add_job("wget".to_string(), JobStatus::Downloading, Some(9), 1);
    for event in [
        PipelineEvent::PlanningStarted,
        PipelineEvent::PlanningFinished { job_count: 3 },
        PipelineEvent::DependencyResolutionStarted,
        PipelineEvent::DependencyResolutionFinished,
        PipelineEvent::LogInfo {
            message: "wget".to_string(),
        },
    ] {
        display.apply(&event, 2);
    }
    assert_eq!(display.jobs().len(), 1);
    assert_eq!(display.status_of("wget"), Some(JobStatus::Downloading));
    assert_eq!(display.total_bytes(), 9);
    assert_eq!(display.total_jobs(), 0);
}

#[test]
fn count_with_counts_the_jobs_of_a_status() {
    let mut display = StatusDisplay::new(0);
    display.add_job("a".to_string(), JobStatus::Success, None, 1);
    display.add_job("b".to_string(), JobStatus::Failed, None, 1);
    display.add_job("c".to_string(), JobStatus::Success, None, 1);
    assert_eq!(display.count_with(JobStatus::Success), 2);
    assert_eq!(display.count_with(JobStatus::Failed), 1);
    assert_eq!(display.count_with(JobStatus::Waiting), 0);
    assert_eq!(display.start_time(), 0);
}
