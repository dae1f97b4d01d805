use colored::control::set_override;
use sps_pipeline::downloader::{begin, finish, progress_event, Fetched, Start};
use sps_pipeline::event::{
    Cask, DownloadOutcome, Formula, InstallTarget, JobAction, PipelineEvent, PipelinePackageType,
    PlannedJob, Seconds,
};
use sps_pipeline::model::JobStatus;
use sps_pipeline::monitor::{log_line, notice, two_decimals_text, Monitor, Wake};
use sps_pipeline::status::tells_of_a_job;
use sps_pipeline::stream::handle_events;

fn event(monitor: &mut Monitor, event: PipelineEvent, now: u64) -> String {
    let reaction = monitor.handle_event(&Wake::Event { event, now });
    assert!(!reaction.finished);
    reaction.output
}

fn started(name: &str) -> PipelineEvent {
    PipelineEvent::DownloadStarted {
        target_id: name.to_string(),
        url: format!("https://example.org/{name}"),
    }
}

fn header() -> String {
    "IID    STATE        PKG                 SIZE SLOT\n".to_string()
}

fn rule() -> String {
    format!("{}\n", "─".repeat(49))
}

#[test]
fn new_monitor_waits_for_the_run() {
    let monitor = Monitor::new(0);
    assert!(!monitor.pipeline_active());
    assert!(monitor.logs().is_empty());
    assert!(monitor.display().jobs().is_empty());
}

#[test]
fn pipeline_started_is_announced() {
    set_override(false);
    let mut monitor = Monitor::new(0);
    let output = event(&mut monitor, PipelineEvent::PipelineStarted { total_jobs: 3 }, 1);
    assert_eq!(output, "Starting pipeline.\n");
    assert!(monitor.pipeline_active());
    assert_eq!(monitor.display().total_jobs(), 3);
}

#[test]
fn pipeline_started_is_announced_in_colour() {
    set_override(true);
    let mut monitor = Monitor::new(0);
    let output = event(&mut monitor, PipelineEvent::PipelineStarted { total_jobs: 3 }, 1);
    assert_eq!(output, "\x1b[1;36mStarting pipeline.\x1b[0m\n");
}

#[test]
fn planning_and_resolution_notices() {
    set_override(false);
    let mut monitor = Monitor::new(0);
    assert_eq!(event(&mut monitor, PipelineEvent::PlanningStarted, 1), "");
    assert_eq!(
        event(&mut monitor, PipelineEvent::DependencyResolutionStarted, 1),
        "Resolving dependencies\n"
    );
    assert_eq!(
        event(&mut monitor, PipelineEvent::DependencyResolutionFinished, 1),
        ""
    );
    assert_eq!(
        event(&mut monitor, PipelineEvent::PlanningFinished { job_count: 12 }, 1),
        "Planning finished. Jobs: 12\n\n"
    );
    assert!(!monitor.pipeline_active());
    assert!(monitor.display().jobs().is_empty());
}

#[test]
fn job_events_before_the_start_are_kept_but_not_drawn() {
    set_override(false);
    let mut monitor = Monitor::new(0);
    assert_eq!(event(&mut monitor, started("wget"), 1), "");
    assert_eq!(
        monitor.display().status_of("wget"),
        Some(JobStatus::Downloading)
    );
    assert!(!monitor.display().header_printed());
}

#[test]
fn job_events_after_the_start_draw_the_table() {
    set_override(false);
    let mut monitor = Monitor::new(0);
    event(&mut monitor, PipelineEvent::PipelineStarted { total_jobs: 1 }, 1);
    let output = event(&mut monitor, started("wget"), 2);
    assert_eq!(
        output,
        format!(
            "{}#01    downloading  wget                  0B  ⬇\n{}",
            header(),
            rule()
        )
    );
    assert!(monitor.display().header_printed());
    assert_eq!(monitor.display().last_line_count(), 3);
}

#[test]
fn tick_draws_only_a_table_that_was_drawn_before() {
    set_override(false);
    let mut monitor = Monitor::new(0);
    assert_eq!(monitor.handle_event(&Wake::Tick { now: 1 }).output, "");
    event(&mut monitor, PipelineEvent::PipelineStarted { total_jobs: 1 }, 1);
    let idle = monitor.handle_event(&Wake::Tick { now: 2 });
    assert_eq!(idle.output, "");
    assert!(!idle.finished);
    event(&mut monitor, started("wget"), 3);
    let tick = monitor.handle_event(&Wake::Tick { now: 4 });
    assert!(!tick.finished);
    assert_eq!(
        tick.output,
        format!(
            "{}{}#01    downloading  wget                  0B  ⬇\n{}",
            "\x1b[1A\x1b[2K".repeat(3),
            header(),
            rule()
        )
    );
}

#[test]
fn tick_before_the_start_does_not_draw_a_known_table() {
    set_override(false);
    let mut monitor = Monitor::new(0);
    event(&mut monitor, started("wget"), 1);
    assert_eq!(monitor.handle_event(&Wake::Tick { now: 2 }).output, "");
}

#[test]
fn every_job_event_gives_its_status() {
    set_override(false);
    let id = || "job".to_string();
    let cases: Vec<(PipelineEvent, JobStatus)> = vec![
        (started("job"), JobStatus::Downloading),
        (
            PipelineEvent::DownloadFinished {
                target_id: id(),
                path: "/p".to_string(),
                size_bytes: 5,
            },
            JobStatus::Downloaded,
        ),
        (
            PipelineEvent::DownloadCached {
                target_id: id(),
                size_bytes: 5,
            },
            JobStatus::Cached,
        ),
        (
            PipelineEvent::DownloadFailed {
                target_id: id(),
                url: "u".to_string(),
                error: "e".to_string(),
            },
            JobStatus::Failed,
        ),
        (
            PipelineEvent::JobProcessingStarted { target_id: id() },
            JobStatus::Processing,
        ),
        (
            PipelineEvent::BuildStarted { target_id: id() },
            JobStatus::Processing,
        ),
        (
            PipelineEvent::InstallStarted { target_id: id() },
            JobStatus::Installing,
        ),
        (
            PipelineEvent::LinkStarted { target_id: id() },
            JobStatus::Linking,
        ),
        (
            PipelineEvent::JobSuccess {
                target_id: id(),
                action: JobAction::Install,
                pkg_type: PipelinePackageType::Formula,
            },
            JobStatus::Success,
        ),
        (
            PipelineEvent::JobFailed {
                target_id: id(),
                error: "e".to_string(),
            },
            JobStatus::Failed,
        ),
    ];
    for (given, status) in cases {
        assert!(tells_of_a_job(&given));
        let mut fresh = Monitor::new(0);
        event(&mut fresh, given.clone(), 1);
        assert_eq!(fresh.display().status_of("job"), Some(status));
        assert_eq!(fresh.display().jobs()[0].pool_id, 1);
        let mut known = Monitor::new(0);
        event(&mut known, started("other"), 1);
        event(&mut known, started("job"), 1);
        event(&mut known, given, 2);
        assert_eq!(known.display().status_of("job"), Some(status));
        assert_eq!(
            known.display().status_of("other"),
            Some(JobStatus::Downloading)
        );
        assert_eq!(known.display().jobs().len(), 2);
    }
}

#[test]
fn progress_of_an_unknown_job_creates_it_waiting() {
    set_override(false);
    let mut monitor = Monitor::new(0);
    event(&mut monitor, progress_event("wget", 10, Some(100)), 1);
    assert_eq!(monitor.display().status_of("wget"), Some(JobStatus::Waiting));
    assert_eq!(
        monitor.display().jobs()[0].current_bytes_downloaded,
        Some(10)
    );
    assert_eq!(monitor.display().total_bytes(), 100);
    assert!(monitor.display().active_downloads().is_empty());
}

#[test]
fn events_that_tell_of_no_job() {
    let others = vec![
        PipelineEvent::PipelineStarted { total_jobs: 1 },
        PipelineEvent::PlanningStarted,
        PipelineEvent::PlanningFinished { job_count: 1 },
        PipelineEvent::DependencyResolutionStarted,
        PipelineEvent::DependencyResolutionFinished,
        PipelineEvent::LogInfo {
            message: "m".to_string(),
        },
        PipelineEvent::LogWarn {
            message: "m".to_string(),
        },
        PipelineEvent::LogError {
            message: "m".to_string(),
        },
        PipelineEvent::PipelineFinished {
            duration_secs: Seconds { millis: 1 },
            success_count: 0,
            fail_count: 0,
        },
    ];
    for other in others {
        assert!(!tells_of_a_job(&other));
    }
}

#[test]
fn log_lines_without_colours() {
    set_override(false);
    assert_eq!(
        log_line(&PipelineEvent::DownloadFailed {
            target_id: "wget".to_string(),
            url: "u".to_string(),
            error: "timed out".to_string(),
        }),
        Some("Download failed: wget: timed out".to_string())
    );
    assert_eq!(
        log_line(&PipelineEvent::JobSuccess {
            target_id: "wget".to_string(),
            action: JobAction::Install,
            pkg_type: PipelinePackageType::Formula,
        }),
        Some("Installed: wget (Formula)".to_string())
    );
    assert_eq!(
        log_line(&PipelineEvent::JobSuccess {
            target_id: "app".to_string(),
            action: JobAction::Upgrade,
            pkg_type: PipelinePackageType::Cask,
        }),
        Some("Upgraded: app (Cask)".to_string())
    );
    assert_eq!(
        log_line(&PipelineEvent::JobSuccess {
            target_id: "app".to_string(),
            action: JobAction::Reinstall,
            pkg_type: PipelinePackageType::Cask,
        }),
        Some("Reinstalled: app (Cask)".to_string())
    );
    assert_eq!(
        log_line(&PipelineEvent::JobFailed {
            target_id: "wget".to_string(),
            error: "no space left".to_string(),
        }),
        Some("✗ wget: no space left".to_string())
    );
    assert_eq!(
        log_line(&PipelineEvent::LogInfo {
            message: "note".to_string()
        }),
        Some("note".to_string())
    );
    assert_eq!(
        log_line(&PipelineEvent::LogWarn {
            message: "careful".to_string()
        }),
        Some("careful".to_string())
    );
    assert_eq!(
        log_line(&PipelineEvent::LogError {
            message: "broken".to_string()
        }),
        Some("broken".to_string())
    );
    assert_eq!(log_line(&started("wget")), None);
    assert_eq!(log_line(&PipelineEvent::PlanningStarted), None);
}

#[test]
fn log_lines_with_colours() {
    set_override(true);
    assert_eq!(
        log_line(&PipelineEvent::DownloadFailed {
            target_id: "wget".to_string(),
            url: "u".to_string(),
            error: "timed out".to_string(),
        }),
        Some(
            "\x1b[31mDownload failed:\x1b[0m \x1b[36mwget\x1b[0m: \x1b[31mtimed out\x1b[0m"
                .to_string()
        )
    );
    assert_eq!(
        log_line(&PipelineEvent::JobSuccess {
            target_id: "wget".to_string(),
            action: JobAction::Install,
            pkg_type: PipelinePackageType::Formula,
        }),
        Some("\x1b[32mInstalled\x1b[0m: \x1b[36mwget\x1b[0m (Formula)".to_string())
    );
    assert_eq!(
        log_line(&PipelineEvent::JobFailed {
            target_id: "wget".to_string(),
            error: "bad".to_string(),
        }),
        Some("\x1b[1;31m✗\x1b[0m \x1b[36mwget\x1b[0m: \x1b[31mbad\x1b[0m".to_string())
    );
    assert_eq!(
        log_line(&PipelineEvent::LogInfo {
            message: "note".to_string()
        }),
        Some("note".to_string())
    );
    assert_eq!(
        log_line(&PipelineEvent::LogWarn {
            message: "careful".to_string()
        }),
        Some("\x1b[33mcareful\x1b[0m".to_string())
    );
    assert_eq!(
        log_line(&PipelineEvent::LogError {
            message: "broken".to_string()
        }),
        Some("\x1b[31mbroken\x1b[0m".to_string())
    );
}

#[test]
fn log_lines_wait_for_the_end_of_the_run() {
    set_override(false);
    let mut monitor = Monitor::new(0);
    let output = event(
        &mut monitor,
        PipelineEvent::LogWarn {
            message: "careful".to_string(),
        },
        1,
    );
    assert_eq!(output, "");
    event(
        &mut monitor,
        PipelineEvent::JobFailed {
            target_id: "wget".to_string(),
            error: "bad".to_string(),
        },
        2,
    );
    assert_eq!(
        monitor.logs(),
        &vec!["careful".to_string(), "✗ wget: bad".to_string()]
    );
}

#[test]
fn two_decimals_text_writes_hundredths() {
    assert_eq!(two_decimals_text(0), "0.00");
    assert_eq!(two_decimals_text(5), "0.05");
    assert_eq!(two_decimals_text(150), "1.50");
    assert_eq!(two_decimals_text(123_456), "1234.56");
}

#[test]
fn notice_of_the_end_of_the_run() {
    set_override(false);
    let finished = PipelineEvent::PipelineFinished {
        duration_secs: Seconds { millis: 1_500 },
        success_count: 2,
        fail_count: 1,
    };
    assert_eq!(
        notice(&finished, &vec![]),
        "\nPipeline finished in 1.50s (2 succeeded, 1 failed)\n"
    );
    assert_eq!(
        notice(&finished, &vec!["one".to_string(), "two".to_string()]),
        "\nPipeline finished in 1.50s (2 succeeded, 1 failed)\n\none\ntwo\n"
    );
}

#[test]
fn notice_rounds_the_duration_half_to_even() {
    set_override(false);
    let text = |millis: u64| {
        notice(
            &PipelineEvent::PipelineFinished {
                duration_secs: Seconds { millis: millis },
                success_count: 0,
                fail_count: 0,
            },
            &vec![],
        )
    };
    assert_eq!(text(0), "\nPipeline finished in 0.00s (0 succeeded, 0 failed)\n");
    assert_eq!(text(1_004), "\nPipeline finished in 1.00s (0 succeeded, 0 failed)\n");
    assert_eq!(text(1_005), "\nPipeline finished in 1.00s (0 succeeded, 0 failed)\n");
    assert_eq!(text(1_015), "\nPipeline finished in 1.02s (0 succeeded, 0 failed)\n");
    assert_eq!(text(61_236), "\nPipeline finished in 61.24s (0 succeeded, 0 failed)\n");
}

#[test]
fn notice_of_the_end_of_the_run_in_colour() {
    set_override(true);
    let finished = PipelineEvent::PipelineFinished {
        duration_secs: Seconds { millis: 20 },
        success_count: 0,
        fail_count: 0,
    };
    assert_eq!(
        notice(&finished, &vec![]),
        "\n\x1b[1mPipeline finished\x1b[0m in 0.02s (0 succeeded, 0 failed)\n"
    );
    assert_eq!(
        notice(&PipelineEvent::PlanningFinished { job_count: 2 }, &vec![]),
        "\x1b[1mPlanning finished. Jobs:\x1b[0m 2\n\n"
    );
    assert_eq!(
        notice(&PipelineEvent::DependencyResolutionStarted, &vec![]),
        "\x1b[36mResolving dependencies\x1b[0m\n"
    );
}

#[test]
fn pipeline_finished_ends_the_loop_with_a_summary() {
    set_override(false);
    let mut monitor = Monitor::new(0);
    event(&mut monitor, PipelineEvent::PipelineStarted { total_jobs: 1 }, 1);
    event(&mut monitor, started("wget"), 2);
    event(
        &mut monitor,
        PipelineEvent::JobSuccess {
            target_id: "wget".to_string(),
            action: JobAction::Install,
            pkg_type: PipelinePackageType::Formula,
        },
        3,
    );
    let reaction = monitor.handle_event(&Wake::Event {
        event: PipelineEvent::PipelineFinished {
            duration_secs: Seconds { millis: 2_340 },
            success_count: 1,
            fail_count: 0,
        },
        now: 4,
    });
    assert!(reaction.finished);
    assert_eq!(
        reaction.output,
        format!(
            "{}{}{}{}\nPipeline finished in 2.34s (1 succeeded, 0 failed)\n\nInstalled: wget (Formula)\n",
            "\x1b[1A\x1b[2K".repeat(3),
            header(),
            format!(
                "{:<6} {:<12} {:<15} {:>8} {}\n",
                "#01", "success", "wget", "–", " ✓"
            ),
            rule()
        )
    );
}

#[test]
fn pipeline_finished_without_a_table_writes_the_summary_only() {
    set_override(false);
    let mut monitor = Monitor::new(0);
    let reaction = monitor.handle_event(&Wake::Event {
        event: PipelineEvent::PipelineFinished {
            duration_secs: Seconds { millis: 10 },
            success_count: 0,
            fail_count: 0,
        },
        now: 4,
    });
    assert!(reaction.finished);
    assert_eq!(
        reaction.output,
        "\nPipeline finished in 0.01s (0 succeeded, 0 failed)\n"
    );
}

#[test]
fn closed_stream_ends_the_loop_with_a_summary_of_what_was_seen() {
    set_override(false);
    let mut monitor = Monitor::new(1_000_000_000);
    event(&mut monitor, started("wget"), 1_100_000_000);
    let reaction = monitor.handle_event(&Wake::Closed { now: 3_500_000_000 });
    assert!(reaction.finished);
    assert_eq!(
        reaction.output,
        "\nPipeline finished in 2.50s (0 succeeded, 0 failed)\n"
    );
    assert_eq!(
        monitor.display().status_of("wget"),
        Some(JobStatus::Downloading)
    );
}

#[test]
fn closed_stream_draws_the_table_once_more_and_flushes_the_logs() {
    set_override(false);
    let mut monitor = Monitor::new(0);
    event(&mut monitor, PipelineEvent::PipelineStarted { total_jobs: 2 }, 1);
    event(&mut monitor, started("a"), 2);
    event(&mut monitor, started("b"), 3);
    event(
        &mut monitor,
        PipelineEvent::JobSuccess {
            target_id: "a".to_string(),
            action: JobAction::Upgrade,
            pkg_type: PipelinePackageType::Cask,
        },
        4,
    );
    event(
        &mut monitor,
        PipelineEvent::JobFailed {
            target_id: "b".to_string(),
            error: "bad".to_string(),
        },
        5,
    );
    let reaction = monitor.handle_event(&Wake::Closed { now: 1_234_567_890 });
    assert!(reaction.finished);
    assert_eq!(
        reaction.output,
        format!(
            "{}{}{}{}{}\nPipeline finished in 1.23s (1 succeeded, 1 failed)\n\nUpgraded: a (Cask)\n✗ b: bad\n",
            "\x1b[1A\x1b[2K".repeat(4),
            header(),
            format!(
                "{:<6} {:<12} {:<15} {:>8} {}\n",
                "#01", "success", "a", "–", " ✓"
            ),
            format!(
                "{:<6} {:<12} {:<15} {:>8} {}\n",
                "#02", "failed", "b", "–", " ✗"
            ),
            rule()
        )
    );
}

#[test]
fn closed_stream_with_a_clock_that_went_back() {
    set_override(false);
    let mut monitor = Monitor::new(10);
    let reaction = monitor.handle_event(&Wake::Closed { now: 5 });
    assert!(reaction.finished);
    assert_eq!(
        reaction.output,
        "\nPipeline finished in 0.00s (0 succeeded, 0 failed)\n"
    );
}

#[test]
fn lagged_stream_changes_nothing() {
    set_override(false);
    let mut monitor = Monitor::new(0);
    event(&mut monitor, PipelineEvent::PipelineStarted { total_jobs: 2 }, 1);
    event(&mut monitor, started("wget"), 2);
    let lines = monitor.display().last_line_count();
    let reaction = monitor.handle_event(&Wake::Lagged { missed: 17 });
    assert!(!reaction.finished);
    assert_eq!(reaction.output, "");
    assert!(monitor.pipeline_active());
    assert_eq!(monitor.display().jobs().len(), 1);
    assert_eq!(
        monitor.display().status_of("wget"),
        Some(JobStatus::Downloading)
    );
    assert_eq!(monitor.display().last_line_count(), lines);
}

fn final_statuses(stream: Vec<Wake>) -> Vec<(String, JobStatus)> {
    let mut monitor = Monitor::new(0);
    for wake in stream {
        monitor.handle_event(&wake);
    }
    let mut statuses: Vec<(String, JobStatus)> = monitor
        .display()
        .jobs()
        .iter()
        .map(|job| (job.name.clone(), job.status))
        .collect();
    statuses.sort_by(|a, b| a.0.cmp(&b.0));
    statuses
}

fn at(event: PipelineEvent, now: u64) -> Wake {
    Wake::Event { event, now }
}

#[test]
fn lost_events_do_not_change_the_final_statuses() {
    set_override(false);
    let success = |name: &str| PipelineEvent::JobSuccess {
        target_id: name.to_string(),
        action: JobAction::Install,
        pkg_type: PipelinePackageType::Formula,
    };
    let failed = |name: &str| PipelineEvent::JobFailed {
        target_id: name.to_string(),
        error: "bad".to_string(),
    };
    let whole = vec![
        at(PipelineEvent::PipelineStarted { total_jobs: 2 }, 1),
        at(started("a"), 2),
        at(started("b"), 3),
        at(progress_event("a", 10, Some(20)), 4),
        at(
            PipelineEvent::DownloadFinished {
                target_id: "a".to_string(),
                path: "/a".to_string(),
                size_bytes: 20,
            },
            5,
        ),
        at(PipelineEvent::InstallStarted { target_id: "a".to_string() }, 6),
        at(success("a"), 7),
        at(failed("b"), 8),
    ];
    let with_loss = vec![
        at(PipelineEvent::PipelineStarted { total_jobs: 2 }, 1),
        at(started("a"), 2),
        Wake::Lagged { missed: 4 },
        at(success("a"), 7),
        at(failed("b"), 8),
    ];
    let all_but_the_last = vec![
        Wake::Lagged { missed: 6 },
        at(success("a"), 7),
        Wake::Lagged { missed: 1 },
        at(failed("b"), 8),
    ];
    let expected = vec![
        ("a".to_string(), JobStatus::Success),
        ("b".to_string(), JobStatus::Failed),
    ];
    assert_eq!(final_statuses(whole), expected);
    assert_eq!(final_statuses(with_loss), expected);
    assert_eq!(final_statuses(all_but_the_last), expected);
}

#[test]
fn three_jobs_from_plan_to_table() {
    set_override(false);
    let mut monitor = Monitor::new(0);
    let mut events: Vec<PipelineEvent> = Vec::new();
    let mut outcomes: Vec<DownloadOutcome> = Vec::new();

    let stored = PlannedJob {
        target_id: "stored".to_string(),
        target_definition: InstallTarget::Formula(Formula {
            url: "https://src/stored.tar.gz".to_string(),
            bottle_url: Some("https://b/stored".to_string()),
        }),
        is_source_build: false,
        use_private_store_source: Some("/store/x".to_string()),
    };
    let cask = PlannedJob {
        target_id: "app".to_string(),
        target_definition: InstallTarget::Cask(Cask { url: None }),
        is_source_build: false,
        use_private_store_source: None,
    };
    let bottle = PlannedJob {
        target_id: "wget".to_string(),
        target_definition: InstallTarget::Formula(Formula {
            url: "https://src/wget.tar.gz".to_string(),
            bottle_url: Some("https://b/wget".to_string()),
        }),
        is_source_build: false,
        use_private_store_source: None,
    };

    match begin(stored) {
        Start::Reuse { outcome } => outcomes.push(outcome),
        other => panic!("{other:?}"),
    }
    assert!(events.is_empty());
    assert_eq!(outcomes[0].result, Ok("/store/x".to_string()));

    match begin(cask) {
        Start::Reject { event, outcome } => {
            events.push(event);
            outcomes.push(outcome);
        }
        other => panic!("{other:?}"),
    }
    assert_eq!(events.len(), 1);
    assert!(matches!(events[0], PipelineEvent::DownloadFailed { .. }));
    assert!(outcomes[1].result.is_err());

    match begin(bottle) {
        Start::Fetch { event, url, job, .. } => {
            events.push(event);
            events.push(progress_event("wget", 400_000, Some(1_000_000)));
            events.push(progress_event("wget", 1_000_000, Some(1_000_000)));
            let fetched = Ok(Fetched {
                path: "/cache/wget".to_string(),
                was_cached: false,
            });
            let done = finish(job, url, fetched, Some(1_000_000));
            events.push(done.event);
            outcomes.push(done.outcome);
        }
        other => panic!("{other:?}"),
    }
    assert_eq!(
        events[1..],
        [
            PipelineEvent::DownloadStarted {
                target_id: "wget".to_string(),
                url: "https://b/wget".to_string(),
            },
            PipelineEvent::DownloadProgressUpdate {
                target_id: "wget".to_string(),
                bytes_so_far: 400_000,
                total_size: Some(1_000_000),
            },
            PipelineEvent::DownloadProgressUpdate {
                target_id: "wget".to_string(),
                bytes_so_far: 1_000_000,
                total_size: Some(1_000_000),
            },
            PipelineEvent::DownloadFinished {
                target_id: "wget".to_string(),
                path: "/cache/wget".to_string(),
                size_bytes: 1_000_000,
            },
        ]
    );
    assert_eq!(outcomes.len(), 3);
    assert_eq!(outcomes[2].result, Ok("/cache/wget".to_string()));

    monitor.handle_event(&at(PipelineEvent::PipelineStarted { total_jobs: 3 }, 0));
    let mut now = 1;
    for event in events {
        monitor.handle_event(&at(event, now));
        now += 1;
    }
    let display = monitor.display();
    assert_eq!(display.total_bytes(), 1_000_000);
    assert_eq!(display.status_of("wget"), Some(JobStatus::Downloaded));
    assert_eq!(display.status_of("app"), Some(JobStatus::Failed));
    assert_eq!(display.status_of("stored"), None);
    assert!(display.active_downloads().is_empty());
    assert_eq!(display.downloaded_bytes(), 1_000_000);
    assert_eq!(
        monitor.logs(),
        &vec![
            "Download failed: app: Download URL is missing or invalid for job app".to_string()
        ]
    );
}

#[test]
fn handle_events_takes_every_wake_up_of_an_open_stream() {
    set_override(false);
    let stream = vec![
        at(PipelineEvent::PipelineStarted { total_jobs: 1 }, 1),
        at(started("wget"), 2),
        Wake::Tick { now: 3 },
        Wake::Lagged { missed: 2 },
    ];
    let mut monitor = Monitor::new(0);
    let reaction = handle_events(&mut monitor, &stream);
    assert!(!reaction.finished);
    let mut step_by_step = Monitor::new(0);
    let mut expected = String::new();
    for wake in &stream {
        expected.push_str(&step_by_step.handle_event(wake).output);
    }
    assert_eq!(reaction.output, expected);
    assert!(reaction.output.starts_with("Starting pipeline.\nIID"));
    assert_eq!(
        monitor.display().status_of("wget"),
        Some(JobStatus::Downloading)
    );
}

#[test]
fn handle_events_stops_at_the_end_of_the_run() {
    set_override(false);
    let stream = vec![
        at(started("a"), 1),
        at(
            PipelineEvent::PipelineFinished {
                duration_secs: Seconds { millis: 1_000 },
                success_count: 0,
                fail_count: 0,
            },
            2,
        ),
        at(started("b"), 3),
        Wake::Closed { now: 4 },
    ];
    let mut monitor = Monitor::new(0);
    let reaction = handle_events(&mut monitor, &stream);
    assert!(reaction.finished);
    assert_eq!(
        reaction.output,
        "\nPipeline finished in 1.00s (0 succeeded, 0 failed)\n"
    );
    assert_eq!(monitor.display().status_of("a"), Some(JobStatus::Downloading));
    assert_eq!(monitor.display().status_of("b"), None);
}

#[test]
fn handle_events_stops_at_a_closed_stream() {
    set_override(false);
    let stream = vec![Wake::Closed { now: 2_000_000_000 }, at(started("a"), 3)];
    let mut monitor = Monitor::new(0);
    let reaction = handle_events(&mut monitor, &stream);
    assert!(reaction.finished);
    assert_eq!(
        reaction.output,
        "\nPipeline finished in 2.00s (0 succeeded, 0 failed)\n"
    );
    assert!(monitor.display().jobs().is_empty());
}

#[test]
fn handle_events_of_an_empty_stream() {
    let mut monitor = Monitor::new(0);
    let reaction = handle_events(&mut monitor, &vec![]);
    assert!(!reaction.finished);
    assert_eq!(reaction.output, "");
}
