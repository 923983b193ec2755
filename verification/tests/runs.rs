use videoferry::board::{Board, QueueRunState};
use videoferry::commands::{LimitStep, OpenOutcome, PauseStep};
use videoferry::control::{retry_wait_step, ControlDecision, ConversionControl, WaitStep};
use videoferry::controller::SlintController;
use videoferry::disk::{Disk, DiskEntry, DiskFolder};
use videoferry::editing::TaskTargetAction;
use videoferry::engine::EngineError;
use videoferry::failures::{FileFailure, RunFailures};
use videoferry::finish::{HistoryOutcome, WorkerOutcome};
use videoferry::history::CompletedHistoryRow;
use videoferry::jobs::{
    camera_run_info_from_media, camera_source_skip_reason, completed_history_row,
    encoded_source_matches_fps, existing_library_name, lut_candidates, needs_lut, prepare_request,
    run_with_retry, wait_until_file_stable, worker_error_is_locked_input,
    worker_error_is_queue_fatal, worker_error_should_retry, CameraProfile, CameraRunInfo,
    CompletedJob, EncodedSource, FileStamp, HistoryMediaInfo, LutLookup, LutPlaces, RetryDecision,
    StabilityStep,
};
use videoferry::model::{
    Container, ContentMode, ConversionEvent, ConversionPreview, Encoder, FpsPolicy, FrameRate,
    QueueSettings,
};
use videoferry::presets::{Preset, Presets, Surroundings};
use videoferry::progress::StreamCarryInfo;
use videoferry::queue::{Queue, QueueStatus, QueueTask};
use videoferry::run::{NextStep, StartOrder};
use videoferry::stored_queue::LoadedQueue;
use videoferry::task_files::{selected_task_files, SlintTaskFileSnapshot};
use videoferry::task_rows::filtered_history;
use videoferry::task_sort::{
    sorted_task_files, task_file_cell, task_file_duration_seconds, TaskFileSort,
};
use videoferry::time::Duration;
use videoferry::watch::{folder_queue_summaries, WatchedFolder};

fn settings(mode: ContentMode, encoder: Encoder) -> QueueSettings {
    QueueSettings {
        mode,
        encoder,
        apply_lut: mode == ContentMode::CameraVideos && !encoder.is_hardware(),
        ..QueueSettings::default()
    }
}

fn presets() -> Presets {
    let mut entries = Vec::new();
    for mode in ContentMode::all() {
        for encoder in Encoder::all() {
            let series = mode == ContentMode::Tv || mode == ContentMode::Animation;
            entries.push(Preset {
                mode,
                encoder,
                defaults: settings(mode, encoder),
                container: if series {
                    Container::Matroska
                } else {
                    Container::Mp4
                },
                share_lowest_fps: mode == ContentMode::Tv,
                folder_suffix: series.then(|| format!("({})", encoder.user_name())),
            });
        }
    }
    Presets { entries }
}

/// A folder of the disk; names that end with a slash are folders.
fn folder(path: &str, names: &[&str]) -> DiskFolder {
    DiskFolder {
        path: path.to_owned(),
        entries: Some(
            names
                .iter()
                .map(|name| DiskEntry {
                    name: name.trim_end_matches('/').to_owned(),
                    is_folder: name.ends_with('/'),
                })
                .collect(),
        ),
    }
}

fn surroundings(folders: Vec<DiskFolder>) -> Surroundings {
    Surroundings {
        disk: Disk {
            folders,
            files: Vec::new(),
        },
        presets: presets(),
        marks: Vec::new(),
        now: "2026-09-01 10:00:00".to_owned(),
    }
}

fn task(id: &str, targets: &[&str], settings: QueueSettings) -> QueueTask {
    QueueTask::new(
        id.to_owned(),
        id.to_owned(),
        targets.iter().map(|path| (*path).to_owned()).collect(),
        settings,
    )
}

fn controller(queue: Queue, env: &Surroundings) -> SlintController {
    let defaults = ContentMode::all()
        .into_iter()
        .map(|mode| settings(mode, Encoder::X265))
        .collect();
    let loaded = LoadedQueue {
        queue,
        resume_task_id: None,
        next_id: 100,
    };
    SlintController::restore(
        Ok(None),
        defaults,
        Ok(Some(loaded)),
        RunFailures::default(),
        Ok(Vec::new()),
        0,
        env,
    )
}

fn job(input: &str, output: &str) -> CompletedJob {
    CompletedJob {
        input: input.to_owned(),
        output: output.to_owned(),
        lut_name: None,
        start_time: "start".to_owned(),
        end_time: "end".to_owned(),
        process_minutes: "1.00".to_owned(),
        original: media("-", None),
        converted: media("-", None),
    }
}

fn media(fps_text: &str, codec: Option<&str>) -> HistoryMediaInfo {
    HistoryMediaInfo {
        size: None,
        width: None,
        height: None,
        fps: None,
        fps_text: fps_text.to_owned(),
        codec: codec.map(str::to_owned),
        duration: None,
    }
}

fn failed(error: &str) -> EngineError {
    EngineError::Failed(error.to_owned())
}

/// Runs a conversion until it works or is given up, with the warnings on the way.
fn attempts_of(
    mode: ContentMode,
    mut convert: impl FnMut(usize) -> Result<&'static str, EngineError>,
) -> (Result<&'static str, EngineError>, usize, Vec<String>) {
    let mut warnings = Vec::new();
    let mut attempt = 1;
    let mut count = 0;
    loop {
        count += 1;
        let error = match convert(count) {
            Ok(done) => return (Ok(done), count, warnings),
            Err(error) => error,
        };
        match run_with_retry(mode, attempt, &error, Duration::zero()) {
            RetryDecision::Again {
                warning,
                attempt: next,
                ..
            } => {
                warnings.push(warning);
                attempt = next;
            }
            RetryDecision::GiveUp => return (Err(error), count, warnings),
        }
    }
}

#[test]
fn camera_existing_encoder_and_fps_rules_match_python() {
    assert_eq!(existing_library_name(Encoder::X265), "x265");
    assert_eq!(existing_library_name(Encoder::X264), "x264");
    assert_eq!(existing_library_name(Encoder::SvtAv1), "libsvtav1");
    for hardware in [
        Encoder::HevcNvenc,
        Encoder::Av1Nvenc,
        Encoder::H264Nvenc,
        Encoder::H264VideoToolbox,
        Encoder::HevcVideoToolbox,
        Encoder::Av1VideoToolbox,
    ] {
        assert_eq!(existing_library_name(hardware), "x265");
    }

    let exact = FpsPolicy::Exact(FrameRate::from_bits(23.976_f64.to_bits()));
    let near = |a: f64, b: f64| (a - b).abs() < 0.01;
    assert!(encoded_source_matches_fps(FpsPolicy::Source, false, None));
    assert!(encoded_source_matches_fps(exact, near(23.976, 23.976), None));
    assert!(!encoded_source_matches_fps(exact, near(29.97, 23.976), None));
    assert!(encoded_source_matches_fps(
        FpsPolicy::SharedLowest,
        false,
        Some(near(23.976, 23.976))
    ));
    assert!(!encoded_source_matches_fps(FpsPolicy::SharedLowest, true, None));
}

#[test]
fn encoded_camera_sources_are_skipped_only_when_their_rate_fits() {
    let source = |library: Option<&str>, fits: bool| EncodedSource {
        library: library.map(str::to_owned),
        rate_text: Some("29.97".to_owned()),
        rate_fits: fits,
    };
    let reason = |ignores, source: &EncodedSource| {
        camera_source_skip_reason(ignores, source, Encoder::X265, "/a/clip.mp4")
    };
    assert!(reason(true, &source(Some("x265"), true))
        .unwrap()
        .contains("clip.mp4"));
    assert_eq!(reason(false, &source(Some("x265"), true)), None);
    assert_eq!(reason(true, &source(Some("x265"), false)), None);
    assert_eq!(reason(true, &source(Some("x264"), true)), None);
    assert_eq!(reason(true, &source(None, true)), None);
}

#[test]
fn active_camera_metrics_match_python_lut_display_rules() {
    let profile = CameraProfile {
        model_name: "DJI OsmoAction6".to_owned(),
        lut_name: "action6.cube".to_owned(),
    };

    let tv = camera_run_info_from_media(
        &settings(ContentMode::Tv, Encoder::X265),
        Some(&profile),
    );
    assert_eq!(tv.model_name.as_deref(), Some("DJI OsmoAction6"));
    assert_eq!(tv.lut_status, None);

    let mut camera = settings(ContentMode::CameraVideos, Encoder::X265);
    let enabled = camera_run_info_from_media(&camera, Some(&profile));
    assert_eq!(enabled.model_name.as_deref(), Some("DJI OsmoAction6"));
    assert_eq!(enabled.lut_status.as_deref(), Some("action6.cube"));

    camera.apply_lut = false;
    assert_eq!(
        camera_run_info_from_media(&camera, Some(&profile))
            .lut_status
            .as_deref(),
        Some("Disabled")
    );

    let hardware = settings(ContentMode::CameraVideos, Encoder::HevcNvenc);
    assert_eq!(
        camera_run_info_from_media(&hardware, Some(&profile))
            .lut_status
            .as_deref(),
        Some("Disabled")
    );

    assert_eq!(
        camera_run_info_from_media(&camera, None),
        CameraRunInfo::default()
    );
}

#[test]
fn completed_history_records_only_the_lut_actually_applied() {
    let env = surroundings(Vec::new());
    let camera = task(
        "camera",
        &["DJI_0001.MP4"],
        settings(ContentMode::CameraVideos, Encoder::X265),
    );
    let mut job = job("DJI_0001.MP4", "DJI_0001.mp4");
    job.original = HistoryMediaInfo {
        duration: Some(Duration::from_secs(125)),
        ..media("29.97", Some("h264"))
    };
    job.converted = media("23.976", Some("hevc"));

    assert_eq!(completed_history_row(&camera, &job).columns()[2], "-");
    let configuration = completed_history_row(&camera, &job);
    assert_eq!(&configuration.columns()[9..=10], ["29.97", "23.976"]);
    assert_eq!(configuration.columns()[11], "x265");
    assert_ne!(configuration.columns()[12], "-");
    assert_ne!(configuration.columns()[13], "-");
    assert_eq!(configuration.task_id(), Some("camera"));
    assert_eq!(configuration.input_path(), Some("DJI_0001.MP4"));
    assert_eq!(configuration.original_codec(), Some("h264"));
    assert_eq!(configuration.converted_codec(), Some("hevc"));
    assert_eq!(configuration.duration(), Some("02:05"));
    job.lut_name = Some("DJI_Osmo_Action_6_D-Log_M_to_Rec.709.cube".to_owned());
    assert_eq!(
        completed_history_row(&camera, &job).columns()[2],
        "DJI_Osmo_Action_6_D-Log_M_to_Rec.709.cube"
    );

    let trim = task(
        "trim",
        &["clip.mp4"],
        settings(ContentMode::Trim, Encoder::X265),
    );
    let trim_configuration = completed_history_row(&trim, &job);
    assert_eq!(
        &trim_configuration.columns()[11..14],
        ["Stream copy", "-", "-"]
    );

    let completed_files =
        selected_task_files(&env, &camera, &vec![configuration], &Vec::new());
    assert_eq!(completed_files.len(), 1);
    assert_eq!(completed_files[0].path, "DJI_0001.mp4");
    assert_eq!(completed_files[0].status, "Completed");
    assert_eq!(completed_files[0].conversion_time, "1.00 min");
    assert_eq!(completed_files[0].codec, "h264 → hevc");
    assert_eq!(completed_files[0].duration, "02:05");

    let queued = task(
        "queued",
        &["waiting.mkv"],
        settings(ContentMode::Tv, Encoder::X265),
    );
    let queued_files = selected_task_files(&env, &queued, &Vec::new(), &Vec::new());
    assert_eq!(queued_files.len(), 1);
    assert_eq!(queued_files[0].status, "Queued");
    assert_eq!(queued_files[0].started_time, "-");
    assert_eq!(queued_files[0].original_size, "-");
}

#[test]
fn completed_task_details_replace_the_source_row_with_the_output_row() {
    let env = surroundings(vec![
        folder("/root", &["episode.mp4", "original/"]),
        folder("/root/original", &["episode.mkv"]),
    ]);
    let task = task(
        "tv-folder",
        &["/root"],
        settings(ContentMode::Tv, Encoder::X265),
    );
    let history = completed_history_row(&task, &job("/root/episode.mkv", "/root/episode.mp4"));

    let files = selected_task_files(&env, &task, &vec![history], &Vec::new());

    assert_eq!(files.len(), 1);
    assert_eq!(files[0].path, "/root/episode.mp4");
    assert_eq!(files[0].title, "episode.mp4");
    assert_eq!(files[0].status, "Completed");
}

#[test]
fn legacy_completed_history_is_included_in_matching_folder_task_details() {
    let env = surroundings(vec![
        folder("/root", &["series/", "archive (x265)/"]),
        folder("/root/series", &["episode-01.mkv", "episode-02.mp4", "original/"]),
        folder("/root/series/original", &["episode-01.mp4"]),
        folder("/root/archive (x265)", &["episode-03.mkv"]),
    ]);
    let mut columns: [String; 19] = std::array::from_fn(|_| "-".to_owned());
    columns[0] = "/root/series/episode-01.mkv".to_owned();
    columns[1] = "TV".to_owned();
    columns[3] = "2026-08-25 22:57:17".to_owned();
    columns[4] = "2026-08-25 23:53:36".to_owned();
    columns[5] = "56.31".to_owned();
    columns[6] = "2025.38 MB".to_owned();
    columns[7] = "693.65 MB".to_owned();
    columns[9] = "25".to_owned();
    columns[10] = "25".to_owned();
    columns[11] = "x265".to_owned();
    columns[12] = "28".to_owned();
    columns[13] = "medium".to_owned();
    let legacy_row = CompletedHistoryRow::new(columns);
    let mut task = task(
        "folder-task",
        &["/root"],
        settings(ContentMode::Tv, Encoder::X265),
    );
    task.source_root = Some("/root".to_owned());
    let watch = WatchedFolder {
        root: "/root".to_owned(),
        settings: task.settings.clone(),
        snapshot: Vec::new(),
    };
    let mut queue = Queue::default();
    queue.add(task.clone()).unwrap();
    let summaries =
        folder_queue_summaries(&env, &vec![watch], &queue, &RunFailures::default());

    let files = selected_task_files(&env, &task, &vec![legacy_row], &Vec::new());

    assert_eq!(files.len(), summaries[0].files);
    assert_eq!(files.len(), 3);
    let found = |path: &str| files.iter().find(|file| file.path == path).unwrap();
    let completed = found("/root/series/episode-01.mkv");
    assert_eq!(completed.status, "Completed");
    assert_eq!(completed.conversion_time, "56.31 min");
    assert_eq!(completed.original_size, "2025.38 MB");
    assert_eq!(found("/root/series/episode-02.mp4").status, "Queued");
    assert_eq!(
        found("/root/archive (x265)/episode-03.mkv").status,
        "Completed"
    );
}

#[test]
fn task_details_default_to_natural_full_path_order() {
    let env = surroundings(Vec::new());
    let task = task(
        "natural-order",
        &[
            "season-10/episode-1.mp4",
            "season-2/episode-10.mp4",
            "season-2/episode-2.mp4",
        ],
        settings(ContentMode::Tv, Encoder::X265),
    );

    let paths: Vec<String> = selected_task_files(&env, &task, &Vec::new(), &Vec::new())
        .into_iter()
        .map(|file| file.path)
        .collect();

    assert_eq!(
        paths,
        [
            "season-2/episode-2.mp4",
            "season-2/episode-10.mp4",
            "season-10/episode-1.mp4",
        ]
    );
}

#[test]
fn failed_task_detail_file_exposes_its_conversion_error() {
    let env = surroundings(Vec::new());
    let task = task(
        "failed-details",
        &["season/episode-02.mkv"],
        settings(ContentMode::Tv, Encoder::X265),
    );
    let failures = vec![FileFailure {
        task_id: "failed-details".to_owned(),
        path: "season/episode-02.mkv".to_owned(),
        error: "muxer rejected the copied audio channel layout".to_owned(),
    }];

    let files = selected_task_files(&env, &task, &Vec::new(), &failures);

    assert_eq!(files.len(), 1);
    assert_eq!(files[0].path, "season/episode-02.mkv");
    assert_eq!(files[0].status, "Failed");
    assert_eq!(
        files[0].error_detail,
        "muxer rejected the copied audio channel layout"
    );
}

fn task_file(path: &str, original_size: &str, duration: &str) -> SlintTaskFileSnapshot {
    SlintTaskFileSnapshot {
        title: path.to_owned(),
        path: path.to_owned(),
        status: "Completed".to_owned(),
        started_time: "-".to_owned(),
        completed_time: "-".to_owned(),
        conversion_time: "-".to_owned(),
        original_size: original_size.to_owned(),
        new_size: "-".to_owned(),
        original_fps: "-".to_owned(),
        new_fps: "-".to_owned(),
        codec: "x265".to_owned(),
        duration: duration.to_owned(),
        error_detail: String::new(),
    }
}

#[test]
fn task_file_numeric_columns_sort_by_value() {
    let files = vec![
        task_file("file-2.mp4", "9.5 MB", "09:30"),
        task_file("file-10.mp4", "100 MB", "01:02:03"),
        task_file("file-20.mp4", "12 MB", "10:00"),
    ];
    let sorted = |column, descending| {
        let numbers: Vec<Option<u64>> = files
            .iter()
            .map(|file| {
                task_file_cell(file, column)
                    .split_whitespace()
                    .next()
                    .and_then(|number| number.parse::<f64>().ok())
                    .map(f64::to_bits)
            })
            .collect();
        sorted_task_files(&files, TaskFileSort { column, descending }, &numbers)
            .into_iter()
            .map(|file| file.path)
            .collect::<Vec<_>>()
    };

    assert_eq!(sorted(5, false), ["file-2.mp4", "file-20.mp4", "file-10.mp4"]);
    assert_eq!(sorted(10, true), ["file-10.mp4", "file-20.mp4", "file-2.mp4"]);
    assert_eq!(task_file_duration_seconds("01:02:03"), Some(3723));
    assert_eq!(task_file_duration_seconds("-"), None);
}

#[test]
fn prepared_requests_discard_stale_lut_paths_before_detection() {
    let mut settings = settings(ContentMode::Tv, Encoder::X265);
    settings.apply_lut = true;
    settings.camera_lut_path = Some("stale.cube".to_owned());

    let prepared = prepare_request(&settings, &LutLookup::UnknownCamera).unwrap();

    assert!(prepared.settings.camera_lut_path.is_none());
}

#[test]
fn camera_luts_are_looked_up_and_prepared() {
    let camera = settings(ContentMode::CameraVideos, Encoder::X265);
    assert!(needs_lut(&camera));
    assert!(!needs_lut(&settings(ContentMode::Tv, Encoder::X265)));
    let found = prepare_request(
        &camera,
        &LutLookup::Found {
            model_name: "DJI".to_owned(),
            path: "/luts/action6.cube".to_owned(),
        },
    )
    .unwrap();
    assert_eq!(
        found.settings.camera_lut_path.as_deref(),
        Some("/luts/action6.cube")
    );
    assert!(prepare_request(
        &camera,
        &LutLookup::Missing {
            lut_name: "action6.cube".to_owned(),
        },
    )
    .is_err());

    let candidates = lut_candidates(
        &LutPlaces {
            override_folder: Some("/mine".to_owned()),
            program_folder: Some("/app/bin".to_owned()),
            asset_folder: "/assets/lut/dji".to_owned(),
            current_folder: None,
        },
        "action6.cube",
    );
    assert_eq!(candidates[0], "/mine/action6.cube");
    assert!(candidates.contains(&"/assets/lut/dji/action6.cube".to_owned()));
    assert!(candidates.contains(&"/app/bin/lut/dji/action6.cube".to_owned()));
}

#[test]
fn ordinary_video_failures_finish_the_task_but_slideshow_or_engine_loss_stops_queue() {
    let missing = EngineError::Unavailable("missing libraries".to_owned());
    assert!(worker_error_is_queue_fatal(ContentMode::Tv, &missing));
    assert!(worker_error_is_queue_fatal(
        ContentMode::PhotoSlideshow,
        &failed("encode error")
    ));
    for error in [
        EngineError::Unsupported("codec".to_owned()),
        EngineError::InvalidMedia("broken input".to_owned()),
        failed("encode error"),
        EngineError::Cancelled,
    ] {
        assert!(!worker_error_is_queue_fatal(ContentMode::Tv, &error));
    }

    for error in [
        EngineError::Unsupported("codec".to_owned()),
        EngineError::InvalidMedia("broken input".to_owned()),
        failed("encode error"),
    ] {
        assert!(worker_error_should_retry(ContentMode::Tv, &error));
        assert!(!worker_error_should_retry(
            ContentMode::PhotoSlideshow,
            &error
        ));
    }
    assert!(!worker_error_should_retry(ContentMode::Tv, &missing));
    let mut control = ConversionControl::new();
    control.stop_current();
    assert_eq!(
        retry_wait_step(Duration::from_secs(5), control.checkpoint()),
        WaitStep::Cancelled
    );

    let (result, attempts, events) = attempts_of(ContentMode::Tv, |attempt| {
        if attempt == 1 {
            Err(failed("first attempt"))
        } else {
            Ok("converted")
        }
    });
    assert_eq!(result, Ok("converted"));
    assert_eq!(attempts, 2);
    assert_eq!(events.len(), 1);

    let (result, attempts, _) =
        attempts_of(ContentMode::PhotoSlideshow, |_| Err(failed("slideshow")));
    assert!(result.is_err());
    assert_eq!(attempts, 1);
}

#[test]
fn sharing_violations_wait_without_consuming_the_ordinary_retry() {
    for message in [
        "[WinError 32] The process cannot access the file",
        "The file is being used by another process",
        "sharing violation while opening input",
    ] {
        assert!(worker_error_is_locked_input(&failed(message)));
    }
    assert!(!worker_error_is_locked_input(&failed("Permission denied")));

    let (result, attempts, _) = attempts_of(ContentMode::Tv, |attempt| {
        if attempt < 4 {
            Err(failed("[WinError 32] source is being used by another process"))
        } else {
            Ok("unlocked")
        }
    });
    assert_eq!(result, Ok("unlocked"));
    assert_eq!(attempts, 4);
}

#[test]
fn errors_speak_and_retries_tell_their_delay() {
    assert_eq!(
        EngineError::Cancelled.message(),
        "conversion cancelled"
    );
    assert_eq!(
        failed("disk full").message(),
        "conversion failed: disk full"
    );
    assert_eq!(
        EngineError::Unavailable("a".to_owned()).message(),
        "media engine unavailable: a"
    );
    assert_eq!(
        EngineError::Unsupported("b".to_owned()).message(),
        "unsupported media: b"
    );
    assert_eq!(
        EngineError::InvalidMedia("c".to_owned()).message(),
        "invalid media: c"
    );
    match run_with_retry(
        ContentMode::Tv,
        1,
        &failed("disk full"),
        Duration::from_secs(5),
    ) {
        RetryDecision::Again {
            warning,
            delay,
            attempt,
        } => {
            assert!(warning.starts_with("Conversion attempt 1 failed: "));
            assert!(warning.ends_with("; retrying in 5 seconds"));
            assert_eq!(delay, Duration::from_secs(5));
            assert_eq!(attempt, 2);
        }
        RetryDecision::GiveUp => panic!("the first failure is tried again"),
    }
    assert_eq!(
        run_with_retry(ContentMode::Tv, 2, &failed("disk full"), Duration::zero()),
        RetryDecision::GiveUp
    );
}

#[test]
fn growing_files_are_waited_for_with_one_warning() {
    let small = FileStamp {
        length: 10,
        modified: Some(1),
    };
    let large = FileStamp {
        length: 20,
        modified: Some(1),
    };
    assert_eq!(
        wait_until_file_stable("/a.mp4", small, small, false),
        StabilityStep::Stable
    );
    assert!(matches!(
        wait_until_file_stable("/a.mp4", small, large, false),
        StabilityStep::Wait { warning: Some(_) }
    ));
    assert_eq!(
        wait_until_file_stable("/a.mp4", small, large, true),
        StabilityStep::Wait { warning: None }
    );
}

fn started(step: NextStep) -> StartOrder {
    match step {
        NextStep::Start(order) => order,
        other => panic!("expected a start, got {other:?}"),
    }
}

fn converted(output: &str) -> WorkerOutcome {
    WorkerOutcome::Converted {
        output: output.to_owned(),
        end_time: "2026-09-01 11:00:00".to_owned(),
    }
}

/// A folder task is worked off file by file, a failed file is passed over, and the run ends.
#[test]
fn a_folder_task_is_worked_off_file_by_file() {
    let before = surroundings(vec![folder("/show", &["e1.mp4", "e2.mp4"])]);
    let half = surroundings(vec![
        folder("/show", &["e1.mkv", "e2.mp4", "original/"]),
        folder("/show/original", &["e1.mp4"]),
    ]);
    let mut board = Board::new();
    assert!(board.add_task(
        "TV - show".to_owned(),
        vec!["/show".to_owned()],
        settings(ContentMode::Tv, Encoder::X265),
        Some("/show".to_owned()),
        "2026-09-01 09:00:00",
    ));
    let id = board.queue.tasks()[0].id.clone();

    let first = started(board.start_queue(&before));
    assert_eq!(first.task_id, id);
    assert_eq!(first.request.input, "/show/e1.mp4");
    assert_eq!(first.request.output, "/show/e1.mkv");
    assert_eq!(board.run_state, QueueRunState::Running);
    assert_eq!(board.queue.tasks()[0].status, QueueStatus::Running);

    let goes_on = board.finish_worker(&converted("/show/e1.mkv"), &HistoryOutcome::Saved, &half);
    assert_eq!(goes_on, Some(true));
    let second = started(board.resume_after_finish(&id, true, &Vec::new(), &half));
    assert_eq!(second.request.input, "/show/e2.mp4");

    let outcome = WorkerOutcome::Stopped(failed("decode error"));
    let goes_on = board.finish_worker(&outcome, &HistoryOutcome::Saved, &half);
    assert_eq!(goes_on, Some(false));
    assert_eq!(board.queue.tasks()[0].status, QueueStatus::Completed);
    assert!(board.queue.tasks()[0].error.is_some());
    assert_eq!(board.failures.paths_of_task(&id), ["/show/e2.mp4"]);
    let mut step = board.resume_after_finish(&id, false, &Vec::new(), &half);
    while step == NextStep::Again {
        step = board.start_next_pending(&half);
    }
    assert_eq!(step, NextStep::Finished);
    assert_eq!(board.run_state, QueueRunState::Idle);
    assert!(!board.completion_notice.is_empty());
    assert_eq!(board.finish_worker(&outcome, &HistoryOutcome::Saved, &half), None);
}

#[test]
fn stopping_leaves_the_interrupted_task_pending() {
    let env = surroundings(vec![folder("/show", &["e1.mp4", "e2.mp4"])]);
    let mut board = Board::new();
    for path in ["/show/e1.mp4", "/show/e2.mp4"] {
        assert!(board.add_task(
            path.to_owned(),
            vec![path.to_owned()],
            settings(ContentMode::Tv, Encoder::X265),
            None,
            "2026-09-01 09:00:00",
        ));
    }
    let order = started(board.start_queue(&env));
    assert!(board.stop_all());
    assert_eq!(board.run_state, QueueRunState::Stopping);
    let cancelled = WorkerOutcome::Stopped(EngineError::Cancelled);
    assert_eq!(
        board.finish_worker(&cancelled, &HistoryOutcome::Saved, &env),
        Some(false)
    );
    assert_eq!(board.run_state, QueueRunState::Idle);
    assert!(board
        .queue
        .tasks()
        .iter()
        .all(|task| task.status == QueueStatus::Pending));
    assert_eq!(
        board.resume_after_finish(&order.task_id, false, &Vec::new(), &env),
        NextStep::Rest
    );
}

#[test]
fn a_scheduled_pause_holds_the_next_file_until_resumed() {
    let env = surroundings(vec![folder("/show", &["e1.mp4", "e2.mp4"])]);
    let after = surroundings(vec![
        folder("/show", &["e1.mkv", "e2.mp4", "original/"]),
        folder("/show/original", &["e1.mp4"]),
    ]);
    let mut queue = Queue::default();
    for (id, path) in [("a", "/show/e1.mp4"), ("b", "/show/e2.mp4")] {
        queue
            .add(task(id, &[path], settings(ContentMode::Tv, Encoder::X265)))
            .unwrap();
    }
    let mut controller = controller(queue, &env);
    let order = started(controller.start_queue(&env));
    assert!(controller.wants_awake());
    controller.pause_after_current();
    assert_eq!(controller.board.run_state, QueueRunState::PauseAfterCurrent);
    controller.pause_after_current();
    assert_eq!(controller.board.run_state, QueueRunState::Running);
    controller.pause_after_current();
    assert_eq!(
        controller.toggle_pause(&env),
        PauseStep::Worker { paused: true }
    );
    assert!(!controller.wants_awake());
    assert_eq!(
        controller.toggle_pause(&env),
        PauseStep::Worker { paused: false }
    );
    let goes_on =
        controller.finish_conversion(&converted("/show/e1.mkv"), &HistoryOutcome::Saved, &after);
    assert!(controller.progress.is_none());
    assert_eq!(goes_on, Some(false));
    assert_eq!(controller.board.run_state, QueueRunState::PausedBetweenFiles);
    assert_eq!(
        controller
            .board
            .resume_after_finish(&order.task_id, false, &Vec::new(), &after),
        NextStep::Rest
    );
    match controller.toggle_pause(&after) {
        PauseStep::Queue(NextStep::Start(order)) => {
            assert_eq!(order.request.input, "/show/e2.mp4");
        }
        other => panic!("expected the next file, got {other:?}"),
    }
}

#[test]
fn tasks_are_moved_removed_and_retried() {
    let env = surroundings(vec![folder("/v", &["a.mp4", "b.mp4", "c.mp4"])]);
    let mut queue = Queue::default();
    for (id, path) in [("a", "/v/a.mp4"), ("b", "/v/b.mp4"), ("c", "/v/c.mp4")] {
        queue
            .add(task(id, &[path], settings(ContentMode::Tv, Encoder::X265)))
            .unwrap();
    }
    queue.set_status("b", QueueStatus::Failed).unwrap();
    let mut controller = controller(queue, &env);
    controller.select_task(0);
    controller.move_selected(1);
    assert_eq!(controller.board.ids(), ["b", "a", "c"]);
    controller.move_selected(-1);
    assert_eq!(controller.board.ids(), ["a", "b", "c"]);
    controller.select_task(1);
    controller.retry_selected(&env);
    assert_eq!(
        controller.board.queue.task("b").unwrap().status,
        QueueStatus::Pending
    );
    assert!(!controller.remove_selected(&env));
    assert_eq!(controller.board.ids(), ["a", "c"]);
    controller.clear_queue();
    assert!(controller.board.ids().is_empty());
}

#[test]
fn targets_of_a_task_are_added_moved_and_removed() {
    let env = surroundings(vec![folder("/v", &["a.mp4", "b.mp4", "note.txt"])]);
    let mut board = Board::new();
    assert!(board.add_task(
        "a".to_owned(),
        vec!["/v/a.mp4".to_owned()],
        settings(ContentMode::Tv, Encoder::X265),
        None,
        "now",
    ));
    let id = board.queue.tasks()[0].id.clone();
    board.add_targets_to_task(
        &id,
        &vec!["/v/note.txt".to_owned(), "/v/b.mp4".to_owned()],
        &env,
    );
    assert_eq!(board.queue.tasks()[0].targets, ["/v/a.mp4", "/v/b.mp4"]);
    board.apply_task_target_action(&id, TaskTargetAction::MoveUp(1), &env);
    assert_eq!(board.queue.tasks()[0].targets, ["/v/b.mp4", "/v/a.mp4"]);
    board.apply_task_target_action(&id, TaskTargetAction::Remove(0), &env);
    assert_eq!(board.queue.tasks()[0].targets, ["/v/a.mp4"]);
}

#[test]
fn watched_folders_bring_in_new_files_once() {
    let before = surroundings(vec![folder("/show", &["e1.mp4"])]);
    let mut queue = Queue::default();
    queue
        .add(task(
            "a",
            &["/show/e1.mp4"],
            settings(ContentMode::Tv, Encoder::X265),
        ))
        .unwrap();
    let mut board = controller(queue, &before).board;
    board.register_folder_watches(
        &vec!["/show".to_owned()],
        &settings(ContentMode::Tv, Encoder::X265),
        &before,
    );
    let after = surroundings(vec![folder("/show", &["e1.mp4", "e2.mp4"])]);
    let added = board.rescan_watched_folders(true, &after);
    assert_eq!(added, 1);
    assert!(board
        .queue
        .tasks()
        .iter()
        .any(|task| task.targets.contains(&"/show/e2.mp4".to_owned())));
    assert_eq!(board.rescan_watched_folders(true, &after), 0);
}

#[test]
fn drafts_become_tasks_on_free_paths() {
    let env = surroundings(vec![folder("/v", &["a.mp4", "b.mp4", "note.txt"])]);
    let mut controller = controller(Queue::default(), &env);
    controller.begin_task_draft(&env.presets);
    controller.add_task_draft_paths(
        &vec!["/v/a.mp4".to_owned(), "/v/note.txt".to_owned(), "/v/b.mp4".to_owned()],
        &env,
    );
    assert_eq!(
        controller.task_draft.as_ref().unwrap().targets,
        ["/v/a.mp4", "/v/b.mp4"]
    );
    assert_eq!(controller.move_task_draft_target(0, 1), Some(1));
    assert_eq!(
        controller.task_draft.as_ref().unwrap().targets,
        ["/v/b.mp4", "/v/a.mp4"]
    );
    assert_eq!(controller.move_task_draft_target(1, -1), Some(0));
    assert!(controller.create_task_from_draft("Mine", &env));
    assert!(controller.task_draft.is_none());
    assert_eq!(controller.board.queue.tasks().len(), 1);
    assert_eq!(controller.board.queue.tasks()[0].name, "Mine");
    assert_eq!(
        controller.board.queue.tasks()[0].targets,
        ["/v/a.mp4", "/v/b.mp4"]
    );

    controller.begin_task_draft(&env.presets);
    controller.add_task_draft_paths(&vec!["/v/a.mp4".to_owned()], &env);
    assert!(controller.task_draft.as_ref().unwrap().targets.is_empty());
    assert!(!controller.create_task_from_draft("Again", &env));
    controller.cancel_task_draft();
    assert!(controller.task_draft.is_none());
}

#[test]
fn history_is_filtered_in_any_case() {
    let camera = task(
        "camera",
        &["/v/Ärger.mp4"],
        settings(ContentMode::CameraVideos, Encoder::X265),
    );
    let rows = vec![
        completed_history_row(&camera, &job("/v/Ärger.mp4", "/v/Ärger.mkv")),
        completed_history_row(&camera, &job("/v/other.mp4", "/v/other.mkv")),
    ];
    assert_eq!(filtered_history(&rows, "").len(), 2);
    assert_eq!(filtered_history(&rows, "äRGER").len(), 1);
    assert_eq!(filtered_history(&rows, "nothing").len(), 0);
}

#[test]
fn opening_and_copying_report_what_happened() {
    let env = surroundings(Vec::new());
    let mut controller = controller(Queue::default(), &env);
    controller.open_history_item("/v/a.mkv", &OpenOutcome::Missing);
    let missing = controller.board.activity.clone();
    assert!(missing.contains("/v/a.mkv"));
    controller.open_history_item("/v/a.mkv", &OpenOutcome::Opened);
    assert_ne!(controller.board.activity, missing);
    controller.reveal_history_item("/v/a.mkv", &OpenOutcome::Failed("no viewer".to_owned()));
    assert!(controller.board.activity.contains("no viewer"));
    controller.report_clipboard_result("Path", Some("no clipboard"));
    assert!(controller.board.activity.contains("no clipboard"));
}

#[test]
fn conversion_events_reach_the_activity() {
    let env = surroundings(Vec::new());
    let mut controller = controller(Queue::default(), &env);
    assert!(!controller
        .handle_conversion_event(ConversionEvent::Warning("slow disk".to_owned())));
    assert!(controller.board.activity.contains("slow disk"));
}

fn picture() -> ConversionPreview {
    ConversionPreview {
        width: 1,
        height: 1,
        rgba: vec![1, 2, 3, 4],
    }
}

/// Two videos, of which the first is being converted.
fn two_videos() -> (SlintController, Surroundings) {
    let env = surroundings(vec![folder("/v", &["a.mp4", "b.mp4"])]);
    let mut queue = Queue::default();
    for (id, path) in [("a", "/v/a.mp4"), ("b", "/v/b.mp4")] {
        queue
            .add(task(id, &[path], settings(ContentMode::Tv, Encoder::X265)))
            .unwrap();
    }
    let mut controller = controller(queue, &env);
    assert!(matches!(controller.start_queue(&env), NextStep::Start(_)));
    (controller, env)
}

#[test]
fn pictures_last_as_long_as_their_conversion() {
    let (mut running, env) = two_videos();
    assert!(running.set_live_preview(true));
    assert!(running.handle_conversion_event(ConversionEvent::Preview(picture())));
    assert_eq!(running.live_preview, Some(picture()));
    assert!(running.set_live_preview(false));
    assert_eq!(running.live_preview, None);

    running.handle_conversion_event(ConversionEvent::Preview(picture()));
    running.take_source_info(
        media("24", Some("h264")),
        StreamCarryInfo {
            audio_tracks: 1,
            audio_channels: Some(2),
            subtitle_tracks: 0,
        },
    );
    let outcome = WorkerOutcome::Skipped {
        reason: "already x265".to_owned(),
    };
    assert_eq!(
        running.finish_conversion(&outcome, &HistoryOutcome::Saved, &env),
        Some(false)
    );
    assert_eq!(running.live_preview, None);
    assert_eq!(running.source, None);
    assert_eq!(running.carried, None);
    assert_eq!(running.camera, CameraRunInfo::default());

    running.handle_conversion_event(ConversionEvent::Preview(picture()));
    let step = running.resume_after_finish("a", false, &Vec::new(), &env);
    assert!(matches!(step, NextStep::Start(_)));
    assert_eq!(running.live_preview, None);
    let mut idle = controller(Queue::default(), &env);
    assert!(!idle.set_live_preview(true));
}

#[test]
fn removing_the_running_task_stops_its_conversion() {
    let (mut controller, env) = two_videos();
    controller.select_task(1);
    assert!(!controller.remove_selected(&env));
    assert_eq!(controller.board.ids(), ["a"]);
    controller.select_task(0);
    assert!(controller.remove_selected(&env));
    assert_eq!(
        controller.board.activity,
        "Removed 1 queue item(s) and stopped the active item"
    );
    assert!(controller.board.worker.is_some());
    let outcome = WorkerOutcome::Stopped(EngineError::Cancelled);
    controller.finish_conversion(&outcome, &HistoryOutcome::Saved, &env);
    assert_eq!(controller.board.activity, "Removed item stopped");
    assert!(controller.board.worker.is_none());
}

#[test]
fn a_processor_limit_reaches_the_running_conversion() {
    let (mut running, env) = two_videos();
    assert_eq!(running.set_cpu_limit(2, 4), LimitStep::Worker);
    running.report_cpu_limit("Medium", None, &env.presets);
    assert_eq!(running.board.activity, "CPU limit set to Medium");
    running.report_cpu_limit("Medium", Some("no access"), &env.presets);
    assert_eq!(
        running.board.activity,
        "CPU limit saved for the next file; live adjustment unavailable: no access"
    );
    assert_eq!(running.set_cpu_limit(2, 4), LimitStep::Nothing);
    assert_eq!(running.set_cpu_limit(4, 4), LimitStep::Nothing);

    let mut idle = controller(Queue::default(), &env);
    assert_eq!(idle.set_cpu_limit(1, 4), LimitStep::Later);
    idle.report_cpu_limit("High", None, &env.presets);
    assert_eq!(idle.board.activity, "CPU limit saved: High");
}

#[test]
fn the_end_of_the_program_stops_the_conversion_and_takes_off_the_sign() {
    let (mut running, env) = two_videos();
    running.indicator.set_converting(true);
    let step = running.shutdown(&env.presets);
    assert!(step.stops_worker);
    assert!(step.clears_sign);
    let again = running.shutdown(&env.presets);
    assert!(!again.clears_sign);
    let mut idle = controller(Queue::default(), &env);
    assert!(!idle.shutdown(&env.presets).stops_worker);
}

#[test]
fn a_wait_ends_when_its_time_is_over_or_it_is_stopped() {
    let (none, short, long) = (
        Duration::zero(),
        Duration::from_millis(40),
        Duration::from_secs(5),
    );
    let slice = Duration::from_millis(100);
    assert_eq!(retry_wait_step(none, ControlDecision::Continue), WaitStep::Done);
    assert_eq!(retry_wait_step(none, ControlDecision::StopAll), WaitStep::Done);
    assert_eq!(retry_wait_step(short, ControlDecision::Continue), WaitStep::Sleep(short));
    assert_eq!(retry_wait_step(slice, ControlDecision::Continue), WaitStep::Sleep(slice));
    assert_eq!(retry_wait_step(long, ControlDecision::Continue), WaitStep::Sleep(slice));
    assert_eq!(retry_wait_step(short, ControlDecision::StopCurrent), WaitStep::Cancelled);
    assert_eq!(retry_wait_step(long, ControlDecision::StopAll), WaitStep::Cancelled);
}

#[test]
fn failures_of_an_earlier_session_come_back_with_the_queue() {
    let env = surroundings(vec![folder("/v", &["a.mp4", "b.mp4"])]);
    let mut failures = RunFailures::default();
    failures.record("a", "/v/a.mp4", "first");
    failures.record("a", "/v/b.mp4", "other");
    failures.record("a", "/v//a.mp4", "second");
    let kept = RunFailures::restored(failures.all());
    assert_eq!(kept, failures);
    assert_eq!(kept.of_task("a").len(), 2);
    assert_eq!(kept.of_task("a")[1].error, "second");

    let mut queue = Queue::default();
    queue
        .add(task("a", &["/v/a.mp4", "/v/b.mp4"], settings(ContentMode::Tv, Encoder::X265)))
        .unwrap();
    let loaded = LoadedQueue {
        queue,
        resume_task_id: None,
        next_id: 2,
    };
    let defaults: Vec<QueueSettings> = ContentMode::all()
        .into_iter()
        .map(|mode| settings(mode, Encoder::X265))
        .collect();
    let restored = SlintController::restore(
        Ok(None),
        defaults.clone(),
        Ok(Some(loaded)),
        kept,
        Ok(Vec::new()),
        0,
        &env,
    );
    assert_eq!(restored.board.failures, failures);

    let fresh =
        SlintController::restore(Ok(None), defaults, Ok(None), failures, Ok(Vec::new()), 0, &env);
    assert_eq!(fresh.board.failures, RunFailures::default());
}

#[test]
fn drafts_tasks_and_audio_take_a_path_once_however_it_is_written() {
    let env = surroundings(vec![folder("/v", &["a.mp4", "b.mp4"])]);
    let mut controller = controller(Queue::default(), &env);
    let twice = vec!["/v/a.mp4".to_owned(), "/v//a.mp4".to_owned()];
    controller.add_task_draft_paths(&twice, &env);
    let draft = controller.task_draft.as_ref().unwrap();
    assert_eq!(draft.targets, ["/v/a.mp4"]);
    assert!(controller.create_task_from_draft("Mine", &env));

    let id = controller.board.queue.tasks()[0].id.clone();
    let more = vec!["/v/./a.mp4".to_owned(), "/v/./b.mp4".to_owned()];
    controller.board.add_targets_to_task(&id, &more, &env);
    assert_eq!(
        controller.board.queue.tasks()[0].targets,
        ["/v/a.mp4", "/v/./b.mp4"]
    );

    controller
        .form
        .add_audio(&vec!["/m/a.mp3".to_owned(), "/m//a.mp3".to_owned()]);
    assert_eq!(controller.form.slideshow_audio_paths, ["/m/a.mp3"]);
}
