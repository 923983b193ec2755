use videoferry::board::{Board, QueueRunState};
use videoferry::controller::SlintController;
use videoferry::disk::{Disk, DiskEntry, DiskFolder};
use videoferry::encoding::{quality_guidance, quality_maximum, quality_scale};
use videoferry::failures::RunFailures;
use videoferry::finish::{HistoryOutcome, WorkerOutcome};
use videoferry::form::SettingsForm;
use videoferry::history::CompletedHistoryRow;
use videoferry::media_files::{
    is_stabilized_export, previous_file_name, staging_file_name, temporary_file_process_id,
};
use videoferry::model::{
    ColorCharacteristics, Container, ContentMode, Encoder, FpsPolicy, FrameRate, MediaInfo,
    MediaStream, QueueSettings, StreamKind,
};
use videoferry::output_naming::{stabilized_output_path, trim_output_path};
use videoferry::paths::path_parent;
use videoferry::presets::{Preset, Presets, Surroundings};
use videoferry::progress::ratio_fraction;
use videoferry::publish::{publication_for, JobPlan};
use videoferry::queue::{Queue, QueueStatus, QueueTask};
use videoferry::review::{
    PhotoReviewTab, ReviewDesk, ReviewPhotoTarget, ReviewWorkerRequest, ReviewWorkerResult,
    ReviewedPhotos,
};
use videoferry::run::{NextStep, StartOrder};
use videoferry::stored_queue::{AppPreferences, LoadedQueue};
use videoferry::stream_policy::build_stream_plan;
use videoferry::task_files::selected_task_files;
use videoferry::time::Duration;

fn settings(mode: ContentMode, encoder: Encoder) -> QueueSettings {
    let own_quality = matches!(encoder, Encoder::X264 | Encoder::X265 | Encoder::SvtAv1);
    QueueSettings {
        mode,
        encoder,
        fps: FpsPolicy::Source,
        quality: own_quality.then_some(28),
        speed_preset: (own_quality || encoder.is_nvenc()).then(|| "medium".to_owned()),
        apply_lut: mode == ContentMode::CameraVideos && !encoder.is_hardware(),
        ..QueueSettings::default()
    }
}

fn presets() -> Presets {
    let mut entries = Vec::new();
    for mode in ContentMode::all() {
        for encoder in Encoder::all() {
            let series = mode == ContentMode::Tv || mode == ContentMode::Animation;
            entries.push(Preset {
                mode,
                encoder,
                defaults: settings(mode, encoder),
                container: if series {
                    Container::Matroska
                } else {
                    Container::Mp4
                },
                share_lowest_fps: mode == ContentMode::Tv,
                folder_suffix: None,
            });
        }
    }
    Presets { entries }
}

fn defaults() -> Vec<QueueSettings> {
    ContentMode::all()
        .into_iter()
        .map(|mode| settings(mode, Encoder::X265))
        .collect()
}

fn surroundings(path: &str, names: &[&str]) -> Surroundings {
    Surroundings {
        disk: Disk {
            folders: vec![DiskFolder {
                path: path.to_owned(),
                entries: Some(
                    names
                        .iter()
                        .map(|name| DiskEntry {
                            name: (*name).to_owned(),
                            is_folder: false,
                        })
                        .collect(),
                ),
            }],
            files: Vec::new(),
        },
        presets: presets(),
        marks: Vec::new(),
        now: "2026-09-01 10:00:00".to_owned(),
    }
}

fn task(id: &str, targets: &[&str], settings: QueueSettings) -> QueueTask {
    QueueTask::new(
        id.to_owned(),
        id.to_owned(),
        targets.iter().map(|path| (*path).to_owned()).collect(),
        settings,
    )
}

/// A queue of three videos, each a task of its own.
fn three_videos() -> (SlintController, Surroundings) {
    let env = surroundings("/v", &["a.mp4", "b.mp4", "c.mp4"]);
    let mut queue = Queue::default();
    for (id, path) in [("a", "/v/a.mp4"), ("b", "/v/b.mp4"), ("c", "/v/c.mp4")] {
        queue
            .add(task(id, &[path], settings(ContentMode::Tv, Encoder::X265)))
            .unwrap();
    }
    let loaded = LoadedQueue {
        queue,
        resume_task_id: None,
        next_id: 10,
    };
    let controller = SlintController::restore(
        Ok(None),
        defaults(),
        Ok(Some(loaded)),
        RunFailures::default(),
        Ok(Vec::new()),
        0,
        &env,
    );
    (controller, env)
}

fn started(step: NextStep) -> StartOrder {
    match step {
        NextStep::Start(order) => order,
        other => panic!("expected a start, got {other:?}"),
    }
}

#[test]
fn form_changes_leave_the_queue_alone() {
    let (mut controller, env) = three_videos();
    let before = controller.board.ids();
    controller.set_mode(2, &env.presets);
    controller.set_encoder(1, &env.presets);
    controller.set_quality(21.0_f32.to_bits(), &env.presets);
    controller.set_fps_mode(1, &env.presets);
    controller.set_apply_lut(false, &env.presets);
    assert_eq!(controller.board.ids(), before);
    assert!(controller.history.is_empty());
    assert!(controller.task_draft.is_none());
    assert_eq!(controller.form.mode, ContentMode::CameraVideos);
    assert!(!controller.form.apply_lut);
}

#[test]
fn quality_bands_follow_each_other_without_a_gap() {
    for encoder in Encoder::all() {
        let scale = quality_scale(encoder);
        assert_eq!(scale.minimum, 0);
        assert_eq!(scale.maximum, quality_maximum(encoder));
        if let (Some(first), Some(last)) = (scale.bands.first(), scale.bands.last()) {
            assert_eq!(first.start, 0);
            assert_eq!(last.end, scale.maximum);
        }
        for pair in scale.bands.windows(2) {
            assert_eq!(pair[0].end + 1, pair[1].start);
        }
    }
    let (level, labels) = quality_guidance(Encoder::X265, 28);
    assert_eq!(level, "Balanced");
    assert_eq!(labels[2], "26\u{2013}31\nBalanced");
}

#[test]
fn failures_stay_with_their_task() {
    let mut failures = RunFailures::default();
    failures.record("a", "/v/1.mp4", "first");
    failures.record("b", "/v/1.mp4", "other");
    failures.record("a", "/v/1.mp4", "second");
    assert_eq!(failures.of_task("a").len(), 1);
    assert_eq!(failures.of_task("a")[0].error, "second");
    assert_eq!(failures.of_task("b")[0].error, "other");
    failures.forget_task("a");
    assert!(failures.of_task("a").is_empty());
    assert_eq!(failures.paths_of_task("b"), ["/v/1.mp4"]);
    failures.clear();
    assert!(failures.of_task("b").is_empty());
}

#[test]
fn the_form_gives_back_what_it_shows() {
    let presets = presets();
    for encoder in Encoder::all() {
        for mode in ContentMode::all() {
            let mut shown = settings(mode, encoder);
            shown.stabilize_strength = "Strong".to_owned();
            if mode == ContentMode::Trim {
                shown.trim_start = Some(Duration::from_secs(65));
                shown.trim_end = Some(Duration::from_secs(359_999));
            } else if mode == ContentMode::PhotoSlideshow {
                shown.slideshow_resolution = (3840, 2160);
                shown.slideshow_fps = 24;
            } else {
                let bits = 23.976_f64.to_bits();
                shown.fps = FpsPolicy::Exact(FrameRate::from_bits(bits));
            }
            let mut table = defaults();
            let place = ContentMode::all()
                .iter()
                .position(|other| *other == mode)
                .unwrap();
            table[place] = shown.clone();
            let mut form = SettingsForm::new(AppPreferences::with_defaults(table));
            form.load_settings(&shown);
            assert_eq!(
                form.settings_from_ui(&presets, mode, encoder),
                shown,
                "{mode:?} {encoder:?}"
            );
        }
    }
}

#[test]
fn trim_entries_are_validated_where_they_count() {
    let presets = presets();
    let mut form = SettingsForm::new(AppPreferences::with_defaults(defaults()));
    form.trim_start_text = "00:10".to_owned();
    form.trim_end_text = "00:05".to_owned();
    assert!(form.validated_current_settings(&presets).is_ok());
    form.set_mode(&presets, ContentMode::Trim);
    form.trim_start_text = "00:10".to_owned();
    form.trim_end_text = "00:05".to_owned();
    assert_eq!(
        form.trim_range_from_ui().err().as_deref(),
        Some("Trim end time must be later than or equal to start time")
    );
    form.trim_end_text = "5".to_owned();
    assert!(form
        .validated_current_settings(&presets)
        .is_err_and(|error| error.starts_with("Invalid end time: ")));
    form.trim_start_text = "x".to_owned();
    assert!(form
        .validated_current_settings(&presets)
        .is_err_and(|error| error.starts_with("Invalid start time: ")));
}

#[test]
fn encoders_bring_back_their_quality_and_speed() {
    let presets = presets();
    let mut form = SettingsForm::new(AppPreferences::with_defaults(defaults()));
    form.quality_crf = 19;
    form.speed_preset = "slow".to_owned();
    form.set_encoder(&presets, Encoder::SvtAv1);
    assert_eq!(form.quality_crf, 28);
    form.set_encoder(&presets, Encoder::X265);
    assert_eq!(form.quality_crf, 19);
    assert_eq!(form.speed_preset, "slow");
}

#[test]
fn settled_choices_are_offered_and_stay() {
    let presets = presets();
    let available = vec![Encoder::X264, Encoder::SvtAv1];
    let mut form = SettingsForm::new(AppPreferences::with_defaults(defaults()));
    form.settle(&presets, &available);
    assert!(available.contains(&form.encoder));
    let encoder = form.encoder;
    let quality = form.quality_crf;
    form.settle(&presets, &available);
    assert_eq!(form.encoder, encoder);
    assert_eq!(form.quality_crf, quality);
}

#[test]
fn temporary_names_tell_their_process() {
    for process in [0, 7, u32::MAX] {
        let staged = staging_file_name("episode", process, "task-1", "mkv");
        assert_eq!(temporary_file_process_id(&staged), Some(process));
    }
    assert_eq!(
        previous_file_name("episode.mkv", 7, "task-1"),
        "episode.mkv.videoferry-previous-7-task-1"
    );
}

#[test]
fn a_running_conversion_blocks_the_toolbar() {
    let (mut controller, env) = three_videos();
    let idle = controller.board.toolbar_state(ContentMode::Tv);
    assert!(idle.can_run_queue);
    assert!(idle.can_run_selected);
    started(controller.start_queue(&env));
    let busy = controller.board.toolbar_state(ContentMode::Tv);
    assert!(!busy.can_run_queue);
    assert!(!busy.can_run_selected);
    assert!(!busy.can_clear);
    assert!(!busy.can_review);
}

#[test]
fn progress_grows_with_the_part() {
    let mut last = 0;
    for part in 0..=300 {
        let points = ratio_fraction(part, 300).unwrap();
        assert!(points >= last);
        assert_eq!(points == 10_000, part >= 300);
        last = points;
    }
    assert_eq!(ratio_fraction(5, 0), None);
    assert_eq!(ratio_fraction(u128::MAX, 3), Some(10_000));
}

#[test]
fn the_end_of_a_conversion_changes_one_task() {
    let (mut controller, env) = three_videos();
    let order = started(controller.start_queue(&env));
    assert_eq!(order.task_id, "a");
    let others: Vec<QueueTask> = controller.board.queue.tasks().iter().skip(1).cloned().collect();
    let outcome = WorkerOutcome::Skipped {
        reason: "already encoded".to_owned(),
    };
    assert_eq!(
        controller
            .board
            .finish_worker(&outcome, &HistoryOutcome::Saved, &env),
        Some(false)
    );
    assert!(controller.board.queue.tasks().iter().skip(1).eq(&others));
    assert!(controller.board.worker.is_none());
    assert_eq!(
        controller.board.queue.tasks()[0].skipped_paths,
        ["/v/a.mp4"]
    );
    let next = started(
        controller
            .board
            .resume_after_finish("a", false, &Vec::new(), &env),
    );
    assert_eq!(next.task_id, "b");
}

#[test]
fn pausing_and_going_on_leaves_the_conversion_as_it_was() {
    let (mut controller, env) = three_videos();
    started(controller.start_queue(&env));
    let before = controller.board.queue.tasks().clone();
    assert_eq!(controller.board.toggle_pause(), Some(true));
    assert_eq!(
        controller.board.queue.tasks()[0].status,
        QueueStatus::Paused
    );
    assert_eq!(controller.board.toggle_pause(), Some(false));
    assert_eq!(*controller.board.queue.tasks(), before);
    controller.board.toggle_pause_after_current();
    assert_eq!(controller.board.run_state, QueueRunState::PauseAfterCurrent);
    controller.board.toggle_pause_after_current();
    assert_eq!(controller.board.run_state, QueueRunState::Running);
    controller.board.note_limit_failure("a", "no permission");
    assert_eq!(
        controller.board.activity,
        "Running a; live CPU limit unavailable: no permission"
    );
    let mut idle = Board::new();
    assert_eq!(idle.toggle_pause(), None);
}

#[test]
fn every_pending_task_is_tried_before_the_queue_ends() {
    let (mut controller, mut env) = three_videos();
    env.disk.folders.push(DiskFolder {
        path: "/v/original".to_owned(),
        entries: Some(
            ["a.mp4", "b.mp4"]
                .map(|name| DiskEntry {
                    name: name.to_owned(),
                    is_folder: false,
                })
                .to_vec(),
        ),
    });
    let trim = controller.board.queue.task_mut("c").unwrap();
    trim.settings = settings(ContentMode::Trim, Encoder::X265);
    let mut step = controller.start_queue(&env);
    while step == NextStep::Again {
        step = controller.board.start_next_pending(&env);
    }
    assert_eq!(step, NextStep::Finished);
    let statuses: Vec<QueueStatus> = controller
        .board
        .queue
        .tasks()
        .iter()
        .map(|task| task.status)
        .collect();
    assert_eq!(
        statuses,
        [
            QueueStatus::Completed,
            QueueStatus::Completed,
            QueueStatus::Failed
        ]
    );
    assert_eq!(
        controller.board.queue.tasks()[2].error.as_deref(),
        Some("Trim start is missing.")
    );
}

#[test]
fn new_tasks_get_identifiers_of_their_own() {
    let mut board = Board::new();
    for name in ["one", "two", "three"] {
        assert!(board.add_task(
            name.to_owned(),
            vec![format!("/v/{name}.mp4")],
            settings(ContentMode::Tv, Encoder::X265),
            None,
            "now",
        ));
    }
    let ids = board.ids();
    assert_eq!(ids.len(), 3);
    assert!(ids[0] != ids[1] && ids[1] != ids[2] && ids[0] != ids[2]);
    assert_eq!(board.queue.tasks()[2].queued_time, "now");
}

#[test]
fn review_results_are_used_once_and_old_slides_are_dropped() {
    let slides = task(
        "slides",
        &["/album"],
        settings(ContentMode::PhotoSlideshow, Encoder::X265),
    );
    let photos: Vec<String> = ["/album/1.jpg", "/album/2.jpg", "/album/3.jpg"]
        .map(str::to_owned)
        .to_vec();
    let mut desk = ReviewDesk::new();
    desk.open_photo_review(&slides, &photos, 0);
    desk.review.as_mut().unwrap().show_tab(PhotoReviewTab::Slides);
    let number = match desk.refresh_photo_review_slide_groups(false) {
        Some(ReviewWorkerRequest::SlideGroups { request_id, .. }) => request_id,
        other => panic!("unexpected request: {other:?}"),
    };
    assert!(number > 0);
    let groups = || ReviewWorkerResult::SlideGroups {
        request_id: number,
        result: Ok(photos.iter().map(|photo| vec![photo.clone()]).collect()),
    };
    desk.review.as_mut().unwrap().set_included(0, false);
    desk.accept(groups(), false);
    assert!(desk.review.as_ref().unwrap().slide_groups.is_empty());

    let request = desk.open_photo_viewer("/album/1.jpg".to_owned());
    let viewed = match request {
        ReviewWorkerRequest::Photo { request_id, .. } => request_id,
        other => panic!("unexpected request: {other:?}"),
    };
    assert!(viewed > number);
    let seen = |result| ReviewWorkerResult::Photo {
        request_id: viewed,
        target: ReviewPhotoTarget::Viewer,
        path: "/album/1.jpg".to_owned(),
        result,
    };
    desk.accept(seen(Ok(())), false);
    assert!(desk.viewer.as_ref().unwrap().shown);
    desk.accept(
        seen(Err(videoferry::engine::EngineError::Cancelled)),
        false,
    );
    assert!(desk.viewer.as_ref().unwrap().shown);
    assert!(desk.viewer.as_ref().unwrap().error.is_none());
}

#[test]
fn reviewed_photos_become_those_of_the_task() {
    let mut board = Board::new();
    assert!(board.add_task(
        "slides".to_owned(),
        vec!["/album".to_owned()],
        settings(ContentMode::PhotoSlideshow, Encoder::X265),
        None,
        "now",
    ));
    let id = board.queue.tasks()[0].id.clone();
    board.apply_photo_review(None);
    assert_eq!(board.activity, "Keep at least two photos in the slideshow.");
    board.apply_photo_review(Some(ReviewedPhotos {
        task_id: id,
        selected: vec!["/album/2.jpg".to_owned(), "/album/1.jpg".to_owned()],
        ordered: vec![
            "/album/2.jpg".to_owned(),
            "/album/3.jpg".to_owned(),
            "/album/1.jpg".to_owned(),
        ],
    }));
    let task = &board.queue.tasks()[0];
    assert_eq!(task.name, "Photo slideshow · 2 photos");
    assert_eq!(
        task.settings.slideshow_image_paths,
        ["/album/2.jpg", "/album/1.jpg"]
    );
    assert_eq!(task.settings.slideshow_review_image_paths.len(), 3);
    assert_eq!(board.activity, "Applied slideshow photo review.");
    assert!(board.unsaved);
}

fn stream(index: usize, kind: StreamKind, codec: Option<&str>) -> MediaStream {
    MediaStream {
        index,
        kind,
        codec_name: codec.map(str::to_owned),
        codec_profile: None,
        codec_level: None,
        bit_depth: None,
        bit_rate: None,
        duration: None,
        frame_count: None,
        frame_rate: None,
        width: None,
        height: None,
        sample_rate: None,
        channels: None,
        language: None,
        is_default: false,
        is_forced: false,
        is_attached_picture: false,
        color: ColorCharacteristics {
            range: None,
            primaries: None,
            transfer: None,
            space: None,
            chroma_location: None,
        },
        metadata: Vec::new(),
    }
}

#[test]
fn a_stream_plan_accounts_for_every_stream() {
    let media = MediaInfo {
        path: "a.mkv".to_owned(),
        container_name: "matroska".to_owned(),
        duration: None,
        file_size: None,
        bit_rate: None,
        width: None,
        height: None,
        frame_rate: None,
        streams: vec![
            stream(0, StreamKind::Video, Some("h264")),
            stream(1, StreamKind::Audio, Some("aac")),
            stream(2, StreamKind::Audio, None),
            stream(3, StreamKind::Subtitle, Some("subrip")),
            stream(4, StreamKind::Subtitle, Some("unknown")),
            stream(5, StreamKind::Data, Some("bin_data")),
        ],
        metadata: Vec::new(),
    };
    for container in [Container::Matroska, Container::Mp4] {
        let plan = build_stream_plan(&media, container);
        let skipped = |kind| plan.skipped.iter().filter(|skip| skip.kind == kind).count();
        assert_eq!(plan.audio.len() + skipped(StreamKind::Audio), 2);
        assert_eq!(plan.subtitles.len() + skipped(StreamKind::Subtitle), 2);
        assert_eq!(plan.video_input_index, Some(0));
    }
}

#[test]
fn rows_show_their_first_columns() {
    let columns: [String; 19] = std::array::from_fn(|index| index.to_string());
    let row = CompletedHistoryRow::new(columns);
    assert_eq!(row.columns().len(), 19);
    assert_eq!(row.display_columns().len(), 14);
    assert_eq!(row.display_columns()[13], "13");
    let (controller, env) = three_videos();
    let task = &controller.board.queue.tasks()[0];
    let cells = controller.board.task_table_row(&env, task);
    assert!(cells.iter().any(|cell| cell == "a"));
    assert!(controller.board.folder_summary_rows().is_empty());
}

#[test]
fn derived_files_stand_beside_their_source() {
    for input in ["/v/clip.mp4", "/v/clip", "/v/.hidden", "/v/two.dots.mkv", "clip.mov"] {
        let stabilized = stabilized_output_path(input);
        let trimmed = trim_output_path(input, Duration::from_secs(0), Duration::from_secs(90));
        assert_ne!(stabilized, input);
        assert_ne!(trimmed, input);
        assert_eq!(path_parent(&stabilized), path_parent(input));
        assert_eq!(path_parent(&trimmed), path_parent(input));
        assert!(is_stabilized_export(&stabilized));
    }
    assert!(!is_stabilized_export("/v/clip.mp4"));
    for input in ["", "/", "/v/..", "."] {
        assert!(is_stabilized_export(&stabilized_output_path(input)));
    }
}

#[test]
fn the_places_of_a_publication_differ() {
    for (mode, output) in [
        (ContentMode::Tv, "/v/clip.mkv"),
        (ContentMode::Trim, "/v/clip_cut.mov"),
        (ContentMode::Stabilize, "/v/clip_stabilized.mov"),
    ] {
        let job = JobPlan {
            mode,
            input: "/v/clip.mov".to_owned(),
            output: output.to_owned(),
            task_id: "t".to_owned(),
            temporary: "/tmp/VideoFerry".to_owned(),
            process: 7,
        };
        let plan = publication_for(&job, false, false).unwrap();
        let places = [
            &plan.input,
            &plan.output,
            &plan.staging,
            &plan.backup,
            &plan.previous,
        ];
        for (at, place) in places.iter().enumerate() {
            assert!(!places[at + 1..].contains(place), "{place} stands for two files");
        }
    }
}

#[test]
fn files_are_listed_once_beside_their_history() {
    let env = surroundings("/v", &["a.mp4", "a.mkv", "b.mkv"]);
    let mut listed = task("a", &["/v"], settings(ContentMode::Tv, Encoder::X265));
    listed.skipped_paths = vec!["/v/b.mkv".to_owned(), "/V/B.MKV".to_owned()];
    let mut columns = std::array::from_fn(|_| "-".to_owned());
    columns[0] = "/v/a.mp4".to_owned();
    columns[14] = "a".to_owned();
    columns[15] = "/v/a.mkv".to_owned();
    let row = CompletedHistoryRow::new(columns);
    let files = selected_task_files(&env, &listed, &vec![row], &Vec::new());
    let mut paths: Vec<&str> = files.iter().map(|file| file.path.as_str()).collect();
    paths.sort_unstable();
    assert_eq!(paths, ["/v/a.mp4", "/v/b.mkv"]);
}
