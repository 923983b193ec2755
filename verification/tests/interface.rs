use videoferry::board::QueueRunState;
use videoferry::clock::{
    counted_text, format_clock, format_duration, format_ffmpeg_progress_clock, format_resolution,
    format_size_mb, format_trim_time, parse_duration, parse_trim_time, TrimTimeError,
};
use videoferry::controller::{SavedPreferences, SlintController, SlintTaskDraft};
use videoferry::counts::{
    active_item_position, task_progress_segments, task_run_failure_summary, ProgressParts,
    TaskDisplayCounts,
};
use videoferry::disk::{Disk, DiskEntry, DiskFolder};
use videoferry::drafts::task_draft_output_summary;
use videoferry::encoding::{
    encoding_ui_settings_for, explicit_fps, fps_policy, fps_ui_mode, normalized_quality,
    quality_maximum, remember_encoding, speed_help, speed_option_labels, speed_options,
    workflow_shows_encoder, workflow_shows_fps, EncodingUiSettings, FpsUiMode, RememberedEncoding,
};
use videoferry::failures::RunFailures;
use videoferry::form::SettingsForm;
use videoferry::model::{
    Container, ContentMode, ConversionProgress, Encoder, FpsPolicy, FrameRate, MediaInfo,
    ProgressRatio, QueueSettings,
};
use videoferry::panels::WorkerControls;
use videoferry::presets::{Preset, Presets, Surroundings};
use videoferry::progress::{
    active_elapsed, effective_frame_rate, estimated_output_bytes,
    format_carried_audio, format_carried_subtitles, format_frame_progress, format_progress_time,
    fps_policy_status, output_bytes_per_minute, progress_fraction, should_inhibit_sleep,
    target_fps_status, target_fps_status_with_source, StreamCarryInfo,
};
use videoferry::queue::{Queue, QueueStatus, QueueTask};
use videoferry::review::{
    folder_photos, next_review_request, review_request_is_priority, slideshow_review_is_editable, ReviewDesk,
    ReviewOpening, ReviewPhotoTarget, ReviewSlideTarget, ReviewWorkerRequest, ReviewWorkerResult,
};
use videoferry::selection::{
    move_item_to_insertion, update_extended_selection, Modifiers, Selection,
};
use videoferry::settings_rows::slint_settings_snapshot;
use videoferry::snapshot::{announces_completion, refreshes_status, LiveFigures};
use videoferry::stored_queue::{AppPreferences, LoadedQueue};
use videoferry::time::Duration;

fn settings(mode: ContentMode, encoder: Encoder) -> QueueSettings {
    let (quality, speed) = match encoder {
        Encoder::X264 => (24, "medium"),
        Encoder::X265 => (28, "medium"),
        Encoder::SvtAv1 => (32, "6"),
        _ => (28, "p4"),
    };
    QueueSettings {
        mode,
        encoder,
        fps: if mode == ContentMode::Tv {
            FpsPolicy::SharedLowest
        } else {
            FpsPolicy::Source
        },
        quality: Some(quality),
        speed_preset: Some(speed.to_owned()),
        apply_lut: mode == ContentMode::CameraVideos && !encoder.is_hardware(),
        ..QueueSettings::default()
    }
}

fn presets() -> Presets {
    let mut entries = Vec::new();
    for mode in ContentMode::all() {
        for encoder in Encoder::all() {
            let series = mode == ContentMode::Tv || mode == ContentMode::Animation;
            entries.push(Preset {
                mode,
                encoder,
                defaults: settings(mode, encoder),
                container: if series {
                    Container::Matroska
                } else {
                    Container::Mp4
                },
                share_lowest_fps: mode == ContentMode::Tv,
                folder_suffix: series.then(|| format!("({})", encoder.user_name())),
            });
        }
    }
    Presets { entries }
}

fn defaults() -> Vec<QueueSettings> {
    ContentMode::all()
        .into_iter()
        .map(|mode| settings(mode, Encoder::X265))
        .collect()
}

fn folder(path: &str, names: &[&str]) -> DiskFolder {
    DiskFolder {
        path: path.to_owned(),
        entries: Some(
            names
                .iter()
                .map(|name| DiskEntry {
                    name: (*name).to_owned(),
                    is_folder: false,
                })
                .collect(),
        ),
    }
}

fn surroundings(folders: Vec<DiskFolder>) -> Surroundings {
    Surroundings {
        disk: Disk {
            folders,
            files: Vec::new(),
        },
        presets: presets(),
        marks: Vec::new(),
        now: "2026-09-01 10:00:00".to_owned(),
    }
}

fn rate(value: f64) -> FrameRate {
    FrameRate::from_bits(value.to_bits())
}

fn form() -> SettingsForm {
    SettingsForm::new(AppPreferences::with_defaults(defaults()))
}

fn task(id: &str, targets: &[&str], settings: QueueSettings) -> QueueTask {
    QueueTask::new(
        id.to_owned(),
        id.to_owned(),
        targets.iter().map(|path| (*path).to_owned()).collect(),
        settings,
    )
}

fn controller(queue: Queue, env: &Surroundings) -> SlintController {
    let next_id = 1 + queue.tasks().len() as u64;
    let loaded = LoadedQueue {
        queue,
        resume_task_id: None,
        next_id,
    };
    SlintController::restore(
        Ok(None),
        defaults(),
        Ok(Some(loaded)),
        RunFailures::default(),
        Ok(Vec::new()),
        0,
        env,
    )
}

fn figures() -> LiveFigures {
    LiveFigures {
        conversion_fps: None,
        conversion_speed: None,
        reported_fps: None,
        exact_fps: "-".to_owned(),
        written_fps: "-".to_owned(),
        frame_estimate: None,
        spent: Duration::zero(),
        remaining: None,
        cpu_usage: None,
        cpu_limit_summary: String::new(),
        draft_size: None,
    }
}

fn draft(mode: ContentMode, target: &str) -> SlintTaskDraft {
    SlintTaskDraft {
        settings: settings(mode, Encoder::X265),
        targets: vec![target.to_owned()],
    }
}

#[test]
fn task_builder_explains_output_and_original_file_safety() {
    let env = surroundings(vec![folder("/root", &["camera.mp4"])]);

    let summary = task_draft_output_summary(
        &env,
        &draft(ContentMode::CameraVideos, "/root/camera.mp4"),
        Some(13),
    );

    assert!(summary.contains("Output:"));
    assert!(summary.contains("camera.mp4"));
    assert!(summary.contains("the original is moved into an original folder"));
    assert!(summary.contains("Selected source size:"));
}

#[test]
fn task_builder_keeps_specialized_workflow_sources_in_place() {
    let env = surroundings(vec![folder("/root", &["clip.mp4"])]);

    let summary = task_draft_output_summary(
        &env,
        &draft(ContentMode::Stabilize, "/root/clip.mp4"),
        Some(13),
    );

    assert!(summary.contains("clip_stabilized.mp4"));
    assert!(summary.contains("The source remains in place"));
}

#[test]
fn slideshow_review_drag_reorders_at_row_boundaries() {
    let mut photos = vec!["one", "two", "three", "four"];

    assert_eq!(move_item_to_insertion(&mut photos, 0, 3), Some(2));
    assert_eq!(photos, ["two", "three", "one", "four"]);
    assert_eq!(move_item_to_insertion(&mut photos, 3, 1), Some(1));
    assert_eq!(photos, ["two", "four", "three", "one"]);
    assert_eq!(move_item_to_insertion(&mut photos, 8, 0), None);
}

#[test]
fn selected_review_previews_take_priority_over_row_thumbnails() {
    let thumbnail = ReviewWorkerRequest::Photo {
        request_id: 1,
        target: ReviewPhotoTarget::Thumbnail,
        path: "photo.jpg".to_owned(),
        maximum_width: 96,
        maximum_height: 64,
    };
    let selected = ReviewWorkerRequest::Photo {
        request_id: 2,
        target: ReviewPhotoTarget::Review,
        path: "photo.jpg".to_owned(),
        maximum_width: 640,
        maximum_height: 360,
    };
    let slide_thumbnail = ReviewWorkerRequest::SlidePreview {
        request_id: 3,
        target: ReviewSlideTarget::Thumbnail,
        paths: vec!["photo.jpg".to_owned()],
        collage: false,
        width: 128,
        height: 72,
    };
    let selected_slide = ReviewWorkerRequest::SlidePreview {
        request_id: 4,
        target: ReviewSlideTarget::Selected,
        paths: vec!["photo.jpg".to_owned()],
        collage: false,
        width: 640,
        height: 360,
    };

    assert!(!review_request_is_priority(&thumbnail));
    assert!(review_request_is_priority(&selected));
    assert!(!review_request_is_priority(&slide_thumbnail));
    assert!(review_request_is_priority(&selected_slide));
    assert_eq!(next_review_request(&vec![thumbnail, selected]), Some(1));
    assert_eq!(next_review_request(&vec![slide_thumbnail]), Some(0));
    assert_eq!(next_review_request(&Vec::new()), None);
}

#[test]
fn completed_or_partially_converted_slideshow_reviews_are_read_only() {
    let mut task = task(
        "slides",
        &["album"],
        settings(ContentMode::PhotoSlideshow, Encoder::X265),
    );

    assert!(slideshow_review_is_editable(&task, 0));
    task.status = QueueStatus::Failed;
    assert!(slideshow_review_is_editable(&task, 0));
    assert!(!slideshow_review_is_editable(&task, 1));
    task.status = QueueStatus::Completed;
    assert!(!slideshow_review_is_editable(&task, 0));
}

#[test]
fn photo_review_keeps_every_photo_and_ignores_stale_previews() {
    let slides = task(
        "slides",
        &["/album"],
        settings(ContentMode::PhotoSlideshow, Encoder::X265),
    );
    let photos: Vec<String> = ["/album/1.jpg", "/album/2.jpg", "/album/3.jpg"]
        .map(str::to_owned)
        .to_vec();
    let mut desk = ReviewDesk::new();
    assert_eq!(
        desk.open_photo_review(&slides, &photos, 0),
        ReviewOpening::Opened
    );
    let review = desk.review.as_mut().unwrap();
    assert!(review.editable);
    assert!(review.reorder(2, 0));
    assert_eq!(
        review.ordered(),
        ["/album/3.jpg", "/album/1.jpg", "/album/2.jpg"]
    );
    review.set_included(1, false);
    assert_eq!(review.included(), ["/album/3.jpg", "/album/2.jpg"]);
    let applied = review.apply().unwrap();
    assert_eq!(applied.task_id, "slides");
    assert_eq!(applied.selected, ["/album/3.jpg", "/album/2.jpg"]);
    assert_eq!(applied.ordered.len(), 3);

    review.select_photo(0);
    let first = desk.refresh_photo_review_preview().unwrap();
    let stale = match first {
        ReviewWorkerRequest::Photo { request_id, path, .. } => (request_id, path),
        other => panic!("unexpected request: {other:?}"),
    };
    desk.review.as_mut().unwrap().select_photo(1);
    desk.refresh_photo_review_preview().unwrap();
    let late = ReviewWorkerResult::Photo {
        request_id: stale.0,
        target: ReviewPhotoTarget::Review,
        path: stale.1,
        result: Ok(()),
    };
    assert!(!desk.is_current(&late));
    desk.accept(late, false);
    assert!(!desk.review.as_ref().unwrap().preview.shown);

    let video = task("tv", &["/a.mkv"], settings(ContentMode::Tv, Encoder::X265));
    assert_eq!(
        ReviewDesk::new().open_photo_review(&video, &photos, 0),
        ReviewOpening::NotASlideshow
    );
    assert_eq!(
        ReviewDesk::new().open_photo_review(&slides, &Vec::new(), 0),
        ReviewOpening::NoPhotos
    );
    assert_eq!(
        ReviewOpening::NoPhotos.message(),
        Some("No supported photos were found for this slideshow.")
    );
    assert_eq!(ReviewOpening::NotASlideshow.message(), None);

    let env = surroundings(vec![folder("/album", &["2.jpg", "10.jpg", "notes.txt"])]);
    let found = folder_photos(&env.disk, &slides);
    assert_eq!(found, ["/album/2.jpg", "/album/10.jpg"]);
}

#[test]
fn the_share_of_a_task_is_told_with_its_counts() {
    let env = surroundings(vec![folder("/v", &["a.mkv"])]);
    let mut queue = Queue::default();
    queue
        .add(task("a", &["/v/a.mkv"], settings(ContentMode::Tv, Encoder::X265)))
        .unwrap();
    let snapshot = controller(queue, &env).snapshot(&env, &figures());
    assert_eq!(
        snapshot.tasks[0].progress_label(0),
        "0 / 1 completed  ·  0% overall"
    );

    let mut row = snapshot.tasks.into_iter().next().unwrap();
    row.counts.files = 3;
    row.counts.converted = 4;
    row.counts.failed = 2;
    assert_eq!(
        row.progress_label(67),
        "3 / 3 completed  ·  2 failed  ·  67% overall"
    );
}

#[test]
fn figures_are_shown_anew_when_they_are_due_or_another_file_runs() {
    let env = surroundings(vec![folder("/v", &["a.mkv", "b.mkv"])]);
    let mut queue = Queue::default();
    queue
        .add(task("a", &["/v/a.mkv"], settings(ContentMode::Tv, Encoder::X265)))
        .unwrap();
    let mut controller = controller(queue, &env);
    let idle = controller.snapshot(&env, &figures());
    controller.start_selected(&env).unwrap();
    let first = controller.snapshot(&env, &figures());
    assert!(refreshes_status(&first, &idle, false));
    assert!(refreshes_status(&idle, &first, false));
    assert!(refreshes_status(&idle, &idle, false));
    assert!(!refreshes_status(&first, &first, false));
    assert!(refreshes_status(&first, &first, true));

    let mut figures = figures();
    figures.spent = Duration::from_secs(30);
    figures.remaining = Some(Duration::from_secs(90));
    let mut later = controller.snapshot(&env, &figures);
    assert_eq!(later.live_status.spent, "00:30");
    assert_eq!(later.live_status.remaining, "01:30");
    assert_eq!(later.live_status.estimated_total, "02:00");
    assert!(!refreshes_status(&later, &first, false));
    later.keep_status(&first);
    assert_eq!(later, first);

    let mut other = controller.snapshot(&env, &figures);
    other.active_detail = "another file".to_owned();
    assert!(refreshes_status(&other, &first, false));
}

#[test]
fn the_end_of_the_work_is_announced_once() {
    assert!(announces_completion("Queue finished", ""));
    assert!(!announces_completion("Queue finished", "Queue finished"));
    assert!(announces_completion("1 task failed", "Queue finished"));
    assert!(!announces_completion("", "Queue finished"));
    assert!(!announces_completion("", ""));
}

#[test]
fn trim_times_of_a_hundred_hours_are_not_read_back() {
    let longest = Duration::from_secs(359_999);
    assert_eq!(format_trim_time(longest), "99:59:59");
    assert_eq!(parse_trim_time("99:59:59"), Ok(longest));
    assert_eq!(format_trim_time(Duration::from_secs(360_000)), "100:00:00");
    assert_eq!(parse_trim_time("100:00:00"), Err(TrimTimeError::Format));
}

#[test]
fn the_panel_writes_an_exact_rate_in_full() {
    let env = surroundings(vec![folder("/v", &["a.mkv"])]);
    let mut exact = settings(ContentMode::Tv, Encoder::X265);
    exact.fps = FpsPolicy::Exact(rate(23.976_024));
    let mut queue = Queue::default();
    queue.add(task("a", &["/v/a.mkv"], exact)).unwrap();
    let mut controller = controller(queue, &env);
    controller.start_selected(&env).unwrap();
    let mut figures = figures();
    figures.exact_fps = "23.976".to_owned();
    figures.written_fps = "23.976024".to_owned();
    let metrics = controller.show_source_metrics(&env, &figures);
    let target = metrics
        .iter()
        .find(|metric| metric.label == "Target FPS")
        .unwrap();
    assert_eq!(target.value, "23.976024");
    let live = controller.slint_live_status(&figures);
    assert_eq!(live.target_fps, "23.976");
    assert_eq!(live.original_fps, "-");
}

#[test]
fn slideshows_take_no_empty_interval() {
    let env = surroundings(Vec::new());
    let mut controller = controller(Queue::default(), &env);
    controller.set_slideshow_interval(Duration::from_millis(2_500), &env.presets);
    assert_eq!(
        controller.form.photo_interval,
        Duration::from_millis(2_500)
    );
    controller.set_slideshow_interval(Duration::zero(), &env.presets);
    assert_eq!(
        controller.form.photo_interval,
        Duration::from_millis(2_500)
    );
}

#[test]
fn fps_controls_preserve_python_policy_meaning() {
    assert_eq!(fps_ui_mode(FpsPolicy::SharedLowest), FpsUiMode::SharedLowest);
    assert_eq!(fps_ui_mode(FpsPolicy::Source), FpsUiMode::Source);
    assert_eq!(
        fps_ui_mode(FpsPolicy::Exact(rate(23.976))),
        FpsUiMode::Explicit
    );
    assert_eq!(explicit_fps(FpsPolicy::Exact(rate(23.976))), rate(23.976));
    assert_eq!(explicit_fps(FpsPolicy::Source), rate(30.0));
    assert_eq!(
        fps_policy_status(FpsPolicy::SharedLowest, "-"),
        "Shared lowest in folder"
    );
    assert_eq!(fps_policy_status(FpsPolicy::Source, "-"), "Original");
    assert_eq!(
        fps_policy_status(FpsPolicy::Exact(rate(23.976)), &23.976_f64.to_string()),
        "23.976"
    );
    assert_eq!(
        fps_policy(FpsUiMode::Explicit, rate(23.976)),
        FpsPolicy::Exact(rate(23.976))
    );
}

#[test]
fn running_task_settings_keep_the_normal_layout_and_select_its_preset() {
    let mut settings = settings(ContentMode::Animation, Encoder::SvtAv1);
    settings.fps = FpsPolicy::Exact(rate(23.976));
    settings.quality = Some(31);
    settings.speed_preset = Some("10".to_owned());

    let snapshot = slint_settings_snapshot(
        &form(),
        Some(&settings),
        &vec![Encoder::X265, Encoder::SvtAv1],
        true,
        &presets(),
    );

    assert_eq!(snapshot.mode_index, 1);
    assert_eq!(snapshot.encoder_labels[snapshot.encoder_index], "libsvtav1");
    assert!(snapshot.show_encoder);
    assert!(snapshot.show_fps);
    assert!(snapshot.show_explicit_fps);
    assert_eq!(snapshot.quality, 31);
    assert_eq!(snapshot.speed, "10");
    assert_eq!(snapshot.speed_labels[snapshot.speed_index], "10");
}

#[test]
fn quality_guides_are_specific_to_each_software_codec() {
    let available = vec![Encoder::X264, Encoder::X265, Encoder::SvtAv1];
    let shown = |encoder| {
        slint_settings_snapshot(
            &form(),
            Some(&settings(ContentMode::Tv, encoder)),
            &available,
            true,
            &presets(),
        )
    };
    let x264 = shown(Encoder::X264);
    let x265 = shown(Encoder::X265);
    let svt_av1 = shown(Encoder::SvtAv1);

    assert_eq!(x264.quality_maximum, 51);
    assert_eq!(x265.quality_maximum, 51);
    assert_eq!(svt_av1.quality_maximum, 63);
    assert_eq!(x264.quality_minimum, 0);
    assert_eq!(x265.quality_minimum, 0);
    assert_eq!(svt_av1.quality_minimum, 0);
    assert_eq!(x264.quality_step, 1);
    assert_eq!(x265.quality_step, 1);
    assert_eq!(svt_av1.quality_step, 1);
    assert_eq!(x264.quality_level, "Balanced");
    assert_eq!(x265.quality_level, "Balanced");
    assert_eq!(svt_av1.quality_level, "Balanced");
    assert_eq!(x264.quality_guide_labels[2], "23\u{2013}27\nBalanced");
    assert_eq!(x265.quality_guide_labels[2], "26\u{2013}31\nBalanced");
    assert_eq!(svt_av1.quality_guide_labels[2], "28\u{2013}35\nBalanced");
    assert_eq!(normalized_quality(Encoder::X264, 51.4_f32.to_bits()), 51);
    assert_eq!(normalized_quality(Encoder::X265, 21.3_f32.to_bits()), 21);
    assert_eq!(normalized_quality(Encoder::SvtAv1, 35.5_f32.to_bits()), 36);
}

#[test]
fn quality_is_rounded_and_limited_like_a_number() {
    for encoder in Encoder::all() {
        let maximum = f32::from(quality_maximum(encoder));
        for value in [
            -1.0_f32,
            -0.4,
            0.0,
            0.49,
            0.5,
            1.5,
            2.5,
            27.999,
            28.5,
            50.6,
            63.4,
            1.0e9,
            f32::MIN_POSITIVE,
            f32::INFINITY,
            f32::NEG_INFINITY,
        ] {
            let expected = value.round().clamp(0.0, maximum);
            assert_eq!(
                f32::from(normalized_quality(encoder, value.to_bits())),
                expected.abs(),
                "{encoder:?} {value}"
            );
        }
    }
}

#[test]
fn nvidia_preset_labels_explain_the_speed_and_quality_tradeoff() {
    let labels = speed_option_labels(Encoder::H264Nvenc);

    assert_eq!(labels[0], "P1 · Fastest");
    assert_eq!(labels[3], "P4 · Medium (default)");
    assert_eq!(labels[6], "P7 · Highest quality");
    assert_eq!(
        speed_help(Encoder::H264Nvenc),
        "P1 is fastest, P4 is medium, and P7 gives the highest quality."
    );
    assert_eq!(speed_options(Encoder::H264Nvenc).len(), labels.len());
}

#[test]
fn new_task_codec_quality_overrides_the_active_task_display() {
    let env = surroundings(Vec::new());
    let mut queue = Queue::default();
    queue
        .add(task(
            "active",
            &["active.mp4"],
            settings(ContentMode::Tv, Encoder::X265),
        ))
        .unwrap();
    let mut controller = controller(queue, &env);
    controller.form.mode = ContentMode::Tv;
    controller.form.encoder = Encoder::SvtAv1;
    controller.form.quality_crf = 35;
    controller.available_encoders = vec![Encoder::X265, Encoder::SvtAv1];
    controller.board.run_state = QueueRunState::PausedBetweenFiles;

    let active = controller.snapshot(&env, &figures()).settings;
    assert_eq!(active.encoder_labels[active.encoder_index], "x265");

    controller.task_draft = Some(SlintTaskDraft {
        settings: settings(ContentMode::Tv, Encoder::SvtAv1),
        targets: Vec::new(),
    });
    assert!(controller.displayed_task_settings().is_none());
    let editing = controller.snapshot(&env, &figures()).settings;
    assert_eq!(editing.encoder_labels[editing.encoder_index], "libsvtav1");
    assert_eq!(editing.quality, 35);
    assert_eq!(editing.quality_guide_labels[2], "28\u{2013}35\nBalanced");
}

#[test]
fn quality_and_preset_memory_is_independent_per_mode_and_encoder() {
    let first = EncodingUiSettings {
        quality_crf: 21,
        speed_preset: "slow".to_owned(),
    };
    let second = EncodingUiSettings {
        quality_crf: 19,
        speed_preset: "fast".to_owned(),
    };
    let mut remembered: Vec<RememberedEncoding> = Vec::new();
    remember_encoding(&mut remembered, ContentMode::Tv, Encoder::X265, first.clone());
    remember_encoding(&mut remembered, ContentMode::Tv, Encoder::X264, second.clone());

    let asked = |mode, encoder| {
        encoding_ui_settings_for(&remembered, mode, encoder, &settings(mode, encoder))
    };
    assert_eq!(asked(ContentMode::Tv, Encoder::X265), first);
    assert_eq!(asked(ContentMode::Tv, Encoder::X264), second);
    assert_eq!(
        asked(ContentMode::Animation, Encoder::SvtAv1),
        EncodingUiSettings::from_settings(&settings(ContentMode::Animation, Encoder::SvtAv1))
    );
}

#[test]
fn changing_the_workflow_and_back_keeps_its_settings() {
    let presets = presets();
    let mut form = form();
    form.set_encoder(&presets, Encoder::SvtAv1);
    form.quality_crf = 40;
    let before = form.current_settings(&presets);
    form.set_mode(&presets, ContentMode::CameraVideos);
    assert_eq!(form.mode, ContentMode::CameraVideos);
    assert_eq!(form.encoder, Encoder::X265);
    form.set_mode(&presets, ContentMode::Tv);
    assert_eq!(form.current_settings(&presets), before);
}

#[test]
fn progress_size_estimates_match_python_metrics() {
    let progress = ConversionProgress {
        overall: None,
        completed: Duration::from_secs(30),
        total: Some(Duration::from_secs(120)),
        frames: None,
        total_frames: None,
        target_fps: None,
        frames_per_second: None,
        speed: Some(rate(2.0)),
        output_bytes: Some(10 * 1_048_576),
    };

    assert_eq!(estimated_output_bytes(&progress), Some(40 * 1_048_576));
    assert_eq!(output_bytes_per_minute(&progress), Some(20 * 1_048_576));
    assert_eq!(
        format_progress_time(&progress, Some(ContentMode::Tv)),
        "00:00:30.00/02:00"
    );
    assert_eq!(
        format_progress_time(&progress, Some(ContentMode::PhotoSlideshow)),
        "00:30/02:00"
    );

    let unknown_total = ConversionProgress {
        total: None,
        ..progress
    };
    assert_eq!(
        format_progress_time(&unknown_total, Some(ContentMode::CameraVideos)),
        "00:00:30.00/-"
    );
    assert_eq!(format_clock(Duration::from_secs(3_661)), "1:01:01");
    assert_eq!(
        format_ffmpeg_progress_clock(Duration::from_millis(3_661_999)),
        "01:01:01.99"
    );

    let frame_progress = ConversionProgress {
        frames: Some(120),
        ..progress
    };
    // The estimate of the frames is the rate times the whole length.
    let estimate = |settings: &QueueSettings, source: Option<f64>| {
        effective_frame_rate(
            settings.mode,
            settings.fps,
            rate(f64::from(settings.slideshow_fps)),
            source.map(rate),
        )
        .map(|rate| (f64::from_bits(rate.bits) * 120.0).round() as u64)
    };
    let source = settings(ContentMode::CameraVideos, Encoder::X265);
    assert_eq!(
        format_frame_progress(&frame_progress, estimate(&source, Some(30.0))),
        "120/3600"
    );

    let mut explicit = source.clone();
    explicit.fps = FpsPolicy::Exact(rate(23.976));
    assert_eq!(
        format_frame_progress(&frame_progress, estimate(&explicit, Some(30.0))),
        "120/2877"
    );

    let slideshow = settings(ContentMode::PhotoSlideshow, Encoder::X265);
    assert_eq!(
        format_frame_progress(&frame_progress, estimate(&slideshow, None)),
        "120/3600"
    );

    let shared = settings(ContentMode::Tv, Encoder::X265);
    assert_eq!(
        format_frame_progress(&frame_progress, estimate(&shared, Some(30.0))),
        "120/?"
    );

    let resolved_shared = ConversionProgress {
        total_frames: Some(2_997),
        target_fps: Some(rate(24.975)),
        ..frame_progress
    };
    assert_eq!(
        format_frame_progress(&resolved_shared, estimate(&shared, Some(30.0))),
        "120/2997"
    );
    assert_eq!(
        target_fps_status(Some("24.975"), FpsPolicy::SharedLowest, "-"),
        "24.975"
    );
    assert_eq!(
        target_fps_status(None, FpsPolicy::SharedLowest, "-"),
        "Shared lowest in folder"
    );
    assert_eq!(
        target_fps_status_with_source(None, FpsPolicy::Source, "-", Some("29.97")),
        "29.97"
    );
    assert_eq!(
        target_fps_status_with_source(
            None,
            FpsPolicy::Exact(rate(23.976)),
            "23.976",
            Some("29.97")
        ),
        "23.976"
    );

    let no_frames = ConversionProgress {
        frames: None,
        ..frame_progress
    };
    assert_eq!(
        format_frame_progress(&no_frames, estimate(&source, Some(30.0))),
        "-"
    );
    assert_eq!(format_frame_progress(&frame_progress, None), "120/?");
}

#[test]
fn carried_stream_status_reports_tracks_and_audio_channels() {
    let info = StreamCarryInfo {
        audio_tracks: 2,
        audio_channels: Some(8),
        subtitle_tracks: 1,
    };

    assert_eq!(format_carried_audio(Some(info)), "2 tracks, 8 ch");
    assert_eq!(format_carried_subtitles(Some(info)), "1 track");
    assert_eq!(format_carried_audio(None), "-");
    assert_eq!(format_carried_subtitles(None), "-");

    let unknown_channels = StreamCarryInfo {
        audio_tracks: 1,
        audio_channels: None,
        ..StreamCarryInfo::default()
    };
    assert_eq!(format_carried_audio(Some(unknown_channels)), "1 track, ? ch");
    assert_eq!(
        format_carried_audio(Some(StreamCarryInfo::default())),
        "0 tracks"
    );
}

#[test]
fn media_without_streams_carries_none() {
    let media = MediaInfo {
        path: "a.mkv".to_owned(),
        container_name: "matroska".to_owned(),
        duration: None,
        file_size: None,
        bit_rate: None,
        width: None,
        height: None,
        frame_rate: None,
        streams: Vec::new(),
        metadata: Vec::new(),
    };
    let info = StreamCarryInfo::from_media(&media);
    assert_eq!(info.audio_tracks, 0);
    assert_eq!(info.subtitle_tracks, 0);
}

#[test]
fn progress_fraction_and_remaining_match_python_pause_aware_metrics() {
    let quarter_by_frames = ConversionProgress {
        overall: None,
        completed: Duration::from_secs(50),
        total: Some(Duration::from_secs(100)),
        frames: Some(25),
        total_frames: Some(100),
        target_fps: Some(rate(25.0)),
        frames_per_second: Some(rate(10.0)),
        speed: Some(rate(0.4)),
        output_bytes: None,
    };
    assert_eq!(
        progress_fraction(&quarter_by_frames, Some(ContentMode::Tv)),
        Some(2_500)
    );
    assert_eq!(
        progress_fraction(&quarter_by_frames, Some(ContentMode::Stabilize)),
        Some(5_000)
    );
    let second_stabilization_pass = ConversionProgress {
        overall: Some(ProgressRatio {
            completed: 125,
            total: 200,
        }),
        completed: Duration::from_secs(25),
        ..quarter_by_frames
    };
    assert_eq!(
        progress_fraction(&second_stabilization_pass, Some(ContentMode::Stabilize)),
        Some(6_250)
    );
    assert_eq!(
        format_progress_time(&second_stabilization_pass, Some(ContentMode::Stabilize)),
        "00:00:25.00/01:40"
    );
    assert_eq!(
        active_elapsed(
            Duration::from_secs(60),
            Duration::from_secs(10),
            Some(Duration::from_secs(20))
        ),
        Duration::from_secs(30)
    );
    assert_eq!(
        active_elapsed(Duration::from_secs(5), Duration::from_secs(10), None),
        Duration::zero()
    );
}

#[test]
fn task_progress_separates_previous_current_run_and_unfinished_work() {
    let counts = TaskDisplayCounts {
        targets: 0,
        folders: 0,
        files: 10,
        remaining: 6,
        converted: 4,
        failed: 0,
    };
    let share = |part: usize, parts: &ProgressParts| part as f32 / parts.total as f32;
    let current = |parts: &ProgressParts, fraction: f32| {
        if parts.counts_current {
            fraction / parts.total as f32
        } else {
            0.0
        }
    };

    let active = task_progress_segments(&counts, Some(2));
    assert!((share(active.completed_before, &active) - 0.2).abs() < f32::EPSILON);
    assert!((share(active.completed_this_run, &active) - 0.2).abs() < f32::EPSILON);
    assert!((current(&active, 0.5) - 0.05).abs() < f32::EPSILON);

    let not_started_here = task_progress_segments(&counts, None);
    assert!(
        (share(not_started_here.completed_before, &not_started_here) - 0.4).abs() < f32::EPSILON
    );
    assert_eq!(not_started_here.completed_this_run, 0);

    let completed = task_progress_segments(
        &TaskDisplayCounts {
            converted: 10,
            remaining: 0,
            ..counts
        },
        Some(2),
    );
    assert!((share(completed.completed_before, &completed) - 0.2).abs() < f32::EPSILON);
    assert!((share(completed.completed_this_run, &completed) - 0.8).abs() < f32::EPSILON);
    assert!(current(&completed, 1.0).abs() < f32::EPSILON);
}

#[test]
fn aggregate_failure_summary_survives_while_the_next_file_runs() {
    assert_eq!(
        task_run_failure_summary(1).as_deref(),
        Some("1 file failed in this run; conversion is continuing")
    );
    assert_eq!(
        task_run_failure_summary(2).as_deref(),
        Some("2 files failed in this run; conversion is continuing")
    );
    assert_eq!(task_run_failure_summary(0), None);
}

#[test]
fn active_file_position_matches_python_video_and_slideshow_indexing() {
    let none = TaskDisplayCounts {
        targets: 0,
        folders: 0,
        files: 0,
        remaining: 0,
        converted: 0,
        failed: 0,
    };
    let video = task(
        "aggregate",
        &["one.mkv", "two.mkv", "three.mkv"],
        settings(ContentMode::Tv, Encoder::X265),
    );
    let counts = TaskDisplayCounts {
        files: 4,
        converted: 1,
        failed: 1,
        remaining: 2,
        ..none
    };
    assert_eq!(active_item_position(&video, &counts, None), Some((3, 4)));

    let mut slideshow_settings = settings(ContentMode::PhotoSlideshow, Encoder::X265);
    slideshow_settings.slideshow_image_paths =
        (1..=10).map(|index| format!("photo-{index}.jpg")).collect();
    let slideshow = task("slideshow", &["photos"], slideshow_settings);
    assert_eq!(
        active_item_position(&slideshow, &none, None),
        Some((1, 10))
    );
    let halfway = ConversionProgress {
        overall: None,
        completed: Duration::from_secs(50),
        total: Some(Duration::from_secs(100)),
        frames: None,
        total_frames: None,
        target_fps: None,
        frames_per_second: None,
        speed: None,
        output_bytes: None,
    };
    assert_eq!(
        active_item_position(&slideshow, &none, Some(halfway)),
        Some((6, 10))
    );
    let complete = ConversionProgress {
        completed: Duration::from_secs(100),
        ..halfway
    };
    assert_eq!(
        active_item_position(&slideshow, &none, Some(complete)),
        Some((10, 10))
    );
}

#[test]
fn sizes_and_dimensions_are_shown_rounded() {
    assert_eq!(format_size_mb(Some(1_043_334)), "1.00 MB");
    assert_eq!(format_size_mb(None), "-");
    assert_eq!(format_size_mb(Some(0)), "0.00 MB");
    assert_eq!(format_size_mb(Some(1_048_576 * 3 / 2)), "1.50 MB");
    for bytes in [1_u64, 5_242, 5_243, 123_456_789, 9_876_543_210] {
        assert_eq!(
            format_size_mb(Some(bytes)),
            format!("{:.2} MB", bytes as f64 / 1_048_576.0)
        );
    }
    assert_eq!(format_resolution(Some(1920), Some(1080)), "1920x1080");
    assert_eq!(format_resolution(Some(1920), None), "-");
    assert_eq!(counted_text(1, "task"), "1 task");
    assert_eq!(counted_text(2, "task"), "2 tasks");
}

#[test]
fn sleep_prevention_matches_python_running_pause_and_idle_rules() {
    assert!(should_inhibit_sleep(true, true, false));
    assert!(!should_inhibit_sleep(false, true, false));
    assert!(!should_inhibit_sleep(true, false, false));
    assert!(!should_inhibit_sleep(true, true, true));
}

#[test]
fn scheduled_pause_becomes_a_one_shot_pause_between_files() {
    let env = surroundings(Vec::new());
    let mut controller = controller(Queue::default(), &env);
    controller.board.run_state = QueueRunState::PausedBetweenFiles;

    let snapshot = controller.snapshot(&env, &figures());

    assert!(snapshot.is_running);
    assert!(snapshot.is_paused);
    assert!(snapshot.paused_between_files);
    assert!(!snapshot.pause_after_current);
    assert_eq!(snapshot.active_title, "Queue paused");
    assert_eq!(
        controller.board.worker_controls(),
        WorkerControls::BetweenFiles
    );
}

#[test]
fn extended_queue_selection_supports_toggle_and_ranges() {
    let tasks = ["a", "b", "c", "d"].map(str::to_owned).to_vec();
    let mut selection = Selection::new();
    let plain = Modifiers {
        shift: false,
        command: false,
    };

    update_extended_selection(&tasks, "b".to_owned(), plain, &mut selection);
    update_extended_selection(
        &tasks,
        "d".to_owned(),
        Modifiers {
            shift: false,
            command: true,
        },
        &mut selection,
    );
    assert_eq!(selection.selected_in(&tasks), ["b", "d"]);
    assert_eq!(selection.ids.len(), 2);

    update_extended_selection(
        &tasks,
        "a".to_owned(),
        Modifiers {
            shift: true,
            command: false,
        },
        &mut selection,
    );
    assert_eq!(selection.selected_in(&tasks), tasks);
    assert_eq!(selection.primary.as_deref(), Some("a"));
}

#[test]
fn workflow_setting_controls_match_the_python_dialog() {
    assert!(!workflow_shows_encoder(ContentMode::Trim));
    assert!(!workflow_shows_fps(ContentMode::Trim));
    assert!(!workflow_shows_fps(ContentMode::Stabilize));
    assert!(!workflow_shows_fps(ContentMode::PhotoSlideshow));

    for mode in [
        ContentMode::Tv,
        ContentMode::Animation,
        ContentMode::CameraVideos,
    ] {
        assert!(workflow_shows_encoder(mode));
        assert!(workflow_shows_fps(mode));
    }
    assert!(workflow_shows_encoder(ContentMode::Stabilize));
    assert!(workflow_shows_encoder(ContentMode::PhotoSlideshow));
}

#[test]
fn trim_time_entry_matches_python_formats_and_validation() {
    assert_eq!(parse_trim_time("00:00"), Ok(Duration::zero()));
    assert_eq!(parse_trim_time("01:05"), Ok(Duration::from_secs(65)));
    assert_eq!(parse_trim_time("01:02:03"), Ok(Duration::from_secs(3723)));
    assert_eq!(format_trim_time(Duration::from_secs(65)), "01:05");
    assert_eq!(format_trim_time(Duration::from_secs(3723)), "01:02:03");

    for invalid in ["", "1:05", "01:5", "60:00", "00:60", "1", "00:00:00:00"] {
        assert!(parse_trim_time(invalid).is_err(), "accepted {invalid}");
    }
}

#[test]
fn trim_and_stored_times_tell_their_errors() {
    assert_eq!(parse_trim_time(" 01:05\t"), Ok(Duration::from_secs(65)));
    assert_eq!(parse_trim_time("1:05"), Err(TrimTimeError::Format));
    assert_eq!(parse_trim_time("60:00"), Err(TrimTimeError::OutOfRange));
    assert_eq!(TrimTimeError::Format.message(), "use MM:SS or HH:MM:SS");
    assert_eq!(
        TrimTimeError::OutOfRange.message(),
        "minutes and seconds must be between 00 and 59"
    );
    for secs in [0, 59, 60, 3599, 3600, 86_399, 359_999] {
        let duration = Duration::from_secs(secs);
        assert_eq!(parse_trim_time(&format_trim_time(duration)), Ok(duration));
        assert_eq!(parse_duration(&format_duration(duration)), Some(duration));
    }
    assert_eq!(parse_duration("90"), Some(Duration::from_secs(90)));
    assert_eq!(parse_duration("1:60"), None);
    assert_eq!(parse_duration(""), None);
}

#[test]
fn preferences_are_saved_once_until_they_change() {
    let env = surroundings(Vec::new());
    let mut controller = controller(Queue::default(), &env);
    controller.set_prevent_sleep(false, &env.presets);
    assert!(controller.unsaved_preferences);
    controller.note_preferences_saved(None);
    assert!(!controller.unsaved_preferences);
    assert_eq!(
        controller.saved,
        SavedPreferences {
            mode: ContentMode::Tv,
            prevent_sleep: false,
            cpu_limit: 0,
        }
    );
    controller.sync_preferences(&env.presets);
    assert!(!controller.unsaved_preferences);
    controller.set_mode(4, &env.presets);
    assert_eq!(controller.form.mode, ContentMode::Trim);
    assert!(controller.unsaved_preferences);
}

#[test]
fn activity_is_logged_once_and_the_log_stays_bounded() {
    let env = surroundings(Vec::new());
    let mut controller = controller(Queue::default(), &env);
    controller.board.say("first");
    assert!(controller.capture_activity_log("10:00:00"));
    assert!(!controller.capture_activity_log("10:00:01"));
    assert_eq!(controller.activity_log.len(), 1);
    assert!(controller.activity_log[0].contains("first"));
    for index in 0..5_000 {
        controller.board.say(&format!("message {index}"));
        assert!(controller.capture_activity_log("10:00:02"));
    }
    assert!(controller.activity_log.len() < 5_000);
    assert!(controller.activity_log.last().unwrap().contains("message 4999"));
}
