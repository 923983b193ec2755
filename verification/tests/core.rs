use videoferry::control::{ControlDecision, ConversionControl};
use videoferry::model::{
    ColorCharacteristics, Container, Encoder, MediaInfo, MediaStream, QueueSettings, StreamKind,
};
use videoferry::output_naming::{conversion_output_path, stabilized_output_path, trim_output_path};
use videoferry::queue::{Queue, QueueError, QueueStatus, QueueTask};
use videoferry::stream_policy::{
    build_stream_plan, AudioStreamAction, PlannedAudioStream, PlannedSubtitleStream, SkippedStream,
    StreamSkipReason, SubtitleStreamAction,
};
use videoferry::time::Duration;

#[test]
fn pause_after_current_activates_at_boundary() {
    let mut control = ConversionControl::new();
    control.pause_after_current();
    assert!(!control.is_paused());
    control.complete_current();
    assert!(control.is_paused());
    control.resume();
    assert_eq!(control.checkpoint(), ControlDecision::Continue);
}

#[test]
fn stop_all_takes_priority() {
    let mut control = ConversionControl::new();
    control.stop_current();
    control.stop_all();
    assert_eq!(control.checkpoint(), ControlDecision::StopAll);
}

#[test]
fn stop_current_is_distinct_from_stopping_the_queue() {
    let mut control = ConversionControl::new();
    control.stop_current();
    assert_eq!(control.checkpoint(), ControlDecision::StopCurrent);
    control.complete_current();
    assert_eq!(control.checkpoint(), ControlDecision::Continue);
}

#[test]
fn preview_can_be_toggled_while_work_is_active() {
    let mut control = ConversionControl::new();
    assert!(!control.preview_enabled());
    control.set_preview_enabled(true);
    assert!(control.preview_enabled());
    control.set_preview_enabled(false);
    assert!(!control.preview_enabled());
}

#[test]
fn cpu_thread_limit_can_change_while_work_is_active() {
    let mut control = ConversionControl::new();
    assert_eq!(control.cpu_thread_limit(), 0);
    control.set_cpu_thread_limit(6);
    assert_eq!(control.cpu_thread_limit(), 6);
    control.set_cpu_thread_limit(0);
    assert_eq!(control.cpu_thread_limit(), 0);
}

#[test]
fn paused_worker_waits_until_it_is_resumed_or_stopped() {
    let mut control = ConversionControl::new();
    assert!(!control.must_wait());
    control.pause();
    assert!(control.must_wait());
    control.set_preview_enabled(true);
    assert!(control.must_wait());
    control.stop_current();
    assert!(!control.must_wait());
    let mut other = ConversionControl::new();
    other.pause();
    other.stop_all();
    assert!(!other.is_paused());
    assert_eq!(other.checkpoint(), ControlDecision::StopAll);
}

#[test]
fn encoder_library_names_round_trip() {
    for encoder in Encoder::all() {
        assert_eq!(
            Encoder::from_library_name(encoder.library_name()),
            Some(encoder)
        );
    }
    assert_eq!(Encoder::from_library_name("unknown_encoder"), None);
    assert_eq!(Encoder::from_library_name("x265"), Some(Encoder::X265));
    assert_eq!(Encoder::from_library_name("x264"), Some(Encoder::X264));
    assert_eq!(Encoder::X265.user_name(), "x265");
    assert_eq!(Encoder::X264.user_name(), "x264");
}

#[test]
fn hardware_encoder_families_are_classified_explicitly() {
    assert!(Encoder::HevcNvenc.is_hevc());
    assert!(Encoder::HevcVideoToolbox.is_hevc());
    assert!(Encoder::Av1Nvenc.is_nvenc());
    assert!(Encoder::Av1VideoToolbox.is_videotoolbox());
    assert!(!Encoder::X265.is_hardware());
    assert!(Encoder::H264VideoToolbox.is_hardware());
}

fn task(id: &str) -> QueueTask {
    QueueTask::new(
        id.to_owned(),
        id.to_owned(),
        vec![format!("{id}.mp4")],
        QueueSettings::default(),
    )
}

fn ids(queue: &Queue) -> Vec<String> {
    queue.tasks().iter().map(|item| item.id.clone()).collect()
}

#[test]
fn queue_reorders_without_losing_tasks() {
    let mut queue = Queue::default();
    queue.add(task("one")).unwrap();
    queue.add(task("two")).unwrap();
    queue.add(task("three")).unwrap();
    queue.move_by("two", -1).unwrap();
    assert_eq!(ids(&queue), ["two", "one", "three"]);

    queue.move_to("three", 0).unwrap();
    assert_eq!(ids(&queue), ["three", "two", "one"]);
}

#[test]
fn queue_rejects_duplicate_ids() {
    let mut queue = Queue::default();
    queue.add(task("one")).unwrap();
    assert_eq!(
        queue.add(task("one")),
        Err(QueueError::DuplicateId("one".to_owned()))
    );
}

#[test]
fn queued_task_settings_can_be_reviewed_in_place() {
    let mut queue = Queue::default();
    queue.add(task("review")).unwrap();
    queue
        .task_mut("review")
        .unwrap()
        .settings
        .slideshow_image_paths
        .push("photo.jpg".to_owned());
    assert_eq!(
        queue.task("review").unwrap().settings.slideshow_image_paths,
        ["photo.jpg"]
    );
}

#[test]
fn queue_can_be_cleared_after_processing() {
    let mut queue = Queue::default();
    queue.add(task("one")).unwrap();
    queue.add(task("two")).unwrap();

    queue.clear();

    assert!(queue.tasks().is_empty());
    assert!(queue.next_pending_id().is_none());
}

#[test]
fn queue_tells_of_unknown_tasks() {
    let mut queue = Queue::default();
    queue.add(task("one")).unwrap();
    let unknown = QueueError::UnknownId("two".to_owned());
    assert_eq!(queue.remove("two"), Err(unknown));
    assert_eq!(
        queue.move_by("two", 1).unwrap_err().message(),
        "queue task id not found: two"
    );
    assert_eq!(
        queue.add(task("one")).unwrap_err().message(),
        "queue task id already exists: one"
    );
    queue.set_status("one", QueueStatus::Running).unwrap();
    assert_eq!(queue.next_pending_id(), None);
    queue.set_error("one", Some("broken".to_owned())).unwrap();
    assert_eq!(queue.task("one").unwrap().error.as_deref(), Some("broken"));
    assert_eq!(queue.remove("one").unwrap().id, "one");
}

#[test]
fn matches_python_trim_output_naming() {
    assert_eq!(
        trim_output_path(
            "episode.mkv",
            Duration::from_secs(65),
            Duration::from_secs(3_661),
        ),
        "episode_000105_010101.mkv"
    );
}

#[test]
fn conversion_replaces_the_source_extension() {
    assert_eq!(
        conversion_output_path("episode.mov", Container::Matroska),
        "episode.mkv"
    );
    assert_eq!(
        conversion_output_path("camera.mkv", Container::Mp4),
        "camera.mp4"
    );
}

#[test]
fn stabilization_keeps_the_source_extension() {
    assert_eq!(stabilized_output_path("clip.mov"), "clip_stabilized.mov");
}

#[test]
fn outputs_without_an_extension_get_the_usual_one() {
    assert_eq!(stabilized_output_path("/clips/clip"), "/clips/clip_stabilized.mp4");
    assert_eq!(
        trim_output_path("clip", Duration::zero(), Duration::from_secs(1)),
        "clip_000000_000001.mkv"
    );
}

fn media(streams: Vec<MediaStream>, duration: Duration) -> MediaInfo {
    MediaInfo {
        path: "source.mkv".to_owned(),
        container_name: "matroska".to_owned(),
        duration: Some(duration),
        file_size: None,
        bit_rate: None,
        width: None,
        height: None,
        frame_rate: None,
        streams,
        metadata: Vec::new(),
    }
}

fn stream(index: usize, kind: StreamKind, codec: Option<&str>) -> MediaStream {
    MediaStream {
        index,
        kind,
        codec_name: codec.map(str::to_owned),
        codec_profile: None,
        codec_level: None,
        bit_depth: None,
        bit_rate: None,
        duration: None,
        frame_count: None,
        frame_rate: None,
        width: None,
        height: None,
        sample_rate: None,
        channels: None,
        language: None,
        is_default: false,
        is_forced: false,
        is_attached_picture: false,
        color: ColorCharacteristics {
            range: None,
            primaries: None,
            transfer: None,
            space: None,
            chroma_location: None,
        },
        metadata: Vec::new(),
    }
}

#[test]
fn copies_valid_audio_and_transcodes_dts_for_matroska() {
    let source = media(
        vec![
            stream(0, StreamKind::Video, Some("h264")),
            stream(1, StreamKind::Audio, Some("aac")),
            stream(3, StreamKind::Audio, Some("dts")),
            stream(4, StreamKind::Audio, Some("unknown")),
        ],
        Duration::from_secs(60),
    );

    let plan = build_stream_plan(&source, Container::Matroska);

    assert_eq!(plan.video_input_index, Some(0));
    assert_eq!(
        plan.audio,
        vec![
            PlannedAudioStream {
                input_index: 1,
                output_ordinal: 0,
                action: AudioStreamAction::Copy,
            },
            PlannedAudioStream {
                input_index: 3,
                output_ordinal: 1,
                action: AudioStreamAction::TranscodeAc3 { bit_rate: 640_000 },
            },
        ]
    );
    assert_eq!(
        plan.skipped,
        vec![SkippedStream {
            input_index: 4,
            kind: StreamKind::Audio,
            reason: StreamSkipReason::UnknownCodec,
        }]
    );
}

#[test]
fn converts_mov_text_and_keeps_other_subtitles_for_matroska() {
    let source = media(
        vec![
            stream(2, StreamKind::Subtitle, Some("mov_text")),
            stream(4, StreamKind::Subtitle, Some("subrip")),
        ],
        Duration::from_secs(60),
    );

    let plan = build_stream_plan(&source, Container::Matroska);

    assert_eq!(
        plan.subtitles,
        vec![
            PlannedSubtitleStream {
                input_index: 2,
                output_ordinal: 0,
                action: SubtitleStreamAction::TranscodeSrt,
            },
            PlannedSubtitleStream {
                input_index: 4,
                output_ordinal: 1,
                action: SubtitleStreamAction::Copy,
            },
        ]
    );
}

#[test]
fn rejects_a_one_frame_subtitle_that_ends_early() {
    let mut sparse = stream(3, StreamKind::Subtitle, Some("subrip"));
    sparse.frame_count = Some(1);
    sparse.duration = Some(Duration::from_millis(4_200));
    let source = media(vec![sparse], Duration::from_millis(2_628_906));

    let plan = build_stream_plan(&source, Container::Matroska);

    assert!(plan.subtitles.is_empty());
    assert_eq!(
        plan.skipped,
        vec![SkippedStream {
            input_index: 3,
            kind: StreamKind::Subtitle,
            reason: StreamSkipReason::SparseSubtitle {
                frame_count: 1,
                duration: Duration::from_millis(4_200),
            },
        }]
    );
}

#[test]
fn marks_text_subtitles_for_mp4_conversion() {
    let source = media(
        vec![stream(2, StreamKind::Subtitle, Some("subrip"))],
        Duration::from_secs(60),
    );

    assert_eq!(
        build_stream_plan(&source, Container::Mp4).subtitles,
        vec![PlannedSubtitleStream {
            input_index: 2,
            output_ordinal: 0,
            action: SubtitleStreamAction::TranscodeMovText,
        }]
    );
}

#[test]
fn ignores_cover_art_when_selecting_the_primary_video() {
    let mut cover = stream(0, StreamKind::Video, Some("mjpeg"));
    cover.is_attached_picture = true;
    let source = media(
        vec![cover, stream(1, StreamKind::Video, Some("hevc"))],
        Duration::from_secs(1),
    );

    assert_eq!(
        build_stream_plan(&source, Container::Matroska).video_input_index,
        Some(1)
    );
}

#[test]
fn matroska_keeps_attachments_but_all_outputs_exclude_data_streams() {
    let source = media(
        vec![
            stream(0, StreamKind::Video, Some("h264")),
            stream(1, StreamKind::Attachment, Some("ttf")),
            stream(2, StreamKind::Data, Some("bin_data")),
        ],
        Duration::from_secs(1),
    );

    assert_eq!(
        build_stream_plan(&source, Container::Matroska).attachments,
        [1]
    );
    assert!(build_stream_plan(&source, Container::Mp4)
        .attachments
        .is_empty());
}
