use std::collections::HashMap;

use videoferry::history::{history_from_bytes, CompletedHistoryRow};
use videoferry::model::{ContentMode, Encoder, FpsPolicy, FrameRate, MetadataPolicy, QueueSettings};
use videoferry::publish::ActionOutcome;
use videoferry::queue::{Queue, QueueStatus, QueueTask};
use videoferry::store::{
    app_data_directory, backup_path, first_valid, temporary_path, FileAttempt, StateFile, StateStore,
    StateWrite, SystemFolders, WriteAction, WritePhase, APP_SETTINGS_FILE, COMPLETED_HISTORY_FILE,
    QUEUE_STATE_FILE, STATE_DIRECTORY_NAME,
};
use videoferry::stored::{SettingsFacts, StoredFps, StoredSettings};
use videoferry::stored_queue::{
    load_preferences, load_queue, save_preferences, save_queue, AppPreferences, StoredEntry,
    StoredModeSettings, StoredQueueTask,
};
use videoferry::time::Duration;

/// The files of a disk, by path.
type Files = HashMap<String, Vec<u8>>;

fn settings(mode: ContentMode, encoder: Encoder) -> QueueSettings {
    QueueSettings {
        mode,
        encoder,
        apply_lut: mode == ContentMode::CameraVideos && !encoder.is_hardware(),
        ..QueueSettings::default()
    }
}

fn defaults() -> Vec<QueueSettings> {
    ContentMode::all()
        .into_iter()
        .map(|mode| settings(mode, Encoder::X265))
        .collect()
}

fn facts(stored: &StoredSettings, existing: &[&str]) -> SettingsFacts {
    let (mode, encoder) = stored
        .workflow()
        .unwrap_or((ContentMode::Tv, Encoder::X265));
    let mut defaults = settings(mode, encoder);
    defaults.apply_lut = true;
    SettingsFacts {
        defaults,
        quality_number: stored
            .quality_crf
            .parse::<f32>()
            .ok()
            .map(f32::to_bits),
        existing_files: existing.iter().map(|path| (*path).to_owned()).collect(),
    }
}

fn plain_stored(mode: &str, encoder: &str) -> StoredSettings {
    StoredSettings {
        mode: mode.to_owned(),
        encoder: encoder.to_owned(),
        fps_raw: StoredFps::Absent,
        target_fps: None,
        share_lowest_fps: false,
        quality_crf: "28".to_owned(),
        quality_preset: "medium".to_owned(),
        stabilize_strength: "Balanced".to_owned(),
        trim_start: "00:00".to_owned(),
        trim_end: "00:10".to_owned(),
        apply_lut: None,
        camera_lut_path: None,
        photo_interval: Some(Duration::from_secs(4)),
        slideshow_resolution: "1080p".to_owned(),
        slideshow_width: None,
        slideshow_height: None,
        slideshow_fps: 30,
        slideshow_collage_enabled: false,
        slideshow_audio_paths: Vec::new(),
        slideshow_audio_path: None,
        slideshow_image_paths: Vec::new(),
        slideshow_review_image_paths: Vec::new(),
        metadata: None,
    }
}

fn detailed_settings(root: &str) -> QueueSettings {
    QueueSettings {
        mode: ContentMode::PhotoSlideshow,
        encoder: Encoder::SvtAv1,
        fps: FpsPolicy::Exact(FrameRate::from_bits(23.976_f64.to_bits())),
        quality: Some(32),
        speed_preset: Some("6".to_owned()),
        stabilize_strength: "Strong".to_owned(),
        trim_start: Some(Duration::from_secs(65)),
        trim_end: Some(Duration::from_secs(3723)),
        apply_lut: false,
        camera_lut_path: Some("lut/camera.cube".to_owned()),
        photo_interval: Duration::from_millis(2750),
        slideshow_resolution: (1280, 720),
        slideshow_fps: 24,
        slideshow_collage: true,
        slideshow_audio_paths: vec![format!("{root}/one.flac"), format!("{root}/two.m4a")],
        slideshow_image_paths: vec!["photos/2.jpg".to_owned(), "photos/1.jpg".to_owned()],
        slideshow_review_image_paths: vec!["photos/1.jpg".to_owned(), "photos/2.jpg".to_owned()],
        metadata: MetadataPolicy::Preserve,
        ..QueueSettings::default()
    }
}

#[test]
fn rust_state_files_are_isolated_from_python() {
    assert_eq!(STATE_DIRECTORY_NAME, "VideoFerry");
    assert_ne!(APP_SETTINGS_FILE, "video_converter_settings.json");
    assert_ne!(QUEUE_STATE_FILE, "video_converter_queue.json");
    assert_ne!(
        COMPLETED_HISTORY_FILE,
        "video_converter_completed_history.json"
    );
}

#[test]
fn state_goes_to_the_folder_of_the_system() {
    let mut folders = SystemFolders {
        windows: false,
        local_app_data: Some("C:/Local".to_owned()),
        app_data: Some("C:/Roaming".to_owned()),
        user_profile: Some("C:/Users/me".to_owned()),
        home: Some("/home/me".to_owned()),
        current: "/work".to_owned(),
    };
    assert_eq!(
        app_data_directory(&folders),
        "/home/me/.local/share/VideoFerry"
    );
    folders.windows = true;
    assert_eq!(app_data_directory(&folders), "C:/Local/VideoFerry");
    folders.local_app_data = None;
    assert_eq!(app_data_directory(&folders), "C:/Roaming/VideoFerry");
    folders.app_data = None;
    assert_eq!(app_data_directory(&folders), "C:/Users/me/.videoferry");
    folders.user_profile = None;
    assert_eq!(app_data_directory(&folders), "/work/.videoferry");
}

fn history_row(path: &str, start: &str, new_size: &str) -> CompletedHistoryRow {
    CompletedHistoryRow::new([
        path.to_owned(),
        "TV".to_owned(),
        "-".to_owned(),
        start.to_owned(),
        "2026-08-25 12:01:00".to_owned(),
        "1.00".to_owned(),
        "20.00 MB".to_owned(),
        new_size.to_owned(),
        "1920x1080".to_owned(),
        "30".to_owned(),
        "24".to_owned(),
        "x265".to_owned(),
        "28".to_owned(),
        "medium".to_owned(),
        "task-1".to_owned(),
        "source.mkv".to_owned(),
        "h264".to_owned(),
        "hevc".to_owned(),
        "42:00".to_owned(),
    ])
}

#[test]
fn preferences_round_trip_per_workflow_settings() {
    let mut preferences = AppPreferences::with_defaults(defaults());
    preferences.selected_mode = ContentMode::PhotoSlideshow;
    preferences.prevent_system_sleep = false;
    preferences.settings_by_mode[5] = detailed_settings("/audio");

    let stored = save_preferences(&preferences)
        .into_iter()
        .map(|(mode_name, settings)| {
            let facts = facts(&settings, &["/audio/one.flac", "/audio/two.m4a"]);
            StoredModeSettings {
                mode_name,
                settings,
                facts,
            }
        })
        .collect::<Vec<_>>();
    let restored = load_preferences(defaults(), &stored, preferences.prevent_system_sleep);

    let mut expected = preferences;
    expected.selected_mode = ContentMode::Tv;
    assert_eq!(restored.selected_mode, expected.selected_mode);
    assert_eq!(restored.prevent_system_sleep, expected.prevent_system_sleep);
    assert_eq!(restored.settings_by_mode, expected.settings_by_mode);
}

#[test]
fn stored_decimal_quality_is_rounded_to_a_supported_integer() {
    let mut stored = plain_stored("TV", "x265");
    stored.quality_crf = "31.5".to_owned();

    let facts = facts(&stored, &[]);
    assert_eq!(stored.into_settings(&facts).unwrap().quality, Some(32));
}

#[test]
fn unknown_workflows_and_encoders_are_not_restored() {
    let stored = plain_stored("Movies", "x265");
    let known = facts(&stored, &[]);
    assert!(stored.into_settings(&known).is_none());
    let stored = plain_stored("TV", "h266");
    let known = facts(&stored, &[]);
    assert!(stored.into_settings(&known).is_none());
}

fn entries(queue: &Queue, existing: &[&str]) -> Vec<StoredEntry> {
    save_queue(queue, true)
        .tasks
        .into_iter()
        .map(|task| {
            let facts = facts(task.settings.as_ref().unwrap(), existing);
            StoredEntry { task, facts }
        })
        .collect()
}

#[test]
fn queue_round_trip_normalizes_interrupted_work_and_preserves_order() {
    let mut queue = Queue::default();
    let settings = detailed_settings("/audio");
    let mut running = QueueTask::new(
        "task-7".to_owned(),
        "Running".to_owned(),
        vec!["input-one.mkv".to_owned()],
        settings.clone(),
    );
    running.status = QueueStatus::Running;
    running.source_root = Some("watched-folder".to_owned());
    running.queued_time = "2026-08-25 12:00:00".to_owned();
    queue.add(running).unwrap();
    let mut completed = QueueTask::new(
        "task-9".to_owned(),
        "Completed".to_owned(),
        vec!["input-two.mkv".to_owned()],
        QueueSettings::default(),
    );
    completed.status = QueueStatus::Completed;
    completed.queued_time = "2026-08-25 12:01:00".to_owned();
    completed.complete_time = "2026-08-25 12:02:00".to_owned();
    completed.skipped_paths = vec!["already-x265.mp4".to_owned()];
    queue.add(completed).unwrap();

    let stored = entries(&queue, &["/audio/one.flac", "/audio/two.m4a"]);
    let restored = load_queue(2, true, &stored).expect("load queue");

    assert_eq!(restored.resume_task_id.as_deref(), Some("task-7"));
    assert_eq!(restored.next_id, 10);
    let tasks = restored.queue.tasks();
    assert_eq!(tasks[0].status, QueueStatus::Pending);
    assert_eq!(tasks[0].source_root.as_deref(), Some("watched-folder"));
    assert_eq!(tasks[1].status, QueueStatus::Completed);
    assert_eq!(tasks[0].queued_time, "2026-08-25 12:00:00");
    assert_eq!(tasks[1].queued_time, "2026-08-25 12:01:00");
    assert_eq!(tasks[1].complete_time, "2026-08-25 12:02:00");
    assert_eq!(tasks[0].settings, settings);
    assert_eq!(tasks[1].skipped_paths, ["already-x265.mp4"]);
}

#[test]
fn tasks_come_back_whatever_their_settings() {
    let mut queue = Queue::default();
    for id in ["task-4", "task-18446744073709551615", "mine"] {
        let mut settings = QueueSettings::default();
        settings.slideshow_fps = 0;
        settings.slideshow_audio_paths = vec!["/gone.mp3".to_owned()];
        let mut task = QueueTask::new(
            id.to_owned(),
            format!("Task {id}"),
            vec!["/v/a.mkv".to_owned()],
            settings,
        );
        task.status = QueueStatus::Failed;
        task.error = Some("decode failed".to_owned());
        queue.add(task).unwrap();
    }
    let restored = load_queue(2, false, &entries(&queue, &[])).expect("load queue");
    assert_eq!(restored.next_id, u64::MAX);
    assert_eq!(restored.queue.tasks().len(), 3);
    for (before, after) in queue.tasks().iter().zip(restored.queue.tasks()) {
        assert_eq!(after.id, before.id);
        assert_eq!(after.name, before.name);
        assert_eq!(after.targets, before.targets);
        assert_eq!(after.error, before.error);
        assert_eq!(after.status, QueueStatus::Pending);
        assert!(after.settings.slideshow_audio_paths.is_empty());
    }
}

#[test]
fn other_queue_versions_are_refused() {
    assert_eq!(
        load_queue(3, false, &Vec::new()).err().as_deref(),
        Some("unsupported queue state version 3; expected 2")
    );
}

/// Performs the replacement of a state file, and says whether it worked.
fn run_write(write: &mut StateWrite, bytes: &[u8], files: &mut Files) -> bool {
    while let Some(action) = write.action() {
        let outcome = match action {
            WriteAction::CreateFolder { .. } => ActionOutcome::Yes,
            WriteAction::Write { path } => {
                files.insert(path, bytes.to_vec());
                ActionOutcome::Yes
            }
            WriteAction::Check { path } => {
                if files.contains_key(&path) {
                    ActionOutcome::Yes
                } else {
                    ActionOutcome::No
                }
            }
            WriteAction::Remove { path } => {
                files.remove(&path);
                ActionOutcome::Yes
            }
            WriteAction::Rename { from, to } => {
                let content = files.remove(&from).expect("file to rename");
                files.insert(to, content);
                ActionOutcome::Yes
            }
        };
        for path in write.advance(&outcome) {
            files.remove(&path);
        }
    }
    write.phase == WritePhase::Written
}

fn present(store: &StateStore, name: &str, files: &Files) -> Vec<StateFile> {
    store
        .candidates(name)
        .into_iter()
        .filter_map(|path| {
            let content = files.get(&path).cloned()?;
            Some(StateFile {
                path,
                content: Ok(content),
            })
        })
        .collect()
}

#[test]
fn loader_recovers_last_valid_file_after_interrupted_replacement() {
    let store = StateStore::at("/state".to_owned());
    let mut files = Files::new();
    let bytes = store
        .append_history(history_row("Recover me", "start", "1 MB"), &Vec::new())
        .unwrap();
    let mut write = store.replacement(COMPLETED_HISTORY_FILE, 7);
    assert!(run_write(&mut write, &bytes, &mut files));
    let primary = format!("/state/{COMPLETED_HISTORY_FILE}");
    files.insert(backup_path(&primary), files[&primary].clone());
    files.insert(primary, b"{truncated".to_vec());

    let restored = store
        .load_history(&present(&store, COMPLETED_HISTORY_FILE, &files))
        .expect("recover backup");

    assert_eq!(restored[0].columns()[0], "Recover me");
}

#[test]
fn successful_write_leaves_no_temporary_or_backup_file() {
    let store = StateStore::at("/state".to_owned());
    let mut files = Files::new();
    let mut first = store.replacement(QUEUE_STATE_FILE, 7);
    assert!(run_write(&mut first, b"one", &mut files), "first save");
    let mut second = store.replacement(QUEUE_STATE_FILE, 7);
    assert!(run_write(&mut second, b"two", &mut files), "replacement save");
    let primary = format!("/state/{QUEUE_STATE_FILE}");
    assert_eq!(files[&primary], b"two");
    assert!(!files.contains_key(&temporary_path(&primary, 7)));
    assert!(!files.contains_key(&backup_path(&primary)));
}

#[test]
fn failed_publication_brings_the_old_state_back() {
    let store = StateStore::at("/state".to_owned());
    let mut write = store.replacement(QUEUE_STATE_FILE, 7);
    let mut seen = Vec::new();
    while let Some(action) = write.action() {
        let outcome = match &action {
            WriteAction::Check { path } if path.ends_with(".json") => ActionOutcome::Yes,
            WriteAction::Check { .. } => ActionOutcome::No,
            WriteAction::Rename { from, .. } if from.contains(".tmp.") => {
                ActionOutcome::Failed("disk full".to_owned())
            }
            _ => ActionOutcome::Yes,
        };
        if let WriteAction::Rename { from, to } = &action {
            seen.push((from.clone(), to.clone()));
        }
        let _ = write.advance(&outcome);
    }
    let primary = format!("/state/{QUEUE_STATE_FILE}");
    assert_eq!(write.phase, WritePhase::Refused);
    assert_eq!(seen.last(), Some(&(backup_path(&primary), primary.clone())));
}

#[test]
fn malformed_json_is_reported_without_panicking() {
    let store = StateStore::at("/state".to_owned());
    let files = vec![StateFile {
        path: format!("/state/{COMPLETED_HISTORY_FILE}"),
        content: Ok(b"not json".to_vec()),
    }];
    assert!(store.load_history(&files).is_err());
}

#[test]
fn reads_the_python_version_two_queue_schema() {
    let soundtrack = "/state/soundtrack.m4a".to_owned();
    let missing_soundtrack = "/state/missing.m4a".to_owned();
    let mut settings = plain_stored("Camera videos", "x265");
    settings.slideshow_audio_paths = vec![soundtrack.clone(), missing_soundtrack];
    let facts = facts(&settings, &[&soundtrack]);
    let stored = vec![StoredEntry {
        task: StoredQueueTask {
            name: Some("Python camera task".to_owned()),
            target_paths: vec!["camera/DJI_0001.MP4".to_owned()],
            source_root: None,
            settings: Some(settings),
            queued_time: "2026-08-25 12:00:00".to_owned(),
            task_data_id: Some("python-task-id".to_owned()),
            status: Some("running".to_owned()),
            complete_time: String::new(),
            error: None,
            skipped_paths: Vec::new(),
        },
        facts,
    }];

    let restored = load_queue(2, true, &stored).expect("load queue");
    let task = &restored.queue.tasks()[0];

    assert_eq!(restored.resume_task_id.as_deref(), Some("python-task-id"));
    assert_eq!(task.status, QueueStatus::Pending);
    assert_eq!(task.settings.mode, ContentMode::CameraVideos);
    assert_eq!(task.settings.encoder, Encoder::X265);
    assert_eq!(task.settings.fps, FpsPolicy::Source);
    assert!(task.settings.apply_lut);
    assert_eq!(task.settings.slideshow_audio_paths, [soundtrack]);
    assert_eq!(task.queued_time, "2026-08-25 12:00:00");
    assert!(task.complete_time.is_empty());
}

#[test]
fn python_loader_disables_lut_for_non_camera_or_hardware_tasks() {
    for (mode, encoder) in [("TV", "x265"), ("Camera videos", "hevc_nvenc")] {
        let mut stored = plain_stored(mode, encoder);
        stored.apply_lut = Some(true);
        let facts = facts(&stored, &[]);

        assert!(!stored.into_settings(&facts).unwrap().apply_lut);
    }
}

#[test]
fn saved_software_encoder_names_are_accepted_by_python() {
    let mut queue = Queue::default();
    queue
        .add(QueueTask::new(
            "x265-task".to_owned(),
            "x265".to_owned(),
            vec!["episode.mkv".to_owned()],
            settings(ContentMode::Tv, Encoder::X265),
        ))
        .unwrap();
    queue
        .add(QueueTask::new(
            "x264-task".to_owned(),
            "x264".to_owned(),
            vec!["movie.mp4".to_owned()],
            settings(ContentMode::Tv, Encoder::X264),
        ))
        .unwrap();

    let encoders = save_queue(&queue, false)
        .tasks
        .iter()
        .map(|task| task.settings.as_ref().unwrap().encoder.clone())
        .collect::<Vec<_>>();

    assert_eq!(encoders, ["x265", "x264"]);
}

#[test]
fn history_normalizes_all_python_legacy_row_shapes() {
    let store = StateStore::at("/state".to_owned());
    let rows = r#"[
        ["eleven", "TV", "LUT", "start", "end", "1", "2", "3", "4", "5", "6"],
        ["ten", "TV", "start", "end", "1", "2", "3", "4", "5", "6"],
        ["nine", "TV", "start", "end", "1", "2", "3", "5", "6"],
        ["eight", "start", "end", "1", "2", "3", "5", "6"],
        ["invalid"]
    ]"#;
    let files = vec![StateFile {
        path: format!("/state/{COMPLETED_HISTORY_FILE}"),
        content: Ok(rows.as_bytes().to_vec()),
    }];

    let restored = store.load_history(&files).expect("load legacy history");

    assert_eq!(restored.len(), 4);
    assert_eq!(restored[0].columns()[2], "LUT");
    assert_eq!(restored[1].columns()[2], "-");
    assert_eq!(restored[2].columns()[8], "-");
    assert_eq!(restored[3].columns()[1], "-");
    assert_eq!(restored[3].columns()[8], "-");
    assert_eq!(&restored[0].columns()[11..14], ["-", "-", "-"]);
    assert_eq!(&restored[0].columns()[14..], ["-", "-", "-", "-", "-"]);
}

#[test]
fn history_cells_of_every_kind_are_read() {
    let rows = r#"[
        ["path", "TV", null, true, false, 1.5, 20, {"a": 1}, [1, 2], "5", "6"],
        {"not": "a row"},
        7
    ]"#;
    let restored = history_from_bytes(&rows.as_bytes().to_vec()).expect("rows");
    assert_eq!(restored.len(), 1);
    assert_eq!(
        &restored[0].columns()[..9],
        ["path", "TV", "None", "True", "False", "1.5", "20", r#"{"a":1}"#, "[1,2]"]
    );
}

#[test]
fn history_append_merges_newest_first_and_deduplicates_python_key() {
    let store = StateStore::at("/state".to_owned());
    let mut files = Files::new();
    for (row, label) in [
        (history_row("one.mkv", "start-one", "10.00 MB"), "append first row"),
        (history_row("two.mkv", "start-two", "11.00 MB"), "append second row"),
        (history_row("one.mkv", "start-one", "12.00 MB"), "replace duplicate row"),
    ] {
        let bytes = store
            .append_history(row, &present(&store, COMPLETED_HISTORY_FILE, &files))
            .expect(label);
        let mut write = store.replacement(COMPLETED_HISTORY_FILE, 7);
        assert!(run_write(&mut write, &bytes, &mut files));
    }

    let restored = store
        .load_history(&present(&store, COMPLETED_HISTORY_FILE, &files))
        .expect("load merged history");

    assert_eq!(restored.len(), 2);
    assert_eq!(restored[0].columns()[0], "one.mkv");
    assert_eq!(restored[0].columns()[7], "12.00 MB");
    assert_eq!(restored[1].columns()[0], "two.mkv");
}

#[test]
fn history_clear_persists_an_empty_python_compatible_list() {
    let store = StateStore::at("/state".to_owned());
    let mut files = Files::new();
    let bytes = store
        .append_history(history_row("one.mkv", "start", "10.00 MB"), &Vec::new())
        .expect("append history");
    let mut write = store.replacement(COMPLETED_HISTORY_FILE, 7);
    assert!(run_write(&mut write, &bytes, &mut files));

    let cleared = store.clear_history().expect("clear history");
    let mut write = store.replacement(COMPLETED_HISTORY_FILE, 7);
    assert!(run_write(&mut write, &cleared, &mut files));

    assert!(store
        .load_history(&present(&store, COMPLETED_HISTORY_FILE, &files))
        .expect("load cleared history")
        .is_empty());
    let stored: serde_json::Value =
        serde_json::from_slice(&files[&format!("/state/{COMPLETED_HISTORY_FILE}")]).unwrap();
    assert_eq!(stored, serde_json::Value::Array(Vec::new()));
}

#[test]
fn the_kept_copy_of_a_queue_is_read_where_the_queue_file_cannot_be() {
    let store = StateStore {
        root: "/state".to_owned(),
        legacy_root: None,
    };
    let attempts = |errors: [Option<&str>; 2]| -> Vec<FileAttempt> {
        store
            .candidates(QUEUE_STATE_FILE)
            .into_iter()
            .zip(errors)
            .map(|(path, error)| FileAttempt {
                path,
                error: error.map(str::to_owned),
            })
            .collect()
    };
    assert_eq!(first_valid(&attempts([None, None])), Ok(Some(0)));
    assert_eq!(first_valid(&attempts([Some("malformed"), None])), Ok(Some(1)));
    let lost = attempts([Some("malformed"), Some("cut short")]);
    assert_eq!(
        first_valid(&lost),
        Err(format!("reading {}: cut short", lost[1].path))
    );
    assert_ne!(lost[0].path, lost[1].path);
    assert_eq!(first_valid(&Vec::new()), Ok(None));
}
