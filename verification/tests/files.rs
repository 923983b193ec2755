use std::collections::HashSet;

use videoferry::disk::{
    collect_photo_files, collect_video_files, directory_has_two_photos, is_photo_path,
    is_video_path, should_skip_queue_source, Disk, DiskEntry, DiskFolder,
};
use videoferry::failures::RunFailures;
use videoferry::media_files::{
    is_skipped_conversion_directory, is_stabilized_export, is_stale_temporary_file,
    temporary_file_process_id,
};
use videoferry::model::{Container, ContentMode, Encoder, QueueSettings};
use videoferry::natural::{key_order, natural_key, sort_by_full_path, sort_photos, Order};
use videoferry::output_naming::conversion_output_path;
use videoferry::paths::{
    path_extension, path_file_name, path_file_stem, path_join, path_parent, path_with_extension,
    path_with_name, plain_path, same_path,
};
use videoferry::presets::{FileMark, FolderMarks, Preset, Presets, Surroundings};
use videoferry::queue::{Queue, QueueStatus, QueueTask};
use videoferry::renaming::{rename_completed_task_directories, rename_message};
use videoferry::summary::{folder_summary_status, FolderQueueSummary};
use videoferry::targets::{
    collect_new_video_task_targets, default_task_name, expanded_task_targets,
    next_slideshow_output_path, queue_admission_occupied_paths, queued_target_set,
    rebuild_slideshow_task_images, remaining_task_inputs, select_trim_source, task_is_aggregate,
    validate_task_targets,
};
use videoferry::counts::task_display_counts;
use videoferry::watch::{
    folder_queue_summaries, restored_folder_watches, roots_of_watches, watched_files, WatchedFolder,
};

/// A disk that holds the files and folders, and the folders above them.
fn disk(files: &[&str], folders: &[&str]) -> Disk {
    let mut disk = Disk {
        folders: Vec::new(),
        files: Vec::new(),
    };
    for path in folders {
        add_folder(&mut disk, path);
    }
    for path in files {
        let (folder, name) = split(path);
        add_folder(&mut disk, folder);
        add_entry(&mut disk, folder, name, false);
    }
    disk
}

fn split(path: &str) -> (&str, &str) {
    match path.rfind('/') {
        Some(0) => ("/", &path[1..]),
        Some(at) => (&path[..at], &path[at + 1..]),
        None => ("", path),
    }
}

fn add_folder(disk: &mut Disk, path: &str) {
    if disk.folders.iter().any(|folder| folder.path == path) {
        return;
    }
    disk.folders.push(DiskFolder {
        path: path.to_owned(),
        entries: Some(Vec::new()),
    });
    if path != "/" && !path.is_empty() {
        let (folder, name) = split(path);
        add_folder(disk, folder);
        add_entry(disk, folder, name, true);
    }
}

fn add_entry(disk: &mut Disk, folder: &str, name: &str, is_folder: bool) {
    let listed = disk
        .folders
        .iter_mut()
        .find(|entry| entry.path == folder)
        .unwrap();
    listed.entries.as_mut().unwrap().push(DiskEntry {
        name: name.to_owned(),
        is_folder,
    });
}

fn settings(mode: ContentMode, encoder: Encoder) -> QueueSettings {
    QueueSettings {
        mode,
        encoder,
        apply_lut: mode == ContentMode::CameraVideos && !encoder.is_hardware(),
        ..QueueSettings::default()
    }
}

fn presets() -> Presets {
    let mut entries = Vec::new();
    for mode in ContentMode::all() {
        for encoder in Encoder::all() {
            let series = mode == ContentMode::Tv || mode == ContentMode::Animation;
            entries.push(Preset {
                mode,
                encoder,
                defaults: settings(mode, encoder),
                container: if series {
                    Container::Matroska
                } else {
                    Container::Mp4
                },
                share_lowest_fps: mode == ContentMode::Tv,
                folder_suffix: series.then(|| format!("({})", encoder.user_name())),
            });
        }
    }
    Presets { entries }
}

fn surroundings(disk: Disk) -> Surroundings {
    Surroundings {
        disk,
        presets: presets(),
        marks: Vec::new(),
        now: "2026-09-01 10:00:00".to_owned(),
    }
}

fn owned(paths: &[&str]) -> Vec<String> {
    paths.iter().map(|path| (*path).to_owned()).collect()
}

fn task(id: &str, targets: &[&str], settings: QueueSettings) -> QueueTask {
    QueueTask::new(id.to_owned(), id.to_owned(), owned(targets), settings)
}

fn watch(root: &str, settings: QueueSettings) -> WatchedFolder {
    WatchedFolder {
        root: root.to_owned(),
        settings,
        snapshot: Vec::new(),
    }
}

fn summary(
    disk: Disk,
    watch: WatchedFolder,
    queue: &Queue,
    failures: &RunFailures,
) -> FolderQueueSummary {
    let mut summaries = folder_queue_summaries(&surroundings(disk), &vec![watch], queue, failures);
    assert_eq!(summaries.len(), 1);
    summaries.remove(0)
}

#[test]
fn detects_python_style_stabilized_exports() {
    assert!(is_stabilized_export("clip_stabilized.mp4"));
    assert!(is_stabilized_export("clip_stabilized_2.mp4"));
    assert!(!is_stabilized_export("clip_stabilized_final.mp4"));
}

#[test]
fn slideshow_output_starts_with_the_python_default_name() {
    let path = next_slideshow_output_path(&disk(&[], &[]), "missing-photo-directory");
    assert_eq!(path.as_deref(), Some("slideshow.mp4"));
}

#[test]
fn slideshow_output_counts_past_the_names_that_are_taken() {
    let seen = disk(
        &["/photos/slideshow.mp4", "/photos/slideshow_1.mp4", "/photos/one.jpg"],
        &["/photos/album"],
    );
    assert_eq!(
        next_slideshow_output_path(&seen, "/photos/one.jpg").as_deref(),
        Some("/photos/slideshow_2.mp4")
    );
    assert_eq!(
        next_slideshow_output_path(&seen, "/photos/album").as_deref(),
        Some("/photos/album/slideshow.mp4")
    );
}

#[test]
fn review_uses_python_style_natural_photo_order() {
    let paths = sort_photos(&owned(&["album/photo10.jpg", "album/photo2.jpg"]));
    assert_eq!(paths[0], "album/photo2.jpg");
}

#[test]
fn natural_order_compares_numbers_by_value_and_text_by_case() {
    assert_eq!(
        key_order(&natural_key("Episode 2"), &natural_key("episode 10")),
        Order::Less
    );
    assert_eq!(
        key_order(&natural_key("episode 10"), &natural_key("Episode 10")),
        Order::Same
    );
    assert_eq!(
        key_order(&natural_key("b1"), &natural_key("a2")),
        Order::More
    );
    let mut sorted = sort_by_full_path(&owned(&["/b/2.mp4", "/a/10.mp4", "/a/9.mp4"]));
    assert_eq!(sorted, ["/a/9.mp4", "/a/10.mp4", "/b/2.mp4"]);
    sorted.reverse();
    assert_eq!(
        sort_by_full_path(&sorted),
        ["/a/9.mp4", "/a/10.mp4", "/b/2.mp4"]
    );
    // Letters beyond ASCII are folded too.
    assert_eq!(
        key_order(&natural_key("ÉTÉ 1"), &natural_key("été 2")),
        Order::Less
    );
}

#[test]
fn paths_are_taken_apart_and_joined() {
    assert_eq!(path_file_name("/a/b.tar.gz").as_deref(), Some("b.tar.gz"));
    assert_eq!(path_file_stem("/a/b.tar.gz").as_deref(), Some("b.tar"));
    assert_eq!(path_extension("/a/b.tar.gz").as_deref(), Some("gz"));
    assert_eq!(path_extension("/a/.hidden"), None);
    assert_eq!(path_file_stem("/a/.hidden").as_deref(), Some(".hidden"));
    assert_eq!(path_parent("/a/b.mp4").as_deref(), Some("/a"));
    assert_eq!(path_parent("b.mp4").as_deref(), Some(""));
    assert_eq!(path_join("/a", "b.mp4"), "/a/b.mp4");
    assert_eq!(path_join("/a", "/c/b.mp4"), "/c/b.mp4");
    assert_eq!(path_with_extension("/a/b.mov", "mkv"), "/a/b.mkv");
    assert_eq!(
        path_parent(&path_join("/a/b", "c.mp4")).as_deref(),
        Some("/a/b")
    );
}

#[test]
fn editing_slideshow_targets_invalidates_and_rebuilds_review_order() {
    let seen = disk(&["/root/photo2.jpg", "/root/photo10.jpg"], &[]);
    let mut settings = settings(ContentMode::PhotoSlideshow, Encoder::X265);
    settings.slideshow_image_paths = owned(&["/root/photo10.jpg"]);
    settings.slideshow_review_image_paths = owned(&["/root/photo10.jpg"]);
    let mut task = task("slides", &["/root"], settings);

    rebuild_slideshow_task_images(&seen, &mut task);

    assert_eq!(
        task.settings.slideshow_image_paths,
        ["/root/photo2.jpg", "/root/photo10.jpg"]
    );
    assert_eq!(
        task.settings.slideshow_review_image_paths,
        task.settings.slideshow_image_paths
    );
}

#[test]
fn restored_python_folder_target_remains_an_aggregate_watched_task() {
    let seen = disk(&[], &["/root"]);
    let mut queue = Queue::default();
    queue
        .add(task(
            "folder",
            &["/root"],
            settings(ContentMode::Tv, Encoder::X265),
        ))
        .unwrap();

    let watches = restored_folder_watches(&seen, &queue);

    assert_eq!(watches.len(), 1);
    assert_eq!(watches[0].root, "/root");
    assert_eq!(queue.tasks().len(), 1);
    assert!(seen.is_dir(&queue.tasks()[0].targets[0]));
    assert!(task_is_aggregate(&seen, &queue.tasks()[0]));
}

#[test]
fn restored_slideshow_folder_keeps_a_photo_aware_watch() {
    let seen = disk(
        &["/root/photo1.jpg", "/root/photo2.png", "/root/ignore.mp4"],
        &[],
    );
    let settings = settings(ContentMode::PhotoSlideshow, Encoder::X265);
    let mut queue = Queue::default();
    queue
        .add(task("slides", &["/root"], settings.clone()))
        .unwrap();

    let watches = restored_folder_watches(&seen, &queue);
    let snapshot = watched_files(&seen, "/root", settings.mode);

    assert_eq!(watches.len(), 1);
    assert_eq!(watches[0].root, "/root");
    assert_eq!(watches[0].settings.mode, ContentMode::PhotoSlideshow);
    assert_eq!(snapshot.len(), 2);
    assert!(snapshot.iter().all(|path| matches!(
        path_extension(path).as_deref(),
        Some("jpg" | "png")
    )));
}

#[test]
fn a_folder_is_judged_by_the_files_of_its_workflow() {
    let seen = disk(&["/root/b.png", "/root/a.mp4", "/root/10.jpg", "/root/2.jpg"], &[]);
    assert_eq!(
        watched_files(&seen, "/root", ContentMode::PhotoSlideshow),
        ["/root/2.jpg", "/root/10.jpg", "/root/b.png"]
    );
    assert_eq!(watched_files(&seen, "/root", ContentMode::Tv), ["/root/a.mp4"]);
    assert_eq!(watched_files(&seen, "/root/", ContentMode::Trim), ["/root/a.mp4"]);
    assert!(watched_files(&seen, "/elsewhere", ContentMode::Tv).is_empty());

    let mut env = surroundings(seen);
    env.marks.push(FolderMarks {
        root: "/root".to_owned(),
        marks: vec![FileMark {
            path: "a.mp4".to_owned(),
            size: 3,
            modified: Some(1),
        }],
    });
    assert_eq!(env.folder_snapshot("/root").len(), 1);
    assert_eq!(env.folder_snapshot("/root//").len(), 1);
    assert!(env.folder_snapshot("/elsewhere").is_empty());
}

#[test]
fn slashes_and_dots_that_name_nothing_are_read_past() {
    for path in ["dir/clip.mov", "dir/clip.mov/", "dir//clip.mov", "dir/./clip.mov", "dir/clip.mov/."] {
        assert_eq!(path_file_name(path).as_deref(), Some("clip.mov"), "{path}");
        assert_eq!(path_file_stem(path).as_deref(), Some("clip"), "{path}");
        assert_eq!(path_extension(path).as_deref(), Some("mov"), "{path}");
        assert_eq!(path_parent(path).as_deref(), Some("dir"), "{path}");
        assert_eq!(path_with_name(path, "x"), "dir/x", "{path}");
        assert_eq!(plain_path(path), "dir/clip.mov", "{path}");
        assert!(same_path(path, "dir/clip.mov"), "{path}");
    }
    assert_eq!(path_with_extension("dir/clip.mov/", "mkv"), "dir/clip.mkv");
    assert_eq!(path_with_extension("dir//clip.mov", "mkv"), "dir//clip.mkv");
    assert_eq!(path_with_extension("dir//clip.mkv", "mkv"), "dir//clip.mkv");
    assert_eq!(path_with_extension("dir/clip.mov", ""), "dir/clip");
    assert_eq!(path_with_extension("..", "mkv"), "..");
    assert_eq!(conversion_output_path("dir/clip.mov/", Container::Matroska), "dir/clip.mkv");

    assert_eq!(path_file_name("/"), None);
    assert_eq!(path_file_name("a/.."), None);
    assert_eq!(path_parent("/"), None);
    assert_eq!(path_parent("//"), None);
    assert_eq!(path_parent(""), None);
    assert_eq!(path_parent("/a").as_deref(), Some("/"));
    assert_eq!(path_parent("//a/").as_deref(), Some("/"));
    assert_eq!(path_parent("./a").as_deref(), Some("."));
    assert_eq!(path_parent(".").as_deref(), Some(""));
    assert_eq!(path_parent("a/..").as_deref(), Some("a"));
    assert_eq!(path_with_name("a/..", "b"), "a/../b");

    for (path, plain) in [
        ("", ""),
        ("/", "/"),
        ("//", "/"),
        ("/.", "/"),
        (".", "."),
        ("./", "."),
        ("./a/./b/", "./a/b"),
        ("//a///b//.//", "/a/b"),
        ("a/../b", "a/../b"),
        (".hidden/.x", ".hidden/.x"),
    ] {
        assert_eq!(plain_path(path), plain, "{path}");
        assert_eq!(plain_path(&plain_path(path)), plain, "{path}");
    }
    assert!(!same_path("a/../b", "b"));
    assert!(!same_path("/a", "a"));
}

#[test]
fn one_path_is_taken_once_however_it_is_written() {
    let seen = disk(&["/v/a.mp4", "/v/b.mp4"], &[]);
    assert!(seen.is_dir("/v/"));
    assert!(seen.is_dir("/v/."));
    assert!(seen.is_file("/v//a.mp4"));
    assert!(!seen.is_file("/v/a.mp4/"));
    let (taken, skipped) = collect_new_video_task_targets(
        &seen,
        &owned(&["/v//a.mp4", "/v/a.mp4", "/v/./b.mp4"]),
        ContentMode::Tv,
        &owned(&["/v//./b.mp4"]),
    );
    assert_eq!(taken, ["/v//a.mp4"]);
    assert_eq!(skipped, 2);

    let mut queue = Queue::default();
    let mut folder = task("folder", &["/v", "/v//a.mp4"], settings(ContentMode::Tv, Encoder::X265));
    folder.skipped_paths = owned(&["/v/./b.mp4"]);
    assert_eq!(remaining_task_inputs(&seen, &folder, &Vec::new()).len(), 1);
    queue.add(folder).unwrap();
    let watches = restored_folder_watches(&seen, &queue);
    assert_eq!(watches.len(), 1);
}

#[test]
fn slideshow_folder_summary_remains_one_job_when_photos_change() {
    let seen = disk(&["/root/photo1.jpg", "/root/photo2.jpg"], &[]);
    let settings = settings(ContentMode::PhotoSlideshow, Encoder::X265);
    let mut queue = Queue::default();
    queue
        .add(task("slides", &["/root"], settings.clone()))
        .unwrap();

    let summary = summary(seen, watch("/root", settings), &queue, &RunFailures::default());

    assert_eq!(summary.folders, 1);
    assert_eq!(summary.files, 1);
    assert_eq!(summary.remaining, 1);
    assert_eq!(summary.converted, 0);
    assert_eq!(summary.failed, 0);
}

#[test]
fn original_backup_marks_a_source_as_completed() {
    let seen = disk(&["/root/episode.mkv", "/root/original/episode.mkv"], &[]);
    assert!(should_skip_queue_source(
        &seen,
        "/root/episode.mkv",
        ContentMode::Tv
    ));
}

#[test]
fn ordinary_existing_target_does_not_hide_source_work() {
    let seen = disk(&["/root/episode.mov", "/root/episode.mkv"], &[]);
    assert!(!should_skip_queue_source(
        &seen,
        "/root/episode.mov",
        ContentMode::Tv
    ));
}

#[test]
fn stabilized_exports_and_their_sources_are_skipped() {
    let seen = disk(&["/root/clip.mp4", "/root/clip_stabilized.mp4"], &[]);
    assert!(should_skip_queue_source(
        &seen,
        "/root/clip.mp4",
        ContentMode::Stabilize
    ));
    assert!(should_skip_queue_source(
        &seen,
        "/root/clip_stabilized.mp4",
        ContentMode::Stabilize
    ));
    assert!(!should_skip_queue_source(
        &seen,
        "/root/clip.mp4",
        ContentMode::CameraVideos
    ));
}

#[test]
fn recursive_collection_excludes_python_completed_folders() {
    let seen = disk(
        &[
            "/root/pending/new.mkv",
            "/root/show (x265)/old.mkv",
            "/root/chs/translated.mkv",
        ],
        &[],
    );
    assert_eq!(
        collect_video_files(&seen, "/root"),
        ["/root/pending/new.mkv"]
    );
}

#[test]
fn completed_tv_folders_receive_the_python_encoder_suffix() {
    let env = surroundings(disk(
        &["/root/Show/episode.mkv", "/root/Show/original/episode.mp4"],
        &[],
    ));
    let task = task(
        "show",
        &["/root/Show/episode.mp4"],
        settings(ContentMode::Tv, Encoder::X265),
    );

    let renames = rename_completed_task_directories(&env, &task);

    assert_eq!(renames.len(), 1);
    assert_eq!(renames[0].from, "/root/Show");
    assert_eq!(renames[0].to, "/root/Show (x265)");
    assert!(!renames[0].occupied);
    assert!(is_skipped_conversion_directory(&renames[0].to));
    assert!(rename_message(&renames[0], None).contains("Show (x265)"));
    assert!(rename_message(&renames[0], Some("access denied")).contains("access denied"));
}

#[test]
fn taken_folder_names_are_not_renamed_over() {
    let env = surroundings(disk(
        &["/root/Show/episode.mkv", "/root/Show/original/episode.mp4"],
        &["/root/Show (x265)"],
    ));
    let task = task(
        "show",
        &["/root/Show/episode.mp4"],
        settings(ContentMode::Tv, Encoder::X265),
    );
    let renames = rename_completed_task_directories(&env, &task);
    assert_eq!(renames.len(), 1);
    assert!(renames[0].occupied);
}

#[test]
fn folders_that_cannot_be_read_keep_their_names() {
    let mut seen = disk(
        &["/root/Show/episode.mkv", "/root/Show/original/episode.mp4"],
        &["/root/Locked"],
    );
    for folder in &mut seen.folders {
        if folder.path == "/root/Locked" {
            folder.entries = None;
        }
    }
    let env = surroundings(seen);
    let shows = task("shows", &["/root"], settings(ContentMode::Tv, Encoder::X265));
    let from: Vec<String> = rename_completed_task_directories(&env, &shows)
        .into_iter()
        .map(|rename| rename.from)
        .collect();
    assert_eq!(from, ["/root/Show", "/root"]);
    let locked = task(
        "locked",
        &["/root/Locked"],
        settings(ContentMode::Tv, Encoder::X265),
    );
    assert!(rename_completed_task_directories(&env, &locked).is_empty());
}

#[test]
fn running_aggregate_task_renames_each_completed_subfolder() {
    let env = surroundings(disk(
        &[
            "/t/Shows/Completed Show/episode.mkv",
            "/t/Shows/Completed Show/original/episode.mp4",
            "/t/Shows/Pending Show/episode.mp4",
        ],
        &[],
    ));
    let mut task = task(
        "shows",
        &["/t/Shows"],
        settings(ContentMode::Tv, Encoder::X265),
    );
    task.status = QueueStatus::Running;

    let renames = rename_completed_task_directories(&env, &task);

    assert_eq!(renames.len(), 1);
    assert_eq!(renames[0].from, "/t/Shows/Completed Show");
    assert_eq!(renames[0].to, "/t/Shows/Completed Show (x265)");
    assert_eq!(task.status, QueueStatus::Running);
}

#[test]
fn completed_folder_rename_respects_zero_prefix_and_incomplete_backups() {
    let env = surroundings(disk(
        &[
            "/root/0_Keep/episode.mkv",
            "/root/0_Keep/original/episode.mp4",
            "/root/Incomplete/episode.mkv",
        ],
        &["/root/Incomplete/original"],
    ));
    let zero = task(
        "zero",
        &["/root/0_Keep"],
        settings(ContentMode::Tv, Encoder::X265),
    );
    let incomplete = task(
        "incomplete",
        &["/root/Incomplete"],
        settings(ContentMode::Tv, Encoder::X265),
    );

    assert!(rename_completed_task_directories(&env, &zero).is_empty());
    assert!(rename_completed_task_directories(&env, &incomplete).is_empty());
}

#[test]
fn video_folder_scheduler_uses_python_style_natural_order() {
    let seen = disk(&["/root/episode10.mkv", "/root/episode2.mkv"], &[]);
    assert_eq!(
        collect_video_files(&seen, "/root"),
        ["/root/episode2.mkv", "/root/episode10.mkv"]
    );
}

#[test]
fn video_folder_scheduler_naturally_sorts_the_entire_path() {
    let seen = disk(
        &[
            "/root/season10/episode1.mkv",
            "/root/season2/episode10.mkv",
            "/root/season2/episode2.mkv",
        ],
        &[],
    );
    assert_eq!(
        collect_video_files(&seen, "/root"),
        [
            "/root/season2/episode2.mkv",
            "/root/season2/episode10.mkv",
            "/root/season10/episode1.mkv",
        ]
    );
}

#[test]
fn video_filter_ignores_macos_appledouble_files_like_python() {
    let seen = disk(&["/root/._episode.mp4", "/root/episode.mp4"], &[]);
    assert!(!is_video_path(&seen, "/root/._episode.mp4"));
    assert!(is_video_path(&seen, "/root/episode.mp4"));
    assert_eq!(collect_video_files(&seen, "/root"), ["/root/episode.mp4"]);
}

#[test]
fn media_files_are_told_by_extension_in_any_case() {
    let seen = disk(&["/root/A.MKV", "/root/b.JPEG", "/root/notes.txt"], &["/root/x.mp4"]);
    assert!(is_video_path(&seen, "/root/A.MKV"));
    assert!(!is_video_path(&seen, "/root/missing.mkv"));
    assert!(!is_video_path(&seen, "/root/x.mp4"));
    assert!(!is_video_path(&seen, "/root/notes.txt"));
    assert!(is_photo_path(&seen, "/root/b.JPEG"));
    assert!(!directory_has_two_photos(&seen, "/root"));
}

#[test]
fn expands_every_file_in_a_python_multi_target_task() {
    let seen = disk(&["/root/episode1.mkv", "/root/episode2.mp4"], &[]);
    let task = task(
        "task-1",
        &["/root/episode2.mp4", "/root/episode1.mkv", "/root/episode1.mkv"],
        settings(ContentMode::Tv, Encoder::X265),
    );

    let expanded = expanded_task_targets(&seen, &task, &Vec::new());

    assert_eq!(
        expanded,
        vec![
            ("/root/episode1.mkv".to_owned(), None),
            ("/root/episode2.mp4".to_owned(), None)
        ],
        "targets are naturally decomposed into deterministic per-file work"
    );
}

#[test]
fn folder_task_keeps_python_style_name_and_skips_failed_inputs_within_the_run() {
    let seen = disk(&["/shows/root/episode1.mkv", "/shows/root/episode2.mkv"], &[]);
    let settings = settings(ContentMode::Tv, Encoder::X265);
    let name = default_task_name(settings.mode, "/shows/root");
    let task = QueueTask::new(
        "season".to_owned(),
        name,
        owned(&["/shows/root"]),
        settings,
    );

    assert!(task.name.starts_with("TV - "));
    assert_eq!(task.name, "TV - root");
    assert_eq!(
        remaining_task_inputs(&seen, &task, &owned(&["/shows/root/episode1.mkv"])),
        ["/shows/root/episode2.mkv"]
    );
}

#[test]
fn queued_targets_are_owned_across_tasks() {
    let mut queue = Queue::default();
    queue
        .add(task(
            "season",
            &["season/episode1.mkv", "season/episode2.mkv"],
            settings(ContentMode::Tv, Encoder::X265),
        ))
        .unwrap();

    let occupied: HashSet<String> = queued_target_set(&queue).into_iter().collect();

    assert_eq!(
        occupied,
        HashSet::from(["season/episode1.mkv".to_owned(), "season/episode2.mkv".to_owned()])
    );
}

#[test]
fn legacy_watched_roots_remain_owned_during_new_task_admission() {
    let settings = settings(ContentMode::Tv, Encoder::X265);
    let mut queue = Queue::default();
    queue
        .add(task("legacy-file", &["season/episode1.mkv"], settings.clone()))
        .unwrap();
    let watches = vec![watch("season", settings)];

    let occupied: HashSet<String> =
        queue_admission_occupied_paths(&queue, &roots_of_watches(&watches))
            .into_iter()
            .collect();

    assert_eq!(
        occupied,
        HashSet::from(["season/episode1.mkv".to_owned(), "season".to_owned()])
    );
}

#[test]
fn trim_admission_keeps_only_the_first_video_file() {
    let seen = disk(&["/root/first.mkv", "/root/second.mp4"], &["/root/folder"]);

    let (selected, skipped) = select_trim_source(
        &seen,
        &owned(&["/root/folder", "/root/first.mkv", "/root/second.mp4"]),
    );

    assert_eq!(selected.as_deref(), Some("/root/first.mkv"));
    assert_eq!(skipped, 1);
}

#[test]
fn new_task_target_collection_keeps_batch_selection_in_one_ordered_task() {
    let seen = disk(
        &["/root/episode-1.mkv", "/root/episode-2.mp4", "/root/notes.txt"],
        &["/root/season"],
    );

    let (targets, skipped) = collect_new_video_task_targets(
        &seen,
        &owned(&[
            "/root/episode-1.mkv",
            "/root/notes.txt",
            "/root/episode-2.mp4",
            "/root/season",
            "/root/episode-1.mkv",
        ]),
        ContentMode::Tv,
        &owned(&["/root/episode-2.mp4"]),
    );

    assert_eq!(targets, ["/root/episode-1.mkv", "/root/season"]);
    assert_eq!(skipped, 3);
}

#[test]
fn task_setting_edits_validate_targets_for_the_new_workflow() {
    let seen = disk(
        &["/root/episode.mkv", "/root/photo1.jpg", "/root/photo2.jpg"],
        &["/root/empty-album"],
    );

    let trim = settings(ContentMode::Trim, Encoder::X265);
    assert!(validate_task_targets(&seen, &trim, &owned(&["/root/episode.mkv"])).is_ok());
    assert!(validate_task_targets(
        &seen,
        &trim,
        &owned(&["/root/episode.mkv", "/root/episode.mkv"])
    )
    .is_err());
    assert!(validate_task_targets(&seen, &trim, &owned(&["/root"])).is_err());

    let slideshow = settings(ContentMode::PhotoSlideshow, Encoder::X265);
    assert!(validate_task_targets(&seen, &slideshow, &owned(&["/root"])).is_ok());
    assert!(validate_task_targets(
        &seen,
        &slideshow,
        &owned(&["/root/photo1.jpg", "/root/photo2.jpg"])
    )
    .is_ok());
    assert!(validate_task_targets(&seen, &slideshow, &owned(&["/root/photo1.jpg"])).is_err());
    assert!(validate_task_targets(&seen, &slideshow, &owned(&["/root/empty-album"])).is_err());
}

#[test]
fn multi_target_queue_counts_reflect_filesystem_completion() {
    let seen = disk(
        &[
            "/root/episode1.mkv",
            "/root/original/episode1.mkv",
            "/root/episode2.mkv",
        ],
        &[],
    );
    let task = task(
        "season",
        &["/root/episode1.mkv", "/root/episode2.mkv"],
        settings(ContentMode::Tv, Encoder::X265),
    );

    let counts = task_display_counts(&seen, &task, &Vec::new(), &Vec::new());

    assert_eq!(counts.targets, 2);
    assert_eq!(counts.files, 2);
    assert_eq!(counts.remaining, 1);
    assert_eq!(counts.converted, 1);
    assert_eq!(counts.failed, 0);
}

#[test]
fn folder_summary_matches_python_style_queue_counters() {
    let seen = disk(
        &[
            "/root/season/episode1.mkv",
            "/root/season/original/episode1.mkv",
            "/root/season/episode2.mkv",
            "/root/season/episode3.mkv",
        ],
        &[],
    );
    let settings = settings(ContentMode::Tv, Encoder::X265);
    let mut queue = Queue::default();
    for (id, path, status) in [
        ("done", "/root/season/episode1.mkv", QueueStatus::Completed),
        ("pending", "/root/season/episode2.mkv", QueueStatus::Pending),
        ("failed", "/root/season/episode3.mkv", QueueStatus::Failed),
    ] {
        let mut task = task(id, &[path], settings.clone());
        task.source_root = Some("/root".to_owned());
        task.status = status;
        queue.add(task).unwrap();
    }

    let summary = summary(seen, watch("/root", settings), &queue, &RunFailures::default());

    assert_eq!(summary.folders, 2);
    assert_eq!(summary.files, 3);
    assert_eq!(summary.remaining, 1);
    assert_eq!(summary.converted, 1);
    assert_eq!(summary.failed, 1);
    assert_eq!(folder_summary_status(&summary), "Needs attention");
}

#[test]
fn aggregate_folder_task_reports_each_file_without_expanding_queue_rows() {
    let seen = disk(&["/root/episode1.mkv", "/root/episode2.mkv"], &[]);
    let settings = settings(ContentMode::Tv, Encoder::X265);
    let mut task = task("season", &["/root"], settings.clone());
    task.source_root = Some("/root".to_owned());
    task.status = QueueStatus::Running;
    let mut queue = Queue::default();
    queue.add(task).unwrap();
    let mut failures = RunFailures::default();
    failures.record("season", "/root/episode1.mkv", "decode failed");

    let summary = summary(seen, watch("/root", settings), &queue, &failures);

    assert_eq!(queue.tasks().len(), 1);
    assert_eq!(summary.files, 2);
    assert_eq!(summary.remaining, 1);
    assert_eq!(summary.failed, 1);
    assert_eq!(summary.active_status, Some(QueueStatus::Running));
}

#[test]
fn aggregate_folder_summary_counts_public_outputs_with_original_backups() {
    let seen = disk(
        &[
            "/root/Show/001.mkv",
            "/root/Show/002.mkv",
            "/root/Show/003.mkv",
            "/root/Show/original/001.mp4",
            "/root/Show/original/002.mp4",
            "/root/Show/original/missing-output.mp4",
        ],
        &[],
    );
    let settings = settings(ContentMode::Tv, Encoder::X265);
    let mut task = task("show", &["/root"], settings.clone());
    task.source_root = Some("/root".to_owned());
    task.status = QueueStatus::Running;
    let mut queue = Queue::default();
    queue.add(task).unwrap();

    let summary = summary(seen, watch("/root", settings), &queue, &RunFailures::default());

    assert_eq!(summary.files, 3);
    assert_eq!(summary.converted, 2);
    assert_eq!(summary.remaining, 1);
    assert_eq!(summary.failed, 0);
}

#[test]
fn already_encoded_camera_files_stay_completed_across_aggregate_rescans() {
    let seen = disk(&["/root/already-x265.mp4", "/root/new-camera.mp4"], &[]);
    let settings = settings(ContentMode::CameraVideos, Encoder::X265);
    let mut task = task("camera", &["/root"], settings.clone());
    task.source_root = Some("/root".to_owned());
    task.skipped_paths.push("/root/already-x265.mp4".to_owned());
    let mut queue = Queue::default();
    queue.add(task.clone()).unwrap();

    assert_eq!(
        remaining_task_inputs(&seen, &task, &Vec::new()),
        ["/root/new-camera.mp4"]
    );
    let summary = summary(seen, watch("/root", settings), &queue, &RunFailures::default());
    assert_eq!(summary.files, 2);
    assert_eq!(summary.converted, 1);
    assert_eq!(summary.remaining, 1);
    assert_eq!(summary.failed, 0);
}

#[test]
fn folder_summary_counts_preexisting_encoder_suffix_outputs() {
    let seen = disk(&["/root/show (x265)/episode.mkv"], &[]);
    let watch = watch("/root", settings(ContentMode::Tv, Encoder::X265));

    let summary = summary(seen, watch, &Queue::default(), &RunFailures::default());

    assert_eq!(
        summary,
        FolderQueueSummary {
            root: "/root".to_owned(),
            mode: ContentMode::Tv,
            encoder: Encoder::X265,
            folders: 1,
            files: 1,
            remaining: 0,
            converted: 1,
            failed: 0,
            active_status: None,
        }
    );
    assert_eq!(folder_summary_status(&summary), "Completed");
}

#[test]
fn folder_summary_counts_a_renamed_task_root_as_completed() {
    let seen = disk(
        &[
            "/parent/Show (libsvtav1)/episode1.mkv",
            "/parent/Show (libsvtav1)/Season 1/episode2.mkv",
            "/parent/Show (libsvtav1)/original/episode1.mp4",
        ],
        &[],
    );
    let watch = watch("/parent/Show", settings(ContentMode::Tv, Encoder::X265));

    let summary = summary(seen, watch, &Queue::default(), &RunFailures::default());

    assert_eq!(summary.root, "/parent/Show");
    assert_eq!(summary.folders, 2);
    assert_eq!(summary.files, 2);
    assert_eq!(summary.converted, 2);
    assert_eq!(summary.remaining, 0);
    assert_eq!(summary.failed, 0);
    assert_eq!(folder_summary_status(&summary), "Completed");
}

#[test]
fn temporary_file_names_report_their_owner_process() {
    assert_eq!(
        temporary_file_process_id("episode.videoferry-stage-123-task-7.mkv"),
        Some(123)
    );
    assert_eq!(
        temporary_file_process_id("episode.videoferry-previous-456-task-7.mkv"),
        Some(456)
    );
    assert_eq!(
        temporary_file_process_id("episode.videoferry-partial-789-7.mkv"),
        Some(789)
    );
    assert_eq!(temporary_file_process_id("notes.txt"), None);
}

#[test]
fn startup_cleanup_preserves_active_and_unrelated_temporary_files() {
    let names = [
        "episode.videoferry-stage-111-task-1.mkv",
        "episode.videoferry-previous-222-task-1.mkv",
        "episode.videoferry-partial-333-1.mkv",
        "notes.txt",
    ];
    let removed: Vec<&str> = names
        .iter()
        .copied()
        .filter(|name| {
            let owner_is_running = temporary_file_process_id(name) == Some(222);
            is_stale_temporary_file(name, 333, owner_is_running)
        })
        .collect();

    assert_eq!(removed.len(), 2);
    assert!(removed.contains(&"episode.videoferry-stage-111-task-1.mkv"));
    assert!(!removed.contains(&"episode.videoferry-previous-222-task-1.mkv"));
    assert!(removed.contains(&"episode.videoferry-partial-333-1.mkv"));
    assert!(!removed.contains(&"notes.txt"));
}
