use std::collections::{HashMap, HashSet};

use videoferry::model::ContentMode;
use videoferry::paths::{path_extension, path_file_name, path_parent};
use videoferry::publish::{
    backup_path, publication_for, replacement_backup_path, staging_path, ActionOutcome, FileAction,
    JobPlan, Phase, Publication, PublicationKind,
};

/// A small file system in memory.
struct Files {
    contents: HashMap<String, Vec<u8>>,
    folders: HashSet<String>,
    /// The operation, counted from one, that fails whatever it is.
    fails_at: Option<usize>,
    performed: usize,
}

impl Files {
    fn new(folders: &[&str], files: &[(&str, &str)]) -> Files {
        Files {
            contents: files
                .iter()
                .map(|(path, text)| ((*path).to_owned(), text.as_bytes().to_vec()))
                .collect(),
            folders: folders.iter().map(|path| (*path).to_owned()).collect(),
            fails_at: None,
            performed: 0,
        }
    }

    fn read(&self, path: &str) -> Option<&str> {
        self.contents
            .get(path)
            .map(|bytes| std::str::from_utf8(bytes).unwrap())
    }

    fn folder_exists_for(&self, path: &str) -> bool {
        path_parent(path).is_some_and(|folder| self.folders.contains(&folder))
    }

    fn put(&mut self, path: String, bytes: Vec<u8>) -> ActionOutcome {
        if !self.folder_exists_for(&path) {
            return ActionOutcome::Failed("no such folder".to_owned());
        }
        self.contents.insert(path, bytes);
        ActionOutcome::Yes
    }

    fn perform(&mut self, action: FileAction) -> ActionOutcome {
        self.performed += 1;
        if self.fails_at == Some(self.performed) {
            return ActionOutcome::Failed("disk error".to_owned());
        }
        match action {
            FileAction::Check { path } => {
                if self.contents.contains_key(&path) {
                    ActionOutcome::Yes
                } else {
                    ActionOutcome::No
                }
            }
            FileAction::CopyNew { from, to } => {
                if self.contents.contains_key(&to) {
                    return ActionOutcome::Failed("file exists".to_owned());
                }
                match self.contents.get(&from).cloned() {
                    Some(bytes) => self.put(to, bytes),
                    None => ActionOutcome::Failed("no such file".to_owned()),
                }
            }
            FileAction::Remove { path } => match self.contents.remove(&path) {
                Some(_) => ActionOutcome::Yes,
                None => ActionOutcome::Failed("no such file".to_owned()),
            },
            FileAction::CreateFolder { path } => {
                self.folders.insert(path);
                ActionOutcome::Yes
            }
            FileAction::Rename { from, to } => {
                if !self.folder_exists_for(&to) {
                    return ActionOutcome::Failed("no such folder".to_owned());
                }
                match self.contents.remove(&from) {
                    Some(bytes) => self.put(to, bytes),
                    None => ActionOutcome::Failed("no such file".to_owned()),
                }
            }
        }
    }

    fn run(&mut self, publication: &mut Publication) -> Result<(), String> {
        while let Some(action) = publication.action() {
            let outcome = self.perform(action);
            for path in publication.advance(&outcome) {
                self.contents.remove(&path);
            }
        }
        match publication.phase {
            Phase::Published => Ok(()),
            _ => Err(publication.error.clone().unwrap()),
        }
    }
}

fn conversion(source: &str, staging: &str, output: &str, backup: &str) -> Publication {
    Publication::new(
        PublicationKind::Conversion,
        source.to_owned(),
        staging.to_owned(),
        output.to_owned(),
        backup.to_owned(),
        "/tmp/previous".to_owned(),
    )
}

/// A conversion whose output was already found free.
fn late_conversion(source: &str, staging: &str, output: &str, backup: &str) -> Publication {
    let mut publication = conversion(source, staging, output, backup);
    publication.phase = if source == output {
        Phase::MakeFolder
    } else {
        Phase::CheckLate
    };
    publication
}

#[test]
fn finalization_backs_up_the_source_before_publication() {
    let mut files = Files::new(
        &["/root", "/tmp"],
        &[
            ("/root/episode.mkv", "source"),
            ("/root/.episode.stage.mkv", "converted"),
        ],
    );
    let mut publication = late_conversion(
        "/root/episode.mkv",
        "/root/.episode.stage.mkv",
        "/root/episode.mkv",
        "/root/original/episode.mkv",
    );

    files.run(&mut publication).expect("finalize");

    assert_eq!(files.read("/root/episode.mkv"), Some("converted"));
    assert_eq!(files.read("/root/original/episode.mkv"), Some("source"));
    assert_eq!(files.read("/root/.episode.stage.mkv"), None);
}

#[test]
fn finalization_rolls_source_back_when_publication_fails() {
    let mut files = Files::new(
        &["/root", "/tmp"],
        &[
            ("/root/episode.mp4", "source"),
            ("/root/.episode.stage.mkv", "converted"),
        ],
    );
    let mut publication = late_conversion(
        "/root/episode.mp4",
        "/root/.episode.stage.mkv",
        "/root/missing-parent/episode.mkv",
        "/root/original/episode.mp4",
    );

    let error = files.run(&mut publication).unwrap_err();

    assert!(error.contains("publishing converted output"));
    assert_eq!(files.read("/root/episode.mp4"), Some("source"));
    assert_eq!(files.read("/root/missing-parent/episode.mkv"), None);
    assert_eq!(files.read("/root/original/episode.mp4"), None);
    assert_eq!(files.read("/root/.episode.stage.mkv"), None);
}

#[test]
fn finalization_never_overwrites_a_late_output() {
    let mut files = Files::new(
        &["/root", "/tmp"],
        &[
            ("/root/episode.mp4", "source"),
            ("/root/.episode.stage.mkv", "converted"),
            ("/root/episode.mkv", "late output"),
        ],
    );
    let mut publication = late_conversion(
        "/root/episode.mp4",
        "/root/.episode.stage.mkv",
        "/root/episode.mkv",
        "/root/original/episode.mp4",
    );

    let error = files.run(&mut publication).unwrap_err();

    assert!(error.contains("output already exists"));
    assert_eq!(files.read("/root/episode.mp4"), Some("source"));
    assert_eq!(files.read("/root/episode.mkv"), Some("late output"));
    assert_eq!(files.read("/root/original/episode.mp4"), None);
    assert_eq!(files.read("/root/.episode.stage.mkv"), None);
}

#[test]
fn ordinary_conversion_replaces_an_existing_target_like_python() {
    let mut files = Files::new(
        &["/root", "/tmp"],
        &[
            ("/root/episode.mov", "source"),
            ("/root/episode.mkv", "previous output"),
            ("/root/.episode.stage.mkv", "converted"),
        ],
    );
    let mut publication = conversion(
        "/root/episode.mov",
        "/root/.episode.stage.mkv",
        "/root/episode.mkv",
        "/root/original/episode.mov",
    );

    files.run(&mut publication).unwrap();

    assert_eq!(files.read("/root/episode.mkv"), Some("converted"));
    assert_eq!(files.read("/root/original/episode.mov"), Some("source"));
    assert_eq!(files.read("/root/.episode.stage.mkv"), None);
    assert_eq!(files.contents.len(), 2);
}

#[test]
fn temporary_publication_files_use_the_system_temp_directory() {
    let temporary = "/tmp/VideoFerry";
    let output = "/videos/episode.mkv";
    let path = staging_path(temporary, output, 42, "task-7").unwrap();
    let previous = replacement_backup_path(temporary, output, 42, "task-7").unwrap();

    assert_eq!(path_parent(&path).as_deref(), Some(temporary));
    assert_eq!(path_parent(&previous).as_deref(), Some(temporary));
    assert_ne!(path_parent(&path), path_parent(output));
    assert_eq!(path_extension(&path).as_deref(), Some("mkv"));
    assert!(path_file_name(&path).is_some_and(|name| name.contains("task-7")));
}

#[test]
fn specialized_publication_preserves_collisions_except_for_python_trim_replacement() {
    let mut files = Files::new(
        &["/root", "/tmp"],
        &[
            ("/root/clip.mp4", "existing"),
            ("/root/.clip.stage.mp4", "stabilized"),
        ],
    );
    let beside = |kind| {
        Publication::new(
            kind,
            "/root/source.mp4".to_owned(),
            "/root/.clip.stage.mp4".to_owned(),
            "/root/clip.mp4".to_owned(),
            "/root/original/source.mp4".to_owned(),
            "/tmp/previous".to_owned(),
        )
    };

    let error = files
        .run(&mut beside(PublicationKind::Beside))
        .unwrap_err();
    assert!(error.contains("output already exists"));
    assert_eq!(files.read("/root/clip.mp4"), Some("existing"));
    assert_eq!(files.read("/root/.clip.stage.mp4"), None);

    files
        .contents
        .insert("/root/.clip.stage.mp4".to_owned(), b"trimmed".to_vec());
    files
        .run(&mut beside(PublicationKind::BesideReplacing))
        .unwrap();
    assert_eq!(files.read("/root/clip.mp4"), Some("trimmed"));
    assert_eq!(files.read("/root/.clip.stage.mp4"), None);
    assert_eq!(files.contents.len(), 1);
}

/// Whichever operation fails, the source, the finished file, and an earlier output can be found.
#[test]
fn no_failure_loses_a_file() {
    for kind in [PublicationKind::Conversion, PublicationKind::BesideReplacing] {
        for fails_at in 1..=12 {
            let mut files = Files::new(
                &["/root", "/tmp"],
                &[
                    ("/root/episode.mov", "source"),
                    ("/root/episode.mkv", "previous output"),
                    ("/root/.stage.mkv", "converted"),
                ],
            );
            files.fails_at = Some(fails_at);
            let mut publication = Publication::new(
                kind,
                "/root/episode.mov".to_owned(),
                "/root/.stage.mkv".to_owned(),
                "/root/episode.mkv".to_owned(),
                "/root/original/episode.mov".to_owned(),
                "/tmp/previous".to_owned(),
            );
            let result = files.run(&mut publication);
            let holds = |text: &str| {
                files
                    .contents
                    .values()
                    .any(|bytes| bytes.as_slice() == text.as_bytes())
            };
            assert!(holds("source"), "{kind:?} lost the source at {fails_at}");
            match result {
                Ok(()) => assert_eq!(files.read("/root/episode.mkv"), Some("converted")),
                Err(_) => assert!(
                    holds("previous output"),
                    "{kind:?} lost the earlier output at {fails_at}"
                ),
            }
        }
    }
}

#[test]
fn failed_rollbacks_tell_where_the_files_are() {
    let mut files = Files::new(
        &["/root", "/tmp"],
        &[
            ("/root/episode.mov", "source"),
            ("/root/.stage.mkv", "converted"),
        ],
    );
    let mut publication = late_conversion(
        "/root/episode.mov",
        "/root/.stage.mkv",
        "/root/missing/episode.mkv",
        "/root/original/episode.mov",
    );
    files.fails_at = Some(5);
    let error = files.run(&mut publication).unwrap_err();
    assert_eq!(
        error,
        "publishing output failed (no such folder); source rollback also failed (disk error). \
         Recover source from /root/original/episode.mov and converted file from /root/.stage.mkv"
    );
    assert_eq!(files.read("/root/original/episode.mov"), Some("source"));
    assert_eq!(files.read("/root/.stage.mkv"), Some("converted"));
}

#[test]
fn publications_are_planned_for_each_workflow() {
    let mut job = JobPlan {
        mode: ContentMode::Tv,
        input: "/videos/episode.mov".to_owned(),
        output: "/videos/episode.mkv".to_owned(),
        task_id: "task-7".to_owned(),
        temporary: "/tmp/VideoFerry".to_owned(),
        process: 42,
    };
    let publication = publication_for(&job, false, false).unwrap();
    assert_eq!(publication.kind, PublicationKind::Conversion);
    assert_eq!(publication.backup, "/videos/original/episode.mov");
    assert_eq!(
        publication.staging,
        "/tmp/VideoFerry/episode.videoferry-stage-42-task-7.mkv"
    );
    assert!(publication_for(&job, true, false).is_err());
    assert!(publication_for(&job, false, true).is_err());

    job.mode = ContentMode::Trim;
    assert_eq!(
        publication_for(&job, false, false).unwrap().kind,
        PublicationKind::BesideReplacing
    );
    job.mode = ContentMode::Stabilize;
    assert_eq!(
        publication_for(&job, false, false).unwrap().kind,
        PublicationKind::Beside
    );

    assert_eq!(
        backup_path("/videos/episode.mov").as_deref(),
        Ok("/videos/original/episode.mov")
    );
    assert!(backup_path("/").is_err());
}
