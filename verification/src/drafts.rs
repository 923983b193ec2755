//! The task that is being put together: its configuration, its targets, and its way into the queue.

use crate::board::{folders_among, BoardView};
use crate::clock::{format_size_mb, size_text};
use crate::controller::{ControllerView, DraftView, SlintController, SlintTaskDraft};
use crate::disk::{is_file, is_folder, is_photo_path, is_video_path, Disk, DiskView};
use crate::editing::folders_of;
use crate::form::{swap_texts, swapped};
use crate::media_files::{is_photo_name, is_video_name};
use crate::model::{container_extension, ContentMode, QueueSettings, SettingsView};
use crate::output_naming::{
    conversion_output_path, stabilized_output_path, stabilized_path, text_or, trim_output_path,
    trimmed_path,
};
use crate::paths::{has_path, list_has_path, with_ext};
use crate::presets::{container_of, PresetView, Presets, Surroundings, SurroundingsView};
use crate::targets::{
    admitted, collect_new_video_task_targets, default_task_name, free_slideshow_output,
    next_slideshow_output_path, queue_admission_occupied_paths, queued_paths, slideshow_images,
    slideshow_photos, targets_error, task_title, validate_task_targets,
};
use crate::text::{
    concat2, concat3, copy_list, decimal, decimal_text, texts, to_chars, trim_text, trimmed,
};
use crate::time::Duration;
use crate::watch::{roots_of_watches, watch_roots};
use vstd::prelude::*;

verus! {

pub open spec fn time_or_zero(time: Option<Duration>) -> Duration {
    match time {
        Some(t) => t,
        None => Duration { nanos: 0 },
    }
}

/// Where the result of a draft's first target goes, in words.
pub open spec fn draft_output(env: SurroundingsView, s: SettingsView, first: Seq<char>) -> Seq<char> {
    match s.mode {
        ContentMode::Trim => trimmed_path(
            first,
            time_or_zero(s.trim_start),
            time_or_zero(s.trim_end),
        ),
        ContentMode::Stabilize => if is_folder(env.disk, first) {
            first + " (one *_stabilized file per source)"@
        } else {
            stabilized_path(first)
        },
        ContentMode::PhotoSlideshow => text_or(
            free_slideshow_output(env.disk, first),
            Seq::empty(),
        ),
        _ => {
            let ext = container_extension(container_of(env.presets, s.mode, s.encoder));
            if is_folder(env.disk, first) {
                first + " (one ."@ + ext + " file per source)"@
            } else {
                with_ext(first, ext)
            }
        },
    }
}

/// What becomes of the originals.
pub open spec fn safety_text(mode: ContentMode) -> Seq<char> {
    match mode {
        ContentMode::Tv | ContentMode::Animation | ContentMode::CameraVideos =>
            "After the new file is validated, the original is moved into an original folder; failed conversions leave it in place."@,
        _ => "The source remains in place; the result is published only after validation."@,
    }
}

/// What a draft will do, in words; `size` is the size of its first target, where that is a file.
pub open spec fn draft_plan(env: SurroundingsView, draft: DraftView, size: Option<u64>) -> Seq<char> {
    if draft.targets.len() == 0 {
        "Add media to see the exact output and original-file safety plan."@
    } else {
        "Output: "@ + draft_output(env, draft.settings, draft.targets[0]) + "\n"@ + safety_text(
            draft.settings.mode,
        ) + "\n"@ + match size {
            Some(n) => "Selected source size: "@ + size_text(Some(n)) + " MB."@,
            None => "Folder size is checked while the task is scanned."@,
        }
    }
}

fn draft_output_text(env: &Surroundings, s: &QueueSettings, first: &str) -> (r: String)
    ensures
        r@ == draft_output(env@, s@, first@),
{
    match s.mode {
        ContentMode::Trim => {
            let start = match s.trim_start {
                Some(t) => t,
                None => Duration { nanos: 0 },
            };
            let end = match s.trim_end {
                Some(t) => t,
                None => Duration { nanos: 0 },
            };
            trim_output_path(first, start, end)
        },
        ContentMode::Stabilize => if env.disk.is_dir(first) {
            concat2(first, " (one *_stabilized file per source)")
        } else {
            stabilized_output_path(first)
        },
        ContentMode::PhotoSlideshow => match next_slideshow_output_path(&env.disk, first) {
            Some(path) => path,
            None => {
                let none = String::new();
                assert(none@ =~= Seq::<char>::empty());
                none
            },
        },
        _ => {
            let container = env.presets.container(s.mode, s.encoder);
            if env.disk.is_dir(first) {
                let mut r = concat3(first, " (one .", container.extension());
                r.append(" file per source)");
                r
            } else {
                conversion_output_path(first, container)
            }
        },
    }
}

fn safety_note(mode: ContentMode) -> (r: &'static str)
    ensures
        r@ == safety_text(mode),
{
    match mode {
        ContentMode::Tv | ContentMode::Animation | ContentMode::CameraVideos =>
            "After the new file is validated, the original is moved into an original folder; failed conversions leave it in place.",
        _ => "The source remains in place; the result is published only after validation.",
    }
}

/// What a draft will do, in words; `size` is the size of its first target, where that is a file.
pub fn task_draft_output_summary(env: &Surroundings, draft: &SlintTaskDraft, size: Option<u64>) -> (r:
    String)
    ensures
        r@ == draft_plan(env@, draft@, size),
{
    assert(draft@.targets.len() == draft.targets@.len());
    if draft.targets.len() == 0 {
        return "Add media to see the exact output and original-file safety plan.".to_owned();
    }
    assert(draft@.targets[0] == draft.targets@[0]@);
    let output = draft_output_text(env, &draft.settings, draft.targets[0].as_str());
    let last = match size {
        Some(n) => concat3("Selected source size: ", format_size_mb(Some(n)).as_str(), " MB."),
        None => "Folder size is checked while the task is scanned.".to_owned(),
    };
    let head = concat3("Output: ", output.as_str(), "\n");
    let middle = concat3(head.as_str(), safety_note(draft.settings.mode), "\n");
    concat2(middle.as_str(), last.as_str())
}

/// A path that a draft of this workflow may take.
pub open spec fn suits_draft(d: DiskView, mode: ContentMode, p: Seq<char>) -> bool {
    match mode {
        ContentMode::Trim => is_file(d, p) && is_video_name(p),
        ContentMode::PhotoSlideshow => is_folder(d, p) || (is_file(d, p) && is_photo_name(p)),
        _ => is_folder(d, p) || (is_file(d, p) && is_video_name(p)),
    }
}

/// The targets of a draft with those paths that it takes: suitable ones that are neither taken by the
/// queue nor among the targets. A trim takes only one.
pub open spec fn draft_targets_with(
    d: DiskView,
    mode: ContentMode,
    occupied: Seq<Seq<char>>,
    targets: Seq<Seq<char>>,
    paths: Seq<Seq<char>>,
) -> Seq<Seq<char>>
    decreases paths.len(),
{
    if paths.len() == 0 {
        targets
    } else {
        let before = draft_targets_with(d, mode, occupied, targets, paths.drop_last());
        let p = paths.last();
        if !suits_draft(d, mode, p) || (mode == ContentMode::Trim && before.len() > 0)
            || has_path(occupied, p) || has_path(before, p) {
            before
        } else {
            before.push(p)
        }
    }
}

/// The paths that a new slideshow takes: those that the queue has not, each once.
pub open spec fn free_paths(occupied: Seq<Seq<char>>, paths: Seq<Seq<char>>) -> Seq<Seq<char>>
    decreases paths.len(),
{
    if paths.len() == 0 {
        Seq::empty()
    } else {
        let before = free_paths(occupied, paths.drop_last());
        if has_path(occupied, paths.last()) || has_path(before, paths.last()) {
            before
        } else {
            before.push(paths.last())
        }
    }
}

/// What a new task may not take.
pub open spec fn occupied_on(b: BoardView) -> Seq<Seq<char>> {
    queued_paths(b.tasks) + watch_roots(b.watched)
}

/// What is said of paths that were added to a draft.
pub open spec fn draft_added_text(added: nat, skipped: nat) -> Seq<char> {
    if skipped > 0 {
        "Added "@ + decimal(added) + " target(s); skipped "@ + decimal(skipped)
            + " unsupported or duplicate item(s)"@
    } else {
        "Added "@ + decimal(added) + " target(s) to the new task"@
    }
}

/// The targets and the settings of the task that a draft becomes.
pub open spec fn draft_task(env: SurroundingsView, b: BoardView, draft: DraftView) -> (
    Seq<Seq<char>>,
    SettingsView,
) {
    if draft.settings.mode == ContentMode::PhotoSlideshow {
        let targets = free_paths(occupied_on(b), draft.targets);
        let images = slideshow_photos(env.disk, targets);
        (
            targets,
            SettingsView {
                slideshow_image_paths: images,
                slideshow_review_image_paths: images,
                ..draft.settings
            },
        )
    } else {
        (
            admitted(env.disk, draft.settings.mode, occupied_on(b), draft.targets),
            draft.settings,
        )
    }
}

/// The name of a new task: the one asked for, or the usual one.
pub open spec fn draft_name(requested: Seq<char>, mode: ContentMode, first: Seq<char>) -> Seq<char> {
    if trimmed(requested).len() == 0 {
        task_title(mode, first)
    } else {
        trimmed(requested)
    }
}

/// What is said of a task that was made.
pub open spec fn created_note(skipped: nat) -> Seq<char> {
    if skipped > 0 {
        "Task created; skipped "@ + decimal(skipped) + " duplicate target(s)"@
    } else {
        "Task created and added to the queue"@
    }
}

impl ControllerView {
    /// The form's settings go into the draft, unless they are not valid.
    pub open spec fn with_draft_prepared(self, presets: Seq<PresetView>) -> (ControllerView, bool) {
        match self.form.validated(presets) {
            Err(error) => (self.saying(error), false),
            Ok(settings) => (
                ControllerView {
                    task_draft: Some(
                        DraftView {
                            settings,
                            targets: match self.task_draft {
                                Some(draft) => draft.targets,
                                None => Seq::empty(),
                            },
                        },
                    ),
                    ..self
                }.saying("Configuration saved — add files or folders"@),
                true,
            ),
        }
    }

    /// The draft takes those of the paths that suit it.
    pub open spec fn with_draft_paths(self, env: SurroundingsView, paths: Seq<Seq<char>>) -> ControllerView {
        let (ready, is_ready) = if self.task_draft is Some {
            (self, true)
        } else {
            self.with_draft_prepared(env.presets)
        };
        if !is_ready {
            ready
        } else {
            let draft = ready.task_draft->0;
            let targets = draft_targets_with(
                env.disk,
                draft.settings.mode,
                occupied_on(ready.board),
                draft.targets,
                paths,
            );
            let added = (targets.len() - draft.targets.len()) as nat;
            ControllerView {
                task_draft: Some(DraftView { targets, ..draft }),
                ..ready
            }.saying(draft_added_text(added, (paths.len() - added) as nat))
        }
    }

    /// A target of the draft changes places with the one that stands `delta` places further.
    pub open spec fn with_draft_target_moved(self, index: usize, delta: isize) -> (
        ControllerView,
        Option<usize>,
    ) {
        match self.task_draft {
            None => (self, None),
            Some(draft) => if index < draft.targets.len() && 0 <= index + delta
                < draft.targets.len() {
                (
                    ControllerView {
                        task_draft: Some(
                            DraftView {
                                targets: swapped(draft.targets, index as int, index + delta),
                                ..draft
                            },
                        ),
                        ..self
                    },
                    Some((index + delta) as usize),
                )
            } else {
                (self, None)
            },
        }
    }

    /// A target of the draft is removed.
    pub open spec fn with_draft_target_removed(self, index: usize) -> (ControllerView, bool) {
        match self.task_draft {
            None => (self, false),
            Some(draft) => if index < draft.targets.len() {
                (
                    ControllerView {
                        task_draft: Some(
                            DraftView { targets: draft.targets.remove(index as int), ..draft },
                        ),
                        ..self
                    }.saying("Removed target from the new task"@),
                    true,
                )
            } else {
                (self, false)
            },
        }
    }

    /// The draft becomes a task, unless its targets do not suit it.
    pub open spec fn with_draft_created(self, env: SurroundingsView, requested: Seq<char>) -> (
        ControllerView,
        bool,
    ) {
        match self.task_draft {
            None => (self.saying("Choose the task configuration first"@), false),
            Some(draft) => {
                let (targets, settings) = draft_task(env, self.board, draft);
                let kept = ControllerView {
                    task_draft: Some(DraftView { settings, targets: draft.targets }),
                    ..self
                };
                match targets_error(env.disk, settings, targets) {
                    Some(error) => (kept.saying(error), false),
                    None => {
                        let added = self.board.adding(
                            draft_name(requested, settings.mode, targets[0]),
                            targets,
                            settings,
                            if targets.len() == 1 && is_folder(env.disk, targets[0]) {
                                Some(targets[0])
                            } else {
                                None
                            },
                            env.now,
                        );
                        if self.board.can_add() {
                            (
                                ControllerView {
                                    task_draft: None,
                                    board: added.watching(
                                        folders_among(env.disk, targets),
                                        settings,
                                        env,
                                    ).to_save().counted(env).saying(
                                        created_note((draft.targets.len() - targets.len()) as nat),
                                    ),
                                    ..self
                                },
                                true,
                            )
                        } else {
                            (ControllerView { board: added, ..kept }, false)
                        }
                    },
                }
            },
        }
    }
}

fn path_suits_draft(disk: &Disk, mode: ContentMode, path: &str) -> (r: bool)
    ensures
        r == suits_draft(disk@, mode, path@),
{
    match mode {
        ContentMode::Trim => is_video_path(disk, path),
        ContentMode::PhotoSlideshow => disk.is_dir(path) || is_photo_path(disk, path),
        _ => disk.is_dir(path) || is_video_path(disk, path),
    }
}

fn take_free_paths(occupied: &Vec<String>, paths: &Vec<String>) -> (r: Vec<String>)
    ensures
        texts(r@) == free_paths(texts(occupied@), texts(paths@)),
        r@.len() <= paths@.len(),
{
    let ghost all = texts(paths@);
    let mut r: Vec<String> = Vec::new();
    let mut i: usize = 0;
    assert(texts(r@) =~= free_paths(texts(occupied@), all.take(0)));
    while i < paths.len()
        invariant
            i <= paths@.len(),
            r@.len() <= i,
            all == texts(paths@),
            texts(r@) == free_paths(texts(occupied@), all.take(i as int)),
        decreases paths@.len() - i,
    {
        let ghost before = texts(r@);
        assert(all.take(i + 1).drop_last() =~= all.take(i as int));
        assert(all.take(i + 1).last() == paths@[i as int]@);
        if !list_has_path(occupied, paths[i].as_str()) && !list_has_path(&r, paths[i].as_str()) {
            r.push(paths[i].clone());
            assert(texts(r@) =~= before.push(paths@[i as int]@));
        }
        i = i + 1;
    }
    assert(all.take(i as int) =~= all);
    r
}

impl SlintController {
    fn occupied(&self) -> (r: Vec<String>)
        ensures
            texts(r@) == occupied_on(self@.board),
    {
        let roots = roots_of_watches(&self.board.watched);
        queue_admission_occupied_paths(&self.board.queue, &roots)
    }

    /// Begins a new task.
    pub fn begin_task_draft(&mut self, presets: &Presets)
        requires
            old(self)@.wf(),
        ensures
            final(self)@ == (ControllerView {
                task_draft: Some(
                    DraftView {
                        settings: old(self)@.form.current(presets@),
                        targets: Seq::empty(),
                    },
                ),
                ..old(self)@
            }).saying("Choose how this "@ + "task should be converted"@),
    {
        let settings = self.form.current_settings(presets);
        let targets: Vec<String> = Vec::new();
        assert(texts(targets@) =~= Seq::<Seq<char>>::empty());
        self.task_draft = Some(SlintTaskDraft { settings, targets });
        let text = concat2("Choose how this ", "task should be converted");
        self.board.say(text.as_str());
    }

    /// Gives the form's settings to the new task, unless they are not valid.
    pub fn prepare_task_draft(&mut self, presets: &Presets) -> (r: bool)
        requires
            old(self)@.wf(),
        ensures
            (final(self)@, r) == old(self)@.with_draft_prepared(presets@),
    {
        let settings = match self.form.validated_current_settings(presets) {
            Ok(settings) => settings,
            Err(error) => {
                self.board.activity = error;
                return false;
            },
        };
        let targets = match &self.task_draft {
            Some(draft) => copy_list(&draft.targets),
            None => {
                let none: Vec<String> = Vec::new();
                assert(texts(none@) =~= Seq::<Seq<char>>::empty());
                none
            },
        };
        self.task_draft = Some(SlintTaskDraft { settings, targets });
        self.board.say("Configuration saved — add files or folders");
        true
    }

    pub fn cancel_task_draft(&mut self)
        ensures
            final(self)@ == (ControllerView { task_draft: None, ..old(self)@ }).saying(
                "Task creation cancelled"@,
            ),
    {
        self.task_draft = None;
        self.board.say("Task creation cancelled");
    }

    /// Adds paths to the new task; begins one where there is none.
    pub fn add_task_draft_paths(&mut self, paths: &Vec<String>, env: &Surroundings)
        requires
            old(self)@.wf(),
        ensures
            final(self)@ == old(self)@.with_draft_paths(env@, texts(paths@)),
    {
        if self.task_draft.is_none() && !self.prepare_task_draft(&env.presets) {
            return;
        }
        let occupied = self.occupied();
        let (mode, mut targets, settings) = match &self.task_draft {
            Some(draft) => (
                draft.settings.mode,
                copy_list(&draft.targets),
                draft.settings.clone(),
            ),
            None => {
                return;
            },
        };
        let ghost start = texts(targets@);
        let ghost all = texts(paths@);
        let mut added: usize = 0;
        let mut skipped: usize = 0;
        let mut i: usize = 0;
        assert(all.take(0) =~= Seq::<Seq<char>>::empty());
        while i < paths.len()
            invariant
                i <= paths@.len(),
                added + skipped == i,
                all == texts(paths@),
                texts(targets@) == draft_targets_with(
                    env@.disk,
                    mode,
                    texts(occupied@),
                    start,
                    all.take(i as int),
                ),
                targets@.len() == start.len() + added,
            decreases paths@.len() - i,
        {
            let ghost before = texts(targets@);
            assert(before.len() == targets@.len());
            assert(all.take(i + 1).drop_last() =~= all.take(i as int));
            assert(all.take(i + 1).last() == paths@[i as int]@);
            let path = paths[i].as_str();
            if !path_suits_draft(&env.disk, mode, path) || (mode == ContentMode::Trim
                && targets.len() > 0) || list_has_path(&occupied, path) || list_has_path(
                &targets,
                path,
            ) {
                skipped = skipped + 1;
            } else {
                targets.push(paths[i].clone());
                assert(texts(targets@) =~= before.push(path@));
                added = added + 1;
            }
            i = i + 1;
        }
        assert(all.take(i as int) =~= all);
        assert(texts(targets@).len() == targets@.len());
        let number = decimal_text(added as u128);
        let text = if skipped > 0 {
            let mut r = concat3("Added ", number.as_str(), " target(s); skipped ");
            r.append(decimal_text(skipped as u128).as_str());
            r.append(" unsupported or duplicate item(s)");
            r
        } else {
            concat3("Added ", number.as_str(), " target(s) to the new task")
        };
        self.task_draft = Some(SlintTaskDraft { settings, targets });
        self.board.activity = text;
    }

    /// Moves a target of the new task by some places: it changes places with the one that stands there.
    pub fn move_task_draft_target(&mut self, index: usize, delta: isize) -> (r: Option<usize>)
        ensures
            (final(self)@, r) == old(self)@.with_draft_target_moved(index, delta),
    {
        let n: usize = match &self.task_draft {
            Some(draft) => {
                assert(draft@.targets.len() == draft.targets@.len());
                draft.targets.len()
            },
            None => {
                return None;
            },
        };
        let next: i128 = index as i128 + delta as i128;
        if index >= n || next < 0 || next >= n as i128 {
            return None;
        }
        let to: usize = next as usize;
        if let Some(draft) = &mut self.task_draft {
            swap_texts(&mut draft.targets, index, to);
        }
        Some(to)
    }

    /// Removes a target of the new task, and says whether there is such a target.
    pub fn remove_task_draft_target(&mut self, index: usize) -> (r: bool)
        ensures
            (final(self)@, r) == old(self)@.with_draft_target_removed(index),
    {
        let (settings, mut targets) = match &self.task_draft {
            Some(draft) => (draft.settings.clone(), copy_list(&draft.targets)),
            None => {
                return false;
            },
        };
        let ghost before = texts(targets@);
        assert(before.len() == targets@.len());
        if index >= targets.len() {
            return false;
        }
        let _ = targets.remove(index);
        assert(texts(targets@) =~= before.remove(index as int));
        self.task_draft = Some(SlintTaskDraft { settings, targets });
        self.board.say("Removed target from the new task");
        true
    }

    /// Puts the new task into the queue, and says whether it is there.
    pub fn create_task_from_draft(&mut self, requested_name: &str, env: &Surroundings) -> (r: bool)
        ensures
            (final(self)@, r) == old(self)@.with_draft_created(env@, requested_name@),
    {
        let (mut settings, originals) = match &self.task_draft {
            Some(draft) => (draft.settings.clone(), copy_list(&draft.targets)),
            None => {
                self.board.say("Choose the task configuration first");
                return false;
            },
        };
        let occupied = self.occupied();
        let targets = if settings.mode == ContentMode::PhotoSlideshow {
            let targets = take_free_paths(&occupied, &originals);
            let images = slideshow_images(&env.disk, &targets);
            settings.slideshow_image_paths = copy_list(&images);
            settings.slideshow_review_image_paths = images;
            targets
        } else {
            let (targets, _) = collect_new_video_task_targets(
                &env.disk,
                &originals,
                settings.mode,
                &occupied,
            );
            targets
        };
        let ghost draft = self@.task_draft->0;
        assert((texts(targets@), settings@) == draft_task(env@, self@.board, draft));
        if let Err(error) = validate_task_targets(&env.disk, &settings, &targets) {
            self.task_draft = Some(SlintTaskDraft { settings, targets: originals });
            self.board.activity = error;
            return false;
        }
        assert(texts(targets@).len() == targets@.len());
        assert(targets@.len() > 0);
        assert(texts(originals@).len() == originals@.len());
        assert(texts(targets@)[0] == targets@[0]@);
        let skipped: usize = originals.len() - targets.len();
        let wanted = trim_text(requested_name);
        let name = if to_chars(wanted.as_str()).len() == 0 {
            default_task_name(settings.mode, targets[0].as_str())
        } else {
            wanted
        };
        let source_root = if targets.len() == 1 && env.disk.is_dir(targets[0].as_str()) {
            Some(targets[0].clone())
        } else {
            None
        };
        let folders = folders_of(&env.disk, &targets);
        let kept = settings.clone();
        if !self.board.add_task(name, targets, settings, source_root, env.now.as_str()) {
            self.task_draft = Some(SlintTaskDraft { settings: kept, targets: originals });
            return false;
        }
        self.task_draft = None;
        self.board.register_folder_watches(&folders, &kept, env);
        self.board.unsaved = true;
        self.board.refresh_folder_summaries(env);
        self.board.activity = if skipped > 0 {
            concat3(
                "Task created; skipped ",
                decimal_text(skipped as u128).as_str(),
                " duplicate target(s)",
            )
        } else {
            "Task created and added to the queue".to_owned()
        };
        true
    }
}

} // verus!
