//! Changes that a user makes to the queue.

use crate::board::{
    folders_among, task_named, with_complete_time, with_error, with_status, with_task,
    without_skipped, Board, BoardView,
};
use crate::disk::{
    collect_photo_files, directory_has_two_photos, files_below, is_file, is_folder, is_photo_path,
    is_video_path, photo_files, Descent, Disk, DiskView, Wanted,
};
use crate::form::{swap_texts, swapped, FormView, SettingsForm};
use crate::media_files::{is_photo_name, is_video_name};
use crate::model::{ContentMode, QueueSettings, SettingsView};
use crate::paths::{file_name, has_path, list_has_path, path_file_name};
use crate::presets::{Surroundings, SurroundingsView};
use crate::queue::{has_id, moved, position_of, task_views, QueueStatus, QueueTask, TaskView};
use crate::renaming::{drop_repeats, without_repeats};
use crate::targets::{
    admitted, append_all, collect_new_video_task_targets, default_task_name, has_work,
    queue_admission_occupied_paths, queued_paths, queued_target_set, rebuild_slideshow_task_images,
    select_trim_source, slideshow_photos, targets_error, task_has_remaining_work, task_title,
    validate_task_targets, videos_among,
};
use crate::text::{
    concat2, concat3, copy_list, decimal, decimal_text, list_contains, same_text, texts,
};
use crate::watch::{is_folder_on, order_paths, ordered_paths, roots_of_watches, watch_roots};
use vstd::prelude::*;

verus! {

/// The index that a task moves to, or why it cannot move.
pub open spec fn moved_by(tasks: Seq<TaskView>, id: Seq<char>, delta: int) -> Option<int> {
    let to = position_of(tasks, id) + delta;
    if has_id(tasks, id) && 0 <= to < tasks.len() {
        Some(to)
    } else {
        None
    }
}

/// The board after the user moved the selected task by some places.
pub open spec fn selected_moved(b: BoardView, delta: int) -> BoardView {
    match b.selection.primary {
        None => b,
        Some(id) => if !has_id(b.tasks, id) || task_named(b.tasks, id).status
            != QueueStatus::Pending {
            b.saying("Only pending items can be reordered"@)
        } else {
            match moved_by(b.tasks, id, delta) {
                Some(to) => BoardView {
                    tasks: moved(b.tasks, position_of(b.tasks, id), to),
                    ..b
                }.to_save(),
                None => b.saying("queue task cannot be moved there"@),
            }
        },
    }
}

/// The board after the user moved a task to another place.
pub open spec fn task_moved_to(b: BoardView, source: int, target: int) -> BoardView {
    if source >= b.tasks.len() {
        b
    } else if b.tasks[source].status != QueueStatus::Pending {
        b.saying("Only pending tasks can be reordered"@)
    } else {
        let id = b.tasks[source].id;
        if target < b.tasks.len() {
            BoardView {
                tasks: moved(b.tasks, position_of(b.tasks, id), target),
                ..b
            }.selecting(Some(id)).saying("Task order updated"@).to_save()
        } else {
            b.saying("queue task cannot be moved there"@)
        }
    }
}

/// The board without some tasks.
pub open spec fn tasks_removed(b: BoardView, ids: Seq<Seq<char>>) -> BoardView
    decreases ids.len(),
{
    if ids.len() == 0 {
        b
    } else {
        let before = tasks_removed(b, ids.drop_last());
        if has_id(before.tasks, ids.last()) {
            BoardView {
                tasks: before.tasks.remove(position_of(before.tasks, ids.last())),
                ..before
            }.forgetting(ids.last())
        } else {
            before
        }
    }
}

/// How many of the tasks could be removed.
pub open spec fn removed_count(b: BoardView, ids: Seq<Seq<char>>) -> nat
    decreases ids.len(),
{
    if ids.len() == 0 {
        0
    } else {
        removed_count(b, ids.drop_last()) + if has_id(
            tasks_removed(b, ids.drop_last()).tasks,
            ids.last(),
        ) {
            1nat
        } else {
            0nat
        }
    }
}

/// The running task is among these.
pub open spec fn runs_one_of(b: BoardView, ids: Seq<Seq<char>>) -> bool {
    b.worker matches Some(w) && ids.contains(w.task_id)
}

/// The board after the selected tasks were removed.
pub open spec fn selected_removed(b: BoardView, env: SurroundingsView) -> BoardView {
    let ids = b.selected_ids();
    if ids.len() == 0 {
        b
    } else {
        let rest = tasks_removed(b, ids);
        let next = if rest.tasks.len() > 0 {
            Some(rest.tasks[0].id)
        } else {
            None
        };
        let count = decimal(removed_count(b, ids));
        rest.selecting(next).saying(
            if runs_one_of(b, ids) {
                "Removed "@ + count + " queue item(s) and stopped the active item"@
            } else {
                "Removed "@ + count + " queue item(s)"@
            },
        ).pruned().to_save().counted(env)
    }
}

/// A task can run again: it did not finish, or it finished and has work left.
pub open spec fn can_rerun(d: DiskView, t: TaskView) -> bool {
    match t.status {
        QueueStatus::Failed | QueueStatus::Cancelled => true,
        QueueStatus::Completed => has_work(d, t),
        QueueStatus::Pending | QueueStatus::Running | QueueStatus::Paused => false,
    }
}

/// How many tasks run again, have no work left, or cannot run again.
pub struct RerunCounts {
    pub reset: nat,
    pub no_remaining: nat,
    pub skipped: nat,
}

/// The board with some tasks ready to run again.
pub open spec fn tasks_reset(b: BoardView, env: SurroundingsView, ids: Seq<Seq<char>>) -> (
    BoardView,
    RerunCounts,
)
    decreases ids.len(),
{
    if ids.len() == 0 {
        (b, RerunCounts { reset: 0, no_remaining: 0, skipped: 0 })
    } else {
        let (before, n) = tasks_reset(b, env, ids.drop_last());
        let id = ids.last();
        if !has_id(before.tasks, id) {
            (before, n)
        } else {
            let t = task_named(before.tasks, id);
            if can_rerun(env.disk, t) {
                (
                    BoardView {
                        tasks: with_complete_time(
                            with_error(
                                with_status(before.tasks, id, QueueStatus::Pending),
                                id,
                                None,
                            ),
                            id,
                            Seq::empty(),
                        ),
                        ..before
                    }.forgetting(id),
                    RerunCounts { reset: n.reset + 1, ..n },
                )
            } else if t.status == QueueStatus::Completed {
                (before, RerunCounts { no_remaining: n.no_remaining + 1, ..n })
            } else {
                (before, RerunCounts { skipped: n.skipped + 1, ..n })
            }
        }
    }
}

/// The board after the selected tasks were told to run again.
pub open spec fn selected_rerun(b: BoardView, env: SurroundingsView) -> BoardView {
    let ids = b.selected_ids();
    if ids.len() == 0 {
        b
    } else {
        let (after, n) = tasks_reset(b, env, ids);
        after.saying(
            if n.reset > 0 {
                decimal(n.reset) + " queue item(s) are ready to run again; "@ + decimal(
                    n.no_remaining,
                ) + " had no remaining work; "@ + decimal(n.skipped) + " skipped"@
            } else if n.no_remaining > 0 {
                decimal(n.no_remaining) + " completed item(s) had no remaining work"@
            } else {
                "Only completed, failed, or cancelled items can be rerun"@
            },
        ).to_save().counted(env)
    }
}

impl Board {
    /// Moves the selected task by some places.
    pub fn move_selected(&mut self, delta: isize)
        ensures
            final(self)@ == selected_moved(old(self)@, delta as int),
    {
        let id = match &self.selection.primary {
            Some(id) => id.clone(),
            None => {
                return;
            },
        };
        let pending = match self.queue.task(id.as_str()) {
            Some(task) => task.status == QueueStatus::Pending,
            None => false,
        };
        if !pending {
            self.say("Only pending items can be reordered");
            return;
        }
        match self.queue.move_by(id.as_str(), delta) {
            Ok(()) => {
                self.unsaved = true;
            },
            Err(error) => {
                self.activity = error.message();
            },
        }
    }

    /// Moves a task to another place.
    pub fn move_task_to(&mut self, source: usize, target: usize)
        ensures
            final(self)@ == task_moved_to(old(self)@, source as int, target as int),
    {
        let list = self.queue.tasks();
        assert(list@.len() == self.queue@.len());
        if source >= list.len() {
            return;
        }
        assert(self.queue@[source as int] == list@[source as int]@);
        if list[source].status != QueueStatus::Pending {
            self.say("Only pending tasks can be reordered");
            return;
        }
        let id = list[source].id.clone();
        proof {
            crate::queue::lemma_has_position(self.queue@, id@, source as int);
        }
        match self.queue.move_to(id.as_str(), target) {
            Ok(()) => {
                self.select_only(Some(id));
                self.say("Task order updated");
                self.unsaved = true;
            },
            Err(error) => {
                self.activity = error.message();
            },
        }
    }

    /// Removes the selected tasks, and says whether the running one was among them.
    pub fn remove_selected(&mut self, env: &Surroundings) -> (r: bool)
        ensures
            final(self)@ == selected_removed(old(self)@, env@),
            r == runs_one_of(old(self)@, old(self)@.selected_ids()),
    {
        let ids = self.selected_task_ids();
        let ghost all = texts(ids@);
        let ghost start = self@;
        assert(all.len() == ids@.len());
        let removing_active = match &self.worker {
            Some(worker) => list_contains(&ids, worker.task_id.as_str()),
            None => false,
        };
        if ids.len() == 0 {
            return removing_active;
        }
        let mut removed: usize = 0;
        let mut i: usize = 0;
        assert(all.take(0) =~= Seq::<Seq<char>>::empty());
        while i < ids.len()
            invariant
                i <= ids@.len(),
                removed <= i,
                all == texts(ids@),
                self@ == tasks_removed(start, all.take(i as int)),
                removed == removed_count(start, all.take(i as int)),
            decreases ids@.len() - i,
        {
            assert(all.take(i + 1).drop_last() =~= all.take(i as int));
            assert(all.take(i + 1).last() == ids@[i as int]@);
            match self.queue.remove(ids[i].as_str()) {
                Ok(_) => {
                    self.forget_runs(ids[i].as_str());
                    removed = removed + 1;
                },
                Err(_) => {},
            }
            i = i + 1;
        }
        assert(all.take(i as int) =~= all);
        let list = self.queue.tasks();
        assert(list@.len() == self.queue@.len());
        let next = if list.len() > 0 {
            assert(self.queue@[0] == list@[0]@);
            Some(list[0].id.clone())
        } else {
            None
        };
        self.select_only(next);
        let count = decimal_text(removed as u128);
        self.activity = if removing_active {
            concat3(
                "Removed ",
                count.as_str(),
                " queue item(s) and stopped the active item",
            )
        } else {
            concat3("Removed ", count.as_str(), " queue item(s)")
        };
        self.prune_watches();
        self.unsaved = true;
        self.refresh_folder_summaries(env);
        removing_active
    }

    fn reset_task(&mut self, id: &str)
        requires
            has_id(old(self)@.tasks, id@),
        ensures
            final(self)@ == (BoardView {
                tasks: with_complete_time(
                    with_error(
                        with_status(old(self)@.tasks, id@, QueueStatus::Pending),
                        id@,
                        None,
                    ),
                    id@,
                    Seq::empty(),
                ),
                ..old(self)@
            }).forgetting(id@),
    {
        self.make_pending(id);
        self.forget_runs(id);
    }

    /// Makes a task wait to run, as if it had not run.
    pub fn make_pending(&mut self, id: &str)
        ensures
            final(self)@ == (BoardView {
                tasks: with_complete_time(
                    with_error(
                        with_status(old(self)@.tasks, id@, QueueStatus::Pending),
                        id@,
                        None,
                    ),
                    id@,
                    Seq::empty(),
                ),
                ..old(self)@
            }),
    {
        let _ = self.queue.set_status(id, QueueStatus::Pending);
        let _ = self.queue.set_error(id, None);
        if let Some(task) = self.queue.task_mut(id) {
            task.complete_time = String::new();
            assert(task.complete_time@ =~= Seq::<char>::empty());
        }
    }

    /// Makes the selected tasks run again.
    pub fn rerun_selected(&mut self, env: &Surroundings)
        ensures
            final(self)@ == selected_rerun(old(self)@, env@),
    {
        let ids = self.selected_task_ids();
        let ghost all = texts(ids@);
        let ghost start = self@;
        assert(all.len() == ids@.len());
        if ids.len() == 0 {
            return;
        }
        let mut reset: usize = 0;
        let mut no_remaining: usize = 0;
        let mut skipped: usize = 0;
        let mut i: usize = 0;
        assert(all.take(0) =~= Seq::<Seq<char>>::empty());
        while i < ids.len()
            invariant
                i <= ids@.len(),
                reset <= i,
                no_remaining <= i,
                skipped <= i,
                all == texts(ids@),
                ({
                    let (b, n) = tasks_reset(start, env@, all.take(i as int));
                    self@ == b && reset == n.reset && no_remaining == n.no_remaining && skipped
                        == n.skipped
                }),
            decreases ids@.len() - i,
        {
            assert(all.take(i + 1).drop_last() =~= all.take(i as int));
            assert(all.take(i + 1).last() == ids@[i as int]@);
            let id = ids[i].as_str();
            let mut can_reset: bool = false;
            let mut finished: bool = false;
            let mut found: bool = false;
            if let Some(task) = self.queue.task(id) {
                found = true;
                finished = task.status == QueueStatus::Completed;
                can_reset = match task.status {
                    QueueStatus::Failed | QueueStatus::Cancelled => true,
                    QueueStatus::Completed => task_has_remaining_work(&env.disk, task),
                    QueueStatus::Pending | QueueStatus::Running | QueueStatus::Paused => false,
                };
            }
            if found {
                if can_reset {
                    self.reset_task(id);
                    reset = reset + 1;
                } else if finished {
                    no_remaining = no_remaining + 1;
                } else {
                    skipped = skipped + 1;
                }
            }
            i = i + 1;
        }
        assert(all.take(i as int) =~= all);
        let a = decimal_text(reset as u128);
        let b = decimal_text(no_remaining as u128);
        let c = decimal_text(skipped as u128);
        self.activity = if reset > 0 {
            let mut text = concat3(
                a.as_str(),
                " queue item(s) are ready to run again; ",
                b.as_str(),
            );
            text.append(" had no remaining work; ");
            text.append(c.as_str());
            text.append(" skipped");
            text
        } else if no_remaining > 0 {
            concat2(b.as_str(), " completed item(s) had no remaining work")
        } else {
            "Only completed, failed, or cancelled items can be rerun".to_owned()
        };
        self.unsaved = true;
        self.refresh_folder_summaries(env);
    }
}

/// The words for a task that was added.
pub open spec fn added_text(targets: nat, skipped: nat) -> Seq<char> {
    if skipped > 0 {
        "Added one queue task with "@ + decimal(targets) + " target(s); skipped "@ + decimal(
            skipped,
        ) + " duplicate, unsupported, or completed target(s)"@
    } else {
        "Added one queue task with "@ + decimal(targets) + " target(s)"@
    }
}

/// The board after videos were added as one task. `left_out` of them had already been left out.
pub open spec fn videos_added(
    b: BoardView,
    paths: Seq<Seq<char>>,
    settings: SettingsView,
    left_out: nat,
    env: SurroundingsView,
) -> BoardView {
    let occupied = queued_paths(b.tasks) + watch_roots(b.watched);
    let targets = admitted(env.disk, settings.mode, occupied, paths);
    let skipped = (left_out + paths.len() - targets.len()) as nat;
    let added = if targets.len() > 0 {
        b.adding(
            task_title(settings.mode, targets[0]),
            targets,
            settings,
            if targets.len() == 1 && is_folder(env.disk, targets[0]) {
                Some(targets[0])
            } else {
                None
            },
            env.now,
        )
    } else {
        b
    };
    let told = if targets.len() > 0 && b.can_add() {
        added.saying(added_text(targets.len(), skipped)).to_save().watching(
            folders_among(env.disk, targets),
            settings,
            env,
        )
    } else if skipped > 0 {
        added.saying(
            "No remaining work; skipped "@ + decimal(skipped) + " duplicate or completed item(s)"@,
        )
    } else {
        added
    };
    told.counted(env)
}

/// The board after paths were added with the form's workflow.
pub open spec fn paths_added(
    b: BoardView,
    paths: Seq<Seq<char>>,
    form: FormView,
    env: SurroundingsView,
) -> BoardView {
    let settings = form.current(env.presets);
    if form.mode == ContentMode::PhotoSlideshow {
        slideshows_added(b, paths, settings, env)
    } else if form.mode == ContentMode::Trim {
        let videos = videos_among(env.disk, paths);
        match form.trim_range() {
            Err(e) => b.saying(e),
            Ok(_) => if b.worker is Some {
                b.saying("Stop the active conversion before adding a Trim task"@)
            } else if videos.len() == 0 {
                b.saying("Trim accepts one video file, not a folder."@)
            } else {
                videos_added(
                    b.cleared(),
                    seq![videos[0]],
                    settings,
                    (videos.len() - 1) as nat,
                    env,
                )
            },
        }
    } else {
        videos_added(b, paths, settings, 0, env)
    }
}

pub open spec fn is_photo_on(d: DiskView) -> spec_fn(Seq<char>) -> bool {
    |p: Seq<char>| is_file(d, p) && is_photo_name(p)
}

/// How far adding slideshows has come.
pub struct SlideshowsView {
    pub board: BoardView,
    pub occupied: Seq<Seq<char>>,
    pub added: nat,
    pub skipped: nat,
}

impl SlideshowsView {
    pub open spec fn skipping(self) -> SlideshowsView {
        SlideshowsView { skipped: self.skipped + 1, ..self }
    }

    /// The chosen photos become one slideshow, if there are two or more.
    pub open spec fn with_photos(
        self,
        images: Seq<Seq<char>>,
        settings: SettingsView,
        env: SurroundingsView,
    ) -> SlideshowsView {
        if images.len() == 0 {
            self
        } else if images.len() == 1 || has_path(self.occupied, images[0]) {
            self.skipping()
        } else {
            let board = self.board.adding(
                "Photo slideshow · "@ + decimal(images.len()) + " photos"@,
                seq![images[0]],
                SettingsView {
                    slideshow_image_paths: images,
                    slideshow_review_image_paths: images,
                    ..settings
                },
                None,
                env.now,
            );
            if self.board.can_add() {
                SlideshowsView {
                    board,
                    occupied: self.occupied.push(images[0]),
                    added: self.added + 1,
                    ..self
                }
            } else {
                SlideshowsView { board, ..self }
            }
        }
    }

    /// A folder becomes one slideshow, if it holds two photos or more.
    pub open spec fn with_folder(
        self,
        root: Seq<char>,
        settings: SettingsView,
        env: SurroundingsView,
    ) -> SlideshowsView {
        if has_path(self.occupied, root) || files_below(
            env.disk,
            root,
            Descent::All,
            Wanted::Photos,
        ).len() < 2 {
            self.skipping()
        } else {
            let plain = SettingsView {
                slideshow_image_paths: Seq::empty(),
                slideshow_review_image_paths: Seq::empty(),
                ..settings
            };
            let board = self.board.adding(
                "Photo slideshow · "@ + folder_caption(root),
                seq![root],
                plain,
                None,
                env.now,
            );
            if self.board.can_add() {
                SlideshowsView {
                    board: board.watching(seq![root], plain, env),
                    occupied: self.occupied.push(root),
                    added: self.added + 1,
                    ..self
                }
            } else {
                SlideshowsView { board, ..self }
            }
        }
    }

    pub open spec fn with_folders(
        self,
        roots: Seq<Seq<char>>,
        settings: SettingsView,
        env: SurroundingsView,
    ) -> SlideshowsView
        decreases roots.len(),
    {
        if roots.len() == 0 {
            self
        } else {
            self.with_folders(roots.drop_last(), settings, env).with_folder(
                roots.last(),
                settings,
                env,
            )
        }
    }
}

pub open spec fn folder_caption(root: Seq<char>) -> Seq<char> {
    match file_name(root) {
        Some(name) => name,
        None => "folder"@,
    }
}

/// The board after photos and folders were added as slideshows.
pub open spec fn slideshows_added(
    b: BoardView,
    paths: Seq<Seq<char>>,
    settings: SettingsView,
    env: SurroundingsView,
) -> BoardView {
    let images = without_repeats(paths.filter(is_photo_on(env.disk)));
    let folders = ordered_paths(folders_among(env.disk, paths));
    if images.len() == 0 && folders.len() == 0 {
        b.saying("Select at least two photos or one photo folder."@)
    } else {
        let start = SlideshowsView {
            board: b,
            occupied: queued_paths(b.tasks),
            added: 0,
            skipped: 0,
        };
        let s = start.with_photos(images, settings, env).with_folders(folders, settings, env);
        if s.added > 0 {
            s.board.saying(
                if s.skipped > 0 {
                    "Added "@ + decimal(s.added) + " photo slideshow(s); skipped "@ + decimal(
                        s.skipped,
                    ) + " invalid selection(s)"@
                } else {
                    "Added "@ + decimal(s.added) + " photo slideshow(s)"@
                },
            ).to_save().counted(env)
        } else if s.skipped > 0 {
            s.board.saying("Photo slideshow requires at least two images."@)
        } else {
            s.board
        }
    }
}

/// The folders of a list.
pub fn folders_of(disk: &Disk, paths: &Vec<String>) -> (r: Vec<String>)
    ensures
        texts(r@) == folders_among(disk@, texts(paths@)),
{
    let ghost all = texts(paths@);
    let ghost test = is_folder_on(disk@);
    let mut r: Vec<String> = Vec::new();
    let mut i: usize = 0;
    assert(texts(r@) =~= all.take(0).filter(test));
    while i < paths.len()
        invariant
            i <= paths@.len(),
            all == texts(paths@),
            test == is_folder_on(disk@),
            texts(r@) == all.take(i as int).filter(test),
        decreases paths@.len() - i,
    {
        let ghost before = texts(r@);
        proof {
            assert(all.take(i + 1) =~= all.take(i as int).push(all[i as int]));
            all.take(i as int).lemma_filter_push(all[i as int], test);
            assert(all[i as int] == paths@[i as int]@);
        }
        if disk.is_dir(paths[i].as_str()) {
            r.push(paths[i].clone());
            assert(texts(r@) =~= before.push(all[i as int]));
        }
        i = i + 1;
    }
    assert(all.take(i as int) =~= all);
    r
}

fn photos_in(disk: &Disk, paths: &Vec<String>) -> (r: Vec<String>)
    ensures
        texts(r@) == texts(paths@).filter(is_photo_on(disk@)),
{
    let ghost all = texts(paths@);
    let ghost test = is_photo_on(disk@);
    let mut r: Vec<String> = Vec::new();
    let mut i: usize = 0;
    assert(texts(r@) =~= all.take(0).filter(test));
    while i < paths.len()
        invariant
            i <= paths@.len(),
            all == texts(paths@),
            test == is_photo_on(disk@),
            texts(r@) == all.take(i as int).filter(test),
        decreases paths@.len() - i,
    {
        let ghost before = texts(r@);
        proof {
            assert(all.take(i + 1) =~= all.take(i as int).push(all[i as int]));
            all.take(i as int).lemma_filter_push(all[i as int], test);
            assert(all[i as int] == paths@[i as int]@);
        }
        if is_photo_path(disk, paths[i].as_str()) {
            r.push(paths[i].clone());
            assert(texts(r@) =~= before.push(all[i as int]));
        }
        i = i + 1;
    }
    assert(all.take(i as int) =~= all);
    r
}

fn one_path(path: &str) -> (r: Vec<String>)
    ensures
        texts(r@) == seq![path@],
{
    let mut r: Vec<String> = Vec::new();
    r.push(path.to_owned());
    assert(texts(r@) =~= seq![path@]);
    r
}

/// How far adding slideshows has come.
struct SlideshowProgress {
    occupied: Vec<String>,
    added: u128,
    skipped: u128,
}

impl Board {
    /// Adds videos as one task.
    pub fn add_videos(
        &mut self,
        paths: &Vec<String>,
        settings: QueueSettings,
        left_out: usize,
        env: &Surroundings,
    )
        ensures
            final(self)@ == videos_added(
                old(self)@,
                texts(paths@),
                settings@,
                left_out as nat,
                env@,
            ),
    {
        let ghost start = self@;
        let roots = roots_of_watches(&self.watched);
        let occupied = queue_admission_occupied_paths(&self.queue, &roots);
        let (targets, more) = collect_new_video_task_targets(
            &env.disk,
            paths,
            settings.mode,
            &occupied,
        );
        assert(texts(targets@).len() == targets@.len());
        assert(texts(paths@).len() == paths@.len());
        let skipped: u128 = left_out as u128 + more as u128;
        let count: usize = targets.len();
        let mut added = false;
        if targets.len() > 0 {
            let first = targets[0].clone();
            assert(texts(targets@)[0] == first@);
            let name = default_task_name(settings.mode, first.as_str());
            let source_root = if targets.len() == 1 && env.disk.is_dir(first.as_str()) {
                Some(first)
            } else {
                None
            };
            let folders = folders_of(&env.disk, &targets);
            added = self.add_task(
                name,
                targets,
                settings.clone(),
                source_root,
                env.now.as_str(),
            );
            if added {
                let n = decimal_text(count as u128);
                let k = decimal_text(skipped);
                let mut text = concat3("Added one queue task with ", n.as_str(), " target(s)");
                if skipped > 0 {
                    text = concat3(
                        "Added one queue task with ",
                        n.as_str(),
                        " target(s); skipped ",
                    );
                    text.append(k.as_str());
                    text.append(" duplicate, unsupported, or completed target(s)");
                }
                self.activity = text;
                self.unsaved = true;
                self.register_folder_watches(&folders, &settings, env);
            }
        }
        if !added && skipped > 0 {
            let k = decimal_text(skipped);
            self.activity = concat3(
                "No remaining work; skipped ",
                k.as_str(),
                " duplicate or completed item(s)",
            );
        }
        self.refresh_folder_summaries(env);
    }

    /// Adds paths with the form's workflow.
    pub fn add_paths(&mut self, paths: &Vec<String>, form: &SettingsForm, env: &Surroundings)
        requires
            form@.wf(),
        ensures
            final(self)@ == paths_added(old(self)@, texts(paths@), form@, env@),
    {
        if form.mode == ContentMode::PhotoSlideshow {
            let settings = form.current_settings(&env.presets);
            self.add_slideshow_paths(paths, &settings, env);
            return;
        }
        if form.mode == ContentMode::Trim {
            if let Err(error) = form.trim_range_from_ui() {
                self.activity = error;
                return;
            }
            if self.worker.is_some() {
                self.say("Stop the active conversion before adding a Trim task");
                return;
            }
            let (selected, extra) = select_trim_source(&env.disk, paths);
            match selected {
                None => {
                    self.say("Trim accepts one video file, not a folder.");
                },
                Some(path) => {
                    self.clear_queue();
                    let settings = form.current_settings(&env.presets);
                    let single = one_path(path.as_str());
                    assert(single@.len() == texts(single@).len());
                    self.add_videos(&single, settings, extra, env);
                },
            }
            return;
        }
        let settings = form.current_settings(&env.presets);
        self.add_videos(paths, settings, 0, env);
    }

    fn add_photo_slideshow(
        &mut self,
        images: &Vec<String>,
        settings: &QueueSettings,
        env: &Surroundings,
        progress: &mut SlideshowProgress,
    )
        requires
            old(progress).added < u128::MAX,
            old(progress).skipped < u128::MAX,
        ensures
            (SlideshowsView {
                board: final(self)@,
                occupied: texts(final(progress).occupied@),
                added: final(progress).added as nat,
                skipped: final(progress).skipped as nat,
            }) == (SlideshowsView {
                board: old(self)@,
                occupied: texts(old(progress).occupied@),
                added: old(progress).added as nat,
                skipped: old(progress).skipped as nat,
            }).with_photos(texts(images@), settings@, env@),
            final(progress).added + final(progress).skipped <= old(progress).added + old(
                progress,
            ).skipped + 1,
    {
        assert(texts(images@).len() == images@.len());
        if images.len() == 0 {
            return;
        }
        assert(texts(images@)[0] == images@[0]@);
        if images.len() == 1 || list_has_path(&progress.occupied, images[0].as_str()) {
            progress.skipped = progress.skipped + 1;
            return;
        }
        let mut own = settings.clone();
        own.slideshow_image_paths = copy_list(images);
        own.slideshow_review_image_paths = copy_list(images);
        let n = decimal_text(images.len() as u128);
        let name = concat3("Photo slideshow · ", n.as_str(), " photos");
        let targets = one_path(images[0].as_str());
        if self.add_task(name, targets, own, None, env.now.as_str()) {
            let ghost before = texts(progress.occupied@);
            progress.occupied.push(images[0].clone());
            assert(texts(progress.occupied@) =~= before.push(images@[0]@));
            progress.added = progress.added + 1;
        }
    }

    fn add_folder_slideshow(
        &mut self,
        root: &str,
        settings: &QueueSettings,
        env: &Surroundings,
        progress: &mut SlideshowProgress,
    )
        requires
            old(progress).added < u128::MAX,
            old(progress).skipped < u128::MAX,
        ensures
            (SlideshowsView {
                board: final(self)@,
                occupied: texts(final(progress).occupied@),
                added: final(progress).added as nat,
                skipped: final(progress).skipped as nat,
            }) == (SlideshowsView {
                board: old(self)@,
                occupied: texts(old(progress).occupied@),
                added: old(progress).added as nat,
                skipped: old(progress).skipped as nat,
            }).with_folder(root@, settings@, env@),
            final(progress).added + final(progress).skipped <= old(progress).added + old(
                progress,
            ).skipped + 1,
    {
        if list_has_path(&progress.occupied, root) || !directory_has_two_photos(&env.disk, root) {
            progress.skipped = progress.skipped + 1;
            return;
        }
        let mut own = settings.clone();
        own.slideshow_image_paths = Vec::new();
        own.slideshow_review_image_paths = Vec::new();
        assert(texts(own.slideshow_image_paths@) =~= Seq::<Seq<char>>::empty());
        assert(texts(own.slideshow_review_image_paths@) =~= Seq::<Seq<char>>::empty());
        let name = match path_file_name(root) {
            Some(name) => concat2("Photo slideshow · ", name.as_str()),
            None => concat2("Photo slideshow · ", "folder"),
        };
        let targets = one_path(root);
        let roots = one_path(root);
        if self.add_task(name, targets, own.clone(), None, env.now.as_str()) {
            let ghost before = texts(progress.occupied@);
            progress.occupied.push(root.to_owned());
            assert(texts(progress.occupied@) =~= before.push(root@));
            self.register_folder_watches(&roots, &own, env);
            progress.added = progress.added + 1;
        }
    }

    /// Adds photos and folders as slideshows.
    pub fn add_slideshow_paths(
        &mut self,
        paths: &Vec<String>,
        settings: &QueueSettings,
        env: &Surroundings,
    )
        ensures
            final(self)@ == slideshows_added(old(self)@, texts(paths@), settings@, env@),
    {
        let ghost start = self@;
        let photos = photos_in(&env.disk, paths);
        let images = drop_repeats(&photos);
        let found = folders_of(&env.disk, paths);
        let folders = order_paths(&found);
        assert(texts(images@).len() == images@.len());
        assert(texts(folders@).len() == folders@.len());
        if images.len() == 0 && folders.len() == 0 {
            self.say("Select at least two photos or one photo folder.");
            return;
        }
        let mut progress = SlideshowProgress {
            occupied: queued_target_set(&self.queue),
            added: 0,
            skipped: 0,
        };
        let ghost s0 = SlideshowsView {
            board: start,
            occupied: queued_paths(start.tasks),
            added: 0,
            skipped: 0,
        };
        self.add_photo_slideshow(&images, settings, env, &mut progress);
        let ghost s1 = s0.with_photos(texts(images@), settings@, env@);
        let ghost all = texts(folders@);
        let mut i: usize = 0;
        assert(all.take(0) =~= Seq::<Seq<char>>::empty());
        while i < folders.len()
            invariant
                i <= folders@.len(),
                all == texts(folders@),
                progress.added + progress.skipped <= i + 1,
                (SlideshowsView {
                    board: self@,
                    occupied: texts(progress.occupied@),
                    added: progress.added as nat,
                    skipped: progress.skipped as nat,
                }) == s1.with_folders(all.take(i as int), settings@, env@),
            decreases folders@.len() - i,
        {
            assert(all.take(i + 1).drop_last() =~= all.take(i as int));
            assert(all.take(i + 1).last() == folders@[i as int]@);
            self.add_folder_slideshow(folders[i].as_str(), settings, env, &mut progress);
            i = i + 1;
        }
        assert(all.take(i as int) =~= all);
        if progress.added > 0 {
            let n = decimal_text(progress.added);
            let k = decimal_text(progress.skipped);
            let mut text = concat3("Added ", n.as_str(), " photo slideshow(s)");
            if progress.skipped > 0 {
                text = concat3("Added ", n.as_str(), " photo slideshow(s); skipped ");
                text.append(k.as_str());
                text.append(" invalid selection(s)");
            }
            self.activity = text;
            self.unsaved = true;
            self.refresh_folder_summaries(env);
        } else if progress.skipped > 0 {
            self.say("Photo slideshow requires at least two images.");
        }
    }
}

/// A change to the targets of a task.
#[derive(Debug, Clone, Copy, PartialEq, Eq, Structural)]
pub enum TaskTargetAction {
    MoveUp(usize),
    MoveDown(usize),
    Remove(usize),
}

/// The targets after a change; nothing where the change is not possible. The last target stays.
pub open spec fn targets_after(targets: Seq<Seq<char>>, action: TaskTargetAction) -> Option<
    Seq<Seq<char>>,
> {
    match action {
        TaskTargetAction::MoveUp(i) => if 0 < i < targets.len() {
            Some(swapped(targets, i as int, i - 1))
        } else {
            None
        },
        TaskTargetAction::MoveDown(i) => if i + 1 < targets.len() {
            Some(swapped(targets, i as int, i + 1))
        } else {
            None
        },
        TaskTargetAction::Remove(i) => if targets.len() > 1 && i < targets.len() {
            Some(targets.remove(i as int))
        } else {
            None
        },
    }
}

/// A slideshow task with the photos of its targets.
pub open spec fn rebuilt(d: DiskView, t: TaskView) -> TaskView {
    if t.settings.mode == ContentMode::PhotoSlideshow {
        TaskView {
            settings: SettingsView {
                slideshow_image_paths: slideshow_photos(d, t.targets),
                slideshow_review_image_paths: slideshow_photos(d, t.targets),
                ..t.settings
            },
            ..t
        }
    } else {
        t
    }
}

/// The board with a changed task, which has then not run yet.
pub open spec fn task_replaced(b: BoardView, id: Seq<char>, t: TaskView) -> BoardView {
    let changed = BoardView { tasks: with_task(b.tasks, id, t), ..b }.forgetting(id);
    BoardView { tasks: without_skipped(changed.tasks, id), ..changed }
}

/// The board after the targets of a task were changed.
pub open spec fn targets_changed(
    b: BoardView,
    id: Seq<char>,
    action: TaskTargetAction,
    env: SurroundingsView,
) -> BoardView {
    if !has_id(b.tasks, id) {
        b
    } else {
        let t = task_named(b.tasks, id);
        match targets_after(t.targets, action) {
            None => b,
            Some(targets) => {
                let candidate = rebuilt(env.disk, TaskView { targets, ..t });
                match targets_error(env.disk, candidate.settings, candidate.targets) {
                    Some(e) => b.saying(e),
                    None => task_replaced(b, id, candidate).saying(
                        "Updated queued task targets"@,
                    ).pruned().to_save().counted(env),
                }
            },
        }
    }
}

/// A path that a task of this workflow may take.
pub open spec fn fits_workflow(d: DiskView, mode: ContentMode, p: Seq<char>) -> bool {
    if is_folder(d, p) {
        mode != ContentMode::Trim && (mode != ContentMode::PhotoSlideshow || photo_files(
            d,
            p,
        ).len() > 0)
    } else if mode == ContentMode::PhotoSlideshow {
        is_file(d, p) && is_photo_name(p)
    } else {
        is_file(d, p) && is_video_name(p)
    }
}

pub open spec fn is_other_task(id: Seq<char>) -> spec_fn(TaskView) -> bool {
    |t: TaskView| t.id != id
}

/// The paths of a list that a task takes in addition to its targets, each once.
pub open spec fn accepted_targets(
    d: DiskView,
    mode: ContentMode,
    taken: Seq<Seq<char>>,
    paths: Seq<Seq<char>>,
) -> Seq<Seq<char>>
    decreases paths.len(),
{
    if paths.len() == 0 {
        Seq::empty()
    } else {
        let before = accepted_targets(d, mode, taken, paths.drop_last());
        let p = paths.last();
        if fits_workflow(d, mode, p) && !has_path(taken, p) && !has_path(before, p) {
            before.push(p)
        } else {
            before
        }
    }
}

/// The board after paths were added to a task.
pub open spec fn targets_added(
    b: BoardView,
    id: Seq<char>,
    paths: Seq<Seq<char>>,
    env: SurroundingsView,
) -> BoardView {
    if !has_id(b.tasks, id) {
        b
    } else {
        let t = task_named(b.tasks, id);
        let taken = queued_paths(b.tasks.filter(is_other_task(id))) + t.targets;
        let accepted = accepted_targets(env.disk, t.settings.mode, taken, paths);
        let skipped = (paths.len() - accepted.len()) as nat;
        if accepted.len() == 0 {
            b.saying(
                if skipped > 0 {
                    "No new valid targets were selected"@
                } else {
                    "No targets were selected"@
                },
            )
        } else {
            let candidate = rebuilt(env.disk, TaskView { targets: t.targets + accepted, ..t });
            match targets_error(env.disk, candidate.settings, candidate.targets) {
                Some(e) => b.saying(e),
                None => task_replaced(b, id, candidate).watching(
                    folders_among(env.disk, accepted),
                    candidate.settings,
                    env,
                ).saying(
                    if skipped > 0 {
                        "Added task targets; skipped "@ + decimal(skipped)
                            + " duplicate or unsupported path(s)"@
                    } else {
                        "Added task targets"@
                    },
                ).to_save().counted(env),
            }
        }
    }
}

fn path_fits(disk: &Disk, mode: ContentMode, path: &str) -> (r: bool)
    ensures
        r == fits_workflow(disk@, mode, path@),
{
    if disk.is_dir(path) {
        if mode == ContentMode::Trim {
            return false;
        }
        if mode != ContentMode::PhotoSlideshow {
            return true;
        }
        let photos = collect_photo_files(disk, path);
        assert(texts(photos@).len() == photos@.len());
        photos.len() > 0
    } else if mode == ContentMode::PhotoSlideshow {
        is_photo_path(disk, path)
    } else {
        is_video_path(disk, path)
    }
}

impl Board {
    /// The targets of the other tasks.
    fn other_targets(&self, id: &str) -> (r: Vec<String>)
        ensures
            texts(r@) == queued_paths(self@.tasks.filter(is_other_task(id@))),
    {
        let list = self.queue.tasks();
        let ghost all = self.queue@;
        let ghost test = is_other_task(id@);
        let mut r: Vec<String> = Vec::new();
        let mut i: usize = 0;
        assert(all.take(0).filter(test) =~= Seq::<TaskView>::empty());
        assert(texts(r@) =~= queued_paths(all.take(0).filter(test)));
        while i < list.len()
            invariant
                i <= list@.len(),
                task_views(list@) == all,
                test == is_other_task(id@),
                texts(r@) == queued_paths(all.take(i as int).filter(test)),
            decreases list@.len() - i,
        {
            let ghost kept = all.take(i as int).filter(test);
            proof {
                assert(all.take(i + 1) =~= all.take(i as int).push(all[i as int]));
                all.take(i as int).lemma_filter_push(all[i as int], test);
                assert(all[i as int] == list@[i as int]@);
            }
            if !same_text(list[i].id.as_str(), id) {
                append_all(&mut r, &list[i].targets);
                assert(kept.push(all[i as int]).drop_last() =~= kept);
            }
            i = i + 1;
        }
        assert(all.take(i as int) =~= all);
        r
    }

    /// Puts a changed task in the place of a task, which has then not run yet.
    pub fn replace_task(&mut self, id: &str, candidate: QueueTask)
        ensures
            final(self)@ == task_replaced(old(self)@, id@, candidate@),
    {
        if let Some(task) = self.queue.task_mut(id) {
            *task = candidate;
        }
        self.forget_runs(id);
        if let Some(task) = self.queue.task_mut(id) {
            task.skipped_paths = Vec::new();
            assert(texts(task.skipped_paths@) =~= Seq::<Seq<char>>::empty());
        }
    }

    /// Changes the targets of a task.
    pub fn apply_task_target_action(
        &mut self,
        id: &str,
        action: TaskTargetAction,
        env: &Surroundings,
    )
        ensures
            final(self)@ == targets_changed(old(self)@, id@, action, env@),
    {
        let mut candidate = match self.queue.task(id) {
            Some(task) => task.clone(),
            None => {
                return;
            },
        };
        let ghost before = candidate@;
        let n: usize = candidate.targets.len();
        assert(texts(candidate.targets@).len() == n);
        match action {
            TaskTargetAction::MoveUp(i) => {
                if i == 0 || i >= n {
                    return;
                }
                swap_texts(&mut candidate.targets, i, i - 1);
            },
            TaskTargetAction::MoveDown(i) => {
                if i >= n || n - i <= 1 {
                    return;
                }
                swap_texts(&mut candidate.targets, i, i + 1);
            },
            TaskTargetAction::Remove(i) => {
                if n <= 1 || i >= n {
                    return;
                }
                let _ = candidate.targets.remove(i);
                assert(texts(candidate.targets@) =~= before.targets.remove(i as int));
            },
        }
        rebuild_slideshow_task_images(&env.disk, &mut candidate);
        if let Err(error) = validate_task_targets(
            &env.disk,
            &candidate.settings,
            &candidate.targets,
        ) {
            self.activity = error;
            return;
        }
        self.replace_task(id, candidate);
        self.say("Updated queued task targets");
        self.prune_watches();
        self.unsaved = true;
        self.refresh_folder_summaries(env);
    }

    /// Adds paths to a task.
    pub fn add_targets_to_task(&mut self, id: &str, paths: &Vec<String>, env: &Surroundings)
        ensures
            final(self)@ == targets_added(old(self)@, id@, texts(paths@), env@),
    {
        let mut candidate = match self.queue.task(id) {
            Some(task) => task.clone(),
            None => {
                return;
            },
        };
        let ghost t = candidate@;
        let mode = candidate.settings.mode;
        let mut taken = self.other_targets(id);
        append_all(&mut taken, &candidate.targets);
        let ghost all = texts(paths@);
        let mut accepted: Vec<String> = Vec::new();
        let mut skipped: usize = 0;
        let mut i: usize = 0;
        assert(texts(accepted@) =~= accepted_targets(env@.disk, mode, texts(taken@), all.take(0)));
        while i < paths.len()
            invariant
                i <= paths@.len(),
                all == texts(paths@),
                skipped + accepted@.len() == i,
                texts(accepted@) == accepted_targets(
                    env@.disk,
                    mode,
                    texts(taken@),
                    all.take(i as int),
                ),
            decreases paths@.len() - i,
        {
            let path = paths[i].as_str();
            let ghost before = texts(accepted@);
            assert(all.take(i + 1).drop_last() =~= all.take(i as int));
            assert(all.take(i + 1).last() == path@);
            if !path_fits(&env.disk, mode, path) || list_has_path(&taken, path) || list_has_path(
                &accepted,
                path,
            ) {
                skipped = skipped + 1;
            } else {
                accepted.push(path.to_owned());
                assert(texts(accepted@) =~= before.push(path@));
            }
            i = i + 1;
        }
        assert(all.take(i as int) =~= all);
        assert(texts(accepted@).len() == accepted@.len());
        if accepted.len() == 0 {
            if skipped > 0 {
                self.say("No new valid targets were selected");
            } else {
                self.say("No targets were selected");
            }
            return;
        }
        let folders = folders_of(&env.disk, &accepted);
        append_all(&mut candidate.targets, &accepted);
        rebuild_slideshow_task_images(&env.disk, &mut candidate);
        if let Err(error) = validate_task_targets(
            &env.disk,
            &candidate.settings,
            &candidate.targets,
        ) {
            self.activity = error;
            return;
        }
        let settings = candidate.settings.clone();
        self.replace_task(id, candidate);
        self.register_folder_watches(&folders, &settings, env);
        self.activity = if skipped > 0 {
            let k = decimal_text(skipped as u128);
            concat3(
                "Added task targets; skipped ",
                k.as_str(),
                " duplicate or unsupported path(s)",
            )
        } else {
            "Added task targets".to_owned()
        };
        self.unsaved = true;
        self.refresh_folder_summaries(env);
    }
}

} // verus!
