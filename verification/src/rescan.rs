//! New work in watched folders.

use crate::board::{task_named, with_complete_time, with_error, with_status, Board, BoardView};
use crate::disk::{collect_video_files, is_done, should_skip_queue_source, video_files};
use crate::failures::{failed_paths, FailureView};
use crate::model::{ContentMode, QueueSettings, SettingsView};
use crate::natural::{key_views, NaturalPart, PartView};
use crate::paths::{has_path, list_has_path, plain_path, plain_paths, plains};
use crate::presets::{
    mark_views, marks_of, same_marks, FileMark, MarkView, Surroundings, SurroundingsView,
};
use crate::queue::{task_views, QueueStatus, QueueTask, TaskView};
use crate::targets::{
    default_task_name, queued_paths, queued_target_set, remaining_files, remaining_task_inputs,
    task_title,
};
use crate::text::{concat3, decimal, decimal_text, list_contains, opt_text, texts};
use crate::watch::{
    distinct_order, find_watch, is_watched, path_order_key, path_parts, sorted_distinct,
    watch_place, watch_views, WatchView, WatchedFolder,
};
use std::collections::VecDeque;
use vstd::prelude::*;

verus! {

/// A file to be queued.
#[derive(Debug)]
pub struct Addition {
    pub path: String,
    pub settings: QueueSettings,
    pub root: String,
}

/// The contents of an `Addition`.
pub struct AdditionView {
    pub path: Seq<char>,
    pub settings: SettingsView,
    pub root: Seq<char>,
}

impl View for Addition {
    type V = AdditionView;

    open spec fn view(&self) -> AdditionView {
        AdditionView { path: self.path@, settings: self.settings@, root: self.root@ }
    }
}

pub open spec fn addition_views(list: Seq<Addition>) -> Seq<AdditionView> {
    list.map_values(|a: Addition| a@)
}

pub open spec fn addition_keys(list: Seq<AdditionView>) -> Seq<Seq<PartView>> {
    list.map_values(|a: AdditionView| path_parts(a.path))
}

/// The files of a task that are left, given what has failed.
pub open spec fn left_of(env: SurroundingsView, failures: Seq<FailureView>, t: TaskView) -> Seq<
    Seq<char>,
> {
    remaining_files(env.disk, t, failed_paths(failures, t.id))
}

/// The first task that has this target stands at `i`.
pub open spec fn target_at(tasks: Seq<TaskView>, p: Seq<char>, i: int) -> bool {
    0 <= i < tasks.len() && has_path(tasks[i].targets, p) && forall|j: int|
        0 <= j < i ==> !has_path((#[trigger] tasks[j]).targets, p)
}

/// The first task that has this target.
pub open spec fn task_with_target(tasks: Seq<TaskView>, p: Seq<char>) -> Option<Seq<char>> {
    if exists|i: int| target_at(tasks, p, i) {
        Some(tasks[choose|i: int| target_at(tasks, p, i)].id)
    } else {
        None
    }
}

/// The watches with another snapshot of a folder.
pub open spec fn marked(list: Seq<WatchView>, root: Seq<char>, snapshot: Seq<MarkView>) -> Seq<
    WatchView,
> {
    if is_watched(list, root) {
        let i = watch_place(list, root);
        list.update(i, WatchView { snapshot, ..list[i] })
    } else {
        list
    }
}

/// A file that is new work for a watched folder.
pub open spec fn is_new_work(
    env: SurroundingsView,
    existing: Seq<Seq<char>>,
    mode: ContentMode,
) -> spec_fn(Seq<char>) -> bool {
    |p: Seq<char>| !has_path(existing, p) && !is_done(env.disk, p, mode)
}

/// The files of a watched folder that are new work.
pub open spec fn new_files(env: SurroundingsView, existing: Seq<Seq<char>>, w: WatchView) -> Seq<
    AdditionView,
> {
    video_files(env.disk, w.root).filter(
        is_new_work(env, existing, w.settings.mode),
    ).map_values(
        |p: Seq<char>| AdditionView { path: p, settings: w.settings, root: w.root },
    )
}

/// How far a scan has come.
pub struct ScanView {
    pub board: BoardView,
    pub additions: Seq<AdditionView>,
    pub reactivated: nat,
}

impl ScanView {
    /// Looks at one folder. A folder that is a task of its own is not queued file by file: its task
    /// waits again if it was done and there is more to do. A slideshow folder stays one task.
    pub open spec fn with_watch(
        self,
        w: WatchView,
        existing: Seq<Seq<char>>,
        force: bool,
        env: SurroundingsView,
    ) -> ScanView {
        let snapshot = marks_of(env.marks, w.root);
        if !force && snapshot == w.snapshot {
            self
        } else {
            let b = BoardView { watched: marked(self.board.watched, w.root, snapshot), ..self.board };
            if w.settings.mode == ContentMode::PhotoSlideshow {
                ScanView { board: b, ..self }
            } else {
                match task_with_target(b.tasks, w.root) {
                    Some(id) => {
                        let t = task_named(b.tasks, id);
                        if t.status == QueueStatus::Completed && left_of(
                            env,
                            b.failures,
                            t,
                        ).len() > 0 {
                            ScanView {
                                board: BoardView {
                                    tasks: with_complete_time(
                                        with_error(
                                            with_status(b.tasks, id, QueueStatus::Pending),
                                            id,
                                            None,
                                        ),
                                        id,
                                        Seq::empty(),
                                    ),
                                    ..b
                                },
                                reactivated: self.reactivated + 1,
                                ..self
                            }
                        } else {
                            ScanView { board: b, ..self }
                        }
                    },
                    None => ScanView {
                        board: b,
                        additions: self.additions + new_files(env, existing, w),
                        ..self
                    },
                }
            }
        }
    }

    pub open spec fn with_watches(
        self,
        list: Seq<WatchView>,
        existing: Seq<Seq<char>>,
        force: bool,
        env: SurroundingsView,
    ) -> ScanView
        decreases list.len(),
    {
        if list.len() == 0 {
            self
        } else {
            self.with_watches(list.drop_last(), existing, force, env).with_watch(
                list.last(),
                existing,
                force,
                env,
            )
        }
    }
}

/// The board with more files queued, each as a task.
pub open spec fn files_queued(b: BoardView, list: Seq<AdditionView>, env: SurroundingsView) -> BoardView
    decreases list.len(),
{
    if list.len() == 0 {
        b
    } else {
        let a = list.last();
        files_queued(b, list.drop_last(), env).adding(
            task_title(a.settings.mode, a.path),
            seq![a.path],
            a.settings,
            Some(a.root),
            env.now,
        )
    }
}

/// The files that a scan adds, in the order of their paths and each once.
pub open spec fn scan_additions(s: ScanView) -> Seq<AdditionView> {
    sorted_distinct(s.additions, addition_keys(s.additions))
}

pub open spec fn scanned(b: BoardView, force: bool, env: SurroundingsView) -> ScanView {
    (ScanView { board: b, additions: Seq::empty(), reactivated: 0 }).with_watches(
        b.watched,
        queued_paths(b.tasks),
        force,
        env,
    )
}

/// The board after a scan of the watched folders, and how many tasks have new work.
pub open spec fn rescanned(b: BoardView, force: bool, env: SurroundingsView) -> (BoardView, nat) {
    let s = scanned(b, force, env);
    (
        files_queued(s.board, scan_additions(s), env),
        scan_additions(s).len() + s.reactivated,
    )
}

/// The board after a regular look at the watched folders.
pub open spec fn watches_refreshed(b: BoardView, env: SurroundingsView) -> BoardView {
    let (after, found) = rescanned(b, false, env);
    let told = if found > 0 {
        after.saying(
            "Folder watch found new work in "@ + decimal(found) + " queue task(s)"@,
        ).to_save()
    } else {
        after
    };
    told.counted(env)
}

fn find_task_with_target(list: &VecDeque<QueueTask>, path: &str) -> (r: Option<String>)
    ensures
        opt_text(r) == task_with_target(task_views(list@), path@),
{
    let ghost all = task_views(list@);
    let mut i: usize = 0;
    while i < list.len()
        invariant
            i <= list@.len(),
            all == task_views(list@),
            forall|j: int| 0 <= j < i ==> !has_path((#[trigger] all[j]).targets, path@),
        decreases list@.len() - i,
    {
        assert(all[i as int] == list@[i as int]@);
        if list_has_path(&list[i].targets, path) {
            proof {
                assert(target_at(all, path@, i as int));
                let k = choose|k: int| target_at(all, path@, k);
                assert(target_at(all, path@, k));
                if k < i {
                    assert(!has_path(all[k].targets, path@));
                }
                if i < k {
                    assert(!has_path(all[i as int].targets, path@));
                }
            }
            return Some(list[i].id.clone());
        }
        i = i + 1;
    }
    None
}

fn copy_watches(list: &Vec<WatchedFolder>) -> (r: Vec<WatchedFolder>)
    ensures
        watch_views(r@) == watch_views(list@),
{
    let ghost all = watch_views(list@);
    let mut r: Vec<WatchedFolder> = Vec::new();
    let mut i: usize = 0;
    while i < list.len()
        invariant
            i <= list@.len(),
            all == watch_views(list@),
            watch_views(r@) == all.take(i as int),
        decreases list@.len() - i,
    {
        let ghost before = watch_views(r@);
        r.push(list[i].clone());
        assert(watch_views(r@) =~= before.push(all[i as int]));
        i = i + 1;
        assert(watch_views(r@) =~= all.take(i as int));
    }
    assert(all.take(i as int) =~= all);
    r
}

/// Appends the new files of a watched folder.
fn append_new_files(
    additions: &mut Vec<Addition>,
    watch: &WatchedFolder,
    existing: &Vec<String>,
    env: &Surroundings,
)
    ensures
        addition_views(final(additions)@) == addition_views(old(additions)@) + new_files(
            env@,
            texts(existing@),
            watch@,
        ),
{
    let files = collect_video_files(&env.disk, watch.root.as_str());
    let known = plain_paths(existing);
    let ghost all = texts(files@);
    let ghost test = is_new_work(env@, texts(existing@), watch@.settings.mode);
    let ghost make = |p: Seq<char>|
        AdditionView { path: p, settings: watch@.settings, root: watch@.root };
    let ghost start = addition_views(additions@);
    let mut i: usize = 0;
    assert(all.take(0).filter(test) =~= Seq::<Seq<char>>::empty());
    assert(addition_views(additions@) =~= start + all.take(0).filter(test).map_values(make));
    while i < files.len()
        invariant
            i <= files@.len(),
            all == texts(files@),
            test == is_new_work(env@, texts(existing@), watch@.settings.mode),
            texts(known@) == plains(texts(existing@)),
            make == (|p: Seq<char>|
                AdditionView { path: p, settings: watch@.settings, root: watch@.root }),
            addition_views(additions@) == start + all.take(i as int).filter(test).map_values(make),
        decreases files@.len() - i,
    {
        let ghost before = addition_views(additions@);
        let ghost kept = all.take(i as int).filter(test);
        proof {
            assert(all.take(i + 1) =~= all.take(i as int).push(all[i as int]));
            all.take(i as int).lemma_filter_push(all[i as int], test);
            assert(all[i as int] == files@[i as int]@);
        }
        if !list_contains(&known, plain_path(files[i].as_str()).as_str()) && !should_skip_queue_source(
            &env.disk,
            files[i].as_str(),
            watch.settings.mode,
        ) {
            additions.push(
                Addition {
                    path: files[i].clone(),
                    settings: watch.settings.clone(),
                    root: watch.root.clone(),
                },
            );
            assert(addition_views(additions@) =~= before.push(make(all[i as int])));
            assert(kept.push(all[i as int]).map_values(make) =~= kept.map_values(make).push(
                make(all[i as int]),
            ));
            assert(addition_views(additions@) =~= start + all.take(i + 1).filter(
                test,
            ).map_values(make));
        }
        i = i + 1;
    }
    assert(all.take(i as int) =~= all);
}

impl Board {
    fn mark_watch(&mut self, root: &str, snapshot: Vec<FileMark>)
        ensures
            final(self)@ == (BoardView {
                watched: marked(old(self)@.watched, root@, mark_views(snapshot@)),
                ..old(self)@
            }),
    {
        let ghost before = watch_views(self.watched@);
        match find_watch(&self.watched, root) {
            Some(i) => {
                let ghost taken = mark_views(snapshot@);
                assert(before[i as int] == self.watched@[i as int]@);
                let changed = WatchedFolder {
                    root: self.watched[i].root.clone(),
                    settings: self.watched[i].settings.clone(),
                    snapshot,
                };
                self.watched.set(i, changed);
                assert(watch_views(self.watched@) =~= before.update(
                    i as int,
                    WatchView { snapshot: taken, ..before[i as int] },
                ));
            },
            None => {},
        }
    }

    /// Looks at one watched folder, and says whether its task waits again.
    fn scan_watch(
        &mut self,
        watch: &WatchedFolder,
        existing: &Vec<String>,
        force: bool,
        env: &Surroundings,
        additions: &mut Vec<Addition>,
    ) -> (r: bool)
        ensures
            forall|n: nat|
                (ScanView {
                    board: final(self)@,
                    additions: addition_views(final(additions)@),
                    reactivated: (n + if r {
                        1int
                    } else {
                        0int
                    }) as nat,
                }) == #[trigger] (ScanView {
                    board: old(self)@,
                    additions: addition_views(old(additions)@),
                    reactivated: n,
                }).with_watch(watch@, texts(existing@), force, env@),
    {
        let snapshot = env.folder_snapshot(watch.root.as_str());
        if !force && same_marks(&snapshot, &watch.snapshot) {
            return false;
        }
        self.mark_watch(watch.root.as_str(), snapshot);
        if watch.settings.mode == ContentMode::PhotoSlideshow {
            return false;
        }
        match find_task_with_target(self.queue.tasks(), watch.root.as_str()) {
            Some(id) => {
                let mut again = false;
                if let Some(task) = self.queue.task(id.as_str()) {
                    let failed = self.failures.paths_of_task(id.as_str());
                    let left = remaining_task_inputs(&env.disk, task, &failed);
                    assert(texts(left@).len() == left@.len());
                    again = task.status == QueueStatus::Completed && left.len() > 0;
                }
                proof {
                    let tasks = self.queue@;
                    let k = choose|k: int| target_at(tasks, watch@.root, k);
                    assert(target_at(tasks, watch@.root, k));
                    crate::queue::lemma_has_position(tasks, id@, k);
                }
                if again {
                    self.make_pending(id.as_str());
                }
                again
            },
            None => {
                append_new_files(additions, watch, existing, env);
                false
            },
        }
    }

    fn queue_additions(&mut self, additions: &Vec<Addition>, order: &Vec<usize>, env: &Surroundings)
        requires
            forall|i: int| 0 <= i < order@.len() ==> 0 <= (#[trigger] order@[i]) < additions@.len(),
        ensures
            final(self)@ == files_queued(
                old(self)@,
                order@.map_values(|p: usize| addition_views(additions@)[p as int]),
                env@,
            ),
    {
        let ghost list = order@.map_values(|p: usize| addition_views(additions@)[p as int]);
        let ghost start = self@;
        let mut i: usize = 0;
        assert(list.take(0) =~= Seq::<AdditionView>::empty());
        while i < order.len()
            invariant
                i <= order@.len(),
                list == order@.map_values(|p: usize| addition_views(additions@)[p as int]),
                forall|k: int|
                    0 <= k < order@.len() ==> 0 <= (#[trigger] order@[k]) < additions@.len(),
                self@ == files_queued(start, list.take(i as int), env@),
            decreases order@.len() - i,
        {
            assert(list.take(i + 1).drop_last() =~= list.take(i as int));
            let addition = &additions[order[i]];
            assert(list.take(i + 1).last() == addition@);
            let name = default_task_name(addition.settings.mode, addition.path.as_str());
            let mut targets: Vec<String> = Vec::new();
            targets.push(addition.path.clone());
            assert(texts(targets@) =~= seq![addition@.path]);
            let _ = self.add_task(
                name,
                targets,
                addition.settings.clone(),
                Some(addition.root.clone()),
                env.now.as_str(),
            );
            i = i + 1;
        }
        assert(list.take(i as int) =~= list);
    }

    /// Looks for new work in the watched folders, and says how many tasks have some.
    pub fn rescan_watched_folders(&mut self, force: bool, env: &Surroundings) -> (r: u128)
        ensures
            (final(self)@, r as nat) == rescanned(old(self)@, force, env@),
    {
        let existing = queued_target_set(&self.queue);
        let watches = copy_watches(&self.watched);
        let ghost all = watch_views(watches@);
        let ghost start = ScanView { board: self@, additions: Seq::empty(), reactivated: 0 };
        let mut additions: Vec<Addition> = Vec::new();
        let mut reactivated: usize = 0;
        let mut i: usize = 0;
        assert(addition_views(additions@) =~= Seq::<AdditionView>::empty());
        assert(all.take(0) =~= Seq::<WatchView>::empty());
        while i < watches.len()
            invariant
                i <= watches@.len(),
                reactivated <= i,
                all == watch_views(watches@),
                (ScanView {
                    board: self@,
                    additions: addition_views(additions@),
                    reactivated: reactivated as nat,
                }) == start.with_watches(all.take(i as int), texts(existing@), force, env@),
            decreases watches@.len() - i,
        {
            assert(all.take(i + 1).drop_last() =~= all.take(i as int));
            assert(all.take(i + 1).last() == watches@[i as int]@);
            let ghost before = ScanView {
                board: self@,
                additions: addition_views(additions@),
                reactivated: reactivated as nat,
            };
            let again = self.scan_watch(&watches[i], &existing, force, env, &mut additions);
            if again {
                reactivated = reactivated + 1;
            }
            i = i + 1;
        }
        assert(all.take(i as int) =~= all);
        let ghost s = scanned(old(self)@, force, env@);
        let mut keys: Vec<Vec<NaturalPart>> = Vec::new();
        let ghost wanted = addition_keys(addition_views(additions@));
        let mut k: usize = 0;
        while k < additions.len()
            invariant
                k <= additions@.len(),
                wanted == addition_keys(addition_views(additions@)),
                key_views(keys@) == wanted.take(k as int),
            decreases additions@.len() - k,
        {
            let ghost before = key_views(keys@);
            keys.push(path_order_key(additions[k].path.as_str()));
            assert(key_views(keys@) =~= before.push(wanted[k as int]));
            k = k + 1;
            assert(key_views(keys@) =~= wanted.take(k as int));
        }
        assert(key_views(keys@) =~= wanted);
        assert(key_views(keys@).len() == keys@.len());
        let order = distinct_order(&keys);
        assert(scan_additions(s) == order@.map_values(
            |p: usize| addition_views(additions@)[p as int],
        ));
        let count: u128 = order.len() as u128 + reactivated as u128;
        self.queue_additions(&additions, &order, env);
        count
    }

    /// Takes a regular look at the watched folders.
    pub fn refresh_folder_watches(&mut self, env: &Surroundings)
        ensures
            final(self)@ == watches_refreshed(old(self)@, env@),
    {
        let found: u128 = self.rescan_watched_folders(false, env);
        if found > 0 {
            let n = decimal_text(found);
            self.activity = concat3(
                "Folder watch found new work in ",
                n.as_str(),
                " queue task(s)",
            );
            self.unsaved = true;
        }
        self.refresh_folder_summaries(env);
    }
}

} // verus!
