//! The queue together with what is selected, watched, and running, and the changes that a user makes
//! to it.

use crate::counts::summary_views;
use crate::disk::DiskView;
use crate::failures::{is_of_other_task, FailureView, RunFailures};
use crate::model::{QueueSettings, SettingsView};
use crate::presets::{marks_of, Surroundings, SurroundingsView};
use crate::queue::{
    has_id, new_task_view, position_of, task_views, Queue, QueueStatus, QueueTask, TaskView,
};
use crate::selection::{
    extended, is_in, only, update_extended_selection, Modifiers, Selection, SelectionView,
};
use crate::starts::StartCounts;
use crate::summary::{FolderQueueSummary, SummaryView};
use crate::text::{concat2, decimal, decimal_text, opt_text, texts};
use crate::watch::{
    folder_queue_summaries, is_used, prune_unused_folder_watches, register_watch, registered,
    watch_summaries, watch_views, WatchView, WatchedFolder,
};
use vstd::prelude::*;

verus! {

/// What the queue is doing.
#[derive(Debug, Clone, Copy, PartialEq, Eq, Structural)]
pub enum QueueRunState {
    Idle,
    /// Running all pending tasks.
    Running,
    /// Running one task.
    RunningSelected,
    PauseAfterCurrent,
    PauseAfterCurrentSelected,
    PausedBetweenFiles,
    PausedBetweenFilesSelected,
    Stopping,
}

/// The conversion that runs.
#[derive(Debug, PartialEq, Eq)]
pub struct ActiveWorker {
    pub task_id: String,
    pub target: String,
    pub paused: bool,
}

/// The contents of an `ActiveWorker`.
pub struct WorkerView {
    pub task_id: Seq<char>,
    pub target: Seq<char>,
    pub paused: bool,
}

impl View for ActiveWorker {
    type V = WorkerView;

    open spec fn view(&self) -> WorkerView {
        WorkerView { task_id: self.task_id@, target: self.target@, paused: self.paused }
    }
}

pub open spec fn opt_worker(w: Option<ActiveWorker>) -> Option<WorkerView> {
    match w {
        Some(w) => Some(w@),
        None => None,
    }
}

/// The queue with what is selected, watched, and running.
#[derive(Debug)]
pub struct Board {
    pub queue: Queue,
    pub selection: Selection,
    /// The number of the next task.
    pub next_id: u64,
    pub run_state: QueueRunState,
    pub worker: Option<ActiveWorker>,
    pub watched: Vec<WatchedFolder>,
    pub summaries: Vec<FolderQueueSummary>,
    pub failures: RunFailures,
    pub starts: StartCounts,
    /// What happened last.
    pub activity: String,
    pub completion_notice: String,
    /// The queue has changed since it was last saved.
    pub unsaved: bool,
}

/// The contents of a `Board`.
pub struct BoardView {
    pub tasks: Seq<TaskView>,
    pub selection: SelectionView,
    pub next_id: u64,
    pub run_state: QueueRunState,
    pub worker: Option<WorkerView>,
    pub watched: Seq<WatchView>,
    pub summaries: Seq<SummaryView>,
    pub failures: Seq<FailureView>,
    pub starts: Map<Seq<char>, usize>,
    pub activity: Seq<char>,
    pub completion_notice: Seq<char>,
    pub unsaved: bool,
}

impl View for Board {
    type V = BoardView;

    open spec fn view(&self) -> BoardView {
        BoardView {
            tasks: self.queue@,
            selection: self.selection@,
            next_id: self.next_id,
            run_state: self.run_state,
            worker: opt_worker(self.worker),
            watched: watch_views(self.watched@),
            summaries: summary_views(self.summaries@),
            failures: self.failures@,
            starts: self.starts@,
            activity: self.activity@,
            completion_notice: self.completion_notice@,
            unsaved: self.unsaved,
        }
    }
}

/// The task with this identifier.
pub open spec fn task_named(tasks: Seq<TaskView>, id: Seq<char>) -> TaskView {
    tasks[position_of(tasks, id)]
}

/// The tasks with a task in place of the one with this identifier.
pub open spec fn with_task(tasks: Seq<TaskView>, id: Seq<char>, t: TaskView) -> Seq<TaskView> {
    if has_id(tasks, id) {
        tasks.update(position_of(tasks, id), t)
    } else {
        tasks
    }
}

pub open spec fn with_status(tasks: Seq<TaskView>, id: Seq<char>, status: QueueStatus) -> Seq<
    TaskView,
> {
    with_task(tasks, id, TaskView { status, ..task_named(tasks, id) })
}

pub open spec fn with_error(tasks: Seq<TaskView>, id: Seq<char>, error: Option<Seq<char>>) -> Seq<
    TaskView,
> {
    with_task(tasks, id, TaskView { error, ..task_named(tasks, id) })
}

pub open spec fn with_complete_time(tasks: Seq<TaskView>, id: Seq<char>, time: Seq<char>) -> Seq<
    TaskView,
> {
    with_task(tasks, id, TaskView { complete_time: time, ..task_named(tasks, id) })
}

pub open spec fn without_skipped(tasks: Seq<TaskView>, id: Seq<char>) -> Seq<TaskView> {
    with_task(tasks, id, TaskView { skipped_paths: Seq::empty(), ..task_named(tasks, id) })
}

/// The identifiers of the tasks, in queue order.
pub open spec fn task_ids(tasks: Seq<TaskView>) -> Seq<Seq<char>> {
    tasks.map_values(|t: TaskView| t.id)
}

/// The identifier of the `n`th task that is made.
pub open spec fn numbered_id(n: u64) -> Seq<char> {
    "task-"@ + decimal(n as nat)
}

/// The number after `n`; the largest number stays.
pub open spec fn bumped(n: u64) -> u64 {
    if n == u64::MAX {
        n
    } else {
        (n + 1) as u64
    }
}

/// The watches with those of more folders.
pub open spec fn registered_all(
    list: Seq<WatchView>,
    roots: Seq<Seq<char>>,
    settings: SettingsView,
    env: SurroundingsView,
) -> Seq<WatchView>
    decreases roots.len(),
{
    if roots.len() == 0 {
        list
    } else {
        registered(
            registered_all(list, roots.drop_last(), settings, env),
            WatchView {
                root: roots.last(),
                settings,
                snapshot: marks_of(env.marks, roots.last()),
            },
        )
    }
}

pub open spec fn folders_among(d: DiskView, paths: Seq<Seq<char>>) -> Seq<Seq<char>> {
    paths.filter(crate::watch::is_folder_on(d))
}

impl BoardView {
    pub open spec fn saying(self, text: Seq<char>) -> BoardView {
        BoardView { activity: text, ..self }
    }

    /// The queue is to be saved.
    pub open spec fn to_save(self) -> BoardView {
        BoardView { unsaved: true, ..self }
    }

    pub open spec fn selecting(self, id: Option<Seq<char>>) -> BoardView {
        BoardView { selection: only(id), ..self }
    }

    /// The counts of the watched folders are taken anew.
    pub open spec fn counted(self, env: SurroundingsView) -> BoardView {
        BoardView {
            summaries: watch_summaries(env, self.tasks, self.failures, self.watched),
            ..self
        }
    }

    pub open spec fn watching(
        self,
        roots: Seq<Seq<char>>,
        settings: SettingsView,
        env: SurroundingsView,
    ) -> BoardView {
        BoardView { watched: registered_all(self.watched, roots, settings, env), ..self }
    }

    /// What is known of a task's earlier runs is forgotten.
    pub open spec fn forgetting(self, id: Seq<char>) -> BoardView {
        BoardView {
            failures: self.failures.filter(is_of_other_task(id)),
            starts: self.starts.remove(id),
            ..self
        }
    }

    /// Only folders that some task works on stay watched.
    pub open spec fn pruned(self) -> BoardView {
        BoardView { watched: self.watched.filter(is_used(self.tasks)), ..self }
    }

    /// Whether the next task can be added: its identifier is free.
    pub open spec fn can_add(self) -> bool {
        !has_id(self.tasks, numbered_id(self.next_id))
    }

    /// A new task is added at the end of the queue and selected.
    pub open spec fn adding(
        self,
        name: Seq<char>,
        targets: Seq<Seq<char>>,
        settings: SettingsView,
        source_root: Option<Seq<char>>,
        now: Seq<char>,
    ) -> BoardView {
        let id = numbered_id(self.next_id);
        let next = BoardView { next_id: bumped(self.next_id), ..self };
        if self.can_add() {
            BoardView {
                tasks: self.tasks.push(
                    TaskView {
                        source_root,
                        queued_time: now,
                        ..new_task_view(id, name, targets, settings)
                    },
                ),
                ..next
            }.selecting(Some(id))
        } else {
            next.saying("queue task id already exists: "@ + id)
        }
    }

    /// The selected tasks, in queue order.
    pub open spec fn selected_ids(self) -> Seq<Seq<char>> {
        task_ids(self.tasks).filter(is_in(self.selection.ids))
    }

    /// The queue is emptied, unless a conversion runs.
    pub open spec fn cleared(self) -> BoardView {
        if self.worker is Some {
            self.saying("Stop the active conversion before clearing the queue"@)
        } else {
            BoardView {
                run_state: QueueRunState::Idle,
                tasks: Seq::empty(),
                failures: Seq::empty(),
                starts: Map::empty(),
                watched: Seq::empty(),
                summaries: Seq::empty(),
                ..self
            }.selecting(None).saying("Queue cleared"@).to_save()
        }
    }
}

impl Board {
    /// An empty board.
    pub fn new() -> (r: Self)
        ensures
            r@ == (BoardView {
                tasks: Seq::empty(),
                selection: only(None),
                next_id: 1,
                run_state: QueueRunState::Idle,
                worker: None,
                watched: Seq::empty(),
                summaries: Seq::empty(),
                failures: Seq::empty(),
                starts: Map::empty(),
                activity: "Ready"@,
                completion_notice: Seq::empty(),
                unsaved: false,
            }),
    {
        let r = Board {
            queue: Queue::default(),
            selection: Selection::new(),
            next_id: 1,
            run_state: QueueRunState::Idle,
            worker: None,
            watched: Vec::new(),
            summaries: Vec::new(),
            failures: RunFailures::default(),
            starts: StartCounts::new(),
            activity: "Ready".to_owned(),
            completion_notice: String::new(),
            unsaved: false,
        };
        assert(r@.watched =~= Seq::<WatchView>::empty());
        assert(r@.summaries =~= Seq::<SummaryView>::empty());
        assert(r@.completion_notice =~= Seq::<char>::empty());
        r
    }

    pub fn say(&mut self, text: &str)
        ensures
            final(self)@ == old(self)@.saying(text@),
    {
        self.activity = text.to_owned();
    }

    pub fn select_only(&mut self, id: Option<String>)
        ensures
            final(self)@ == old(self)@.selecting(opt_text(id)),
    {
        self.selection.select_only(id);
    }

    /// The identifiers of the tasks, in queue order.
    pub fn ids(&self) -> (r: Vec<String>)
        ensures
            texts(r@) == task_ids(self@.tasks),
    {
        let list = self.queue.tasks();
        let ghost all = task_ids(self.queue@);
        let mut r: Vec<String> = Vec::new();
        let mut i: usize = 0;
        while i < list.len()
            invariant
                i <= list@.len(),
                task_views(list@) == self.queue@,
                all == task_ids(self.queue@),
                texts(r@) == all.take(i as int),
            decreases list@.len() - i,
        {
            let ghost before = texts(r@);
            assert(self.queue@[i as int] == list@[i as int]@);
            r.push(list[i].id.clone());
            assert(texts(r@) =~= before.push(all[i as int]));
            i = i + 1;
            assert(texts(r@) =~= all.take(i as int));
        }
        assert(all.take(i as int) =~= all);
        r
    }

    /// The selected tasks, in queue order.
    pub fn selected_task_ids(&self) -> (r: Vec<String>)
        ensures
            texts(r@) == self@.selected_ids(),
    {
        let ids = self.ids();
        self.selection.selected_in(&ids)
    }

    /// Changes the selection by a click on a task.
    pub fn apply_task_selection(&mut self, id: String, modifiers: Modifiers)
        ensures
            final(self)@ == (BoardView {
                selection: extended(
                    old(self)@.selection,
                    task_ids(old(self)@.tasks),
                    id@,
                    modifiers,
                ),
                ..old(self)@
            }),
    {
        let ids = self.ids();
        update_extended_selection(&ids, id, modifiers, &mut self.selection);
    }

    pub fn refresh_folder_summaries(&mut self, env: &Surroundings)
        ensures
            final(self)@ == old(self)@.counted(env@),
    {
        self.summaries = folder_queue_summaries(env, &self.watched, &self.queue, &self.failures);
    }

    pub fn register_folder_watches(
        &mut self,
        roots: &Vec<String>,
        settings: &QueueSettings,
        env: &Surroundings,
    )
        ensures
            final(self)@ == old(self)@.watching(texts(roots@), settings@, env@),
    {
        let ghost all = texts(roots@);
        let ghost start = self@;
        let mut i: usize = 0;
        assert(all.take(0) =~= Seq::<Seq<char>>::empty());
        while i < roots.len()
            invariant
                i <= roots@.len(),
                all == texts(roots@),
                self@ == start.watching(all.take(i as int), settings@, env@),
            decreases roots@.len() - i,
        {
            assert(all.take(i + 1).drop_last() =~= all.take(i as int));
            assert(all.take(i + 1).last() == roots@[i as int]@);
            let watch = WatchedFolder {
                root: roots[i].clone(),
                settings: settings.clone(),
                snapshot: env.folder_snapshot(roots[i].as_str()),
            };
            register_watch(&mut self.watched, watch);
            i = i + 1;
        }
        assert(all.take(i as int) =~= all);
    }

    pub fn forget_runs(&mut self, id: &str)
        ensures
            final(self)@ == old(self)@.forgetting(id@),
    {
        self.failures.forget_task(id);
        self.starts.remove(id);
    }

    pub fn prune_watches(&mut self)
        ensures
            final(self)@ == old(self)@.pruned(),
    {
        prune_unused_folder_watches(&mut self.watched, &self.queue);
    }

    pub fn add_task(
        &mut self,
        name: String,
        targets: Vec<String>,
        settings: QueueSettings,
        source_root: Option<String>,
        now: &str,
    ) -> (r: bool)
        ensures
            final(self)@ == old(self)@.adding(
                name@,
                texts(targets@),
                settings@,
                opt_text(source_root),
                now@,
            ),
            r == old(self)@.can_add(),
    {
        let number = decimal_text(self.next_id as u128);
        let id = concat2("task-", number.as_str());
        if self.next_id < u64::MAX {
            self.next_id = self.next_id + 1;
        }
        let mut task = QueueTask::new(id.clone(), name, targets, settings);
        task.source_root = source_root;
        task.queued_time = now.to_owned();
        match self.queue.add(task) {
            Ok(()) => {
                self.select_only(Some(id));
                true
            },
            Err(error) => {
                self.activity = error.message();
                false
            },
        }
    }

    /// Empties the queue, unless a conversion runs.
    pub fn clear_queue(&mut self)
        ensures
            final(self)@ == old(self)@.cleared(),
    {
        if self.worker.is_some() {
            self.say("Stop the active conversion before clearing the queue");
            return;
        }
        self.run_state = QueueRunState::Idle;
        self.queue.clear();
        self.failures.clear();
        self.starts.clear();
        self.watched = Vec::new();
        self.summaries = Vec::new();
        assert(watch_views(self.watched@) =~= Seq::<WatchView>::empty());
        assert(summary_views(self.summaries@) =~= Seq::<SummaryView>::empty());
        self.select_only(None);
        self.say("Queue cleared");
        self.unsaved = true;
    }
}

} // verus!
