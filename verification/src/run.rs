//! Running the queue: which conversion starts next, and what follows when one has ended.

use crate::board::{
    task_named, with_error, with_status, Board, BoardView, ActiveWorker, QueueRunState, WorkerView,
};
use crate::counts::{
    capped, capped_sum, completion_summary, completion_text, failure_note, shown_counts,
    task_counts, task_display_counts, task_run_failure_summary, TaskDisplayCounts,
};
use crate::failures::{failed_paths, failures_of, FailureView};
use crate::model::{
    container_extension, ContentMode, ConversionRequest, QueueSettings, SettingsView,
};
use crate::output_naming::{
    conversion_output_path, stabilized_output_path, stabilized_path, trim_output_path, trimmed_path,
};
use crate::paths::with_ext;
use crate::presets::{container_of, Surroundings, SurroundingsView};
use crate::queue::{has_id, next_pending, task_views, QueueStatus, QueueTask, TaskView};
use crate::rescan::{left_of, rescanned};
use crate::targets::{free_slideshow_output, next_slideshow_output_path, remaining_task_inputs};
use crate::text::{concat2, opt_text, texts};
use crate::time::smaller;
use vstd::prelude::*;

verus! {

/// A conversion to start.
#[derive(Debug, PartialEq, Eq)]
pub struct StartOrder {
    pub task_id: String,
    pub request: ConversionRequest,
}

/// The contents of a `StartOrder`.
pub struct OrderView {
    pub task_id: Seq<char>,
    pub input: Seq<char>,
    pub output: Seq<char>,
    pub settings: SettingsView,
}

impl View for StartOrder {
    type V = OrderView;

    open spec fn view(&self) -> OrderView {
        OrderView {
            task_id: self.task_id@,
            input: self.request.input@,
            output: self.request.output@,
            settings: self.request.settings@,
        }
    }
}

pub open spec fn opt_order(o: Option<StartOrder>) -> Option<OrderView> {
    match o {
        Some(o) => Some(o@),
        None => None,
    }
}

/// The file that a task works on next.
pub open spec fn next_input(b: BoardView, env: SurroundingsView, t: TaskView) -> Option<Seq<char>> {
    let files = if t.settings.mode == ContentMode::PhotoSlideshow {
        t.targets
    } else {
        left_of(env, b.failures, t)
    };
    if files.len() > 0 {
        Some(files[0])
    } else {
        None
    }
}

/// Where the result of a task's next file goes, or why the task cannot run.
pub open spec fn output_of(env: SurroundingsView, s: SettingsView, input: Seq<char>) -> Result<
    Seq<char>,
    Seq<char>,
> {
    match s.mode {
        ContentMode::Trim => match (s.trim_start, s.trim_end) {
            (None, _) => Err("Trim start is missing."@),
            (Some(_), None) => Err("Trim end is missing."@),
            (Some(start), Some(end)) => if end.nanos < start.nanos {
                Err("Trim end must be at or after start."@)
            } else {
                Ok(trimmed_path(input, start, end))
            },
        },
        ContentMode::Stabilize => Ok(stabilized_path(input)),
        ContentMode::PhotoSlideshow => match free_slideshow_output(env.disk, input) {
            Some(path) => Ok(path),
            None => Err("No free name was found for the slideshow."@),
        },
        _ => Ok(with_ext(input, container_extension(container_of(env.presets, s.mode, s.encoder)))),
    }
}

/// The counts of a task on the board.
pub open spec fn counts_on(b: BoardView, env: SurroundingsView, t: TaskView) -> TaskDisplayCounts {
    shown_counts(task_counts(env.disk, t, b.summaries, failed_paths(b.failures, t.id)))
}

/// How many files of a task have failed.
pub open spec fn failed_count(failures: Seq<FailureView>, id: Seq<char>) -> nat {
    failures_of(failures, id).len()
}

/// The board after the selected task was started, and the conversion to start; none where the task
/// cannot start.
pub open spec fn started(b: BoardView, env: SurroundingsView) -> (BoardView, Option<OrderView>) {
    match b.selection.primary {
        None => (b, None),
        Some(id) => if !has_id(b.tasks, id) {
            (b.saying("Selected queue item no longer exists."@), None)
        } else {
            let t = task_named(b.tasks, id);
            match next_input(b, env, t) {
                None => (
                    BoardView {
                        tasks: with_status(b.tasks, id, QueueStatus::Completed),
                        ..b
                    }.saying("No remaining work was found in the selected task"@).to_save(),
                    None,
                ),
                Some(input) => match output_of(env, t.settings, input) {
                    Err(e) => (b.saying(e), None),
                    Ok(output) => (
                        BoardView {
                            starts: if b.starts.contains_key(id) {
                                b.starts
                            } else {
                                b.starts.insert(id, counts_on(b, env, t).converted)
                            },
                            tasks: with_error(
                                with_status(b.tasks, id, QueueStatus::Running),
                                id,
                                failure_note(failed_count(b.failures, id)),
                            ),
                            worker: Some(
                                WorkerView { task_id: id, target: input, paused: false },
                            ),
                            ..b
                        }.saying("Running "@ + t.name).to_save(),
                        Some(
                            OrderView { task_id: id, input, output, settings: t.settings },
                        ),
                    ),
                },
            }
        },
    }
}

/// The board after the first pending task that can start was started. A task without work is done; one
/// that cannot start has failed. At most `fuel` tasks are tried.
pub open spec fn first_started(b: BoardView, env: SurroundingsView, fuel: nat) -> (
    BoardView,
    Option<OrderView>,
)
    decreases fuel,
{
    match next_pending(b.tasks) {
        None => (b, None),
        Some(id) => if fuel == 0 {
            (b, None)
        } else {
            let (after, order) = started(b.selecting(Some(id)), env);
            if order is Some {
                (after, order)
            } else {
                first_started(given_up(after, id), env, (fuel - 1) as nat)
            }
        },
    }
}

/// A task that could not start has failed, unless it is done.
pub open spec fn given_up(b: BoardView, id: Seq<char>) -> BoardView {
    if has_id(b.tasks, id) && task_named(b.tasks, id).status == QueueStatus::Completed {
        b
    } else {
        BoardView {
            tasks: with_error(with_status(b.tasks, id, QueueStatus::Failed), id, Some(b.activity)),
            ..b
        }
    }
}

/// What the queue does next.
#[derive(Debug, PartialEq, Eq)]
pub enum NextStep {
    Start(StartOrder),
    /// New work was found: look again.
    Again,
    /// All is done.
    Finished,
    /// The queue does not go on by itself.
    Rest,
}

/// The contents of a `NextStep`.
pub enum StepView {
    Start(OrderView),
    Again,
    Finished,
    Rest,
}

impl View for NextStep {
    type V = StepView;

    open spec fn view(&self) -> StepView {
        match *self {
            NextStep::Start(order) => StepView::Start(order@),
            NextStep::Again => StepView::Again,
            NextStep::Finished => StepView::Finished,
            NextStep::Rest => StepView::Rest,
        }
    }
}

/// The totals of the queue before they are capped.
pub struct TotalsView {
    pub previous: nat,
    pub this_run: nat,
    pub failed: nat,
    pub remaining: nat,
}

/// How many files of a task were converted before its run, as far as that is known.
pub open spec fn converted_before(b: BoardView, id: Seq<char>, counts: TaskDisplayCounts) -> nat {
    let known = if b.starts.contains_key(id) {
        b.starts[id]
    } else {
        counts.converted
    };
    smaller(known as int, counts.files as int) as nat
}

pub open spec fn queue_totals(b: BoardView, env: SurroundingsView, tasks: Seq<TaskView>) -> TotalsView
    decreases tasks.len(),
{
    if tasks.len() == 0 {
        TotalsView { previous: 0, this_run: 0, failed: 0, remaining: 0 }
    } else {
        let n = queue_totals(b, env, tasks.drop_last());
        let t = tasks.last();
        let counts = counts_on(b, env, t);
        let before = converted_before(b, t.id, counts);
        TotalsView {
            previous: n.previous + before,
            this_run: n.this_run + if counts.converted > before {
                (counts.converted - before) as nat
            } else {
                0
            },
            failed: n.failed + counts.failed as nat,
            remaining: n.remaining + counts.remaining as nat,
        }
    }
}

/// The words for the end of the queue.
pub open spec fn completion_of(b: BoardView, env: SurroundingsView) -> Seq<char> {
    let n = queue_totals(b, env, b.tasks);
    completion_text(
        capped(n.this_run) as nat,
        capped(n.previous) as nat,
        capped(n.failed) as nat,
        capped(n.remaining) as nat,
    )
}

/// The board after the next pending task was started; where there is none, after a scan for new work,
/// and where that finds none, at the end of the queue.
pub open spec fn went_on(b: BoardView, env: SurroundingsView) -> (BoardView, StepView) {
    let (tried, order) = first_started(b, env, b.tasks.len());
    match order {
        Some(order) => (tried, StepView::Start(order)),
        None => {
            let (scanned, found) = rescanned(tried, true, env);
            if found > 0 {
                (scanned, StepView::Again)
            } else {
                let idle = BoardView { run_state: QueueRunState::Idle, ..scanned };
                let text = completion_of(idle, env);
                (
                    BoardView { completion_notice: text, ..idle }.saying(text).to_save(),
                    StepView::Finished,
                )
            }
        },
    }
}

/// The counts of the tasks that wait are taken anew when they start.
pub open spec fn pending_forgotten(starts: Map<Seq<char>, usize>, tasks: Seq<TaskView>) -> Map<
    Seq<char>,
    usize,
>
    decreases tasks.len(),
{
    if tasks.len() == 0 {
        starts
    } else {
        let before = pending_forgotten(starts, tasks.drop_last());
        if tasks.last().status == QueueStatus::Pending {
            before.remove(tasks.last().id)
        } else {
            before
        }
    }
}

/// The board after the queue was started.
pub open spec fn queue_started(b: BoardView, env: SurroundingsView) -> (BoardView, StepView) {
    went_on(
        BoardView {
            completion_notice: Seq::empty(),
            starts: pending_forgotten(b.starts, b.tasks),
            run_state: QueueRunState::Running,
            ..b
        },
        env,
    )
}

impl Board {
    fn next_input(&self, task: &QueueTask, env: &Surroundings) -> (r: Option<String>)
        ensures
            opt_text(r) == next_input(self@, env@, task@),
    {
        if task.settings.mode == ContentMode::PhotoSlideshow {
            assert(task@.targets.len() == task.targets@.len());
            if task.targets.len() > 0 {
                assert(task@.targets[0] == task.targets@[0]@);
                Some(task.targets[0].clone())
            } else {
                None
            }
        } else {
            let failed = self.failures.paths_of_task(task.id.as_str());
            let left = remaining_task_inputs(&env.disk, task, &failed);
            assert(texts(left@).len() == left@.len());
            if left.len() > 0 {
                assert(texts(left@)[0] == left@[0]@);
                Some(left[0].clone())
            } else {
                None
            }
        }
    }

    /// The counts of a task.
    pub fn display_counts(&self, task: &QueueTask, env: &Surroundings) -> (r: TaskDisplayCounts)
        ensures
            r == counts_on(self@, env@, task@),
    {
        let failed = self.failures.paths_of_task(task.id.as_str());
        task_display_counts(&env.disk, task, &self.summaries, &failed)
    }

    fn failed_files(&self, id: &str) -> (r: usize)
        ensures
            r == failed_count(self@.failures, id@),
    {
        let list = self.failures.of_task(id);
        assert(crate::failures::failure_views(list@).len() == list@.len());
        list.len()
    }

    /// Starts the selected task.
    pub fn start_selected(&mut self, env: &Surroundings) -> (r: Option<StartOrder>)
        ensures
            (final(self)@, opt_order(r)) == started(old(self)@, env@),
    {
        let id = match &self.selection.primary {
            Some(id) => id.clone(),
            None => {
                return None;
            },
        };
        let task = match self.queue.task(id.as_str()) {
            Some(task) => task.clone(),
            None => {
                self.say("Selected queue item no longer exists.");
                return None;
            },
        };
        let input = match self.next_input(&task, env) {
            Some(input) => input,
            None => {
                let _ = self.queue.set_status(id.as_str(), QueueStatus::Completed);
                self.say("No remaining work was found in the selected task");
                self.unsaved = true;
                return None;
            },
        };
        let output = match output_for(env, &task.settings, input.as_str()) {
            Ok(output) => output,
            Err(message) => {
                self.activity = message;
                return None;
            },
        };
        let counts = self.display_counts(&task, env);
        self.starts.insert_if_absent(id.as_str(), counts.converted);
        let _ = self.queue.set_status(id.as_str(), QueueStatus::Running);
        let failed: usize = self.failed_files(id.as_str());
        let _ = self.queue.set_error(id.as_str(), task_run_failure_summary(failed));
        self.activity = concat2("Running ", task.name.as_str());
        self.worker = Some(
            ActiveWorker { task_id: id.clone(), target: input.clone(), paused: false },
        );
        self.unsaved = true;
        Some(
            StartOrder {
                task_id: id,
                request: ConversionRequest { input, output, settings: task.settings },
            },
        )
    }

    fn give_up(&mut self, id: &str)
        ensures
            final(self)@ == given_up(old(self)@, id@),
    {
        let done = match self.queue.task(id) {
            Some(task) => task.status == QueueStatus::Completed,
            None => false,
        };
        if !done {
            let message = self.activity.clone();
            let _ = self.queue.set_status(id, QueueStatus::Failed);
            let _ = self.queue.set_error(id, Some(message));
        }
    }

    fn start_first(&mut self, env: &Surroundings) -> (r: Option<StartOrder>)
        ensures
            (final(self)@, opt_order(r)) == first_started(old(self)@, env@, old(self)@.tasks.len()),
    {
        let ghost start = self@;
        let list = self.queue.tasks();
        assert(list@.len() == self.queue@.len());
        let total: usize = list.len();
        let mut fuel: usize = total;
        while fuel > 0
            invariant
                start == old(self)@,
                first_started(start, env@, start.tasks.len()) == first_started(
                    self@,
                    env@,
                    fuel as nat,
                ),
            decreases fuel,
        {
            let id = match self.queue.next_pending_id() {
                Some(id) => id.to_owned(),
                None => {
                    return None;
                },
            };
            self.select_only(Some(id.clone()));
            let order = self.start_selected(env);
            if order.is_some() {
                return order;
            }
            self.give_up(id.as_str());
            fuel = fuel - 1;
        }
        None
    }

    /// The words for the end of the queue.
    pub fn queue_completion_summary(&self, env: &Surroundings) -> (r: String)
        ensures
            r@ == completion_of(self@, env@),
    {
        let list = self.queue.tasks();
        let ghost all = self.queue@;
        let mut previous: usize = 0;
        let mut this_run: usize = 0;
        let mut failed: usize = 0;
        let mut remaining: usize = 0;
        let mut i: usize = 0;
        assert(all.take(0) =~= Seq::<TaskView>::empty());
        while i < list.len()
            invariant
                i <= list@.len(),
                task_views(list@) == all,
                all == self@.tasks,
                ({
                    let n = queue_totals(self@, env@, all.take(i as int));
                    previous == capped(n.previous) && this_run == capped(n.this_run) && failed
                        == capped(n.failed) && remaining == capped(n.remaining)
                }),
            decreases list@.len() - i,
        {
            let task = &list[i];
            assert(all[i as int] == task@);
            assert(all.take(i + 1).drop_last() =~= all.take(i as int));
            assert(all.take(i + 1).last() == task@);
            let counts = self.display_counts(task, env);
            let known: usize = match self.starts.get(task.id.as_str()) {
                Some(n) => n,
                None => counts.converted,
            };
            let before: usize = if known <= counts.files {
                known
            } else {
                counts.files
            };
            let since: usize = if counts.converted > before {
                counts.converted - before
            } else {
                0
            };
            previous = capped_sum(previous, before);
            this_run = capped_sum(this_run, since);
            failed = capped_sum(failed, counts.failed);
            remaining = capped_sum(remaining, counts.remaining);
            i = i + 1;
        }
        assert(all.take(i as int) =~= all);
        completion_summary(this_run, previous, failed, remaining)
    }

    /// Starts the next pending task, looks for new work, or ends the run.
    pub fn start_next_pending(&mut self, env: &Surroundings) -> (r: NextStep)
        ensures
            (final(self)@, r@) == went_on(old(self)@, env@),
    {
        if let Some(order) = self.start_first(env) {
            return NextStep::Start(order);
        }
        let found: u128 = self.rescan_watched_folders(true, env);
        if found > 0 {
            return NextStep::Again;
        }
        self.run_state = QueueRunState::Idle;
        self.completion_notice = self.queue_completion_summary(env);
        self.activity = self.completion_notice.clone();
        self.unsaved = true;
        NextStep::Finished
    }

    /// Starts the queue.
    pub fn start_queue(&mut self, env: &Surroundings) -> (r: NextStep)
        ensures
            (final(self)@, r@) == queue_started(old(self)@, env@),
    {
        let ids = self.ids();
        let ghost all = self.queue@;
        let ghost start = self.starts@;
        self.completion_notice = String::new();
        assert(self.completion_notice@ =~= Seq::<char>::empty());
        let mut i: usize = 0;
        assert(all.take(0) =~= Seq::<TaskView>::empty());
        assert(texts(ids@).len() == ids@.len());
        let ghost rest = self@;
        while i < ids.len()
            invariant
                i <= ids@.len(),
                texts(ids@) == crate::board::task_ids(all),
                all == self.queue@,
                ids@.len() == all.len(),
                self@ == (BoardView {
                    starts: pending_forgotten(start, all.take(i as int)),
                    ..rest
                }),
            decreases ids@.len() - i,
        {
            assert(all.take(i + 1).drop_last() =~= all.take(i as int));
            assert(all.take(i + 1).last() == all[i as int]);
            assert(texts(ids@)[i as int] == all[i as int].id);
            let list = self.queue.tasks();
            assert(list@.len() == all.len());
            assert(all[i as int] == list@[i as int]@);
            if list[i].status == QueueStatus::Pending {
                self.starts.remove(ids[i].as_str());
            }
            i = i + 1;
        }
        assert(all.take(i as int) =~= all);
        self.run_state = QueueRunState::Running;
        self.start_next_pending(env)
    }
}

fn output_for(env: &Surroundings, settings: &QueueSettings, input: &str) -> (r: Result<
    String,
    String,
>)
    ensures
        match r {
            Ok(path) => output_of(env@, settings@, input@) == Ok::<Seq<char>, Seq<char>>(path@),
            Err(e) => output_of(env@, settings@, input@) == Err::<Seq<char>, Seq<char>>(e@),
        },
{
    match settings.mode {
        ContentMode::Trim => {
            let start = match settings.trim_start {
                Some(start) => start,
                None => {
                    return Err("Trim start is missing.".to_owned());
                },
            };
            let end = match settings.trim_end {
                Some(end) => end,
                None => {
                    return Err("Trim end is missing.".to_owned());
                },
            };
            if end.nanos < start.nanos {
                return Err("Trim end must be at or after start.".to_owned());
            }
            Ok(trim_output_path(input, start, end))
        },
        ContentMode::Stabilize => Ok(stabilized_output_path(input)),
        ContentMode::PhotoSlideshow => match next_slideshow_output_path(&env.disk, input) {
            Some(path) => Ok(path),
            None => Err("No free name was found for the slideshow.".to_owned()),
        },
        _ => Ok(
            conversion_output_path(
                input,
                env.presets.container(settings.mode, settings.encoder),
            ),
        ),
    }
}

} // verus!
