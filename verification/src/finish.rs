//! What follows when a conversion has ended, and the controls of a running queue.

use crate::board::{
    task_named, with_complete_time, with_error, with_status, with_task, Board, BoardView,
    QueueRunState, WorkerView,
};
use crate::counts::{failure_note, finished_failure_note, finished_note, task_run_failure_summary};
use crate::engine::{engine_error_text, EngineError};
use crate::failures::{is_other_file, FailureView};
use crate::jobs::{is_queue_fatal, worker_error_is_queue_fatal};
use crate::paths::{has_path, list_has_path};
use crate::presets::{Surroundings, SurroundingsView};
use crate::queue::{has_id, next_pending, QueueStatus, TaskView};
use crate::rescan::left_of;
use crate::run::{failed_count, started, went_on, NextStep, StepView};
use crate::targets::{is_aggregate, remaining_task_inputs, task_is_aggregate};
use crate::text::{concat2, concat3, join_texts, join_with, texts};
use vstd::prelude::*;

verus! {

/// How a conversion ended.
#[derive(Debug, PartialEq, Eq)]
pub enum WorkerOutcome {
    Converted { output: String, end_time: String },
    Skipped { reason: String },
    Stopped(EngineError),
}

/// What came of adding a conversion to the history.
#[derive(Debug, PartialEq, Eq)]
pub enum HistoryOutcome {
    Saved,
    NotRefreshed(String),
    NotSaved(String),
}

/// Some files of a task are left, and it is one that goes on by itself.
pub open spec fn has_more(b: BoardView, env: SurroundingsView, id: Seq<char>) -> bool {
    has_id(b.tasks, id) && is_aggregate(env.disk, task_named(b.tasks, id)) && left_of(
        env,
        b.failures,
        task_named(b.tasks, id),
    ).len() > 0
}

/// The task is done, with a note where files of it failed.
pub open spec fn task_done(b: BoardView, id: Seq<char>, time: Seq<char>) -> BoardView {
    let done = with_status(b.tasks, id, QueueStatus::Completed);
    let noted = if failed_count(b.failures, id) > 0 {
        with_error(done, id, Some(finished_note(failed_count(b.failures, id))))
    } else {
        done
    };
    BoardView { tasks: with_complete_time(noted, id, time), ..b }
}

/// The words for a finished file, with what went wrong with the history.
pub open spec fn created_text(output: Seq<char>, saved: HistoryOutcome, known: bool) -> Seq<char> {
    if !known {
        "Created "@ + output
    } else {
        match saved {
            HistoryOutcome::Saved => "Created "@ + output,
            HistoryOutcome::NotRefreshed(e) => "Created "@ + output
                + "; unable to refresh history: "@ + e@,
            HistoryOutcome::NotSaved(e) => "Created "@ + output + "; unable to save history: "@
                + e@,
        }
    }
}

/// A file was converted. The second part says whether the task goes on.
pub open spec fn after_converted(
    b: BoardView,
    env: SurroundingsView,
    id: Seq<char>,
    output: Seq<char>,
    end_time: Seq<char>,
    saved: HistoryOutcome,
) -> (BoardView, bool) {
    let told = b.saying(created_text(output, saved, has_id(b.tasks, id)));
    if has_more(told, env, id) {
        (
            BoardView {
                tasks: with_error(
                    with_status(told.tasks, id, QueueStatus::Pending),
                    id,
                    failure_note(failed_count(told.failures, id)),
                ),
                ..told
            },
            true,
        )
    } else {
        (task_done(told, id, end_time), false)
    }
}

/// The tasks with one more skipped file.
pub open spec fn with_skipped(tasks: Seq<TaskView>, id: Seq<char>, p: Seq<char>) -> Seq<TaskView> {
    let t = task_named(tasks, id);
    if has_path(t.skipped_paths, p) {
        tasks
    } else {
        with_task(tasks, id, TaskView { skipped_paths: t.skipped_paths.push(p), ..t })
    }
}

/// A file was skipped, because it is already encoded as wanted.
pub open spec fn after_skipped(
    b: BoardView,
    env: SurroundingsView,
    id: Seq<char>,
    target: Seq<char>,
    reason: Seq<char>,
) -> (BoardView, bool) {
    let noted = BoardView { tasks: with_skipped(b.tasks, id, target), ..b };
    if has_more(noted, env, id) {
        (
            BoardView {
                tasks: with_status(noted.tasks, id, QueueStatus::Pending),
                ..noted
            }.saying("Skipped already-encoded file; continuing task: "@ + reason),
            true,
        )
    } else {
        (
            task_done(noted, id, env.now).saying("Skipped already-encoded file: "@ + reason),
            false,
        )
    }
}

/// The conversion was stopped by the user.
pub open spec fn after_cancelled(b: BoardView, id: Seq<char>) -> BoardView {
    if b.run_state == QueueRunState::Stopping {
        BoardView {
            tasks: with_error(with_status(b.tasks, id, QueueStatus::Pending), id, None),
            ..b
        }.saying("Queue stopped; the interrupted item is pending"@)
    } else if has_id(b.tasks, id) {
        BoardView {
            tasks: with_status(b.tasks, id, QueueStatus::Cancelled),
            ..b
        }.saying("Conversion cancelled."@)
    } else {
        b.saying("Removed item stopped"@)
    }
}

/// The queue cannot go on.
pub open spec fn after_fatal(b: BoardView, id: Seq<char>, message: Seq<char>) -> BoardView {
    BoardView {
        tasks: with_error(with_status(b.tasks, id, QueueStatus::Pending), id, Some(message)),
        run_state: QueueRunState::Idle,
        ..b
    }.saying(message)
}

/// A file failed.
pub open spec fn after_failed(
    b: BoardView,
    env: SurroundingsView,
    id: Seq<char>,
    target: Seq<char>,
    message: Seq<char>,
) -> (BoardView, bool) {
    let noted = BoardView {
        failures: b.failures.filter(is_other_file(id, target)).push(
            FailureView { task_id: id, path: target, error: message },
        ),
        ..b
    };
    if has_more(noted, env, id) {
        (
            BoardView {
                tasks: with_status(noted.tasks, id, QueueStatus::Pending),
                ..noted
            }.saying("Skipped failed file "@ + target + "; continuing the task"@),
            true,
        )
    } else {
        let done = with_error(
            with_status(noted.tasks, id, QueueStatus::Completed),
            id,
            Some(finished_note(failed_count(noted.failures, id))),
        );
        (
            BoardView {
                tasks: with_complete_time(done, id, env.now),
                ..noted
            }.saying("Task finished with failed file "@ + target),
            false,
        )
    }
}

/// What a conversion's end means for its task, and whether the task goes on.
pub open spec fn after_outcome(
    b: BoardView,
    env: SurroundingsView,
    w: WorkerView,
    outcome: WorkerOutcome,
    saved: HistoryOutcome,
) -> (BoardView, bool) {
    let id = w.task_id;
    match outcome {
        WorkerOutcome::Converted { output, end_time } => after_converted(
            b,
            env,
            id,
            output@,
            end_time@,
            saved,
        ),
        WorkerOutcome::Skipped { reason } => after_skipped(b, env, id, w.target, reason@),
        WorkerOutcome::Stopped(e) => if e is Cancelled {
            (after_cancelled(b, id), false)
        } else if has_id(b.tasks, id) && is_queue_fatal(task_named(b.tasks, id).settings.mode, e) {
            (after_fatal(b, id, engine_error_text(e)), false)
        } else {
            after_failed(b, env, id, w.target, engine_error_text(e))
        },
    }
}

/// A scheduled pause happens once, and only if there is more to do.
pub open spec fn paused_if_due(b: BoardView, goes_on: bool) -> BoardView {
    match b.run_state {
        QueueRunState::PauseAfterCurrent => if goes_on || next_pending(b.tasks) is Some {
            BoardView { run_state: QueueRunState::PausedBetweenFiles, ..b }.saying(
                "Queue paused after the current item"@,
            )
        } else {
            BoardView { run_state: QueueRunState::Idle, ..b }
        },
        QueueRunState::PauseAfterCurrentSelected => if goes_on {
            BoardView { run_state: QueueRunState::PausedBetweenFilesSelected, ..b }.saying(
                "Queue paused after the current item"@,
            )
        } else {
            BoardView { run_state: QueueRunState::Idle, ..b }
        },
        QueueRunState::Stopping => BoardView { run_state: QueueRunState::Idle, ..b },
        _ => b,
    }
}

/// The board after a conversion has ended, and whether its task goes on.
pub open spec fn finished(
    b: BoardView,
    env: SurroundingsView,
    w: WorkerView,
    outcome: WorkerOutcome,
    saved: HistoryOutcome,
) -> (BoardView, bool) {
    let (after, goes_on) = after_outcome(b, env, w, outcome, saved);
    (paused_if_due(BoardView { worker: None, ..after }, goes_on), goes_on)
}

/// The activity with notes on renamed folders.
pub open spec fn with_notes(b: BoardView, id: Seq<char>, notes: Seq<Seq<char>>) -> BoardView {
    if has_id(b.tasks, id) && notes.len() > 0 {
        b.saying(b.activity + " · "@ + join_texts(notes, " · "@))
    } else {
        b
    }
}

/// The queue is not paused, about to pause, or stopping.
pub open spec fn may_go_on(state: QueueRunState) -> bool {
    state == QueueRunState::Idle || state == QueueRunState::Running || state
        == QueueRunState::RunningSelected
}

/// The board after the queue went on from a conversion that ended.
pub open spec fn resumed(
    b: BoardView,
    env: SurroundingsView,
    id: Seq<char>,
    goes_on: bool,
    notes: Seq<Seq<char>>,
) -> (BoardView, StepView) {
    let counted = with_notes(b, id, notes).to_save().counted(env);
    let (tried, order) = if goes_on && may_go_on(counted.run_state) {
        started(counted.selecting(Some(id)), env)
    } else {
        (counted, None)
    };
    match order {
        Some(order) => (tried, StepView::Start(order)),
        None => if tried.run_state == QueueRunState::Running {
            went_on(tried, env)
        } else if tried.run_state == QueueRunState::RunningSelected {
            (BoardView { run_state: QueueRunState::Idle, ..tried }.to_save(), StepView::Rest)
        } else {
            (tried, StepView::Rest)
        },
    }
}

impl Board {
    fn has_more_files(&self, id: &str, env: &Surroundings) -> (r: bool)
        ensures
            r == has_more(self@, env@, id@),
    {
        match self.queue.task(id) {
            Some(task) => {
                if !task_is_aggregate(&env.disk, task) {
                    return false;
                }
                let failed = self.failures.paths_of_task(id);
                let left = remaining_task_inputs(&env.disk, task, &failed);
                assert(texts(left@).len() == left@.len());
                left.len() > 0
            },
            None => false,
        }
    }

    fn count_failed(&self, id: &str) -> (r: usize)
        ensures
            r == failed_count(self@.failures, id@),
    {
        let list = self.failures.of_task(id);
        assert(crate::failures::failure_views(list@).len() == list@.len());
        list.len()
    }

    fn set_complete_time(&mut self, id: &str, time: &str)
        ensures
            final(self)@ == (BoardView {
                tasks: with_complete_time(old(self)@.tasks, id@, time@),
                ..old(self)@
            }),
    {
        if let Some(task) = self.queue.task_mut(id) {
            task.complete_time = time.to_owned();
        }
    }

    fn finish_task(&mut self, id: &str, time: &str)
        ensures
            final(self)@ == task_done(old(self)@, id@, time@),
    {
        let _ = self.queue.set_status(id, QueueStatus::Completed);
        let failed: usize = self.count_failed(id);
        if failed > 0 {
            let _ = self.queue.set_error(id, Some(finished_failure_note(failed)));
        }
        self.set_complete_time(id, time);
    }

    fn note_converted(
        &mut self,
        id: &str,
        output: &str,
        end_time: &str,
        saved: &HistoryOutcome,
        env: &Surroundings,
    ) -> (r: bool)
        ensures
            (final(self)@, r) == after_converted(
                old(self)@,
                env@,
                id@,
                output@,
                end_time@,
                *saved,
            ),
    {
        let mut text = concat2("Created ", output);
        if self.queue.task(id).is_some() {
            match saved {
                HistoryOutcome::Saved => {},
                HistoryOutcome::NotRefreshed(e) => {
                    text.append("; unable to refresh history: ");
                    text.append(e.as_str());
                },
                HistoryOutcome::NotSaved(e) => {
                    text.append("; unable to save history: ");
                    text.append(e.as_str());
                },
            }
        }
        self.activity = text;
        if self.has_more_files(id, env) {
            let _ = self.queue.set_status(id, QueueStatus::Pending);
            let failed: usize = self.count_failed(id);
            let _ = self.queue.set_error(id, task_run_failure_summary(failed));
            true
        } else {
            self.finish_task(id, end_time);
            false
        }
    }

    fn note_skipped(&mut self, id: &str, target: &str, reason: &str, env: &Surroundings) -> (r:
        bool)
        ensures
            (final(self)@, r) == after_skipped(old(self)@, env@, id@, target@, reason@),
    {
        let known = match self.queue.task(id) {
            Some(task) => list_has_path(&task.skipped_paths, target),
            None => true,
        };
        if !known {
            if let Some(task) = self.queue.task_mut(id) {
                let ghost before = texts(task.skipped_paths@);
                task.skipped_paths.push(target.to_owned());
                assert(texts(task.skipped_paths@) =~= before.push(target@));
            }
        }
        if self.has_more_files(id, env) {
            let _ = self.queue.set_status(id, QueueStatus::Pending);
            self.activity = concat2("Skipped already-encoded file; continuing task: ", reason);
            true
        } else {
            self.finish_task(id, env.now.as_str());
            self.activity = concat2("Skipped already-encoded file: ", reason);
            false
        }
    }

    fn note_failed(&mut self, id: &str, target: &str, message: String, env: &Surroundings) -> (r:
        bool)
        ensures
            (final(self)@, r) == after_failed(old(self)@, env@, id@, target@, message@),
    {
        self.failures.record(id, target, message.as_str());
        if self.has_more_files(id, env) {
            let _ = self.queue.set_status(id, QueueStatus::Pending);
            self.activity = concat3("Skipped failed file ", target, "; continuing the task");
            true
        } else {
            let failed: usize = self.count_failed(id);
            let _ = self.queue.set_status(id, QueueStatus::Completed);
            let _ = self.queue.set_error(id, Some(finished_failure_note(failed)));
            self.set_complete_time(id, env.now.as_str());
            self.activity = concat2("Task finished with failed file ", target);
            false
        }
    }

    fn note_stopped(&mut self, id: &str, target: &str, error: &EngineError, env: &Surroundings) -> (r:
        bool)
        ensures
            (final(self)@, r) == after_outcome(
                old(self)@,
                env@,
                WorkerView { task_id: id@, target: target@, paused: false },
                WorkerOutcome::Stopped(*error),
                HistoryOutcome::Saved,
            ),
    {
        if matches!(error, EngineError::Cancelled) {
            if self.run_state == QueueRunState::Stopping {
                let _ = self.queue.set_status(id, QueueStatus::Pending);
                let _ = self.queue.set_error(id, None);
                self.say("Queue stopped; the interrupted item is pending");
            } else if self.queue.task(id).is_some() {
                let _ = self.queue.set_status(id, QueueStatus::Cancelled);
                self.say("Conversion cancelled.");
            } else {
                self.say("Removed item stopped");
            }
            return false;
        }
        let fatal = match self.queue.task(id) {
            Some(task) => worker_error_is_queue_fatal(task.settings.mode, error),
            None => false,
        };
        let message = error.message();
        if fatal {
            let _ = self.queue.set_status(id, QueueStatus::Pending);
            let _ = self.queue.set_error(id, Some(message.clone()));
            self.run_state = QueueRunState::Idle;
            self.activity = message;
            return false;
        }
        self.note_failed(id, target, message, env)
    }

    /// Takes the end of the running conversion, and says whether its task goes on; nothing where no
    /// conversion runs.
    pub fn finish_worker(
        &mut self,
        outcome: &WorkerOutcome,
        saved: &HistoryOutcome,
        env: &Surroundings,
    ) -> (r: Option<bool>)
        ensures
            match old(self)@.worker {
                Some(w) => r is Some && (final(self)@, r->0) == finished(
                    old(self)@,
                    env@,
                    w,
                    *outcome,
                    *saved,
                ),
                None => r is None && final(self)@ == old(self)@,
            },
    {
        let (id, target) = match &self.worker {
            Some(worker) => (worker.task_id.clone(), worker.target.clone()),
            None => {
                return None;
            },
        };
        let goes_on = match outcome {
            WorkerOutcome::Converted { output, end_time } => self.note_converted(
                id.as_str(),
                output.as_str(),
                end_time.as_str(),
                saved,
                env,
            ),
            WorkerOutcome::Skipped { reason } => self.note_skipped(
                id.as_str(),
                target.as_str(),
                reason.as_str(),
                env,
            ),
            WorkerOutcome::Stopped(error) => self.note_stopped(
                id.as_str(),
                target.as_str(),
                error,
                env,
            ),
        };
        self.worker = None;
        match self.run_state {
            QueueRunState::PauseAfterCurrent => {
                if goes_on || self.queue.next_pending_id().is_some() {
                    self.run_state = QueueRunState::PausedBetweenFiles;
                    self.say("Queue paused after the current item");
                } else {
                    self.run_state = QueueRunState::Idle;
                }
            },
            QueueRunState::PauseAfterCurrentSelected => {
                if goes_on {
                    self.run_state = QueueRunState::PausedBetweenFilesSelected;
                    self.say("Queue paused after the current item");
                } else {
                    self.run_state = QueueRunState::Idle;
                }
            },
            QueueRunState::Stopping => {
                self.run_state = QueueRunState::Idle;
            },
            _ => {},
        }
        Some(goes_on)
    }

    /// Goes on from a conversion that has ended. `notes` tells of folders that were renamed.
    pub fn resume_after_finish(
        &mut self,
        task_id: &str,
        goes_on: bool,
        notes: &Vec<String>,
        env: &Surroundings,
    ) -> (r: NextStep)
        ensures
            (final(self)@, r@) == resumed(old(self)@, env@, task_id@, goes_on, texts(notes@)),
    {
        assert(texts(notes@).len() == notes@.len());
        if self.queue.task(task_id).is_some() && notes.len() > 0 {
            let all = join_with(notes, " · ");
            self.activity = concat3(self.activity.as_str(), " · ", all.as_str());
        }
        self.unsaved = true;
        self.refresh_folder_summaries(env);
        let free = matches!(
            self.run_state,
            QueueRunState::Idle | QueueRunState::Running | QueueRunState::RunningSelected
        );
        if goes_on && free {
            self.select_only(Some(task_id.to_owned()));
            if let Some(order) = self.start_selected(env) {
                return NextStep::Start(order);
            }
        }
        if self.run_state == QueueRunState::Running {
            return self.start_next_pending(env);
        }
        if self.run_state == QueueRunState::RunningSelected {
            self.run_state = QueueRunState::Idle;
            self.unsaved = true;
        }
        NextStep::Rest
    }
}

/// The running conversion is paused or goes on.
pub open spec fn pause_toggled(b: BoardView) -> BoardView {
    match b.worker {
        None => b,
        Some(w) => BoardView {
            worker: Some(WorkerView { paused: !w.paused, ..w }),
            tasks: with_status(
                b.tasks,
                w.task_id,
                if w.paused {
                    QueueStatus::Running
                } else {
                    QueueStatus::Paused
                },
            ),
            ..b
        }.to_save(),
    }
}

/// A pause after the running file is scheduled, or no longer.
pub open spec fn scheduled_pause_toggled(b: BoardView) -> BoardView {
    if b.worker is None {
        b
    } else {
        match b.run_state {
            QueueRunState::Running => BoardView {
                run_state: QueueRunState::PauseAfterCurrent,
                ..b
            }.saying("Queue will pause after the current item"@),
            QueueRunState::RunningSelected => BoardView {
                run_state: QueueRunState::PauseAfterCurrentSelected,
                ..b
            }.saying("Queue will pause after the current item"@),
            QueueRunState::PauseAfterCurrent => BoardView {
                run_state: QueueRunState::Running,
                ..b
            }.saying("Scheduled pause cancelled"@),
            QueueRunState::PauseAfterCurrentSelected => BoardView {
                run_state: QueueRunState::RunningSelected,
                ..b
            }.saying("Scheduled pause cancelled"@),
            _ => b,
        }
    }
}

/// The queue waits between two files.
pub open spec fn is_between_files(state: QueueRunState) -> bool {
    state == QueueRunState::PausedBetweenFiles || state
        == QueueRunState::PausedBetweenFilesSelected
}

/// The queue is told to stop after what runs.
pub open spec fn all_stopped(b: BoardView) -> BoardView {
    if is_between_files(b.run_state) {
        BoardView { run_state: QueueRunState::Idle, ..b }.saying(
            "Queue stopped; queued files remain"@,
        ).to_save()
    } else if b.worker is Some {
        BoardView { run_state: QueueRunState::Stopping, ..b }.saying(
            "Stopping the queue; the current item will remain pending"@,
        ).to_save()
    } else {
        b
    }
}

/// The queue goes on from a pause between two files.
pub open spec fn resumed_between(b: BoardView, env: SurroundingsView) -> (BoardView, StepView) {
    match b.run_state {
        QueueRunState::PausedBetweenFilesSelected => {
            let (after, order) = started(
                BoardView { run_state: QueueRunState::RunningSelected, ..b }.saying(
                    "Task resumed"@,
                ).to_save(),
                env,
            );
            (
                after,
                match order {
                    Some(order) => StepView::Start(order),
                    None => StepView::Rest,
                },
            )
        },
        QueueRunState::PausedBetweenFiles => went_on(
            BoardView { run_state: QueueRunState::Running, ..b }.saying("Queue resumed"@).to_save(),
            env,
        ),
        _ => (b, StepView::Rest),
    }
}

impl Board {
    /// Pauses the running conversion or lets it go on, and says which.
    pub fn toggle_pause(&mut self) -> (r: Option<bool>)
        ensures
            final(self)@ == pause_toggled(old(self)@),
            match old(self)@.worker {
                Some(w) => r == Some(!w.paused),
                None => r is None,
            },
    {
        let (id, paused) = match &self.worker {
            Some(worker) => (worker.task_id.clone(), worker.paused),
            None => {
                return None;
            },
        };
        if let Some(worker) = &mut self.worker {
            worker.paused = !paused;
        }
        let status = if paused {
            QueueStatus::Running
        } else {
            QueueStatus::Paused
        };
        let _ = self.queue.set_status(id.as_str(), status);
        self.unsaved = true;
        Some(!paused)
    }

    /// Schedules a pause after the running file, or takes it back.
    pub fn toggle_pause_after_current(&mut self)
        ensures
            final(self)@ == scheduled_pause_toggled(old(self)@),
    {
        if self.worker.is_none() {
            return;
        }
        match self.run_state {
            QueueRunState::Running => {
                self.run_state = QueueRunState::PauseAfterCurrent;
                self.say("Queue will pause after the current item");
            },
            QueueRunState::RunningSelected => {
                self.run_state = QueueRunState::PauseAfterCurrentSelected;
                self.say("Queue will pause after the current item");
            },
            QueueRunState::PauseAfterCurrent => {
                self.run_state = QueueRunState::Running;
                self.say("Scheduled pause cancelled");
            },
            QueueRunState::PauseAfterCurrentSelected => {
                self.run_state = QueueRunState::RunningSelected;
                self.say("Scheduled pause cancelled");
            },
            _ => {},
        }
    }

    /// Notes that the running file is to stop, and says whether one runs.
    pub fn stop_current(&mut self) -> (r: bool)
        ensures
            r == (old(self)@.worker is Some),
            final(self)@ == if r {
                old(self)@.saying(
                    "Stopping the current item; queued work will continue"@,
                ).to_save()
            } else {
                old(self)@
            },
    {
        if self.worker.is_none() {
            return false;
        }
        self.say("Stopping the current item; queued work will continue");
        self.unsaved = true;
        true
    }

    /// Stops the queue, and says whether a running conversion has to be told.
    pub fn stop_all(&mut self) -> (r: bool)
        ensures
            final(self)@ == all_stopped(old(self)@),
            r == (old(self)@.worker is Some && !is_between_files(old(self)@.run_state)),
    {
        if matches!(
            self.run_state,
            QueueRunState::PausedBetweenFiles | QueueRunState::PausedBetweenFilesSelected
        ) {
            self.run_state = QueueRunState::Idle;
            self.say("Queue stopped; queued files remain");
            self.unsaved = true;
            return false;
        }
        if self.worker.is_none() {
            return false;
        }
        self.run_state = QueueRunState::Stopping;
        self.say("Stopping the queue; the current item will remain pending");
        self.unsaved = true;
        true
    }

    /// Goes on from a pause between two files.
    pub fn resume_between_files(&mut self, env: &Surroundings) -> (r: NextStep)
        ensures
            (final(self)@, r@) == resumed_between(old(self)@, env@),
    {
        match self.run_state {
            QueueRunState::PausedBetweenFilesSelected => {
                self.run_state = QueueRunState::RunningSelected;
                self.say("Task resumed");
                self.unsaved = true;
                match self.start_selected(env) {
                    Some(order) => NextStep::Start(order),
                    None => NextStep::Rest,
                }
            },
            QueueRunState::PausedBetweenFiles => {
                self.run_state = QueueRunState::Running;
                self.say("Queue resumed");
                self.unsaved = true;
                self.start_next_pending(env)
            },
            _ => NextStep::Rest,
        }
    }

    /// Notes that the window is to close, and says whether a running conversion has to stop first.
    pub fn request_close(&mut self) -> (r: bool)
        ensures
            r == (old(self)@.worker is Some),
            final(self)@ == if r {
                (BoardView { run_state: QueueRunState::Stopping, ..old(self)@ }).saying(
                    "Stopping active conversion before closing"@,
                ).to_save()
            } else {
                old(self)@
            },
    {
        if self.worker.is_none() {
            return false;
        }
        self.run_state = QueueRunState::Stopping;
        self.say("Stopping active conversion before closing");
        self.unsaved = true;
        true
    }

    /// Whether the queue runs or is paused: what is saved with it.
    pub fn was_running(&self) -> (r: bool)
        ensures
            r == (self@.worker is Some || self@.run_state != QueueRunState::Idle),
    {
        self.worker.is_some() || self.run_state != QueueRunState::Idle
    }

    /// Notes that the queue was saved, or why it could not be.
    pub fn note_saved(&mut self, failure: Option<&str>)
        ensures
            final(self)@ == match failure {
                None => BoardView { unsaved: false, ..old(self)@ },
                Some(e) => (BoardView { unsaved: false, ..old(self)@ }).saying(
                    "Unable to save queue: "@ + e@,
                ),
            },
    {
        self.unsaved = false;
        if let Some(e) = failure {
            self.activity = concat2("Unable to save queue: ", e);
        }
    }

    /// Notes that the processor limit could not be set for a conversion that started.
    pub fn note_limit_failure(&mut self, name: &str, error: &str)
        ensures
            final(self)@ == old(self)@.saying(
                "Running "@ + name@ + "; live CPU limit unavailable: "@ + error@,
            ),
    {
        let mut text = concat3("Running ", name, "; live CPU limit unavailable: ");
        text.append(error);
        self.activity = text;
    }
}

} // verus!
