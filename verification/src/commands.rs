//! What the front end can tell the program to do with the queue and the history.

use crate::board::{BoardView, QueueRunState};
use crate::controller::{ControllerView, SlintController};
use crate::editing::{runs_one_of, selected_moved, selected_removed, selected_rerun, task_moved_to};
use crate::finish::{is_between_files, pause_toggled, resumed_between};
use crate::history::row_views;
use crate::presets::{Presets, Surroundings};
use crate::run::NextStep;
use crate::targets::opt_slice;
use crate::text::concat2;
use crate::text::concat3;
use vstd::prelude::*;

verus! {

/// What a press of the pause button does.
#[derive(Debug, PartialEq, Eq)]
pub enum PauseStep {
    /// Nothing runs and nothing waits.
    Nothing,
    /// The running conversion is to pause, or to go on.
    Worker {
        paused: bool,
    },
    /// The queue goes on from a pause between two files.
    Queue(NextStep),
}

/// What follows the choice of a processor limit.
#[derive(Debug, Clone, Copy, PartialEq, Eq, Structural)]
pub enum LimitStep {
    /// The limit is as it was.
    Nothing,
    /// The limit holds from the next conversion on.
    Later,
    /// The limit is to take effect on the running conversion.
    Worker,
}

/// What ends with the program.
#[derive(Debug, Clone, Copy, PartialEq, Eq, Structural)]
pub struct ShutdownStep {
    /// The running conversion has to stop.
    pub stops_worker: bool,
    /// The sign that a conversion runs has to be taken off.
    pub clears_sign: bool,
}

/// The board after the running conversion was paused or told to go on, with what is said of it.
pub open spec fn pause_announced(b: BoardView) -> BoardView {
    match b.worker {
        None => b,
        Some(w) => pause_toggled(b).saying(
            if w.paused {
                "Conversion resumed"@
            } else {
                "Conversion paused"@
            },
        ),
    }
}

/// The board after a pause behind the running video was scheduled or taken back.
pub open spec fn pause_scheduled(b: BoardView) -> BoardView {
    if b.worker is None {
        b
    } else {
        match b.run_state {
            QueueRunState::PauseAfterCurrent => BoardView {
                run_state: QueueRunState::Running,
                ..b
            }.saying("Scheduled pause cancelled"@),
            QueueRunState::PauseAfterCurrentSelected => BoardView {
                run_state: QueueRunState::RunningSelected,
                ..b
            }.saying("Scheduled pause cancelled"@),
            QueueRunState::Running => BoardView {
                run_state: QueueRunState::PauseAfterCurrent,
                ..b
            }.saying("Queue will pause after this video"@),
            QueueRunState::RunningSelected | QueueRunState::Idle => BoardView {
                run_state: QueueRunState::PauseAfterCurrentSelected,
                ..b
            }.saying("Task will pause after this video"@),
            _ => b,
        }.to_save()
    }
}

/// The board after the whole queue was told to stop.
pub open spec fn queue_stopped(b: BoardView) -> BoardView {
    if is_between_files(b.run_state) {
        BoardView { run_state: QueueRunState::Idle, ..b }.saying(
            "Queue stopped; queued files remain"@,
        ).to_save()
    } else if b.worker is Some {
        BoardView { run_state: QueueRunState::Stopping, ..b }.saying(
            "Stopping conversion safely"@,
        ).to_save()
    } else {
        b
    }
}

/// How it went to open a file of the history.
#[derive(Debug, PartialEq, Eq)]
pub enum OpenOutcome {
    Missing,
    Opened,
    Failed(String),
}

/// What is said of a file that was to be opened or shown.
pub open spec fn open_text(doing: Seq<char>, unable: Seq<char>, path: Seq<char>, outcome: OpenOutcome) -> Seq<
    char,
> {
    match outcome {
        OpenOutcome::Missing => "Converted file was not found: "@ + path,
        OpenOutcome::Opened => doing + path,
        OpenOutcome::Failed(error) => unable + path + ": "@ + error@,
    }
}

fn open_message(doing: &str, unable: &str, path: &str, outcome: &OpenOutcome) -> (r: String)
    ensures
        r@ == open_text(doing@, unable@, path@, *outcome),
{
    match outcome {
        OpenOutcome::Missing => concat2("Converted file was not found: ", path),
        OpenOutcome::Opened => concat2(doing, path),
        OpenOutcome::Failed(error) => {
            let mut r = concat3(unable, path, ": ");
            r.append(error.as_str());
            r
        },
    }
}

/// What is said of the processor limit: it took effect, was saved, or could not take effect at once.
pub open spec fn limit_text(summary: Seq<char>, live: Option<Option<Seq<char>>>) -> Seq<char> {
    match live {
        Some(None) => "CPU limit set to "@ + summary,
        None => "CPU limit saved: "@ + summary,
        Some(Some(error)) =>
            "CPU limit saved for the next file; live adjustment unavailable: "@ + error,
    }
}

impl SlintController {
    /// Pauses the running conversion or lets it go on; goes on where the queue waits between files.
    pub fn toggle_pause(&mut self, env: &Surroundings) -> (r: PauseStep)
        ensures
            final(self)@ == old(self)@.going_on(
                final(self)@.board,
                r matches PauseStep::Queue(step) && step@ is Start,
            ),
            match r {
                PauseStep::Queue(step) => {
                    &&& is_between_files(old(self)@.board.run_state)
                    &&& (final(self)@.board, step@) == resumed_between(old(self)@.board, env@)
                },
                PauseStep::Worker { paused } => {
                    &&& !is_between_files(old(self)@.board.run_state)
                    &&& old(self)@.board.worker is Some
                    &&& paused == !old(self)@.board.worker->0.paused
                    &&& final(self)@.board == pause_announced(old(self)@.board)
                },
                PauseStep::Nothing => {
                    &&& !is_between_files(old(self)@.board.run_state)
                    &&& old(self)@.board.worker is None
                    &&& final(self)@ == old(self)@
                },
            },
    {
        if matches!(
            self.board.run_state,
            QueueRunState::PausedBetweenFiles | QueueRunState::PausedBetweenFilesSelected
        ) {
            let step = self.board.resume_between_files(env);
            self.show_step(&step);
            return PauseStep::Queue(step);
        }
        match self.board.toggle_pause() {
            Some(paused) => {
                if paused {
                    self.board.say("Conversion paused");
                } else {
                    self.board.say("Conversion resumed");
                }
                PauseStep::Worker { paused }
            },
            None => PauseStep::Nothing,
        }
    }

    /// Shows pictures of the running conversion, or no longer, and says whether a running conversion
    /// has to be told.
    pub fn set_live_preview(&mut self, enabled: bool) -> (r: bool)
        ensures
            final(self)@ == (ControllerView {
                preview_enabled: enabled,
                live_preview: if enabled {
                    old(self)@.live_preview
                } else {
                    None
                },
                ..old(self)@
            }),
            r == (old(self)@.board.worker is Some),
    {
        self.preview_enabled = enabled;
        if !enabled {
            self.live_preview = None;
        }
        self.board.worker.is_some()
    }

    /// Chooses a processor limit out of `levels`, and says what follows.
    pub fn set_cpu_limit(&mut self, index: usize, levels: usize) -> (r: LimitStep)
        ensures
            r == if index >= levels || index == old(self)@.cpu_limit {
                LimitStep::Nothing
            } else if old(self)@.board.worker is Some {
                LimitStep::Worker
            } else {
                LimitStep::Later
            },
            final(self)@ == if r == LimitStep::Nothing {
                old(self)@
            } else {
                ControllerView { cpu_limit: index, ..old(self)@ }
            },
    {
        if index >= levels || index == self.cpu_limit {
            return LimitStep::Nothing;
        }
        self.cpu_limit = index;
        if self.board.worker.is_some() {
            LimitStep::Worker
        } else {
            LimitStep::Later
        }
    }

    /// Says what became of the chosen processor limit; `error` tells why it took no effect on the
    /// running conversion.
    pub fn report_cpu_limit(&mut self, summary: &str, error: Option<&str>, presets: &Presets)
        requires
            old(self)@.wf(),
        ensures
            final(self)@ == old(self)@.saying(
                limit_text(
                    summary@,
                    if old(self)@.board.worker is Some {
                        Some(opt_slice(error))
                    } else {
                        None
                    },
                ),
            ).synced(presets@),
            final(self)@.wf(),
    {
        let text = if self.board.worker.is_none() {
            concat2("CPU limit saved: ", summary)
        } else {
            match error {
                None => concat2("CPU limit set to ", summary),
                Some(error) => concat2(
                    "CPU limit saved for the next file; live adjustment unavailable: ",
                    error,
                ),
            }
        };
        self.board.activity = text;
        self.sync_preferences(presets);
    }

    /// Schedules a pause behind the running video, or takes it back.
    pub fn pause_after_current(&mut self)
        ensures
            final(self)@ == (ControllerView {
                board: pause_scheduled(old(self)@.board),
                ..old(self)@
            }),
    {
        if self.board.worker.is_none() {
            return;
        }
        match self.board.run_state {
            QueueRunState::PauseAfterCurrent => {
                self.board.run_state = QueueRunState::Running;
                self.board.say("Scheduled pause cancelled");
            },
            QueueRunState::PauseAfterCurrentSelected => {
                self.board.run_state = QueueRunState::RunningSelected;
                self.board.say("Scheduled pause cancelled");
            },
            QueueRunState::Running => {
                self.board.run_state = QueueRunState::PauseAfterCurrent;
                self.board.say("Queue will pause after this video");
            },
            QueueRunState::RunningSelected | QueueRunState::Idle => {
                self.board.run_state = QueueRunState::PauseAfterCurrentSelected;
                self.board.say("Task will pause after this video");
            },
            _ => {},
        }
        self.board.unsaved = true;
    }

    /// Notes that the running video is to stop, and says whether one runs.
    pub fn stop_current(&mut self) -> (r: bool)
        ensures
            r == (old(self)@.board.worker is Some),
            final(self)@ == if r {
                ControllerView {
                    board: old(self)@.board.saying(
                        "Stopping this video; the rest of the queue will continue"@,
                    ).to_save(),
                    ..old(self)@
                }
            } else {
                old(self)@
            },
    {
        if self.board.worker.is_none() {
            return false;
        }
        self.board.say("Stopping this video; the rest of the queue will continue");
        self.board.unsaved = true;
        true
    }

    /// Stops the queue, and says whether a running conversion has to be told.
    pub fn stop_all(&mut self) -> (r: bool)
        ensures
            final(self)@ == (ControllerView {
                board: queue_stopped(old(self)@.board),
                ..old(self)@
            }),
            r == (old(self)@.board.worker is Some && !is_between_files(
                old(self)@.board.run_state,
            )),
    {
        if matches!(
            self.board.run_state,
            QueueRunState::PausedBetweenFiles | QueueRunState::PausedBetweenFilesSelected
        ) {
            self.board.run_state = QueueRunState::Idle;
            self.board.say("Queue stopped; queued files remain");
            self.board.unsaved = true;
            return false;
        }
        if self.board.worker.is_none() {
            return false;
        }
        self.board.run_state = QueueRunState::Stopping;
        self.board.say("Stopping conversion safely");
        self.board.unsaved = true;
        true
    }

    /// Moves the selected task by some places.
    pub fn move_selected(&mut self, delta: isize)
        ensures
            final(self)@ == (ControllerView {
                board: selected_moved(old(self)@.board, delta as int),
                ..old(self)@
            }),
    {
        self.board.move_selected(delta);
    }

    /// Moves a task to another place.
    pub fn move_task_to(&mut self, source: usize, target: usize)
        ensures
            final(self)@ == (ControllerView {
                board: task_moved_to(old(self)@.board, source as int, target as int),
                ..old(self)@
            }),
    {
        self.board.move_task_to(source, target);
    }

    /// Removes the selected tasks, and says whether the running conversion belongs to one of them and
    /// has to stop.
    pub fn remove_selected(&mut self, env: &Surroundings) -> (r: bool)
        ensures
            final(self)@ == (ControllerView {
                board: selected_removed(old(self)@.board, env@),
                ..old(self)@
            }),
            r == runs_one_of(old(self)@.board, old(self)@.board.selected_ids()),
    {
        self.board.remove_selected(env)
    }

    /// Makes the selected tasks wait again.
    pub fn retry_selected(&mut self, env: &Surroundings)
        ensures
            final(self)@ == (ControllerView {
                board: selected_rerun(old(self)@.board, env@),
                ..old(self)@
            }),
    {
        self.board.rerun_selected(env);
    }

    /// Empties the queue, unless a conversion runs.
    pub fn clear_queue(&mut self)
        ensures
            final(self)@ == (ControllerView { board: old(self)@.board.cleared(), ..old(self)@ }),
    {
        self.board.clear_queue();
    }

    /// Notes that the stored history was cleared, or why it could not be.
    pub fn clear_history(&mut self, failure: Option<&str>)
        ensures
            final(self)@ == match failure {
                None => (ControllerView { history: Seq::empty(), ..old(self)@ }).saying(
                    "Finished history cleared"@,
                ),
                Some(error) => old(self)@.saying("Unable to clear history: "@ + error@),
            },
    {
        match failure {
            None => {
                self.history = Vec::new();
                assert(row_views(self.history@) =~= Seq::<Seq<Seq<char>>>::empty());
                self.board.say("Finished history cleared");
            },
            Some(error) => {
                self.board.activity = concat2("Unable to clear history: ", error);
            },
        }
    }

    /// Says how it went to open a converted file.
    pub fn open_history_item(&mut self, path: &str, outcome: &OpenOutcome)
        ensures
            final(self)@ == old(self)@.saying(
                open_text("Opening "@, "Unable to open "@, path@, *outcome),
            ),
    {
        self.board.activity = open_message("Opening ", "Unable to open ", path, outcome);
    }

    /// Says how it went to show a converted file in its folder.
    pub fn reveal_history_item(&mut self, path: &str, outcome: &OpenOutcome)
        ensures
            final(self)@ == old(self)@.saying(
                open_text("Showing "@, "Unable to show "@, path@, *outcome),
            ),
    {
        self.board.activity = open_message("Showing ", "Unable to show ", path, outcome);
    }

    pub fn set_history_filter(&mut self, filter: String)
        ensures
            final(self)@ == (ControllerView { history_filter: filter@, ..old(self)@ }),
    {
        self.history_filter = filter;
    }

    /// Says how it went to copy a text.
    pub fn report_clipboard_result(&mut self, label: &str, error: Option<&str>)
        ensures
            final(self)@ == old(self)@.saying(
                match error {
                    None => "Copied "@ + label@,
                    Some(e) => "Unable to copy "@ + label@ + ": "@ + e@,
                },
            ),
    {
        self.board.activity =
        match error {
            None => concat2("Copied ", label),
            Some(e) => {
                let mut r = concat3("Unable to copy ", label, ": ");
                r.append(e);
                r
            },
        };
    }

    pub fn dismiss_completion(&mut self)
        ensures
            final(self)@ == (ControllerView {
                board: BoardView { completion_notice: Seq::empty(), ..old(self)@.board },
                ..old(self)@
            }),
    {
        self.board.completion_notice = String::new();
        assert(self.board.completion_notice@ =~= Seq::<char>::empty());
    }

    /// Prepares the end of the program, and says what has to end with it.
    pub fn shutdown(&mut self, presets: &Presets) -> (r: ShutdownStep)
        requires
            old(self)@.wf(),
        ensures
            r.stops_worker == (old(self)@.board.worker is Some),
            r.clears_sign == (old(self)@.indicator.converting != Some(false)),
            final(self)@ == (ControllerView {
                indicator: crate::indicator::PlatformIndicator { converting: Some(false) },
                board: old(self)@.board.to_save(),
                ..old(self)@
            }).synced(presets@),
            final(self)@.wf(),
    {
        let clears_sign = self.indicator.set_converting(false);
        self.board.unsaved = true;
        self.sync_preferences(presets);
        ShutdownStep { stops_worker: self.board.worker.is_some(), clears_sign }
    }
}

/// Scheduling a pause behind the running video and taking it back leaves the queue in the state that
/// it ran in.
pub proof fn law_scheduled_pause_is_taken_back(b: BoardView)
    requires
        b.worker is Some,
        b.run_state == QueueRunState::Running || b.run_state == QueueRunState::RunningSelected,
    ensures
        pause_scheduled(pause_scheduled(b)).run_state == b.run_state,
        pause_scheduled(pause_scheduled(b)).tasks == b.tasks,
        pause_scheduled(pause_scheduled(b)).worker == b.worker,
{
}

/// Stopping never changes a task, and a queue that waits between two files is idle at once.
pub proof fn law_stopping_keeps_the_tasks(b: BoardView)
    ensures
        queue_stopped(b).tasks == b.tasks,
        is_between_files(b.run_state) ==> queue_stopped(b).run_state == QueueRunState::Idle,
        !is_between_files(b.run_state) && b.worker is Some ==> queue_stopped(b).run_state
            == QueueRunState::Stopping,
{
}

} // verus!
