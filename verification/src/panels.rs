//! What the toolbar offers, and what the status panels tell of the running conversion.

use crate::board::{task_named, Board, BoardView, QueueRunState};
use crate::clock::{format_resolution, format_size_mb, resolution_text, size_text};
use crate::controller::{ControllerView, SlintController};
use crate::counts::{active_item_position, item_position, summary_views};
use crate::finish::is_between_files;
use crate::jobs::HistoryMediaInfo;
use crate::model::{encoder_user_name, mode_label, ContentMode};
use crate::output_naming::text_or;
use crate::paths::{file_name, list_has_path, parent, path_file_name, path_parent};
use crate::presets::{Surroundings, SurroundingsView};
use crate::progress::{
    bytes_per_minute, clock_or_dash, estimated_bytes, estimated_output_bytes, format_clock_or_dash,
    format_frame_progress, format_progress_time, frame_progress_text, output_bytes_per_minute,
    progress_time_text, rate_policy_text, target_fps_status,
};
use crate::queue::{has_id, next_pending, QueueStatus, QueueTask, TaskView};
use crate::run::counts_on;
use crate::snapshot::{running_task, FiguresView, LiveFigures};
use crate::summary::{folder_summary_status, summary_status, FolderQueueSummary, SummaryView};
use crate::targets::{is_queued, opt_slice};
use crate::task_edit::shown_task;
use crate::text::{concat3, decimal, decimal_text, opt_text, texts, to_chars};
use vstd::prelude::*;

verus! {

/// What the toolbar offers.
#[derive(Debug, Clone, Copy, PartialEq, Eq, Structural)]
pub struct ToolbarState {
    pub can_add_folder: bool,
    pub can_move: bool,
    pub can_remove: bool,
    pub can_rerun: bool,
    pub can_clear: bool,
    pub can_review: bool,
    pub can_run_queue: bool,
    pub can_run_selected: bool,
}

/// A task that has ended can be tried again.
pub open spec fn has_ended(status: QueueStatus) -> bool {
    status == QueueStatus::Completed || status == QueueStatus::Failed || status
        == QueueStatus::Cancelled
}

/// Some of these tasks has ended.
pub open spec fn some_ended(tasks: Seq<TaskView>, ids: Seq<Seq<char>>) -> bool {
    exists|i: int|
        0 <= i < ids.len() && has_id(tasks, #[trigger] ids[i]) && has_ended(
            task_named(tasks, ids[i]).status,
        )
}

/// What the toolbar offers.
pub open spec fn toolbar(b: BoardView, mode: ContentMode) -> ToolbarState {
    let n = b.selected_ids().len();
    let resting = b.worker is None && b.run_state == QueueRunState::Idle;
    let shown = shown_task(b);
    let pending = n == 1 && shown is Some && shown->0.status == QueueStatus::Pending;
    ToolbarState {
        can_add_folder: mode != ContentMode::Trim,
        can_move: pending,
        can_remove: n > 0,
        can_rerun: some_ended(b.tasks, b.selected_ids()),
        can_clear: resting,
        can_review: n == 1 && b.worker is None && shown is Some && shown->0.settings.mode
            == ContentMode::PhotoSlideshow,
        can_run_queue: resting && next_pending(b.tasks) is Some,
        can_run_selected: resting && pending,
    }
}

/// What can be done with the running conversion.
#[derive(Debug, Clone, Copy, PartialEq, Eq, Structural)]
pub enum WorkerControls {
    /// Nothing runs.
    Nothing,
    /// The queue waits between two files.
    BetweenFiles,
    Running {
        paused: bool,
        can_schedule_pause: bool,
        pause_scheduled: bool,
    },
}

/// What can be done with the running conversion.
pub open spec fn controls(b: BoardView) -> WorkerControls {
    if is_between_files(b.run_state) {
        WorkerControls::BetweenFiles
    } else {
        match b.worker {
            None => WorkerControls::Nothing,
            Some(w) => {
                let scheduled = b.run_state == QueueRunState::PauseAfterCurrent || b.run_state
                    == QueueRunState::PauseAfterCurrentSelected;
                WorkerControls::Running {
                    paused: w.paused,
                    can_schedule_pause: scheduled || b.run_state == QueueRunState::Running
                        || b.run_state == QueueRunState::RunningSelected,
                    pause_scheduled: scheduled,
                }
            },
        }
    }
}

impl Board {
    fn some_selected_ended(&self, ids: &Vec<String>) -> (r: bool)
        ensures
            r == some_ended(self@.tasks, texts(ids@)),
    {
        let ghost all = texts(ids@);
        let mut i: usize = 0;
        while i < ids.len()
            invariant
                i <= ids@.len(),
                all == texts(ids@),
                forall|k: int|
                    0 <= k < i ==> !(has_id(self@.tasks, #[trigger] all[k]) && has_ended(
                        task_named(self@.tasks, all[k]).status,
                    )),
            decreases ids@.len() - i,
        {
            assert(all[i as int] == ids@[i as int]@);
            if let Some(task) = self.queue.task(ids[i].as_str()) {
                if matches!(
                    task.status,
                    QueueStatus::Completed | QueueStatus::Failed | QueueStatus::Cancelled
                ) {
                    assert(has_ended(task_named(self@.tasks, all[i as int]).status));
                    return true;
                }
            }
            i = i + 1;
        }
        false
    }

    /// What the toolbar offers.
    pub fn toolbar_state(&self, mode: ContentMode) -> (r: ToolbarState)
        ensures
            r == toolbar(self@, mode),
    {
        let ids = self.selected_task_ids();
        assert(texts(ids@).len() == ids@.len());
        let one = ids.len() == 1;
        let resting = self.worker.is_none() && self.run_state == QueueRunState::Idle;
        let (pending, slideshow) = match &self.selection.primary {
            Some(id) => match self.queue.task(id.as_str()) {
                Some(task) => (
                    task.status == QueueStatus::Pending,
                    task.settings.mode == ContentMode::PhotoSlideshow,
                ),
                None => (false, false),
            },
            None => (false, false),
        };
        ToolbarState {
            can_add_folder: mode != ContentMode::Trim,
            can_move: one && pending,
            can_remove: ids.len() > 0,
            can_rerun: self.some_selected_ended(&ids),
            can_clear: resting,
            can_review: one && self.worker.is_none() && slideshow,
            can_run_queue: resting && self.queue.next_pending_id().is_some(),
            can_run_selected: resting && one && pending,
        }
    }

    /// What can be done with the running conversion.
    pub fn worker_controls(&self) -> (r: WorkerControls)
        ensures
            r == controls(self@),
    {
        if matches!(
            self.run_state,
            QueueRunState::PausedBetweenFiles | QueueRunState::PausedBetweenFilesSelected
        ) {
            return WorkerControls::BetweenFiles;
        }
        match &self.worker {
            None => WorkerControls::Nothing,
            Some(worker) => {
                let scheduled = matches!(
                    self.run_state,
                    QueueRunState::PauseAfterCurrent | QueueRunState::PauseAfterCurrentSelected
                );
                WorkerControls::Running {
                    paused: worker.paused,
                    can_schedule_pause: scheduled || matches!(
                        self.run_state,
                        QueueRunState::Running | QueueRunState::RunningSelected
                    ),
                    pause_scheduled: scheduled,
                }
            },
        }
    }
}

/// A figure with its name.
#[derive(Debug, PartialEq, Eq)]
pub struct Metric {
    pub label: &'static str,
    pub value: String,
}

pub open spec fn metric_views(list: Seq<Metric>) -> Seq<(Seq<char>, Seq<char>)> {
    list.map_values(|m: Metric| (m.label@, m.value@))
}

fn add_metric(list: &mut Vec<Metric>, label: &'static str, value: String)
    ensures
        metric_views(final(list)@) == metric_views(old(list)@).push((label@, value@)),
{
    let ghost before = metric_views(list@);
    let ghost pair = (label@, value@);
    list.push(Metric { label, value });
    assert(metric_views(list@) =~= before.push(pair));
}

/// What is known of the source of a conversion.
pub open spec fn info_metrics(info: Option<HistoryMediaInfo>) -> Seq<(Seq<char>, Seq<char>)> {
    match info {
        Some(i) => seq![
            ("Original size"@, size_text(i.size)),
            ("Resolution"@, resolution_text(i.width, i.height)),
            ("Original FPS"@, i.fps_text@),
        ],
        None => Seq::empty(),
    }
}

/// What is known of the task of a conversion: the rate of its output, and the number of its file.
pub open spec fn task_metrics(c: ControllerView, env: SurroundingsView, f: FiguresView) -> Seq<
    (Seq<char>, Seq<char>),
> {
    match running_task(c.board) {
        None => Seq::empty(),
        Some(t) => {
            let rate = seq![
                (
                    "Target FPS"@,
                    text_or(f.reported_fps, rate_policy_text(t.settings.fps, f.written_fps)),
                ),
            ];
            match item_position(t, counts_on(c.board, env, t), c.progress) {
                Some((index, total)) => rate.push(
                    ("File #"@, decimal(index as nat) + "/"@ + decimal(total as nat)),
                ),
                None => rate,
            }
        },
    }
}

/// What the panel tells of the source of the running conversion.
pub open spec fn source_metrics(
    c: ControllerView,
    env: SurroundingsView,
    f: FiguresView,
) -> Seq<(Seq<char>, Seq<char>)> {
    match c.board.worker {
        None => Seq::empty(),
        Some(w) => seq![
            ("Folder"@, text_or(parent(w.target), "-"@)),
            ("File"@, text_or(file_name(w.target), "-"@)),
        ] + info_metrics(c.source) + task_metrics(c, env, f) + seq![
            ("Camera Model"@, text_or(opt_text(c.camera.model_name), "-"@)),
            ("Applying LUT"@, text_or(opt_text(c.camera.lut_status), "-"@)),
        ],
    }
}

/// What the panel tells of how far the running conversion is.
pub open spec fn progress_metrics(c: ControllerView, f: FiguresView) -> Seq<(Seq<char>, Seq<char>)> {
    let mode = match running_task(c.board) {
        Some(t) => Some(t.settings.mode),
        None => None,
    };
    match c.progress {
        None => Seq::empty(),
        Some(p) => seq![
            ("Spent"@, clock_or_dash(Some(f.spent))),
            ("Remaining"@, clock_or_dash(f.remaining)),
            ("Frame"@, frame_progress_text(p, f.frame_estimate)),
            ("Time"@, progress_time_text(p, mode)),
            ("Current FPS"@, text_or(f.conversion_fps, "-"@)),
            ("Speed"@, text_or(f.conversion_speed, "-"@)),
            ("Current File Size"@, size_text(p.output_bytes)),
            ("Estimated size"@, size_text(estimated_bytes(p))),
            ("Approx size/min"@, size_text(bytes_per_minute(p))),
        ],
    }
}

fn value_or_dash(text: &Option<String>) -> (r: String)
    ensures
        r@ == text_or(opt_text(*text), "-"@),
{
    match text {
        Some(text) => text.clone(),
        None => "-".to_owned(),
    }
}

fn text_slice(text: &Option<String>) -> (r: Option<&str>)
    ensures
        opt_slice(r) == opt_text(*text),
{
    match text {
        Some(text) => Some(text.as_str()),
        None => None,
    }
}

impl SlintController {
    fn running_on_board(&self) -> (r: Option<&QueueTask>)
        ensures
            match r {
                Some(t) => running_task(self@.board) == Some(t@),
                None => running_task(self@.board) is None,
            },
    {
        match &self.board.worker {
            Some(worker) => self.board.queue.task(worker.task_id.as_str()),
            None => None,
        }
    }

    /// What the panel tells of the source of the running conversion.
    pub fn show_source_metrics(&self, env: &Surroundings, figures: &LiveFigures) -> (r: Vec<Metric>)
        ensures
            metric_views(r@) == source_metrics(self@, env@, figures@),
    {
        let mut r: Vec<Metric> = Vec::new();
        assert(metric_views(r@) =~= Seq::<(Seq<char>, Seq<char>)>::empty());
        let worker = match &self.board.worker {
            Some(worker) => worker,
            None => {
                return r;
            },
        };
        let folder = path_parent(worker.target.as_str());
        let name = path_file_name(worker.target.as_str());
        add_metric(&mut r, "Folder", value_or_dash(&folder));
        add_metric(&mut r, "File", value_or_dash(&name));
        let ghost head = metric_views(r@);
        assert(head =~= seq![
            ("Folder"@, text_or(parent(worker.target@), "-"@)),
            ("File"@, text_or(file_name(worker.target@), "-"@)),
        ]);
        if let Some(i) = &self.source {
            add_metric(&mut r, "Original size", format_size_mb(i.size));
            add_metric(&mut r, "Resolution", format_resolution(i.width, i.height));
            add_metric(&mut r, "Original FPS", i.fps_text.clone());
        }
        assert(metric_views(r@) =~= head + info_metrics(self@.source));
        let ghost upper = metric_views(r@);
        if let Some(task) = self.running_on_board() {
            add_metric(
                &mut r,
                "Target FPS",
                target_fps_status(
                    text_slice(&figures.reported_fps),
                    task.settings.fps,
                    figures.written_fps.as_str(),
                ),
            );
            let counts = self.board.display_counts(task, env);
            if let Some((index, total)) = active_item_position(task, &counts, self.progress) {
                add_metric(
                    &mut r,
                    "File #",
                    concat3(
                        decimal_text(index as u128).as_str(),
                        "/",
                        decimal_text(total as u128).as_str(),
                    ),
                );
            }
        }
        assert(metric_views(r@) =~= upper + task_metrics(self@, env@, figures@));
        add_metric(&mut r, "Camera Model", value_or_dash(&self.camera.model_name));
        add_metric(&mut r, "Applying LUT", value_or_dash(&self.camera.lut_status));
        assert(metric_views(r@) =~= source_metrics(self@, env@, figures@));
        r
    }

    /// What the panel tells of how far the running conversion is.
    pub fn show_progress_metrics(&self, figures: &LiveFigures) -> (r: Vec<Metric>)
        ensures
            metric_views(r@) == progress_metrics(self@, figures@),
    {
        let mode = match self.running_on_board() {
            Some(task) => Some(task.settings.mode),
            None => None,
        };
        let mut r: Vec<Metric> = Vec::new();
        assert(metric_views(r@) =~= Seq::<(Seq<char>, Seq<char>)>::empty());
        if let Some(p) = &self.progress {
            add_metric(&mut r, "Spent", format_clock_or_dash(Some(figures.spent)));
            add_metric(&mut r, "Remaining", format_clock_or_dash(figures.remaining));
            add_metric(&mut r, "Frame", format_frame_progress(p, figures.frame_estimate));
            add_metric(&mut r, "Time", format_progress_time(p, mode));
            add_metric(&mut r, "Current FPS", value_or_dash(&figures.conversion_fps));
            add_metric(&mut r, "Speed", value_or_dash(&figures.conversion_speed));
            add_metric(&mut r, "Current File Size", format_size_mb(p.output_bytes));
            add_metric(&mut r, "Estimated size", format_size_mb(estimated_output_bytes(p)));
            add_metric(&mut r, "Approx size/min", format_size_mb(output_bytes_per_minute(p)));
            assert(metric_views(r@) =~= progress_metrics(self@, figures@));
        }
        r
    }
}

/// The word for the state of a task, as its table has it.
pub open spec fn plain_status(status: QueueStatus) -> Seq<char> {
    match status {
        QueueStatus::Pending => "Pending"@,
        QueueStatus::Running => "Running"@,
        QueueStatus::Paused => "Paused"@,
        QueueStatus::Completed => "Completed"@,
        QueueStatus::Failed => "Failed"@,
        QueueStatus::Cancelled => "Cancelled"@,
    }
}

fn plain_status_name(status: QueueStatus) -> (r: &'static str)
    ensures
        r@ == plain_status(status),
{
    match status {
        QueueStatus::Pending => "Pending",
        QueueStatus::Running => "Running",
        QueueStatus::Paused => "Paused",
        QueueStatus::Completed => "Completed",
        QueueStatus::Failed => "Failed",
        QueueStatus::Cancelled => "Cancelled",
    }
}

pub open spec fn dash_if_empty(text: Seq<char>) -> Seq<char> {
    if text.len() == 0 {
        "-"@
    } else {
        text
    }
}

fn dashed(text: &str) -> (r: String)
    ensures
        r@ == dash_if_empty(text@),
{
    if to_chars(text).len() == 0 {
        "-".to_owned()
    } else {
        text.to_owned()
    }
}

/// The row of a task in the task table.
pub open spec fn task_cells(b: BoardView, env: SurroundingsView, t: TaskView) -> Seq<Seq<char>> {
    let counts = counts_on(b, env, t);
    seq![
        t.name,
        mode_label(t.settings.mode) + " · "@ + encoder_user_name(t.settings.encoder),
        plain_status(t.status),
        decimal(counts.targets as nat),
        decimal(counts.folders as nat),
        decimal(counts.files as nat),
        decimal(counts.remaining as nat),
        decimal(counts.converted as nat),
        decimal(counts.failed as nat),
        dash_if_empty(t.queued_time),
        dash_if_empty(t.complete_time),
    ]
}

/// The row of a watched folder in the folder table.
pub open spec fn summary_cells(s: SummaryView) -> Seq<Seq<char>> {
    seq![
        s.root,
        mode_label(s.mode) + " · "@ + encoder_user_name(s.encoder),
        summary_status(s),
        "1"@,
        decimal(s.folders as nat),
        decimal(s.files as nat),
        decimal(s.remaining as nat),
        decimal(s.converted as nat),
        decimal(s.failed as nat),
    ]
}

/// A watched folder that is no target of a task.
pub open spec fn is_untargeted(tasks: Seq<TaskView>) -> spec_fn(SummaryView) -> bool {
    |s: SummaryView| !is_queued(tasks, s.root)
}

/// The rows of a table.
pub open spec fn cell_texts(rows: Seq<Vec<String>>) -> Seq<Seq<Seq<char>>> {
    rows.map_values(|row: Vec<String>| texts(row@))
}

/// The table of the watched folders that are no target of a task.
pub open spec fn folder_table(b: BoardView) -> Seq<Seq<Seq<char>>> {
    b.summaries.filter(is_untargeted(b.tasks)).map_values(|s: SummaryView| summary_cells(s))
}

fn count_text(n: usize) -> (r: String)
    ensures
        r@ == decimal(n as nat),
{
    decimal_text(n as u128)
}

fn summary_row(s: &FolderQueueSummary) -> (r: Vec<String>)
    ensures
        texts(r@) == summary_cells(s@),
{
    let mut r: Vec<String> = Vec::new();
    r.push(s.root.clone());
    r.push(concat3(s.mode.label(), " · ", s.encoder.user_name()));
    r.push(folder_summary_status(s).to_owned());
    r.push("1".to_owned());
    r.push(count_text(s.folders));
    r.push(count_text(s.files));
    r.push(count_text(s.remaining));
    r.push(count_text(s.converted));
    r.push(count_text(s.failed));
    assert(texts(r@) =~= summary_cells(s@));
    r
}

impl Board {
    /// The row of a task in the task table.
    pub fn task_table_row(&self, env: &Surroundings, task: &QueueTask) -> (r: Vec<String>)
        ensures
            texts(r@) == task_cells(self@, env@, task@),
    {
        let counts = self.display_counts(task, env);
        let mut r: Vec<String> = Vec::new();
        r.push(task.name.clone());
        r.push(concat3(task.settings.mode.label(), " · ", task.settings.encoder.user_name()));
        r.push(plain_status_name(task.status).to_owned());
        r.push(count_text(counts.targets));
        r.push(count_text(counts.folders));
        r.push(count_text(counts.files));
        r.push(count_text(counts.remaining));
        r.push(count_text(counts.converted));
        r.push(count_text(counts.failed));
        r.push(dashed(task.queued_time.as_str()));
        r.push(dashed(task.complete_time.as_str()));
        assert(texts(r@) =~= task_cells(self@, env@, task@));
        r
    }

    /// The table of the watched folders that are no target of a task.
    pub fn folder_summary_rows(&self) -> (r: Vec<Vec<String>>)
        ensures
            cell_texts(r@) == folder_table(self@),
    {
        let queued = crate::targets::queued_target_set(&self.queue);
        let ghost all = self@.summaries;
        let ghost test = is_untargeted(self@.tasks);
        let ghost to_cells = |s: SummaryView| summary_cells(s);
        let mut r: Vec<Vec<String>> = Vec::new();
        let mut i: usize = 0;
        assert(all.take(0).filter(test) =~= Seq::<SummaryView>::empty());
        assert(cell_texts(r@) =~= all.take(0).filter(test).map_values(to_cells));
        while i < self.summaries.len()
            invariant
                i <= self.summaries@.len(),
                all == summary_views(self.summaries@),
                test == is_untargeted(self@.tasks),
                texts(queued@) == crate::targets::queued_paths(self@.tasks),
                to_cells == (|s: SummaryView| summary_cells(s)),
                cell_texts(r@) == all.take(i as int).filter(test).map_values(to_cells),
            decreases self.summaries@.len() - i,
        {
            let ghost before = cell_texts(r@);
            let ghost kept = all.take(i as int).filter(test);
            proof {
                assert(all.take(i + 1) =~= all.take(i as int).push(all[i as int]));
                all.take(i as int).lemma_filter_push(all[i as int], test);
                assert(all[i as int] == self.summaries@[i as int]@);
                crate::targets::law_queued_paths_are_the_targets(
                    self@.tasks,
                    all[i as int].root,
                );
            }
            if !list_has_path(&queued, self.summaries[i].root.as_str()) {
                r.push(summary_row(&self.summaries[i]));
                assert(cell_texts(r@) =~= before.push(summary_cells(all[i as int])));
                assert(kept.push(all[i as int]).map_values(to_cells) =~= kept.map_values(
                    to_cells,
                ).push(summary_cells(all[i as int])));
            }
            i = i + 1;
        }
        assert(all.take(i as int) =~= all);
        r
    }
}

/// How much of the processor the program may use, in words.
pub open spec fn limit_summary(label: Seq<char>, percent: nat, threads: nat, available: nat) -> Seq<char> {
    label + " · "@ + decimal(percent) + "% · "@ + decimal(threads) + " of "@ + decimal(available)
        + " CPU "@ + if available == 1 {
        "thread"@
    } else {
        "threads"@
    }
}

/// How much of the processor the program may use, in words.
pub fn cpu_limit_summary(label: &str, percent: usize, threads: usize, available: usize) -> (r: String)
    ensures
        r@ == limit_summary(label@, percent as nat, threads as nat, available as nat),
{
    let mut r = concat3(label, " · ", count_text(percent).as_str());
    r = concat3(r.as_str(), "% · ", count_text(threads).as_str());
    r = concat3(r.as_str(), " of ", count_text(available).as_str());
    concat3(
        r.as_str(),
        " CPU ",
        if available == 1 {
            "thread"
        } else {
            "threads"
        },
    )
}

/// While a conversion runs, the queue can be neither started nor emptied.
pub proof fn law_running_conversion_blocks_the_toolbar(b: BoardView, mode: ContentMode)
    requires
        b.worker is Some,
    ensures
        !toolbar(b, mode).can_run_queue,
        !toolbar(b, mode).can_run_selected,
        !toolbar(b, mode).can_clear,
        !toolbar(b, mode).can_review,
{
}

} // verus!
