//! What the task list and the history list show.

use crate::board::{Board, BoardView};
use crate::clock::{counted, counted_text};
use crate::counts::{
    friendly_status, progress_parts, status_word, task_progress_segments, ProgressParts,
    TaskDisplayCounts,
};
use crate::editing::can_rerun;
use crate::history::{row_views, CompletedHistoryRow};
use crate::model::{encoder_user_name, mode_label};
use crate::output_naming::text_or;
use crate::presets::{Surroundings, SurroundingsView};
use crate::queue::{task_views, QueueStatus, QueueTask, TaskView};
use crate::run::counts_on;
use crate::targets::task_has_remaining_work;
use crate::task_files::{
    task_file_title, task_file_views, title_of, FileView, SlintTaskFileSnapshot,
};
use crate::text::{
    concat2, concat3, contains_text, decimal, decimal_text, join_texts, join_with, same_text,
    text_contains, texts, to_chars, trim_text, trimmed, unicode_lower, unicode_lowercase,
};
use vstd::prelude::*;

verus! {

/// A task, as the task list shows it.
#[derive(Debug, PartialEq, Eq)]
pub struct SlintTaskSnapshot {
    pub title: String,
    pub subtitle: String,
    pub status: String,
    /// How the progress bar divides.
    pub parts: ProgressParts,
    /// The progress of the file at work, in ten-thousandths of one file.
    pub current_item_progress: u16,
    pub has_progress: bool,
    pub counts: TaskDisplayCounts,
    pub progress_summary: String,
    pub completed_before_label: String,
    pub completed_this_run_label: String,
    pub remaining_label: String,
    pub selected: bool,
    pub active: bool,
    pub can_run: bool,
    pub can_retry: bool,
    pub can_reorder: bool,
    pub error_detail: String,
}

/// The contents of a `SlintTaskSnapshot`.
pub struct TaskRowView {
    pub title: Seq<char>,
    pub subtitle: Seq<char>,
    pub status: Seq<char>,
    pub parts: ProgressParts,
    pub current_item_progress: u16,
    pub has_progress: bool,
    pub counts: TaskDisplayCounts,
    pub progress_summary: Seq<char>,
    pub completed_before_label: Seq<char>,
    pub completed_this_run_label: Seq<char>,
    pub remaining_label: Seq<char>,
    pub selected: bool,
    pub active: bool,
    pub can_run: bool,
    pub can_retry: bool,
    pub can_reorder: bool,
    pub error_detail: Seq<char>,
}

impl View for SlintTaskSnapshot {
    type V = TaskRowView;

    open spec fn view(&self) -> TaskRowView {
        TaskRowView {
            title: self.title@,
            subtitle: self.subtitle@,
            status: self.status@,
            parts: self.parts,
            current_item_progress: self.current_item_progress,
            has_progress: self.has_progress,
            counts: self.counts,
            progress_summary: self.progress_summary@,
            completed_before_label: self.completed_before_label@,
            completed_this_run_label: self.completed_this_run_label@,
            remaining_label: self.remaining_label@,
            selected: self.selected,
            active: self.active,
            can_run: self.can_run,
            can_retry: self.can_retry,
            can_reorder: self.can_reorder,
            error_detail: self.error_detail@,
        }
    }
}

pub open spec fn task_row_views(list: Seq<SlintTaskSnapshot>) -> Seq<TaskRowView> {
    list.map_values(|s: SlintTaskSnapshot| s@)
}

/// How much a task has to work on.
pub open spec fn amount_text(counts: TaskDisplayCounts) -> Seq<char> {
    if counts.files > 0 {
        counted(counts.files as nat, "video"@)
    } else if counts.targets > 0 {
        counted(counts.targets as nat, "item"@)
    } else {
        "Waiting for media"@
    }
}

/// The number of files that a task started its run with; what is converted where it has none.
pub open spec fn start_of(b: BoardView, id: Seq<char>) -> Option<usize> {
    if b.starts.contains_key(id) {
        Some(b.starts[id])
    } else {
        None
    }
}

pub open spec fn least(a: usize, b: usize) -> usize {
    if a <= b {
        a
    } else {
        b
    }
}

/// A task, as the task list shows it; `points` is the progress of the conversion that runs.
pub open spec fn task_row(b: BoardView, env: SurroundingsView, points: u16, t: TaskView) -> TaskRowView {
    let counts = counts_on(b, env, t);
    let parts = progress_parts(counts, start_of(b, t.id));
    let active = b.worker is Some && b.worker->0.task_id == t.id;
    let left = decimal(counts.remaining as nat);
    TaskRowView {
        title: t.name,
        subtitle: mode_label(t.settings.mode) + "  ·  "@ + encoder_user_name(t.settings.encoder)
            + "  ·  "@ + amount_text(counts),
        status: status_word(t.status, t.error is Some),
        parts,
        current_item_progress: if active && parts.counts_current {
            points
        } else {
            0
        },
        has_progress: counts.files > 0,
        counts,
        progress_summary: decimal(parts.completed_before as nat) + " completed previously, "@
            + decimal(parts.completed_this_run as nat) + " completed this run, "@ + left
            + " unfinished"@ + if counts.failed == 0 {
            Seq::empty()
        } else {
            ", "@ + decimal(counts.failed as nat) + " failed"@
        },
        completed_before_label: "Previous "@ + decimal(parts.completed_before as nat),
        completed_this_run_label: "This run "@ + decimal(parts.completed_this_run as nat),
        remaining_label: "Remaining "@ + left + if counts.failed == 0 {
            Seq::empty()
        } else {
            " · Failed "@ + decimal(counts.failed as nat)
        },
        selected: b.selection.primary == Some(t.id),
        active,
        can_run: t.status == QueueStatus::Pending || can_rerun(env.disk, t),
        can_retry: can_rerun(env.disk, t),
        can_reorder: t.status == QueueStatus::Pending,
        error_detail: text_or(t.error, Seq::empty()),
    }
}

/// All tasks, as the task list shows them.
pub open spec fn task_rows(b: BoardView, env: SurroundingsView, points: u16) -> Seq<TaskRowView> {
    b.tasks.map_values(|t: TaskView| task_row(b, env, points, t))
}

fn amount_name(counts: &TaskDisplayCounts) -> (r: String)
    ensures
        r@ == amount_text(*counts),
{
    if counts.files > 0 {
        counted_text(counts.files, "video")
    } else if counts.targets > 0 {
        counted_text(counts.targets, "item")
    } else {
        "Waiting for media".to_owned()
    }
}

fn numbered(head: &str, n: usize) -> (r: String)
    ensures
        r@ == head@ + decimal(n as nat),
{
    concat2(head, decimal_text(n as u128).as_str())
}

/// The progress of a task in words; `percent` is the share that is done.
pub open spec fn progress_text(counts: TaskDisplayCounts, percent: nat) -> Seq<char> {
    decimal(least(counts.converted, counts.files) as nat) + " / "@ + decimal(counts.files as nat)
        + " completed  ·  "@ + if counts.failed == 0 {
        Seq::empty()
    } else {
        decimal(counts.failed as nat) + " failed  ·  "@
    } + decimal(percent) + "% overall"@
}

impl SlintTaskSnapshot {
    /// The progress of the task in words; `percent` is the share that is done.
    pub fn progress_label(&self, percent: u128) -> (r: String)
        ensures
            r@ == progress_text(self@.counts, percent as nat),
    {
        progress_label(&self.counts, percent)
    }
}

fn progress_label(counts: &TaskDisplayCounts, percent: u128) -> (r: String)
    ensures
        r@ == progress_text(*counts, percent as nat),
{
    let completed: usize = if counts.converted <= counts.files {
        counts.converted
    } else {
        counts.files
    };
    let mut r = concat3(
        decimal_text(completed as u128).as_str(),
        " / ",
        decimal_text(counts.files as u128).as_str(),
    );
    r.append(" completed  ·  ");
    if counts.failed != 0 {
        r.append(concat2(decimal_text(counts.failed as u128).as_str(), " failed  ·  ").as_str());
    } else {
        assert(r@ + Seq::<char>::empty() =~= r@);
    }
    r.append(decimal_text(percent).as_str());
    r.append("% overall");
    r
}

impl Board {
    /// Whether a task can be run again.
    pub fn can_retry(&self, env: &Surroundings, task: &QueueTask) -> (r: bool)
        ensures
            r == can_rerun(env@.disk, task@),
    {
        match task.status {
            QueueStatus::Failed | QueueStatus::Cancelled => true,
            QueueStatus::Completed => task_has_remaining_work(&env.disk, task),
            _ => false,
        }
    }

    fn task_snapshot(&self, env: &Surroundings, points: u16, task: &QueueTask) -> (r:
        SlintTaskSnapshot)
        ensures
            r@ == task_row(self@, env@, points, task@),
    {
        let counts = self.display_counts(task, env);
        let parts = task_progress_segments(&counts, self.starts.get(task.id.as_str()));
        let active = match &self.worker {
            Some(worker) => same_text(worker.task_id.as_str(), task.id.as_str()),
            None => false,
        };
        let selected = match &self.selection.primary {
            Some(id) => same_text(id.as_str(), task.id.as_str()),
            None => false,
        };
        let subtitle = concat3(
            concat3(task.settings.mode.label(), "  ·  ", task.settings.encoder.user_name()).as_str(),
            "  ·  ",
            amount_name(&counts).as_str(),
        );
        let left = decimal_text(counts.remaining as u128);
        let failed = decimal_text(counts.failed as u128);
        let mut summary = concat3(
            concat3(
                concat2(
                    decimal_text(parts.completed_before as u128).as_str(),
                    " completed previously, ",
                ).as_str(),
                decimal_text(parts.completed_this_run as u128).as_str(),
                " completed this run, ",
            ).as_str(),
            left.as_str(),
            " unfinished",
        );
        let mut remaining = concat2("Remaining ", left.as_str());
        if counts.failed != 0 {
            summary.append(concat3(", ", failed.as_str(), " failed").as_str());
            remaining.append(concat2(" · Failed ", failed.as_str()).as_str());
        } else {
            assert(summary@ + Seq::<char>::empty() =~= summary@);
            assert(remaining@ + Seq::<char>::empty() =~= remaining@);
        }
        let can_retry = self.can_retry(env, task);
        let error_detail = match &task.error {
            Some(error) => error.clone(),
            None => {
                let none = String::new();
                assert(none@ =~= Seq::<char>::empty());
                none
            },
        };
        SlintTaskSnapshot {
            title: task.name.clone(),
            subtitle,
            status: friendly_status(task.status, task.error.is_some()).to_owned(),
            parts,
            current_item_progress: if active && parts.counts_current {
                points
            } else {
                0
            },
            has_progress: counts.files > 0,
            counts,
            progress_summary: summary,
            completed_before_label: numbered("Previous ", parts.completed_before),
            completed_this_run_label: numbered("This run ", parts.completed_this_run),
            remaining_label: remaining,
            selected,
            active,
            can_run: task.status == QueueStatus::Pending || can_retry,
            can_retry,
            can_reorder: task.status == QueueStatus::Pending,
            error_detail,
        }
    }

    /// All tasks, as the task list shows them; `points` is the progress of the conversion that runs.
    pub fn task_snapshots(&self, env: &Surroundings, points: u16) -> (r: Vec<SlintTaskSnapshot>)
        ensures
            task_row_views(r@) == task_rows(self@, env@, points),
    {
        let tasks = self.queue.tasks();
        let ghost all = task_rows(self@, env@, points);
        let mut r: Vec<SlintTaskSnapshot> = Vec::new();
        let mut i: usize = 0;
        while i < tasks.len()
            invariant
                i <= tasks@.len(),
                task_views(tasks@) == self@.tasks,
                all == task_rows(self@, env@, points),
                task_row_views(r@) == all.take(i as int),
            decreases tasks@.len() - i,
        {
            let ghost before = task_row_views(r@);
            assert(self@.tasks[i as int] == tasks@[i as int]@);
            r.push(self.task_snapshot(env, points, &tasks[i]));
            assert(task_row_views(r@) =~= before.push(all[i as int]));
            i = i + 1;
            assert(task_row_views(r@) =~= all.take(i as int));
        }
        assert(all.len() == tasks@.len());
        assert(all.take(i as int) =~= all);
        r
    }
}

pub open spec fn needs_attention() -> spec_fn(TaskRowView) -> bool {
    |r: TaskRowView| r.error_detail.len() > 0
}

/// How many tasks have an error.
pub fn attention_count(rows: &Vec<SlintTaskSnapshot>) -> (r: usize)
    ensures
        r == task_row_views(rows@).filter(needs_attention()).len(),
{
    let ghost all = task_row_views(rows@);
    let ghost test = needs_attention();
    let mut n: usize = 0;
    let mut i: usize = 0;
    assert(all.take(0).filter(test) =~= Seq::<TaskRowView>::empty());
    while i < rows.len()
        invariant
            n <= i <= rows@.len(),
            all == task_row_views(rows@),
            test == needs_attention(),
            n == all.take(i as int).filter(test).len(),
        decreases rows@.len() - i,
    {
        proof {
            assert(all.take(i + 1) =~= all.take(i as int).push(all[i as int]));
            all.take(i as int).lemma_filter_push(all[i as int], test);
            assert(all[i as int] == rows@[i as int]@);
        }
        let chars = to_chars(rows[i].error_detail.as_str());
        if chars.len() > 0 {
            n = n + 1;
        }
        i = i + 1;
    }
    assert(all.take(i as int) =~= all);
    n
}

/// A converted file, as the history list shows it.
#[derive(Debug, PartialEq, Eq)]
pub struct SlintHistorySnapshot {
    pub title: String,
    pub path: String,
    pub subtitle: String,
    pub detail: String,
    pub configuration: String,
}

/// The contents of a `SlintHistorySnapshot`.
pub struct HistoryRowView {
    pub title: Seq<char>,
    pub path: Seq<char>,
    pub subtitle: Seq<char>,
    pub detail: Seq<char>,
    pub configuration: Seq<char>,
}

impl View for SlintHistorySnapshot {
    type V = HistoryRowView;

    open spec fn view(&self) -> HistoryRowView {
        HistoryRowView {
            title: self.title@,
            path: self.path@,
            subtitle: self.subtitle@,
            detail: self.detail@,
            configuration: self.configuration@,
        }
    }
}

pub open spec fn history_row_views(list: Seq<SlintHistorySnapshot>) -> Seq<HistoryRowView> {
    list.map_values(|s: SlintHistorySnapshot| s@)
}

/// A history row, as the history list shows it.
pub open spec fn history_row(row: Seq<Seq<char>>) -> HistoryRowView {
    HistoryRowView {
        title: title_of(row[0]),
        path: row[0],
        subtitle: row[1] + "  ·  "@ + row[8],
        detail: row[5] + " min  ·  "@ + row[6] + " → "@ + row[7],
        configuration: "Original FPS "@ + row[9] + "  ·  Target FPS "@ + row[10]
            + "  ·  Encoder "@ + row[11] + "  ·  Quality CRF "@ + row[12] + "  ·  Preset "@ + row[13],
    }
}

/// Some column of the row has the filter's text in it, without regard to case.
pub open spec fn row_passes(filter: Seq<char>) -> spec_fn(Seq<Seq<char>>) -> bool {
    |row: Seq<Seq<char>>|
        filter.len() == 0 || exists|i: int|
            0 <= i < row.len() && contains_text(unicode_lower(#[trigger] row[i]), filter)
}

/// The rows that the history list shows under a filter.
pub open spec fn shown_history(rows: Seq<Seq<Seq<char>>>, filter: Seq<char>) -> Seq<HistoryRowView> {
    rows.filter(row_passes(unicode_lower(trimmed(filter)))).map_values(
        |row: Seq<Seq<char>>| history_row(row),
    )
}

fn history_snapshot(row: &CompletedHistoryRow) -> (r: SlintHistorySnapshot)
    ensures
        r@ == history_row(row@),
{
    let c = row.columns();
    assert(forall|i: int| 0 <= i < 19 ==> (#[trigger] c@[i])@ == row@[i]);
    let detail = concat3(
        concat3(c[5].as_str(), " min  ·  ", c[6].as_str()).as_str(),
        " → ",
        c[7].as_str(),
    );
    let mut configuration = concat2("Original FPS ", c[9].as_str());
    configuration = concat3(configuration.as_str(), "  ·  Target FPS ", c[10].as_str());
    configuration = concat3(configuration.as_str(), "  ·  Encoder ", c[11].as_str());
    configuration = concat3(configuration.as_str(), "  ·  Quality CRF ", c[12].as_str());
    configuration = concat3(configuration.as_str(), "  ·  Preset ", c[13].as_str());
    SlintHistorySnapshot {
        title: task_file_title(c[0].as_str()),
        path: c[0].clone(),
        subtitle: concat3(c[1].as_str(), "  ·  ", c[8].as_str()),
        detail,
        configuration,
    }
}

fn passes_filter(row: &CompletedHistoryRow, filter: &str) -> (r: bool)
    ensures
        r == row_passes(filter@)(row@),
{
    let chars = to_chars(filter);
    if chars.len() == 0 {
        return true;
    }
    let columns = row.columns();
    assert(forall|i: int| 0 <= i < 19 ==> (#[trigger] columns@[i])@ == row@[i]);
    let mut i: usize = 0;
    while i < columns.len()
        invariant
            i <= columns@.len(),
            texts(columns@) == row@,
            filter@.len() > 0,
            forall|k: int|
                0 <= k < i ==> !contains_text(unicode_lower(#[trigger] row@[k]), filter@),
        decreases columns@.len() - i,
    {
        assert(row@[i as int] == columns@[i as int]@);
        if text_contains(unicode_lowercase(columns[i].as_str()).as_str(), filter) {
            assert(contains_text(unicode_lower(row@[i as int]), filter@));
            return true;
        }
        i = i + 1;
    }
    assert(row@.len() == columns@.len());
    false
}

/// The rows that the history list shows under a filter.
pub fn filtered_history(rows: &Vec<CompletedHistoryRow>, filter: &str) -> (r: Vec<
    SlintHistorySnapshot,
>)
    ensures
        history_row_views(r@) == shown_history(row_views(rows@), filter@),
{
    let wanted = unicode_lowercase(trim_text(filter).as_str());
    let ghost all = row_views(rows@);
    let ghost test = row_passes(wanted@);
    let ghost to_row = |row: Seq<Seq<char>>| history_row(row);
    let mut r: Vec<SlintHistorySnapshot> = Vec::new();
    let mut i: usize = 0;
    assert(all.take(0).filter(test) =~= Seq::<Seq<Seq<char>>>::empty());
    assert(history_row_views(r@) =~= all.take(0).filter(test).map_values(to_row));
    while i < rows.len()
        invariant
            i <= rows@.len(),
            all == row_views(rows@),
            test == row_passes(wanted@),
            to_row == (|row: Seq<Seq<char>>| history_row(row)),
            history_row_views(r@) == all.take(i as int).filter(test).map_values(to_row),
        decreases rows@.len() - i,
    {
        let ghost before = history_row_views(r@);
        let ghost kept = all.take(i as int).filter(test);
        proof {
            assert(all.take(i + 1) =~= all.take(i as int).push(all[i as int]));
            all.take(i as int).lemma_filter_push(all[i as int], test);
            assert(all[i as int] == rows@[i as int]@);
        }
        if passes_filter(&rows[i], wanted.as_str()) {
            r.push(history_snapshot(&rows[i]));
            assert(history_row_views(r@) =~= before.push(history_row(all[i as int])));
            assert(kept.push(all[i as int]).map_values(to_row) =~= kept.map_values(to_row).push(
                history_row(all[i as int]),
            ));
        }
        i = i + 1;
    }
    assert(all.take(i as int) =~= all);
    r
}

pub open spec fn has_error_detail() -> spec_fn(FileView) -> bool {
    |f: FileView| f.error_detail.len() > 0
}

/// What went wrong with each file that failed.
pub open spec fn errors_text(files: Seq<FileView>) -> Seq<char> {
    join_texts(
        files.filter(has_error_detail()).map_values(|f: FileView| f.path + "\n"@ + f.error_detail),
        "\n\n"@,
    )
}

pub fn task_error_detail(files: &Vec<SlintTaskFileSnapshot>) -> (r: String)
    ensures
        r@ == errors_text(task_file_views(files@)),
{
    let ghost all = task_file_views(files@);
    let ghost test = has_error_detail();
    let ghost to_text = |f: FileView| f.path + "\n"@ + f.error_detail;
    let mut pieces: Vec<String> = Vec::new();
    let mut i: usize = 0;
    assert(all.take(0).filter(test) =~= Seq::<FileView>::empty());
    assert(texts(pieces@) =~= all.take(0).filter(test).map_values(to_text));
    while i < files.len()
        invariant
            i <= files@.len(),
            all == task_file_views(files@),
            test == has_error_detail(),
            to_text == (|f: FileView| f.path + "\n"@ + f.error_detail),
            texts(pieces@) == all.take(i as int).filter(test).map_values(to_text),
        decreases files@.len() - i,
    {
        let ghost before = texts(pieces@);
        let ghost kept = all.take(i as int).filter(test);
        proof {
            assert(all.take(i + 1) =~= all.take(i as int).push(all[i as int]));
            all.take(i as int).lemma_filter_push(all[i as int], test);
            assert(all[i as int] == files@[i as int]@);
        }
        let chars = to_chars(files[i].error_detail.as_str());
        if chars.len() > 0 {
            pieces.push(concat3(files[i].path.as_str(), "\n", files[i].error_detail.as_str()));
            assert(texts(pieces@) =~= before.push(to_text(all[i as int])));
            assert(kept.push(all[i as int]).map_values(to_text) =~= kept.map_values(to_text).push(
                to_text(all[i as int]),
            ));
        }
        i = i + 1;
    }
    assert(all.take(i as int) =~= all);
    join_with(&pieces, "\n\n")
}

} // verus!
