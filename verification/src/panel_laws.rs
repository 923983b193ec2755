//! What the panels and the tables of the front end show, and what they offer.

use crate::board::{task_named, BoardView, QueueRunState};
use crate::clock::{resolution_text, short_clock_text, size_text, whole_secs};
use crate::controller::ControllerView;
use crate::jobs::HistoryMediaInfo;
use crate::model::{encoder_user_name, mode_label, ContentMode};
use crate::output_naming::text_or;
use crate::panels::{
    controls, folder_table, limit_summary, plain_status, progress_metrics, source_metrics,
    summary_cells, task_cells, toolbar, WorkerControls,
};
use crate::paths::{file_name, parent};
use crate::presets::SurroundingsView;
use crate::progress::{bytes_per_minute, estimated_bytes, frame_progress_text};
use crate::queue::{has_id, next_pending, position_of, QueueStatus, TaskView};
use crate::run::counts_on;
use crate::snapshot::{
    app_snapshot, displayed_settings, live_status, running_task, selected_place, whole_time, FiguresView,
};
use crate::stream_policy::lemma_filter_source;
use crate::summary::{summary_status, SummaryView};
use crate::targets::is_queued;
use crate::task_edit::shown_task;
use crate::text::{decimal, opt_text};
use vstd::prelude::*;

verus! {

/// What the toolbar offers at rest: the queue runs where a task waits, the selected task where it waits, and the
/// queue can be emptied.
pub proof fn law_toolbar_at_rest(b: BoardView, mode: ContentMode)
    requires
        b.worker is None,
        b.run_state == QueueRunState::Idle,
    ensures
        toolbar(b, mode).can_clear,
        toolbar(b, mode).can_run_queue <==> next_pending(b.tasks) is Some,
        toolbar(b, mode).can_run_selected <==> b.selected_ids().len() == 1 && (shown_task(b) matches Some(t)
            && t.status == QueueStatus::Pending),
        toolbar(b, mode).can_add_folder <==> mode != ContentMode::Trim,
        toolbar(b, mode).can_remove <==> b.selected_ids().len() > 0,
        toolbar(b, mode).can_move <==> b.selected_ids().len() == 1 && (shown_task(b) matches Some(t)
            && t.status == QueueStatus::Pending),
        toolbar(b, mode).can_review <==> b.selected_ids().len() == 1 && (shown_task(b) matches Some(t)
            && t.settings.mode == ContentMode::PhotoSlideshow),
{
}

/// The toolbar offers to try again exactly if some selected task is completed, failed, or was stopped.
pub proof fn law_toolbar_offers_another_try(b: BoardView, mode: ContentMode)
    ensures
        toolbar(b, mode).can_rerun <==> exists|i: int|
            0 <= i < b.selected_ids().len() && has_id(b.tasks, #[trigger] b.selected_ids()[i]) && ({
                let status = task_named(b.tasks, b.selected_ids()[i]).status;
                status == QueueStatus::Completed || status == QueueStatus::Failed || status
                    == QueueStatus::Cancelled
            }),
{
}

/// The controls of a conversion: nothing without one, a wait between files, or pausing and scheduling a pause.
pub proof fn law_controls_of_a_conversion(b: BoardView)
    ensures
        b.run_state == QueueRunState::PausedBetweenFiles ==> controls(b) == WorkerControls::BetweenFiles,
        b.run_state == QueueRunState::PausedBetweenFilesSelected ==> controls(b)
            == WorkerControls::BetweenFiles,
        b.run_state == QueueRunState::Idle && b.worker is None ==> controls(b) == WorkerControls::Nothing,
        b.run_state == QueueRunState::Running ==> (b.worker matches Some(w) ==> controls(b)
            == WorkerControls::Running {
            paused: w.paused,
            can_schedule_pause: true,
            pause_scheduled: false,
        }),
        b.run_state == QueueRunState::PauseAfterCurrent ==> (b.worker matches Some(w) ==> controls(b)
            == WorkerControls::Running {
            paused: w.paused,
            can_schedule_pause: true,
            pause_scheduled: true,
        }),
        b.run_state == QueueRunState::Stopping ==> (b.worker matches Some(w) ==> controls(b)
            == WorkerControls::Running {
            paused: w.paused,
            can_schedule_pause: false,
            pause_scheduled: false,
        }),
{
}

/// The panel tells of the source: its folder, its name, its size, its resolution, and its rate.
pub proof fn law_panel_tells_of_the_source(
    c: ControllerView,
    env: SurroundingsView,
    f: FiguresView,
    info: HistoryMediaInfo,
)
    requires
        c.board.worker is Some,
    ensures
        ({
            let m = source_metrics(c, env, f);
            let target = c.board.worker->0.target;
            &&& m[0] == ("Folder"@, text_or(parent(target), "-"@))
            &&& m[1] == ("File"@, text_or(file_name(target), "-"@))
            &&& c.source == Some(info) ==> m[2] == ("Original size"@, size_text(info.size)) && m[3] == (
                "Resolution"@,
                resolution_text(info.width, info.height),
            ) && m[4] == ("Original FPS"@, info.fps_text@)
            &&& m[m.len() - 2] == ("Camera Model"@, text_or(opt_text(c.camera.model_name), "-"@))
            &&& m[m.len() - 1] == ("Applying LUT"@, text_or(opt_text(c.camera.lut_status), "-"@))
        }),
{
}

/// The panel tells how far the conversion is, each figure under its own name.
pub proof fn law_panel_tells_of_the_progress(c: ControllerView, f: FiguresView)
    requires
        c.progress is Some,
    ensures
        ({
            let m = progress_metrics(c, f);
            let p = c.progress->0;
            &&& m.len() == 9
            &&& m[0] == ("Spent"@, short_clock_text(whole_secs(f.spent)))
            &&& m[1].0 == "Remaining"@
            &&& f.remaining matches Some(d) ==> m[1].1 == short_clock_text(whole_secs(d))
            &&& m[2] == ("Frame"@, frame_progress_text(p, f.frame_estimate))
            &&& m[4].0 == "Current FPS"@ && m[4].1 == text_or(f.conversion_fps, "-"@)
            &&& m[5].0 == "Speed"@ && m[5].1 == text_or(f.conversion_speed, "-"@)
            &&& m[6] == ("Current File Size"@, size_text(p.output_bytes))
            &&& m[7] == ("Estimated size"@, size_text(estimated_bytes(p)))
            &&& m[8] == ("Approx size/min"@, size_text(bytes_per_minute(p)))
        }),
{
}

/// The words of the task table for the state of a task.
pub proof fn law_words_of_the_task_table()
    ensures
        plain_status(QueueStatus::Pending) == "Pending"@,
        plain_status(QueueStatus::Running) == "Running"@,
        plain_status(QueueStatus::Paused) == "Paused"@,
        plain_status(QueueStatus::Completed) == "Completed"@,
        plain_status(QueueStatus::Failed) == "Failed"@,
        plain_status(QueueStatus::Cancelled) == "Cancelled"@,
{
}

/// The columns of the task table: the name, the workflow and encoder, the state, six counts, and two times.
pub proof fn law_columns_of_the_task_table(b: BoardView, env: SurroundingsView, t: TaskView)
    ensures
        ({
            let row = task_cells(b, env, t);
            let counts = counts_on(b, env, t);
            &&& row.len() == 11
            &&& row[0] == t.name
            &&& row[1] == mode_label(t.settings.mode) + " · "@ + encoder_user_name(t.settings.encoder)
            &&& row[2] == plain_status(t.status)
            &&& row[3] == decimal(counts.targets as nat)
            &&& row[4] == decimal(counts.folders as nat)
            &&& row[5] == decimal(counts.files as nat)
            &&& row[6] == decimal(counts.remaining as nat)
            &&& row[7] == decimal(counts.converted as nat)
            &&& row[8] == decimal(counts.failed as nat)
            &&& t.queued_time.len() > 0 ==> row[9] == t.queued_time
            &&& t.complete_time.len() > 0 ==> row[10] == t.complete_time
            &&& t.complete_time.len() == 0 ==> row[10] == "-"@
        }),
{
}

/// The columns of the folder table have the counts in the order of the task table.
pub proof fn law_columns_of_the_folder_table(s: SummaryView)
    ensures
        ({
            let row = summary_cells(s);
            &&& row.len() == 9
            &&& row[0] == s.root
            &&& row[1] == mode_label(s.mode) + " · "@ + encoder_user_name(s.encoder)
            &&& row[2] == summary_status(s)
            &&& row[4] == decimal(s.folders as nat)
            &&& row[5] == decimal(s.files as nat)
            &&& row[6] == decimal(s.remaining as nat)
            &&& row[7] == decimal(s.converted as nat)
            &&& row[8] == decimal(s.failed as nat)
        }),
{
}

/// The folder table has the watched folders that are no target of a task, and no others.
pub proof fn law_folder_table_has_untargeted_folders(b: BoardView, i: int)
    ensures
        0 <= i < b.summaries.len() && !is_queued(b.tasks, b.summaries[i].root) ==> folder_table(b).contains(
            summary_cells(b.summaries[i]),
        ),
        0 <= i < folder_table(b).len() ==> exists|k: int|
            0 <= k < b.summaries.len() && !is_queued(b.tasks, (#[trigger] b.summaries[k]).root)
                && folder_table(b)[i] == summary_cells(b.summaries[k]),
{
    let test = crate::panels::is_untargeted(b.tasks);
    let kept = b.summaries.filter(test);
    let table = folder_table(b);
    assert(table.len() == kept.len());
    assert(forall|k: int| 0 <= k < kept.len() ==> #[trigger] table[k] == summary_cells(kept[k]));
    if 0 <= i < b.summaries.len() && !is_queued(b.tasks, b.summaries[i].root) {
        b.summaries.lemma_filter_contains(test, i);
        let k = choose|k: int| 0 <= k < kept.len() && kept[k] == b.summaries[i];
        assert(table[k] == summary_cells(b.summaries[i]));
    }
    if 0 <= i < table.len() {
        lemma_filter_source(b.summaries, test, i);
        let k = choose|k: int|
            0 <= k < b.summaries.len() && #[trigger] b.summaries[k] == kept[i] && test(b.summaries[k]);
        assert(table[i] == summary_cells(b.summaries[k]));
    }
}

/// The limit of the processor is worded by its share and its threads, of which one is a thread.
pub proof fn law_words_for_the_limit(label: Seq<char>, percent: nat, threads: nat, available: nat)
    ensures
        available == 1 ==> limit_summary(label, percent, threads, available) == label + " · "@ + decimal(
            percent,
        ) + "% · "@ + decimal(threads) + " of "@ + decimal(1) + " CPU "@ + "thread"@,
        available != 1 ==> limit_summary(label, percent, threads, available) == label + " · "@ + decimal(
            percent,
        ) + "% · "@ + decimal(threads) + " of "@ + decimal(available) + " CPU "@ + "threads"@,
{
}

/// The running conversion shows the time done and the whole time, the rates of source and result, and the time
/// spent, left, and in all.
pub proof fn law_running_conversion_is_shown(c: ControllerView, f: FiguresView, t: TaskView)
    requires
        running_task(c.board) == Some(t),
    ensures
        ({
            let live = live_status(c, f);
            &&& c.progress matches Some(p) ==> live.position == short_clock_text(whole_secs(p.completed))
            &&& c.progress matches Some(p) ==> (p.total matches Some(total) ==> live.duration
                == short_clock_text(whole_secs(total)))
            &&& c.source matches Some(info) ==> live.original_fps == info.fps_text@
            &&& f.reported_fps matches Some(text) ==> live.target_fps == text
            &&& t.settings.mode != ContentMode::Trim ==> live.encoder == encoder_user_name(t.settings.encoder)
            &&& t.settings.mode == ContentMode::Trim ==> live.encoder == "Stream copy"@
            &&& live.spent == short_clock_text(whole_secs(f.spent))
            &&& f.remaining matches Some(d) ==> live.remaining == short_clock_text(whole_secs(d))
            &&& f.remaining matches Some(d) ==> f.spent.nanos + d.nanos <= crate::time::MAX_NANOS ==> (
            whole_time(f.spent, f.remaining) matches Some(all) && all.nanos == f.spent.nanos + d.nanos
                && live.estimated_total == short_clock_text(whole_secs(all)))
            &&& f.cpu_usage matches Some(text) ==> live.app_cpu == text
            &&& f.conversion_fps matches Some(text) ==> live.conversion_fps == text
            &&& f.conversion_speed matches Some(text) ==> live.conversion_speed == text
        }),
{
}

/// Without a running conversion nothing is shown of one.
pub proof fn law_nothing_is_shown_of_no_conversion(c: ControllerView, f: FiguresView)
    requires
        c.board.worker is None,
    ensures
        live_status(c, f).position.len() == 0,
        live_status(c, f).encoder.len() == 0,
        live_status(c, f).spent.len() == 0,
        live_status(c, f).target_fps.len() == 0,
{
}

/// The form shows the settings of the task that runs; between two files, those of the selected one; and its own
/// while a task is put together.
pub proof fn law_form_shows_whose_settings(c: ControllerView, t: TaskView)
    ensures
        c.task_draft is Some ==> displayed_settings(c) is None,
        c.task_draft is None && running_task(c.board) == Some(t) ==> displayed_settings(c) == Some(t.settings),
        c.task_draft is None && c.board.worker is None && c.board.run_state == QueueRunState::Idle
            ==> displayed_settings(c) is None,
        c.task_draft is None && c.board.worker is None && c.board.run_state
            == QueueRunState::PausedBetweenFiles && shown_task(c.board) == Some(t) ==> displayed_settings(c)
            == Some(t.settings),
{
}

/// The place of the selected task is its place in the queue, and minus one where none is selected.
pub proof fn law_place_of_the_selected_task(b: BoardView, id: Seq<char>)
    ensures
        b.selection.primary is None ==> selected_place(b) == -1,
        b.selection.primary == Some(id) && has_id(b.tasks, id) && position_of(b.tasks, id) <= i32::MAX
            ==> selected_place(b) == position_of(b.tasks, id) && b.tasks[selected_place(b) as int].id == id,
        b.selection.primary == Some(id) && !has_id(b.tasks, id) ==> selected_place(b) == -1,
{
    if has_id(b.tasks, id) {
        assert(crate::queue::first_with_id(b.tasks, id, position_of(b.tasks, id)));
    }
}

/// What the front end shows at one time: whether a conversion runs or waits, its task and file, and the counts of
/// tasks.
pub proof fn law_front_end_shows_the_state(c: ControllerView, env: SurroundingsView, f: FiguresView)
    ensures
        ({
            let s = app_snapshot(c, env, f);
            let b = c.board;
            let between = b.run_state == QueueRunState::PausedBetweenFiles || b.run_state
                == QueueRunState::PausedBetweenFilesSelected;
            &&& s.activity == b.activity
            &&& s.paused_between_files == between
            &&& s.is_running <==> b.worker is Some || between
            &&& s.is_paused <==> between || (b.worker matches Some(w) && w.paused)
            &&& between ==> s.active_title == "Queue paused"@
            &&& between ==> s.active_detail
                == "Current file completed. Resume to start the next queued file."@
            &&& !between ==> (running_task(b) matches Some(t) ==> s.active_title == t.name)
            &&& !between && b.worker is None ==> s.active_title == "Ready when you are"@ && s.active_detail
                == b.activity
            &&& !between ==> (b.worker matches Some(w) ==> s.active_detail == w.target)
            &&& shown_task(b) matches Some(t) ==> s.selected_task_title == t.name
            &&& s.history_total_count == c.history.len()
            &&& s.tasks.len() == b.tasks.len()
            &&& s.completion_notice == b.completion_notice
            &&& c.task_draft matches Some(d) ==> s.task_draft_targets == d.targets && s.task_draft_summary
                == mode_label(d.settings.mode) + "  ·  "@ + encoder_user_name(d.settings.encoder)
            &&& s.preview_enabled <==> c.preview_enabled && !between
            &&& s.pause_after_current <==> b.run_state == QueueRunState::PauseAfterCurrent || b.run_state
                == QueueRunState::PauseAfterCurrentSelected
            &&& s.selected_can_move <==> (shown_task(b) matches Some(t) && t.status == QueueStatus::Pending)
        }),
{
}

/// The counts of waiting and completed tasks grow by one with each such task.
pub proof fn law_tasks_are_counted_by_state(
    c: ControllerView,
    env: SurroundingsView,
    f: FiguresView,
    t: TaskView,
)
    ensures
        ({
            let more = ControllerView {
                board: BoardView { tasks: c.board.tasks.push(t), ..c.board },
                ..c
            };
            let a = app_snapshot(c, env, f);
            let b = app_snapshot(more, env, f);
            &&& b.pending_count == a.pending_count + if t.status == QueueStatus::Pending {
                1int
            } else {
                0int
            }
            &&& b.completed_count == a.completed_count + if t.status == QueueStatus::Completed {
                1int
            } else {
                0int
            }
        }),
{
    c.board.tasks.lemma_filter_push(t, crate::snapshot::has_status(QueueStatus::Pending));
    c.board.tasks.lemma_filter_push(t, crate::snapshot::has_status(QueueStatus::Completed));
}

} // verus!
