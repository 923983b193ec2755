//! How the queue starts, waits, stops, and ends, and what is said of it.

use crate::board::{BoardView, QueueRunState};
use crate::commands::{limit_text, open_text, pause_announced, pause_scheduled, queue_stopped, OpenOutcome};
use crate::control::{decision_of, wait_step, ControlDecision, ConversionControl, StopRequest, WaitStep};
use crate::controller::{first_preferences, first_selected};
use crate::counts::{completion_text, TaskDisplayCounts};
use crate::finish::{
    all_stopped, created_text, may_go_on, pause_toggled, resumed_between, scheduled_pause_toggled, with_notes,
    HistoryOutcome,
};
use crate::history::{column_text, document_rows};
use crate::json::JsonView;
use crate::media_files::{process_after, temporary_markers, temporary_owner};
use crate::model::{ContentMode, SettingsView};
use crate::presets::SurroundingsView;
use crate::queue::{has_id, queue_error_text, QueueError, QueueStatus, TaskView};
use crate::run::{
    completion_of, converted_before, counts_on, output_of, pending_forgotten, queue_started, queue_totals,
    started, went_on, StepView,
};
use crate::selection::{extended, first_in, only, Modifiers, SelectionView};
use crate::text::join_texts;
use crate::time::Duration;
use vstd::prelude::*;

verus! {

/// A waiting worker sleeps a tenth of a second at most, never longer than it has to wait, and stops at once where it
/// is asked to.
pub proof fn law_waits_are_short(left: Duration, decision: ControlDecision)
    ensures
        left.nanos == 0 ==> wait_step(left, decision) == WaitStep::Done,
        left.nanos > 0 && decision == ControlDecision::Continue ==> (wait_step(left, decision) matches WaitStep::Sleep(
            d,
        ) && 0 < d.nanos <= left.nanos && d.nanos <= 100_000_000 && (d == left || d.nanos == 100_000_000)),
        left.nanos > 0 && decision != ControlDecision::Continue ==> wait_step(left, decision)
            == WaitStep::Cancelled,
{
}

/// A worker goes on, stops its file, or stops everything, as it was asked to.
pub proof fn law_decisions_follow_requests(c: ConversionControl)
    ensures
        decision_of(StopRequest::Nothing) == ControlDecision::Continue,
        decision_of(StopRequest::Current) == ControlDecision::StopCurrent,
        decision_of(StopRequest::All) == ControlDecision::StopAll,
        decision_of(c.after_stop_all().stop) == ControlDecision::StopAll,
        !c.after_stop_all().waiting(),
        c.stop != StopRequest::All ==> decision_of(c.after_stop_current().stop)
            == ControlDecision::StopCurrent,
        !c.after_stop_current().waiting(),
        !ConversionControl::initial().waiting(),
        decision_of(ConversionControl::initial().stop) == ControlDecision::Continue,
{
}

/// Pausing says that the conversion is paused, and going on that it resumed.
pub proof fn law_words_for_pausing(b: BoardView)
    ensures
        b.worker matches Some(w) ==> !w.paused ==> pause_announced(b).activity == "Conversion paused"@
            && pause_announced(b).worker->0.paused,
        b.worker matches Some(w) ==> w.paused ==> pause_announced(b).activity == "Conversion resumed"@
            && !pause_announced(b).worker->0.paused,
        b.worker is None ==> pause_announced(b) == b && pause_toggled(b) == b,
{
}

/// Scheduling a pause turns a running queue into one that pauses after its file, and back.
pub proof fn law_pauses_are_scheduled(b: BoardView)
    requires
        b.worker is Some,
    ensures
        b.run_state == QueueRunState::Running ==> pause_scheduled(b).run_state
            == QueueRunState::PauseAfterCurrent && pause_scheduled(b).activity
            == "Queue will pause after this video"@,
        b.run_state == QueueRunState::RunningSelected ==> pause_scheduled(b).run_state
            == QueueRunState::PauseAfterCurrentSelected && pause_scheduled(b).activity
            == "Task will pause after this video"@,
        b.run_state == QueueRunState::PauseAfterCurrent ==> pause_scheduled(b).run_state
            == QueueRunState::Running && pause_scheduled(b).activity == "Scheduled pause cancelled"@,
        b.run_state == QueueRunState::PauseAfterCurrentSelected ==> pause_scheduled(b).run_state
            == QueueRunState::RunningSelected,
        b.run_state == QueueRunState::Running ==> scheduled_pause_toggled(b).run_state
            == QueueRunState::PauseAfterCurrent && scheduled_pause_toggled(b).activity
            == "Queue will pause after the current item"@,
        b.run_state == QueueRunState::PauseAfterCurrent ==> scheduled_pause_toggled(b).run_state
            == QueueRunState::Running,
        pause_scheduled(b).tasks == b.tasks && pause_scheduled(b).worker == b.worker,
{
}

/// Stopping ends a queue that waits between files at once; a running conversion is first brought to its end.
pub proof fn law_queues_are_stopped(b: BoardView)
    ensures
        b.run_state == QueueRunState::PausedBetweenFiles || b.run_state
            == QueueRunState::PausedBetweenFilesSelected ==> all_stopped(b).run_state == QueueRunState::Idle
            && queue_stopped(b).run_state == QueueRunState::Idle && all_stopped(b).activity
            == "Queue stopped; queued files remain"@ && queue_stopped(b).activity
            == "Queue stopped; queued files remain"@,
        b.run_state == QueueRunState::Running && b.worker is Some ==> all_stopped(b).run_state
            == QueueRunState::Stopping && queue_stopped(b).run_state == QueueRunState::Stopping
            && all_stopped(b).activity == "Stopping the queue; the current item will remain pending"@
            && queue_stopped(b).activity == "Stopping conversion safely"@,
        b.run_state == QueueRunState::Idle && b.worker is None ==> all_stopped(b) == b && queue_stopped(b) == b,
        all_stopped(b).tasks == b.tasks,
        all_stopped(b).worker == b.worker,
{
}

/// A queue that waits between files goes on where it was: with all tasks, or with the selected one only.
pub proof fn law_waiting_queues_go_on(b: BoardView, env: SurroundingsView)
    ensures
        b.run_state == QueueRunState::PausedBetweenFiles ==> resumed_between(b, env) == went_on(
            (BoardView { run_state: QueueRunState::Running, activity: "Queue resumed"@, unsaved: true, ..b }),
            env,
        ),
        b.run_state == QueueRunState::PausedBetweenFilesSelected ==> resumed_between(b, env).0 == started(
            (BoardView {
                run_state: QueueRunState::RunningSelected,
                activity: "Task resumed"@,
                unsaved: true,
                ..b
            }),
            env,
        ).0,
        b.run_state == QueueRunState::Running ==> resumed_between(b, env) == (b, StepView::Rest),
        may_go_on(QueueRunState::Idle) && may_go_on(QueueRunState::Running) && may_go_on(
            QueueRunState::RunningSelected,
        ),
        !may_go_on(QueueRunState::Stopping) && !may_go_on(QueueRunState::PauseAfterCurrent) && !may_go_on(
            QueueRunState::PausedBetweenFiles,
        ),
{
}

/// A started queue runs, with no notice of an earlier end.
pub proof fn law_started_queue_runs(b: BoardView, env: SurroundingsView)
    ensures
        queue_started(b, env) == went_on(
            (BoardView {
                run_state: QueueRunState::Running,
                completion_notice: Seq::empty(),
                starts: pending_forgotten(b.starts, b.tasks),
                ..b
            }),
            env,
        ),
{
}

/// The count that a task started with is forgotten exactly if the task waits.
pub proof fn law_waiting_tasks_start_counting_anew(
    starts: Map<Seq<char>, usize>,
    tasks: Seq<TaskView>,
    id: Seq<char>,
)
    ensures
        (exists|i: int|
            0 <= i < tasks.len() && (#[trigger] tasks[i]).id == id && tasks[i].status == QueueStatus::Pending)
            ==> !pending_forgotten(starts, tasks).contains_key(id),
        (forall|i: int|
            0 <= i < tasks.len() && (#[trigger] tasks[i]).id == id ==> tasks[i].status
                != QueueStatus::Pending) ==> (pending_forgotten(starts, tasks).contains_key(id)
            <==> starts.contains_key(id)) && pending_forgotten(starts, tasks)[id] == starts[id],
    decreases tasks.len(),
{
    if tasks.len() > 0 {
        let rest = tasks.drop_last();
        let t = tasks.last();
        law_waiting_tasks_start_counting_anew(starts, rest, id);
        assert(tasks[tasks.len() - 1] == t);
        if exists|i: int|
            0 <= i < tasks.len() && (#[trigger] tasks[i]).id == id && tasks[i].status
                == QueueStatus::Pending {
            let i = choose|i: int|
                0 <= i < tasks.len() && (#[trigger] tasks[i]).id == id && tasks[i].status
                    == QueueStatus::Pending;
            if i < rest.len() {
                assert(rest[i] == tasks[i]);
            }
        } else {
            assert forall|i: int| 0 <= i < rest.len() && (#[trigger] rest[i]).id == id implies rest[i].status
                != QueueStatus::Pending by {
                assert(rest[i] == tasks[i]);
            }
        }
    }
}

/// The totals of the queue add up over its tasks: what a task had converted before its run counts as previous, what
/// it has since as of this run.
pub proof fn law_totals_add_up(
    b: BoardView,
    env: SurroundingsView,
    tasks: Seq<TaskView>,
    t: TaskView,
    before: usize,
)
    requires
        b.starts.contains_key(t.id),
        b.starts[t.id] == before,
        before <= counts_on(b, env, t).converted <= counts_on(b, env, t).files,
    ensures
        ({
            let n = queue_totals(b, env, tasks);
            let m = queue_totals(b, env, tasks.push(t));
            let counts = counts_on(b, env, t);
            &&& m.previous == n.previous + before
            &&& m.this_run == n.this_run + (counts.converted - before)
            &&& m.failed == n.failed + counts.failed
            &&& m.remaining == n.remaining + counts.remaining
        }),
        queue_totals(b, env, Seq::empty()).previous == 0,
        queue_totals(b, env, Seq::empty()).this_run == 0,
{
    assert(tasks.push(t).drop_last() =~= tasks);
    assert(tasks.push(t).last() == t);
}

/// A task that did not run has all its converted files from before.
pub proof fn law_tasks_that_did_not_run(b: BoardView, id: Seq<char>, counts: TaskDisplayCounts)
    requires
        !b.starts.contains_key(id),
        counts.converted <= counts.files,
    ensures
        converted_before(b, id, counts) == counts.converted,
{
}

/// The end of the queue is told with its totals, each in its place.
pub proof fn law_end_of_the_queue_is_told(b: BoardView, env: SurroundingsView)
    requires
        queue_totals(b, env, b.tasks).previous <= usize::MAX,
        queue_totals(b, env, b.tasks).this_run <= usize::MAX,
        queue_totals(b, env, b.tasks).failed <= usize::MAX,
        queue_totals(b, env, b.tasks).remaining <= usize::MAX,
    ensures
        ({
            let n = queue_totals(b, env, b.tasks);
            completion_of(b, env) == completion_text(n.this_run, n.previous, n.failed, n.remaining)
        }),
{
}

/// A trim without a range, or with a range that ends before it starts, does not run.
pub proof fn law_trims_need_a_range(env: SurroundingsView, s: SettingsView, input: Seq<char>)
    requires
        s.mode == ContentMode::Trim,
    ensures
        s.trim_start is None ==> output_of(env, s, input) == Err::<Seq<char>, Seq<char>>(
            "Trim start is missing."@,
        ),
        s.trim_start is Some && s.trim_end is None ==> output_of(env, s, input) == Err::<
            Seq<char>,
            Seq<char>,
        >("Trim end is missing."@),
        s.trim_start matches Some(a) ==> (s.trim_end matches Some(b) ==> (output_of(env, s, input) is Ok
            <==> a.nanos <= b.nanos)),
{
}

/// A finished file is told by its path, with what went wrong with the history.
pub proof fn law_words_for_finished_files(output: Seq<char>, e: String)
    ensures
        created_text(output, HistoryOutcome::Saved, true) == "Created "@ + output,
        created_text(output, HistoryOutcome::NotSaved(e), true) == "Created "@ + output
            + "; unable to save history: "@ + e@,
        created_text(output, HistoryOutcome::NotRefreshed(e), true) == "Created "@ + output
            + "; unable to refresh history: "@ + e@,
        created_text(output, HistoryOutcome::NotSaved(e), false) == "Created "@ + output,
{
}

/// Notes on renamed folders are put behind what is said; without notes nothing changes.
pub proof fn law_notes_are_told(b: BoardView, id: Seq<char>, notes: Seq<Seq<char>>)
    ensures
        notes.len() == 0 ==> with_notes(b, id, notes) == b,
        notes.len() > 0 && has_id(b.tasks, id) ==> with_notes(b, id, notes).activity == b.activity + " · "@
            + join_texts(notes, " · "@),
        with_notes(b, id, notes).tasks == b.tasks,
{
}

/// What is said of a file that was to be opened, and of the limit of the processor.
pub proof fn law_words_for_opening_and_limits(
    doing: Seq<char>,
    unable: Seq<char>,
    path: Seq<char>,
    error: String,
    summary: Seq<char>,
    e: Seq<char>,
)
    ensures
        open_text(doing, unable, path, OpenOutcome::Missing) == "Converted file was not found: "@ + path,
        open_text(doing, unable, path, OpenOutcome::Opened) == doing + path,
        open_text(doing, unable, path, OpenOutcome::Failed(error)) == unable + path + ": "@ + error@,
        limit_text(summary, Some(None)) == "CPU limit set to "@ + summary,
        limit_text(summary, None) == "CPU limit saved: "@ + summary,
        limit_text(summary, Some(Some(e)))
            == "CPU limit saved for the next file; live adjustment unavailable: "@ + e,
{
}

/// What is said of a change to the queue that is not possible.
pub proof fn law_words_for_queue_errors(id: String)
    ensures
        queue_error_text(QueueError::DuplicateId(id)) == "queue task id already exists: "@ + id@,
        queue_error_text(QueueError::UnknownId(id)) == "queue task id not found: "@ + id@,
        queue_error_text(QueueError::InvalidMove) == "queue task cannot be moved there"@,
{
}

/// The program starts with the first task selected and, without preferences, in the TV workflow with the defaults and
/// the system kept awake.
pub proof fn law_first_selection_and_preferences(tasks: Seq<TaskView>, defaults: Seq<SettingsView>)
    ensures
        tasks.len() > 0 ==> first_selected(tasks).primary == Some(tasks[0].id) && first_selected(tasks).ids
            == set![tasks[0].id],
        tasks.len() == 0 ==> first_selected(tasks).primary is None,
        first_preferences(Ok(None), defaults) == (ContentMode::Tv, defaults, true),
{
}

/// With shift held the selection reaches from the anchor to the clicked item, and no further.
pub proof fn law_shift_selects_a_range(
    s: SelectionView,
    items: Seq<Seq<char>>,
    anchor: Seq<char>,
    id: Seq<char>,
    x: Seq<char>,
    a: int,
    i: int,
)
    requires
        s.anchor == Some(anchor),
        crate::selection::first_at(items, anchor, a),
        crate::selection::first_at(items, id, i),
    ensures
        ({
            let after = extended(s, items, id, Modifiers { shift: true, command: false });
            &&& after.primary == Some(id)
            &&& after.anchor == Some(anchor)
            &&& after.ids.contains(x) <==> exists|k: int|
                0 <= k < items.len() && #[trigger] items[k] == x && (a <= k <= i || i <= k <= a)
            &&& extended(s, items, id, Modifiers { shift: true, command: true }).ids == s.ids.union(after.ids)
        }),
{
    crate::selection::lemma_place_is_unique(items, anchor, a);
    crate::selection::lemma_place_is_unique(items, id, i);
}

/// The command key adds an item that is not selected and takes away one that is; a plain click selects one item.
pub proof fn law_command_adds_and_takes_away(s: SelectionView, items: Seq<Seq<char>>, id: Seq<char>)
    ensures
        ({
            let after = extended(s, items, id, Modifiers { shift: false, command: true });
            &&& s.ids.contains(id) ==> after.ids == s.ids.remove(id)
            &&& !s.ids.contains(id) ==> after.ids == s.ids.insert(id) && after.primary == Some(id)
            &&& after.anchor == Some(id)
            &&& s.ids.contains(id) && s.primary != Some(id) ==> after.primary == s.primary
            &&& s.ids.contains(id) && s.primary == Some(id) ==> after.primary == first_in(
                items,
                s.ids.remove(id),
            )
        }),
        extended(s, items, id, Modifiers { shift: false, command: false }) == only(Some(id)),
        only(Some(id)).ids == set![id],
        only(Some(id)).primary == Some(id),
{
}

/// The item that becomes the main one is the first of the list that is still selected.
pub proof fn law_first_selected_item(items: Seq<Seq<char>>, set: Set<Seq<char>>, i: int)
    requires
        0 <= i < items.len(),
        set.contains(items[i]),
        forall|j: int| 0 <= j < i ==> !set.contains(#[trigger] items[j]),
    ensures
        first_in(items, set) == Some(items[i]),
    decreases i,
{
    if i > 0 {
        let rest = items.drop_first();
        assert(!set.contains(items[0]));
        assert(rest[i - 1] == items[i]);
        assert forall|j: int| 0 <= j < i - 1 implies !set.contains(#[trigger] rest[j]) by {
            assert(rest[j] == items[j + 1]);
        }
        law_first_selected_item(rest, set, i - 1);
    }
}

/// A temporary file is known by one of three marks in its name, with the number of its process behind the mark.
pub proof fn law_marks_of_temporary_files(name: Seq<char>)
    ensures
        temporary_markers().len() == 3,
        temporary_markers()[0] == ".videoferry-stage-"@,
        temporary_markers()[1] == ".videoferry-previous-"@,
        temporary_markers()[2] == ".videoferry-partial-"@,
        temporary_owner(name) is Some <==> process_after(name, ".videoferry-stage-"@) is Some
            || process_after(name, ".videoferry-previous-"@) is Some || process_after(
            name,
            ".videoferry-partial-"@,
        ) is Some,
        process_after(name, ".videoferry-stage-"@) matches Some(n) ==> temporary_owner(name) == Some(n),
{
}

/// The columns of a stored history: texts as they are, and words for what is none.
pub proof fn law_columns_of_a_stored_history(text: Seq<char>, printed: Seq<char>)
    ensures
        column_text(JsonView::Text(text)) == text,
        column_text(JsonView::Null) == "None"@,
        column_text(JsonView::Bool(true)) == "True"@,
        column_text(JsonView::Bool(false)) == "False"@,
        document_rows(JsonView::Null).len() == 0,
        document_rows(JsonView::Text(text)).len() == 0,
{
}

} // verus!
