//! What always holds of a running queue.

use crate::board::{
    numbered_id, task_named, with_complete_time, with_error, with_status, with_task, BoardView,
    QueueRunState, WorkerView,
};
use crate::disk::{exists_on, is_done, is_folder, DiskView};
use crate::editing::{runs_one_of, selected_removed, tasks_removed};
use crate::engine::EngineError;
use crate::failures::{failed_paths, failures_of, is_of_task, is_other_file, FailureView};
use crate::finish::{
    after_cancelled, after_failed, finished, is_between_files, pause_toggled, paused_if_due,
    resumed, scheduled_pause_toggled, task_done, with_skipped, HistoryOutcome, WorkerOutcome,
};
use crate::model::{Container, ContentMode, SettingsView};
use crate::naming_laws::{
    law_converted_file_is_named_after_its_source, law_stabilized_file_is_named_after_its_source,
    law_trimmed_file_is_named_after_its_source,
};
use crate::natural::{
    full_path_keys, law_sorting_keeps_every_item, lemma_sorted_is_picked, lemma_stable_order_exists,
    naturally_sorted, picks, sorted_positions, without_neighbours,
};
use crate::output_naming::compact_time_text;
use crate::paths::{
    extension, file_name, file_stem, has_path, lemma_has_its_paths, lemma_has_path_concat,
    lemma_lacks_path, lemma_parent_is_shorter, parent, plain, plains, trimmed,
};
use crate::presets::{container_of, SurroundingsView};
use crate::queue::{
    first_pending_at, first_with_id, has_id, lemma_first_pending, lemma_first_is_unique,
    lemma_has_position, next_pending, position_of, unique_ids, QueueStatus, TaskView,
};
use crate::rescan::left_of;
use crate::run::{counts_on, first_started, given_up, next_input, started, went_on, StepView};
use crate::targets::{
    is_aggregate, is_not_in, is_open_work, law_slideshow_file_is_free, open_files, target_files,
};
use crate::text::has_prefix;
use vstd::prelude::*;

verus! {

/// The identifiers are the same, and every task but one is the same.
pub open spec fn changes_only(before: Seq<TaskView>, after: Seq<TaskView>, id: Seq<char>) -> bool {
    &&& after.len() == before.len()
    &&& forall|i: int| 0 <= i < before.len() ==> (#[trigger] after[i]).id == before[i].id
    &&& forall|i: int|
        0 <= i < before.len() && before[i].id != id ==> #[trigger] after[i] == before[i]
}

proof fn lemma_with_task(tasks: Seq<TaskView>, id: Seq<char>, t: TaskView)
    requires
        has_id(tasks, id) ==> t.id == id,
    ensures
        changes_only(tasks, with_task(tasks, id, t), id),
        has_id(with_task(tasks, id, t), id) <==> has_id(tasks, id),
        has_id(tasks, id) ==> position_of(with_task(tasks, id, t), id) == position_of(tasks, id),
        has_id(tasks, id) ==> task_named(with_task(tasks, id, t), id) == t,
{
    if has_id(tasks, id) {
        let p = position_of(tasks, id);
        assert(first_with_id(tasks, id, p));
        let after = with_task(tasks, id, t);
        assert forall|j: int| 0 <= j < p implies (#[trigger] after[j]).id != id by {
            assert(tasks[j].id != id);
        }
        assert(first_with_id(after, id, p));
        lemma_first_is_unique(after, id, p, p);
    }
}

proof fn lemma_named_id(tasks: Seq<TaskView>, id: Seq<char>)
    requires
        has_id(tasks, id),
    ensures
        task_named(tasks, id).id == id,
        0 <= position_of(tasks, id) < tasks.len(),
        first_with_id(tasks, id, position_of(tasks, id)),
{
    let p = position_of(tasks, id);
    assert(first_with_id(tasks, id, p));
}

proof fn lemma_changes_chain(a: Seq<TaskView>, b: Seq<TaskView>, c: Seq<TaskView>, id: Seq<char>)
    requires
        changes_only(a, b, id),
        changes_only(b, c, id),
    ensures
        changes_only(a, c, id),
{
    assert forall|i: int| 0 <= i < a.len() && a[i].id != id implies #[trigger] c[i] == a[i] by {
        assert(b[i] == a[i]);
        assert(b[i].id == a[i].id);
        assert(c[i] == b[i]);
    }
    assert forall|i: int| 0 <= i < a.len() implies (#[trigger] c[i]).id == a[i].id by {
        assert(b[i].id == a[i].id);
        assert(c[i].id == b[i].id);
    }
}

proof fn lemma_status(tasks: Seq<TaskView>, id: Seq<char>, status: QueueStatus)
    ensures
        changes_only(tasks, with_status(tasks, id, status), id),
        has_id(with_status(tasks, id, status), id) <==> has_id(tasks, id),
        has_id(tasks, id) ==> position_of(with_status(tasks, id, status), id) == position_of(
            tasks,
            id,
        ) && task_named(with_status(tasks, id, status), id) == (TaskView {
            status,
            ..task_named(tasks, id)
        }),
{
    if has_id(tasks, id) {
        lemma_named_id(tasks, id);
    }
    lemma_with_task(tasks, id, TaskView { status, ..task_named(tasks, id) });
}

proof fn lemma_error(tasks: Seq<TaskView>, id: Seq<char>, error: Option<Seq<char>>)
    ensures
        changes_only(tasks, with_error(tasks, id, error), id),
        has_id(with_error(tasks, id, error), id) <==> has_id(tasks, id),
        has_id(tasks, id) ==> position_of(with_error(tasks, id, error), id) == position_of(
            tasks,
            id,
        ) && task_named(with_error(tasks, id, error), id) == (TaskView {
            error,
            ..task_named(tasks, id)
        }),
{
    if has_id(tasks, id) {
        lemma_named_id(tasks, id);
    }
    lemma_with_task(tasks, id, TaskView { error, ..task_named(tasks, id) });
}

proof fn lemma_time(tasks: Seq<TaskView>, id: Seq<char>, time: Seq<char>)
    ensures
        changes_only(tasks, with_complete_time(tasks, id, time), id),
        has_id(with_complete_time(tasks, id, time), id) <==> has_id(tasks, id),
        has_id(tasks, id) ==> task_named(with_complete_time(tasks, id, time), id) == (TaskView {
            complete_time: time,
            ..task_named(tasks, id)
        }),
{
    if has_id(tasks, id) {
        lemma_named_id(tasks, id);
    }
    lemma_with_task(tasks, id, TaskView { complete_time: time, ..task_named(tasks, id) });
}

proof fn lemma_status_error(
    tasks: Seq<TaskView>,
    id: Seq<char>,
    status: QueueStatus,
    error: Option<Seq<char>>,
)
    ensures
        changes_only(tasks, with_error(with_status(tasks, id, status), id, error), id),
        has_id(tasks, id) ==> has_id(with_error(with_status(tasks, id, status), id, error), id)
            && task_named(with_error(with_status(tasks, id, status), id, error), id) == (TaskView {
            status,
            error,
            ..task_named(tasks, id)
        }),
{
    let a = with_status(tasks, id, status);
    lemma_status(tasks, id, status);
    lemma_error(a, id, error);
    lemma_changes_chain(tasks, a, with_error(a, id, error), id);
}

proof fn lemma_done(b: BoardView, id: Seq<char>, time: Seq<char>)
    ensures
        changes_only(b.tasks, task_done(b, id, time).tasks, id),
        has_id(b.tasks, id) ==> task_named(task_done(b, id, time).tasks, id).status
            == QueueStatus::Completed,
{
    let done = with_status(b.tasks, id, QueueStatus::Completed);
    lemma_status(b.tasks, id, QueueStatus::Completed);
    let note = Some(crate::counts::finished_note(crate::run::failed_count(b.failures, id)));
    lemma_error(done, id, note);
    let noted = if crate::run::failed_count(b.failures, id) > 0 {
        with_error(done, id, note)
    } else {
        done
    };
    if crate::run::failed_count(b.failures, id) > 0 {
        lemma_changes_chain(b.tasks, done, noted, id);
    }
    lemma_time(noted, id, time);
    lemma_changes_chain(b.tasks, noted, with_complete_time(noted, id, time), id);
}

/// The end of a conversion changes no other task than its own, adds none, and removes none. It leaves
/// no conversion running, and keeps what is selected and watched.
pub proof fn law_finishing_changes_one_task(
    b: BoardView,
    env: SurroundingsView,
    w: WorkerView,
    outcome: WorkerOutcome,
    saved: HistoryOutcome,
)
    ensures
        changes_only(b.tasks, finished(b, env, w, outcome, saved).0.tasks, w.task_id),
        finished(b, env, w, outcome, saved).0.worker is None,
        finished(b, env, w, outcome, saved).0.selection == b.selection,
        finished(b, env, w, outcome, saved).0.watched == b.watched,
        finished(b, env, w, outcome, saved).0.next_id == b.next_id,
{
    let id = w.task_id;
    match outcome {
        WorkerOutcome::Converted { output, end_time } => {
            let told = b.saying(
                crate::finish::created_text(output@, saved, has_id(b.tasks, id)),
            );
            lemma_status_error(
                told.tasks,
                id,
                QueueStatus::Pending,
                crate::counts::failure_note(crate::run::failed_count(told.failures, id)),
            );
            lemma_done(told, id, end_time@);
        },
        WorkerOutcome::Skipped { reason } => {
            let t = task_named(b.tasks, id);
            if has_id(b.tasks, id) {
                lemma_named_id(b.tasks, id);
            }
            lemma_with_task(
                b.tasks,
                id,
                TaskView { skipped_paths: t.skipped_paths.push(w.target), ..t },
            );
            let noted = BoardView { tasks: with_skipped(b.tasks, id, w.target), ..b };
            lemma_status(noted.tasks, id, QueueStatus::Pending);
            lemma_done(noted, id, env.now);
            lemma_changes_chain(
                b.tasks,
                noted.tasks,
                with_status(noted.tasks, id, QueueStatus::Pending),
                id,
            );
            lemma_changes_chain(
                b.tasks,
                noted.tasks,
                task_done(noted, id, env.now).tasks,
                id,
            );
        },
        WorkerOutcome::Stopped(e) => {
            lemma_status_error(b.tasks, id, QueueStatus::Pending, None);
            lemma_status(b.tasks, id, QueueStatus::Cancelled);
            lemma_status(b.tasks, id, QueueStatus::Pending);
            lemma_status_error(
                b.tasks,
                id,
                QueueStatus::Pending,
                Some(crate::engine::engine_error_text(e)),
            );
            let failures = b.failures.filter(is_other_file(id, w.target)).push(
                FailureView {
                    task_id: id,
                    path: w.target,
                    error: crate::engine::engine_error_text(e),
                },
            );
            let note = Some(
                crate::counts::finished_note(crate::run::failed_count(failures, id)),
            );
            lemma_status_error(b.tasks, id, QueueStatus::Completed, note);
            let done = with_error(with_status(b.tasks, id, QueueStatus::Completed), id, note);
            lemma_time(done, id, env.now);
            lemma_changes_chain(b.tasks, done, with_complete_time(done, id, env.now), id);
        },
    }
}

/// A scheduled pause happens at most once: after the file it is no longer scheduled. The queue waits
/// between files only if a pause was scheduled, and then only with more to do.
pub proof fn law_scheduled_pause_happens_once(b: BoardView, goes_on: bool)
    ensures
        paused_if_due(b, goes_on).run_state != QueueRunState::PauseAfterCurrent,
        paused_if_due(b, goes_on).run_state != QueueRunState::PauseAfterCurrentSelected,
        paused_if_due(b, goes_on).run_state != QueueRunState::Stopping,
        is_between_files(paused_if_due(b, goes_on).run_state) && !is_between_files(b.run_state)
            ==> (b.run_state == QueueRunState::PauseAfterCurrent || b.run_state
            == QueueRunState::PauseAfterCurrentSelected) && (goes_on || next_pending(b.tasks) is Some),
{
}

/// Scheduling a pause and taking it back leaves the queue as it ran.
pub proof fn law_scheduled_pause_can_be_taken_back(b: BoardView)
    ensures
        ({
            let once = scheduled_pause_toggled(b);
            let twice = scheduled_pause_toggled(once);
            twice.run_state == b.run_state && twice.tasks == b.tasks && twice.worker == b.worker
        }),
{
}

/// Pausing and going on leaves the running conversion as it was, and its task running.
pub proof fn law_pause_can_be_taken_back(b: BoardView)
    requires
        b.worker matches Some(w) && !w.paused && has_id(b.tasks, w.task_id) && task_named(
            b.tasks,
            w.task_id,
        ).status == QueueStatus::Running,
    ensures
        pause_toggled(pause_toggled(b)).worker == b.worker,
        pause_toggled(pause_toggled(b)).tasks == b.tasks,
        task_named(pause_toggled(b).tasks, b.worker->0.task_id).status == QueueStatus::Paused,
{
    let id = b.worker->0.task_id;
    lemma_named_id(b.tasks, id);
    lemma_status(b.tasks, id, QueueStatus::Paused);
    let once = with_status(b.tasks, id, QueueStatus::Paused);
    lemma_named_id(once, id);
    let twice = with_status(once, id, QueueStatus::Running);
    assert(twice =~= b.tasks);
}

/// A stopped queue leaves the interrupted task waiting, without an error.
pub proof fn law_stopping_leaves_the_task_pending(
    b: BoardView,
    env: SurroundingsView,
    w: WorkerView,
    saved: HistoryOutcome,
)
    requires
        b.run_state == QueueRunState::Stopping,
        has_id(b.tasks, w.task_id),
    ensures
        ({
            let (after, goes_on) = finished(
                b,
                env,
                w,
                WorkerOutcome::Stopped(EngineError::Cancelled),
                saved,
            );
            &&& !goes_on
            &&& after.run_state == QueueRunState::Idle
            &&& task_named(after.tasks, w.task_id) == (TaskView {
                status: QueueStatus::Pending,
                error: None,
                ..task_named(b.tasks, w.task_id)
            })
        }),
{
    lemma_status_error(b.tasks, w.task_id, QueueStatus::Pending, None);
}

/// A file that failed is not tried again in the same run.
pub proof fn law_failed_files_are_not_tried_again(
    b: BoardView,
    env: SurroundingsView,
    id: Seq<char>,
    target: Seq<char>,
    message: Seq<char>,
    t: TaskView,
)
    requires
        t.id == id,
    ensures
        !has_path(
            left_of(env, after_failed(b, env, id, target, message).0.failures, t),
            target,
        ),
        t.settings.mode != ContentMode::PhotoSlideshow ==> next_input(
            after_failed(b, env, id, target, message).0,
            env,
            t,
        ) != Some(target),
{
    let failures = after_failed(b, env, id, target, message).0.failures;
    let new = FailureView { task_id: id, path: target, error: message };
    let kept = b.failures.filter(is_other_file(id, target));
    assert(failures == kept.push(new));
    let own = failures_of(failures, id);
    let i = kept.len() as int;
    assert(failures[i] == new);
    failures.lemma_filter_contains(is_of_task(id), i);
    assert(own.contains(new));
    let k = choose|k: int| 0 <= k < own.len() && own[k] == new;
    let failed = failed_paths(failures, id);
    assert(failed[k] == target);
    lemma_has_its_paths(failed, k, target);
    let left = left_of(env, failures, t);
    let test = is_not_in(failed, t.skipped_paths);
    assert forall|j: int| 0 <= j < left.len() implies plain(#[trigger] left[j]) != plain(target) by {
        open_files(env.disk, t, Seq::empty()).lemma_filter_pred(test, j);
    }
    lemma_lacks_path(left, target);
}

/// A file that was skipped is not tried again.
pub proof fn law_skipped_files_are_not_tried_again(
    env: SurroundingsView,
    failures: Seq<FailureView>,
    tasks: Seq<TaskView>,
    id: Seq<char>,
    target: Seq<char>,
)
    requires
        has_id(tasks, id),
    ensures
        !has_path(
            left_of(env, failures, task_named(with_skipped(tasks, id, target), id)),
            target,
        ),
{
    lemma_named_id(tasks, id);
    let t = task_named(tasks, id);
    lemma_with_task(tasks, id, TaskView { skipped_paths: t.skipped_paths.push(target), ..t });
    let u = task_named(with_skipped(tasks, id, target), id);
    assert(has_path(u.skipped_paths, target)) by {
        if !has_path(t.skipped_paths, target) {
            lemma_has_its_paths(u.skipped_paths, t.skipped_paths.len() as int, target);
        }
    }
    let test = is_not_in(failed_paths(failures, u.id), u.skipped_paths);
    let left = left_of(env, failures, u);
    assert forall|j: int| 0 <= j < left.len() implies plain(#[trigger] left[j]) != plain(target) by {
        open_files(env.disk, u, Seq::empty()).lemma_filter_pred(test, j);
    }
    lemma_lacks_path(left, target);
}

/// Starting a task changes no other task, starts it on one of its own files, and marks it as running.
pub proof fn law_starting_runs_one_task(b: BoardView, env: SurroundingsView)
    ensures
        ({
            let (after, order) = started(b, env);
            &&& b.selection.primary matches Some(id) ==> changes_only(b.tasks, after.tasks, id)
            &&& order is None ==> after.worker == b.worker
            &&& order matches Some(o) ==> {
                &&& b.selection.primary == Some(o.task_id)
                &&& has_id(b.tasks, o.task_id)
                &&& after.worker == Some(
                    WorkerView { task_id: o.task_id, target: o.input, paused: false },
                )
                &&& task_named(after.tasks, o.task_id).status == QueueStatus::Running
                &&& next_input(b, env, task_named(b.tasks, o.task_id)) == Some(o.input)
                &&& o.settings == task_named(b.tasks, o.task_id).settings
            }
        }),
{
    if b.selection.primary is Some {
        let id = b.selection.primary->0;
        lemma_status(b.tasks, id, QueueStatus::Completed);
        lemma_status_error(
            b.tasks,
            id,
            QueueStatus::Running,
            crate::counts::failure_note(crate::run::failed_count(b.failures, id)),
        );
    }
}

pub open spec fn pending_number(tasks: Seq<TaskView>) -> nat
    decreases tasks.len(),
{
    if tasks.len() == 0 {
        0
    } else {
        pending_number(tasks.drop_last()) + if tasks.last().status == QueueStatus::Pending {
            1nat
        } else {
            0nat
        }
    }
}

proof fn lemma_pending_update(tasks: Seq<TaskView>, i: int, t: TaskView)
    requires
        0 <= i < tasks.len(),
        tasks[i].status == QueueStatus::Pending,
        t.status != QueueStatus::Pending,
    ensures
        pending_number(tasks.update(i, t)) == pending_number(tasks) - 1,
    decreases tasks.len(),
{
    let after = tasks.update(i, t);
    if i == tasks.len() - 1 {
        assert(after.drop_last() =~= tasks.drop_last());
    } else {
        lemma_pending_update(tasks.drop_last(), i, t);
        assert(after.drop_last() =~= tasks.drop_last().update(i, t));
        assert(after.last() == tasks.last());
    }
}

proof fn lemma_pending_exists(tasks: Seq<TaskView>)
    requires
        pending_number(tasks) > 0,
    ensures
        exists|i: int| first_pending_at(tasks, i),
    decreases tasks.len(),
{
    let rest = tasks.drop_last();
    if pending_number(rest) > 0 {
        lemma_pending_exists(rest);
        let i = choose|i: int| first_pending_at(rest, i);
        assert forall|j: int| 0 <= j < i implies (#[trigger] tasks[j]).status
            != QueueStatus::Pending by {
            assert(rest[j].status != QueueStatus::Pending);
        }
        assert(tasks[i] == rest[i]);
        assert(first_pending_at(tasks, i));
    } else {
        lemma_none_pending(rest);
        assert forall|j: int| 0 <= j < tasks.len() - 1 implies (#[trigger] tasks[j]).status
            != QueueStatus::Pending by {
            assert(rest[j] == tasks[j]);
        }
        assert(first_pending_at(tasks, tasks.len() - 1));
    }
}

proof fn lemma_none_pending(tasks: Seq<TaskView>)
    requires
        pending_number(tasks) == 0,
    ensures
        forall|j: int| 0 <= j < tasks.len() ==> (#[trigger] tasks[j]).status != QueueStatus::Pending,
        next_pending(tasks) is None,
    decreases tasks.len(),
{
    if tasks.len() > 0 {
        let rest = tasks.drop_last();
        lemma_none_pending(rest);
        assert forall|j: int| 0 <= j < tasks.len() implies (#[trigger] tasks[j]).status
            != QueueStatus::Pending by {
            if j < tasks.len() - 1 {
                assert(rest[j] == tasks[j]);
            }
        }
    }
}

proof fn lemma_pending_bound(tasks: Seq<TaskView>)
    ensures
        pending_number(tasks) <= tasks.len(),
    decreases tasks.len(),
{
    if tasks.len() > 0 {
        lemma_pending_bound(tasks.drop_last());
    }
}

proof fn lemma_unique_kept(before: Seq<TaskView>, after: Seq<TaskView>, id: Seq<char>)
    requires
        unique_ids(before),
        changes_only(before, after, id),
    ensures
        unique_ids(after),
{
    assert forall|i: int, j: int| 0 <= i < j < after.len() implies (#[trigger] after[i]).id != (
    #[trigger] after[j]).id by {
        assert(after[i].id == before[i].id);
        assert(after[j].id == before[j].id);
    }
}

/// A task that could not start no longer waits.
proof fn lemma_given_up(b: BoardView, env: SurroundingsView, id: Seq<char>)
    requires
        unique_ids(b.tasks),
        next_pending(b.tasks) == Some(id),
        started(b.selecting(Some(id)), env).1 is None,
    ensures
        ({
            let after = given_up(started(b.selecting(Some(id)), env).0, id);
            pending_number(after.tasks) < pending_number(b.tasks) && unique_ids(after.tasks)
                && after.tasks.len() == b.tasks.len()
        }),
{
    let i = choose|i: int| first_pending_at(b.tasks, i);
    assert(first_pending_at(b.tasks, i));
    lemma_has_position(b.tasks, id, i);
    let p = position_of(b.tasks, id);
    assert(b.tasks[p].id == b.tasks[i].id);
    assert(p == i) by {
        if p < i {
            assert(b.tasks[p].id != b.tasks[i].id);
        }
        if i < p {
            assert(b.tasks[i].id != b.tasks[p].id);
        }
    }
    let tried = started(b.selecting(Some(id)), env).0;
    lemma_status(b.tasks, id, QueueStatus::Completed);
    lemma_status_error(b.tasks, id, QueueStatus::Failed, Some(tried.activity));
    let done = with_status(b.tasks, id, QueueStatus::Completed);
    let failed = with_error(
        with_status(b.tasks, id, QueueStatus::Failed),
        id,
        Some(tried.activity),
    );
    lemma_status(b.tasks, id, QueueStatus::Failed);
    lemma_unique_kept(b.tasks, done, id);
    lemma_unique_kept(b.tasks, failed, id);
    lemma_pending_update(
        b.tasks,
        p,
        TaskView { status: QueueStatus::Completed, ..task_named(b.tasks, id) },
    );
    let f = TaskView {
        status: QueueStatus::Failed,
        error: Some(tried.activity),
        ..task_named(b.tasks, id)
    };
    lemma_pending_update(b.tasks, p, f);
    assert(failed =~= b.tasks.update(p, f));
}

/// Where no task could be started, none waits any more: every pending task was tried.
pub proof fn law_every_pending_task_is_tried(b: BoardView, env: SurroundingsView)
    requires
        unique_ids(b.tasks),
        first_started(b, env, b.tasks.len()).1 is None,
    ensures
        next_pending(first_started(b, env, b.tasks.len()).0.tasks) is None,
{
    lemma_pending_bound(b.tasks);
    lemma_tried(b, env, b.tasks.len());
}

proof fn lemma_tried(b: BoardView, env: SurroundingsView, fuel: nat)
    requires
        unique_ids(b.tasks),
        pending_number(b.tasks) <= fuel,
        first_started(b, env, fuel).1 is None,
    ensures
        next_pending(first_started(b, env, fuel).0.tasks) is None,
    decreases fuel,
{
    if pending_number(b.tasks) == 0 {
        lemma_none_pending(b.tasks);
    } else {
        lemma_pending_exists(b.tasks);
        let i = choose|i: int| first_pending_at(b.tasks, i);
        lemma_first_pending(b.tasks, i);
        let id = next_pending(b.tasks)->0;
        lemma_given_up(b, env, id);
        let next = given_up(started(b.selecting(Some(id)), env).0, id);
        lemma_tried(next, env, (fuel - 1) as nat);
    }
}

/// Adding a task keeps the identifiers unique and the other tasks as they are.
pub proof fn law_adding_keeps_identifiers_unique(
    b: BoardView,
    name: Seq<char>,
    targets: Seq<Seq<char>>,
    settings: SettingsView,
    source_root: Option<Seq<char>>,
    now: Seq<char>,
)
    requires
        unique_ids(b.tasks),
    ensures
        ({
            let after = b.adding(name, targets, settings, source_root, now);
            &&& unique_ids(after.tasks)
            &&& after.tasks.take(b.tasks.len() as int) == b.tasks
            &&& b.can_add() ==> after.tasks.len() == b.tasks.len() + 1 && after.selection.primary
                == Some(numbered_id(b.next_id)) && after.tasks.last().status
                == QueueStatus::Pending && after.tasks.last().targets == targets
            &&& !b.can_add() ==> after.tasks == b.tasks
        }),
{
    let after = b.adding(name, targets, settings, source_root, now);
    assert(after.tasks.take(b.tasks.len() as int) =~= b.tasks);
    if b.can_add() {
        assert forall|i: int, j: int| 0 <= i < j < after.tasks.len() implies (
        #[trigger] after.tasks[i]).id != (#[trigger] after.tasks[j]).id by {
            if j == b.tasks.len() {
                if after.tasks[i].id == numbered_id(b.next_id) {
                    assert(b.tasks[i].id == numbered_id(b.next_id));
                    lemma_has_position(b.tasks, numbered_id(b.next_id), i);
                }
            }
        }
    }
}

proof fn lemma_removed_tasks_are_gone(b: BoardView, ids: Seq<Seq<char>>)
    requires
        unique_ids(b.tasks),
    ensures
        unique_ids(tasks_removed(b, ids).tasks),
        tasks_removed(b, ids).worker == b.worker,
        tasks_removed(b, ids).run_state == b.run_state,
        forall|id: Seq<char>| #[trigger]
            has_id(tasks_removed(b, ids).tasks, id) ==> has_id(b.tasks, id) && !ids.contains(id),
    decreases ids.len(),
{
    if ids.len() > 0 {
        let rest = ids.drop_last();
        let last = ids.last();
        lemma_removed_tasks_are_gone(b, rest);
        let before = tasks_removed(b, rest).tasks;
        let after = tasks_removed(b, ids).tasks;
        let p = position_of(before, last);
        if has_id(before, last) {
            assert(first_with_id(before, last, p));
            assert forall|i: int, j: int| 0 <= i < j < after.len() implies (#[trigger] after[i]).id != (
            #[trigger] after[j]).id by {
                let x = if i < p {
                    i
                } else {
                    i + 1
                };
                let y = if j < p {
                    j
                } else {
                    j + 1
                };
                assert(after[i] == before[x] && after[j] == before[y]);
            }
        }
        assert forall|id: Seq<char>| #[trigger] has_id(after, id) implies has_id(b.tasks, id)
            && !ids.contains(id) by {
            let i = position_of(after, id);
            assert(first_with_id(after, id, i));
            let x = if has_id(before, last) && i >= p {
                i + 1
            } else {
                i
            };
            assert(before[x] == after[i]);
            lemma_has_position(before, id, x);
            assert(has_id(before, id));
            if ids.contains(id) {
                let k = choose|k: int| 0 <= k < ids.len() && ids[k] == id;
                if k < rest.len() {
                    assert(rest[k] == id);
                }
                assert(id == last);
                assert(x != p);
                assert(before[x].id != before[p].id);
            }
        }
    }
}

/// Removing the task of the running conversion takes the task out of the queue and leaves the conversion
/// to be stopped. Once it has stopped, the tasks that are left are as they were.
pub proof fn law_removed_conversion_ends_alone(b: BoardView, env: SurroundingsView)
    requires
        unique_ids(b.tasks),
        runs_one_of(b, b.selected_ids()),
    ensures
        ({
            let rest = selected_removed(b, env);
            let id = b.worker->0.task_id;
            &&& rest.worker == b.worker
            &&& !has_id(rest.tasks, id)
            &&& after_cancelled(rest, id).tasks == rest.tasks
            &&& unique_ids(rest.tasks)
        }),
{
    let ids = b.selected_ids();
    lemma_removed_tasks_are_gone(b, ids);
    let rest = selected_removed(b, env);
    let id = b.worker->0.task_id;
    assert(rest.tasks == tasks_removed(b, ids).tasks);
    assert(!has_id(rest.tasks, id));
}

/// A conversion that starts writes beside its source: stabilized files get `_stabilized` behind the stem
/// and keep the extension, trimmed files get the times behind the stem and keep the extension, and
/// other videos keep the stem and get the extension of their container. Only an ordinary conversion can
/// take the place of its source.
pub proof fn law_orders_name_their_output(b: BoardView, env: SurroundingsView)
    requires
        started(b, env).1 is Some,
        file_name(started(b, env).1->0.input) is Some,
    ensures
        ({
            let o = started(b, env).1->0;
            let stem = file_stem(o.input)->0;
            match o.settings.mode {
                ContentMode::Stabilize => {
                    &&& parent(o.output) == parent(o.input)
                    &&& file_stem(o.output) == Some(stem + "_stabilized"@)
                    &&& extension(o.input) is Some ==> extension(o.output) == extension(o.input)
                    &&& o.output != o.input
                    &&& forall|d: DiskView|
                        #![trigger is_done(d, o.input, ContentMode::Stabilize)]
                        exists_on(d, o.output) ==> is_done(d, o.input, ContentMode::Stabilize)
                },
                ContentMode::Trim => {
                    &&& o.settings.trim_start is Some && o.settings.trim_end is Some
                    &&& o.settings.trim_start->0.nanos <= o.settings.trim_end->0.nanos
                    &&& parent(o.output) == parent(o.input)
                    &&& file_stem(o.output) == Some(
                        stem + "_"@ + compact_time_text(o.settings.trim_start->0) + "_"@
                            + compact_time_text(o.settings.trim_end->0),
                    )
                    &&& extension(o.input) is Some ==> extension(o.output) == extension(o.input)
                    &&& o.output != o.input
                },
                ContentMode::PhotoSlideshow => {
                    &&& !exists_on(env.disk, o.output)
                    &&& extension(o.output) == Some("mp4"@)
                    &&& is_folder(env.disk, o.input) ==> parent(o.output) == Some(trimmed(o.input))
                    &&& !is_folder(env.disk, o.input) && parent(o.input) is Some ==> parent(o.output)
                        == parent(o.input)
                },
                _ => {
                    &&& parent(o.output) == parent(o.input)
                    &&& file_stem(o.output) == Some(stem)
                    &&& container_of(env.presets, o.settings.mode, o.settings.encoder)
                        == Container::Matroska ==> extension(o.output) == Some("mkv"@)
                    &&& container_of(env.presets, o.settings.mode, o.settings.encoder)
                        == Container::Mp4 ==> extension(o.output) == Some("mp4"@)
                },
            }
        }),
{
    let o = started(b, env).1->0;
    match o.settings.mode {
        ContentMode::Stabilize => {
            assert forall|d: DiskView|
                #![trigger is_done(d, o.input, ContentMode::Stabilize)]
                exists_on(d, o.output) implies is_done(d, o.input, ContentMode::Stabilize) by {
                law_stabilized_file_is_named_after_its_source(o.input, d);
            }
            law_stabilized_file_is_named_after_its_source(o.input, env.disk);
        },
        ContentMode::Trim => {
            law_trimmed_file_is_named_after_its_source(
                o.input,
                o.settings.trim_start->0,
                o.settings.trim_end->0,
            );
        },
        ContentMode::PhotoSlideshow => {
            law_slideshow_file_is_free(env.disk, o.input);
            lemma_parent_is_shorter(o.input);
        },
        _ => {
            law_converted_file_is_named_after_its_source(
                o.input,
                container_of(env.presets, o.settings.mode, o.settings.encoder),
            );
        },
    }
}

/// The file that a task works on next is one of its own that is not done, has not failed in this run, and
/// was not skipped; where there is such a file, the task has a next one.
pub proof fn law_next_file_is_open_work(b: BoardView, env: SurroundingsView, t: TaskView)
    requires
        t.settings.mode != ContentMode::PhotoSlideshow,
        target_files(env.disk, t.targets).len() <= usize::MAX,
    ensures
        next_input(b, env, t) matches Some(p) ==> {
            &&& target_files(env.disk, t.targets).contains(p)
            &&& !is_done(env.disk, p, t.settings.mode)
            &&& !has_path(t.skipped_paths, p)
            &&& forall|i: int|
                0 <= i < b.failures.len() && (#[trigger] b.failures[i]).task_id == t.id
                    ==> plain(b.failures[i].path) != plain(p)
        },
        next_input(b, env, t) is None ==> forall|p: Seq<char>| #[trigger]
            target_files(env.disk, t.targets).contains(p) ==> is_done(env.disk, p, t.settings.mode)
                || has_path(t.skipped_paths, p) || has_path(failed_paths(b.failures, t.id), p),
{
    let d = env.disk;
    let failed = failed_paths(b.failures, t.id);
    let test = is_not_in(failed, t.skipped_paths);
    let open = open_files(d, t, Seq::empty());
    let left = left_of(env, b.failures, t);
    let all = target_files(d, t.targets);
    let work = is_open_work(d, t.settings.mode, Seq::empty());
    let kept = all.filter(work);
    let sorted = naturally_sorted(kept);
    all.lemma_filter_len(work);
    lemma_sorted_paths(kept);
    assert(sorted.len() == kept.len());
    if left.len() > 0 {
        let p = left[0];
        open.lemma_filter_pred(test, 0);
        lemma_filter_subset(open, test, 0);
        lemma_neighbours_come_from_the_list(sorted, p);
        assert(kept.contains(p));
        let k = choose|k: int| 0 <= k < kept.len() && kept[k] == p;
        all.lemma_filter_pred(work, k);
        lemma_filter_subset(all, work, k);
        assert forall|i: int|
            0 <= i < b.failures.len() && (#[trigger] b.failures[i]).task_id == t.id implies plain(
            b.failures[i].path,
        ) != plain(p) by {
            b.failures.lemma_filter_contains(is_of_task(t.id), i);
            let own = failures_of(b.failures, t.id);
            assert(own.contains(b.failures[i]));
            let j = choose|j: int| 0 <= j < own.len() && own[j] == b.failures[i];
            assert(failed[j] == b.failures[i].path);
            if plain(b.failures[i].path) == plain(p) {
                lemma_has_its_paths(failed, j, p);
            }
        }
    } else {
        assert forall|p: Seq<char>| #[trigger] all.contains(p) implies is_done(
            d,
            p,
            t.settings.mode,
        ) || has_path(t.skipped_paths, p) || has_path(failed, p) by {
            if !is_done(d, p, t.settings.mode) && !has_path(t.skipped_paths, p) && !has_path(
                failed,
                p,
            ) {
                let i = choose|i: int| 0 <= i < all.len() && all[i] == p;
                assert(!has_path(Seq::<Seq<char>>::empty(), p)) by {
                    assert(plains(Seq::<Seq<char>>::empty()).len() == 0);
                }
                all.lemma_filter_contains(work, i);
                assert(sorted.contains(p));
                let j = choose|j: int| 0 <= j < sorted.len() && sorted[j] == p;
                lemma_neighbours_keep_paths(sorted, j);
                let k = choose|k: int| 0 <= k < open.len() && plain(#[trigger] open[k]) == plain(p);
                lemma_same_path_everywhere(failed, open[k], p);
                lemma_same_path_everywhere(t.skipped_paths, open[k], p);
                open.lemma_filter_contains(test, k);
                assert(left.contains(open[k]));
            }
        }
    }
}

proof fn lemma_same_path_everywhere(list: Seq<Seq<char>>, a: Seq<char>, b: Seq<char>)
    requires
        plain(a) == plain(b),
    ensures
        has_path(list, a) == has_path(list, b),
{
}

/// What a filter keeps comes from the list.
proof fn lemma_filter_subset<A>(s: Seq<A>, test: spec_fn(A) -> bool, i: int)
    requires
        0 <= i < s.filter(test).len(),
    ensures
        s.contains(s.filter(test)[i]),
    decreases s.len(),
{
    reveal(Seq::filter);
    let rest = s.drop_last();
    if i < rest.filter(test).len() {
        lemma_filter_subset(rest, test, i);
        let k = choose|k: int| 0 <= k < rest.len() && rest[k] == rest.filter(test)[i];
        assert(s[k] == s.filter(test)[i]);
    } else {
        assert(s[s.len() - 1] == s.filter(test)[i]);
    }
}

/// Sorting paths keeps them.
pub proof fn lemma_sorted_paths(s: Seq<Seq<char>>)
    requires
        s.len() <= usize::MAX,
    ensures
        naturally_sorted(s).len() == s.len(),
        forall|p: Seq<char>| #[trigger] naturally_sorted(s).contains(p) <==> s.contains(p),
{
    let keys = full_path_keys(s);
    lemma_stable_order_exists(keys);
    let order = sorted_positions(keys);
    let out = naturally_sorted(s);
    assert(picks(out, s, order));
    lemma_sorted_is_picked(out, s, keys, order);
    law_sorting_keeps_every_item(out, s, keys);
}

/// What stays of a list without neighbours comes from it.
proof fn lemma_neighbours_come_from_the_list(s: Seq<Seq<char>>, p: Seq<char>)
    requires
        without_neighbours(s).contains(p),
    ensures
        s.contains(p),
    decreases s.len(),
{
    if s.len() > 1 {
        let rest = s.drop_last();
        let before = without_neighbours(rest);
        let k = choose|k: int| 0 <= k < without_neighbours(s).len() && without_neighbours(s)[k] == p;
        if k < before.len() {
            assert(before[k] == p);
            lemma_neighbours_come_from_the_list(rest, p);
            let i = choose|i: int| 0 <= i < rest.len() && rest[i] == p;
            assert(s[i] == p);
        } else {
            assert(s[s.len() - 1] == p);
        }
    }
}

/// A list without neighbours still has every path.
proof fn lemma_neighbours_keep_paths(s: Seq<Seq<char>>, i: int)
    requires
        0 <= i < s.len(),
    ensures
        exists|k: int|
            0 <= k < without_neighbours(s).len() && plain(#[trigger] without_neighbours(s)[k])
                == plain(s[i]),
    decreases s.len(),
{
    let now = without_neighbours(s);
    if s.len() <= 1 {
        assert(plain(now[i]) == plain(s[i]));
    } else {
        let rest = s.drop_last();
        let before = without_neighbours(rest);
        let j = if i < rest.len() {
            i
        } else {
            rest.len() - 1
        };
        lemma_neighbours_keep_paths(rest, j);
        let k = choose|k: int| 0 <= k < before.len() && plain(#[trigger] before[k]) == plain(rest[j]);
        if i < rest.len() || now.len() == before.len() {
            assert(now[k] == before[k]);
            assert(plain(now[k]) == plain(s[i]));
        } else {
            assert(now[now.len() - 1] == s[i]);
            assert(plain(now[now.len() - 1]) == plain(s[i]));
        }
    }
}

/// A finished conversion leaves its task waiting where more of its files are open, and else completed at
/// the time at which the conversion ended, and says what was created.
pub proof fn law_converted_files_advance_the_task(
    b: BoardView,
    env: SurroundingsView,
    w: WorkerView,
    output: String,
    end_time: String,
    saved: HistoryOutcome,
)
    requires
        has_id(b.tasks, w.task_id),
    ensures
        ({
            let t = task_named(b.tasks, w.task_id);
            let (after, goes_on) = finished(
                b,
                env,
                w,
                WorkerOutcome::Converted { output, end_time },
                saved,
            );
            let u = task_named(after.tasks, w.task_id);
            &&& goes_on <==> is_aggregate(env.disk, t) && left_of(env, b.failures, t).len() > 0
            &&& goes_on ==> u.status == QueueStatus::Pending && u.complete_time == t.complete_time
            &&& !goes_on ==> u.status == QueueStatus::Completed && u.complete_time == end_time@
            &&& !goes_on && failures_of(b.failures, t.id).len() == 0 ==> u.error == t.error
            &&& goes_on && failures_of(b.failures, t.id).len() == 0 ==> u.error is None
            &&& failures_of(b.failures, t.id).len() > 0 ==> u.error is Some
            &&& u.targets == t.targets && u.settings == t.settings && u.name == t.name
            &&& u.skipped_paths == t.skipped_paths
            &&& after.failures == b.failures
            &&& after.worker is None
            &&& b.run_state == QueueRunState::Running ==> has_prefix(
                after.activity,
                "Created "@ + output@,
            ) && after.run_state == QueueRunState::Running
        }),
{
    let id = w.task_id;
    lemma_named_id(b.tasks, id);
    let told = b.saying(crate::finish::created_text(output@, saved, true));
    let note = crate::counts::failure_note(crate::run::failed_count(told.failures, id));
    lemma_status_error(told.tasks, id, QueueStatus::Pending, note);
    lemma_done_task(told, id, end_time@);
    let text = "Created "@ + output@;
    let shown = crate::finish::created_text(output@, saved, true);
    assert(shown.take(text.len() as int) =~= text);
}

/// The task that is done: completed at that time, with a note if files of it failed.
proof fn lemma_done_task(b: BoardView, id: Seq<char>, time: Seq<char>)
    requires
        has_id(b.tasks, id),
    ensures
        ({
            let t = task_named(b.tasks, id);
            let u = task_named(task_done(b, id, time).tasks, id);
            &&& u.status == QueueStatus::Completed && u.complete_time == time
            &&& u.error == if failures_of(b.failures, id).len() > 0 {
                Some(crate::counts::finished_note(failures_of(b.failures, id).len()))
            } else {
                t.error
            }
            &&& u.targets == t.targets && u.settings == t.settings && u.name == t.name
            &&& u.skipped_paths == t.skipped_paths && u.id == t.id
        }),
{
    let done = with_status(b.tasks, id, QueueStatus::Completed);
    lemma_status(b.tasks, id, QueueStatus::Completed);
    let note = Some(crate::counts::finished_note(crate::run::failed_count(b.failures, id)));
    lemma_error(done, id, note);
    lemma_time(done, id, time);
    lemma_time(with_error(done, id, note), id, time);
}

/// A failed file is noted with its error. A failed slideshow, or the loss of the engine, stops the queue
/// and leaves the task waiting with the error; any other failure leaves the task waiting where it has
/// more to do, and else completed with a note.
pub proof fn law_failures_are_noted(
    b: BoardView,
    env: SurroundingsView,
    w: WorkerView,
    e: EngineError,
    saved: HistoryOutcome,
)
    requires
        has_id(b.tasks, w.task_id),
        !(e is Cancelled),
    ensures
        ({
            let t = task_named(b.tasks, w.task_id);
            let (after, goes_on) = finished(b, env, w, WorkerOutcome::Stopped(e), saved);
            let u = task_named(after.tasks, w.task_id);
            let words = crate::engine::engine_error_text(e);
            if t.settings.mode == ContentMode::PhotoSlideshow || e is Unavailable {
                &&& !goes_on
                &&& u.status == QueueStatus::Pending && u.error == Some(words)
                &&& after.run_state == QueueRunState::Idle
                &&& after.failures == b.failures
                &&& after.activity == words
            } else {
                &&& after.failures.len() > 0 && after.failures.last() == (FailureView {
                    task_id: w.task_id,
                    path: w.target,
                    error: words,
                })
                &&& goes_on <==> is_aggregate(env.disk, t) && left_of(env, after.failures, t).len() > 0
                &&& goes_on ==> u.status == QueueStatus::Pending && u.error == t.error
                &&& !goes_on ==> u.status == QueueStatus::Completed && u.complete_time == env.now
                    && u.error is Some
                &&& b.run_state == QueueRunState::Running ==> after.run_state
                    == QueueRunState::Running
            }
        }),
{
    let id = w.task_id;
    lemma_named_id(b.tasks, id);
    let words = crate::engine::engine_error_text(e);
    lemma_status_error(b.tasks, id, QueueStatus::Pending, Some(words));
    let failures = b.failures.filter(is_other_file(id, w.target)).push(
        FailureView { task_id: id, path: w.target, error: words },
    );
    lemma_status(b.tasks, id, QueueStatus::Pending);
    let note = Some(crate::counts::finished_note(crate::run::failed_count(failures, id)));
    lemma_status_error(b.tasks, id, QueueStatus::Completed, note);
    let done = with_error(with_status(b.tasks, id, QueueStatus::Completed), id, note);
    lemma_time(done, id, env.now);
}

/// A skipped file is listed as skipped, and its task goes on or is completed; no failure is noted.
pub proof fn law_skipped_files_are_listed(
    b: BoardView,
    env: SurroundingsView,
    w: WorkerView,
    reason: String,
    saved: HistoryOutcome,
)
    requires
        has_id(b.tasks, w.task_id),
    ensures
        ({
            let t = task_named(b.tasks, w.task_id);
            let (after, goes_on) = finished(b, env, w, WorkerOutcome::Skipped { reason }, saved);
            let u = task_named(after.tasks, w.task_id);
            &&& has_path(u.skipped_paths, w.target)
            &&& forall|p: Seq<char>| #[trigger]
                has_path(u.skipped_paths, p) ==> has_path(t.skipped_paths, p) || plain(p) == plain(
                    w.target,
                )
            &&& goes_on ==> u.status == QueueStatus::Pending
            &&& !goes_on ==> u.status == QueueStatus::Completed && u.complete_time == env.now
            &&& after.failures == b.failures
        }),
{
    let id = w.task_id;
    lemma_named_id(b.tasks, id);
    let t = task_named(b.tasks, id);
    let more = TaskView { skipped_paths: t.skipped_paths.push(w.target), ..t };
    lemma_with_task(b.tasks, id, more);
    let noted = BoardView { tasks: with_skipped(b.tasks, id, w.target), ..b };
    lemma_status(noted.tasks, id, QueueStatus::Pending);
    lemma_done_task(noted, id, env.now);
    assert(more.skipped_paths =~= t.skipped_paths + seq![w.target]);
    assert forall|p: Seq<char>| has_path(more.skipped_paths, p) implies has_path(
        t.skipped_paths,
        p,
    ) || plain(p) == plain(w.target) by {
        lemma_has_path_concat(t.skipped_paths, seq![w.target], p);
        if plain(p) != plain(w.target) {
            lemma_lacks_path(seq![w.target], p);
        }
    }
    lemma_has_its_paths(more.skipped_paths, t.skipped_paths.len() as int, w.target);
}

/// A conversion that the user stopped leaves its task cancelled; where the whole queue is stopped, it
/// leaves the task waiting. Neither goes on by itself.
pub proof fn law_stopped_conversions_do_not_go_on(
    b: BoardView,
    env: SurroundingsView,
    w: WorkerView,
    saved: HistoryOutcome,
)
    requires
        has_id(b.tasks, w.task_id),
    ensures
        ({
            let stop = WorkerOutcome::Stopped(EngineError::Cancelled);
            let (after, goes_on) = finished(b, env, w, stop, saved);
            let u = task_named(after.tasks, w.task_id);
            &&& !goes_on
            &&& b.run_state != QueueRunState::Stopping ==> u.status == QueueStatus::Cancelled
            &&& b.run_state == QueueRunState::Stopping ==> u.status == QueueStatus::Pending && u.error
                is None && after.run_state == QueueRunState::Idle
            &&& after.failures == b.failures
        }),
{
    let id = w.task_id;
    lemma_status(b.tasks, id, QueueStatus::Cancelled);
    lemma_status_error(b.tasks, id, QueueStatus::Pending, None);
}

/// A queue that is paused, about to pause, or stopping starts nothing; a run of the selected task starts
/// no other task, and ends by itself.
pub proof fn law_only_a_running_queue_goes_on(
    b: BoardView,
    env: SurroundingsView,
    id: Seq<char>,
    goes_on: bool,
    notes: Seq<Seq<char>>,
)
    ensures
        ({
            let (after, step) = resumed(b, env, id, goes_on, notes);
            &&& b.run_state != QueueRunState::Idle && b.run_state != QueueRunState::Running
                && b.run_state != QueueRunState::RunningSelected ==> step is Rest
            &&& b.run_state == QueueRunState::Idle && !goes_on ==> step is Rest
            &&& b.run_state != QueueRunState::Running ==> !(step is Again) && !(step is Finished)
            &&& b.run_state != QueueRunState::Running && step is Start ==> goes_on && step->Start_0.task_id
                == id
            &&& b.run_state == QueueRunState::RunningSelected && !goes_on ==> step is Rest
                && after.run_state == QueueRunState::Idle
            &&& b.run_state == QueueRunState::Running ==> !(step is Rest)
        }),
{
}

/// A running queue starts the first task that waits, where that task can start.
pub proof fn law_queue_runs_in_order(b: BoardView, env: SurroundingsView, i: int)
    requires
        0 <= i < b.tasks.len(),
        b.tasks[i].status == QueueStatus::Pending,
        forall|j: int| 0 <= j < i ==> (#[trigger] b.tasks[j]).status != QueueStatus::Pending,
        started(b.selecting(Some(b.tasks[i].id)), env).1 is Some,
    ensures
        went_on(b, env).1 == StepView::Start(
            started(b.selecting(Some(b.tasks[i].id)), env).1->0,
        ),
        went_on(b, env).1->Start_0.task_id == b.tasks[i].id,
{
    assert(first_pending_at(b.tasks, i));
    lemma_first_pending(b.tasks, i);
    assert(first_started(b, env, b.tasks.len()).1 == started(
        b.selecting(Some(b.tasks[i].id)),
        env,
    ).1);
}

/// A queue with nothing left to start or to find ends: it is idle, and tells of its end.
pub proof fn law_finished_queue_is_idle(b: BoardView, env: SurroundingsView)
    requires
        went_on(b, env).1 is Finished,
    ensures
        went_on(b, env).0.run_state == QueueRunState::Idle,
        went_on(b, env).0.completion_notice.len() > 0,
        went_on(b, env).0.activity == went_on(b, env).0.completion_notice,
        went_on(b, env).0.unsaved,
{
    reveal_strlit("Queue complete — ");
}

/// Starting the queue runs it, forgets the last notice, and counts the waiting tasks anew; what a task
/// shows as converted before its run is what was converted when it started.
pub proof fn law_started_task_remembers_its_start(b: BoardView, env: SurroundingsView)
    requires
        started(b, env).1 is Some,
    ensures
        ({
            let id = b.selection.primary->0;
            let t = task_named(b.tasks, id);
            let after = started(b, env).0;
            &&& after.starts.contains_key(id)
            &&& b.starts.contains_key(id) ==> after.starts == b.starts
            &&& !b.starts.contains_key(id) ==> after.starts[id] == counts_on(b, env, t).converted
            &&& after.activity == "Running "@ + t.name
            &&& after.unsaved
            &&& after.failures == b.failures && after.run_state == b.run_state
        }),
{
}

} // verus!
