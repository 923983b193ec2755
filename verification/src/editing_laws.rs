//! How the user changes the queue: adding, moving, removing, and editing tasks.

use crate::board::{task_named, with_task, BoardView};
use crate::controller::{first_words, recovery_notes};
use crate::disk::{is_file, is_folder, photo_files, DiskView};
use crate::drafts::{
    created_note, draft_added_text, draft_name, draft_targets_with, free_paths, safety_text, suits_draft,
};
use crate::editing::{
    accepted_targets, added_text, can_rerun, fits_workflow, paths_added, selected_moved,
    targets_after, task_moved_to, task_replaced, tasks_removed, tasks_reset, videos_added,
    SlideshowsView, TaskTargetAction,
};
use crate::form::FormView;
use crate::media_files::{is_photo_name, is_video_name};
use crate::model::{ContentMode, SettingsView};
use crate::paths::has_path;
use crate::presets::SurroundingsView;
use crate::publish::{kind_of, PublicationKind};
use crate::queue::{has_id, position_of, unique_ids, QueueStatus, TaskView};
use crate::targets::{admitted, has_work, queued_paths, target_error, task_title, videos_among};
use crate::task_edit::{name_editable, review_applied, settings_editable, settings_given, task_renamed};
use crate::text::{decimal, trimmed};
use crate::watch::watch_roots;
use vstd::prelude::*;

verus! {

/// A pending task that is moved stands as many places further, and the others keep their order.
pub proof fn law_moved_task_stands_further(b: BoardView, id: Seq<char>, delta: int)
    requires
        b.selection.primary == Some(id),
        has_id(b.tasks, id),
        0 <= position_of(b.tasks, id) < b.tasks.len(),
        task_named(b.tasks, id).status == QueueStatus::Pending,
        0 <= position_of(b.tasks, id) + delta < b.tasks.len(),
    ensures
        ({
            let p = position_of(b.tasks, id);
            let after = selected_moved(b, delta);
            &&& after.tasks.len() == b.tasks.len()
            &&& after.tasks[p + delta] == b.tasks[p]
            &&& after.tasks.remove(p + delta) == b.tasks.remove(p)
            &&& after.unsaved
            &&& after.selection == b.selection
        }),
{
    let p = position_of(b.tasks, id);
    let after = selected_moved(b, delta);
    assert(after.tasks.remove(p + delta) =~= b.tasks.remove(p));
}

/// A task that is not pending stays where it is, and so does one that would leave the queue.
pub proof fn law_other_tasks_are_not_moved(b: BoardView, id: Seq<char>, delta: int)
    requires
        b.selection.primary == Some(id),
    ensures
        has_id(b.tasks, id) && task_named(b.tasks, id).status != QueueStatus::Pending ==> selected_moved(
            b,
            delta,
        ) == b.saying("Only pending items can be reordered"@),
        position_of(b.tasks, id) + delta < 0 || position_of(b.tasks, id) + delta >= b.tasks.len()
            ==> selected_moved(b, delta).tasks == b.tasks,
{
}

/// Dragging a pending task puts it at the place where it is dropped, and selects it.
pub proof fn law_dragged_task_lands_at_its_place(b: BoardView, source: int, target: int)
    requires
        unique_ids(b.tasks),
        0 <= source < b.tasks.len(),
        0 <= target < b.tasks.len(),
    ensures
        b.tasks[source].status == QueueStatus::Pending ==> {
            let after = task_moved_to(b, source, target);
            &&& after.tasks[target] == b.tasks[source]
            &&& after.tasks.remove(target) == b.tasks.remove(source)
            &&& after.selection.primary == Some(b.tasks[source].id)
        },
        b.tasks[source].status != QueueStatus::Pending ==> task_moved_to(b, source, target).tasks == b.tasks,
{
    let id = b.tasks[source].id;
    crate::queue::lemma_has_position(b.tasks, id, source);
    let after = task_moved_to(b, source, target);
    if b.tasks[source].status == QueueStatus::Pending {
        let p = position_of(b.tasks, id);
        assert(crate::queue::first_with_id(b.tasks, id, source)) by {
            assert forall|j: int| 0 <= j < source implies (#[trigger] b.tasks[j]).id != id by {
                assert(b.tasks[j].id != b.tasks[source].id);
            }
        }
        assert(crate::queue::first_with_id(b.tasks, id, p));
        assert(p == source);
        assert(after.tasks.remove(target) =~= b.tasks.remove(source));
    }
}

/// Removing tasks leaves every task that is not named, and only tasks that were there.
pub proof fn law_other_tasks_stay(b: BoardView, ids: Seq<Seq<char>>, t: TaskView)
    ensures
        b.tasks.contains(t) && !ids.contains(t.id) ==> tasks_removed(b, ids).tasks.contains(t),
        tasks_removed(b, ids).tasks.contains(t) ==> b.tasks.contains(t),
        tasks_removed(b, ids).worker == b.worker,
        tasks_removed(b, ids).watched == b.watched,
    decreases ids.len(),
{
    if ids.len() > 0 {
        let rest = ids.drop_last();
        let id = ids.last();
        law_other_tasks_stay(b, rest, t);
        let before = tasks_removed(b, rest).tasks;
        let after = tasks_removed(b, ids).tasks;
        if b.tasks.contains(t) && !ids.contains(t.id) {
            if rest.contains(t.id) {
                let k = choose|k: int| 0 <= k < rest.len() && rest[k] == t.id;
                assert(ids[k] == t.id);
            }
            assert(ids[ids.len() - 1] == id);
            let k = choose|k: int| 0 <= k < before.len() && before[k] == t;
            if has_id(before, id) {
                let p = position_of(before, id);
                assert(crate::queue::first_with_id(before, id, p));
                if k < p {
                    assert(after[k] == t);
                } else {
                    assert(after[k - 1] == t);
                }
            }
        }
        if after.contains(t) && has_id(before, id) {
            let p = position_of(before, id);
            assert(crate::queue::first_with_id(before, id, p));
            let k = choose|k: int| 0 <= k < after.len() && after[k] == t;
            if k < p {
                assert(before[k] == t);
            } else {
                assert(before[k + 1] == t);
            }
        }
    }
}

/// Failed and stopped tasks can run again, completed ones where they have work left, and no others.
pub proof fn law_tasks_that_can_run_again(d: DiskView, t: TaskView)
    ensures
        match t.status {
            QueueStatus::Failed => can_rerun(d, t),
            QueueStatus::Cancelled => can_rerun(d, t),
            QueueStatus::Completed => can_rerun(d, t) == has_work(d, t),
            QueueStatus::Pending => !can_rerun(d, t),
            QueueStatus::Running => !can_rerun(d, t),
            QueueStatus::Paused => !can_rerun(d, t),
        },
{
}

/// A task that runs again waits, without an error and without a time of completion, and what failed in it is
/// forgotten; a task that cannot stays as it is.
pub proof fn law_tasks_run_again(b: BoardView, env: SurroundingsView, ids: Seq<Seq<char>>, id: Seq<char>)
    requires
        has_id(tasks_reset(b, env, ids).0.tasks, id),
    ensures
        ({
            let (before, n) = tasks_reset(b, env, ids);
            let (after, m) = tasks_reset(b, env, ids.push(id));
            let t = task_named(before.tasks, id);
            &&& can_rerun(env.disk, t) ==> task_named(after.tasks, id) == (TaskView {
                status: QueueStatus::Pending,
                error: None,
                complete_time: Seq::empty(),
                ..t
            }) && !after.starts.contains_key(id) && m.reset == n.reset + 1 && m.skipped == n.skipped
                && m.no_remaining == n.no_remaining
            &&& !can_rerun(env.disk, t) ==> after == before && m.reset == n.reset
            &&& t.status == QueueStatus::Completed && !has_work(env.disk, t) ==> m.no_remaining
                == n.no_remaining + 1
            &&& t.status == QueueStatus::Pending || t.status == QueueStatus::Running ==> m.skipped
                == n.skipped + 1
        }),
{
    assert(ids.push(id).drop_last() =~= ids);
    assert(ids.push(id).last() == id);
    let before = tasks_reset(b, env, ids).0;
    let t = task_named(before.tasks, id);
    let p = position_of(before.tasks, id);
    assert(crate::queue::first_with_id(before.tasks, id, p));
    let one = before.tasks.update(p, TaskView { status: QueueStatus::Pending, ..t });
    lemma_place_stays(before.tasks, one, id, p);
    let two = one.update(p, TaskView { status: QueueStatus::Pending, error: None, ..t });
    lemma_place_stays(one, two, id, p);
    let three = two.update(
        p,
        TaskView { status: QueueStatus::Pending, error: None, complete_time: Seq::empty(), ..t },
    );
    lemma_place_stays(two, three, id, p);
}

proof fn lemma_place_stays(a: Seq<TaskView>, b: Seq<TaskView>, id: Seq<char>, p: int)
    requires
        crate::queue::first_with_id(a, id, p),
        a.len() == b.len(),
        forall|j: int| 0 <= j < a.len() ==> (#[trigger] a[j]).id == b[j].id,
    ensures
        has_id(b, id),
        crate::queue::first_with_id(b, id, p),
        position_of(b, id) == p,
{
    assert(a[p].id == b[p].id);
    assert forall|j: int| 0 <= j < p implies (#[trigger] b[j]).id != id by {
        assert(a[j].id != id);
    }
    assert(crate::queue::first_with_id(b, id, p));
    let q = position_of(b, id);
    assert(crate::queue::first_with_id(b, id, q));
    assert(q == p);
}

/// A target that is moved up changes places with the one above it, one that is moved down with the one below; a
/// removed one is gone, but the last target of a task stays.
pub proof fn law_targets_are_moved_and_removed(targets: Seq<Seq<char>>, i: usize)
    ensures
        0 < i < targets.len() ==> (targets_after(targets, TaskTargetAction::MoveUp(i)) matches Some(after)
            && after.len() == targets.len() && after[i - 1] == targets[i as int] && after[i as int]
            == targets[i - 1] && forall|k: int|
            0 <= k < targets.len() && k != i && k != i - 1 ==> #[trigger] after[k] == targets[k]),
        i + 1 < targets.len() ==> (targets_after(targets, TaskTargetAction::MoveDown(i)) matches Some(after)
            && after.len() == targets.len() && after[i + 1] == targets[i as int] && after[i as int]
            == targets[i + 1] && forall|k: int|
            0 <= k < targets.len() && k != i && k != i + 1 ==> #[trigger] after[k] == targets[k]),
        i < targets.len() && targets.len() > 1 ==> (targets_after(targets, TaskTargetAction::Remove(i)) matches Some(
            after,
        ) && after == targets.remove(i as int)),
        targets.len() <= 1 ==> targets_after(targets, TaskTargetAction::Remove(i)) is None,
        targets_after(targets, TaskTargetAction::MoveUp(0)) is None,
        i + 1 >= targets.len() ==> targets_after(targets, TaskTargetAction::MoveDown(i)) is None,
        i >= targets.len() ==> targets_after(targets, TaskTargetAction::Remove(i)) is None,
{
}

/// What fits a workflow is a right target of it.
pub proof fn law_fitting_paths_are_right_targets(d: DiskView, mode: ContentMode, p: Seq<char>)
    requires
        fits_workflow(d, mode, p),
        !(is_folder(d, p) && is_file(d, p)),
    ensures
        target_error(d, mode, p) is None,
{
}

/// Trimming takes video files, slideshows take photos and folders that hold some, and the other workflows take
/// folders and video files.
pub proof fn law_paths_that_fit_workflows(d: DiskView, mode: ContentMode, p: Seq<char>)
    ensures
        !is_folder(d, p) ==> (fits_workflow(d, ContentMode::Trim, p) <==> is_file(d, p) && is_video_name(p)),
        is_folder(d, p) ==> !fits_workflow(d, ContentMode::Trim, p),
        is_folder(d, p) ==> (fits_workflow(d, ContentMode::PhotoSlideshow, p) <==> photo_files(d, p).len() > 0),
        !is_folder(d, p) ==> (fits_workflow(d, ContentMode::PhotoSlideshow, p) <==> is_file(d, p)
            && is_photo_name(p)),
        mode != ContentMode::Trim && mode != ContentMode::PhotoSlideshow ==> (fits_workflow(d, mode, p)
            <==> is_folder(d, p) || (is_file(d, p) && is_video_name(p))),
        suits_draft(d, ContentMode::Trim, p) <==> is_file(d, p) && is_video_name(p),
        suits_draft(d, ContentMode::PhotoSlideshow, p) <==> is_folder(d, p) || (is_file(d, p)
            && is_photo_name(p)),
        mode != ContentMode::Trim && mode != ContentMode::PhotoSlideshow ==> (suits_draft(d, mode, p)
            <==> is_folder(d, p) || (is_file(d, p) && is_video_name(p))),
{
}

/// A task takes every fitting path that it and the other tasks do not have, and nothing else.
pub proof fn law_added_targets(
    d: DiskView,
    mode: ContentMode,
    taken: Seq<Seq<char>>,
    paths: Seq<Seq<char>>,
    i: int,
)
    ensures
        0 <= i < paths.len() && fits_workflow(d, mode, paths[i]) && !has_path(taken, paths[i]) ==> has_path(
            accepted_targets(d, mode, taken, paths),
            paths[i],
        ),
        0 <= i < accepted_targets(d, mode, taken, paths).len() ==> paths.contains(
            accepted_targets(d, mode, taken, paths)[i],
        ) && fits_workflow(d, mode, accepted_targets(d, mode, taken, paths)[i]) && !has_path(
            taken,
            accepted_targets(d, mode, taken, paths)[i],
        ),
    decreases paths.len(),
{
    if paths.len() > 0 {
        let rest = paths.drop_last();
        let p = paths.last();
        let before = accepted_targets(d, mode, taken, rest);
        let all = accepted_targets(d, mode, taken, paths);
        law_added_targets(d, mode, taken, rest, i);
        if 0 <= i < rest.len() && fits_workflow(d, mode, paths[i]) && !has_path(taken, paths[i]) {
            assert(rest[i] == paths[i]);
            lemma_path_stays(before, all, paths[i]);
        }
        if i == rest.len() && fits_workflow(d, mode, p) && !has_path(taken, p) && !has_path(before, p) {
            crate::paths::lemma_has_its_paths(all, before.len() as int, p);
        }
        if 0 <= i < all.len() {
            if i < before.len() {
                assert(all[i] == before[i]);
                let k = choose|k: int| 0 <= k < rest.len() && rest[k] == before[i];
                assert(paths[k] == all[i]);
            } else {
                assert(paths[paths.len() - 1] == all[i]);
            }
        }
    }
}

proof fn lemma_path_stays(before: Seq<Seq<char>>, all: Seq<Seq<char>>, p: Seq<char>)
    requires
        has_path(before, p),
        before.len() <= all.len(),
        forall|k: int| 0 <= k < before.len() ==> #[trigger] all[k] == before[k],
    ensures
        has_path(all, p),
{
    let plains = crate::paths::plains(before);
    let k = choose|k: int| 0 <= k < plains.len() && plains[k] == crate::paths::plain(p);
    assert(all[k] == before[k]);
    crate::paths::lemma_has_its_paths(all, k, p);
}

/// A draft takes every suitable path that the queue and the draft do not have; a draft for trimming takes one.
pub proof fn law_paths_of_a_draft(
    d: DiskView,
    mode: ContentMode,
    occupied: Seq<Seq<char>>,
    targets: Seq<Seq<char>>,
    paths: Seq<Seq<char>>,
    i: int,
)
    ensures
        ({
            let all = draft_targets_with(d, mode, occupied, targets, paths);
            &&& all.len() >= targets.len() && all.take(targets.len() as int) == targets
            &&& mode != ContentMode::Trim && 0 <= i < paths.len() && suits_draft(d, mode, paths[i])
                && !has_path(occupied, paths[i]) ==> has_path(all, paths[i])
            &&& mode == ContentMode::Trim && targets.len() > 0 ==> all == targets
            &&& mode == ContentMode::Trim && targets.len() == 0 ==> all.len() <= 1
            &&& targets.len() <= i < all.len() ==> suits_draft(d, mode, all[i]) && !has_path(
                occupied,
                all[i],
            ) && paths.contains(all[i])
        }),
    decreases paths.len(),
{
    let all = draft_targets_with(d, mode, occupied, targets, paths);
    if paths.len() == 0 {
        assert(targets.take(targets.len() as int) =~= targets);
    } else {
        let rest = paths.drop_last();
        let p = paths.last();
        let before = draft_targets_with(d, mode, occupied, targets, rest);
        law_paths_of_a_draft(d, mode, occupied, targets, rest, i);
        assert(all.take(targets.len() as int) =~= before.take(targets.len() as int));
        if mode != ContentMode::Trim && 0 <= i < paths.len() && suits_draft(d, mode, paths[i]) && !has_path(
            occupied,
            paths[i],
        ) {
            if i < rest.len() {
                assert(rest[i] == paths[i]);
                lemma_path_stays(before, all, paths[i]);
            } else if !has_path(before, p) {
                crate::paths::lemma_has_its_paths(all, before.len() as int, p);
            }
        }
        if targets.len() <= i < all.len() {
            if i < before.len() {
                assert(all[i] == before[i]);
                let k = choose|k: int| 0 <= k < rest.len() && rest[k] == before[i];
                assert(paths[k] == all[i]);
            } else {
                assert(paths[paths.len() - 1] == all[i]);
            }
        }
    }
}

/// A new slideshow takes every path that the queue has not, and nothing else.
pub proof fn law_paths_of_a_new_slideshow(occupied: Seq<Seq<char>>, paths: Seq<Seq<char>>, i: int)
    ensures
        0 <= i < paths.len() && !has_path(occupied, paths[i]) ==> has_path(
            free_paths(occupied, paths),
            paths[i],
        ),
        0 <= i < free_paths(occupied, paths).len() ==> !has_path(occupied, free_paths(occupied, paths)[i])
            && paths.contains(free_paths(occupied, paths)[i]),
    decreases paths.len(),
{
    if paths.len() > 0 {
        let rest = paths.drop_last();
        let p = paths.last();
        let before = free_paths(occupied, rest);
        let all = free_paths(occupied, paths);
        law_paths_of_a_new_slideshow(occupied, rest, i);
        if 0 <= i < rest.len() && !has_path(occupied, paths[i]) {
            assert(rest[i] == paths[i]);
            lemma_path_stays(before, all, paths[i]);
        }
        if i == rest.len() && !has_path(occupied, p) && !has_path(before, p) {
            crate::paths::lemma_has_its_paths(all, before.len() as int, p);
        }
        if 0 <= i < all.len() {
            if i < before.len() {
                assert(all[i] == before[i]);
                let k = choose|k: int| 0 <= k < rest.len() && rest[k] == before[i];
                assert(paths[k] == all[i]);
            } else {
                assert(paths[paths.len() - 1] == all[i]);
            }
        }
    }
}

/// Adding videos makes one task of those that the queue does not have: at the end, waiting, selected, named after
/// its workflow and first target, with the settings given.
pub proof fn law_added_videos_make_a_task(
    b: BoardView,
    paths: Seq<Seq<char>>,
    settings: SettingsView,
    left_out: nat,
    env: SurroundingsView,
)
    requires
        b.can_add(),
        admitted(
            env.disk,
            settings.mode,
            queued_paths(b.tasks) + watch_roots(b.watched),
            paths,
        ).len() > 0,
    ensures
        ({
            let targets = admitted(
                env.disk,
                settings.mode,
                queued_paths(b.tasks) + watch_roots(b.watched),
                paths,
            );
            let after = videos_added(b, paths, settings, left_out, env);
            let t = after.tasks.last();
            &&& after.tasks.len() == b.tasks.len() + 1
            &&& after.tasks.drop_last() == b.tasks
            &&& t.targets == targets
            &&& t.settings == settings
            &&& t.status == QueueStatus::Pending
            &&& t.id == "task-"@ + decimal(b.next_id as nat)
            &&& t.name == task_title(settings.mode, targets[0])
            &&& t.queued_time == env.now
            &&& t.error is None && t.skipped_paths.len() == 0
            &&& t.source_root == if targets.len() == 1 && is_folder(env.disk, targets[0]) {
                Some(targets[0])
            } else {
                None
            }
            &&& after.selection.primary == Some(t.id)
            &&& after.unsaved
        }),
{
    let after = videos_added(b, paths, settings, left_out, env);
    assert(after.tasks.drop_last() =~= b.tasks);
}

/// Where nothing can be added, the queue stays as it is.
pub proof fn law_nothing_new_adds_no_task(
    b: BoardView,
    paths: Seq<Seq<char>>,
    settings: SettingsView,
    env: SurroundingsView,
)
    requires
        admitted(
            env.disk,
            settings.mode,
            queued_paths(b.tasks) + watch_roots(b.watched),
            paths,
        ).len() == 0,
    ensures
        videos_added(b, paths, settings, 0, env).tasks == b.tasks,
        paths.len() > 0 ==> videos_added(b, paths, settings, 0, env).activity
            == "No remaining work; skipped "@ + decimal(paths.len())
            + " duplicate or completed item(s)"@,
{
}

/// A trim task replaces the queue, takes the first video, and waits for no running conversion.
pub proof fn law_trim_task_stands_alone(
    b: BoardView,
    paths: Seq<Seq<char>>,
    form: FormView,
    env: SurroundingsView,
)
    requires
        form.mode == ContentMode::Trim,
    ensures
        form.trim_range() matches Err(e) ==> paths_added(b, paths, form, env) == b.saying(e),
        form.trim_range() is Ok && b.worker is Some ==> paths_added(b, paths, form, env) == b.saying(
            "Stop the active conversion before adding a Trim task"@,
        ),
        form.trim_range() is Ok && b.worker is None && videos_among(env.disk, paths).len() == 0
            ==> paths_added(b, paths, form, env) == b.saying("Trim accepts one video file, not a folder."@),
        form.trim_range() is Ok && b.worker is None && videos_among(env.disk, paths).len() > 0
            ==> paths_added(b, paths, form, env).tasks.len() <= 1,
{
}

/// Clearing the queue leaves nothing of it, except where a conversion runs.
pub proof fn law_cleared_queue_is_empty(b: BoardView)
    ensures
        b.worker is None ==> b.cleared().tasks.len() == 0 && b.cleared().watched.len() == 0
            && b.cleared().failures.len() == 0 && b.cleared().selection.primary is None
            && b.cleared().unsaved,
        b.worker is Some ==> b.cleared().tasks == b.tasks && b.cleared().activity
            == "Stop the active conversion before clearing the queue"@,
{
}

/// Two photos or more make one slideshow that shows them in their order; a single photo makes none.
pub proof fn law_photos_make_a_slideshow(
    s: SlideshowsView,
    images: Seq<Seq<char>>,
    settings: SettingsView,
    env: SurroundingsView,
)
    ensures
        images.len() == 1 ==> s.with_photos(images, settings, env).board == s.board && s.with_photos(
            images,
            settings,
            env,
        ).skipped == s.skipped + 1,
        images.len() == 0 ==> s.with_photos(images, settings, env) == s,
        images.len() >= 2 && !has_path(s.occupied, images[0]) && s.board.can_add() ==> {
            let after = s.with_photos(images, settings, env);
            let t = after.board.tasks.last();
            &&& after.added == s.added + 1 && after.skipped == s.skipped
            &&& t.settings.slideshow_image_paths == images
            &&& t.settings.slideshow_review_image_paths == images
            &&& t.targets == seq![images[0]]
            &&& t.name == "Photo slideshow · "@ + decimal(images.len()) + " photos"@
            &&& t.status == QueueStatus::Pending
        },
{
}

/// The shown task gets a name that is not blank, without the blanks around it, unless it runs or is not the only
/// one selected.
pub proof fn law_tasks_are_renamed(b: BoardView, id: Seq<char>, name: Seq<char>)
    requires
        b.selection.primary == Some(id),
        has_id(b.tasks, id),
    ensures
        name_editable(b) && trimmed(name).len() > 0 ==> task_renamed(b, name).tasks == with_task(
            b.tasks,
            id,
            TaskView { name: trimmed(name), ..task_named(b.tasks, id) },
        ) && task_renamed(b, name).unsaved,
        trimmed(name).len() == 0 ==> task_renamed(b, name) == b,
        b.worker matches Some(w) ==> w.task_id == id ==> task_renamed(b, name) == b,
{
}

/// The settings of a task are changed only where none of its files is converted, and are then those of the form.
pub proof fn law_tasks_get_the_settings_of_the_form(
    b: BoardView,
    id: Seq<char>,
    form: FormView,
    env: SurroundingsView,
)
    requires
        b.selection.primary == Some(id),
        has_id(b.tasks, id),
    ensures
        ({
            let t = task_named(b.tasks, id);
            &&& t.status == QueueStatus::Completed ==> settings_given(b, form, env) == b
            &&& !settings_editable(b, env, t) ==> settings_given(b, form, env) == b
            &&& settings_editable(b, env, t) ==> (form.validated(env.presets) matches Err(e)
                ==> settings_given(b, form, env) == b.saying(e))
            &&& settings_editable(b, env, t) ==> (form.validated(env.presets) matches Ok(s)
                ==> crate::targets::targets_error(env.disk, s, t.targets) is None ==> s.mode
                != ContentMode::PhotoSlideshow ==> settings_given(b, form, env).tasks == task_replaced(
                b,
                id,
                TaskView { settings: s, ..t },
            ).tasks && settings_given(b, form, env).activity == "Updated queued task settings"@)
        }),
{
}

/// A changed task has not run: nothing of it is skipped, and what failed in it is forgotten.
pub proof fn law_changed_tasks_start_anew(b: BoardView, id: Seq<char>, t: TaskView)
    requires
        has_id(b.tasks, id),
        t.id == id,
    ensures
        task_named(task_replaced(b, id, t).tasks, id) == (TaskView { skipped_paths: Seq::empty(), ..t }),
        !task_replaced(b, id, t).starts.contains_key(id),
        forall|i: int|
            0 <= i < task_replaced(b, id, t).failures.len() ==> (#[trigger] task_replaced(
                b,
                id,
                t,
            ).failures[i]).task_id != id,
{
    let p = position_of(b.tasks, id);
    assert(crate::queue::first_with_id(b.tasks, id, p));
    let one = b.tasks.update(p, t);
    lemma_place_stays(b.tasks, one, id, p);
    let two = one.update(p, TaskView { skipped_paths: Seq::empty(), ..t });
    lemma_place_stays(one, two, id, p);
    let test = crate::failures::is_of_other_task(id);
    assert forall|i: int| 0 <= i < task_replaced(b, id, t).failures.len() implies (#[trigger] task_replaced(
        b,
        id,
        t,
    ).failures[i]).task_id != id by {
        b.failures.lemma_filter_pred(test, i);
    }
}

/// A review gives its task the photos that were kept and their order, and needs two of them.
pub proof fn law_reviews_are_applied(
    b: BoardView,
    id: Seq<char>,
    selected: Seq<Seq<char>>,
    ordered: Seq<Seq<char>>,
)
    requires
        has_id(b.tasks, id),
    ensures
        review_applied(b, None) == b.saying("Keep at least two photos in the slideshow."@),
        ({
            let after = review_applied(b, Some((id, selected, ordered)));
            let t = task_named(b.tasks, id);
            let u = task_named(after.tasks, id);
            &&& t.id == id ==> u.settings.slideshow_image_paths == selected
            &&& t.id == id ==> u.settings.slideshow_review_image_paths == ordered
            &&& t.id == id ==> u.name == "Photo slideshow · "@ + decimal(selected.len()) + " photos"@
            &&& t.id == id ==> u.targets == t.targets && u.status == t.status
            &&& after.unsaved
        }),
{
    let t = task_named(b.tasks, id);
    let p = position_of(b.tasks, id);
    assert(crate::queue::first_with_id(b.tasks, id, p));
    let after = review_applied(b, Some((id, selected, ordered))).tasks;
    if t.id == id {
        lemma_place_stays(b.tasks, after, id, p);
    }
}

/// A draft tells that its originals are moved exactly for the workflows that put them aside.
pub proof fn law_drafts_tell_of_their_originals(mode: ContentMode)
    ensures
        kind_of(mode) == PublicationKind::Conversion ==> safety_text(mode)
            == "After the new file is validated, the original is moved into an original folder; failed conversions leave it in place."@,
        kind_of(mode) != PublicationKind::Conversion ==> safety_text(mode)
            == "The source remains in place; the result is published only after validation."@,
{
}

/// A new task is called what the user asks for, or by its workflow and first target.
pub proof fn law_new_tasks_get_the_name_asked_for(requested: Seq<char>, mode: ContentMode, first: Seq<char>)
    ensures
        trimmed(requested).len() > 0 ==> draft_name(requested, mode, first) == trimmed(requested),
        trimmed(requested).len() == 0 ==> draft_name(requested, mode, first) == task_title(mode, first),
{
}

/// What is said of added targets and new tasks counts them.
pub proof fn law_words_for_added_targets(n: nat, skipped: nat)
    ensures
        added_text(n, 0) == "Added one queue task with "@ + decimal(n) + " target(s)"@,
        skipped > 0 ==> added_text(n, skipped) == "Added one queue task with "@ + decimal(n)
            + " target(s); skipped "@ + decimal(skipped)
            + " duplicate, unsupported, or completed target(s)"@,
        draft_added_text(n, 0) == "Added "@ + decimal(n) + " target(s) to the new task"@,
        skipped > 0 ==> draft_added_text(n, skipped) == "Added "@ + decimal(n) + " target(s); skipped "@
            + decimal(skipped) + " unsupported or duplicate item(s)"@,
        created_note(0) == "Task created and added to the queue"@,
        skipped > 0 ==> created_note(skipped) == "Task created; skipped "@ + decimal(skipped)
            + " duplicate target(s)"@,
{
}

/// At the start the program says what it could not read and how many tasks it restored, and is ready otherwise.
pub proof fn law_first_words(n: nat, e: Seq<char>)
    ensures
        first_words(recovery_notes(Ok(true), Ok(0), Ok(true))) == "Ready"@,
        n > 0 ==> recovery_notes(Ok(true), Ok(n), Ok(true)) == seq![
            "Restored "@ + decimal(n) + " queue item(s)"@,
        ],
        recovery_notes(Err(e), Ok(0), Ok(true)) == seq!["Settings recovery skipped: "@ + e],
        recovery_notes(Ok(true), Err(e), Ok(true)) == seq!["Queue recovery skipped: "@ + e],
        recovery_notes(Ok(true), Ok(0), Err(e)) == seq!["Completed history recovery skipped: "@ + e],
{
    let none = Seq::<Seq<char>>::empty();
    assert(none + none + none =~= none);
    assert(recovery_notes(Ok(true), Ok(0), Ok(true)) =~= none);
}

} // verus!
