//! What holds of the program as a whole.

use crate::board::{numbered_id, BoardView};
use crate::controller::{ControllerView, DraftView, LOG_LIMIT};
use crate::disk::DiskView;
use crate::drafts::{draft_targets_with, draft_task, free_paths, occupied_on, suits_draft};
use crate::form::FormView;
use crate::model::ContentMode;
use crate::paths::{has_path, lemma_one_more_path, paths_differ};
use crate::presets::{PresetView, SurroundingsView};
use crate::targets::{is_admissible, law_admission_takes_each_path_once};
use crate::task_rows::{history_row, row_passes, shown_history, HistoryRowView};
use crate::text::{trimmed, unicode_lower};
use vstd::prelude::*;

verus! {

/// Changing the settings form leaves the queue, the history, and the new task alone.
pub proof fn law_form_changes_leave_the_queue(
    c: ControllerView,
    form: FormView,
    presets: Seq<PresetView>,
)
    ensures
        c.with_form(form).synced(presets).board == c.board,
        c.with_form(form).synced(presets).history == c.history,
        c.with_form(form).synced(presets).task_draft == c.task_draft,
{
}

/// Once the preferences are saved, keeping the form's settings again leaves nothing to save.
pub proof fn law_saved_preferences_stay_saved(c: ControllerView, presets: Seq<PresetView>)
    requires
        c.wf(),
    ensures
        ({
            let kept = c.synced(presets);
            let saved = ControllerView {
                unsaved_preferences: false,
                saved: crate::controller::SavedPreferences {
                    mode: kept.form.mode,
                    prevent_sleep: kept.prevent_sleep,
                    cpu_limit: kept.cpu_limit,
                },
                ..kept
            };
            !saved.synced(presets).unsaved_preferences && saved.synced(presets).form
                =~= saved.form
        }),
{
    let kept = c.synced(presets);
    let at = crate::stored_queue::mode_position(c.form.mode);
    assert(kept.form.settings_by_mode[at] == c.form.current(presets));
    assert(kept.form.current(presets) == c.form.current(presets));
    let again = kept.form.remembering(kept.form.mode, kept.form.encoder).keeping(
        kept.form.current(presets),
    );
    assert(again.encoding_settings =~= kept.form.encoding_settings);
    assert(again.settings_by_mode =~= kept.form.settings_by_mode);
}

/// The activity log never has more lines than its limit.
pub proof fn law_log_stays_bounded(c: ControllerView, time: Seq<char>)
    requires
        c.activity_log.len() <= LOG_LIMIT,
    ensures
        c.logged(time).activity_log.len() <= LOG_LIMIT,
{
}

/// A line that is logged is the last of the log, and the same activity is not logged twice in a row.
pub proof fn law_activity_is_logged_once(c: ControllerView, time: Seq<char>, later: Seq<char>)
    requires
        c.activity_log.len() <= LOG_LIMIT,
        c.board.activity.len() > 0,
        c.board.activity != c.logged_activity,
    ensures
        c.logged(time).activity_log.last() == "["@ + time + "] "@ + c.board.activity,
        c.logged(time).logged(later) == c.logged(time),
{
}

/// A draft takes only paths that suit it, none that the queue has, and none twice. It keeps the
/// targets that it has, and for a trim it has one at most.
pub proof fn law_draft_takes_suitable_paths(
    d: DiskView,
    mode: ContentMode,
    occupied: Seq<Seq<char>>,
    targets: Seq<Seq<char>>,
    paths: Seq<Seq<char>>,
)
    ensures
        ({
            let now = draft_targets_with(d, mode, occupied, targets, paths);
            &&& targets.is_prefix_of(now)
            &&& now.len() <= targets.len() + paths.len()
            &&& forall|i: int|
                targets.len() <= i < now.len() ==> suits_draft(d, mode, #[trigger] now[i])
                    && !has_path(occupied, now[i]) && paths.contains(now[i])
            &&& paths_differ(targets) ==> paths_differ(now)
            &&& mode == ContentMode::Trim && targets.len() <= 1 ==> now.len() <= 1
        }),
    decreases paths.len(),
{
    if paths.len() > 0 {
        let rest = paths.drop_last();
        let before = draft_targets_with(d, mode, occupied, targets, rest);
        let now = draft_targets_with(d, mode, occupied, targets, paths);
        law_draft_takes_suitable_paths(d, mode, occupied, targets, rest);
        assert forall|i: int| targets.len() <= i < now.len() implies suits_draft(
            d,
            mode,
            #[trigger] now[i],
        ) && !has_path(occupied, now[i]) && paths.contains(now[i]) by {
            if i < before.len() {
                assert(now[i] == before[i]);
                assert(rest.contains(before[i]));
                let k = choose|k: int| 0 <= k < rest.len() && rest[k] == before[i];
                assert(paths[k] == before[i]);
            } else {
                assert(paths[paths.len() - 1] == now[i]);
            }
        }
        if paths_differ(targets) && now.len() > before.len() {
            lemma_one_more_path(before, paths.last());
        }
    }
}

proof fn lemma_free_paths(occupied: Seq<Seq<char>>, paths: Seq<Seq<char>>)
    ensures
        paths_differ(free_paths(occupied, paths)),
        free_paths(occupied, paths).len() <= paths.len(),
        forall|i: int|
            0 <= i < free_paths(occupied, paths).len() ==> !has_path(
                occupied,
                #[trigger] free_paths(occupied, paths)[i],
            ),
    decreases paths.len(),
{
    if paths.len() > 0 {
        let before = free_paths(occupied, paths.drop_last());
        let now = free_paths(occupied, paths);
        lemma_free_paths(occupied, paths.drop_last());
        assert forall|i: int| 0 <= i < now.len() implies !has_path(
            occupied,
            #[trigger] now[i],
        ) by {
            if i < before.len() {
                assert(now[i] == before[i]);
            }
        }
        if now.len() > before.len() {
            lemma_one_more_path(before, paths.last());
        }
    }
}

/// The task that a draft becomes works on nothing that the queue has or watches, and on nothing twice.
pub proof fn law_new_task_works_on_free_paths(
    env: SurroundingsView,
    b: BoardView,
    draft: DraftView,
)
    ensures
        paths_differ(draft_task(env, b, draft).0),
        forall|i: int|
            0 <= i < draft_task(env, b, draft).0.len() ==> !has_path(
                occupied_on(b),
                #[trigger] draft_task(env, b, draft).0[i],
            ),
{
    let targets = draft_task(env, b, draft).0;
    let occupied = occupied_on(b);
    if draft.settings.mode == ContentMode::PhotoSlideshow {
        lemma_free_paths(occupied, draft.targets);
    } else {
        law_admission_takes_each_path_once(
            env.disk,
            draft.settings.mode,
            occupied,
            draft.targets,
        );
        assert forall|i: int| 0 <= i < targets.len() implies !has_path(
            occupied,
            #[trigger] targets[i],
        ) by {
            assert(is_admissible(env.disk, draft.settings.mode, occupied, targets[i]));
        }
    }
}

/// A draft that becomes a task is the last of the queue and selected, and the other tasks stay as they
/// are. One that does not become a task leaves the tasks alone and keeps its targets.
pub proof fn law_creating_adds_one_task(c: ControllerView, env: SurroundingsView, name: Seq<char>)
    ensures
        ({
            let (after, created) = c.with_draft_created(env, name);
            if created {
                &&& c.task_draft is Some && after.task_draft is None
                &&& after.board.tasks.len() == c.board.tasks.len() + 1
                &&& after.board.tasks.drop_last() =~= c.board.tasks
                &&& after.board.tasks.last().id == numbered_id(c.board.next_id)
                &&& after.board.selection.primary == Some(after.board.tasks.last().id)
                &&& after.board.tasks.last().targets == draft_task(
                    env,
                    c.board,
                    c.task_draft->0,
                ).0
                &&& after.board.unsaved
            } else {
                &&& after.board.tasks == c.board.tasks
                &&& c.task_draft matches Some(d) ==> after.task_draft is Some
                    && after.task_draft->0.targets == d.targets
                &&& c.task_draft is None ==> after.task_draft is None
            }
        }),
{
}

/// Moving a target of a draft back and forth leaves the draft as it is.
pub proof fn law_draft_moves_can_be_undone(c: ControllerView, index: usize, delta: isize)
    requires
        delta != isize::MIN,
        c.with_draft_target_moved(index, delta).1 is Some,
        c.task_draft->0.targets.len() <= usize::MAX,
    ensures
        ({
            let (moved, place) = c.with_draft_target_moved(index, delta);
            let (back, home) = moved.with_draft_target_moved(place->0, (-delta) as isize);
            home == Some(index) && back.task_draft->0.targets =~= c.task_draft->0.targets
        }),
{
}

/// A line of the history list shows a row that passes the filter.
pub open spec fn is_passing_row(
    rows: Seq<Seq<Seq<char>>>,
    filter: Seq<char>,
    line: HistoryRowView,
) -> bool {
    exists|k: int|
        0 <= k < rows.len() && row_passes(unicode_lower(trimmed(filter)))(#[trigger] rows[k])
            && line == history_row(rows[k])
}

/// Every line of the history list is a row of the history that passes the filter; an empty filter
/// shows all rows, in the order of the history.
pub proof fn law_history_filter_selects_rows(rows: Seq<Seq<Seq<char>>>, filter: Seq<char>)
    ensures
        shown_history(rows, filter).len() <= rows.len(),
        forall|i: int|
            0 <= i < shown_history(rows, filter).len() ==> is_passing_row(
                rows,
                filter,
                #[trigger] shown_history(rows, filter)[i],
            ),
        unicode_lower(trimmed(filter)).len() == 0 ==> shown_history(rows, filter)
            == rows.map_values(|row: Seq<Seq<char>>| history_row(row)),
{
    let test = row_passes(unicode_lower(trimmed(filter)));
    let kept = rows.filter(test);
    lemma_filter_is_shorter(rows, test);
    assert forall|i: int| 0 <= i < shown_history(rows, filter).len() implies is_passing_row(
        rows,
        filter,
        #[trigger] shown_history(rows, filter)[i],
    ) by {
        lemma_filter_keeps_items(rows, test, i);
        let k = choose|k: int| 0 <= k < rows.len() && rows[k] == kept[i] && test(#[trigger] rows[k]);
        assert(row_passes(unicode_lower(trimmed(filter)))(rows[k]));
        assert(shown_history(rows, filter)[i] == history_row(rows[k]));
    }
    if unicode_lower(trimmed(filter)).len() == 0 {
        lemma_filter_all(rows, test);
    }
}

proof fn lemma_filter_keeps_items<A>(s: Seq<A>, test: spec_fn(A) -> bool, i: int)
    requires
        0 <= i < s.filter(test).len(),
    ensures
        exists|k: int| 0 <= k < s.len() && s[k] == s.filter(test)[i] && test(#[trigger] s[k]),
    decreases s.len(),
{
    reveal(Seq::filter);
    let rest = s.drop_last();
    if i < rest.filter(test).len() {
        lemma_filter_keeps_items(rest, test, i);
        let k = choose|k: int| 0 <= k < rest.len() && rest[k] == rest.filter(test)[i] && test(#[trigger] rest[k]);
        assert(s[k] == rest[k]);
    } else {
        assert(s[s.len() - 1] == s.filter(test)[i]);
    }
}

proof fn lemma_filter_is_shorter<A>(s: Seq<A>, test: spec_fn(A) -> bool)
    ensures
        s.filter(test).len() <= s.len(),
    decreases s.len(),
{
    reveal(Seq::filter);
    if s.len() > 0 {
        lemma_filter_is_shorter(s.drop_last(), test);
    }
}

proof fn lemma_filter_all<A>(s: Seq<A>, test: spec_fn(A) -> bool)
    requires
        forall|x: A| #[trigger] test(x),
    ensures
        s.filter(test) == s,
    decreases s.len(),
{
    reveal(Seq::filter);
    if s.len() > 0 {
        lemma_filter_all(s.drop_last(), test);
        assert(test(s.last()));
        assert(s.drop_last().push(s.last()) =~= s);
    }
}

} // verus!
