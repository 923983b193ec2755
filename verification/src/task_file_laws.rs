//! Which files a task lists, and what it says of them.

use crate::disk::{is_done, is_folder, DiskView};
use crate::failures::FailureView;
use crate::history::history_value;
use crate::media_files::is_video_name;
use crate::model::{encoder_user_name, mode_label, ContentMode};
use crate::paths::{file_name, file_stem, has_path, parent};
use crate::presets::SurroundingsView;
use crate::queue::{QueueStatus, TaskView};
use crate::summary::file_key;
use crate::task_files::{
    converted_file, failure_of, file_status, found_files, is_within, marked, matches_target,
    plain_file, row_of_task, target_details, with_file, with_history, with_paths, FileView,
    ListView,
};
use crate::task_rows::{amount_text, progress_text, task_row};
use crate::board::BoardView;
use crate::clock::counted;
use crate::counts::TaskDisplayCounts;
use crate::run::counts_on;
use crate::text::{decimal, unicode_lower};
use vstd::prelude::*;

verus! {

/// A file of which only its state is known shows its name, its path, and its state, and dashes.
pub proof fn law_files_without_history(path: Seq<char>, status: Seq<char>)
    ensures
        plain_file(path, status).path == path,
        plain_file(path, status).status == status,
        file_name(path) matches Some(name) ==> plain_file(path, status).title == name,
        plain_file(path, status).started_time == "-"@,
        plain_file(path, status).completed_time == "-"@,
        plain_file(path, status).conversion_time == "-"@,
        plain_file(path, status).original_size == "-"@,
        plain_file(path, status).new_size == "-"@,
        plain_file(path, status).original_fps == "-"@,
        plain_file(path, status).new_fps == "-"@,
        plain_file(path, status).codec == "-"@,
        plain_file(path, status).duration == "-"@,
        plain_file(path, status).error_detail.len() == 0,
        file_status(true) == "Completed"@,
        file_status(false) == "Queued"@,
{
}

/// Every file that the history of a task tells of is listed.
pub proof fn law_history_of_a_task_is_listed(
    list: ListView,
    d: DiskView,
    t: TaskView,
    rows: Seq<Seq<Seq<char>>>,
    i: int,
)
    requires
        0 <= i < rows.len(),
        row_of_task(d, rows[i], t),
    ensures
        with_history(list, d, t, rows).files.contains(converted_file(rows[i])),
    decreases rows.len(),
{
    let rest = rows.drop_last();
    let before = with_history(list, d, t, rest);
    let all = with_history(list, d, t, rows);
    if i < rest.len() {
        assert(rest[i] == rows[i]);
        law_history_of_a_task_is_listed(list, d, t, rest, i);
        let k = choose|k: int| 0 <= k < before.files.len() && before.files[k] == converted_file(rows[i]);
        assert(all.files[k] == converted_file(rows[i]));
    } else {
        assert(all.files[before.files.len() as int] == converted_file(rows[i]));
    }
}

/// A file that is not listed yet is listed with its state; one that is, in any case of its letters, stays as it is.
pub proof fn law_files_are_listed_once(list: ListView, path: Seq<char>, status: Seq<char>)
    ensures
        list.seen.contains(unicode_lower(path)) ==> with_file(list, path, status) == list,
        !list.seen.contains(unicode_lower(path)) ==> with_file(list, path, status).files == list.files.push(
            plain_file(path, status),
        ),
        with_file(list, path, status).seen.contains(unicode_lower(path)),
{
    let now = with_file(list, path, status);
    if !list.seen.contains(unicode_lower(path)) {
        assert(now.seen[list.seen.len() as int] == unicode_lower(path));
    }
}

/// Every path of a list ends up in the list of files.
pub proof fn law_every_path_is_listed(list: ListView, paths: Seq<Seq<char>>, status: Seq<char>, i: int)
    requires
        0 <= i < paths.len(),
    ensures
        with_paths(list, paths, status).seen.contains(unicode_lower(paths[i])),
    decreases paths.len(),
{
    let rest = paths.drop_last();
    let before = with_paths(list, rest, status);
    if i < rest.len() {
        assert(rest[i] == paths[i]);
        law_every_path_is_listed(list, rest, status, i);
        let k = choose|k: int| 0 <= k < before.seen.len() && before.seen[k] == unicode_lower(paths[i]);
        assert(with_file(before, paths.last(), status).seen[k] == unicode_lower(paths[i]));
    } else {
        law_files_are_listed_once(before, paths.last(), status);
    }
}

/// A file that failed is marked as failed, with the error of its failure; any other stays as it is.
pub proof fn law_failed_files_are_marked(failures: Seq<FailureView>, file: FileView, k: int)
    ensures
        0 <= k < failures.len() && file_key(failures[k].path) == file_key(file.path) && (forall|j: int|
            0 <= j < k ==> file_key((#[trigger] failures[j]).path) != file_key(file.path)) ==> marked(
            failures,
            file,
        ) == (FileView { status: "Failed"@, error_detail: failures[k].error, ..file }),
        (forall|j: int|
            0 <= j < failures.len() ==> file_key((#[trigger] failures[j]).path) != file_key(file.path))
            ==> marked(failures, file) == file,
{
    if 0 <= k < failures.len() && file_key(failures[k].path) == file_key(file.path) && (forall|j: int|
        0 <= j < k ==> file_key((#[trigger] failures[j]).path) != file_key(file.path)) {
        lemma_first_failure(failures, file.path, k);
    }
    if forall|j: int|
        0 <= j < failures.len() ==> file_key((#[trigger] failures[j]).path) != file_key(file.path) {
        lemma_no_failure(failures, file.path);
    }
}

proof fn lemma_first_failure(failures: Seq<FailureView>, path: Seq<char>, k: int)
    requires
        0 <= k < failures.len(),
        file_key(failures[k].path) == file_key(path),
        forall|j: int| 0 <= j < k ==> file_key((#[trigger] failures[j]).path) != file_key(path),
    ensures
        failure_of(failures, path) == Some(failures[k]),
    decreases k,
{
    if k > 0 {
        let rest = failures.drop_first();
        assert(file_key(failures[0].path) != file_key(path));
        assert(rest[k - 1] == failures[k]);
        assert forall|j: int| 0 <= j < k - 1 implies file_key((#[trigger] rest[j]).path) != file_key(path) by {
            assert(rest[j] == failures[j + 1]);
        }
        lemma_first_failure(rest, path, k - 1);
    }
}

proof fn lemma_no_failure(failures: Seq<FailureView>, path: Seq<char>)
    requires
        forall|j: int| 0 <= j < failures.len() ==> file_key((#[trigger] failures[j]).path) != file_key(path),
    ensures
        failure_of(failures, path) is None,
    decreases failures.len(),
{
    if failures.len() > 0 {
        let rest = failures.drop_first();
        assert(file_key(failures[0].path) != file_key(path));
        assert forall|j: int| 0 <= j < rest.len() implies file_key((#[trigger] rest[j]).path) != file_key(
            path,
        ) by {
            assert(rest[j] == failures[j + 1]);
        }
        lemma_no_failure(rest, path);
    }
}

/// A row that names a task belongs to that task alone. One that names none belongs to the tasks of its workflow
/// and encoder whose targets its source matches.
pub proof fn law_rows_belong_to_tasks(d: DiskView, row: Seq<Seq<char>>, t: TaskView, i: int)
    ensures
        history_value(row[14]) matches Some(id) ==> (row_of_task(d, row, t) <==> id == t.id),
        history_value(row[14]) is None && row[1] != mode_label(t.settings.mode) ==> !row_of_task(d, row, t),
        history_value(row[14]) is None && t.settings.mode != ContentMode::Trim && row[11] != encoder_user_name(
            t.settings.encoder,
        ) ==> !row_of_task(d, row, t),
        history_value(row[14]) is None && row[1] == mode_label(t.settings.mode) && t.settings.mode
            != ContentMode::Trim && row[11] == encoder_user_name(t.settings.encoder) ==> (history_value(
            row[15],
        ) matches Some(source) ==> 0 <= i < t.targets.len() && matches_target(d, source, t.targets[i])
            ==> row_of_task(d, row, t)),
{
}

/// A file belongs to a video target if it stands in the same folder under the same stem, without regard to case, and
/// to a folder if it is within it.
pub proof fn law_files_match_their_targets(d: DiskView, path: Seq<char>, target: Seq<char>)
    ensures
        is_folder(d, target) ==> (matches_target(d, path, target) <==> is_within(path, target)),
        !is_folder(d, target) && is_video_name(target) && parent(path) == parent(target) && file_stem(path)
            == file_stem(target) ==> matches_target(d, path, target),
        matches_target(d, target, target),
        !is_folder(d, target) && is_video_name(target) && matches_target(d, path, target) ==> (file_stem(
            path,
        ) matches Some(a) ==> (file_stem(target) matches Some(b) && unicode_lower(a) == unicode_lower(b))),
{
    let c = crate::task_files::lower_components(target);
    assert(c.take(c.len() as int) =~= c);
}

/// A video target that is no folder is listed as done exactly if its task is completed, it was skipped, or it
/// needs no more work.
pub proof fn law_video_targets_are_done(env: SurroundingsView, t: TaskView, target: Seq<char>)
    requires
        !is_folder(env.disk, target),
        is_video_name(target),
    ensures
        target_details(env, t, target).len() == 1,
        target_details(env, t, target)[0].0 == target,
        target_details(env, t, target)[0].1 <==> t.status == QueueStatus::Completed || has_path(
            t.skipped_paths,
            target,
        ) || is_done(env.disk, target, t.settings.mode),
{
}

/// A task row says how many videos it has, or how many items where it has no video yet.
pub proof fn law_amounts_are_worded(counts: TaskDisplayCounts)
    ensures
        counts.files > 0 ==> amount_text(counts) == counted(counts.files as nat, "video"@),
        counts.files == 0 && counts.targets > 0 ==> amount_text(counts) == counted(
            counts.targets as nat,
            "item"@,
        ),
        counts.files == 0 && counts.targets == 0 ==> amount_text(counts) == "Waiting for media"@,
{
}

/// A task row shows its task: its name, its workflow and encoder, and what may be done with it.
pub proof fn law_task_rows_show_their_task(
    b: BoardView,
    env: SurroundingsView,
    points: u16,
    t: TaskView,
)
    ensures
        ({
            let row = task_row(b, env, points, t);
            let counts = counts_on(b, env, t);
            &&& row.title == t.name
            &&& row.subtitle == mode_label(t.settings.mode) + "  ·  "@ + encoder_user_name(
                t.settings.encoder,
            ) + "  ·  "@ + amount_text(counts)
            &&& row.selected <==> b.selection.primary == Some(t.id)
            &&& row.active <==> (b.worker matches Some(w) && w.task_id == t.id)
            &&& !row.active ==> row.current_item_progress == 0
            &&& t.status == QueueStatus::Pending ==> row.can_run && row.can_reorder && !row.can_retry
            &&& t.status == QueueStatus::Running || t.status == QueueStatus::Paused ==> !row.can_run
                && !row.can_reorder && !row.can_retry
            &&& t.status == QueueStatus::Failed || t.status == QueueStatus::Cancelled ==> row.can_run
                && row.can_retry && !row.can_reorder
            &&& t.error matches Some(e) ==> row.error_detail == e
            &&& t.error is None ==> row.error_detail.len() == 0
            &&& row.has_progress <==> counts.files > 0
            &&& row.counts == counts
            &&& counts.failed == 0 ==> row.remaining_label == "Remaining "@ + decimal(
                counts.remaining as nat,
            ) + Seq::<char>::empty()
            &&& counts.failed > 0 ==> row.remaining_label == "Remaining "@ + decimal(
                counts.remaining as nat,
            ) + (" · Failed "@ + decimal(counts.failed as nat))
            &&& row.completed_before_label == "Previous "@ + decimal(row.parts.completed_before as nat)
            &&& row.completed_this_run_label == "This run "@ + decimal(
                row.parts.completed_this_run as nat,
            )
        }),
{
}

/// The progress of a task is worded by its converted files, all files, failures where there are any, and the share.
pub proof fn law_progress_is_worded(counts: TaskDisplayCounts, percent: nat)
    requires
        counts.converted <= counts.files,
    ensures
        counts.failed > 0 ==> progress_text(counts, percent) == decimal(counts.converted as nat) + " / "@
            + decimal(counts.files as nat) + " completed  ·  "@ + (decimal(counts.failed as nat)
            + " failed  ·  "@) + decimal(percent) + "% overall"@,
        counts.failed == 0 ==> progress_text(counts, percent) == decimal(counts.converted as nat) + " / "@
            + decimal(counts.files as nat) + " completed  ·  "@ + decimal(percent) + "% overall"@,
{
    let head = decimal(counts.converted as nat) + " / "@ + decimal(counts.files as nat)
        + " completed  ·  "@;
    assert(head + Seq::<char>::empty() =~= head);
}

/// Without anything else to show, a task lists its targets.
pub proof fn law_empty_tasks_list_their_targets(env: SurroundingsView, t: TaskView)
    requires
        t.targets.len() == 1,
        t.skipped_paths.len() == 0,
        t.settings.mode == ContentMode::PhotoSlideshow,
    ensures
        found_files(env, t, Seq::empty()).len() == 1,
        found_files(env, t, Seq::empty())[0].path == t.targets[0],
{
    let none = ListView { files: Seq::empty(), seen: Seq::empty() };
    let finished = t.status == QueueStatus::Completed;
    let known = with_history(none, env.disk, t, Seq::empty());
    assert(known == none);
    let skipped = with_paths(known, t.skipped_paths, "Completed"@);
    assert(skipped == none);
    let test = crate::task_files::is_media(env.disk);
    reveal(Seq::filter);
    reveal_with_fuel(with_paths, 3);
    assert(t.targets.drop_last().len() == 0);
    assert(t.targets.drop_last().filter(test).len() == 0);
    let media = t.targets.filter(test);
    if test(t.targets.last()) {
        assert(media =~= seq![t.targets[0]]);
        assert(media.drop_last() =~= Seq::<Seq<char>>::empty());
    } else {
        assert(media =~= Seq::<Seq<char>>::empty());
    }
    let shown = with_paths(skipped, media, file_status(finished));
    assert(t.targets.drop_last() =~= Seq::<Seq<char>>::empty());
}

} // verus!
