//! Counts of a task's files, and how far a task has come.

use crate::clock::counted;
use crate::disk::{
    directory_has_two_photos, files_below, is_done, is_folder, should_skip_queue_source, Descent,
    Disk, DiskView, Wanted,
};
use crate::media_files::{has_video_filename, is_video_name};
use crate::model::{ContentMode, ConversionProgress};
use crate::paths::{has_path, plain, plain_path, plain_paths, plains, same_path};
use crate::queue::{QueueStatus, QueueTask, TaskView};
use crate::summary::{FolderQueueSummary, SummaryView};
use crate::text::{concat2, concat3, decimal, decimal_text, list_contains, texts};
use crate::time::smaller;
use vstd::prelude::*;

verus! {

/// A count, or the largest one that a `usize` holds.
pub open spec fn capped(n: nat) -> usize {
    if n > usize::MAX {
        usize::MAX
    } else {
        n as usize
    }
}

/// The sum of two counts, or the largest count.
pub fn capped_sum(a: usize, b: usize) -> (r: usize)
    ensures
        r == capped((a + b) as nat),
{
    if a > usize::MAX - b {
        usize::MAX
    } else {
        a + b
    }
}

/// The counts that a task shows.
#[derive(Debug, Clone, Copy, PartialEq, Eq, Structural)]
pub struct TaskDisplayCounts {
    pub targets: usize,
    pub folders: usize,
    pub files: usize,
    pub remaining: usize,
    pub converted: usize,
    pub failed: usize,
}

/// The counts of a task before they are capped.
pub struct CountsView {
    pub targets: nat,
    pub folders: nat,
    pub remaining: nat,
    pub converted: nat,
    pub failed: nat,
}

pub open spec fn summary_views(list: Seq<FolderQueueSummary>) -> Seq<SummaryView> {
    list.map_values(|s: FolderQueueSummary| s@)
}

/// The summary of a folder stands at `i`.
pub open spec fn summary_at(list: Seq<SummaryView>, root: Seq<char>, i: int) -> bool {
    &&& 0 <= i < list.len()
    &&& plain(list[i].root) == plain(root)
    &&& forall|j: int| 0 <= j < i ==> plain((#[trigger] list[j]).root) != plain(root)
}

pub open spec fn summary_of(list: Seq<SummaryView>, root: Seq<char>) -> Option<SummaryView> {
    if exists|i: int| summary_at(list, root, i) {
        Some(list[choose|i: int| summary_at(list, root, i)])
    } else {
        None
    }
}

/// What one target adds to the counts.
pub open spec fn target_counts(
    d: DiskView,
    t: TaskView,
    summaries: Seq<SummaryView>,
    failed: Seq<Seq<char>>,
    p: Seq<char>,
) -> CountsView {
    let none = CountsView { targets: 0, folders: 0, remaining: 0, converted: 0, failed: 0 };
    if is_folder(d, p) {
        match summary_of(summaries, p) {
            Some(s) => CountsView {
                targets: 0,
                folders: s.folders,
                remaining: s.remaining,
                converted: s.converted,
                failed: s.failed,
            },
            None => CountsView { folders: 1, ..none },
        }
    } else if !is_video_name(p) {
        none
    } else if has_path(failed, p) {
        CountsView { failed: 1, ..none }
    } else if has_path(t.skipped_paths, p) || t.status == QueueStatus::Completed {
        CountsView { converted: 1, ..none }
    } else if t.status == QueueStatus::Failed || t.status == QueueStatus::Cancelled {
        CountsView { failed: 1, ..none }
    } else if is_done(d, p, t.settings.mode) {
        CountsView { converted: 1, ..none }
    } else {
        CountsView { remaining: 1, ..none }
    }
}

/// What the targets of a video task add up to.
pub open spec fn video_counts(
    d: DiskView,
    t: TaskView,
    summaries: Seq<SummaryView>,
    failed: Seq<Seq<char>>,
    targets: Seq<Seq<char>>,
) -> CountsView
    decreases targets.len(),
{
    if targets.len() == 0 {
        CountsView { targets: 0, folders: 0, remaining: 0, converted: 0, failed: 0 }
    } else {
        let before = video_counts(d, t, summaries, failed, targets.drop_last());
        let here = target_counts(d, t, summaries, failed, targets.last());
        CountsView {
            targets: before.targets + 1,
            folders: before.folders + here.folders,
            remaining: before.remaining + here.remaining,
            converted: before.converted + here.converted,
            failed: before.failed + here.failed,
        }
    }
}

/// Two photos are chosen, or some target folder holds two.
pub open spec fn is_valid_slideshow(d: DiskView, t: TaskView) -> bool {
    t.settings.slideshow_image_paths.len() >= 2 || exists|i: int|
        0 <= i < t.targets.len() && is_folder(d, #[trigger] t.targets[i]) && files_below(
            d,
            t.targets[i],
            Descent::All,
            Wanted::Photos,
        ).len() >= 2
}

pub open spec fn folder_targets(d: DiskView) -> spec_fn(Seq<char>) -> bool {
    |p: Seq<char>| is_folder(d, p)
}

/// The counts of a task: one slideshow, or the files of its targets.
pub open spec fn task_counts(
    d: DiskView,
    t: TaskView,
    summaries: Seq<SummaryView>,
    failed: Seq<Seq<char>>,
) -> CountsView {
    if t.settings.mode == ContentMode::PhotoSlideshow {
        let valid = is_valid_slideshow(d, t);
        let done = valid && t.status == QueueStatus::Completed;
        CountsView {
            targets: t.targets.len(),
            folders: t.targets.filter(folder_targets(d)).len(),
            remaining: if valid && !done {
                1
            } else {
                0
            },
            converted: if done {
                1
            } else {
                0
            },
            failed: 0,
        }
    } else {
        video_counts(d, t, summaries, failed, t.targets)
    }
}

/// The counts as they are shown; the files are the remaining, the converted, and the failed ones.
pub open spec fn shown_counts(c: CountsView) -> TaskDisplayCounts {
    TaskDisplayCounts {
        targets: capped(c.targets),
        folders: capped(c.folders),
        files: capped(c.remaining + c.converted + c.failed),
        remaining: capped(c.remaining),
        converted: capped(c.converted),
        failed: capped(c.failed),
    }
}

fn find_summary<'a>(list: &'a Vec<FolderQueueSummary>, root: &str) -> (r: Option<
    &'a FolderQueueSummary,
>)
    ensures
        match r {
            Some(s) => summary_of(summary_views(list@), root@) == Some(s@),
            None => summary_of(summary_views(list@), root@) is None,
        },
{
    let ghost all = summary_views(list@);
    let mut i: usize = 0;
    while i < list.len()
        invariant
            i <= list@.len(),
            all == summary_views(list@),
            forall|j: int| 0 <= j < i ==> plain((#[trigger] all[j]).root) != plain(root@),
        decreases list@.len() - i,
    {
        assert(all[i as int] == list@[i as int]@);
        if same_path(list[i].root.as_str(), root) {
            proof {
                assert(summary_at(all, root@, i as int));
                let k = choose|k: int| summary_at(all, root@, k);
                assert(summary_at(all, root@, k));
                assert(k == i);
            }
            return Some(&list[i]);
        }
        i = i + 1;
    }
    None
}

fn slideshow_is_valid(disk: &Disk, task: &QueueTask) -> (r: bool)
    ensures
        r == is_valid_slideshow(disk@, task@),
{
    assert(task@.settings.slideshow_image_paths.len()
        == task.settings.slideshow_image_paths@.len());
    if task.settings.slideshow_image_paths.len() >= 2 {
        return true;
    }
    let mut i: usize = 0;
    while i < task.targets.len()
        invariant
            i <= task.targets@.len(),
            task@.settings.slideshow_image_paths.len() < 2,
            forall|k: int|
                0 <= k < i ==> !(is_folder(disk@, #[trigger] task@.targets[k]) && files_below(
                    disk@,
                    task@.targets[k],
                    Descent::All,
                    Wanted::Photos,
                ).len() >= 2),
        decreases task.targets@.len() - i,
    {
        assert(task@.targets[i as int] == task.targets@[i as int]@);
        let target = task.targets[i].as_str();
        if disk.is_dir(target) && directory_has_two_photos(disk, target) {
            return true;
        }
        i = i + 1;
    }
    false
}

fn count_folders(disk: &Disk, targets: &Vec<String>) -> (r: usize)
    ensures
        r == texts(targets@).filter(folder_targets(disk@)).len(),
{
    let ghost all = texts(targets@);
    let ghost test = folder_targets(disk@);
    let mut r: usize = 0;
    let mut i: usize = 0;
    assert(all.take(0).filter(test).len() == 0);
    while i < targets.len()
        invariant
            i <= targets@.len(),
            all == texts(targets@),
            test == folder_targets(disk@),
            r <= i,
            r == all.take(i as int).filter(test).len(),
        decreases targets@.len() - i,
    {
        proof {
            assert(all.take(i + 1) =~= all.take(i as int).push(all[i as int]));
            all.take(i as int).lemma_filter_push(all[i as int], test);
            assert(all[i as int] == targets@[i as int]@);
        }
        if disk.is_dir(targets[i].as_str()) {
            r = r + 1;
        }
        i = i + 1;
    }
    assert(all.take(i as int) =~= all);
    r
}

fn count_target(
    disk: &Disk,
    task: &QueueTask,
    summaries: &Vec<FolderQueueSummary>,
    Ghost(failed): Ghost<Seq<Seq<char>>>,
    lost: &Vec<String>,
    skipped: &Vec<String>,
    target: &str,
) -> (r: (usize, usize, usize, usize))
    requires
        texts(lost@) == plains(failed),
        texts(skipped@) == plains(task@.skipped_paths),
    ensures
        ({
            let c = target_counts(disk@, task@, summary_views(summaries@), failed, target@);
            r.0 == c.folders && r.1 == c.remaining && r.2 == c.converted && r.3 == c.failed
        }),
{
    if disk.is_dir(target) {
        return match find_summary(summaries, target) {
            Some(s) => (s.folders, s.remaining, s.converted, s.failed),
            None => (1, 0, 0, 0),
        };
    }
    if !has_video_filename(target) {
        return (0, 0, 0, 0);
    }
    let plain_target = plain_path(target);
    if list_contains(lost, plain_target.as_str()) {
        return (0, 0, 0, 1);
    }
    if list_contains(skipped, plain_target.as_str()) {
        return (0, 0, 1, 0);
    }
    match task.status {
        QueueStatus::Completed => (0, 0, 1, 0),
        QueueStatus::Failed | QueueStatus::Cancelled => (0, 0, 0, 1),
        QueueStatus::Pending | QueueStatus::Running | QueueStatus::Paused => {
            if should_skip_queue_source(disk, target, task.settings.mode) {
                (0, 0, 1, 0)
            } else {
                (0, 1, 0, 0)
            }
        },
    }
}

/// The counts that a task shows. `failed` lists the files that failed while it ran.
pub fn task_display_counts(
    disk: &Disk,
    task: &QueueTask,
    summaries: &Vec<FolderQueueSummary>,
    failed: &Vec<String>,
) -> (r: TaskDisplayCounts)
    ensures
        r == shown_counts(
            task_counts(disk@, task@, summary_views(summaries@), texts(failed@)),
        ),
{
    assert(task@.targets.len() == task.targets@.len());
    if task.settings.mode == ContentMode::PhotoSlideshow {
        let valid = slideshow_is_valid(disk, task);
        let done = valid && task.status == QueueStatus::Completed;
        let remaining: usize = if valid && !done {
            1
        } else {
            0
        };
        let converted: usize = if done {
            1
        } else {
            0
        };
        return TaskDisplayCounts {
            targets: task.targets.len(),
            folders: count_folders(disk, &task.targets),
            files: remaining + converted,
            remaining,
            converted,
            failed: 0,
        };
    }
    let ghost all = task@.targets;
    let ghost views = summary_views(summaries@);
    let ghost all_failed = texts(failed@);
    let lost = plain_paths(failed);
    let skipped = plain_paths(&task.skipped_paths);
    let mut folders: usize = 0;
    let mut remaining: usize = 0;
    let mut converted: usize = 0;
    let mut lost_count: usize = 0;
    let mut i: usize = 0;
    assert(all.take(0) =~= Seq::<Seq<char>>::empty());
    while i < task.targets.len()
        invariant
            i <= task.targets@.len(),
            all == task@.targets,
            all.len() == task.targets@.len(),
            views == summary_views(summaries@),
            all_failed == texts(failed@),
            texts(lost@) == plains(all_failed),
            texts(skipped@) == plains(task@.skipped_paths),
            ({
                let c = video_counts(disk@, task@, views, all_failed, all.take(i as int));
                &&& c.targets == i
                &&& folders == capped(c.folders)
                &&& remaining == capped(c.remaining)
                &&& converted == capped(c.converted)
                &&& lost_count == capped(c.failed)
            }),
        decreases task.targets@.len() - i,
    {
        assert(all.take(i + 1).drop_last() =~= all.take(i as int));
        assert(all.take(i + 1).last() == task.targets@[i as int]@);
        let (f, r, c, l) = count_target(
            disk,
            task,
            summaries,
            Ghost(all_failed),
            &lost,
            &skipped,
            task.targets[i].as_str(),
        );
        folders = capped_sum(folders, f);
        remaining = capped_sum(remaining, r);
        converted = capped_sum(converted, c);
        lost_count = capped_sum(lost_count, l);
        i = i + 1;
    }
    assert(all.take(i as int) =~= all);
    TaskDisplayCounts {
        targets: task.targets.len(),
        folders,
        files: capped_sum(capped_sum(remaining, converted), lost_count),
        remaining,
        converted,
        failed: lost_count,
    }
}

/// The files of a task are the remaining, the converted, and the failed ones.
pub proof fn law_task_counts_add_up(
    d: DiskView,
    t: TaskView,
    summaries: Seq<SummaryView>,
    failed: Seq<Seq<char>>,
)
    requires
        ({
            let c = task_counts(d, t, summaries, failed);
            c.remaining + c.converted + c.failed <= usize::MAX
        }),
    ensures
        ({
            let s = shown_counts(task_counts(d, t, summaries, failed));
            s.files == s.remaining + s.converted + s.failed
        }),
{
}

/// The word for the state of a task.
pub open spec fn status_word(status: QueueStatus, has_error: bool) -> Seq<char> {
    match status {
        QueueStatus::Pending => "Ready"@,
        QueueStatus::Running => "Converting"@,
        QueueStatus::Paused => "Paused"@,
        QueueStatus::Completed => if has_error {
            "Finished with issues"@
        } else {
            "Finished"@
        },
        QueueStatus::Failed => "Needs attention"@,
        QueueStatus::Cancelled => "Stopped"@,
    }
}

pub fn friendly_status(status: QueueStatus, has_error: bool) -> (r: &'static str)
    ensures
        r@ == status_word(status, has_error),
{
    match status {
        QueueStatus::Pending => "Ready",
        QueueStatus::Running => "Converting",
        QueueStatus::Paused => "Paused",
        QueueStatus::Completed => {
            if has_error {
                "Finished with issues"
            } else {
                "Finished"
            }
        },
        QueueStatus::Failed => "Needs attention",
        QueueStatus::Cancelled => "Stopped",
    }
}

/// Which photo a slideshow of `total` photos has come to: the share of the playing time, in photos.
pub open spec fn photo_index(total: nat, completed: nat, duration: nat) -> nat {
    let played = smaller(completed as int, duration as int);
    let offset = smaller(played * total, u128::MAX as int) / duration as int;
    smaller(offset + 1, total as int) as nat
}

/// The number of the item that a running task works on, and how many there are.
pub open spec fn item_position(
    t: TaskView,
    counts: TaskDisplayCounts,
    progress: Option<ConversionProgress>,
) -> Option<(usize, usize)> {
    if t.settings.mode == ContentMode::PhotoSlideshow {
        let total = t.settings.slideshow_image_paths.len();
        if total == 0 {
            None
        } else if progress is Some && progress->0.total is Some && progress->0.total->0.nanos > 0 {
            Some(
                (
                    photo_index(
                        total,
                        progress->0.completed.nanos as nat,
                        progress->0.total->0.nanos as nat,
                    ) as usize,
                    total as usize,
                ),
            )
        } else {
            Some((1, total as usize))
        }
    } else if counts.files > 0 {
        Some(
            (
                smaller(counts.converted + counts.failed + 1, counts.files as int) as usize,
                counts.files,
            ),
        )
    } else {
        None
    }
}

fn index_of_photo(total: usize, completed: u128, duration: u128) -> (r: usize)
    requires
        duration > 0,
        total > 0,
    ensures
        r == photo_index(total as nat, completed as nat, duration as nat),
        1 <= r <= total,
{
    let played: u128 = if completed <= duration {
        completed
    } else {
        duration
    };
    let count: u128 = total as u128;
    let limit: u128 = 340_282_366_920_938_463_463_374_607_431_768_211_455;
    let product: u128 = if played > limit / count {
        assert(played * count > limit) by (nonlinear_arith)
            requires
                played > limit / count,
                count > 0,
        ;
        limit
    } else {
        assert(played * count <= limit) by (nonlinear_arith)
            requires
                played <= limit / count,
                count > 0,
        ;
        played * count
    };
    let offset: u128 = product / duration;
    if offset >= count {
        total
    } else {
        offset as usize + 1
    }
}

pub fn active_item_position(
    task: &QueueTask,
    counts: &TaskDisplayCounts,
    progress: Option<ConversionProgress>,
) -> (r: Option<(usize, usize)>)
    ensures
        r == item_position(task@, *counts, progress),
        r matches Some((index, total)) ==> 1 <= index <= total,
{
    if task.settings.mode == ContentMode::PhotoSlideshow {
        assert(task@.settings.slideshow_image_paths.len()
            == task.settings.slideshow_image_paths@.len());
        let total: usize = task.settings.slideshow_image_paths.len();
        if total == 0 {
            return None;
        }
        if let Some(progress) = progress {
            if let Some(duration) = progress.total {
                if duration.nanos > 0 {
                    let index: usize = index_of_photo(
                        total,
                        progress.completed.nanos,
                        duration.nanos,
                    );
                    return Some((index, total));
                }
            }
        }
        return Some((1, total));
    }
    if counts.files == 0 {
        return None;
    }
    let done: usize = capped_sum(counts.converted, counts.failed);
    if done >= counts.files {
        Some((counts.files, counts.files))
    } else {
        Some((done + 1, counts.files))
    }
}

/// How the bar of a task divides: files that were done before the run, files done in it, and whether
/// the file at work counts. Each count is out of `total`.
#[derive(Debug, Clone, Copy, PartialEq, Eq, Structural)]
pub struct ProgressParts {
    pub total: usize,
    pub completed_before: usize,
    pub completed_this_run: usize,
    pub counts_current: bool,
}

pub open spec fn progress_parts(counts: TaskDisplayCounts, before_run: Option<usize>) -> ProgressParts {
    if counts.files == 0 {
        ProgressParts {
            total: 0,
            completed_before: 0,
            completed_this_run: 0,
            counts_current: false,
        }
    } else {
        let before = smaller(
            match before_run {
                Some(n) => n as int,
                None => counts.converted as int,
            },
            counts.files as int,
        );
        let since = if counts.converted > before {
            counts.converted - before
        } else {
            0
        };
        ProgressParts {
            total: counts.files,
            completed_before: before as usize,
            completed_this_run: smaller(since, counts.files - before) as usize,
            counts_current: counts.converted < counts.files,
        }
    }
}

pub fn task_progress_segments(counts: &TaskDisplayCounts, before_run: Option<usize>) -> (r:
    ProgressParts)
    ensures
        r == progress_parts(*counts, before_run),
        r.completed_before + r.completed_this_run <= r.total,
{
    if counts.files == 0 {
        return ProgressParts {
            total: 0,
            completed_before: 0,
            completed_this_run: 0,
            counts_current: false,
        };
    }
    let start: usize = match before_run {
        Some(n) => n,
        None => counts.converted,
    };
    let before: usize = if start <= counts.files {
        start
    } else {
        counts.files
    };
    let since: usize = if counts.converted > before {
        counts.converted - before
    } else {
        0
    };
    let room: usize = counts.files - before;
    let this_run: usize = if since <= room {
        since
    } else {
        room
    };
    ProgressParts {
        total: counts.files,
        completed_before: before,
        completed_this_run: this_run,
        counts_current: counts.converted < counts.files,
    }
}

/// What a task shows while files of it have failed and it goes on.
pub open spec fn failure_note(failed: nat) -> Option<Seq<char>> {
    if failed > 0 {
        Some(counted(failed, "file"@) + " failed in this run; conversion is continuing"@)
    } else {
        None
    }
}

pub fn task_run_failure_summary(failed: usize) -> (r: Option<String>)
    ensures
        crate::text::opt_text(r) == failure_note(failed as nat),
{
    if failed > 0 {
        let count = crate::clock::counted_text(failed, "file");
        Some(concat2(count.as_str(), " failed in this run; conversion is continuing"))
    } else {
        None
    }
}

/// What a finished task shows when files of it failed.
pub open spec fn finished_note(failed: nat) -> Seq<char> {
    decimal(failed) + " file(s) failed"@
}

pub fn finished_failure_note(failed: usize) -> (r: String)
    ensures
        r@ == finished_note(failed as nat),
{
    let number = decimal_text(failed as u128);
    concat2(number.as_str(), " file(s) failed")
}

/// What the end of the queue shows.
pub open spec fn completion_text(this_run: nat, previous: nat, failed: nat, remaining: nat) -> Seq<
    char,
> {
    "Queue complete — "@ + decimal(this_run) + " completed this run, "@ + decimal(previous)
        + " already complete, "@ + decimal(failed) + " failed, "@ + decimal(remaining)
        + " remaining"@
}

pub fn completion_summary(this_run: usize, previous: usize, failed: usize, remaining: usize) -> (r:
    String)
    ensures
        r@ == completion_text(this_run as nat, previous as nat, failed as nat, remaining as nat),
{
    let mut r = concat3(
        "Queue complete — ",
        decimal_text(this_run as u128).as_str(),
        " completed this run, ",
    );
    r.append(decimal_text(previous as u128).as_str());
    r.append(" already complete, ");
    r.append(decimal_text(failed as u128).as_str());
    r.append(" failed, ");
    r.append(decimal_text(remaining as u128).as_str());
    r.append(" remaining");
    r
}

} // verus!
