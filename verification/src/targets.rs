//! What tasks work on: admission, validation, and the files that a task's targets stand for.

use crate::disk::{
    collect_photo_files, collect_video_files, entries_of, exists_on, folder_at, is_done, is_file,
    is_folder, is_photo_path, is_video_path, lists_file, photo_files, should_skip_queue_source,
    video_files, Disk, DiskView,
};
use crate::encoding::slice_texts;
use crate::media_files::{
    converted_directory_suffixes, converted_suffixes, has_photo_filename, is_photo_name,
    is_video_name,
};
use crate::model::{mode_label, ContentMode, QueueSettings, SettingsView};
use crate::natural::{
    drop_equal_neighbours, naturally_sorted, photos_sorted, sort_by_full_path, sort_photos,
    without_neighbours,
};
use crate::output_naming::text_or;
use crate::paths::{
    extension, file_name, has_path, joined, law_parent_undoes_join, law_plain_form_names_the_same,
    lemma_after_last_of_tail, lemma_has_its_paths, lemma_has_path_concat, lemma_one_more_path,
    list_has_path, parent, path_file_name, path_join, path_parent, path_with_name, paths_differ,
    plain, plain_path, plain_paths, plains, same_path, trimmed, with_name,
};
use crate::queue::{task_views, Queue, QueueTask, TaskView};
use crate::text::{
    concat2, concat3, copy_list, decimal, decimal_text, has_prefix, is_digit,
    lemma_decimal_round_trip, list_contains, opt_text, same_text, text_starts_with, texts, to_chars,
};
use vstd::prelude::*;

verus! {

/// Some task has this target.
pub open spec fn is_queued(tasks: Seq<TaskView>, p: Seq<char>) -> bool {
    exists|i: int| 0 <= i < tasks.len() && has_path((#[trigger] tasks[i]).targets, p)
}

/// The targets of every task, in queue order.
pub open spec fn queued_paths(tasks: Seq<TaskView>) -> Seq<Seq<char>>
    decreases tasks.len(),
{
    if tasks.len() == 0 {
        Seq::empty()
    } else {
        queued_paths(tasks.drop_last()) + tasks.last().targets
    }
}

/// The targets of every task, in queue order.
pub fn queued_target_set(queue: &Queue) -> (r: Vec<String>)
    ensures
        texts(r@) == queued_paths(queue@),
{
    let list = queue.tasks();
    let mut r: Vec<String> = Vec::new();
    let mut i: usize = 0;
    assert(texts(r@) =~= queued_paths(queue@.take(0)));
    while i < list.len()
        invariant
            i <= list@.len(),
            task_views(list@) == queue@,
            texts(r@) == queued_paths(queue@.take(i as int)),
        decreases list@.len() - i,
    {
        assert(queue@[i as int] == list@[i as int]@);
        assert(queue@.take(i + 1).drop_last() =~= queue@.take(i as int));
        append_all(&mut r, &list[i].targets);
        i = i + 1;
    }
    assert(queue@.take(i as int) =~= queue@);
    r
}

/// A path is listed among the queued paths exactly if some task has it as a target.
pub proof fn law_queued_paths_are_the_targets(tasks: Seq<TaskView>, p: Seq<char>)
    ensures
        has_path(queued_paths(tasks), p) <==> is_queued(tasks, p),
    decreases tasks.len(),
{
    if tasks.len() > 0 {
        let rest = tasks.drop_last();
        law_queued_paths_are_the_targets(rest, p);
        lemma_has_path_concat(queued_paths(rest), tasks.last().targets, p);
        if is_queued(rest, p) {
            let k = choose|k: int| 0 <= k < rest.len() && has_path((#[trigger] rest[k]).targets, p);
            assert(has_path(tasks[k].targets, p));
        }
        if has_path(tasks.last().targets, p) {
            assert(has_path(tasks[tasks.len() - 1].targets, p));
        }
        if is_queued(tasks, p) {
            let k = choose|k: int|
                0 <= k < tasks.len() && has_path((#[trigger] tasks[k]).targets, p);
            if k < tasks.len() - 1 {
                assert(has_path(rest[k].targets, p));
            }
        }
    }
}

/// An item of a joined list is an item of one of its parts.
pub proof fn lemma_contains_concat(a: Seq<Seq<char>>, b: Seq<Seq<char>>, p: Seq<char>)
    ensures
        (a + b).contains(p) <==> a.contains(p) || b.contains(p),
{
    if a.contains(p) {
        let i = choose|i: int| 0 <= i < a.len() && a[i] == p;
        assert((a + b)[i] == p);
    }
    if b.contains(p) {
        let i = choose|i: int| 0 <= i < b.len() && b[i] == p;
        assert((a + b)[a.len() + i] == p);
    }
    if (a + b).contains(p) {
        let i = choose|i: int| 0 <= i < (a + b).len() && (a + b)[i] == p;
        if i < a.len() {
            assert(a[i] == p);
        } else {
            assert(b[i - a.len()] == p);
        }
    }
}

/// Appends copies of strings.
pub fn append_all(list: &mut Vec<String>, more: &Vec<String>)
    ensures
        texts(final(list)@) == texts(old(list)@) + texts(more@),
{
    let mut i: usize = 0;
    assert(texts(list@) =~= texts(old(list)@) + texts(more@).take(0));
    while i < more.len()
        invariant
            i <= more@.len(),
            texts(list@) == texts(old(list)@) + texts(more@).take(i as int),
        decreases more@.len() - i,
    {
        let ghost before = texts(list@);
        list.push(more[i].clone());
        assert(texts(list@) =~= before.push(texts(more@)[i as int]));
        i = i + 1;
        assert(texts(list@) =~= texts(old(list)@) + texts(more@).take(i as int));
    }
    assert(texts(more@).take(i as int) =~= texts(more@));
}

/// The targets of every task and the watched folders: what a new task may not take.
pub fn queue_admission_occupied_paths(queue: &Queue, watched_roots: &Vec<String>) -> (r: Vec<String>)
    ensures
        texts(r@) == queued_paths(queue@) + texts(watched_roots@),
{
    let mut r = queued_target_set(queue);
    append_all(&mut r, watched_roots);
    r
}

/// The videos of a list.
pub open spec fn videos_among(d: DiskView, paths: Seq<Seq<char>>) -> Seq<Seq<char>> {
    paths.filter(|p: Seq<char>| is_file(d, p) && is_video_name(p))
}

/// The first video of a list, and how many more there are.
pub fn select_trim_source(disk: &Disk, paths: &Vec<String>) -> (r: (Option<String>, usize))
    ensures
        ({
            let videos = videos_among(disk@, texts(paths@));
            if videos.len() == 0 {
                r.0 is None && r.1 == 0
            } else {
                opt_text(r.0) == Some(videos[0]) && r.1 == videos.len() - 1
            }
        }),
{
    let ghost all = texts(paths@);
    let ghost test = |p: Seq<char>| is_file(disk@, p) && is_video_name(p);
    let mut selected: Option<String> = None;
    let mut more: usize = 0;
    let mut i: usize = 0;
    assert(all.take(0).filter(test).len() == 0);
    while i < paths.len()
        invariant
            i <= paths@.len(),
            all == texts(paths@),
            test == (|p: Seq<char>| is_file(disk@, p) && is_video_name(p)),
            more <= i,
            ({
                let videos = all.take(i as int).filter(test);
                if videos.len() == 0 {
                    selected is None && more == 0
                } else {
                    opt_text(selected) == Some(videos[0]) && more == videos.len() - 1
                }
            }),
        decreases paths@.len() - i,
    {
        proof {
            assert(all.take(i + 1) =~= all.take(i as int).push(all[i as int]));
            all.take(i as int).lemma_filter_push(all[i as int], test);
            assert(all[i as int] == paths@[i as int]@);
        }
        if is_video_path(disk, paths[i].as_str()) {
            if selected.is_some() {
                more = more + 1;
            } else {
                selected = Some(paths[i].clone());
            }
        }
        i = i + 1;
    }
    assert(all.take(i as int) =~= all);
    (selected, more)
}

/// A path that a new video task may take.
pub open spec fn is_admissible(
    d: DiskView,
    mode: ContentMode,
    occupied: Seq<Seq<char>>,
    p: Seq<char>,
) -> bool {
    &&& is_folder(d, p) || (is_file(d, p) && is_video_name(p))
    &&& is_folder(d, p) || !is_done(d, p, mode)
    &&& !has_path(occupied, p)
}

/// The paths of a list that a new video task takes, each once, in their order.
pub open spec fn admitted(
    d: DiskView,
    mode: ContentMode,
    occupied: Seq<Seq<char>>,
    paths: Seq<Seq<char>>,
) -> Seq<Seq<char>>
    decreases paths.len(),
{
    if paths.len() == 0 {
        Seq::empty()
    } else {
        let before = admitted(d, mode, occupied, paths.drop_last());
        if is_admissible(d, mode, occupied, paths.last()) && !has_path(before, paths.last()) {
            before.push(paths.last())
        } else {
            before
        }
    }
}

/// The paths that a new video task takes, and how many are left out.
pub fn collect_new_video_task_targets(
    disk: &Disk,
    paths: &Vec<String>,
    mode: ContentMode,
    occupied: &Vec<String>,
) -> (r: (Vec<String>, usize))
    ensures
        texts(r.0@) == admitted(disk@, mode, texts(occupied@), texts(paths@)),
        r.1 == paths@.len() - r.0@.len(),
{
    let ghost all = texts(paths@);
    let mut targets: Vec<String> = Vec::new();
    let mut skipped: usize = 0;
    let mut i: usize = 0;
    assert(texts(targets@) =~= admitted(disk@, mode, texts(occupied@), all.take(0)));
    while i < paths.len()
        invariant
            i <= paths@.len(),
            all == texts(paths@),
            skipped + targets@.len() == i,
            texts(targets@) == admitted(disk@, mode, texts(occupied@), all.take(i as int)),
        decreases paths@.len() - i,
    {
        let path = paths[i].as_str();
        let ghost before = texts(targets@);
        proof {
            assert(all.take(i + 1).drop_last() =~= all.take(i as int));
            assert(all.take(i + 1).last() == path@);
        }
        let is_dir = disk.is_dir(path);
        let supported = is_dir || is_video_path(disk, path);
        let already_complete = !is_dir && should_skip_queue_source(disk, path, mode);
        if !supported || already_complete || list_has_path(occupied, path) || list_has_path(
            &targets,
            path,
        ) {
            skipped = skipped + 1;
        } else {
            targets.push(path.to_owned());
            assert(texts(targets@) =~= before.push(path@));
        }
        i = i + 1;
    }
    assert(all.take(i as int) =~= all);
    (targets, skipped)
}

/// A new task takes only admissible paths of the list, takes none twice, and passes over an admissible
/// one only where it has that path already.
pub proof fn law_admission_takes_each_path_once(
    d: DiskView,
    mode: ContentMode,
    occupied: Seq<Seq<char>>,
    paths: Seq<Seq<char>>,
)
    ensures
        paths_differ(admitted(d, mode, occupied, paths)),
        forall|i: int|
            0 <= i < admitted(d, mode, occupied, paths).len() ==> is_admissible(
                d,
                mode,
                occupied,
                #[trigger] admitted(d, mode, occupied, paths)[i],
            ) && paths.contains(admitted(d, mode, occupied, paths)[i]),
        forall|k: int|
            0 <= k < paths.len() && is_admissible(d, mode, occupied, #[trigger] paths[k])
                ==> has_path(admitted(d, mode, occupied, paths), paths[k]),
    decreases paths.len(),
{
    let now = admitted(d, mode, occupied, paths);
    if paths.len() > 0 {
        let rest = paths.drop_last();
        let last = paths.last();
        law_admission_takes_each_path_once(d, mode, occupied, rest);
        let before = admitted(d, mode, occupied, rest);
        assert forall|i: int| 0 <= i < now.len() implies is_admissible(
            d,
            mode,
            occupied,
            #[trigger] now[i],
        ) && paths.contains(now[i]) by {
            if i < before.len() {
                assert(now[i] == before[i]);
                assert(rest.contains(before[i]));
                let k = choose|k: int| 0 <= k < rest.len() && rest[k] == before[i];
                assert(paths[k] == before[i]);
            } else {
                assert(paths[paths.len() - 1] == now[i]);
            }
        }
        if now.len() > before.len() {
            lemma_one_more_path(before, last);
        }
        assert forall|k: int|
            0 <= k < paths.len() && is_admissible(d, mode, occupied, #[trigger] paths[k]) implies has_path(
            now,
            paths[k],
        ) by {
            if k < rest.len() {
                assert(rest[k] == paths[k]);
                lemma_has_path_concat(before, seq![last], paths[k]);
                assert(before.push(last) =~= before + seq![last]);
            } else if now.len() > before.len() {
                lemma_has_its_paths(now, now.len() - 1, last);
            }
        }
    }
}

/// The name of a new task: its workflow and its first target.
pub open spec fn task_title(mode: ContentMode, target: Seq<char>) -> Seq<char> {
    mode_label(mode) + " - "@ + match file_name(target) {
        Some(name) => name,
        None => "Untitled"@,
    }
}

pub fn default_task_name(mode: ContentMode, target: &str) -> (r: String)
    ensures
        r@ == task_title(mode, target@),
{
    match path_file_name(target) {
        Some(name) => concat3(mode.label(), " - ", name.as_str()),
        None => concat3(mode.label(), " - ", "Untitled"),
    }
}

/// What is wrong with one target.
pub open spec fn target_error(d: DiskView, mode: ContentMode, p: Seq<char>) -> Option<Seq<char>> {
    if !exists_on(d, p) {
        Some("Path does not exist: "@ + p)
    } else if mode == ContentMode::Trim && is_folder(d, p) {
        Some("Trim mode does not support folders: "@ + p)
    } else if mode == ContentMode::Trim && !(is_file(d, p) && is_video_name(p)) {
        Some("Trim mode requires a video file: "@ + p)
    } else if mode == ContentMode::PhotoSlideshow && is_file(d, p) && !is_photo_name(p) {
        Some("Photo slideshow requires image files: "@ + p)
    } else if mode == ContentMode::PhotoSlideshow && is_folder(d, p) && photo_files(d, p).len()
        == 0 {
        Some("Folder contains no supported images: "@ + p)
    } else if mode != ContentMode::Trim && mode != ContentMode::PhotoSlideshow && is_file(d, p)
        && !is_video_name(p) {
        Some("Video task requires media files: "@ + p)
    } else {
        None
    }
}

/// What is wrong with the first wrong target.
pub open spec fn first_target_error(
    d: DiskView,
    mode: ContentMode,
    targets: Seq<Seq<char>>,
) -> Option<Seq<char>>
    decreases targets.len(),
{
    if targets.len() == 0 {
        None
    } else {
        let before = first_target_error(d, mode, targets.drop_last());
        if before is Some {
            before
        } else {
            target_error(d, mode, targets.last())
        }
    }
}

/// The photos that a slideshow task would show: those chosen, or else all of its targets.
pub open spec fn slideshow_candidates(
    d: DiskView,
    s: SettingsView,
    targets: Seq<Seq<char>>,
) -> Seq<Seq<char>> {
    if s.slideshow_image_paths.len() == 0 {
        all_photos(d, targets)
    } else {
        s.slideshow_image_paths.filter(|p: Seq<char>| is_file(d, p) && is_photo_name(p))
    }
}

/// The photos of every target.
pub open spec fn all_photos(d: DiskView, targets: Seq<Seq<char>>) -> Seq<Seq<char>>
    decreases targets.len(),
{
    if targets.len() == 0 {
        Seq::empty()
    } else {
        all_photos(d, targets.drop_last()) + photo_files(d, targets.last())
    }
}

/// Two paths differ.
pub open spec fn has_two_different(s: Seq<Seq<char>>) -> bool {
    exists|i: int, j: int|
        0 <= i < s.len() && 0 <= j < s.len() && plain(#[trigger] s[i]) != plain(#[trigger] s[j])
}

/// Why a task with these settings cannot have these targets.
pub open spec fn targets_error(
    d: DiskView,
    s: SettingsView,
    targets: Seq<Seq<char>>,
) -> Option<Seq<char>> {
    if targets.len() == 0 {
        Some("Add at least one target path."@)
    } else if first_target_error(d, s.mode, targets) is Some {
        first_target_error(d, s.mode, targets)
    } else if s.mode == ContentMode::Trim && targets.len() != 1 {
        Some("Trim mode requires exactly one video file."@)
    } else if s.mode == ContentMode::PhotoSlideshow && !has_two_different(
        slideshow_candidates(d, s, targets),
    ) {
        Some("Photo slideshow requires at least two images."@)
    } else {
        None
    }
}

fn check_target(disk: &Disk, mode: ContentMode, target: &str) -> (r: Option<String>)
    ensures
        opt_text(r) == target_error(disk@, mode, target@),
{
    let is_dir = disk.is_dir(target);
    let is_file = disk.is_file(target);
    if !is_dir && !is_file {
        return Some(concat2("Path does not exist: ", target));
    }
    match mode {
        ContentMode::Trim => {
            if is_dir {
                return Some(concat2("Trim mode does not support folders: ", target));
            }
            if !is_video_path(disk, target) {
                return Some(concat2("Trim mode requires a video file: ", target));
            }
        },
        ContentMode::PhotoSlideshow => {
            if is_file && !has_photo_filename(target) {
                return Some(concat2("Photo slideshow requires image files: ", target));
            }
            if is_dir {
                let photos = collect_photo_files(disk, target);
                assert(texts(photos@).len() == photos@.len());
                if photos.len() == 0 {
                    return Some(concat2("Folder contains no supported images: ", target));
                }
            }
        },
        _ => {
            if is_file && !is_video_path(disk, target) {
                return Some(concat2("Video task requires media files: ", target));
            }
        },
    }
    None
}

fn photos_of(disk: &Disk, targets: &Vec<String>) -> (r: Vec<String>)
    ensures
        texts(r@) == all_photos(disk@, texts(targets@)),
{
    let ghost all = texts(targets@);
    let mut r: Vec<String> = Vec::new();
    let mut i: usize = 0;
    assert(texts(r@) =~= all_photos(disk@, all.take(0)));
    while i < targets.len()
        invariant
            i <= targets@.len(),
            all == texts(targets@),
            texts(r@) == all_photos(disk@, all.take(i as int)),
        decreases targets@.len() - i,
    {
        assert(all.take(i + 1).drop_last() =~= all.take(i as int));
        assert(all.take(i + 1).last() == targets@[i as int]@);
        let found = collect_photo_files(disk, targets[i].as_str());
        append_all(&mut r, &found);
        i = i + 1;
    }
    assert(all.take(i as int) =~= all);
    r
}

fn photos_among(disk: &Disk, paths: &Vec<String>) -> (r: Vec<String>)
    ensures
        texts(r@) == texts(paths@).filter(
            |p: Seq<char>| is_file(disk@, p) && is_photo_name(p),
        ),
{
    let ghost all = texts(paths@);
    let ghost test = |p: Seq<char>| is_file(disk@, p) && is_photo_name(p);
    let mut r: Vec<String> = Vec::new();
    let mut i: usize = 0;
    assert(texts(r@) =~= all.take(0).filter(test));
    while i < paths.len()
        invariant
            i <= paths@.len(),
            all == texts(paths@),
            test == (|p: Seq<char>| is_file(disk@, p) && is_photo_name(p)),
            texts(r@) == all.take(i as int).filter(test),
        decreases paths@.len() - i,
    {
        let ghost before = texts(r@);
        proof {
            assert(all.take(i + 1) =~= all.take(i as int).push(all[i as int]));
            all.take(i as int).lemma_filter_push(all[i as int], test);
            assert(all[i as int] == paths@[i as int]@);
        }
        if is_photo_path(disk, paths[i].as_str()) {
            r.push(paths[i].clone());
            assert(texts(r@) =~= before.push(all[i as int]));
        }
        i = i + 1;
    }
    assert(all.take(i as int) =~= all);
    r
}

fn two_differ(items: &Vec<String>) -> (r: bool)
    ensures
        r == has_two_different(texts(items@)),
{
    let ghost all = texts(items@);
    let mut i: usize = 1;
    while i < items.len()
        invariant
            1 <= i,
            all == texts(items@),
            forall|k: int| 0 <= k < i && k < all.len() ==> plain(#[trigger] all[k]) == plain(all[0]),
        decreases items@.len() - i,
    {
        assert(all[i as int] == items@[i as int]@ && all[0] == items@[0]@);
        if !same_path(items[i].as_str(), items[0].as_str()) {
            assert(plain(all[i as int]) != plain(all[0]));
            return true;
        }
        i = i + 1;
    }
    false
}

/// Why a task with these settings cannot have these targets.
pub fn validate_task_targets(
    disk: &Disk,
    settings: &QueueSettings,
    targets: &Vec<String>,
) -> (r: Result<(), String>)
    ensures
        match r {
            Ok(_) => targets_error(disk@, settings@, texts(targets@)) is None,
            Err(e) => targets_error(disk@, settings@, texts(targets@)) == Some(e@),
        },
{
    let ghost all = texts(targets@);
    assert(all.len() == targets@.len());
    if targets.len() == 0 {
        return Err("Add at least one target path.".to_owned());
    }
    let mut i: usize = 0;
    assert(first_target_error(disk@, settings@.mode, all.take(0)) is None);
    while i < targets.len()
        invariant
            i <= targets@.len(),
            all == texts(targets@),
            all.len() == targets@.len(),
            targets@.len() > 0,
            first_target_error(disk@, settings@.mode, all.take(i as int)) is None,
        decreases targets@.len() - i,
    {
        proof {
            assert(all.take(i + 1).drop_last() =~= all.take(i as int));
            assert(all.take(i + 1).last() == targets@[i as int]@);
        }
        if let Some(error) = check_target(disk, settings.mode, targets[i].as_str()) {
            proof {
                lemma_first_error_stays(disk@, settings@.mode, all, i + 1);
            }
            return Err(error);
        }
        i = i + 1;
    }
    assert(all.take(i as int) =~= all);
    if settings.mode == ContentMode::Trim && targets.len() != 1 {
        return Err("Trim mode requires exactly one video file.".to_owned());
    }
    if settings.mode == ContentMode::PhotoSlideshow {
        let images = if settings.slideshow_image_paths.len() == 0 {
            photos_of(disk, targets)
        } else {
            photos_among(disk, &settings.slideshow_image_paths)
        };
        assert(texts(images@) == slideshow_candidates(disk@, settings@, all));
        if !two_differ(&images) {
            return Err("Photo slideshow requires at least two images.".to_owned());
        }
    }
    Ok(())
}

proof fn lemma_first_error_stays(d: DiskView, mode: ContentMode, targets: Seq<Seq<char>>, n: int)
    requires
        0 <= n <= targets.len(),
        first_target_error(d, mode, targets.take(n)) is Some,
    ensures
        first_target_error(d, mode, targets) == first_target_error(d, mode, targets.take(n)),
    decreases targets.len() - n,
{
    if n == targets.len() {
        assert(targets.take(n) =~= targets);
    } else {
        assert(targets.take(n + 1).drop_last() =~= targets.take(n));
        lemma_first_error_stays(d, mode, targets, n + 1);
    }
}

/// A task with several files to work through.
pub open spec fn is_aggregate(d: DiskView, t: TaskView) -> bool {
    t.settings.mode != ContentMode::PhotoSlideshow && (t.targets.len() > 1 || exists|i: int|
        0 <= i < t.targets.len() && is_folder(d, #[trigger] t.targets[i]))
}

pub fn task_is_aggregate(disk: &Disk, task: &QueueTask) -> (r: bool)
    ensures
        r == is_aggregate(disk@, task@),
{
    if task.settings.mode == ContentMode::PhotoSlideshow {
        return false;
    }
    assert(task@.targets.len() == task.targets@.len());
    if task.targets.len() > 1 {
        return true;
    }
    if task.targets.len() == 1 {
        assert(task@.targets[0] == task.targets@[0]@);
        return disk.is_dir(task.targets[0].as_str());
    }
    false
}

/// The files that targets stand for: a folder's videos, or the target itself.
pub open spec fn target_files(d: DiskView, targets: Seq<Seq<char>>) -> Seq<Seq<char>>
    decreases targets.len(),
{
    if targets.len() == 0 {
        Seq::empty()
    } else {
        target_files(d, targets.drop_last()) + if is_folder(d, targets.last()) {
            video_files(d, targets.last())
        } else {
            seq![targets.last()]
        }
    }
}

pub open spec fn is_open_work(
    d: DiskView,
    mode: ContentMode,
    queued: Seq<Seq<char>>,
) -> spec_fn(Seq<char>) -> bool {
    |p: Seq<char>| !has_path(queued, p) && !is_done(d, p, mode)
}

/// The files of a task that still need work, in natural order.
pub open spec fn open_files(d: DiskView, t: TaskView, queued: Seq<Seq<char>>) -> Seq<Seq<char>> {
    without_neighbours(
        naturally_sorted(
            target_files(d, t.targets).filter(is_open_work(d, t.settings.mode, queued)),
        ),
    )
}

/// A path is a root or stands below it.
pub open spec fn is_below(p: Seq<char>, root: Seq<char>) -> bool {
    let path = plain(p);
    let top = plain(root);
    path == top || top.len() == 0 || (top.last() == '/' && has_prefix(path, top)) || has_prefix(
        path,
        top + "/"@,
    )
}

pub fn path_is_below(path: &str, root: &str) -> (r: bool)
    ensures
        r == is_below(path@, root@),
{
    let path = plain_path(path);
    let top = plain_path(root);
    let chars = to_chars(top.as_str());
    if same_text(path.as_str(), top.as_str()) || chars.len() == 0 {
        return true;
    }
    if chars[chars.len() - 1] == '/' && text_starts_with(path.as_str(), top.as_str()) {
        return true;
    }
    text_starts_with(path.as_str(), concat2(top.as_str(), "/").as_str())
}

/// The first folder among the targets that a path stands below.
pub open spec fn root_of(d: DiskView, targets: Seq<Seq<char>>, p: Seq<char>) -> Option<Seq<char>>
    decreases targets.len(),
{
    if targets.len() == 0 {
        None
    } else {
        let before = root_of(d, targets.drop_last(), p);
        if before is Some {
            before
        } else if is_folder(d, targets.last()) && is_below(p, targets.last()) {
            Some(targets.last())
        } else {
            None
        }
    }
}

fn find_root(disk: &Disk, targets: &Vec<String>, path: &str) -> (r: Option<String>)
    ensures
        opt_text(r) == root_of(disk@, texts(targets@), path@),
{
    let ghost all = texts(targets@);
    let mut found: Option<String> = None;
    let mut i: usize = 0;
    assert(root_of(disk@, all.take(0), path@) is None);
    while i < targets.len()
        invariant
            i <= targets@.len(),
            all == texts(targets@),
            opt_text(found) == root_of(disk@, all.take(i as int), path@),
        decreases targets@.len() - i,
    {
        assert(all.take(i + 1).drop_last() =~= all.take(i as int));
        assert(all.take(i + 1).last() == targets@[i as int]@);
        if found.is_none() && disk.is_dir(targets[i].as_str()) && path_is_below(
            path,
            targets[i].as_str(),
        ) {
            found = Some(targets[i].clone());
        }
        i = i + 1;
    }
    assert(all.take(i as int) =~= all);
    found
}

fn files_of(disk: &Disk, targets: &Vec<String>) -> (r: Vec<String>)
    ensures
        texts(r@) == target_files(disk@, texts(targets@)),
{
    let ghost all = texts(targets@);
    let mut r: Vec<String> = Vec::new();
    let mut i: usize = 0;
    assert(texts(r@) =~= target_files(disk@, all.take(0)));
    while i < targets.len()
        invariant
            i <= targets@.len(),
            all == texts(targets@),
            texts(r@) == target_files(disk@, all.take(i as int)),
        decreases targets@.len() - i,
    {
        assert(all.take(i + 1).drop_last() =~= all.take(i as int));
        assert(all.take(i + 1).last() == targets@[i as int]@);
        let ghost before = texts(r@);
        if disk.is_dir(targets[i].as_str()) {
            let found = collect_video_files(disk, targets[i].as_str());
            append_all(&mut r, &found);
        } else {
            r.push(targets[i].clone());
            assert(texts(r@) =~= before + seq![all[i as int]]);
        }
        i = i + 1;
    }
    assert(all.take(i as int) =~= all);
    r
}

fn keep_open(disk: &Disk, mode: ContentMode, queued: &Vec<String>, files: &Vec<String>) -> (r: Vec<
    String,
>)
    ensures
        texts(r@) == texts(files@).filter(is_open_work(disk@, mode, texts(queued@))),
{
    let ghost all = texts(files@);
    let ghost test = is_open_work(disk@, mode, texts(queued@));
    let known = plain_paths(queued);
    let mut r: Vec<String> = Vec::new();
    let mut i: usize = 0;
    assert(texts(r@) =~= all.take(0).filter(test));
    while i < files.len()
        invariant
            i <= files@.len(),
            all == texts(files@),
            test == is_open_work(disk@, mode, texts(queued@)),
            texts(known@) == plains(texts(queued@)),
            texts(r@) == all.take(i as int).filter(test),
        decreases files@.len() - i,
    {
        let ghost before = texts(r@);
        proof {
            assert(all.take(i + 1) =~= all.take(i as int).push(all[i as int]));
            all.take(i as int).lemma_filter_push(all[i as int], test);
            assert(all[i as int] == files@[i as int]@);
        }
        let file = files[i].as_str();
        if !list_contains(&known, plain_path(file).as_str()) && !should_skip_queue_source(
            disk,
            file,
            mode,
        ) {
            r.push(file.to_owned());
            assert(texts(r@) =~= before.push(all[i as int]));
        }
        i = i + 1;
    }
    assert(all.take(i as int) =~= all);
    r
}

fn open_files_of(disk: &Disk, task: &QueueTask, queued: &Vec<String>) -> (r: Vec<String>)
    ensures
        texts(r@) == open_files(disk@, task@, texts(queued@)),
{
    let files = files_of(disk, &task.targets);
    let kept = keep_open(disk, task.settings.mode, queued, &files);
    let sorted = sort_by_full_path(&kept);
    drop_equal_neighbours(&sorted)
}

/// The files of a task that still need work, each with the task's folder that it stands below.
pub fn expanded_task_targets(
    disk: &Disk,
    task: &QueueTask,
    already_queued: &Vec<String>,
) -> (r: Vec<(String, Option<String>)>)
    ensures
        ({
            let files = open_files(disk@, task@, texts(already_queued@));
            &&& r@.len() == files.len()
            &&& forall|i: int|
                0 <= i < files.len() ==> (#[trigger] r@[i]).0@ == files[i] && opt_text(r@[i].1)
                    == root_of(disk@, task@.targets, files[i])
        }),
{
    let files = open_files_of(disk, task, already_queued);
    let ghost all = texts(files@);
    let mut r: Vec<(String, Option<String>)> = Vec::new();
    let mut i: usize = 0;
    while i < files.len()
        invariant
            i <= files@.len(),
            all == texts(files@),
            r@.len() == i,
            forall|k: int|
                0 <= k < i ==> (#[trigger] r@[k]).0@ == all[k] && opt_text(r@[k].1) == root_of(
                    disk@,
                    task@.targets,
                    all[k],
                ),
        decreases files@.len() - i,
    {
        assert(all[i as int] == files@[i as int]@);
        let root = find_root(disk, &task.targets, files[i].as_str());
        r.push((files[i].clone(), root));
        i = i + 1;
    }
    r
}

pub open spec fn is_not_in(a: Seq<Seq<char>>, b: Seq<Seq<char>>) -> spec_fn(Seq<char>) -> bool {
    |p: Seq<char>| !has_path(a, p) && !has_path(b, p)
}

/// The files of a task that are left: those that need work and have neither failed nor been skipped.
pub open spec fn remaining_files(
    d: DiskView,
    t: TaskView,
    failed: Seq<Seq<char>>,
) -> Seq<Seq<char>> {
    open_files(d, t, Seq::empty()).filter(is_not_in(failed, t.skipped_paths))
}

pub fn remaining_task_inputs(disk: &Disk, task: &QueueTask, failed: &Vec<String>) -> (r: Vec<String>)
    ensures
        texts(r@) == remaining_files(disk@, task@, texts(failed@)),
{
    let none: Vec<String> = Vec::new();
    assert(texts(none@) =~= Seq::<Seq<char>>::empty());
    let files = open_files_of(disk, task, &none);
    let ghost all = texts(files@);
    let ghost test = is_not_in(texts(failed@), task@.skipped_paths);
    let lost = plain_paths(failed);
    let skipped = plain_paths(&task.skipped_paths);
    let mut r: Vec<String> = Vec::new();
    let mut i: usize = 0;
    assert(texts(r@) =~= all.take(0).filter(test));
    while i < files.len()
        invariant
            i <= files@.len(),
            all == texts(files@),
            test == is_not_in(texts(failed@), task@.skipped_paths),
            texts(lost@) == plains(texts(failed@)),
            texts(skipped@) == plains(task@.skipped_paths),
            texts(r@) == all.take(i as int).filter(test),
        decreases files@.len() - i,
    {
        let ghost before = texts(r@);
        proof {
            assert(all.take(i + 1) =~= all.take(i as int).push(all[i as int]));
            all.take(i as int).lemma_filter_push(all[i as int], test);
            assert(all[i as int] == files@[i as int]@);
        }
        let plain_file = plain_path(files[i].as_str());
        if !list_contains(&lost, plain_file.as_str()) && !list_contains(
            &skipped,
            plain_file.as_str(),
        ) {
            r.push(files[i].clone());
            assert(texts(r@) =~= before.push(all[i as int]));
        }
        i = i + 1;
    }
    assert(all.take(i as int) =~= all);
    r
}

/// Whether running a task again could do anything.
pub open spec fn has_work(d: DiskView, t: TaskView) -> bool {
    if is_aggregate(d, t) {
        remaining_files(d, t, Seq::empty()).len() > 0
    } else if t.targets.len() == 0 || has_path(t.skipped_paths, t.targets[0]) {
        false
    } else {
        match t.settings.mode {
            ContentMode::PhotoSlideshow => true,
            ContentMode::Trim => t.settings.trim_start is Some && t.settings.trim_end is Some,
            _ => !is_done(d, t.targets[0], t.settings.mode),
        }
    }
}

pub fn task_has_remaining_work(disk: &Disk, task: &QueueTask) -> (r: bool)
    ensures
        r == has_work(disk@, task@),
{
    if task_is_aggregate(disk, task) {
        let none: Vec<String> = Vec::new();
        assert(texts(none@) =~= Seq::<Seq<char>>::empty());
        let left = remaining_task_inputs(disk, task, &none);
        assert(texts(left@).len() == left@.len());
        return left.len() > 0;
    }
    assert(task@.targets.len() == task.targets@.len());
    if task.targets.len() == 0 {
        return false;
    }
    let input = task.targets[0].as_str();
    assert(task@.targets[0] == input@);
    if list_has_path(&task.skipped_paths, input) {
        return false;
    }
    match task.settings.mode {
        ContentMode::PhotoSlideshow => true,
        ContentMode::Trim => task.settings.trim_start.is_some() && task.settings.trim_end.is_some(),
        _ => !should_skip_queue_source(disk, input, task.settings.mode),
    }
}

/// The photos of every target in natural order, neighbours never equal.
pub open spec fn slideshow_photos(d: DiskView, targets: Seq<Seq<char>>) -> Seq<Seq<char>> {
    without_neighbours(photos_sorted(all_photos(d, targets)))
}

/// The photos of every target in natural order.
pub fn slideshow_images(disk: &Disk, targets: &Vec<String>) -> (r: Vec<String>)
    ensures
        texts(r@) == slideshow_photos(disk@, texts(targets@)),
{
    let found = photos_of(disk, targets);
    let sorted = sort_photos(&found);
    drop_equal_neighbours(&sorted)
}

/// Chooses the photos of a slideshow task anew from its targets.
pub fn rebuild_slideshow_task_images(disk: &Disk, task: &mut QueueTask)
    ensures
        final(task)@ == if old(task)@.settings.mode == ContentMode::PhotoSlideshow {
            TaskView {
                settings: SettingsView {
                    slideshow_image_paths: slideshow_photos(disk@, old(task)@.targets),
                    slideshow_review_image_paths: slideshow_photos(disk@, old(task)@.targets),
                    ..old(task)@.settings
                },
                ..old(task)@
            }
        } else {
            old(task)@
        },
{
    if task.settings.mode != ContentMode::PhotoSlideshow {
        return;
    }
    let images = slideshow_images(disk, &task.targets);
    task.settings.slideshow_image_paths = copy_list(&images);
    task.settings.slideshow_review_image_paths = images;
}

/// The folder that a slideshow goes into.
pub open spec fn slideshow_folder(d: DiskView, input: Seq<char>) -> Seq<char> {
    if is_folder(d, input) {
        input
    } else {
        match parent(input) {
            Some(folder) => folder,
            None => "."@,
        }
    }
}

/// The names that a slideshow can get, in the order in which they are tried.
pub open spec fn slideshow_name(n: nat) -> Seq<char> {
    if n == 0 {
        "slideshow.mp4"@
    } else {
        "slideshow_"@ + decimal(n) + ".mp4"@
    }
}

pub open spec fn slideshow_output(d: DiskView, input: Seq<char>, n: nat) -> Seq<char> {
    joined(slideshow_folder(d, input), slideshow_name(n))
}

/// The `n`th name is the first that is free.
pub open spec fn is_first_free(d: DiskView, input: Seq<char>, n: nat) -> bool {
    n <= u64::MAX && !exists_on(d, slideshow_output(d, input, n)) && forall|m: nat|
        m < n ==> exists_on(d, #[trigger] slideshow_output(d, input, m))
}

/// The first free name for a slideshow; nothing where every numbered name is taken.
pub open spec fn free_slideshow_output(d: DiskView, input: Seq<char>) -> Option<Seq<char>> {
    if exists|n: nat| is_first_free(d, input, n) {
        Some(slideshow_output(d, input, choose|n: nat| is_first_free(d, input, n)))
    } else {
        None
    }
}

proof fn lemma_first_free(d: DiskView, input: Seq<char>, n: nat)
    requires
        is_first_free(d, input, n),
    ensures
        free_slideshow_output(d, input) == Some(slideshow_output(d, input, n)),
{
    let k = choose|k: nat| is_first_free(d, input, k);
    assert(is_first_free(d, input, k));
    if k < n {
        assert(exists_on(d, slideshow_output(d, input, k)));
    }
    if n < k {
        assert(exists_on(d, slideshow_output(d, input, n)));
    }
}

/// A slideshow goes into the chosen folder, or beside the chosen file, under a name that is free: the name
/// is `slideshow.mp4` or has a number, and all smaller numbers are taken.
pub proof fn law_slideshow_file_is_free(d: DiskView, input: Seq<char>)
    requires
        free_slideshow_output(d, input) is Some,
    ensures
        ({
            let path = free_slideshow_output(d, input)->0;
            &&& !exists_on(d, path)
            &&& extension(path) == Some("mp4"@)
            &&& is_folder(d, input) ==> parent(path) == Some(trimmed(input))
            &&& !is_folder(d, input) && parent(input) is Some ==> parent(path) == Some(
                trimmed(parent(input)->0),
            )
            &&& file_name(path) == Some("slideshow.mp4"@) || exists|n: nat|
                n > 0 && file_name(path) == Some("slideshow_"@ + #[trigger] decimal(n) + ".mp4"@)
            &&& !exists_on(d, joined(slideshow_folder(d, input), "slideshow.mp4"@)) ==> file_name(path)
                == Some("slideshow.mp4"@)
        }),
{
    let n = choose|n: nat| is_first_free(d, input, n);
    assert(is_first_free(d, input, n));
    let base = slideshow_folder(d, input);
    let name = slideshow_name(n);
    lemma_slideshow_names(base, n, n);
    lemma_slideshow_name(base, n);
    reveal_strlit("slideshow.mp4");
    reveal_strlit(".mp4");
    reveal_strlit("mp4");
    let k = name.len() - 3;
    lemma_after_last_of_tail(name.take(k), name.skip(k), '.');
    assert(name.skip(k) =~= "mp4"@);
    assert(name.take(k) + name.skip(k) =~= name);
    assert(name.take(k).last() == '.');
    if n > 0 {
        assert(name == "slideshow_"@ + decimal(n) + ".mp4"@);
        if !exists_on(d, joined(base, "slideshow.mp4"@)) {
            assert(exists_on(d, slideshow_output(d, input, 0)));
        }
    }
}

/// How many files and folders the scan saw that may have the name of a slideshow.
pub open spec fn listed_around(d: DiskView, input: Seq<char>) -> nat {
    d.folders.len() + d.files.len() + entries_of(
        d,
        text_or(parent(slideshow_output(d, input, 0)), Seq::empty()),
    ).len()
}

/// The names of a slideshow are different, and all stand in one folder.
proof fn lemma_slideshow_names(base: Seq<char>, n: nat, m: nat)
    ensures
        parent(joined(base, slideshow_name(n))) == parent(joined(base, slideshow_name(m))),
        parent(joined(base, slideshow_name(n))) is Some,
        file_name(joined(base, slideshow_name(n))) == Some(slideshow_name(n)),
        n != m ==> slideshow_name(n) != slideshow_name(m),
        n != m ==> plain(joined(base, slideshow_name(n))) != plain(joined(base, slideshow_name(m))),
{
    lemma_slideshow_name(base, n);
    lemma_slideshow_name(base, m);
    law_plain_form_names_the_same(joined(base, slideshow_name(n)));
    law_plain_form_names_the_same(joined(base, slideshow_name(m)));
    reveal_strlit("slideshow_");
    reveal_strlit("slideshow.mp4");
    reveal_strlit(".mp4");
    let a = slideshow_name(n);
    let b = slideshow_name(m);
    if n != m && a == b {
        assert(a[9] == b[9]);
        assert("slideshow.mp4"@[9] == '.');
        assert("slideshow_"@[9] == '_');
        assert(n > 0 && m > 0);
        lemma_decimal_round_trip(n);
        lemma_decimal_round_trip(m);
        assert(decimal(n).len() == decimal(m).len());
        assert(a.subrange(10, 10int + decimal(n).len()) =~= decimal(n));
        assert(b.subrange(10, 10int + decimal(m).len()) =~= decimal(m));
    }
}

proof fn lemma_slideshow_name(base: Seq<char>, n: nat)
    ensures
        parent(joined(base, slideshow_name(n))) == Some(trimmed(base)),
        file_name(joined(base, slideshow_name(n))) == Some(slideshow_name(n)),
{
    reveal_strlit(".");
    reveal_strlit("..");
    reveal_strlit("slideshow_");
    reveal_strlit("slideshow.mp4");
    reveal_strlit(".mp4");
    let name = slideshow_name(n);
    lemma_decimal_round_trip(n);
    assert forall|i: int| 0 <= i < name.len() implies name[i] != '/' by {
        if n > 0 {
            if i >= 10 && i < 10 + decimal(n).len() {
                assert(is_digit(decimal(n)[i - 10]));
                assert(name[i] == decimal(n)[i - 10]);
            } else if i < 10 {
                assert(name[i] == "slideshow_"@[i]);
            } else {
                assert(name[i] == ".mp4"@[i - 10 - decimal(n).len()]);
            }
        }
    }
    assert(name.len() > 3);
    law_parent_undoes_join(base, name);
}

/// A place of its own for each name that is taken: that of the folder, the file, or the entry that has
/// it.
spec fn taken_place(d: DiskView, input: Seq<char>, n: nat) -> int {
    let p = slideshow_output(d, input, n);
    let entries = entries_of(d, parent(p)->0);
    if is_folder(d, p) {
        choose|i: int| folder_at(d, p, i)
    } else if d.files.contains(plain(p)) {
        d.folders.len() + choose|i: int| 0 <= i < d.files.len() && d.files[i] == plain(p)
    } else {
        d.folders.len() + d.files.len() + choose|i: int|
            0 <= i < entries.len() && !(#[trigger] entries[i]).is_folder && entries[i].name
                == file_name(p)->0
    }
}

proof fn lemma_taken_places(d: DiskView, input: Seq<char>, n: nat, m: nat)
    requires
        n != m,
        exists_on(d, slideshow_output(d, input, n)),
        exists_on(d, slideshow_output(d, input, m)),
    ensures
        0 <= taken_place(d, input, n) < listed_around(d, input),
        taken_place(d, input, n) != taken_place(d, input, m),
{
    let base = slideshow_folder(d, input);
    lemma_slideshow_names(base, n, m);
    lemma_slideshow_names(base, n, 0);
    lemma_slideshow_names(base, m, 0);
    lemma_taken_place(d, input, n);
    lemma_taken_place(d, input, m);
}

/// What stands at the place of a name that is taken.
proof fn lemma_taken_place(d: DiskView, input: Seq<char>, n: nat)
    requires
        exists_on(d, slideshow_output(d, input, n)),
    ensures
        ({
            let p = slideshow_output(d, input, n);
            let entries = entries_of(
                d,
                text_or(parent(slideshow_output(d, input, 0)), Seq::empty()),
            );
            let i = taken_place(d, input, n);
            let folders = d.folders.len() as int;
            let files = d.files.len() as int;
            ||| 0 <= i < folders && d.folders[i].path == plain(p)
            ||| folders <= i < folders + files && d.files[i - folders] == plain(p)
            ||| folders + files <= i < folders + files + entries.len() && entries[i - folders
                - files].name == slideshow_name(n)
        }),
{
    let p = slideshow_output(d, input, n);
    lemma_slideshow_names(slideshow_folder(d, input), n, 0);
    let entries = entries_of(d, parent(p)->0);
    if is_folder(d, p) {
        let i = choose|i: int| folder_at(d, p, i);
        assert(folder_at(d, p, i));
    } else if d.files.contains(plain(p)) {
        let i = choose|i: int| 0 <= i < d.files.len() && d.files[i] == plain(p);
        assert(d.files[i] == plain(p));
    } else {
        assert(lists_file(entries, file_name(p)->0));
    }
}

/// As long as the scan saw no more files and folders than there are numbers, some name for a slideshow
/// is free.
pub proof fn law_some_slideshow_name_is_free(d: DiskView, input: Seq<char>)
    requires
        listed_around(d, input) <= u64::MAX,
    ensures
        free_slideshow_output(d, input) is Some,
{
    let count = listed_around(d, input);
    if forall|n: nat| n <= count ==> exists_on(d, #[trigger] slideshow_output(d, input, n)) {
        let places = Seq::new(count + 1, |n: int| taken_place(d, input, n as nat));
        assert forall|i: int, j: int| 0 <= i < places.len() && 0 <= j < places.len() && i
            != j implies places[i] != places[j] by {
            assert(exists_on(d, slideshow_output(d, input, i as nat)));
            assert(exists_on(d, slideshow_output(d, input, j as nat)));
            lemma_taken_places(d, input, i as nat, j as nat);
        }
        assert(places.no_duplicates());
        places.unique_seq_to_set();
        let all = vstd::set_lib::set_int_range(0, count as int);
        assert(places.to_set().subset_of(all)) by {
            assert forall|x: int| places.to_set().contains(x) implies all.contains(x) by {
                let i = choose|i: int| 0 <= i < places.len() && places[i] == x;
                assert(exists_on(d, slideshow_output(d, input, i as nat)));
                let j = if i == 0 {
                    1int
                } else {
                    0int
                };
                if count == 0 {
                    lemma_taken_place(d, input, 0);
                    lemma_slideshow_names(slideshow_folder(d, input), 0, 0);
                } else {
                    assert(exists_on(d, slideshow_output(d, input, j as nat)));
                    lemma_taken_places(d, input, i as nat, j as nat);
                }
            }
        }
        vstd::set_lib::lemma_int_range(0, count as int);
        vstd::set_lib::lemma_len_subset(places.to_set(), all);
    } else {
        let n = choose|n: nat| n <= count && !exists_on(d, #[trigger] slideshow_output(d, input, n));
        lemma_least_free(d, input, n);
    }
}

proof fn lemma_least_free(d: DiskView, input: Seq<char>, n: nat)
    requires
        n <= u64::MAX,
        !exists_on(d, slideshow_output(d, input, n)),
    ensures
        free_slideshow_output(d, input) is Some,
    decreases n,
{
    if forall|m: nat| m < n ==> exists_on(d, #[trigger] slideshow_output(d, input, m)) {
        lemma_first_free(d, input, n);
    } else {
        let m = choose|m: nat| m < n && !exists_on(d, #[trigger] slideshow_output(d, input, m));
        lemma_least_free(d, input, m);
    }
}

/// The first free name for a slideshow, which there is unless the disk lists more files than there are
/// numbers.
pub fn next_slideshow_output_path(disk: &Disk, input: &str) -> (r: Option<String>)
    ensures
        opt_text(r) == free_slideshow_output(disk@, input@),
        listed_around(disk@, input@) <= u64::MAX ==> r is Some,
{
    proof {
        if listed_around(disk@, input@) <= u64::MAX {
            law_some_slideshow_name_is_free(disk@, input@);
        }
    }
    let folder = if disk.is_dir(input) {
        input.to_owned()
    } else {
        match path_parent(input) {
            Some(folder) => folder,
            None => ".".to_owned(),
        }
    };
    let first = path_join(folder.as_str(), "slideshow.mp4");
    assert(first@ == slideshow_output(disk@, input@, 0));
    if !disk.has_path(first.as_str()) {
        proof {
            assert(is_first_free(disk@, input@, 0));
            lemma_first_free(disk@, input@, 0);
        }
        return Some(first);
    }
    let mut n: u64 = 0;
    while n < 18_446_744_073_709_551_615
        invariant
            folder@ == slideshow_folder(disk@, input@),
            forall|m: nat|
                m <= n ==> exists_on(disk@, #[trigger] slideshow_output(disk@, input@, m)),
        decreases u64::MAX - n,
    {
        n = n + 1;
        let number = decimal_text(n as u128);
        let name = concat3("slideshow_", number.as_str(), ".mp4");
        let candidate = path_join(folder.as_str(), name.as_str());
        assert(candidate@ == slideshow_output(disk@, input@, n as nat));
        if !disk.has_path(candidate.as_str()) {
            proof {
                assert(is_first_free(disk@, input@, n as nat));
                lemma_first_free(disk@, input@, n as nat);
            }
            return Some(candidate);
        }
    }
    proof {
        if exists|k: nat| is_first_free(disk@, input@, k) {
            let k = choose|k: nat| is_first_free(disk@, input@, k);
            assert(exists_on(disk@, slideshow_output(disk@, input@, k)));
        }
    }
    None
}

/// The characters of an optional string slice.
pub open spec fn opt_slice(o: Option<&str>) -> Option<Seq<char>> {
    match o {
        Some(s) => Some(s@),
        None => None,
    }
}

/// The suffixes that a converted folder may carry, the task's own first.
pub open spec fn rename_suffixes(own: Option<Seq<char>>) -> Seq<Seq<char>> {
    match own {
        Some(suffix) => seq![suffix] + converted_suffixes(),
        None => converted_suffixes(),
    }
}

/// The folder that a finished folder was renamed to.
pub open spec fn renamed_folder(original: Seq<char>, suffix: Seq<char>) -> Seq<char> {
    with_name(original, file_name(original)->0 + " "@ + suffix)
}

/// The first suffix whose folder exists stands at `i`.
pub open spec fn first_renamed(
    d: DiskView,
    original: Seq<char>,
    suffixes: Seq<Seq<char>>,
    i: int,
) -> bool {
    &&& 0 <= i < suffixes.len()
    &&& is_folder(d, renamed_folder(original, suffixes[i]))
    &&& forall|j: int|
        0 <= j < i ==> !is_folder(d, renamed_folder(original, #[trigger] suffixes[j]))
}

/// The folder that a finished folder was renamed to, where there is one.
///
/// `own_suffix` is the suffix of the task's workflow and encoder, without the space before it.
pub fn renamed_conversion_directory(
    disk: &Disk,
    original: &str,
    own_suffix: Option<&str>,
) -> (r: Option<String>)
    ensures
        match r {
            Some(path) => file_name(original@) is Some && exists|i: int| #[trigger]
                first_renamed(disk@, original@, rename_suffixes(opt_slice(own_suffix)), i) && path@
                    == renamed_folder(original@, rename_suffixes(opt_slice(own_suffix))[i]),
            None => file_name(original@) is None || forall|i: int|
                !#[trigger] first_renamed(
                    disk@,
                    original@,
                    rename_suffixes(opt_slice(own_suffix)),
                    i,
                ),
        },
{
    let name = match path_file_name(original) {
        Some(name) => name,
        None => {
            return None;
        },
    };
    let known = converted_directory_suffixes();
    let mut list: Vec<&str> = Vec::new();
    let ghost own = opt_slice(own_suffix);
    if let Some(suffix) = own_suffix {
        list.push(suffix);
    }
    let ghost head = slice_texts(list@);
    let mut i: usize = 0;
    assert(head + converted_suffixes().take(0) =~= head);
    while i < 9
        invariant
            i <= 9,
            slice_texts(known@) == converted_suffixes(),
            slice_texts(list@) == head + converted_suffixes().take(i as int),
        decreases 9 - i,
    {
        let ghost before = slice_texts(list@);
        list.push(known[i]);
        assert(slice_texts(list@) =~= before.push(converted_suffixes()[i as int]));
        i = i + 1;
        assert(slice_texts(list@) =~= head + converted_suffixes().take(i as int));
    }
    assert(converted_suffixes().take(9) =~= converted_suffixes());
    let ghost suffixes = rename_suffixes(own);
    assert(slice_texts(list@) =~= suffixes);
    let mut k: usize = 0;
    while k < list.len()
        invariant
            k <= list@.len(),
            file_name(original@) == Some(name@),
            slice_texts(list@) == suffixes,
            suffixes == rename_suffixes(opt_slice(own_suffix)),
            forall|j: int|
                0 <= j < k ==> !is_folder(
                    disk@,
                    renamed_folder(original@, #[trigger] suffixes[j]),
                ),
        decreases list@.len() - k,
    {
        assert(suffixes[k as int] == list@[k as int]@);
        let renamed = concat3(name.as_str(), " ", list[k]);
        let candidate = path_with_name(original, renamed.as_str());
        if disk.is_dir(candidate.as_str()) {
            assert(first_renamed(disk@, original@, suffixes, k as int));
            return Some(candidate);
        }
        k = k + 1;
    }
    None
}

} // verus!
