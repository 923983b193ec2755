//! Which targets a task may have, which files it works through, and what it is called.

use crate::disk::{exists_on, is_done, is_file, is_folder, photo_files, video_files, DiskView};
use crate::media_files::{is_photo_name, is_video_name};
use crate::model::{mode_label, ContentMode, SettingsView};
use crate::paths::{file_name, has_path, plain};
use crate::queue::TaskView;
use crate::stream_policy::lemma_filter_source;
use crate::targets::{
    first_target_error, has_two_different, is_admissible, is_aggregate, is_below, is_open_work,
    root_of, slideshow_candidates, target_error, target_files, targets_error, task_title,
    videos_among,
};
use crate::text::has_prefix;
use vstd::prelude::*;

verus! {

/// A new task is called by its workflow and its first target.
pub proof fn law_new_tasks_and_their_names(mode: ContentMode, target: Seq<char>)
    ensures
        file_name(target) matches Some(name) ==> task_title(mode, target) == mode_label(mode) + " - "@ + name,
        file_name(target) is None ==> task_title(mode, target) == mode_label(mode) + " - "@ + "Untitled"@,
{
}

/// Trimming takes an existing video file and nothing else.
pub proof fn law_targets_of_trimming(d: DiskView, p: Seq<char>)
    ensures
        target_error(d, ContentMode::Trim, p) is None <==> exists_on(d, p) && !is_folder(d, p) && is_file(d, p)
            && is_video_name(p),
        exists_on(d, p) && is_folder(d, p) ==> target_error(d, ContentMode::Trim, p) == Some(
            "Trim mode does not support folders: "@ + p,
        ),
        exists_on(d, p) && !is_folder(d, p) && !is_video_name(p) ==> target_error(d, ContentMode::Trim, p)
            == Some("Trim mode requires a video file: "@ + p),
{
}

/// A slideshow takes existing photos and folders with photos.
pub proof fn law_targets_of_slideshows(d: DiskView, p: Seq<char>)
    ensures
        target_error(d, ContentMode::PhotoSlideshow, p) is None <==> exists_on(d, p) && (is_file(d, p)
            ==> is_photo_name(p)) && (is_folder(d, p) ==> photo_files(d, p).len() > 0),
        exists_on(d, p) && is_file(d, p) && !is_photo_name(p) ==> target_error(
            d,
            ContentMode::PhotoSlideshow,
            p,
        ) == Some("Photo slideshow requires image files: "@ + p),
        exists_on(d, p) && !is_file(d, p) && is_folder(d, p) && photo_files(d, p).len() == 0 ==> target_error(
            d,
            ContentMode::PhotoSlideshow,
            p,
        ) == Some("Folder contains no supported images: "@ + p),
{
}

/// The other workflows take existing folders and videos.
pub proof fn law_targets_of_videos(d: DiskView, mode: ContentMode, p: Seq<char>)
    requires
        mode != ContentMode::Trim,
        mode != ContentMode::PhotoSlideshow,
    ensures
        target_error(d, mode, p) is None <==> exists_on(d, p) && (is_file(d, p) ==> is_video_name(p)),
        exists_on(d, p) && is_file(d, p) && !is_video_name(p) ==> target_error(d, mode, p) == Some(
            "Video task requires media files: "@ + p,
        ),
{
}

/// What does not exist is no target of any workflow.
pub proof fn law_missing_targets(d: DiskView, mode: ContentMode, p: Seq<char>)
    requires
        !exists_on(d, p),
    ensures
        target_error(d, mode, p) == Some("Path does not exist: "@ + p),
{
}

/// The error reported is that of the first wrong target, and there is none where every target is right.
pub proof fn law_first_wrong_target_is_reported(d: DiskView, mode: ContentMode, targets: Seq<Seq<char>>, i: int)
    ensures
        0 <= i < targets.len() && target_error(d, mode, targets[i]) is Some && (forall|j: int|
            0 <= j < i ==> target_error(d, mode, #[trigger] targets[j]) is None) ==> first_target_error(
            d,
            mode,
            targets,
        ) == target_error(d, mode, targets[i]),
        first_target_error(d, mode, targets) is None <==> forall|j: int|
            0 <= j < targets.len() ==> target_error(d, mode, #[trigger] targets[j]) is None,
    decreases targets.len(),
{
    if targets.len() > 0 {
        let rest = targets.drop_last();
        law_first_wrong_target_is_reported(d, mode, rest, i);
        assert(targets[targets.len() - 1] == targets.last());
        assert(forall|j: int| 0 <= j < rest.len() ==> rest[j] == targets[j]);
        if first_target_error(d, mode, rest) is None {
            assert forall|j: int| 0 <= j < rest.len() implies target_error(d, mode, #[trigger] targets[j])
                is None by {
                assert(rest[j] == targets[j]);
            }
        } else {
            let j = choose|j: int|
                0 <= j < rest.len() && !(target_error(d, mode, #[trigger] rest[j]) is None);
            assert(targets[j] == rest[j]);
            if 0 <= i < targets.len() && i == rest.len() {
                assert(target_error(d, mode, targets[j]) is Some);
            }
        }
        if 0 <= i < rest.len() && target_error(d, mode, targets[i]) is Some && (forall|j: int|
            0 <= j < i ==> target_error(d, mode, #[trigger] targets[j]) is None) {
            assert forall|j: int| 0 <= j < i implies target_error(d, mode, #[trigger] rest[j]) is None by {
                assert(rest[j] == targets[j]);
            }
        }
    }
}

/// A task needs a target; trimming has exactly one, and a slideshow at least two different photos.
pub proof fn law_targets_that_are_accepted(d: DiskView, s: SettingsView, targets: Seq<Seq<char>>)
    ensures
        targets.len() == 0 ==> targets_error(d, s, targets) == Some("Add at least one target path."@),
        targets_error(d, s, targets) is None <==> targets.len() > 0 && (forall|j: int|
            0 <= j < targets.len() ==> target_error(d, s.mode, #[trigger] targets[j]) is None) && (s.mode
            == ContentMode::Trim ==> targets.len() == 1) && (s.mode == ContentMode::PhotoSlideshow
            ==> has_two_different(slideshow_candidates(d, s, targets))),
        targets.len() > 1 && s.mode == ContentMode::Trim && (forall|j: int|
            0 <= j < targets.len() ==> target_error(d, s.mode, #[trigger] targets[j]) is None)
            ==> targets_error(d, s, targets) == Some("Trim mode requires exactly one video file."@),
        targets.len() > 0 && s.mode == ContentMode::PhotoSlideshow && (forall|j: int|
            0 <= j < targets.len() ==> target_error(d, s.mode, #[trigger] targets[j]) is None)
            && !has_two_different(slideshow_candidates(d, s, targets)) ==> targets_error(d, s, targets) == Some(
            "Photo slideshow requires at least two images."@,
        ),
{
    law_first_wrong_target_is_reported(d, s.mode, targets, 0);
}

/// A slideshow with chosen photos shows those that are photos on the disk; one without shows the photos of all its
/// targets.
pub proof fn law_photos_of_a_slideshow(d: DiskView, s: SettingsView, targets: Seq<Seq<char>>, p: Seq<char>)
    requires
        s.slideshow_image_paths.len() > 0,
    ensures
        slideshow_candidates(d, s, targets).contains(p) <==> s.slideshow_image_paths.contains(p) && is_file(
            d,
            p,
        ) && is_photo_name(p),
{
    let test = |q: Seq<char>| is_file(d, q) && is_photo_name(q);
    let all = s.slideshow_image_paths;
    let kept = all.filter(test);
    if all.contains(p) && test(p) {
        let i = choose|i: int| 0 <= i < all.len() && all[i] == p;
        all.lemma_filter_contains(test, i);
    }
    if kept.contains(p) {
        let k = choose|k: int| 0 <= k < kept.len() && kept[k] == p;
        lemma_filter_source(all, test, k);
        let i = choose|i: int| 0 <= i < all.len() && #[trigger] all[i] == kept[k] && test(all[i]);
        assert(all.contains(p));
    }
}

/// A new video task takes folders, and videos that still need work, that no task has.
pub proof fn law_paths_for_new_tasks(
    d: DiskView,
    mode: ContentMode,
    occupied: Seq<Seq<char>>,
    p: Seq<char>,
)
    ensures
        is_folder(d, p) ==> (is_admissible(d, mode, occupied, p) <==> !has_path(occupied, p)),
        !is_folder(d, p) ==> (is_admissible(d, mode, occupied, p) <==> is_file(d, p) && is_video_name(p)
            && !is_done(d, p, mode) && !has_path(occupied, p)),
{
}

/// A source for trimming is the first video file of a list.
pub proof fn law_source_for_trimming(d: DiskView, paths: Seq<Seq<char>>, i: int)
    requires
        0 <= i < paths.len(),
        is_file(d, paths[i]) && is_video_name(paths[i]),
        forall|j: int| 0 <= j < i ==> !(is_file(d, #[trigger] paths[j]) && is_video_name(paths[j])),
    ensures
        videos_among(d, paths).len() > 0,
        videos_among(d, paths)[0] == paths[i],
    decreases paths.len(),
{
    reveal(Seq::filter);
    let test = |p: Seq<char>| is_file(d, p) && is_video_name(p);
    let rest = paths.drop_last();
    if i < rest.len() {
        assert(rest[i] == paths[i]);
        assert forall|j: int| 0 <= j < i implies !(is_file(d, #[trigger] rest[j]) && is_video_name(rest[j])) by {
            assert(rest[j] == paths[j]);
        }
        law_source_for_trimming(d, rest, i);
    } else {
        assert(test(paths.last()));
        assert forall|j: int| 0 <= j < rest.len() implies !test(#[trigger] rest[j]) by {
            assert(rest[j] == paths[j]);
        }
        lemma_nothing_passes(rest, test);
    }
}

proof fn lemma_nothing_passes<A>(s: Seq<A>, test: spec_fn(A) -> bool)
    requires
        forall|j: int| 0 <= j < s.len() ==> !test(#[trigger] s[j]),
    ensures
        s.filter(test).len() == 0,
{
    if s.filter(test).len() > 0 {
        lemma_filter_source(s, test, 0);
        let k = choose|k: int| 0 <= k < s.len() && #[trigger] s[k] == s.filter(test)[0] && test(s[k]);
    }
}

/// A video task with a folder or with several targets works through several files; one with a single file does not,
/// nor does a slideshow.
pub proof fn law_tasks_with_several_files(d: DiskView, t: TaskView)
    ensures
        t.settings.mode == ContentMode::PhotoSlideshow ==> !is_aggregate(d, t),
        t.settings.mode != ContentMode::PhotoSlideshow && t.targets.len() > 1 ==> is_aggregate(d, t),
        t.settings.mode != ContentMode::PhotoSlideshow && t.targets.len() == 1 ==> (is_aggregate(d, t)
            <==> is_folder(d, t.targets[0])),
        t.targets.len() == 0 ==> !is_aggregate(d, t),
{
}

/// A task's files are its targets, with every folder replaced by the videos found in it.
pub proof fn law_files_of_targets(d: DiskView, targets: Seq<Seq<char>>, i: int, p: Seq<char>)
    requires
        0 <= i < targets.len(),
    ensures
        !is_folder(d, targets[i]) ==> target_files(d, targets).contains(targets[i]),
        is_folder(d, targets[i]) && video_files(d, targets[i]).contains(p) ==> target_files(
            d,
            targets,
        ).contains(p),
        target_files(d, targets).contains(p) ==> exists|k: int|
            0 <= k < targets.len() && if is_folder(d, #[trigger] targets[k]) {
                video_files(d, targets[k]).contains(p)
            } else {
                targets[k] == p
            },
    decreases targets.len(),
{
    let rest = targets.drop_last();
    let last = targets.last();
    let own = if is_folder(d, last) {
        video_files(d, last)
    } else {
        seq![last]
    };
    let before = target_files(d, rest);
    let all = target_files(d, targets);
    assert(all == before + own);
    assert(targets[targets.len() - 1] == last);
    if i < rest.len() {
        assert(rest[i] == targets[i]);
        law_files_of_targets(d, rest, i, p);
        if before.contains(targets[i]) {
            let k = choose|k: int| 0 <= k < before.len() && before[k] == targets[i];
            assert(all[k] == targets[i]);
        }
        if before.contains(p) {
            let k = choose|k: int| 0 <= k < before.len() && before[k] == p;
            assert(all[k] == p);
        }
    } else {
        if !is_folder(d, last) {
            assert(all[before.len() as int] == last);
        }
        if own.contains(p) {
            let k = choose|k: int| 0 <= k < own.len() && own[k] == p;
            assert(all[before.len() + k] == p);
        }
    }
    if all.contains(p) {
        let k = choose|k: int| 0 <= k < all.len() && all[k] == p;
        if k < before.len() {
            assert(before[k] == p);
            if rest.len() > 0 {
                law_files_of_targets(d, rest, 0, p);
                let j = choose|j: int|
                    0 <= j < rest.len() && if is_folder(d, #[trigger] rest[j]) {
                        video_files(d, rest[j]).contains(p)
                    } else {
                        rest[j] == p
                    };
                assert(targets[j] == rest[j]);
            }
        } else {
            assert(own[k - before.len()] == p);
            assert(own.contains(p));
            if !is_folder(d, last) {
                assert(p == last);
            }
        }
    }
}

/// A file needs work exactly if it is not among those given, and is not done.
pub proof fn law_files_that_need_work(
    d: DiskView,
    mode: ContentMode,
    given: Seq<Seq<char>>,
    p: Seq<char>,
)
    ensures
        is_open_work(d, mode, given)(p) <==> !has_path(given, p) && !is_done(d, p, mode),
{
}

/// A folder is below itself, and so is everything whose path goes on after it with a slash.
pub proof fn law_what_is_below_a_folder(p: Seq<char>, root: Seq<char>)
    ensures
        is_below(root, root),
        has_prefix(plain(p), plain(root) + "/"@) ==> is_below(p, root),
        is_below(p, root) ==> has_prefix(plain(p), plain(root)),
{
    let path = plain(p);
    let top = plain(root);
    if has_prefix(path, top + "/"@) {
        assert(path.subrange(0, (top + "/"@).len() as int) == top + "/"@);
        assert(path.subrange(0, top.len() as int) =~= (top + "/"@).subrange(0, top.len() as int));
        assert((top + "/"@).subrange(0, top.len() as int) =~= top);
    }
    assert(path.subrange(0, path.len() as int) =~= path);
    if top.len() == 0 {
        assert(path.subrange(0, 0) =~= top);
    }
}

/// The root of a file is the first folder among the targets that it is below.
pub proof fn law_root_of_a_file(d: DiskView, targets: Seq<Seq<char>>, p: Seq<char>, i: int)
    requires
        0 <= i < targets.len(),
        is_folder(d, targets[i]) && is_below(p, targets[i]),
        forall|j: int| 0 <= j < i ==> !(is_folder(d, #[trigger] targets[j]) && is_below(p, targets[j])),
    ensures
        root_of(d, targets, p) == Some(targets[i]),
    decreases targets.len(),
{
    let rest = targets.drop_last();
    if i < rest.len() {
        assert(rest[i] == targets[i]);
        assert forall|j: int| 0 <= j < i implies !(is_folder(d, #[trigger] rest[j]) && is_below(p, rest[j])) by {
            assert(rest[j] == targets[j]);
        }
        law_root_of_a_file(d, rest, p, i);
    } else {
        assert forall|j: int| 0 <= j < rest.len() implies !(is_folder(d, #[trigger] rest[j]) && is_below(
            p,
            rest[j],
        )) by {
            assert(rest[j] == targets[j]);
        }
        lemma_no_root(d, rest, p);
    }
}

proof fn lemma_no_root(d: DiskView, targets: Seq<Seq<char>>, p: Seq<char>)
    requires
        forall|j: int|
            0 <= j < targets.len() ==> !(is_folder(d, #[trigger] targets[j]) && is_below(p, targets[j])),
    ensures
        root_of(d, targets, p) is None,
    decreases targets.len(),
{
    if targets.len() > 0 {
        let rest = targets.drop_last();
        assert forall|j: int| 0 <= j < rest.len() implies !(is_folder(d, #[trigger] rest[j]) && is_below(
            p,
            rest[j],
        )) by {
            assert(rest[j] == targets[j]);
        }
        assert(targets[targets.len() - 1] == targets.last());
        lemma_no_root(d, rest, p);
    }
}

} // verus!
