//! What the counts of a watched folder are made of.

use crate::disk::{files_below, is_done, is_folder, set_aside_from, Descent, DiskView, Wanted};
use crate::failures::FailureView;
use crate::media_files::is_video_name;
use crate::model::{ContentMode, Encoder};
use crate::paths::{file_name, has_path, is_path};
use crate::queue::{QueueStatus, TaskView};
use crate::summary::{
    converted_key, file_key, folder_activity, folder_summary, found_renamed, is_video,
    scanned_states, status_state, summary_status, videos_of_all, with_converted, with_files,
    with_public, with_task, works_on, SummaryFileState, SummaryView,
};
use crate::targets::{first_renamed, rename_suffixes, renamed_folder};
use crate::text::has_prefix;
use vstd::prelude::*;

verus! {

/// Some file of a list has this key.
pub open spec fn has_file_key(files: Seq<Seq<char>>, key: Seq<char>) -> bool {
    exists|i: int| 0 <= i < files.len() && file_key(#[trigger] files[i]) == key
}

proof fn lemma_states_of_files(
    m: Map<Seq<char>, SummaryFileState>,
    files: Seq<Seq<char>>,
    state: SummaryFileState,
    key: Seq<char>,
)
    ensures
        has_file_key(files, key) ==> with_files(m, files, state).contains_key(key) && with_files(
            m,
            files,
            state,
        )[key] == state,
        !has_file_key(files, key) ==> (with_files(m, files, state).contains_key(key) <==> m.contains_key(
            key,
        )) && with_files(m, files, state)[key] == m[key],
    decreases files.len(),
{
    if files.len() > 0 {
        let rest = files.drop_last();
        lemma_states_of_files(m, rest, state, key);
        if has_file_key(files, key) && file_key(files.last()) != key {
            let i = choose|i: int| 0 <= i < files.len() && file_key(#[trigger] files[i]) == key;
            assert(rest[i] == files[i]);
        }
        if !has_file_key(files, key) {
            assert(files[files.len() - 1] == files.last());
            if has_file_key(rest, key) {
                let i = choose|i: int| 0 <= i < rest.len() && file_key(#[trigger] rest[i]) == key;
                assert(files[i] == rest[i]);
            }
        }
    }
}

/// A task's word on a file: one that it skipped is converted, else one that failed has failed, else a video
/// among its targets is as its status says.
pub proof fn law_task_tells_of_its_files(
    m: Map<Seq<char>, SummaryFileState>,
    t: TaskView,
    failed: Seq<Seq<char>>,
    p: Seq<char>,
)
    ensures
        has_file_key(t.skipped_paths, file_key(p)) ==> with_task(m, t, failed).contains_key(file_key(p))
            && with_task(m, t, failed)[file_key(p)] == SummaryFileState::Converted,
        !has_file_key(t.skipped_paths, file_key(p)) && has_file_key(failed, file_key(p)) ==> with_task(
            m,
            t,
            failed,
        ).contains_key(file_key(p)) && with_task(m, t, failed)[file_key(p)] == SummaryFileState::Failed,
        !has_file_key(t.skipped_paths, file_key(p)) && !has_file_key(failed, file_key(p))
            && t.targets.contains(p) && is_video_name(p) ==> with_task(m, t, failed).contains_key(
            file_key(p),
        ) && with_task(m, t, failed)[file_key(p)] == match t.status {
            QueueStatus::Completed => SummaryFileState::Converted,
            QueueStatus::Failed => SummaryFileState::Failed,
            QueueStatus::Cancelled => SummaryFileState::Failed,
            QueueStatus::Pending => SummaryFileState::Remaining,
            QueueStatus::Running => SummaryFileState::Remaining,
            QueueStatus::Paused => SummaryFileState::Remaining,
        },
{
    let key = file_key(p);
    let videos = t.targets.filter(is_video());
    let a = with_files(m, videos, status_state(t.status));
    let b = with_files(a, failed, SummaryFileState::Failed);
    lemma_states_of_files(m, videos, status_state(t.status), key);
    lemma_states_of_files(a, failed, SummaryFileState::Failed, key);
    lemma_states_of_files(b, t.skipped_paths, SummaryFileState::Converted, key);
    if t.targets.contains(p) && is_video_name(p) {
        let i = choose|i: int| 0 <= i < t.targets.len() && t.targets[i] == p;
        t.targets.lemma_filter_contains(is_video(), i);
        let k = choose|k: int| 0 <= k < videos.len() && videos[k] == p;
        assert(file_key(videos[k]) == key);
    }
}

proof fn lemma_public_files(
    m: Map<Seq<char>, SummaryFileState>,
    d: DiskView,
    mode: ContentMode,
    files: Seq<Seq<char>>,
    key: Seq<char>,
)
    ensures
        has_file_key(files, key) || m.contains_key(key) ==> with_public(m, d, mode, files).contains_key(
            key,
        ),
        m.contains_key(key) && m[key] != SummaryFileState::Remaining ==> with_public(
            m,
            d,
            mode,
            files,
        )[key] == m[key],
        !m.contains_key(key) && with_public(m, d, mode, files).contains_key(key) ==> with_public(
            m,
            d,
            mode,
            files,
        )[key] != SummaryFileState::Failed,
        with_public(m, d, mode, files).contains_key(key) && with_public(m, d, mode, files)[key]
            == SummaryFileState::Converted && !(m.contains_key(key) && m[key]
            == SummaryFileState::Converted) ==> exists|i: int|
            0 <= i < files.len() && file_key(#[trigger] files[i]) == key && is_done(d, files[i], mode),
    decreases files.len(),
{
    if files.len() > 0 {
        let rest = files.drop_last();
        lemma_public_files(m, d, mode, rest, key);
        let before = with_public(m, d, mode, rest);
        if has_file_key(files, key) && file_key(files.last()) != key {
            let i = choose|i: int| 0 <= i < files.len() && file_key(#[trigger] files[i]) == key;
            assert(rest[i] == files[i]);
        }
        if with_public(m, d, mode, files).contains_key(key) && with_public(m, d, mode, files)[key]
            == SummaryFileState::Converted && !(m.contains_key(key) && m[key]
            == SummaryFileState::Converted) {
            if before.contains_key(key) && before[key] == SummaryFileState::Converted {
                let i = choose|i: int|
                    0 <= i < rest.len() && file_key(#[trigger] rest[i]) == key && is_done(
                        d,
                        rest[i],
                        mode,
                    );
                assert(files[i] == rest[i]);
            } else {
                assert(files[files.len() - 1] == files.last());
                assert(file_key(files.last()) == key && is_done(d, files.last(), mode));
            }
        }
    }
}

proof fn lemma_done_files_are_not_remaining(
    m: Map<Seq<char>, SummaryFileState>,
    d: DiskView,
    mode: ContentMode,
    files: Seq<Seq<char>>,
    i: int,
)
    requires
        0 <= i < files.len(),
        is_done(d, files[i], mode),
    ensures
        with_public(m, d, mode, files)[file_key(files[i])] != SummaryFileState::Remaining,
        with_public(m, d, mode, files).contains_key(file_key(files[i])),
    decreases files.len(),
{
    let rest = files.drop_last();
    if i < rest.len() {
        assert(rest[i] == files[i]);
        lemma_done_files_are_not_remaining(m, d, mode, rest, i);
    }
}

/// Every video that stands openly in a watched folder is counted: as converted or failed where it needs no more
/// work, and as remaining where it needs some and no task tells otherwise.
pub proof fn law_open_videos_are_counted(
    m: Map<Seq<char>, SummaryFileState>,
    d: DiskView,
    root: Seq<char>,
    mode: ContentMode,
    own: Option<Seq<char>>,
    i: int,
)
    requires
        is_folder(d, root),
        0 <= i < files_below(d, root, Descent::Unconverted, Wanted::Videos).len(),
        mode == ContentMode::CameraVideos || has_prefix(
            files_below(d, root, Descent::Unconverted, Wanted::Videos)[i],
            "/"@,
        ),
    ensures
        ({
            let files = files_below(d, root, Descent::Unconverted, Wanted::Videos);
            let key = file_key(files[i]);
            let states = scanned_states(m, d, root, mode, own);
            &&& states.contains_key(key)
            &&& is_done(d, files[i], mode) ==> states[key] != SummaryFileState::Remaining
            &&& m.contains_key(key) && m[key] != SummaryFileState::Remaining ==> states[key] == m[key]
            &&& !m.contains_key(key) && (forall|k: int|
                0 <= k < files.len() && file_key(#[trigger] files[k]) == key ==> !is_done(
                    d,
                    files[k],
                    mode,
                )) ==> states[key] == SummaryFileState::Remaining
            &&& !m.contains_key(key) && is_done(d, files[i], mode) ==> states[key]
                == SummaryFileState::Converted
        }),
{
    let files = files_below(d, root, Descent::Unconverted, Wanted::Videos);
    let aside = videos_of_all(d, set_aside_from(d, root, 0));
    let c = if mode == ContentMode::CameraVideos {
        m
    } else {
        with_converted(m, aside)
    };
    if mode != ContentMode::CameraVideos {
        let key = file_key(files[i]);
        reveal_strlit("/");
        reveal_strlit("converted-dir:");
        assert(files[i].subrange(0, 1)[0] == '/');
        assert(key[0] == '/');
        assert forall|k: int| 0 <= k < aside.len() implies converted_key(#[trigger] aside[k]) != key by {
            assert(converted_key(aside[k])[0] == 'c');
        }
        lemma_converted_files(m, aside, key);
    }
    lemma_public_files(c, d, mode, files, file_key(files[i]));
    if is_done(d, files[i], mode) {
        lemma_done_files_are_not_remaining(c, d, mode, files, i);
    }
}

proof fn lemma_converted_files(
    m: Map<Seq<char>, SummaryFileState>,
    files: Seq<Seq<char>>,
    key: Seq<char>,
)
    ensures
        (forall|k: int| 0 <= k < files.len() ==> converted_key(#[trigger] files[k]) != key) ==> (
        with_converted(m, files).contains_key(key) <==> m.contains_key(key)) && with_converted(m, files)[key]
            == m[key],
        (exists|k: int| 0 <= k < files.len() && converted_key(#[trigger] files[k]) == key)
            ==> with_converted(m, files).contains_key(key) && (!m.contains_key(key) ==> with_converted(
            m,
            files,
        )[key] == SummaryFileState::Converted),
        m.contains_key(key) ==> with_converted(m, files).contains_key(key) && with_converted(m, files)[key]
            == m[key],
    decreases files.len(),
{
    if files.len() > 0 {
        let rest = files.drop_last();
        lemma_converted_files(m, rest, key);
        assert(files[files.len() - 1] == files.last());
        if forall|k: int| 0 <= k < files.len() ==> converted_key(#[trigger] files[k]) != key {
            assert forall|k: int| 0 <= k < rest.len() implies converted_key(#[trigger] rest[k]) != key by {
                assert(rest[k] == files[k]);
            }
        }
        if exists|k: int| 0 <= k < files.len() && converted_key(#[trigger] files[k]) == key {
            let k = choose|k: int| 0 <= k < files.len() && converted_key(#[trigger] files[k]) == key;
            if k < rest.len() {
                assert(rest[k] == files[k]);
            } else {
                let before = with_converted(m, rest);
                if before.contains_key(key) && !m.contains_key(key) {
                    assert(exists|j: int| 0 <= j < rest.len() && converted_key(#[trigger] rest[j]) == key);
                }
            }
        }
    }
}

/// Originals that were put aside below a watched folder count as converted, except with camera videos, which
/// stay where they are.
pub proof fn law_files_put_aside_are_counted(
    m: Map<Seq<char>, SummaryFileState>,
    d: DiskView,
    root: Seq<char>,
    mode: ContentMode,
    own: Option<Seq<char>>,
    i: int,
)
    requires
        is_folder(d, root),
        mode != ContentMode::CameraVideos,
        0 <= i < videos_of_all(d, set_aside_from(d, root, 0)).len(),
        !m.contains_key(converted_key(videos_of_all(d, set_aside_from(d, root, 0))[i])),
    ensures
        ({
            let key = converted_key(videos_of_all(d, set_aside_from(d, root, 0))[i]);
            let states = scanned_states(m, d, root, mode, own);
            states.contains_key(key) && states[key] == SummaryFileState::Converted
        }),
{
    let aside = videos_of_all(d, set_aside_from(d, root, 0));
    let key = converted_key(aside[i]);
    lemma_converted_files(m, aside, key);
    lemma_public_files(
        with_converted(m, aside),
        d,
        mode,
        files_below(d, root, Descent::Unconverted, Wanted::Videos),
        key,
    );
}

/// A folder is at work exactly if some task that works on it runs or is paused.
pub proof fn law_folder_is_at_work(tasks: Seq<TaskView>, root: Seq<char>)
    ensures
        folder_activity(tasks, root) is Some <==> exists|i: int|
            0 <= i < tasks.len() && works_on(#[trigger] tasks[i], root) && (tasks[i].status
                == QueueStatus::Running || tasks[i].status == QueueStatus::Paused),
        folder_activity(tasks, root) matches Some(status) ==> (status == QueueStatus::Running || status
            == QueueStatus::Paused) && exists|i: int|
            0 <= i < tasks.len() && works_on(#[trigger] tasks[i], root) && tasks[i].status == status,
    decreases tasks.len(),
{
    if tasks.len() > 0 {
        let rest = tasks.drop_last();
        law_folder_is_at_work(rest, root);
        assert(tasks[tasks.len() - 1] == tasks.last());
        if works_on(tasks.last(), root) && (tasks.last().status == QueueStatus::Running
            || tasks.last().status == QueueStatus::Paused) {
        } else {
            if exists|i: int|
                0 <= i < tasks.len() && works_on(#[trigger] tasks[i], root) && (tasks[i].status
                    == QueueStatus::Running || tasks[i].status == QueueStatus::Paused) {
                let i = choose|i: int|
                    0 <= i < tasks.len() && works_on(#[trigger] tasks[i], root) && (tasks[i].status
                        == QueueStatus::Running || tasks[i].status == QueueStatus::Paused);
                assert(rest[i] == tasks[i]);
            }
            if folder_activity(rest, root) is Some {
                let status = folder_activity(rest, root)->0;
                let i = choose|i: int|
                    0 <= i < rest.len() && works_on(#[trigger] rest[i], root) && rest[i].status == status;
                assert(tasks[i] == rest[i]);
            }
        }
    }
}

/// A task works on a folder exactly if it comes from it or has it among its targets.
pub proof fn law_tasks_work_on_their_folders(t: TaskView, root: Seq<char>)
    ensures
        works_on(t, root) <==> is_path(t.source_root, root) || has_path(t.targets, root),
        t.source_root == Some(root) ==> works_on(t, root),
{
}

/// The word for a folder: a running or paused task comes first, then failures, then remaining work.
pub proof fn law_words_for_folders(s: SummaryView)
    ensures
        s.active_status == Some(QueueStatus::Running) ==> summary_status(s) == "Running"@,
        s.active_status == Some(QueueStatus::Paused) ==> summary_status(s) == "Paused"@,
        s.active_status is None && s.failed > 0 && s.remaining == 0 ==> summary_status(s) == "Failed"@,
        s.active_status is None && s.failed > 0 && s.remaining > 0 ==> summary_status(s)
            == "Needs attention"@,
        s.active_status is None && s.failed == 0 && s.remaining > 0 ==> summary_status(s) == "Pending"@,
        s.active_status is None && s.failed == 0 && s.remaining == 0 && s.files > 0 ==> summary_status(s)
            == "Completed"@,
        s.active_status is None && s.failed == 0 && s.remaining == 0 && s.files == 0
            ==> summary_status(s) == "Empty"@,
{
}

/// A finished folder is found again beside where it was, under its old name, a space, and a suffix.
pub proof fn law_renamed_folders_are_found(d: DiskView, root: Seq<char>, own: Option<Seq<char>>)
    ensures
        found_renamed(d, root, own) matches Some(renamed) ==> is_folder(d, renamed) && exists|i: int|
            0 <= i < rename_suffixes(own).len() && renamed == renamed_folder(
                root,
                #[trigger] rename_suffixes(own)[i],
            ),
        file_name(root) is Some && found_renamed(d, root, own) is None ==> forall|i: int|
            0 <= i < rename_suffixes(own).len() ==> !is_folder(
                d,
                renamed_folder(root, #[trigger] rename_suffixes(own)[i]),
            ),
{
    let list = rename_suffixes(own);
    if file_name(root) is Some && found_renamed(d, root, own) is None {
        assert forall|i: int| 0 <= i < list.len() implies !is_folder(
            d,
            renamed_folder(root, #[trigger] list[i]),
        ) by {
            if is_folder(d, renamed_folder(root, list[i])) {
                lemma_some_first_renamed(d, root, list, i);
            }
        }
    }
    if found_renamed(d, root, own) is Some {
        let i = choose|i: int| first_renamed(d, root, list, i);
        assert(first_renamed(d, root, list, i));
        assert(list[i] == list[i]);
    }
}

proof fn lemma_some_first_renamed(d: DiskView, root: Seq<char>, list: Seq<Seq<char>>, i: int)
    requires
        0 <= i < list.len(),
        is_folder(d, renamed_folder(root, list[i])),
    ensures
        exists|k: int| first_renamed(d, root, list, k),
    decreases i,
{
    if exists|j: int| 0 <= j < i && is_folder(d, renamed_folder(root, #[trigger] list[j])) {
        let j = choose|j: int| 0 <= j < i && is_folder(d, renamed_folder(root, #[trigger] list[j]));
        lemma_some_first_renamed(d, root, list, j);
    } else {
        assert(first_renamed(d, root, list, i));
    }
}

/// A folder of photos is one slideshow: it is counted where a slideshow task has it and there are two photos,
/// as converted where that task is completed and as remaining where it is not.
pub proof fn law_photo_folders_count_as_one(
    d: DiskView,
    tasks: Seq<TaskView>,
    failures: Seq<FailureView>,
    root: Seq<char>,
    encoder: Encoder,
    own: Option<Seq<char>>,
    i: int,
)
    requires
        0 <= i < tasks.len(),
        tasks[i].settings.mode == ContentMode::PhotoSlideshow,
        has_path(tasks[i].targets, root),
        forall|j: int|
            0 <= j < i ==> !((#[trigger] tasks[j]).settings.mode == ContentMode::PhotoSlideshow && has_path(
                tasks[j].targets,
                root,
            )),
    ensures
        ({
            let s = folder_summary(
                d,
                tasks,
                failures,
                root,
                ContentMode::PhotoSlideshow,
                encoder,
                own,
            );
            let photos = tasks[i].settings.slideshow_image_paths.len() >= 2 || files_below(
                d,
                root,
                Descent::All,
                Wanted::Photos,
            ).len() >= 2;
            &&& !photos ==> s.files == 0 && s.remaining == 0 && s.converted == 0
            &&& photos && tasks[i].status == QueueStatus::Completed ==> s.files == 1 && s.remaining == 0
                && s.converted == 1
            &&& photos && tasks[i].status != QueueStatus::Completed ==> s.files == 1 && s.remaining == 1
                && s.converted == 0
            &&& s.failed == 0
            &&& s.folders == if is_folder(d, root) {
                1nat
            } else {
                0nat
            }
            &&& s.root == root
            &&& tasks[i].status == QueueStatus::Running || tasks[i].status == QueueStatus::Paused
                ==> s.active_status == Some(tasks[i].status)
            &&& tasks[i].status != QueueStatus::Running && tasks[i].status != QueueStatus::Paused
                ==> s.active_status is None
        }),
{
    assert(crate::summary::slideshow_task_at(tasks, root, i));
    let k = choose|k: int| crate::summary::slideshow_task_at(tasks, root, k);
    assert(crate::summary::slideshow_task_at(tasks, root, k));
    assert(k == i);
}

} // verus!
