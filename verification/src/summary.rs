//! Counts of files: per watched folder and per task.

use crate::disk::{
    directory_has_two_photos, files_below, folders_below, is_done, is_folder, set_aside_from,
    should_skip_queue_source, Descent, Disk, DiskView, Wanted,
};
use crate::failures::{failed_paths, FailureView, RunFailures};
use crate::media_files::{has_video_filename, is_video_name};
use crate::model::{ContentMode, Encoder};
use crate::queue::{task_views, Queue, QueueStatus, QueueTask, TaskView};
use crate::targets::{
    first_renamed, opt_slice, rename_suffixes, renamed_conversion_directory, renamed_folder,
};
use crate::text::{ascii_lower, ascii_lowercase, concat2, opt_text, same_text, texts};
use crate::paths::{file_name, has_path, is_path, list_has_path, same_path};
use std::collections::VecDeque;
use vstd::prelude::*;

verus! {

/// What is known of one file of a folder.
#[derive(Debug, Clone, Copy, PartialEq, Eq, Structural)]
pub enum SummaryFileState {
    Remaining,
    Converted,
    Failed,
}

/// The key by which a summary knows a file.
pub open spec fn file_key(p: Seq<char>) -> Seq<char> {
    ascii_lower(p)
}

/// The key of a file in a folder of converted files.
pub open spec fn converted_key(p: Seq<char>) -> Seq<char> {
    "converted-dir:"@ + file_key(p)
}

pub fn summary_path_key(path: &str) -> (r: String)
    ensures
        r@ == file_key(path@),
{
    ascii_lowercase(path)
}

/// The states of files by their keys.
struct FileStates {
    keys: Vec<String>,
    states: Vec<SummaryFileState>,
}

/// The map that parallel lists of different keys and of states stand for.
pub open spec fn states_map(
    keys: Seq<Seq<char>>,
    states: Seq<SummaryFileState>,
) -> Map<Seq<char>, SummaryFileState> {
    Map::new(|k: Seq<char>| keys.contains(k), |k: Seq<char>| states[keys.index_of(k)])
}

/// The files in a state.
pub open spec fn files_in(m: Map<Seq<char>, SummaryFileState>, s: SummaryFileState) -> Set<
    Seq<char>,
> {
    m.dom().filter(|k: Seq<char>| m[k] == s)
}

/// How many files are in a state.
pub open spec fn count_in(m: Map<Seq<char>, SummaryFileState>, s: SummaryFileState) -> nat {
    files_in(m, s).len()
}

impl FileStates {
    spec fn wf(self) -> bool {
        self.keys@.len() == self.states@.len() && texts(self.keys@).no_duplicates()
    }

    spec fn view(&self) -> Map<Seq<char>, SummaryFileState> {
        states_map(texts(self.keys@), self.states@)
    }

    fn new() -> (r: FileStates)
        ensures
            r.wf(),
            r.view() == Map::<Seq<char>, SummaryFileState>::empty(),
    {
        let r = FileStates { keys: Vec::new(), states: Vec::new() };
        assert(r.view() =~= Map::<Seq<char>, SummaryFileState>::empty());
        r
    }

    fn find(&self, key: &str) -> (r: Option<usize>)
        requires
            self.wf(),
        ensures
            match r {
                Some(i) => i < self.keys@.len() && texts(self.keys@)[i as int] == key@ && texts(
                    self.keys@,
                ).index_of(key@) == i && self.view().contains_key(key@) && self.view()[key@]
                    == self.states@[i as int],
                None => !self.view().contains_key(key@) && !texts(self.keys@).contains(key@),
            },
    {
        let mut i: usize = 0;
        while i < self.keys.len()
            invariant
                i <= self.keys@.len(),
                texts(self.keys@).no_duplicates(),
                self.keys@.len() == self.states@.len(),
                forall|k: int| 0 <= k < i ==> #[trigger] texts(self.keys@)[k] != key@,
            decreases self.keys@.len() - i,
        {
            assert(texts(self.keys@)[i as int] == self.keys@[i as int]@);
            if same_text(self.keys[i].as_str(), key) {
                proof {
                    let all = texts(self.keys@);
                    assert(all.contains(key@));
                    let k = all.index_of(key@);
                    assert(all[k] == key@);
                }
                return Some(i);
            }
            i = i + 1;
        }
        None
    }

    /// Sets the state of a file.
    fn insert(&mut self, key: String, state: SummaryFileState)
        requires
            old(self).wf(),
        ensures
            final(self).wf(),
            final(self).view() == old(self).view().insert(key@, state),
    {
        match self.find(key.as_str()) {
            Some(i) => {
                let ghost before = self.view();
                let ghost all = texts(self.keys@);
                self.states[i] = state;
                proof {
                    assert(texts(self.keys@) == all);
                    assert(self.view() =~= before.insert(key@, state)) by {
                        assert forall|k: Seq<char>| before.insert(key@, state).contains_key(k)
                            implies self.view()[k] == before.insert(key@, state)[k] by {
                            let at = all.index_of(k);
                            assert(all[at] == k);
                        }
                    }
                }
            },
            None => {
                let ghost before = self.view();
                let ghost all = texts(self.keys@);
                let ghost old_states = self.states@;
                let ghost new_key = key@;
                self.keys.push(key);
                self.states.push(state);
                proof {
                    assert(texts(self.keys@) =~= all.push(new_key));
                    let now = texts(self.keys@);
                    assert forall|i: int, j: int| 0 <= i < now.len() && 0 <= j < now.len() && i
                        != j implies now[i] != now[j] by {
                        if i < all.len() && j < all.len() {
                            assert(all[i] != all[j]);
                        } else if i < all.len() {
                            assert(all.contains(all[i]));
                        } else {
                            assert(all.contains(all[j]));
                        }
                    }
                }
                proof {
                    let now = texts(self.keys@);
                    assert(self.view() =~= before.insert(new_key, state)) by {
                        assert forall|k: Seq<char>| #[trigger]
                            now.contains(k) <==> all.contains(k) || k == new_key by {
                            if all.contains(k) {
                                let i = all.index_of(k);
                                assert(now[i] == k);
                            }
                            if k == new_key {
                                assert(now[all.len() as int] == k);
                            }
                            if now.contains(k) && k != new_key {
                                let i = now.index_of(k);
                                assert(all[i] == k);
                            }
                        }
                        assert forall|k: Seq<char>| now.contains(k) implies #[trigger] self.view()[k]
                            == before.insert(new_key, state)[k] by {
                            let i = now.index_of(k);
                            assert(now[i] == k);
                            if k != new_key {
                                let j = all.index_of(k);
                                assert(all[j] == k);
                                assert(now[j] == k);
                                assert(i == j);
                            } else {
                                assert(now[all.len() as int] == k);
                                assert(i == all.len());
                            }
                        }
                    }
                }
            },
        }
    }

    /// The state of a file.
    fn get(&self, key: &str) -> (r: Option<SummaryFileState>)
        requires
            self.wf(),
        ensures
            match r {
                Some(s) => self.view().contains_key(key@) && self.view()[key@] == s,
                None => !self.view().contains_key(key@),
            },
    {
        match self.find(key) {
            Some(i) => {
                Some(self.states[i])
            },
            None => None,
        }
    }

    /// How many files are known.
    fn len(&self) -> (r: usize)
        requires
            self.wf(),
        ensures
            self.view().dom().finite(),
            r == self.view().dom().len(),
    {
        proof {
            let all = texts(self.keys@);
            all.unique_seq_to_set();
            assert(self.view().dom() =~= all.to_set());
        }
        self.keys.len()
    }

    /// How many files are in a state.
    fn count(&self, state: SummaryFileState) -> (r: usize)
        requires
            self.wf(),
        ensures
            r == count_in(self.view(), state),
            r <= self.view().dom().len(),
    {
        let ghost all = texts(self.keys@);
        let ghost m = self.view();
        let mut r: usize = 0;
        let mut i: usize = 0;
        let ghost mut found: Set<Seq<char>> = Set::empty();
        while i < self.states.len()
            invariant
                i <= self.states@.len(),
                self.keys@.len() == self.states@.len(),
                all == texts(self.keys@),
                all.no_duplicates(),
                m == states_map(all, self.states@),
                r <= i,
                found.finite(),
                found.len() == r,
                forall|k: Seq<char>| #[trigger]
                    found.contains(k) <==> all.contains(k) && all.index_of(k) < i && m[k] == state,
            decreases self.states@.len() - i,
        {
            let ghost key = all[i as int];
            proof {
                assert(all.contains(key));
                let at = all.index_of(key);
                assert(all[at] == key);
                assert(at == i);
            }
            if self.states[i] == state {
                proof {
                    assert(!found.contains(key));
                    found = found.insert(key);
                }
                r = r + 1;
            }
            i = i + 1;
            proof {
                assert forall|k: Seq<char>| #[trigger]
                    found.contains(k) <==> all.contains(k) && all.index_of(k) < i && m[k] == state by {
                    if all.contains(k) {
                        let at = all.index_of(k);
                        assert(all[at] == k);
                    }
                }
            }
        }
        proof {
            assert(found =~= files_in(m, state)) by {
                assert forall|k: Seq<char>| all.contains(k) implies all.index_of(k) < all.len() by {
                    let at = all.index_of(k);
                    assert(all[at] == k);
                }
            }
            all.unique_seq_to_set();
            assert(m.dom() =~= all.to_set());
            vstd::set_lib::lemma_len_subset(found, m.dom());
        }
        r
    }
}

/// The states together make up the files.
pub proof fn law_states_make_up_the_files(m: Map<Seq<char>, SummaryFileState>)
    requires
        m.dom().finite(),
    ensures
        m.dom().len() == count_in(m, SummaryFileState::Remaining) + count_in(
            m,
            SummaryFileState::Converted,
        ) + count_in(m, SummaryFileState::Failed),
{
    let a = files_in(m, SummaryFileState::Remaining);
    let b = files_in(m, SummaryFileState::Converted);
    let c = files_in(m, SummaryFileState::Failed);
    assert(a.finite() && b.finite() && c.finite());
    assert(a.disjoint(b));
    assert((a + b).disjoint(c));
    vstd::set_lib::lemma_set_disjoint_lens(a, b);
    vstd::set_lib::lemma_set_disjoint_lens(a + b, c);
    assert(m.dom() =~= a + b + c);
}

/// The map with the keys of files in one state.
pub open spec fn with_files(
    m: Map<Seq<char>, SummaryFileState>,
    files: Seq<Seq<char>>,
    state: SummaryFileState,
) -> Map<Seq<char>, SummaryFileState>
    decreases files.len(),
{
    if files.len() == 0 {
        m
    } else {
        with_files(m, files.drop_last(), state).insert(file_key(files.last()), state)
    }
}

pub open spec fn is_video() -> spec_fn(Seq<char>) -> bool {
    |p: Seq<char>| is_video_name(p)
}

/// The state that a task's status gives its files.
pub open spec fn status_state(status: QueueStatus) -> SummaryFileState {
    match status {
        QueueStatus::Completed => SummaryFileState::Converted,
        QueueStatus::Failed | QueueStatus::Cancelled => SummaryFileState::Failed,
        QueueStatus::Pending | QueueStatus::Running | QueueStatus::Paused =>
            SummaryFileState::Remaining,
    }
}

/// The map with what a task says of its files: its targets by its status, then failures, then skips.
pub open spec fn with_task(
    m: Map<Seq<char>, SummaryFileState>,
    t: TaskView,
    failed: Seq<Seq<char>>,
) -> Map<Seq<char>, SummaryFileState> {
    with_files(
        with_files(
            with_files(m, t.targets.filter(is_video()), status_state(t.status)),
            failed,
            SummaryFileState::Failed,
        ),
        t.skipped_paths,
        SummaryFileState::Converted,
    )
}

/// A task works on a watched folder.
pub open spec fn works_on(t: TaskView, root: Seq<char>) -> bool {
    is_path(t.source_root, root) || has_path(t.targets, root)
}

/// What the tasks of a folder say of its files.
pub open spec fn task_states(
    tasks: Seq<TaskView>,
    root: Seq<char>,
    failures: Seq<FailureView>,
) -> Map<Seq<char>, SummaryFileState>
    decreases tasks.len(),
{
    if tasks.len() == 0 {
        Map::empty()
    } else {
        let before = task_states(tasks.drop_last(), root, failures);
        let t = tasks.last();
        if works_on(t, root) {
            with_task(before, t, failed_paths(failures, t.id))
        } else {
            before
        }
    }
}

pub open spec fn is_active(status: QueueStatus) -> bool {
    status == QueueStatus::Running || status == QueueStatus::Paused
}

/// The status of the last running or paused task of a folder.
pub open spec fn folder_activity(tasks: Seq<TaskView>, root: Seq<char>) -> Option<QueueStatus>
    decreases tasks.len(),
{
    if tasks.len() == 0 {
        None
    } else if works_on(tasks.last(), root) && is_active(tasks.last().status) {
        Some(tasks.last().status)
    } else {
        folder_activity(tasks.drop_last(), root)
    }
}

/// The map with files of folders of converted files, where they are new.
pub open spec fn with_converted(
    m: Map<Seq<char>, SummaryFileState>,
    files: Seq<Seq<char>>,
) -> Map<Seq<char>, SummaryFileState>
    decreases files.len(),
{
    if files.len() == 0 {
        m
    } else {
        let before = with_converted(m, files.drop_last());
        let key = converted_key(files.last());
        if before.contains_key(key) {
            before
        } else {
            before.insert(key, SummaryFileState::Converted)
        }
    }
}

/// The videos of several folders.
pub open spec fn videos_of_all(d: DiskView, folders: Seq<Seq<char>>) -> Seq<Seq<char>>
    decreases folders.len(),
{
    if folders.len() == 0 {
        Seq::empty()
    } else {
        videos_of_all(d, folders.drop_last()) + files_below(
            d,
            folders.last(),
            Descent::All,
            Wanted::Videos,
        )
    }
}

/// The map with the files that stand openly in the folder: new ones are converted or remaining, and
/// one thought remaining is converted where its original has been put aside.
pub open spec fn with_public(
    m: Map<Seq<char>, SummaryFileState>,
    d: DiskView,
    mode: ContentMode,
    files: Seq<Seq<char>>,
) -> Map<Seq<char>, SummaryFileState>
    decreases files.len(),
{
    if files.len() == 0 {
        m
    } else {
        let before = with_public(m, d, mode, files.drop_last());
        let key = file_key(files.last());
        let done = is_done(d, files.last(), mode);
        if !before.contains_key(key) {
            before.insert(
                key,
                if done {
                    SummaryFileState::Converted
                } else {
                    SummaryFileState::Remaining
                },
            )
        } else if done && before[key] == SummaryFileState::Remaining {
            before.insert(key, SummaryFileState::Converted)
        } else {
            before
        }
    }
}

/// The folder that a finished folder was renamed to, where there is one.
pub open spec fn found_renamed(
    d: DiskView,
    root: Seq<char>,
    own: Option<Seq<char>>,
) -> Option<Seq<char>> {
    if file_name(root) is Some && exists|i: int|
        first_renamed(d, root, rename_suffixes(own), i) {
        let i = choose|i: int| first_renamed(d, root, rename_suffixes(own), i);
        Some(renamed_folder(root, rename_suffixes(own)[i]))
    } else {
        None
    }
}

/// What the disk adds to the states of a folder's files.
pub open spec fn scanned_states(
    m: Map<Seq<char>, SummaryFileState>,
    d: DiskView,
    root: Seq<char>,
    mode: ContentMode,
    own: Option<Seq<char>>,
) -> Map<Seq<char>, SummaryFileState> {
    if is_folder(d, root) {
        let converted = if mode == ContentMode::CameraVideos {
            m
        } else {
            with_converted(m, videos_of_all(d, set_aside_from(d, root, 0)))
        };
        with_public(
            converted,
            d,
            mode,
            files_below(d, root, Descent::Unconverted, Wanted::Videos),
        )
    } else {
        match found_renamed(d, root, own) {
            Some(renamed) => with_converted_all(
                m,
                files_below(d, renamed, Descent::Finished, Wanted::Videos),
            ),
            None => m,
        }
    }
}

/// The map with files of a renamed folder.
pub open spec fn with_converted_all(
    m: Map<Seq<char>, SummaryFileState>,
    files: Seq<Seq<char>>,
) -> Map<Seq<char>, SummaryFileState>
    decreases files.len(),
{
    if files.len() == 0 {
        m
    } else {
        with_converted_all(m, files.drop_last()).insert(
            converted_key(files.last()),
            SummaryFileState::Converted,
        )
    }
}

/// How many folders a summary looked into.
pub open spec fn scanned_folders(d: DiskView, root: Seq<char>, own: Option<Seq<char>>) -> nat {
    if is_folder(d, root) {
        folders_below(d, root, Descent::Unconverted).len()
    } else {
        match found_renamed(d, root, own) {
            Some(renamed) => folders_below(d, renamed, Descent::Finished).len(),
            None => 0,
        }
    }
}

fn add_files(states: &mut FileStates, files: &Vec<String>, state: SummaryFileState)
    requires
        old(states).wf(),
    ensures
        final(states).wf(),
        final(states).view() == with_files(old(states).view(), texts(files@), state),
{
    let ghost all = texts(files@);
    let ghost first = states.view();
    let mut i: usize = 0;
    assert(all.take(0) =~= Seq::<Seq<char>>::empty());
    while i < files.len()
        invariant
            i <= files@.len(),
            all == texts(files@),
            states.wf(),
            states.view() == with_files(first, all.take(i as int), state),
        decreases files@.len() - i,
    {
        assert(all.take(i + 1).drop_last() =~= all.take(i as int));
        assert(all.take(i + 1).last() == files@[i as int]@);
        states.insert(summary_path_key(files[i].as_str()), state);
        i = i + 1;
    }
    assert(all.take(i as int) =~= all);
}

fn videos_of(paths: &Vec<String>) -> (r: Vec<String>)
    ensures
        texts(r@) == texts(paths@).filter(is_video()),
{
    let ghost all = texts(paths@);
    let mut r: Vec<String> = Vec::new();
    let mut i: usize = 0;
    assert(texts(r@) =~= all.take(0).filter(is_video()));
    while i < paths.len()
        invariant
            i <= paths@.len(),
            all == texts(paths@),
            texts(r@) == all.take(i as int).filter(is_video()),
        decreases paths@.len() - i,
    {
        let ghost before = texts(r@);
        proof {
            assert(all.take(i + 1) =~= all.take(i as int).push(all[i as int]));
            all.take(i as int).lemma_filter_push(all[i as int], is_video());
            assert(all[i as int] == paths@[i as int]@);
        }
        if has_video_filename(paths[i].as_str()) {
            r.push(paths[i].clone());
            assert(texts(r@) =~= before.push(all[i as int]));
        }
        i = i + 1;
    }
    assert(all.take(i as int) =~= all);
    r
}

fn state_of_status(status: QueueStatus) -> (r: SummaryFileState)
    ensures
        r == status_state(status),
{
    match status {
        QueueStatus::Completed => SummaryFileState::Converted,
        QueueStatus::Failed | QueueStatus::Cancelled => SummaryFileState::Failed,
        QueueStatus::Pending | QueueStatus::Running | QueueStatus::Paused => SummaryFileState::Remaining,
    }
}

fn task_works_on(task: &QueueTask, root: &str) -> (r: bool)
    ensures
        r == works_on(task@, root@),
{
    if let Some(source) = &task.source_root {
        if same_path(source.as_str(), root) {
            return true;
        }
    }
    list_has_path(&task.targets, root)
}

fn states_of_tasks(queue: &Queue, root: &str, failures: &RunFailures) -> (r: (
    FileStates,
    Option<QueueStatus>,
))
    ensures
        r.0.wf(),
        r.0.view() == task_states(queue@, root@, failures@),
        r.1 == folder_activity(queue@, root@),
{
    let tasks = queue.tasks();
    let ghost all = queue@;
    let mut states = FileStates::new();
    let mut active: Option<QueueStatus> = None;
    let mut i: usize = 0;
    assert(all.take(0) =~= Seq::<TaskView>::empty());
    while i < tasks.len()
        invariant
            i <= tasks@.len(),
            all == queue@,
            task_views(tasks@) == all,
            states.wf(),
            states.view() == task_states(all.take(i as int), root@, failures@),
            active == folder_activity(all.take(i as int), root@),
        decreases tasks@.len() - i,
    {
        let task = &tasks[i];
        assert(all.take(i + 1).drop_last() =~= all.take(i as int));
        assert(all.take(i + 1).last() == task@);
        if task_works_on(task, root) {
            if task.status == QueueStatus::Running || task.status == QueueStatus::Paused {
                active = Some(task.status);
            }
            let videos = videos_of(&task.targets);
            add_files(&mut states, &videos, state_of_status(task.status));
            let failed = failures.paths_of_task(task.id.as_str());
            add_files(&mut states, &failed, SummaryFileState::Failed);
            add_files(&mut states, &task.skipped_paths, SummaryFileState::Converted);
        }
        i = i + 1;
    }
    assert(all.take(i as int) =~= all);
    (states, active)
}

fn key_of_converted(path: &str) -> (r: String)
    ensures
        r@ == converted_key(path@),
{
    let key = summary_path_key(path);
    concat2("converted-dir:", key.as_str())
}

fn add_new_converted(states: &mut FileStates, files: &Vec<String>)
    requires
        old(states).wf(),
    ensures
        final(states).wf(),
        final(states).view() == with_converted(old(states).view(), texts(files@)),
{
    let ghost all = texts(files@);
    let ghost first = states.view();
    let mut i: usize = 0;
    assert(all.take(0) =~= Seq::<Seq<char>>::empty());
    while i < files.len()
        invariant
            i <= files@.len(),
            all == texts(files@),
            states.wf(),
            states.view() == with_converted(first, all.take(i as int)),
        decreases files@.len() - i,
    {
        assert(all.take(i + 1).drop_last() =~= all.take(i as int));
        assert(all.take(i + 1).last() == files@[i as int]@);
        let key = key_of_converted(files[i].as_str());
        if states.get(key.as_str()).is_none() {
            states.insert(key, SummaryFileState::Converted);
        }
        i = i + 1;
    }
    assert(all.take(i as int) =~= all);
}

fn add_all_converted(states: &mut FileStates, files: &Vec<String>)
    requires
        old(states).wf(),
    ensures
        final(states).wf(),
        final(states).view() == with_converted_all(old(states).view(), texts(files@)),
{
    let ghost all = texts(files@);
    let ghost first = states.view();
    let mut i: usize = 0;
    assert(all.take(0) =~= Seq::<Seq<char>>::empty());
    while i < files.len()
        invariant
            i <= files@.len(),
            all == texts(files@),
            states.wf(),
            states.view() == with_converted_all(first, all.take(i as int)),
        decreases files@.len() - i,
    {
        assert(all.take(i + 1).drop_last() =~= all.take(i as int));
        assert(all.take(i + 1).last() == files@[i as int]@);
        states.insert(key_of_converted(files[i].as_str()), SummaryFileState::Converted);
        i = i + 1;
    }
    assert(all.take(i as int) =~= all);
}

fn add_public(states: &mut FileStates, disk: &Disk, mode: ContentMode, files: &Vec<String>)
    requires
        old(states).wf(),
    ensures
        final(states).wf(),
        final(states).view() == with_public(old(states).view(), disk@, mode, texts(files@)),
{
    let ghost all = texts(files@);
    let ghost first = states.view();
    let mut i: usize = 0;
    assert(all.take(0) =~= Seq::<Seq<char>>::empty());
    while i < files.len()
        invariant
            i <= files@.len(),
            all == texts(files@),
            states.wf(),
            states.view() == with_public(first, disk@, mode, all.take(i as int)),
        decreases files@.len() - i,
    {
        assert(all.take(i + 1).drop_last() =~= all.take(i as int));
        assert(all.take(i + 1).last() == files@[i as int]@);
        let key = summary_path_key(files[i].as_str());
        let done = should_skip_queue_source(disk, files[i].as_str(), mode);
        match states.get(key.as_str()) {
            None => {
                let state = if done {
                    SummaryFileState::Converted
                } else {
                    SummaryFileState::Remaining
                };
                states.insert(key, state);
            },
            Some(known) => {
                if done && known == SummaryFileState::Remaining {
                    states.insert(key, SummaryFileState::Converted);
                }
            },
        }
        i = i + 1;
    }
    assert(all.take(i as int) =~= all);
}

pub fn videos_of_folders(disk: &Disk, folders: &Vec<String>) -> (r: Vec<String>)
    ensures
        texts(r@) == videos_of_all(disk@, texts(folders@)),
{
    let ghost all = texts(folders@);
    let mut r: Vec<String> = Vec::new();
    let mut i: usize = 0;
    assert(texts(r@) =~= videos_of_all(disk@, all.take(0)));
    while i < folders.len()
        invariant
            i <= folders@.len(),
            all == texts(folders@),
            texts(r@) == videos_of_all(disk@, all.take(i as int)),
        decreases folders@.len() - i,
    {
        assert(all.take(i + 1).drop_last() =~= all.take(i as int));
        assert(all.take(i + 1).last() == folders@[i as int]@);
        let found = disk.files_below(folders[i].as_str(), Descent::All, Wanted::Videos);
        crate::targets::append_all(&mut r, &found);
        i = i + 1;
    }
    assert(all.take(i as int) =~= all);
    r
}

pub fn renamed_on_disk(disk: &Disk, root: &str, own: Option<&str>) -> (r: Option<String>)
    ensures
        opt_text(r) == found_renamed(disk@, root@, opt_slice(own)),
{
    let r = renamed_conversion_directory(disk, root, own);
    proof {
        let suffixes = rename_suffixes(opt_slice(own));
        if r is Some {
            let path = r->0;
            let a = choose|i: int| #[trigger]
                first_renamed(disk@, root@, suffixes, i) && path@ == renamed_folder(
                    root@,
                    suffixes[i],
                );
            let b = choose|i: int| first_renamed(disk@, root@, suffixes, i);
            assert(first_renamed(disk@, root@, suffixes, b));
            assert(a == b) by {
                if a < b {
                    assert(!is_folder(disk@, renamed_folder(root@, suffixes[a])));
                }
                if b < a {
                    assert(!is_folder(disk@, renamed_folder(root@, suffixes[b])));
                }
            }
        }
    }
    r
}

/// Adds what the disk shows to the states of a folder's files, and counts the folders.
fn scan_folder_summary(
    disk: &Disk,
    root: &str,
    mode: ContentMode,
    own: Option<&str>,
    states: &mut FileStates,
) -> (r: usize)
    requires
        old(states).wf(),
    ensures
        final(states).wf(),
        final(states).view() == scanned_states(
            old(states).view(),
            disk@,
            root@,
            mode,
            opt_slice(own),
        ),
        r == scanned_folders(disk@, root@, opt_slice(own)),
{
    if !disk.is_dir(root) {
        return match renamed_on_disk(disk, root, own) {
            Some(renamed) => {
                let files = disk.files_below(
                    renamed.as_str(),
                    Descent::Finished,
                    Wanted::Videos,
                );
                add_all_converted(states, &files);
                let folders = disk.folders_below(renamed.as_str(), Descent::Finished);
                assert(texts(folders@).len() == folders@.len());
                folders.len()
            },
            None => 0,
        };
    }
    if mode != ContentMode::CameraVideos {
        let aside = disk.set_aside_below(root);
        let files = videos_of_folders(disk, &aside);
        add_new_converted(states, &files);
    }
    let files = disk.files_below(root, Descent::Unconverted, Wanted::Videos);
    add_public(states, disk, mode, &files);
    let folders = disk.folders_below(root, Descent::Unconverted);
    assert(texts(folders@).len() == folders@.len());
    folders.len()
}

/// The counts of a watched folder.
#[derive(Debug, PartialEq, Eq)]
pub struct FolderQueueSummary {
    pub root: String,
    pub mode: ContentMode,
    pub encoder: Encoder,
    pub folders: usize,
    pub files: usize,
    pub remaining: usize,
    pub converted: usize,
    pub failed: usize,
    pub active_status: Option<QueueStatus>,
}

/// The contents of a `FolderQueueSummary`.
pub struct SummaryView {
    pub root: Seq<char>,
    pub mode: ContentMode,
    pub encoder: Encoder,
    pub folders: nat,
    pub files: nat,
    pub remaining: nat,
    pub converted: nat,
    pub failed: nat,
    pub active_status: Option<QueueStatus>,
}

impl View for FolderQueueSummary {
    type V = SummaryView;

    open spec fn view(&self) -> SummaryView {
        SummaryView {
            root: self.root@,
            mode: self.mode,
            encoder: self.encoder,
            folders: self.folders as nat,
            files: self.files as nat,
            remaining: self.remaining as nat,
            converted: self.converted as nat,
            failed: self.failed as nat,
            active_status: self.active_status,
        }
    }
}

impl Clone for FolderQueueSummary {
    fn clone(&self) -> (r: Self)
        ensures
            r == *self,
    {
        FolderQueueSummary {
            root: self.root.clone(),
            mode: self.mode,
            encoder: self.encoder,
            folders: self.folders,
            files: self.files,
            remaining: self.remaining,
            converted: self.converted,
            failed: self.failed,
            active_status: self.active_status,
        }
    }
}

/// A folder that is watched for new work.
#[derive(Debug, PartialEq, Eq)]
pub struct WatchedRoot {
    pub root: String,
    pub mode: ContentMode,
    pub encoder: Encoder,
}

/// The slideshow task of a folder stands at `i`.
pub open spec fn slideshow_task_at(tasks: Seq<TaskView>, root: Seq<char>, i: int) -> bool {
    &&& 0 <= i < tasks.len()
    &&& tasks[i].settings.mode == ContentMode::PhotoSlideshow && has_path(tasks[i].targets, root)
    &&& forall|j: int|
        0 <= j < i ==> !((#[trigger] tasks[j]).settings.mode == ContentMode::PhotoSlideshow
            && has_path(tasks[j].targets, root))
}

/// The slideshow task of a folder.
pub open spec fn slideshow_task(tasks: Seq<TaskView>, root: Seq<char>) -> Option<TaskView> {
    if exists|i: int| slideshow_task_at(tasks, root, i) {
        Some(tasks[choose|i: int| slideshow_task_at(tasks, root, i)])
    } else {
        None
    }
}

/// The counts of a folder whose photos make one slideshow.
pub open spec fn slideshow_summary(
    d: DiskView,
    tasks: Seq<TaskView>,
    root: Seq<char>,
    mode: ContentMode,
    encoder: Encoder,
) -> SummaryView {
    let task = slideshow_task(tasks, root);
    let valid = task is Some && (task->0.settings.slideshow_image_paths.len() >= 2 || files_below(
        d,
        root,
        Descent::All,
        Wanted::Photos,
    ).len() >= 2);
    let done = valid && task->0.status == QueueStatus::Completed;
    SummaryView {
        root,
        mode,
        encoder,
        folders: if is_folder(d, root) {
            1
        } else {
            0
        },
        files: if valid {
            1
        } else {
            0
        },
        remaining: if valid && !done {
            1
        } else {
            0
        },
        converted: if done {
            1
        } else {
            0
        },
        failed: 0,
        active_status: match task {
            Some(t) => if is_active(t.status) {
                Some(t.status)
            } else {
                None
            },
            None => None,
        },
    }
}

/// The counts of a watched folder: what its tasks say of its files, and what the disk shows.
///
/// `own` is the suffix that the workflow and encoder give to converted folders.
pub open spec fn folder_summary(
    d: DiskView,
    tasks: Seq<TaskView>,
    failures: Seq<FailureView>,
    root: Seq<char>,
    mode: ContentMode,
    encoder: Encoder,
    own: Option<Seq<char>>,
) -> SummaryView {
    if mode == ContentMode::PhotoSlideshow {
        slideshow_summary(d, tasks, root, mode, encoder)
    } else {
        let states = scanned_states(task_states(tasks, root, failures), d, root, mode, own);
        SummaryView {
            root,
            mode,
            encoder,
            folders: scanned_folders(d, root, own),
            files: states.dom().len(),
            remaining: count_in(states, SummaryFileState::Remaining),
            converted: count_in(states, SummaryFileState::Converted),
            failed: count_in(states, SummaryFileState::Failed),
            active_status: folder_activity(tasks, root),
        }
    }
}

fn find_slideshow_task<'a>(tasks: &'a VecDeque<QueueTask>, root: &str) -> (r: Option<&'a QueueTask>)
    ensures
        match r {
            Some(t) => slideshow_task(task_views(tasks@), root@) == Some(t@),
            None => slideshow_task(task_views(tasks@), root@) is None,
        },
{
    let ghost all = task_views(tasks@);
    let mut i: usize = 0;
    while i < tasks.len()
        invariant
            i <= tasks@.len(),
            all == task_views(tasks@),
            forall|j: int|
                0 <= j < i ==> !((#[trigger] all[j]).settings.mode == ContentMode::PhotoSlideshow
                    && has_path(all[j].targets, root@)),
        decreases tasks@.len() - i,
    {
        assert(all[i as int] == tasks@[i as int]@);
        if tasks[i].settings.mode == ContentMode::PhotoSlideshow && list_has_path(
            &tasks[i].targets,
            root,
        ) {
            proof {
                assert(slideshow_task_at(all, root@, i as int));
                let k = choose|k: int| slideshow_task_at(all, root@, k);
                assert(slideshow_task_at(all, root@, k));
                assert(k == i);
            }
            return Some(&tasks[i]);
        }
        i = i + 1;
    }
    None
}

/// The counts of a watched folder.
pub fn folder_queue_summary_with_outcomes(
    disk: &Disk,
    watch: &WatchedRoot,
    own_suffix: Option<&str>,
    queue: &Queue,
    failures: &RunFailures,
) -> (r: FolderQueueSummary)
    ensures
        r@ == folder_summary(
            disk@,
            queue@,
            failures@,
            watch.root@,
            watch.mode,
            watch.encoder,
            opt_slice(own_suffix),
        ),
{
    if watch.mode == ContentMode::PhotoSlideshow {
        let task = find_slideshow_task(queue.tasks(), watch.root.as_str());
        let mut valid = false;
        let mut done = false;
        let mut active_status: Option<QueueStatus> = None;
        if let Some(task) = task {
            assert(task@.settings.slideshow_image_paths.len()
                == task.settings.slideshow_image_paths@.len());
            valid = task.settings.slideshow_image_paths.len() >= 2 || directory_has_two_photos(
                disk,
                watch.root.as_str(),
            );
            done = valid && task.status == QueueStatus::Completed;
            if task.status == QueueStatus::Running || task.status == QueueStatus::Paused {
                active_status = Some(task.status);
            }
        }
        return FolderQueueSummary {
            root: watch.root.clone(),
            mode: watch.mode,
            encoder: watch.encoder,
            folders: if disk.is_dir(watch.root.as_str()) {
                1
            } else {
                0
            },
            files: if valid {
                1
            } else {
                0
            },
            remaining: if valid && !done {
                1
            } else {
                0
            },
            converted: if done {
                1
            } else {
                0
            },
            failed: 0,
            active_status,
        };
    }
    let (mut states, active_status) = states_of_tasks(queue, watch.root.as_str(), failures);
    let folders: usize = scan_folder_summary(
        disk,
        watch.root.as_str(),
        watch.mode,
        own_suffix,
        &mut states,
    );
    FolderQueueSummary {
        root: watch.root.clone(),
        mode: watch.mode,
        encoder: watch.encoder,
        folders,
        files: states.len(),
        remaining: states.count(SummaryFileState::Remaining),
        converted: states.count(SummaryFileState::Converted),
        failed: states.count(SummaryFileState::Failed),
        active_status,
    }
}

/// The files of a folder are the remaining, the converted, and the failed ones.
pub proof fn law_folder_counts_add_up(
    d: DiskView,
    tasks: Seq<TaskView>,
    failures: Seq<FailureView>,
    root: Seq<char>,
    mode: ContentMode,
    encoder: Encoder,
    own: Option<Seq<char>>,
)
    ensures
        ({
            let s = folder_summary(d, tasks, failures, root, mode, encoder, own);
            s.files == s.remaining + s.converted + s.failed
        }),
{
    if mode != ContentMode::PhotoSlideshow {
        lemma_task_states_finite(tasks, root, failures);
        let m = task_states(tasks, root, failures);
        if is_folder(d, root) {
            let files = videos_of_all(d, set_aside_from(d, root, 0));
            lemma_converted_finite(m, files);
            let c = if mode == ContentMode::CameraVideos {
                m
            } else {
                with_converted(m, files)
            };
            lemma_public_finite(
                c,
                d,
                mode,
                files_below(d, root, Descent::Unconverted, Wanted::Videos),
            );
        } else if let Some(renamed) = found_renamed(d, root, own) {
            lemma_converted_all_finite(
                m,
                files_below(d, renamed, Descent::Finished, Wanted::Videos),
            );
        }
        law_states_make_up_the_files(scanned_states(m, d, root, mode, own));
    }
}

proof fn lemma_files_finite(
    m: Map<Seq<char>, SummaryFileState>,
    files: Seq<Seq<char>>,
    state: SummaryFileState,
)
    requires
        m.dom().finite(),
    ensures
        with_files(m, files, state).dom().finite(),
    decreases files.len(),
{
    if files.len() > 0 {
        lemma_files_finite(m, files.drop_last(), state);
    }
}

proof fn lemma_task_states_finite(
    tasks: Seq<TaskView>,
    root: Seq<char>,
    failures: Seq<FailureView>,
)
    ensures
        task_states(tasks, root, failures).dom().finite(),
    decreases tasks.len(),
{
    if tasks.len() > 0 {
        lemma_task_states_finite(tasks.drop_last(), root, failures);
        let m = task_states(tasks.drop_last(), root, failures);
        let t = tasks.last();
        let a = with_files(m, t.targets.filter(is_video()), status_state(t.status));
        lemma_files_finite(m, t.targets.filter(is_video()), status_state(t.status));
        let b = with_files(a, failed_paths(failures, t.id), SummaryFileState::Failed);
        lemma_files_finite(a, failed_paths(failures, t.id), SummaryFileState::Failed);
        lemma_files_finite(b, t.skipped_paths, SummaryFileState::Converted);
    } else {
        assert(task_states(tasks, root, failures).dom() =~= Set::empty());
    }
}

proof fn lemma_converted_finite(m: Map<Seq<char>, SummaryFileState>, files: Seq<Seq<char>>)
    requires
        m.dom().finite(),
    ensures
        with_converted(m, files).dom().finite(),
    decreases files.len(),
{
    if files.len() > 0 {
        lemma_converted_finite(m, files.drop_last());
    }
}

proof fn lemma_converted_all_finite(m: Map<Seq<char>, SummaryFileState>, files: Seq<Seq<char>>)
    requires
        m.dom().finite(),
    ensures
        with_converted_all(m, files).dom().finite(),
    decreases files.len(),
{
    if files.len() > 0 {
        lemma_converted_all_finite(m, files.drop_last());
    }
}

proof fn lemma_public_finite(
    m: Map<Seq<char>, SummaryFileState>,
    d: DiskView,
    mode: ContentMode,
    files: Seq<Seq<char>>,
)
    requires
        m.dom().finite(),
    ensures
        with_public(m, d, mode, files).dom().finite(),
    decreases files.len(),
{
    if files.len() > 0 {
        lemma_public_finite(m, d, mode, files.drop_last());
    }
}

/// The word for the state of a folder.
pub open spec fn summary_status(s: SummaryView) -> Seq<char> {
    if s.active_status == Some(QueueStatus::Running) {
        "Running"@
    } else if s.active_status == Some(QueueStatus::Paused) {
        "Paused"@
    } else if s.failed > 0 && s.remaining == 0 {
        "Failed"@
    } else if s.failed > 0 {
        "Needs attention"@
    } else if s.remaining > 0 {
        "Pending"@
    } else if s.files > 0 {
        "Completed"@
    } else {
        "Empty"@
    }
}

pub fn folder_summary_status(summary: &FolderQueueSummary) -> (r: &'static str)
    ensures
        r@ == summary_status(summary@),
{
    match summary.active_status {
        Some(QueueStatus::Running) => {
            return "Running";
        },
        Some(QueueStatus::Paused) => {
            return "Paused";
        },
        _ => {},
    }
    if summary.failed > 0 && summary.remaining == 0 {
        "Failed"
    } else if summary.failed > 0 {
        "Needs attention"
    } else if summary.remaining > 0 {
        "Pending"
    } else if summary.files > 0 {
        "Completed"
    } else {
        "Empty"
    }
}

} // verus!
