//! The stored queue and the stored preferences.

use crate::model::{
    all_modes, law_mode_labels_round_trip, mode_label, mode_labelled, ContentMode, QueueSettings,
    SettingsView,
};
use crate::paths::{file_name, path_file_name};
use crate::queue::{
    has_id, next_pending, task_views, unique_ids, Queue, QueueStatus, QueueTask, TaskView,
};
use crate::stored::{
    law_settings_round_trip, restored_settings, settings_come_back, storable, stored_form,
    FactsView, SettingsFacts, StoredSettings, StoredView,
};
use crate::text::{
    chars_to_string, concat2, concat3, copy_list, copy_opt, decimal, decimal_text, has_prefix,
    opt_text, parse_unsigned, parsed_unsigned, same_text, text_starts_with, texts, to_chars,
};
use vstd::prelude::*;

verus! {

/// The version of the stored queue.
pub const QUEUE_STATE_VERSION: u32 = 2;

/// A task as it is stored.
#[derive(Debug, PartialEq, Eq)]
pub struct StoredQueueTask {
    pub name: Option<String>,
    pub target_paths: Vec<String>,
    pub source_root: Option<String>,
    pub settings: Option<StoredSettings>,
    pub queued_time: String,
    pub task_data_id: Option<String>,
    pub status: Option<String>,
    pub complete_time: String,
    pub error: Option<String>,
    pub skipped_paths: Vec<String>,
}

/// The contents of a `StoredQueueTask`.
pub struct StoredTaskView {
    pub name: Option<Seq<char>>,
    pub target_paths: Seq<Seq<char>>,
    pub source_root: Option<Seq<char>>,
    pub settings: Option<StoredView>,
    pub queued_time: Seq<char>,
    pub task_data_id: Option<Seq<char>>,
    pub status: Option<Seq<char>>,
    pub complete_time: Seq<char>,
    pub error: Option<Seq<char>>,
    pub skipped_paths: Seq<Seq<char>>,
}

impl View for StoredQueueTask {
    type V = StoredTaskView;

    open spec fn view(&self) -> StoredTaskView {
        StoredTaskView {
            name: opt_text(self.name),
            target_paths: texts(self.target_paths@),
            source_root: opt_text(self.source_root),
            settings: match self.settings {
                Some(s) => Some(s@),
                None => None,
            },
            queued_time: self.queued_time@,
            task_data_id: opt_text(self.task_data_id),
            status: opt_text(self.status),
            complete_time: self.complete_time@,
            error: opt_text(self.error),
            skipped_paths: texts(self.skipped_paths@),
        }
    }
}

/// A stored task with what its settings are read against.
#[derive(Debug, PartialEq, Eq)]
pub struct StoredEntry {
    pub task: StoredQueueTask,
    pub facts: SettingsFacts,
}

/// The contents of a list of stored tasks.
pub open spec fn entry_views(entries: Seq<StoredEntry>) -> Seq<(StoredTaskView, FactsView)> {
    entries.map_values(|e: StoredEntry| (e.task@, e.facts@))
}

/// A stored queue.
#[derive(Debug, PartialEq, Eq)]
pub struct StoredQueueState {
    pub version: u32,
    pub was_running: bool,
    pub tasks: Vec<StoredQueueTask>,
}

pub open spec fn stored_task_views(tasks: Seq<StoredQueueTask>) -> Seq<StoredTaskView> {
    tasks.map_values(|t: StoredQueueTask| t@)
}

/// The queue that a stored queue means.
#[derive(Debug)]
pub struct LoadedQueue {
    pub queue: Queue,
    pub resume_task_id: Option<String>,
    pub next_id: u64,
}

/// A nonempty text, or else the fallback.
pub open spec fn nonempty_or(o: Option<Seq<char>>, fallback: Seq<char>) -> Seq<char> {
    match o {
        Some(s) => if s.len() > 0 {
            s
        } else {
            fallback
        },
        None => fallback,
    }
}

/// The task that a stored task means, at its position in the stored list. A task without known
/// settings or without targets means none.
pub open spec fn restored_task(
    entry: (StoredTaskView, FactsView),
    index: int,
) -> Option<TaskView> {
    let (stored, facts) = entry;
    let settings = match stored.settings {
        Some(v) => restored_settings(v, facts),
        None => None,
    };
    match settings {
        Some(settings) => if stored.target_paths.len() == 0 {
            None
        } else {
            Some(
                TaskView {
                    id: nonempty_or(stored.task_data_id, "task-"@ + decimal((index + 1) as nat)),
                    name: nonempty_or(
                        stored.name,
                        match file_name(stored.target_paths[0]) {
                            Some(name) => name,
                            None => "Media task"@,
                        },
                    ),
                    targets: stored.target_paths,
                    source_root: stored.source_root,
                    queued_time: stored.queued_time,
                    complete_time: stored.complete_time,
                    settings,
                    status: if stored.status == Some("completed"@) {
                        QueueStatus::Completed
                    } else {
                        QueueStatus::Pending
                    },
                    error: stored.error,
                    skipped_paths: stored.skipped_paths,
                },
            )
        },
        None => None,
    }
}

/// The tasks that the first stored tasks mean; a repeated identifier is left out.
pub open spec fn restored_tasks(
    entries: Seq<(StoredTaskView, FactsView)>,
) -> Seq<TaskView>
    decreases entries.len(),
{
    if entries.len() == 0 {
        Seq::empty()
    } else {
        let before = restored_tasks(entries.drop_last());
        match restored_task(entries.last(), entries.len() - 1) {
            Some(task) => if has_id(before, task.id) {
                before
            } else {
                before.push(task)
            },
            None => before,
        }
    }
}

/// The number of an identifier of the form `task-N`.
pub open spec fn id_number(id: Seq<char>) -> Option<nat> {
    if has_prefix(id, "task-"@) {
        parsed_unsigned(id.skip(5), u64::MAX as nat)
    } else {
        None
    }
}

/// The larger of the next number so far and the one after an identifier's number.
pub open spec fn bumped(next: nat, id: Seq<char>) -> nat {
    match id_number(id) {
        Some(n) => {
            let after = if n < u64::MAX {
                n + 1
            } else {
                u64::MAX as nat
            };
            if after > next {
                after
            } else {
                next
            }
        },
        None => next,
    }
}

/// The number for the next new task: above the number of every restored task.
pub open spec fn restored_next_id(entries: Seq<(StoredTaskView, FactsView)>) -> nat
    decreases entries.len(),
{
    if entries.len() == 0 {
        1
    } else {
        let before = restored_next_id(entries.drop_last());
        match restored_task(entries.last(), entries.len() - 1) {
            Some(task) => bumped(before, task.id),
            None => before,
        }
    }
}

/// A state with another version is not read.
pub open spec fn version_error(version: u32) -> Seq<char> {
    "unsupported queue state version "@ + decimal(version as nat) + "; expected 2"@
}

fn bump_next_id(next: u64, id: &str) -> (r: u64)
    ensures
        r == bumped(next as nat, id@),
{
    if text_starts_with(id, "task-") {
        let chars = to_chars(id);
        proof {
            reveal_strlit("task-");
            assert("task-"@.len() == 5);
        }
        let tail = chars_to_string(&chars, 5, chars.len());
        assert(tail@ =~= id@.skip(5));
        match parse_unsigned(tail.as_str(), 18_446_744_073_709_551_615) {
            Some(n) => {
                let after: u64 = if n < 18_446_744_073_709_551_615 {
                    (n + 1) as u64
                } else {
                    18_446_744_073_709_551_615
                };
                if after > next {
                    after
                } else {
                    next
                }
            },
            None => next,
        }
    } else {
        next
    }
}

fn nonempty_text(o: &Option<String>) -> (r: Option<String>)
    ensures
        match r {
            Some(s) => s@.len() > 0 && opt_text(*o) == Some(s@),
            None => opt_text(*o) is None || opt_text(*o)->0.len() == 0,
        },
{
    match o {
        Some(s) => {
            if s.as_str().unicode_len() > 0 {
                Some(s.clone())
            } else {
                None
            }
        },
        None => None,
    }
}

fn restore_task(entry: &StoredEntry, index: usize) -> (r: Option<QueueTask>)
    ensures
        match r {
            Some(t) => restored_task((entry.task@, entry.facts@), index as int) == Some(t@),
            None => restored_task((entry.task@, entry.facts@), index as int) is None,
        },
{
    let stored = &entry.task;
    let settings = match &stored.settings {
        Some(s) => match s.into_settings(&entry.facts) {
            Some(settings) => settings,
            None => {
                return None;
            },
        },
        None => {
            return None;
        },
    };
    if stored.target_paths.len() == 0 {
        return None;
    }
    let id = match nonempty_text(&stored.task_data_id) {
        Some(id) => id,
        None => {
            let number = decimal_text((index as u128) + 1);
            concat2("task-", number.as_str())
        },
    };
    let name = match nonempty_text(&stored.name) {
        Some(name) => name,
        None => match path_file_name(stored.target_paths[0].as_str()) {
            Some(name) => name,
            None => "Media task".to_owned(),
        },
    };
    let status = match &stored.status {
        Some(text) => {
            if same_text(text.as_str(), "completed") {
                QueueStatus::Completed
            } else {
                QueueStatus::Pending
            }
        },
        None => QueueStatus::Pending,
    };
    let mut task = QueueTask::new(id, name, copy_list(&stored.target_paths), settings);
    task.source_root = copy_opt(&stored.source_root);
    task.queued_time = stored.queued_time.clone();
    task.complete_time = stored.complete_time.clone();
    task.skipped_paths = copy_list(&stored.skipped_paths);
    task.status = status;
    task.error = copy_opt(&stored.error);
    assert(stored@.target_paths[0] == stored.target_paths@[0]@);
    Some(task)
}

/// The queue that stored tasks mean. Interrupted work waits again, and the queue resumes with the
/// first waiting task where it was running.
pub fn load_queue(
    version: u32,
    was_running: bool,
    entries: &Vec<StoredEntry>,
) -> (r: Result<LoadedQueue, String>)
    ensures
        version != QUEUE_STATE_VERSION ==> (r matches Err(e) && e@ == version_error(version)),
        version == QUEUE_STATE_VERSION ==> {
            &&& r matches Ok(loaded)
            &&& loaded.queue@ == restored_tasks(entry_views(entries@))
            &&& loaded.next_id == restored_next_id(entry_views(entries@))
            &&& opt_text(loaded.resume_task_id) == if was_running {
                next_pending(loaded.queue@)
            } else {
                None
            }
        },
{
    if version != QUEUE_STATE_VERSION {
        let number = decimal_text(version as u128);
        return Err(concat3("unsupported queue state version ", number.as_str(), "; expected 2"));
    }
    let ghost all = entry_views(entries@);
    let mut queue = Queue::default();
    let mut next_id: u64 = 1;
    let mut i: usize = 0;
    assert(all.take(0) =~= Seq::empty());
    while i < entries.len()
        invariant
            i <= entries@.len(),
            all == entry_views(entries@),
            queue@ == restored_tasks(all.take(i as int)),
            next_id == restored_next_id(all.take(i as int)),
        decreases entries@.len() - i,
    {
        proof {
            assert(all.take(i + 1).drop_last() =~= all.take(i as int));
            assert(all.take(i + 1).last() == (entries@[i as int].task@, entries@[i as int].facts@));
        }
        if let Some(task) = restore_task(&entries[i], i) {
            next_id = bump_next_id(next_id, task.id.as_str());
            let _ = queue.add(task);
        }
        i = i + 1;
    }
    assert(all.take(i as int) =~= all);
    let mut resume_task_id: Option<String> = None;
    if was_running {
        if let Some(id) = queue.next_pending_id() {
            resume_task_id = Some(id.to_owned());
        }
    }
    Ok(LoadedQueue { queue, resume_task_id, next_id })
}

/// The stored name of a status.
pub open spec fn status_entry(status: QueueStatus) -> Seq<char> {
    match status {
        QueueStatus::Running | QueueStatus::Paused => "running"@,
        QueueStatus::Completed => "completed"@,
        QueueStatus::Pending | QueueStatus::Failed | QueueStatus::Cancelled => "pending"@,
    }
}

pub fn status_name(status: QueueStatus) -> (r: &'static str)
    ensures
        r@ == status_entry(status),
{
    match status {
        QueueStatus::Running | QueueStatus::Paused => "running",
        QueueStatus::Completed => "completed",
        QueueStatus::Pending | QueueStatus::Failed | QueueStatus::Cancelled => "pending",
    }
}

/// A task as it is stored.
pub open spec fn stored_task(t: TaskView) -> StoredTaskView {
    StoredTaskView {
        name: Some(t.name),
        target_paths: t.targets,
        source_root: t.source_root,
        settings: Some(stored_form(t.settings)),
        queued_time: t.queued_time,
        task_data_id: Some(t.id),
        status: Some(status_entry(t.status)),
        complete_time: t.complete_time,
        error: t.error,
        skipped_paths: t.skipped_paths,
    }
}

fn store_task(task: &QueueTask) -> (r: StoredQueueTask)
    ensures
        r@ == stored_task(task@),
{
    StoredQueueTask {
        name: Some(task.name.clone()),
        target_paths: copy_list(&task.targets),
        source_root: copy_opt(&task.source_root),
        settings: Some(StoredSettings::from_settings(&task.settings)),
        queued_time: task.queued_time.clone(),
        task_data_id: Some(task.id.clone()),
        status: Some(status_name(task.status).to_owned()),
        complete_time: task.complete_time.clone(),
        error: copy_opt(&task.error),
        skipped_paths: copy_list(&task.skipped_paths),
    }
}

/// The queue as it is stored.
pub fn save_queue(queue: &Queue, was_running: bool) -> (r: StoredQueueState)
    ensures
        r.version == QUEUE_STATE_VERSION,
        r.was_running == was_running,
        stored_task_views(r.tasks@) == queue@.map_values(|t: TaskView| stored_task(t)),
{
    let list = queue.tasks();
    let ghost wanted = queue@.map_values(|t: TaskView| stored_task(t));
    let mut tasks: Vec<StoredQueueTask> = Vec::new();
    let mut i: usize = 0;
    while i < list.len()
        invariant
            i <= list@.len(),
            task_views(list@) == queue@,
            wanted == queue@.map_values(|t: TaskView| stored_task(t)),
            stored_task_views(tasks@) == wanted.take(i as int),
        decreases list@.len() - i,
    {
        let ghost before = stored_task_views(tasks@);
        tasks.push(store_task(&list[i]));
        assert(queue@[i as int] == list@[i as int]@);
        assert(stored_task_views(tasks@) =~= before.push(wanted[i as int]));
        i = i + 1;
        assert(stored_task_views(tasks@) =~= wanted.take(i as int));
    }
    assert(stored_task_views(tasks@) =~= wanted);
    StoredQueueState { version: QUEUE_STATE_VERSION, was_running, tasks }
}

/// A task that storing keeps, apart from its status.
pub open spec fn storable_task(t: TaskView, existing: Seq<Seq<char>>) -> bool {
    &&& t.name.len() > 0
    &&& storable(t.settings, existing)
}

/// A task after a restart: completed, or waiting.
pub open spec fn after_restart(t: TaskView) -> TaskView {
    TaskView {
        status: if t.status == QueueStatus::Completed {
            QueueStatus::Completed
        } else {
            QueueStatus::Pending
        },
        ..t
    }
}

/// A task that comes back as another one: all but its settings is as it was, but that work which was
/// interrupted waits again and that a task without a name gets one.
pub open spec fn comes_back(t: TaskView, back: TaskView, existing: Seq<Seq<char>>) -> bool {
    &&& settings_come_back(t.settings, back.settings, existing)
    &&& t.name.len() > 0 ==> back.name == t.name
    &&& back == (TaskView { name: back.name, settings: back.settings, ..after_restart(t) })
}

/// A stored queue; `facts` has what each task is read against.
pub open spec fn saved_entries(tasks: Seq<TaskView>, facts: Seq<FactsView>) -> Seq<
    (StoredTaskView, FactsView),
> {
    Seq::new(tasks.len(), |i: int| (stored_task(tasks[i]), facts[i]))
}

proof fn lemma_task_comes_back(t: TaskView, facts: FactsView, index: int)
    requires
        t.id.len() > 0,
        t.targets.len() > 0,
    ensures
        restored_task((stored_task(t), facts), index) matches Some(back) && comes_back(
            t,
            back,
            facts.existing_files,
        ) && (storable_task(t, facts.existing_files) ==> back == after_restart(t)),
{
    law_settings_round_trip(t.settings, facts);
    reveal_strlit("completed");
    reveal_strlit("running");
    reveal_strlit("pending");
    assert("completed"@.len() == 9 && "running"@.len() == 7 && "pending"@.len() == 7);
}

/// Reading a stored queue gives back its tasks in their order, with interrupted work waiting again. What
/// storing keeps of the settings comes back as it was.
pub proof fn law_queue_round_trip(tasks: Seq<TaskView>, facts: Seq<FactsView>)
    requires
        unique_ids(tasks),
        facts.len() == tasks.len(),
        forall|i: int|
            0 <= i < tasks.len() ==> (#[trigger] tasks[i]).id.len() > 0 && tasks[i].targets.len() > 0,
    ensures
        restored_tasks(saved_entries(tasks, facts)).len() == tasks.len(),
        forall|i: int|
            0 <= i < tasks.len() ==> comes_back(
                #[trigger] tasks[i],
                restored_tasks(saved_entries(tasks, facts))[i],
                facts[i].existing_files,
            ),
        forall|i: int|
            0 <= i < tasks.len() && storable_task(#[trigger] tasks[i], facts[i].existing_files)
                ==> restored_tasks(saved_entries(tasks, facts))[i] == after_restart(tasks[i]),
    decreases tasks.len(),
{
    let entries = saved_entries(tasks, facts);
    if tasks.len() > 0 {
        let n = tasks.len() - 1;
        let rest = tasks.drop_last();
        let before = restored_tasks(entries.drop_last());
        assert(saved_entries(rest, facts.drop_last()) =~= entries.drop_last());
        assert forall|i: int| 0 <= i < rest.len() implies (#[trigger] rest[i]).id.len() > 0
            && rest[i].targets.len() > 0 by {
            assert(rest[i] == tasks[i]);
        }
        law_queue_round_trip(rest, facts.drop_last());
        lemma_task_comes_back(tasks[n], facts[n], n as int);
        if has_id(before, tasks[n].id) {
            let i = choose|i: int| crate::queue::first_with_id(before, tasks[n].id, i);
            assert(comes_back(rest[i], before[i], facts.drop_last()[i].existing_files));
            assert(tasks[i].id == tasks[n].id);
        }
        let back = restored_task(entries.last(), entries.len() - 1)->0;
        assert(restored_tasks(entries) == before.push(back));
        assert forall|i: int| 0 <= i < tasks.len() implies comes_back(
            #[trigger] tasks[i],
            restored_tasks(entries)[i],
            facts[i].existing_files,
        ) by {
            if i < n {
                assert(rest[i] == tasks[i]);
                assert(facts.drop_last()[i] == facts[i]);
            }
        }
        assert forall|i: int|
            0 <= i < tasks.len() && storable_task(
                #[trigger] tasks[i],
                facts[i].existing_files,
            ) implies restored_tasks(entries)[i] == after_restart(tasks[i]) by {
            if i < n {
                assert(rest[i] == tasks[i]);
                assert(facts.drop_last()[i] == facts[i]);
            }
        }
    }
}

/// The number for the next new task is above that of every task that comes back, up to the largest
/// number that there is.
pub proof fn law_next_number_is_unused(entries: Seq<(StoredTaskView, FactsView)>)
    ensures
        1 <= restored_next_id(entries) <= u64::MAX,
        forall|i: int|
            0 <= i < restored_tasks(entries).len() ==> (id_number(
                (#[trigger] restored_tasks(entries)[i]).id,
            ) matches Some(n) ==> n < restored_next_id(entries) || n == u64::MAX),
    decreases entries.len(),
{
    if entries.len() > 0 {
        let rest = entries.drop_last();
        law_next_number_is_unused(rest);
        let before = restored_tasks(rest);
        assert forall|i: int| 0 <= i < restored_tasks(entries).len() implies (id_number(
            (#[trigger] restored_tasks(entries)[i]).id,
        ) matches Some(n) ==> n < restored_next_id(entries) || n == u64::MAX) by {
            if i < before.len() {
                assert(restored_tasks(entries)[i] == before[i]);
            }
        }
    }
}

/// Preferences that outlive the program. Each workflow has settings, in the order of the workflows.
#[derive(Debug, PartialEq, Eq)]
pub struct AppPreferences {
    pub selected_mode: ContentMode,
    pub settings_by_mode: Vec<QueueSettings>,
    pub prevent_system_sleep: bool,
}

/// The contents of a list of settings.
pub open spec fn settings_views(list: Seq<QueueSettings>) -> Seq<SettingsView> {
    list.map_values(|s: QueueSettings| s@)
}

/// One list entry per workflow, each with settings of that workflow.
pub open spec fn is_mode_table(list: Seq<SettingsView>) -> bool {
    &&& list.len() == 6
    &&& forall|i: int| 0 <= i < 6 ==> (#[trigger] list[i]).mode == all_modes()[i]
}

/// The position of a workflow.
pub open spec fn mode_position(mode: ContentMode) -> int {
    match mode {
        ContentMode::Tv => 0,
        ContentMode::Animation => 1,
        ContentMode::CameraVideos => 2,
        ContentMode::Stabilize => 3,
        ContentMode::Trim => 4,
        ContentMode::PhotoSlideshow => 5,
    }
}

pub fn mode_index(mode: ContentMode) -> (r: usize)
    ensures
        r == mode_position(mode),
        r < 6,
        all_modes()[r as int] == mode,
{
    match mode {
        ContentMode::Tv => 0,
        ContentMode::Animation => 1,
        ContentMode::CameraVideos => 2,
        ContentMode::Stabilize => 3,
        ContentMode::Trim => 4,
        ContentMode::PhotoSlideshow => 5,
    }
}

impl AppPreferences {
    pub open spec fn wf(&self) -> bool {
        is_mode_table(settings_views(self.settings_by_mode@))
    }

    /// Fresh preferences, from the settings that each workflow starts from.
    pub fn with_defaults(defaults: Vec<QueueSettings>) -> (r: AppPreferences)
        requires
            is_mode_table(settings_views(defaults@)),
        ensures
            r.wf(),
            r.selected_mode == ContentMode::Tv,
            r.prevent_system_sleep,
            settings_views(r.settings_by_mode@) == settings_views(defaults@),
    {
        AppPreferences {
            selected_mode: ContentMode::Tv,
            settings_by_mode: defaults,
            prevent_system_sleep: true,
        }
    }
}

/// Stored settings under the name of a workflow.
#[derive(Debug, PartialEq, Eq)]
pub struct StoredModeSettings {
    pub mode_name: String,
    pub settings: StoredSettings,
    pub facts: SettingsFacts,
}

pub open spec fn mode_entry_views(
    list: Seq<StoredModeSettings>,
) -> Seq<(Seq<char>, StoredView, FactsView)> {
    list.map_values(|e: StoredModeSettings| (e.mode_name@, e.settings@, e.facts@))
}

/// The settings that an entry gives to the workflow that it is stored under.
pub open spec fn mode_entry_settings(
    entry: (Seq<char>, StoredView, FactsView),
) -> Option<SettingsView> {
    match (mode_labelled(entry.0), restored_settings(entry.1, entry.2)) {
        (Some(mode), Some(settings)) => if settings.mode == mode {
            Some(settings)
        } else {
            None
        },
        _ => None,
    }
}

/// The table with every usable entry in place of the settings of its workflow.
pub open spec fn restored_table(
    table: Seq<SettingsView>,
    entries: Seq<(Seq<char>, StoredView, FactsView)>,
) -> Seq<SettingsView>
    decreases entries.len(),
{
    if entries.len() == 0 {
        table
    } else {
        let before = restored_table(table, entries.drop_last());
        match mode_entry_settings(entries.last()) {
            Some(settings) => before.update(mode_position(settings.mode), settings),
            None => before,
        }
    }
}

/// The preferences that stored preferences mean. The selected workflow is not stored.
pub fn load_preferences(
    defaults: Vec<QueueSettings>,
    stored: &Vec<StoredModeSettings>,
    prevent_system_sleep: bool,
) -> (r: AppPreferences)
    requires
        is_mode_table(settings_views(defaults@)),
    ensures
        r.wf(),
        r.selected_mode == ContentMode::Tv,
        r.prevent_system_sleep == prevent_system_sleep,
        settings_views(r.settings_by_mode@) == restored_table(
            settings_views(defaults@),
            mode_entry_views(stored@),
        ),
{
    let ghost first = settings_views(defaults@);
    let ghost all = mode_entry_views(stored@);
    let mut table = defaults;
    let mut i: usize = 0;
    assert(all.take(0) =~= Seq::empty());
    while i < stored.len()
        invariant
            i <= stored@.len(),
            all == mode_entry_views(stored@),
            settings_views(table@) == restored_table(first, all.take(i as int)),
            is_mode_table(settings_views(table@)),
        decreases stored@.len() - i,
    {
        let entry = &stored[i];
        let ghost before = settings_views(table@);
        proof {
            assert(all.take(i + 1).drop_last() =~= all.take(i as int));
            assert(all.take(i + 1).last() == (entry.mode_name@, entry.settings@, entry.facts@));
        }
        if let Some(mode) = ContentMode::from_label(entry.mode_name.as_str()) {
            if let Some(settings) = entry.settings.into_settings(&entry.facts) {
                if settings.mode == mode {
                    let at: usize = mode_index(mode);
                    let ghost new = settings@;
                    assert(table@.len() == before.len());
                    table[at] = settings;
                    assert(settings_views(table@) =~= before.update(at as int, new));
                }
            }
        }
        i = i + 1;
    }
    assert(all.take(i as int) =~= all);
    AppPreferences {
        selected_mode: ContentMode::Tv,
        settings_by_mode: table,
        prevent_system_sleep,
    }
}

/// The preferences as they are stored: each workflow's name with its settings.
pub fn save_preferences(preferences: &AppPreferences) -> (r: Vec<(String, StoredSettings)>)
    requires
        preferences.wf(),
    ensures
        r@.len() == 6,
        forall|i: int|
            0 <= i < 6 ==> (#[trigger] r@[i]).0@ == mode_label(all_modes()[i]) && r@[i].1@
                == stored_form(preferences.settings_by_mode@[i]@),
{
    let list = &preferences.settings_by_mode;
    assert(list@.len() == settings_views(list@).len());
    let modes = ContentMode::all();
    let mut r: Vec<(String, StoredSettings)> = Vec::new();
    let mut i: usize = 0;
    while i < 6
        invariant
            i <= 6,
            list@.len() == 6,
            modes@ == all_modes(),
            r@.len() == i,
            forall|k: int|
                0 <= k < i ==> (#[trigger] r@[k]).0@ == mode_label(all_modes()[k]) && r@[k].1@
                    == stored_form(list@[k]@),
        decreases 6 - i,
    {
        r.push((modes[i].label().to_owned(), StoredSettings::from_settings(&list[i])));
        i = i + 1;
    }
    r
}

/// The stored settings of the workflows; `facts` has what each is read against.
pub open spec fn stored_table(
    table: Seq<SettingsView>,
    facts: Seq<FactsView>,
) -> Seq<(Seq<char>, StoredView, FactsView)> {
    Seq::new(table.len(), |i: int| (mode_label(table[i].mode), stored_form(table[i]), facts[i]))
}

/// Reading stored preferences gives back what storing keeps of the settings of every workflow: all of
/// storable settings.
pub proof fn law_preferences_round_trip(
    table: Seq<SettingsView>,
    defaults: Seq<SettingsView>,
    facts: Seq<FactsView>,
)
    requires
        is_mode_table(table),
        is_mode_table(defaults),
    ensures
        is_mode_table(restored_table(defaults, stored_table(table, facts))),
        forall|i: int|
            0 <= i < 6 ==> settings_come_back(
                #[trigger] table[i],
                restored_table(defaults, stored_table(table, facts))[i],
                facts[i].existing_files,
            ),
        forall|i: int|
            0 <= i < 6 && storable(#[trigger] table[i], facts[i].existing_files) ==> restored_table(
                defaults,
                stored_table(table, facts),
            )[i] == table[i],
{
    let entries = stored_table(table, facts);
    lemma_table_prefix(table, defaults, facts, 6);
    assert(entries.take(6) =~= entries);
    let out = restored_table(defaults, entries);
    assert forall|i: int| 0 <= i < 6 implies (#[trigger] out[i]).mode == all_modes()[i] by {
        assert(settings_come_back(table[i], out[i], facts[i].existing_files));
    }
}

proof fn lemma_table_prefix(
    table: Seq<SettingsView>,
    defaults: Seq<SettingsView>,
    facts: Seq<FactsView>,
    n: int,
)
    requires
        is_mode_table(table),
        is_mode_table(defaults),
        0 <= n <= 6,
    ensures
        ({
            let out = restored_table(defaults, stored_table(table, facts).take(n));
            &&& out.len() == 6
            &&& forall|i: int|
                0 <= i < n ==> settings_come_back(
                    #[trigger] table[i],
                    out[i],
                    facts[i].existing_files,
                )
            &&& forall|i: int|
                0 <= i < n && storable(#[trigger] table[i], facts[i].existing_files) ==> out[i]
                    == table[i]
        }),
    decreases n,
{
    let entries = stored_table(table, facts);
    if n > 0 {
        lemma_table_prefix(table, defaults, facts, n - 1);
        assert(entries.take(n).drop_last() =~= entries.take(n - 1));
        let s = table[n - 1];
        assert(entries.take(n).last() == (mode_label(s.mode), stored_form(s), facts[n - 1]));
        law_mode_labels_round_trip(s.mode, s.mode);
        law_settings_round_trip(s, facts[n - 1]);
        assert(s.mode == all_modes()[n - 1]);
        assert(mode_position(s.mode) == n - 1);
    } else {
        assert(entries.take(0) =~= Seq::empty());
    }
}

} // verus!
