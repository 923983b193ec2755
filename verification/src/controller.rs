//! The program as its front end sees it: the queue, the settings form, the history, and the task that
//! is being put together.

use crate::board::{Board, BoardView, QueueRunState};
use crate::failures::{FailureView, RunFailures};
use crate::finish::{finished, resumed, HistoryOutcome, WorkerOutcome};
use crate::form::{fresh_form, FormView, SettingsForm};
use crate::history::{row_views, CompletedHistoryRow};
use crate::indicator::PlatformIndicator;
use crate::jobs::{CameraRunInfo, HistoryMediaInfo};
use crate::model::{
    opt_preview, ContentMode, ConversionEvent, ConversionPreview, ConversionProgress, Encoder,
    PreviewView, QueueSettings, SettingsView,
};
use crate::presets::{PresetView, Presets, Surroundings, SurroundingsView};
use crate::progress::{should_inhibit_sleep, StreamCarryInfo};
use crate::queue::{task_views, Queue, TaskView};
use crate::run::{opt_order, queue_started, started, went_on, NextStep, StartOrder, StepView};
use crate::selection::{only, Selection, SelectionView};
use crate::stored_queue::{
    is_mode_table, mode_position, settings_views, AppPreferences, LoadedQueue,
};
use crate::text::{
    concat2, concat3, decimal, decimal_text, join_texts, join_with, opt_text, same_text, texts,
    to_chars,
};
use crate::watch::{restored_folder_watches, restored_watches, watch_summaries};
use vstd::prelude::*;

verus! {

/// A task that is being put together.
#[derive(Debug, PartialEq, Eq)]
pub struct SlintTaskDraft {
    pub settings: QueueSettings,
    pub targets: Vec<String>,
}

/// The contents of a `SlintTaskDraft`.
pub struct DraftView {
    pub settings: SettingsView,
    pub targets: Seq<Seq<char>>,
}

impl View for SlintTaskDraft {
    type V = DraftView;

    open spec fn view(&self) -> DraftView {
        DraftView { settings: self.settings@, targets: texts(self.targets@) }
    }
}

pub open spec fn opt_draft(draft: Option<SlintTaskDraft>) -> Option<DraftView> {
    match draft {
        Some(d) => Some(d@),
        None => None,
    }
}

/// The preferences that were last saved, apart from the settings of the workflows.
#[derive(Debug, Clone, Copy, PartialEq, Eq, Structural)]
pub struct SavedPreferences {
    pub mode: ContentMode,
    pub prevent_sleep: bool,
    pub cpu_limit: usize,
}

/// The state of the program.
#[derive(Debug)]
pub struct SlintController {
    pub board: Board,
    pub form: SettingsForm,
    pub task_draft: Option<SlintTaskDraft>,
    pub history: Vec<CompletedHistoryRow>,
    pub history_filter: String,
    pub engine_status: String,
    pub available_encoders: Vec<Encoder>,
    pub prevent_sleep: bool,
    pub cpu_limit: usize,
    pub preview_enabled: bool,
    /// How far the running conversion is.
    pub progress: Option<ConversionProgress>,
    /// What the running conversion keeps of its source.
    pub carried: Option<StreamCarryInfo>,
    /// What is known of the source of the running conversion.
    pub source: Option<HistoryMediaInfo>,
    /// The camera that the source comes from.
    pub camera: CameraRunInfo,
    /// The last picture of the running conversion.
    pub live_preview: Option<ConversionPreview>,
    /// The task to go on with from an earlier session.
    pub resume_task_id: Option<String>,
    pub saved: SavedPreferences,
    /// The preferences have changed since they were last saved.
    pub unsaved_preferences: bool,
    pub activity_log: Vec<String>,
    pub logged_activity: String,
    pub indicator: PlatformIndicator,
}

/// The contents of a `SlintController`.
pub struct ControllerView {
    pub board: BoardView,
    pub form: FormView,
    pub task_draft: Option<DraftView>,
    pub history: Seq<Seq<Seq<char>>>,
    pub history_filter: Seq<char>,
    pub engine_status: Seq<char>,
    pub available_encoders: Seq<Encoder>,
    pub prevent_sleep: bool,
    pub cpu_limit: usize,
    pub preview_enabled: bool,
    pub progress: Option<ConversionProgress>,
    pub carried: Option<StreamCarryInfo>,
    pub source: Option<HistoryMediaInfo>,
    pub camera: CameraRunInfo,
    pub live_preview: Option<PreviewView>,
    pub resume_task_id: Option<Seq<char>>,
    pub saved: SavedPreferences,
    pub unsaved_preferences: bool,
    pub activity_log: Seq<Seq<char>>,
    pub logged_activity: Seq<char>,
    pub indicator: PlatformIndicator,
}

impl View for SlintController {
    type V = ControllerView;

    open spec fn view(&self) -> ControllerView {
        ControllerView {
            board: self.board@,
            form: self.form@,
            task_draft: opt_draft(self.task_draft),
            history: row_views(self.history@),
            history_filter: self.history_filter@,
            engine_status: self.engine_status@,
            available_encoders: self.available_encoders@,
            prevent_sleep: self.prevent_sleep,
            cpu_limit: self.cpu_limit,
            preview_enabled: self.preview_enabled,
            progress: self.progress,
            carried: self.carried,
            source: self.source,
            camera: self.camera,
            live_preview: opt_preview(self.live_preview),
            resume_task_id: opt_text(self.resume_task_id),
            saved: self.saved,
            unsaved_preferences: self.unsaved_preferences,
            activity_log: texts(self.activity_log@),
            logged_activity: self.logged_activity@,
            indicator: self.indicator,
        }
    }
}

/// How many lines the activity log may have.
pub const LOG_LIMIT: usize = 2_000;

/// How many lines leave the activity log when it is full.
pub const LOG_CUT: usize = 1_000;

impl ControllerView {
    /// The settings form is in order.
    pub open spec fn wf(self) -> bool {
        self.form.wf()
    }

    pub open spec fn saying(self, text: Seq<char>) -> ControllerView {
        ControllerView { board: self.board.saying(text), ..self }
    }

    pub open spec fn with_form(self, form: FormView) -> ControllerView {
        ControllerView { form, ..self }
    }

    /// Nothing is shown of a conversion.
    pub open spec fn without_run(self) -> ControllerView {
        ControllerView {
            progress: None,
            carried: None,
            source: None,
            camera: no_camera(),
            live_preview: None,
            ..self
        }
    }

    /// The next board; where it starts a conversion, nothing of an earlier one is shown.
    pub open spec fn going_on(self, board: BoardView, starts: bool) -> ControllerView {
        let next = ControllerView { board, ..self };
        if starts {
            next.without_run()
        } else {
            next
        }
    }

    /// The form's settings are kept, and the preferences are to be saved where anything changed.
    pub open spec fn synced(self, presets: Seq<PresetView>) -> ControllerView {
        let current = self.form.current(presets);
        ControllerView {
            form: self.form.remembering(self.form.mode, self.form.encoder).keeping(current),
            unsaved_preferences: self.unsaved_preferences
                || self.form.settings_by_mode[mode_position(self.form.mode)] != current
                || self.saved.mode != self.form.mode || self.saved.prevent_sleep
                != self.prevent_sleep || self.saved.cpu_limit != self.cpu_limit,
            ..self
        }
    }

    /// The activity log with what happened last, where that is new.
    pub open spec fn logged(self, time: Seq<char>) -> ControllerView {
        if self.board.activity.len() == 0 || self.board.activity == self.logged_activity {
            self
        } else {
            let log = self.activity_log.push("["@ + time + "] "@ + self.board.activity);
            ControllerView {
                logged_activity: self.board.activity,
                activity_log: if log.len() > LOG_LIMIT {
                    log.skip(LOG_CUT as int)
                } else {
                    log
                },
                ..self
            }
        }
    }
}

/// No camera is known.
pub open spec fn no_camera() -> CameraRunInfo {
    CameraRunInfo { model_name: None, lut_status: None }
}

/// What could be read of the state of an earlier session: nothing, or why it could not be read.
pub type Recovered<T> = Result<Option<T>, String>;

/// What is said of the recovery of the earlier session.
pub open spec fn recovery_notes(
    preferences: Result<bool, Seq<char>>,
    queue: Result<nat, Seq<char>>,
    history: Result<bool, Seq<char>>,
) -> Seq<Seq<char>> {
    let settings = match preferences {
        Ok(_) => Seq::empty(),
        Err(e) => seq!["Settings recovery skipped: "@ + e],
    };
    let tasks = match queue {
        Ok(n) => if n > 0 {
            seq!["Restored "@ + decimal(n) + " queue item(s)"@]
        } else {
            Seq::empty()
        },
        Err(e) => seq!["Queue recovery skipped: "@ + e],
    };
    let files = match history {
        Ok(_) => Seq::empty(),
        Err(e) => seq!["Completed history recovery skipped: "@ + e],
    };
    settings + tasks + files
}

/// What the program says first.
pub open spec fn first_words(notes: Seq<Seq<char>>) -> Seq<char> {
    if notes.len() == 0 {
        "Ready"@
    } else {
        join_texts(notes, " · "@)
    }
}

/// The selection as the program starts: the first task, and no place where a range starts.
pub open spec fn first_selected(tasks: Seq<TaskView>) -> SelectionView {
    if tasks.len() > 0 {
        SelectionView {
            primary: Some(tasks[0].id),
            ids: set![tasks[0].id],
            anchor: None,
        }
    } else {
        only(None)
    }
}

/// The contents of preferences: the selected workflow, the settings of each, and whether the system is
/// kept awake.
pub open spec fn preferences_view(p: AppPreferences) -> (ContentMode, Seq<SettingsView>, bool) {
    (p.selected_mode, settings_views(p.settings_by_mode@), p.prevent_system_sleep)
}

/// The preferences that the program starts with: those that were read, or else fresh ones.
pub open spec fn first_preferences(
    preferences: Recovered<AppPreferences>,
    defaults: Seq<SettingsView>,
) -> (ContentMode, Seq<SettingsView>, bool) {
    match preferences {
        Ok(Some(p)) => preferences_view(p),
        _ => (ContentMode::Tv, defaults, true),
    }
}

/// The queue that the program starts with: its tasks, the task to go on with, and the next number.
pub open spec fn first_queue(queue: Recovered<LoadedQueue>) -> (Seq<TaskView>, Option<Seq<char>>, u64) {
    match queue {
        Ok(Some(q)) => (q.queue@, opt_text(q.resume_task_id), q.next_id),
        _ => (Seq::empty(), None, 1),
    }
}

/// The failures that the program starts with: those that were kept with its queue.
pub open spec fn first_failures(queue: Recovered<LoadedQueue>, failures: RunFailures) -> Seq<
    FailureView,
> {
    match queue {
        Ok(Some(_)) => failures@,
        _ => Seq::empty(),
    }
}

/// What the program says of what it read.
pub open spec fn first_notes(
    preferences: Recovered<AppPreferences>,
    queue: Recovered<LoadedQueue>,
    history: Result<Vec<CompletedHistoryRow>, String>,
) -> Seq<Seq<char>> {
    recovery_notes(
        match preferences {
            Ok(_) => Ok(true),
            Err(e) => Err(e@),
        },
        match queue {
            Ok(Some(q)) => Ok(q.queue@.len()),
            Ok(None) => Ok(0),
            Err(e) => Err(e@),
        },
        match history {
            Ok(_) => Ok(true),
            Err(e) => Err(e@),
        },
    )
}

/// The program as it starts.
pub open spec fn first_state(
    preferences: Recovered<AppPreferences>,
    defaults: Seq<SettingsView>,
    queue: Recovered<LoadedQueue>,
    failures: RunFailures,
    history: Result<Vec<CompletedHistoryRow>, String>,
    cpu_limit: usize,
    env: SurroundingsView,
) -> ControllerView {
    let (mode, table, awake) = first_preferences(preferences, defaults);
    let (tasks, resume_task_id, next_id) = first_queue(queue);
    let watched = restored_watches(env.disk, tasks);
    let failed = first_failures(queue, failures);
    ControllerView {
        board: BoardView {
            tasks,
            selection: first_selected(tasks),
            next_id,
            run_state: QueueRunState::Idle,
            worker: None,
            watched,
            summaries: watch_summaries(env, tasks, failed, watched),
            failures: failed,
            starts: Map::empty(),
            activity: first_words(first_notes(preferences, queue, history)),
            completion_notice: Seq::empty(),
            unsaved: false,
        },
        form: fresh_form(mode, table),
        task_draft: None,
        history: match history {
            Ok(rows) => row_views(rows@),
            Err(_) => Seq::empty(),
        },
        history_filter: Seq::empty(),
        engine_status: "Initializing direct FFmpeg…"@,
        available_encoders: Seq::empty(),
        prevent_sleep: awake,
        cpu_limit,
        preview_enabled: false,
        progress: None,
        carried: None,
        source: None,
        camera: no_camera(),
        live_preview: None,
        resume_task_id,
        saved: SavedPreferences { mode, prevent_sleep: awake, cpu_limit },
        unsaved_preferences: false,
        activity_log: Seq::empty(),
        logged_activity: Seq::empty(),
        indicator: PlatformIndicator { converting: None },
    }
}

fn no_text() -> (r: String)
    ensures
        r@ == Seq::<char>::empty(),
{
    let r = String::new();
    assert(r@ =~= Seq::<char>::empty());
    r
}

fn notes_of(
    preferences: Option<&str>,
    queue: Result<usize, &str>,
    history: Option<&str>,
) -> (r: Vec<String>)
    ensures
        texts(r@) == recovery_notes(
            match preferences {
                None => Ok(true),
                Some(e) => Err(e@),
            },
            match queue {
                Ok(n) => Ok(n as nat),
                Err(e) => Err(e@),
            },
            match history {
                None => Ok(true),
                Some(e) => Err(e@),
            },
        ),
{
    let mut r: Vec<String> = Vec::new();
    if let Some(e) = preferences {
        r.push(concat2("Settings recovery skipped: ", e));
    }
    match queue {
        Ok(n) => {
            if n > 0 {
                r.push(concat3("Restored ", decimal_text(n as u128).as_str(), " queue item(s)"));
            }
        },
        Err(e) => {
            r.push(concat2("Queue recovery skipped: ", e));
        },
    }
    if let Some(e) = history {
        r.push(concat2("Completed history recovery skipped: ", e));
    }
    assert(texts(r@) =~= recovery_notes(
        match preferences {
            None => Ok(true),
            Some(e) => Err(e@),
        },
        match queue {
            Ok(n) => Ok(n as nat),
            Err(e) => Err(e@),
        },
        match history {
            None => Ok(true),
            Some(e) => Err(e@),
        },
    ));
    r
}

fn task_count(queue: &Queue) -> (r: usize)
    ensures
        r == queue@.len(),
{
    let tasks = queue.tasks();
    assert(task_views(tasks@).len() == tasks@.len());
    tasks.len()
}

fn select_first(queue: &Queue) -> (r: Selection)
    ensures
        r@ == first_selected(queue@),
{
    let tasks = queue.tasks();
    assert(task_views(tasks@).len() == tasks@.len());
    if tasks.len() > 0 {
        assert(queue@[0] == tasks@[0]@);
        let mut ids: Vec<String> = Vec::new();
        ids.push(tasks[0].id.clone());
        let r = Selection { primary: Some(tasks[0].id.clone()), ids, anchor: None };
        assert(r.ids@[0]@ == queue@[0].id);
        assert(texts(r.ids@) =~= seq![queue@[0].id]);
        assert(r@.ids =~= set![queue@[0].id]) by {
            assert(seq![queue@[0].id][0] == queue@[0].id);
        }
        r
    } else {
        let r = Selection { primary: None, ids: Vec::new(), anchor: None };
        assert(texts(r.ids@) =~= Seq::<Seq<char>>::empty());
        assert(r@.ids =~= Set::<Seq<char>>::empty());
        r
    }
}

impl SlintController {
    /// The program as it starts, from what an earlier session left; `failures` were kept with the queue,
    /// and `defaults` has the settings that each workflow starts from.
    pub fn restore(
        preferences: Recovered<AppPreferences>,
        defaults: Vec<QueueSettings>,
        queue: Recovered<LoadedQueue>,
        failures: RunFailures,
        history: Result<Vec<CompletedHistoryRow>, String>,
        cpu_limit: usize,
        env: &Surroundings,
    ) -> (r: Self)
        requires
            is_mode_table(settings_views(defaults@)),
            preferences matches Ok(Some(p)) ==> p.wf(),
        ensures
            r@ == first_state(
                preferences,
                settings_views(defaults@),
                queue,
                failures,
                history,
                cpu_limit,
                env@,
            ),
            r@.wf(),
    {
        let ghost all_notes = first_notes(preferences, queue, history);
        let notes = notes_of(
            match &preferences {
                Ok(_) => None,
                Err(e) => Some(e.as_str()),
            },
            match &queue {
                Ok(Some(q)) => {
                    Ok(task_count(&q.queue))
                },
                Ok(None) => Ok(0),
                Err(e) => Err(e.as_str()),
            },
            match &history {
                Ok(_) => None,
                Err(e) => Some(e.as_str()),
            },
        );
        assert(texts(notes@) == all_notes);
        assert(all_notes.len() == notes@.len());
        let activity = if notes.len() == 0 {
            "Ready".to_owned()
        } else {
            join_with(&notes, " · ")
        };
        let preferences = match preferences {
            Ok(Some(p)) => p,
            _ => AppPreferences::with_defaults(defaults),
        };
        let (loaded, failed) = match queue {
            Ok(Some(q)) => (q, failures),
            _ => (
                LoadedQueue { queue: Queue::default(), resume_task_id: None, next_id: 1 },
                RunFailures::default(),
            ),
        };
        let history = match history {
            Ok(rows) => rows,
            Err(_) => {
                let none: Vec<CompletedHistoryRow> = Vec::new();
                assert(row_views(none@) =~= Seq::<Seq<Seq<char>>>::empty());
                none
            },
        };
        let mode = preferences.selected_mode;
        let awake = preferences.prevent_system_sleep;
        let mut board = Board::new();
        board.selection = select_first(&loaded.queue);
        board.queue = loaded.queue;
        board.next_id = loaded.next_id;
        board.failures = failed;
        board.watched = restored_folder_watches(&env.disk, &board.queue);
        board.refresh_folder_summaries(env);
        board.activity = activity;
        let encoders: Vec<Encoder> = Vec::new();
        let log: Vec<String> = Vec::new();
        assert(texts(log@) =~= Seq::<Seq<char>>::empty());
        SlintController {
            board,
            form: SettingsForm::new(preferences),
            task_draft: None,
            history,
            history_filter: no_text(),
            engine_status: "Initializing direct FFmpeg…".to_owned(),
            available_encoders: encoders,
            prevent_sleep: awake,
            cpu_limit,
            preview_enabled: false,
            progress: None,
            carried: None,
            source: None,
            camera: CameraRunInfo::default(),
            live_preview: None,
            resume_task_id: loaded.resume_task_id,
            saved: SavedPreferences { mode, prevent_sleep: awake, cpu_limit },
            unsaved_preferences: false,
            activity_log: log,
            logged_activity: no_text(),
            indicator: PlatformIndicator::default(),
        }
    }

    /// The form's settings are kept, and the preferences are to be saved where anything changed.
    pub fn sync_preferences(&mut self, presets: &Presets)
        requires
            old(self)@.wf(),
        ensures
            final(self)@ == old(self)@.synced(presets@),
            final(self)@.wf(),
    {
        let changed = self.form.sync_settings(presets);
        if changed || self.saved.mode != self.form.mode || self.saved.prevent_sleep
            != self.prevent_sleep || self.saved.cpu_limit != self.cpu_limit {
            self.unsaved_preferences = true;
        }
    }

    /// Notes that the preferences were saved, or why they could not be.
    pub fn note_preferences_saved(&mut self, failure: Option<&str>)
        ensures
            final(self)@ == match failure {
                None => ControllerView {
                    unsaved_preferences: false,
                    saved: SavedPreferences {
                        mode: old(self)@.form.mode,
                        prevent_sleep: old(self)@.prevent_sleep,
                        cpu_limit: old(self)@.cpu_limit,
                    },
                    ..old(self)@
                },
                Some(e) => (ControllerView {
                    unsaved_preferences: false,
                    ..old(self)@
                }).saying("Unable to save settings: "@ + e@),
            },
    {
        self.unsaved_preferences = false;
        match failure {
            None => {
                self.saved = SavedPreferences {
                    mode: self.form.mode,
                    prevent_sleep: self.prevent_sleep,
                    cpu_limit: self.cpu_limit,
                };
            },
            Some(e) => {
                self.board.activity = concat2("Unable to save settings: ", e);
            },
        }
    }

    /// The preferences, as they are saved.
    pub fn preferences(&self) -> (r: AppPreferences)
        requires
            self@.wf(),
        ensures
            r.wf(),
            r.selected_mode == self@.form.mode,
            r.prevent_system_sleep == self@.prevent_sleep,
            settings_views(r.settings_by_mode@) == self@.form.settings_by_mode,
    {
        let mut table: Vec<QueueSettings> = Vec::new();
        let ghost all = self@.form.settings_by_mode;
        let mut i: usize = 0;
        while i < self.form.settings_by_mode.len()
            invariant
                i <= self.form.settings_by_mode@.len(),
                all == settings_views(self.form.settings_by_mode@),
                settings_views(table@) == all.take(i as int),
            decreases self.form.settings_by_mode@.len() - i,
        {
            let ghost before = settings_views(table@);
            table.push(self.form.settings_by_mode[i].clone());
            assert(settings_views(table@) =~= before.push(all[i as int]));
            i = i + 1;
            assert(settings_views(table@) =~= all.take(i as int));
        }
        assert(all.take(i as int) =~= all);
        AppPreferences {
            selected_mode: self.form.mode,
            settings_by_mode: table,
            prevent_system_sleep: self.prevent_sleep,
        }
    }

    /// Adds what happened last to the activity log, where that is new, and says whether it was.
    pub fn capture_activity_log(&mut self, time: &str) -> (r: bool)
        ensures
            final(self)@ == old(self)@.logged(time@),
            r == (old(self)@.board.activity.len() > 0 && old(self)@.board.activity != old(
                self,
            )@.logged_activity),
    {
        let chars = to_chars(self.board.activity.as_str());
        if chars.len() == 0 || same_text(self.board.activity.as_str(), self.logged_activity.as_str()) {
            return false;
        }
        self.logged_activity = self.board.activity.clone();
        let mut line = concat3("[", time, "] ");
        line.append(self.board.activity.as_str());
        let ghost before = texts(self.activity_log@);
        let ghost text = line@;
        self.activity_log.push(line);
        assert(texts(self.activity_log@) =~= before.push(text));
        if self.activity_log.len() > LOG_LIMIT {
            let kept = self.activity_log.split_off(LOG_CUT);
            assert(texts(kept@) =~= before.push(text).skip(LOG_CUT as int));
            self.activity_log = kept;
        }
        true
    }

    /// Takes what is known of the engine: its description and the encoders that it has; nothing where
    /// the search for them ended without a result.
    pub fn accept_engine_details(&mut self, details: Option<(String, Vec<Encoder>)>)
        ensures
            final(self)@ == match details {
                Some((status, encoders)) => ControllerView {
                    engine_status: status@,
                    available_encoders: encoders@,
                    ..old(self)@
                },
                None => ControllerView {
                    engine_status: "Direct FFmpeg capability discovery stopped unexpectedly"@,
                    ..old(self)@
                },
            },
    {
        match details {
            Some((status, encoders)) => {
                self.engine_status = status;
                self.available_encoders = encoders;
            },
            None => {
                self.engine_status = "Direct FFmpeg capability discovery stopped unexpectedly".to_owned();
            },
        }
    }

    /// Takes what the engine reports of the running conversion, and says whether there is a new picture
    /// of it.
    pub fn handle_conversion_event(&mut self, event: ConversionEvent) -> (r: bool)
        ensures
            final(self)@ == match event {
                ConversionEvent::Started { input, .. } => old(self)@.saying(
                    "Converting "@ + input@,
                ),
                ConversionEvent::Progress(progress) => ControllerView {
                    progress: Some(progress),
                    ..old(self)@
                },
                ConversionEvent::Preview(picture) => ControllerView {
                    live_preview: Some(picture@),
                    ..old(self)@
                },
                ConversionEvent::Warning(message) => old(self)@.saying(message@),
                ConversionEvent::Completed { output } => old(self)@.saying("Validated "@ + output@),
            },
            r == (event is Preview),
    {
        match event {
            ConversionEvent::Started { input, .. } => {
                self.board.activity = concat2("Converting ", input.as_str());
                false
            },
            ConversionEvent::Progress(progress) => {
                self.progress = Some(progress);
                false
            },
            ConversionEvent::Preview(picture) => {
                self.live_preview = Some(picture);
                true
            },
            ConversionEvent::Warning(message) => {
                self.board.activity = message;
                false
            },
            ConversionEvent::Completed { output } => {
                self.board.activity = concat2("Validated ", output.as_str());
                false
            },
        }
    }

    /// Takes what is known of the source of the running conversion, and what is kept of it.
    pub fn take_source_info(&mut self, source: HistoryMediaInfo, carried: StreamCarryInfo)
        ensures
            final(self)@ == (ControllerView {
                source: Some(source),
                carried: Some(carried),
                ..old(self)@
            }),
    {
        self.source = Some(source);
        self.carried = Some(carried);
    }

    pub fn take_camera_info(&mut self, camera: CameraRunInfo)
        ensures
            final(self)@ == (ControllerView { camera, ..old(self)@ }),
    {
        self.camera = camera;
    }

    fn forget_run(&mut self)
        ensures
            final(self)@ == old(self)@.without_run(),
    {
        self.progress = None;
        self.carried = None;
        self.source = None;
        self.camera = CameraRunInfo::default();
        self.live_preview = None;
    }

    /// Takes what the queue does next; where a conversion starts, nothing of an earlier one is shown.
    pub(crate) fn show_step(&mut self, step: &NextStep)
        ensures
            final(self)@ == old(self)@.going_on(old(self)@.board, step@ is Start),
    {
        if matches!(step, NextStep::Start(_)) {
            self.forget_run();
        }
    }

    /// Takes the history as it was read, or why it could not be.
    pub fn refresh_completed_history(&mut self, rows: Result<Vec<CompletedHistoryRow>, String>)
        ensures
            final(self)@ == match rows {
                Ok(rows) => ControllerView { history: row_views(rows@), ..old(self)@ },
                Err(e) => old(self)@.saying("Unable to refresh completed history: "@ + e@),
            },
    {
        match rows {
            Ok(rows) => {
                self.history = rows;
            },
            Err(e) => {
                self.board.activity = concat2("Unable to refresh completed history: ", e.as_str());
            },
        }
    }

    /// Whether the system is to be kept awake.
    pub fn wants_awake(&self) -> (r: bool)
        ensures
            r == (self@.prevent_sleep && self@.board.worker is Some && !self@.board.worker->0.paused),
    {
        match &self.board.worker {
            Some(worker) => should_inhibit_sleep(self.prevent_sleep, true, worker.paused),
            None => should_inhibit_sleep(self.prevent_sleep, false, false),
        }
    }

    /// Notes that the system could not be kept awake; it is not tried again.
    pub fn note_awake_failure(&mut self, error: &str)
        ensures
            final(self)@ == (ControllerView { prevent_sleep: false, ..old(self)@ }).saying(
                "Unable to prevent system sleep: "@ + error@,
            ),
    {
        self.prevent_sleep = false;
        self.board.activity = concat2("Unable to prevent system sleep: ", error);
    }

    /// Starts the queue that an earlier session left running, once.
    pub fn resume_persisted(&mut self, env: &Surroundings) -> (r: Option<NextStep>)
        ensures
            match r {
                Some(step) => {
                    &&& old(self)@.board.worker is None && old(self)@.resume_task_id is Some
                    &&& (final(self)@.board, step@) == queue_started(
                        old(self)@.board.saying("Resuming persisted queue"@),
                        env@,
                    )
                    &&& final(self)@ == (ControllerView {
                        resume_task_id: None,
                        ..old(self)@
                    }).going_on(final(self)@.board, step@ is Start)
                },
                None => {
                    &&& old(self)@.board.worker is Some || old(self)@.resume_task_id is None
                    &&& final(self)@ == old(self)@
                },
            },
    {
        if self.board.worker.is_some() || self.resume_task_id.is_none() {
            return None;
        }
        self.resume_task_id = None;
        self.board.say("Resuming persisted queue");
        let step = self.board.start_queue(env);
        self.show_step(&step);
        Some(step)
    }

    /// Selects a task by its place in the queue.
    pub fn select_task(&mut self, index: usize)
        ensures
            final(self)@ == (ControllerView {
                board: old(self)@.board.selecting(
                    if index < old(self)@.board.tasks.len() {
                        Some(old(self)@.board.tasks[index as int].id)
                    } else {
                        None
                    },
                ),
                ..old(self)@
            }),
    {
        let tasks = self.board.queue.tasks();
        assert(crate::queue::task_views(tasks@).len() == tasks@.len());
        let id = if index < tasks.len() {
            assert(self.board@.tasks[index as int] == tasks@[index as int]@);
            Some(tasks[index].id.clone())
        } else {
            None
        };
        self.board.select_only(id);
    }

    /// Starts the queue, unless a conversion runs.
    pub fn start_queue(&mut self, env: &Surroundings) -> (r: NextStep)
        ensures
            (final(self)@.board, r@) == if old(self)@.board.worker is None {
                queue_started(old(self)@.board, env@)
            } else {
                (old(self)@.board, StepView::Rest)
            },
            final(self)@ == old(self)@.going_on(final(self)@.board, r@ is Start),
    {
        if self.board.worker.is_some() {
            return NextStep::Rest;
        }
        let step = self.board.start_queue(env);
        self.show_step(&step);
        step
    }

    /// Goes on with the next pending task.
    pub fn start_next_pending(&mut self, env: &Surroundings) -> (r: NextStep)
        ensures
            (final(self)@.board, r@) == went_on(old(self)@.board, env@),
            final(self)@ == old(self)@.going_on(final(self)@.board, r@ is Start),
    {
        let step = self.board.start_next_pending(env);
        self.show_step(&step);
        step
    }

    /// Starts the selected task, unless a conversion runs.
    pub fn start_selected(&mut self, env: &Surroundings) -> (r: Option<StartOrder>)
        ensures
            (final(self)@.board, opt_order(r)) == if old(self)@.board.worker is None {
                started(
                    BoardView {
                        run_state: QueueRunState::RunningSelected,
                        ..old(self)@.board
                    },
                    env@,
                )
            } else {
                (old(self)@.board, None)
            },
            final(self)@ == old(self)@.going_on(final(self)@.board, r is Some),
    {
        if self.board.worker.is_some() {
            return None;
        }
        self.board.run_state = QueueRunState::RunningSelected;
        let order = self.board.start_selected(env);
        if order.is_some() {
            self.forget_run();
        }
        order
    }

    /// Takes the end of the running conversion, of which nothing more is shown then, and says whether
    /// its task goes on; nothing where no conversion runs.
    pub fn finish_conversion(
        &mut self,
        outcome: &WorkerOutcome,
        saved: &HistoryOutcome,
        env: &Surroundings,
    ) -> (r: Option<bool>)
        ensures
            match old(self)@.board.worker {
                Some(w) => {
                    let (board, goes_on) = finished(old(self)@.board, env@, w, *outcome, *saved);
                    &&& r == Some(goes_on)
                    &&& final(self)@ == (ControllerView { board, ..old(self)@ }).without_run()
                },
                None => r is None && final(self)@ == old(self)@,
            },
    {
        let goes_on = self.board.finish_worker(outcome, saved, env);
        if goes_on.is_some() {
            self.forget_run();
        }
        goes_on
    }

    /// Goes on from a conversion that has ended. `notes` tells of folders that were renamed.
    pub fn resume_after_finish(
        &mut self,
        task_id: &str,
        goes_on: bool,
        notes: &Vec<String>,
        env: &Surroundings,
    ) -> (r: NextStep)
        ensures
            (final(self)@.board, r@) == resumed(
                old(self)@.board,
                env@,
                task_id@,
                goes_on,
                texts(notes@),
            ),
            final(self)@ == old(self)@.going_on(final(self)@.board, r@ is Start),
    {
        let step = self.board.resume_after_finish(task_id, goes_on, notes, env);
        self.show_step(&step);
        step
    }
}

} // verus!
