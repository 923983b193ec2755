//! All that the front end shows at one time.

use crate::board::{task_named, BoardView};
use crate::controller::{ControllerView, SlintController};
use crate::drafts::{draft_plan, task_draft_output_summary};
use crate::failures::failures_of;
use crate::finish::is_between_files;
use crate::jobs::{encoding_columns, encoding_texts};
use crate::model::{
    encoder_user_name, mode_label, opt_preview, ConversionPreview, PreviewView, QueueSettings,
    SettingsView,
};
use crate::output_naming::text_or;
use crate::presets::{Surroundings, SurroundingsView};
use crate::progress::{
    carried_audio_text, carried_subtitles_text, clock_or_dash, format_carried_audio,
    format_carried_subtitles, format_clock_or_dash, format_frame_progress, frame_progress_text,
    progress_fraction, progress_points, target_fps_status_with_source, target_rate_text,
};
use crate::queue::{has_id, position_of, task_views, QueueStatus, QueueTask, TaskView};
use crate::settings_rows::{
    place_as_signed, settings_row, signed_place, slint_settings_snapshot, SettingsRowView,
    SlintSettingsSnapshot,
};
use crate::targets::opt_slice;
use crate::task_edit::shown_task;
use crate::task_files::{
    listed_files, selected_task_files, task_file_views, FileView, SlintTaskFileSnapshot,
};
use crate::task_rows::{
    attention_count, errors_text, filtered_history, history_row_views, needs_attention,
    shown_history, task_error_detail, task_row_views, task_rows, HistoryRowView,
    SlintHistorySnapshot, SlintTaskSnapshot, TaskRowView,
};
use crate::text::{concat3, copy_list, opt_text, same_text, texts, to_chars};
use crate::time::{smaller, Duration, MAX_NANOS};
use std::collections::VecDeque;
use vstd::prelude::*;

verus! {

/// What the front end measures and words of the running conversion: rates, times, and the load of the
/// processor.
#[derive(Debug, PartialEq, Eq)]
pub struct LiveFigures {
    /// The frames converted in a second.
    pub conversion_fps: Option<String>,
    /// The speed as against playback.
    pub conversion_speed: Option<String>,
    /// The frame rate that the engine reports.
    pub reported_fps: Option<String>,
    /// The frame rate that the task asks for, rounded.
    pub exact_fps: String,
    /// The frame rate that the task asks for, in full.
    pub written_fps: String,
    /// The frames of the source by its playing time.
    pub frame_estimate: Option<u64>,
    /// The time that the conversion has taken.
    pub spent: Duration,
    /// The time that the conversion will still take, where it is known.
    pub remaining: Option<Duration>,
    pub cpu_usage: Option<String>,
    pub cpu_limit_summary: String,
    /// The size of the first target of the new task, where that is a file.
    pub draft_size: Option<u64>,
}

/// The contents of `LiveFigures`.
pub struct FiguresView {
    pub conversion_fps: Option<Seq<char>>,
    pub conversion_speed: Option<Seq<char>>,
    pub reported_fps: Option<Seq<char>>,
    pub exact_fps: Seq<char>,
    pub written_fps: Seq<char>,
    pub frame_estimate: Option<u64>,
    pub spent: Duration,
    pub remaining: Option<Duration>,
    pub cpu_usage: Option<Seq<char>>,
    pub cpu_limit_summary: Seq<char>,
    pub draft_size: Option<u64>,
}

impl View for LiveFigures {
    type V = FiguresView;

    open spec fn view(&self) -> FiguresView {
        FiguresView {
            conversion_fps: opt_text(self.conversion_fps),
            conversion_speed: opt_text(self.conversion_speed),
            reported_fps: opt_text(self.reported_fps),
            exact_fps: self.exact_fps@,
            written_fps: self.written_fps@,
            frame_estimate: self.frame_estimate,
            spent: self.spent,
            remaining: self.remaining,
            cpu_usage: opt_text(self.cpu_usage),
            cpu_limit_summary: self.cpu_limit_summary@,
            draft_size: self.draft_size,
        }
    }
}

/// The running conversion, as it is shown.
#[derive(Debug, PartialEq, Eq)]
pub struct SlintLiveStatusSnapshot {
    pub position: String,
    pub duration: String,
    pub frames: String,
    pub conversion_fps: String,
    pub conversion_speed: String,
    pub original_fps: String,
    pub target_fps: String,
    pub encoder: String,
    pub quality: String,
    pub preset: String,
    pub carried_audio: String,
    pub carried_subtitles: String,
    pub spent: String,
    pub estimated_total: String,
    pub remaining: String,
    pub app_cpu: String,
}

/// The contents of a `SlintLiveStatusSnapshot`.
pub struct LiveView {
    pub position: Seq<char>,
    pub duration: Seq<char>,
    pub frames: Seq<char>,
    pub conversion_fps: Seq<char>,
    pub conversion_speed: Seq<char>,
    pub original_fps: Seq<char>,
    pub target_fps: Seq<char>,
    pub encoder: Seq<char>,
    pub quality: Seq<char>,
    pub preset: Seq<char>,
    pub carried_audio: Seq<char>,
    pub carried_subtitles: Seq<char>,
    pub spent: Seq<char>,
    pub estimated_total: Seq<char>,
    pub remaining: Seq<char>,
    pub app_cpu: Seq<char>,
}

impl View for SlintLiveStatusSnapshot {
    type V = LiveView;

    open spec fn view(&self) -> LiveView {
        LiveView {
            position: self.position@,
            duration: self.duration@,
            frames: self.frames@,
            conversion_fps: self.conversion_fps@,
            conversion_speed: self.conversion_speed@,
            original_fps: self.original_fps@,
            target_fps: self.target_fps@,
            encoder: self.encoder@,
            quality: self.quality@,
            preset: self.preset@,
            carried_audio: self.carried_audio@,
            carried_subtitles: self.carried_subtitles@,
            spent: self.spent@,
            estimated_total: self.estimated_total@,
            remaining: self.remaining@,
            app_cpu: self.app_cpu@,
        }
    }
}

impl Clone for SlintLiveStatusSnapshot {
    fn clone(&self) -> (r: Self)
        ensures
            r@ == self@,
    {
        SlintLiveStatusSnapshot {
            position: self.position.clone(),
            duration: self.duration.clone(),
            frames: self.frames.clone(),
            conversion_fps: self.conversion_fps.clone(),
            conversion_speed: self.conversion_speed.clone(),
            original_fps: self.original_fps.clone(),
            target_fps: self.target_fps.clone(),
            encoder: self.encoder.clone(),
            quality: self.quality.clone(),
            preset: self.preset.clone(),
            carried_audio: self.carried_audio.clone(),
            carried_subtitles: self.carried_subtitles.clone(),
            spent: self.spent.clone(),
            estimated_total: self.estimated_total.clone(),
            remaining: self.remaining.clone(),
            app_cpu: self.app_cpu.clone(),
        }
    }
}

/// Nothing runs.
pub open spec fn no_live_status() -> LiveView {
    LiveView {
        position: Seq::empty(),
        duration: Seq::empty(),
        frames: Seq::empty(),
        conversion_fps: Seq::empty(),
        conversion_speed: Seq::empty(),
        original_fps: Seq::empty(),
        target_fps: Seq::empty(),
        encoder: Seq::empty(),
        quality: Seq::empty(),
        preset: Seq::empty(),
        carried_audio: Seq::empty(),
        carried_subtitles: Seq::empty(),
        spent: Seq::empty(),
        estimated_total: Seq::empty(),
        remaining: Seq::empty(),
        app_cpu: Seq::empty(),
    }
}

fn nothing() -> (r: String)
    ensures
        r@ == Seq::<char>::empty(),
{
    let r = String::new();
    assert(r@ =~= Seq::<char>::empty());
    r
}

impl Default for SlintLiveStatusSnapshot {
    fn default() -> (r: Self)
        ensures
            r@ == no_live_status(),
    {
        SlintLiveStatusSnapshot {
            position: nothing(),
            duration: nothing(),
            frames: nothing(),
            conversion_fps: nothing(),
            conversion_speed: nothing(),
            original_fps: nothing(),
            target_fps: nothing(),
            encoder: nothing(),
            quality: nothing(),
            preset: nothing(),
            carried_audio: nothing(),
            carried_subtitles: nothing(),
            spent: nothing(),
            estimated_total: nothing(),
            remaining: nothing(),
            app_cpu: nothing(),
        }
    }
}

/// The task of the running conversion.
pub open spec fn running_task(b: BoardView) -> Option<TaskView> {
    match b.worker {
        Some(w) => if has_id(b.tasks, w.task_id) {
            Some(task_named(b.tasks, w.task_id))
        } else {
            None
        },
        None => None,
    }
}

/// The time that a conversion takes as a whole.
pub open spec fn whole_time(spent: Duration, remaining: Option<Duration>) -> Option<Duration> {
    match remaining {
        Some(r) => Some(
            Duration { nanos: smaller(spent.nanos + r.nanos, MAX_NANOS as int) as u128 },
        ),
        None => None,
    }
}

/// The share of the running conversion that is done, where it is known, in ten-thousandths.
pub open spec fn known_points(c: ControllerView) -> Option<u16> {
    let mode = match running_task(c.board) {
        Some(t) => Some(t.settings.mode),
        None => None,
    };
    match c.progress {
        Some(p) => progress_points(p, mode),
        None => None,
    }
}

/// The words for the frame rate of the source, once something is known of the source.
pub open spec fn source_words(c: ControllerView) -> Option<Seq<char>> {
    match c.source {
        Some(info) => Some(info.fps_text@),
        None => None,
    }
}

/// The words for the frame rate of the source, where it is known.
pub open spec fn known_rate(c: ControllerView) -> Option<Seq<char>> {
    match c.source {
        Some(info) => if info.fps is Some {
            Some(info.fps_text@)
        } else {
            None
        },
        None => None,
    }
}

/// The running conversion, as it is shown.
pub open spec fn live_status(c: ControllerView, f: FiguresView) -> LiveView {
    match running_task(c.board) {
        None => no_live_status(),
        Some(t) => LiveView {
            position: match c.progress {
                Some(p) => clock_or_dash(Some(p.completed)),
                None => "-"@,
            },
            duration: match c.progress {
                Some(p) => clock_or_dash(p.total),
                None => "-"@,
            },
            frames: match c.progress {
                Some(p) => frame_progress_text(p, f.frame_estimate),
                None => "-"@,
            },
            conversion_fps: text_or(f.conversion_fps, "-"@),
            conversion_speed: text_or(f.conversion_speed, "-"@),
            original_fps: text_or(source_words(c), "-"@),
            target_fps: target_rate_text(
                f.reported_fps,
                t.settings.fps,
                f.exact_fps,
                known_rate(c),
            ),
            encoder: encoding_columns(t.settings).0,
            quality: encoding_columns(t.settings).1,
            preset: encoding_columns(t.settings).2,
            carried_audio: carried_audio_text(c.carried),
            carried_subtitles: carried_subtitles_text(c.carried),
            spent: clock_or_dash(Some(f.spent)),
            estimated_total: clock_or_dash(whole_time(f.spent, f.remaining)),
            remaining: clock_or_dash(f.remaining),
            app_cpu: text_or(f.cpu_usage, "-"@),
        },
    }
}

/// All that the front end shows at one time.
#[derive(Debug, PartialEq, Eq)]
pub struct SlintAppSnapshot {
    pub tasks: Vec<SlintTaskSnapshot>,
    pub selected_task_title: String,
    pub selected_task_files: Vec<SlintTaskFileSnapshot>,
    pub selected_task_error_detail: String,
    pub history: Vec<SlintHistorySnapshot>,
    pub settings: SlintSettingsSnapshot,
    pub activity: String,
    pub engine_status: String,
    pub active_title: String,
    pub active_detail: String,
    pub live_status: SlintLiveStatusSnapshot,
    pub cpu_limit_index: usize,
    pub cpu_limit_summary: String,
    pub cpu_usage: String,
    /// The progress of the running conversion, in ten-thousandths.
    pub progress: u16,
    pub is_running: bool,
    pub is_paused: bool,
    pub paused_between_files: bool,
    pub pending_count: usize,
    pub completed_count: usize,
    pub attention_count: usize,
    pub history_total_count: usize,
    pub pause_after_current: bool,
    pub completion_notice: String,
    /// The place of the selected task; minus one where none is.
    pub selected_index: i32,
    pub selected_can_move: bool,
    pub preview_enabled: bool,
    pub live_preview: Option<ConversionPreview>,
    pub task_draft_targets: Vec<String>,
    pub task_draft_summary: String,
    pub task_draft_output_summary: String,
}

/// The contents of a `SlintAppSnapshot`.
pub struct AppView {
    pub tasks: Seq<TaskRowView>,
    pub selected_task_title: Seq<char>,
    pub selected_task_files: Seq<FileView>,
    pub selected_task_error_detail: Seq<char>,
    pub history: Seq<HistoryRowView>,
    pub settings: SettingsRowView,
    pub activity: Seq<char>,
    pub engine_status: Seq<char>,
    pub active_title: Seq<char>,
    pub active_detail: Seq<char>,
    pub live_status: LiveView,
    pub cpu_limit_index: usize,
    pub cpu_limit_summary: Seq<char>,
    pub cpu_usage: Seq<char>,
    pub progress: u16,
    pub is_running: bool,
    pub is_paused: bool,
    pub paused_between_files: bool,
    pub pending_count: nat,
    pub completed_count: nat,
    pub attention_count: nat,
    pub history_total_count: nat,
    pub pause_after_current: bool,
    pub completion_notice: Seq<char>,
    pub selected_index: i32,
    pub selected_can_move: bool,
    pub preview_enabled: bool,
    pub live_preview: Option<PreviewView>,
    pub task_draft_targets: Seq<Seq<char>>,
    pub task_draft_summary: Seq<char>,
    pub task_draft_output_summary: Seq<char>,
}

impl View for SlintAppSnapshot {
    type V = AppView;

    open spec fn view(&self) -> AppView {
        AppView {
            tasks: task_row_views(self.tasks@),
            selected_task_title: self.selected_task_title@,
            selected_task_files: task_file_views(self.selected_task_files@),
            selected_task_error_detail: self.selected_task_error_detail@,
            history: history_row_views(self.history@),
            settings: self.settings@,
            activity: self.activity@,
            engine_status: self.engine_status@,
            active_title: self.active_title@,
            active_detail: self.active_detail@,
            live_status: self.live_status@,
            cpu_limit_index: self.cpu_limit_index,
            cpu_limit_summary: self.cpu_limit_summary@,
            cpu_usage: self.cpu_usage@,
            progress: self.progress,
            is_running: self.is_running,
            is_paused: self.is_paused,
            paused_between_files: self.paused_between_files,
            pending_count: self.pending_count as nat,
            completed_count: self.completed_count as nat,
            attention_count: self.attention_count as nat,
            history_total_count: self.history_total_count as nat,
            pause_after_current: self.pause_after_current,
            completion_notice: self.completion_notice@,
            selected_index: self.selected_index,
            selected_can_move: self.selected_can_move,
            preview_enabled: self.preview_enabled,
            live_preview: opt_preview(self.live_preview),
            task_draft_targets: texts(self.task_draft_targets@),
            task_draft_summary: self.task_draft_summary@,
            task_draft_output_summary: self.task_draft_output_summary@,
        }
    }
}

/// Whether the figures of the running conversion are shown anew: at once where a conversion begins, ends
/// or goes on to another file, and else only when they are due.
pub fn refreshes_status(shown: &SlintAppSnapshot, displayed: &SlintAppSnapshot, due: bool) -> (r: bool)
    ensures
        r == (!shown.is_running || !displayed.is_running || shown.active_detail@
            != displayed.active_detail@ || due),
{
    !shown.is_running || !displayed.is_running || !same_text(
        shown.active_detail.as_str(),
        displayed.active_detail.as_str(),
    ) || due
}

impl SlintAppSnapshot {
    /// Takes over the figures of the running conversion from what is displayed.
    pub fn keep_status(&mut self, displayed: &SlintAppSnapshot)
        ensures
            final(self)@ == (AppView {
                progress: displayed@.progress,
                live_status: displayed@.live_status,
                ..old(self)@
            }),
    {
        self.progress = displayed.progress;
        self.live_status = displayed.live_status.clone();
    }
}

/// Whether the end of the work is announced: once for each notice, and again for the same one after
/// there was none.
pub fn announces_completion(notice: &str, announced: &str) -> (r: bool)
    ensures
        r == (notice@.len() > 0 && notice@ != announced@),
{
    to_chars(notice).len() > 0 && !same_text(notice, announced)
}

/// How far the running conversion is, in ten-thousandths.
pub open spec fn active_points(c: ControllerView) -> u16 {
    match known_points(c) {
        Some(points) => points,
        None => 0,
    }
}

/// The task whose settings the form shows in place of its own: the one that runs or, between two
/// files, the selected one; none while a new task is put together.
pub open spec fn displayed_settings(c: ControllerView) -> Option<SettingsView> {
    if c.task_draft is Some {
        None
    } else {
        match running_task(c.board) {
            Some(t) => Some(t.settings),
            None => if is_between_files(c.board.run_state) {
                match shown_task(c.board) {
                    Some(t) => Some(t.settings),
                    None => None,
                }
            } else {
                None
            },
        }
    }
}

pub open spec fn has_status(status: QueueStatus) -> spec_fn(TaskView) -> bool {
    |t: TaskView| t.status == status
}

/// The place of the selected task in the queue.
pub open spec fn selected_place(b: BoardView) -> i32 {
    match b.selection.primary {
        Some(id) => if has_id(b.tasks, id) && position_of(b.tasks, id) <= i32::MAX {
            position_of(b.tasks, id) as i32
        } else {
            signed_place(None)
        },
        None => signed_place(None),
    }
}

/// The files of the selected task.
pub open spec fn files_of_selected(c: ControllerView, env: SurroundingsView) -> Seq<FileView> {
    match shown_task(c.board) {
        Some(t) => listed_files(env, t, c.history, failures_of(c.board.failures, t.id)),
        None => Seq::empty(),
    }
}

/// All that the front end shows at one time.
pub open spec fn app_snapshot(c: ControllerView, env: SurroundingsView, f: FiguresView) -> AppView {
    let between = is_between_files(c.board.run_state);
    let rows = task_rows(c.board, env, active_points(c));
    let files = files_of_selected(c, env);
    AppView {
        tasks: rows,
        selected_task_title: match shown_task(c.board) {
            Some(t) => t.name,
            None => Seq::empty(),
        },
        selected_task_files: files,
        selected_task_error_detail: errors_text(files),
        history: shown_history(c.history, c.history_filter),
        settings: settings_row(
            c.form,
            displayed_settings(c),
            c.available_encoders,
            c.prevent_sleep,
            env.presets,
        ),
        activity: c.board.activity,
        engine_status: c.engine_status,
        active_title: if between {
            "Queue paused"@
        } else {
            match running_task(c.board) {
                Some(t) => t.name,
                None => "Ready when you are"@,
            }
        },
        active_detail: if between {
            "Current file completed. Resume to start the next queued file."@
        } else {
            match c.board.worker {
                Some(w) => w.target,
                None => c.board.activity,
            }
        },
        live_status: live_status(c, f),
        cpu_limit_index: c.cpu_limit,
        cpu_limit_summary: f.cpu_limit_summary,
        cpu_usage: text_or(f.cpu_usage, "-"@),
        progress: active_points(c),
        is_running: c.board.worker is Some || between,
        is_paused: between || (c.board.worker is Some && c.board.worker->0.paused),
        paused_between_files: between,
        pending_count: c.board.tasks.filter(has_status(QueueStatus::Pending)).len(),
        completed_count: c.board.tasks.filter(has_status(QueueStatus::Completed)).len(),
        attention_count: rows.filter(needs_attention()).len(),
        history_total_count: c.history.len(),
        pause_after_current: c.board.run_state == crate::board::QueueRunState::PauseAfterCurrent
            || c.board.run_state == crate::board::QueueRunState::PauseAfterCurrentSelected,
        completion_notice: c.board.completion_notice,
        selected_index: selected_place(c.board),
        selected_can_move: shown_task(c.board) matches Some(t) && t.status == QueueStatus::Pending,
        preview_enabled: c.preview_enabled && !between,
        live_preview: c.live_preview,
        task_draft_targets: match c.task_draft {
            Some(d) => d.targets,
            None => Seq::empty(),
        },
        task_draft_summary: match c.task_draft {
            Some(d) => mode_label(d.settings.mode) + "  ·  "@ + encoder_user_name(
                d.settings.encoder,
            ),
            None => Seq::empty(),
        },
        task_draft_output_summary: match c.task_draft {
            Some(d) => draft_plan(env, d, f.draft_size),
            None => Seq::empty(),
        },
    }
}

fn or_dash(text: &Option<String>) -> (r: String)
    ensures
        r@ == text_or(opt_text(*text), "-"@),
{
    match text {
        Some(text) => text.clone(),
        None => "-".to_owned(),
    }
}

fn as_slice(text: &Option<String>) -> (r: Option<&str>)
    ensures
        opt_slice(r) == opt_text(*text),
{
    match text {
        Some(text) => Some(text.as_str()),
        None => None,
    }
}

fn count_status(tasks: &VecDeque<QueueTask>, status: QueueStatus) -> (r: usize)
    ensures
        r == task_views(tasks@).filter(has_status(status)).len(),
{
    let ghost all = task_views(tasks@);
    let ghost test = has_status(status);
    let mut n: usize = 0;
    let mut i: usize = 0;
    assert(all.take(0).filter(test) =~= Seq::<TaskView>::empty());
    while i < tasks.len()
        invariant
            n <= i <= tasks@.len(),
            all == task_views(tasks@),
            test == has_status(status),
            n == all.take(i as int).filter(test).len(),
        decreases tasks@.len() - i,
    {
        proof {
            assert(all.take(i + 1) =~= all.take(i as int).push(all[i as int]));
            all.take(i as int).lemma_filter_push(all[i as int], test);
            assert(all[i as int] == tasks@[i as int]@);
        }
        if tasks[i].status == status {
            n = n + 1;
        }
        i = i + 1;
    }
    assert(all.take(i as int) =~= all);
    n
}

pub open spec fn opt_task(t: Option<&QueueTask>) -> Option<TaskView> {
    match t {
        Some(t) => Some(t@),
        None => None,
    }
}

impl SlintController {
    fn running(&self) -> (r: Option<&QueueTask>)
        ensures
            opt_task(r) == running_task(self@.board),
    {
        match &self.board.worker {
            Some(worker) => self.board.queue.task(worker.task_id.as_str()),
            None => None,
        }
    }

    fn selected(&self) -> (r: Option<&QueueTask>)
        ensures
            opt_task(r) == shown_task(self@.board),
    {
        match &self.board.selection.primary {
            Some(id) => self.board.queue.task(id.as_str()),
            None => None,
        }
    }

    fn between_files(&self) -> (r: bool)
        ensures
            r == is_between_files(self@.board.run_state),
    {
        matches!(
            self.board.run_state,
            crate::board::QueueRunState::PausedBetweenFiles
            | crate::board::QueueRunState::PausedBetweenFilesSelected
        )
    }

    /// How far the running conversion is, in ten-thousandths.
    pub fn active_progress(&self) -> (r: u16)
        ensures
            r == active_points(self@),
    {
        match self.known_progress() {
            Some(points) => points,
            None => 0,
        }
    }

    /// The share of the running conversion that is done, where it is known, in ten-thousandths.
    pub fn known_progress(&self) -> (r: Option<u16>)
        ensures
            r == known_points(self@),
    {
        let mode = match self.running() {
            Some(task) => Some(task.settings.mode),
            None => None,
        };
        match &self.progress {
            Some(progress) => progress_fraction(progress, mode),
            None => None,
        }
    }

    /// The settings that the form shows in place of its own.
    pub fn displayed_task_settings(&self) -> (r: Option<&QueueSettings>)
        ensures
            match r {
                Some(s) => displayed_settings(self@) == Some(s@),
                None => displayed_settings(self@) is None,
            },
    {
        if self.task_draft.is_some() {
            return None;
        }
        if let Some(task) = self.running() {
            return Some(&task.settings);
        }
        if self.between_files() {
            if let Some(task) = self.selected() {
                return Some(&task.settings);
            }
        }
        None
    }

    /// The running conversion, as it is shown.
    pub fn slint_live_status(&self, figures: &LiveFigures) -> (r: SlintLiveStatusSnapshot)
        ensures
            r@ == live_status(self@, figures@),
    {
        let task = match self.running() {
            Some(task) => task,
            None => {
                return SlintLiveStatusSnapshot::default();
            },
        };
        let (encoder, quality, preset) = encoding_texts(&task.settings);
        let whole = match figures.remaining {
            Some(remaining) => Some(figures.spent.saturating_add(remaining)),
            None => None,
        };
        assert(whole == whole_time(figures.spent, figures.remaining));
        let (original_fps, source_fps) = match &self.source {
            Some(info) => (
                info.fps_text.clone(),
                if info.fps.is_some() {
                    Some(info.fps_text.as_str())
                } else {
                    None
                },
            ),
            None => ("-".to_owned(), None),
        };
        let (position, duration, frames) = match &self.progress {
            Some(p) => (
                format_clock_or_dash(Some(p.completed)),
                format_clock_or_dash(p.total),
                format_frame_progress(p, figures.frame_estimate),
            ),
            None => ("-".to_owned(), "-".to_owned(), "-".to_owned()),
        };
        SlintLiveStatusSnapshot {
            position,
            duration,
            frames,
            conversion_fps: or_dash(&figures.conversion_fps),
            conversion_speed: or_dash(&figures.conversion_speed),
            original_fps,
            target_fps: target_fps_status_with_source(
                as_slice(&figures.reported_fps),
                task.settings.fps,
                figures.exact_fps.as_str(),
                source_fps,
            ),
            encoder,
            quality,
            preset,
            carried_audio: format_carried_audio(self.carried),
            carried_subtitles: format_carried_subtitles(self.carried),
            spent: format_clock_or_dash(Some(figures.spent)),
            estimated_total: format_clock_or_dash(whole),
            remaining: format_clock_or_dash(figures.remaining),
            app_cpu: or_dash(&figures.cpu_usage),
        }
    }

    fn selected_index(&self) -> (r: i32)
        ensures
            r == selected_place(self@.board),
    {
        let id = match &self.board.selection.primary {
            Some(id) => id,
            None => {
                return -1;
            },
        };
        let tasks = self.board.queue.tasks();
        let ghost all = self@.board.tasks;
        assert(all == task_views(tasks@));
        let mut i: usize = 0;
        while i < tasks.len()
            invariant
                i <= tasks@.len(),
                all == task_views(tasks@),
                all == self@.board.tasks,
                self@.board.selection.primary == Some(id@),
                forall|k: int| 0 <= k < i ==> (#[trigger] all[k]).id != id@,
            decreases tasks@.len() - i,
        {
            assert(all[i as int] == tasks@[i as int]@);
            if same_text(tasks[i].id.as_str(), id.as_str()) {
                proof {
                    crate::queue::lemma_has_position(all, id@, i as int);
                }
                return place_as_signed(Some(i));
            }
            i = i + 1;
        }
        assert(!has_id(all, id@));
        -1
    }

    fn active_texts(&self) -> (r: (String, String))
        ensures
            r.0@ == if is_between_files(self@.board.run_state) {
                "Queue paused"@
            } else {
                match running_task(self@.board) {
                    Some(t) => t.name,
                    None => "Ready when you are"@,
                }
            },
            r.1@ == if is_between_files(self@.board.run_state) {
                "Current file completed. Resume to start the next queued file."@
            } else {
                match self@.board.worker {
                    Some(w) => w.target,
                    None => self@.board.activity,
                }
            },
    {
        if self.between_files() {
            return (
                "Queue paused".to_owned(),
                "Current file completed. Resume to start the next queued file.".to_owned(),
            );
        }
        let title = match self.running() {
            Some(task) => task.name.clone(),
            None => "Ready when you are".to_owned(),
        };
        let detail = match &self.board.worker {
            Some(worker) => worker.target.clone(),
            None => self.board.activity.clone(),
        };
        (title, detail)
    }

    fn selected_texts(&self, env: &Surroundings) -> (r: (String, Vec<SlintTaskFileSnapshot>))
        ensures
            r.0@ == match shown_task(self@.board) {
                Some(t) => t.name,
                None => Seq::empty(),
            },
            task_file_views(r.1@) == files_of_selected(self@, env@),
    {
        match self.selected() {
            Some(task) => {
                let failures = self.board.failures.of_task(task.id.as_str());
                (task.name.clone(), selected_task_files(env, task, &self.history, &failures))
            },
            None => {
                let none: Vec<SlintTaskFileSnapshot> = Vec::new();
                assert(task_file_views(none@) =~= Seq::<FileView>::empty());
                (nothing(), none)
            },
        }
    }

    fn draft_texts(&self, env: &Surroundings, size: Option<u64>) -> (r: (Vec<String>, String, String))
        ensures
            match self@.task_draft {
                Some(d) => {
                    &&& texts(r.0@) == d.targets
                    &&& r.1@ == mode_label(d.settings.mode) + "  ·  "@ + encoder_user_name(
                        d.settings.encoder,
                    )
                    &&& r.2@ == draft_plan(env@, d, size)
                },
                None => {
                    &&& texts(r.0@) == Seq::<Seq<char>>::empty()
                    &&& r.1@ == Seq::<char>::empty()
                    &&& r.2@ == Seq::<char>::empty()
                },
            },
    {
        match &self.task_draft {
            Some(draft) => (
                copy_list(&draft.targets),
                concat3(
                    draft.settings.mode.label(),
                    "  ·  ",
                    draft.settings.encoder.user_name(),
                ),
                task_draft_output_summary(env, draft, size),
            ),
            None => {
                let none: Vec<String> = Vec::new();
                assert(texts(none@) =~= Seq::<Seq<char>>::empty());
                (none, nothing(), nothing())
            },
        }
    }

    /// All that the front end shows at one time.
    #[verifier::rlimit(40)]
    pub fn snapshot(&self, env: &Surroundings, figures: &LiveFigures) -> (r: SlintAppSnapshot)
        ensures
            r@ == app_snapshot(self@, env@, figures@),
    {
        let between = self.between_files();
        let progress: u16 = self.active_progress();
        let rows = self.board.task_snapshots(env, progress);
        let attention: usize = attention_count(&rows);
        let history = filtered_history(&self.history, self.history_filter.as_str());
        let (selected_task_title, files) = self.selected_texts(env);
        let errors = task_error_detail(&files);
        let (active_title, active_detail) = self.active_texts();
        let (draft_targets, draft_summary, draft_output) = self.draft_texts(env, figures.draft_size);
        let settings = slint_settings_snapshot(
            &self.form,
            self.displayed_task_settings(),
            &self.available_encoders,
            self.prevent_sleep,
            &env.presets,
        );
        let paused = match &self.board.worker {
            Some(worker) => worker.paused,
            None => false,
        };
        let can_move = match self.selected() {
            Some(task) => task.status == QueueStatus::Pending,
            None => false,
        };
        let tasks = self.board.queue.tasks();
        assert(self@.history.len() == self.history@.len());
        SlintAppSnapshot {
            tasks: rows,
            selected_task_title,
            selected_task_files: files,
            selected_task_error_detail: errors,
            history,
            settings,
            activity: self.board.activity.clone(),
            engine_status: self.engine_status.clone(),
            active_title,
            active_detail,
            live_status: self.slint_live_status(figures),
            cpu_limit_index: self.cpu_limit,
            cpu_limit_summary: figures.cpu_limit_summary.clone(),
            cpu_usage: or_dash(&figures.cpu_usage),
            progress,
            is_running: self.board.worker.is_some() || between,
            is_paused: between || paused,
            paused_between_files: between,
            pending_count: count_status(tasks, QueueStatus::Pending),
            completed_count: count_status(tasks, QueueStatus::Completed),
            attention_count: attention,
            history_total_count: self.history.len(),
            pause_after_current: matches!(
                self.board.run_state,
                crate::board::QueueRunState::PauseAfterCurrent
                | crate::board::QueueRunState::PauseAfterCurrentSelected
            ),
            completion_notice: self.board.completion_notice.clone(),
            selected_index: self.selected_index(),
            selected_can_move: can_move,
            preview_enabled: self.preview_enabled && !between,
            live_preview: match &self.live_preview {
                Some(picture) => Some(picture.clone()),
                None => None,
            },
            task_draft_targets: draft_targets,
            task_draft_summary: draft_summary,
            task_draft_output_summary: draft_output,
        }
    }
}

} // verus!
