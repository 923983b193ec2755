//! Running one conversion: its outcome, its history row, and what follows a failure.

use crate::clock::{format_resolution, format_size_mb, resolution_text, size_text};
use crate::engine::{engine_error_text, EngineError};
use crate::history::CompletedHistoryRow;
use crate::model::{
    encoder_user_name, is_hardware_encoder, mode_label, ContentMode, Encoder, FpsPolicy, FrameRate,
    MediaInfo, MediaStream, QueueSettings, SettingsView, StreamKind,
};
use crate::output_naming::text_or;
use crate::paths::{joined, parent, path_join, path_parent};
use crate::progress::{clock_or_dash, format_clock_or_dash};
use crate::queue::{QueueTask, TaskView};
use crate::stream_policy::is_main_video;
use crate::text::{
    ascii_lower, ascii_lowercase, concat2, concat3, contains_text, copy_opt, decimal, decimal_text,
    opt_text, same_text, text_contains, texts,
};
use crate::time::Duration;
use vstd::prelude::*;

verus! {

/// What the history tells of a media file.
#[derive(Debug, PartialEq, Eq)]
pub struct HistoryMediaInfo {
    pub size: Option<u64>,
    pub width: Option<u32>,
    pub height: Option<u32>,
    pub fps: Option<FrameRate>,
    /// The frame rate as text, a dash where it is unknown.
    pub fps_text: String,
    pub codec: Option<String>,
    pub duration: Option<Duration>,
}

/// The codec of the first video stream that is not cover art.
pub open spec fn main_codec(streams: Seq<MediaStream>) -> Option<Seq<char>> {
    if exists|i: int| is_main_video(streams, i) {
        opt_text(streams[choose|i: int| is_main_video(streams, i)].codec_name)
    } else {
        None
    }
}

impl HistoryMediaInfo {
    /// What the history tells of a probed file; `fps_text` is its frame rate as text.
    pub fn from_media(info: &MediaInfo, fps_text: String) -> (r: HistoryMediaInfo)
        ensures
            r.size == info.file_size,
            r.width == info.width,
            r.height == info.height,
            r.fps == info.frame_rate,
            r.fps_text == fps_text,
            opt_text(r.codec) == main_codec(info.streams@),
            r.duration == info.duration,
    {
        let streams = &info.streams;
        let mut codec: Option<String> = None;
        let mut found: bool = false;
        let mut i: usize = 0;
        while i < streams.len() && !found
            invariant
                i <= streams@.len(),
                !found ==> codec is None,
                !found ==> forall|j: int|
                    0 <= j < i ==> !((#[trigger] streams@[j]).kind == StreamKind::Video
                        && !streams@[j].is_attached_picture),
                found ==> exists|k: int| #[trigger]
                    is_main_video(streams@, k) && opt_text(codec) == opt_text(
                        streams@[k].codec_name,
                    ),
            decreases streams@.len() - i,
        {
            if streams[i].kind == StreamKind::Video && !streams[i].is_attached_picture {
                assert(is_main_video(streams@, i as int));
                codec = copy_opt(&streams[i].codec_name);
                found = true;
            }
            i = i + 1;
        }
        proof {
            if found {
                let a = choose|k: int| #[trigger]
                    is_main_video(streams@, k) && opt_text(codec) == opt_text(
                        streams@[k].codec_name,
                    );
                let b = choose|k: int| is_main_video(streams@, k);
                assert(is_main_video(streams@, b));
                assert(a == b);
            }
        }
        HistoryMediaInfo {
            size: info.file_size,
            width: info.width,
            height: info.height,
            fps: info.frame_rate,
            fps_text,
            codec,
            duration: info.duration,
        }
    }

    /// What the history tells of a file that could not be probed.
    pub fn from_size(size: Option<u64>) -> (r: HistoryMediaInfo)
        ensures
            r.size == size,
            r.width is None,
            r.height is None,
            r.fps is None,
            r.fps_text@ == "-"@,
            r.codec is None,
            r.duration is None,
    {
        HistoryMediaInfo {
            size,
            width: None,
            height: None,
            fps: None,
            fps_text: "-".to_owned(),
            codec: None,
            duration: None,
        }
    }
}

impl Clone for HistoryMediaInfo {
    fn clone(&self) -> (r: Self)
        ensures
            r == *self,
    {
        HistoryMediaInfo {
            size: self.size,
            width: self.width,
            height: self.height,
            fps: self.fps,
            fps_text: self.fps_text.clone(),
            codec: copy_opt(&self.codec),
            duration: self.duration,
        }
    }
}

/// A conversion that succeeded.
#[derive(Debug, PartialEq, Eq)]
pub struct CompletedJob {
    pub input: String,
    pub output: String,
    pub lut_name: Option<String>,
    pub start_time: String,
    pub end_time: String,
    pub process_minutes: String,
    pub original: HistoryMediaInfo,
    pub converted: HistoryMediaInfo,
}

/// The encoder, quality, and preset that a task's files are listed with.
pub open spec fn encoding_columns(s: SettingsView) -> (Seq<char>, Seq<char>, Seq<char>) {
    if s.mode == ContentMode::Trim {
        ("Stream copy"@, "-"@, "-"@)
    } else {
        (
            encoder_user_name(s.encoder),
            match s.quality {
                Some(q) => decimal(q as nat),
                None => "-"@,
            },
            text_or(s.speed_preset, "-"@),
        )
    }
}

pub fn encoding_texts(settings: &QueueSettings) -> (r: (String, String, String))
    ensures
        (r.0@, r.1@, r.2@) == encoding_columns(settings@),
{
    if settings.mode == ContentMode::Trim {
        ("Stream copy".to_owned(), "-".to_owned(), "-".to_owned())
    } else {
        (
            settings.encoder.user_name().to_owned(),
            match settings.quality {
                Some(q) => decimal_text(q as u128),
                None => "-".to_owned(),
            },
            text_or_dash(&settings.speed_preset),
        )
    }
}

/// A text, or a dash where there is none.
pub fn text_or_dash(o: &Option<String>) -> (r: String)
    ensures
        r@ == text_or(opt_text(*o), "-"@),
{
    match o {
        Some(s) => s.clone(),
        None => "-".to_owned(),
    }
}

/// The history row of a finished conversion.
pub open spec fn history_columns(t: TaskView, job: CompletedJob) -> Seq<Seq<char>> {
    let e = encoding_columns(t.settings);
    seq![
        job.output@,
        mode_label(t.settings.mode),
        text_or(opt_text(job.lut_name), "-"@),
        job.start_time@,
        job.end_time@,
        job.process_minutes@,
        size_text(job.original.size),
        size_text(job.converted.size),
        resolution_text(job.original.width, job.original.height),
        job.original.fps_text@,
        job.converted.fps_text@,
        e.0,
        e.1,
        e.2,
        t.id,
        job.input@,
        text_or(opt_text(job.original.codec), "-"@),
        text_or(opt_text(job.converted.codec), "-"@),
        clock_or_dash(
            match job.original.duration {
                Some(d) => Some(d),
                None => job.converted.duration,
            },
        ),
    ]
}

pub fn completed_history_row(task: &QueueTask, job: &CompletedJob) -> (r: CompletedHistoryRow)
    ensures
        r@ == history_columns(task@, *job),
        r@.len() == 19,
        r@[0] == job.output@,
        r@[1] == mode_label(task.settings.mode),
        r@[2] == text_or(opt_text(job.lut_name), "-"@),
        r@[3] == job.start_time@,
        r@[4] == job.end_time@,
        r@[5] == job.process_minutes@,
        r@[6] == size_text(job.original.size),
        r@[7] == size_text(job.converted.size),
        r@[8] == resolution_text(job.original.width, job.original.height),
        r@[9] == job.original.fps_text@,
        r@[10] == job.converted.fps_text@,
        task.settings.mode == ContentMode::Trim ==> r@[11] == "Stream copy"@ && r@[12] == "-"@ && r@[13]
            == "-"@,
        task.settings.mode != ContentMode::Trim ==> r@[11] == encoder_user_name(task.settings.encoder),
        task.settings.mode != ContentMode::Trim ==> (task.settings.quality matches Some(q) ==> r@[12]
            == decimal(q as nat)),
        task.settings.quality is None ==> r@[12] == "-"@,
        task.settings.mode != ContentMode::Trim ==> (task.settings.speed_preset matches Some(p)
            ==> r@[13] == p@),
        task.settings.speed_preset is None ==> r@[13] == "-"@,
        r@[14] == task.id@,
        r@[15] == job.input@,
        r@[16] == text_or(opt_text(job.original.codec), "-"@),
        r@[17] == text_or(opt_text(job.converted.codec), "-"@),
{
    let (encoder, quality, preset) = encoding_texts(&task.settings);
    let duration = match job.original.duration {
        Some(d) => Some(d),
        None => job.converted.duration,
    };
    let columns: [String; 19] = [
        job.output.clone(),
        task.settings.mode.label().to_owned(),
        text_or_dash(&job.lut_name),
        job.start_time.clone(),
        job.end_time.clone(),
        job.process_minutes.clone(),
        format_size_mb(job.original.size),
        format_size_mb(job.converted.size),
        format_resolution(job.original.width, job.original.height),
        job.original.fps_text.clone(),
        job.converted.fps_text.clone(),
        encoder,
        quality,
        preset,
        task.id.clone(),
        job.input.clone(),
        text_or_dash(&job.original.codec),
        text_or_dash(&job.converted.codec),
        format_clock_or_dash(duration),
    ];
    assert(texts(columns@) =~= history_columns(task@, *job));
    CompletedHistoryRow::new(columns)
}

/// The camera that a source comes from, and the lookup table that its colors get.
#[derive(Debug, PartialEq, Eq)]
pub struct CameraRunInfo {
    pub model_name: Option<String>,
    pub lut_status: Option<String>,
}

impl Default for CameraRunInfo {
    fn default() -> (r: Self)
        ensures
            r.model_name is None,
            r.lut_status is None,
    {
        CameraRunInfo { model_name: None, lut_status: None }
    }
}

/// A known camera: its model and its lookup table.
#[derive(Debug, PartialEq, Eq)]
pub struct CameraProfile {
    pub model_name: String,
    pub lut_name: String,
}

/// What is shown of the camera: for camera videos also the lookup table, unless it is off or the
/// encoder is a hardware one.
pub fn camera_run_info_from_media(
    settings: &QueueSettings,
    profile: Option<&CameraProfile>,
) -> (r: CameraRunInfo)
    ensures
        profile is None ==> r.model_name is None && r.lut_status is None,
        profile matches Some(p) ==> opt_text(r.model_name) == Some(p.model_name@) && opt_text(
            r.lut_status,
        ) == if settings.mode != ContentMode::CameraVideos {
            None
        } else if settings.apply_lut && !is_hardware_encoder(settings.encoder) {
            Some(p.lut_name@)
        } else {
            Some("Disabled"@)
        },
{
    match profile {
        None => CameraRunInfo { model_name: None, lut_status: None },
        Some(profile) => {
            let lut_status = if settings.mode != ContentMode::CameraVideos {
                None
            } else if settings.apply_lut && !settings.encoder.is_hardware() {
                Some(profile.lut_name.clone())
            } else {
                Some("Disabled".to_owned())
            };
            CameraRunInfo { model_name: Some(profile.model_name.clone()), lut_status }
        },
    }
}

/// The name under which files encoded with an encoder are recognized.
pub open spec fn existing_library(encoder: Encoder) -> Seq<char> {
    match encoder {
        Encoder::X264 => "x264"@,
        Encoder::SvtAv1 => "libsvtav1"@,
        _ => "x265"@,
    }
}

pub fn existing_library_name(encoder: Encoder) -> (r: &'static str)
    ensures
        r@ == existing_library(encoder),
{
    match encoder {
        Encoder::X264 => "x264",
        Encoder::SvtAv1 => "libsvtav1",
        _ => "x265",
    }
}

/// Whether the rate of an encoded source is the one wanted. The two flags tell whether it is close
/// to the exact rate, and to the lowest rate of the folder where that is known.
pub open spec fn rate_fits(policy: FpsPolicy, near_exact: bool, near_lowest: Option<bool>) -> bool {
    match policy {
        FpsPolicy::Source => true,
        FpsPolicy::Exact(_) => near_exact,
        FpsPolicy::SharedLowest => near_lowest == Some(true),
    }
}

pub fn encoded_source_matches_fps(
    policy: FpsPolicy,
    near_exact: bool,
    near_lowest: Option<bool>,
) -> (r: bool)
    ensures
        r == rate_fits(policy, near_exact, near_lowest),
{
    match policy {
        FpsPolicy::Source => true,
        FpsPolicy::Exact(_) => near_exact,
        FpsPolicy::SharedLowest => match near_lowest {
            Some(near) => near,
            None => false,
        },
    }
}

/// What is known of a source that may already be encoded as wanted.
#[derive(Debug, PartialEq, Eq)]
pub struct EncodedSource {
    /// The library that encoded it, where that is known.
    pub library: Option<String>,
    /// Its frame rate as text, where that is known.
    pub rate_text: Option<String>,
    /// Whether its frame rate is the one wanted.
    pub rate_fits: bool,
}

/// Why a source is skipped: it is already encoded as wanted.
pub open spec fn source_skip_text(
    source: EncodedSource,
    encoder: Encoder,
    input: Seq<char>,
) -> Option<Seq<char>> {
    match (opt_text(source.library), opt_text(source.rate_text)) {
        (Some(library), Some(rate)) => if library == existing_library(encoder)
            && source.rate_fits {
            Some(input + " already uses "@ + library + " at "@ + rate + " FPS"@)
        } else {
            None
        },
        _ => None,
    }
}

/// Why a source is skipped, where its workflow ignores sources that are already encoded.
pub fn camera_source_skip_reason(
    ignores_encoded_sources: bool,
    source: &EncodedSource,
    encoder: Encoder,
    input: &str,
) -> (r: Option<String>)
    ensures
        opt_text(r) == if ignores_encoded_sources {
            source_skip_text(*source, encoder, input@)
        } else {
            None
        },
{
    if !ignores_encoded_sources {
        return None;
    }
    match (&source.library, &source.rate_text) {
        (Some(library), Some(rate)) => {
            if same_text(library.as_str(), existing_library_name(encoder)) && source.rate_fits {
                let mut r = concat3(input, " already uses ", library.as_str());
                r.append(" at ");
                r.append(rate.as_str());
                r.append(" FPS");
                Some(r)
            } else {
                None
            }
        },
        _ => None,
    }
}

/// Whether a conversion looks for a lookup table.
pub open spec fn wants_lut(s: SettingsView) -> bool {
    s.mode == ContentMode::CameraVideos && s.apply_lut && !is_hardware_encoder(s.encoder)
}

pub fn needs_lut(settings: &QueueSettings) -> (r: bool)
    ensures
        r == wants_lut(settings@),
{
    settings.mode == ContentMode::CameraVideos && settings.apply_lut
        && !settings.encoder.is_hardware()
}

/// What the search for a lookup table found.
#[derive(Debug, PartialEq, Eq)]
pub enum LutLookup {
    /// The camera is not a known one.
    UnknownCamera,
    /// The camera's table is missing.
    Missing { lut_name: String },
    Found { model_name: String, path: String },
}

/// Settings ready for the engine, with a warning to show.
#[derive(Debug, PartialEq, Eq)]
pub struct PreparedSettings {
    pub settings: QueueSettings,
    pub warning: Option<String>,
}

/// Settings ready for the engine: an earlier lookup table is dropped, and the one that was looked for
/// is set where it was found.
pub fn prepare_request(settings: &QueueSettings, lookup: &LutLookup) -> (r: Result<
    PreparedSettings,
    EngineError,
>)
    ensures
        ({
            let plain = SettingsView { camera_lut_path: None, ..settings@ };
            if !wants_lut(settings@) {
                r matches Ok(p) && p.settings@ == plain && p.warning is None
            } else {
                match *lookup {
                    LutLookup::UnknownCamera => r matches Ok(p) && p.settings@ == plain && opt_text(
                        p.warning,
                    ) == Some(
                        "DJI LUT skipped: camera metadata did not match Action 6 or Pocket 3"@,
                    ),
                    LutLookup::Missing { lut_name } => r matches Err(EngineError::Unavailable(m))
                        && m@ == "matching DJI LUT is missing: "@ + lut_name@,
                    LutLookup::Found { model_name, path } => r matches Ok(p) && p.settings@ == (
                    SettingsView { camera_lut_path: Some(path@), ..plain }) && opt_text(p.warning)
                        == Some(
                        "Applying "@ + model_name@ + " LUT ("@ + path@ + ")"@,
                    ),
                }
            }
        }),
{
    let mut prepared = settings.clone();
    prepared.camera_lut_path = None;
    if !needs_lut(settings) {
        return Ok(PreparedSettings { settings: prepared, warning: None });
    }
    match lookup {
        LutLookup::UnknownCamera => Ok(
            PreparedSettings {
                settings: prepared,
                warning: Some(
                    "DJI LUT skipped: camera metadata did not match Action 6 or Pocket 3".to_owned(),
                ),
            },
        ),
        LutLookup::Missing { lut_name } => Err(
            EngineError::Unavailable(concat2("matching DJI LUT is missing: ", lut_name.as_str())),
        ),
        LutLookup::Found { model_name, path } => {
            prepared.camera_lut_path = Some(path.clone());
            let mut warning = concat3("Applying ", model_name.as_str(), " LUT (");
            warning.append(path.as_str());
            warning.append(")");
            Ok(PreparedSettings { settings: prepared, warning: Some(warning) })
        },
    }
}

/// The places where lookup tables may be.
#[derive(Debug, PartialEq, Eq)]
pub struct LutPlaces {
    /// A folder set by the user.
    pub override_folder: Option<String>,
    /// The folder of the program.
    pub program_folder: Option<String>,
    /// The folder of the bundled assets.
    pub asset_folder: String,
    pub current_folder: Option<String>,
}

/// Below a folder, the tables of the camera's maker.
pub open spec fn lut_below(folder: Seq<char>, name: Seq<char>) -> Seq<char> {
    joined(joined(joined(folder, "lut"@), "dji"@), name)
}

/// Where a lookup table is looked for, in order.
pub open spec fn lut_candidate_list(places: LutPlaces, name: Seq<char>) -> Seq<Seq<char>> {
    let a = match opt_text(places.override_folder) {
        Some(folder) => seq![joined(folder, name)],
        None => Seq::empty(),
    };
    let b = match opt_text(places.program_folder) {
        Some(folder) => seq![lut_below(folder, name), lut_below(joined(folder, "resources"@), name)]
            + match parent(folder) {
            Some(above) => seq![lut_below(joined(above, "Resources"@), name)],
            None => Seq::empty(),
        },
        None => Seq::empty(),
    };
    let c = seq![joined(places.asset_folder@, name)];
    let d = match opt_text(places.current_folder) {
        Some(folder) => seq![lut_below(folder, name), lut_below(joined(folder, ".."@), name)],
        None => Seq::empty(),
    };
    a + b + c + d
}

fn lut_path(folder: &str, name: &str) -> (r: String)
    ensures
        r@ == lut_below(folder@, name@),
{
    let one = path_join(folder, "lut");
    let two = path_join(one.as_str(), "dji");
    path_join(two.as_str(), name)
}

/// Where a lookup table is looked for, in order.
pub fn lut_candidates(places: &LutPlaces, name: &str) -> (r: Vec<String>)
    ensures
        texts(r@) == lut_candidate_list(*places, name@),
{
    let mut r: Vec<String> = Vec::new();
    if let Some(folder) = &places.override_folder {
        r.push(path_join(folder.as_str(), name));
    }
    if let Some(folder) = &places.program_folder {
        r.push(lut_path(folder.as_str(), name));
        r.push(lut_path(path_join(folder.as_str(), "resources").as_str(), name));
        if let Some(above) = path_parent(folder.as_str()) {
            r.push(lut_path(path_join(above.as_str(), "Resources").as_str(), name));
        }
    }
    r.push(path_join(places.asset_folder.as_str(), name));
    if let Some(folder) = &places.current_folder {
        r.push(lut_path(folder.as_str(), name));
        r.push(lut_path(path_join(folder.as_str(), "..").as_str(), name));
    }
    assert(texts(r@) =~= lut_candidate_list(*places, name@));
    r
}

/// A failure that ends the whole queue: any failed slideshow, or the loss of the engine.
pub open spec fn is_queue_fatal(mode: ContentMode, e: EngineError) -> bool {
    mode == ContentMode::PhotoSlideshow || e is Unavailable
}

pub fn worker_error_is_queue_fatal(mode: ContentMode, error: &EngineError) -> (r: bool)
    ensures
        r == is_queue_fatal(mode, *error),
{
    mode == ContentMode::PhotoSlideshow || matches!(error, EngineError::Unavailable(_))
}

/// A failure that one more attempt may mend.
pub open spec fn is_retryable(mode: ContentMode, e: EngineError) -> bool {
    mode != ContentMode::PhotoSlideshow && (e is Unsupported || e is InvalidMedia || e is Failed)
}

pub fn worker_error_should_retry(mode: ContentMode, error: &EngineError) -> (r: bool)
    ensures
        r == is_retryable(mode, *error),
{
    mode != ContentMode::PhotoSlideshow && matches!(
        error,
        EngineError::Unsupported(_) | EngineError::InvalidMedia(_) | EngineError::Failed(_)
    )
}

/// A failure whose words say that another program has the file open.
pub open spec fn is_locked_input(e: EngineError) -> bool {
    let words = ascii_lower(engine_error_text(e));
    contains_text(words, "winerror 32"@) || contains_text(words, "being used by another process"@)
        || contains_text(words, "sharing violation"@)
}

pub fn worker_error_is_locked_input(error: &EngineError) -> (r: bool)
    ensures
        r == is_locked_input(*error),
{
    let words = ascii_lowercase(error.message().as_str());
    text_contains(words.as_str(), "winerror 32") || text_contains(
        words.as_str(),
        "being used by another process",
    ) || text_contains(words.as_str(), "sharing violation")
}

/// What follows a failed attempt.
#[derive(Debug, PartialEq, Eq)]
pub enum RetryDecision {
    /// Show the warning, wait, and run attempt number `attempt`.
    Again { warning: String, delay: Duration, attempt: usize },
    GiveUp,
}

/// How often a conversion is attempted.
pub const ATTEMPTS: usize = 2;

/// The shorter of two spans.
pub open spec fn shorter(a: Duration, b: Duration) -> Duration {
    if a.nanos <= b.nanos {
        a
    } else {
        b
    }
}

pub open spec fn locked_warning(e: EngineError) -> Seq<char> {
    "Locked input detected: "@ + engine_error_text(e) + "; waiting to retry"@
}

pub open spec fn retry_warning(attempt: nat, e: EngineError, delay: Duration) -> Seq<char> {
    "Conversion attempt "@ + decimal(attempt) + " failed: "@ + engine_error_text(e)
        + "; retrying in "@ + decimal(crate::clock::whole_secs(delay)) + " seconds"@
}

/// What follows the failure of an attempt: a locked file is waited for without using up an attempt, any
/// other failure that may mend is tried once more, and the rest are final.
pub open spec fn retry_outcome(
    mode: ContentMode,
    attempt: usize,
    e: EngineError,
    delay: Duration,
) -> Option<(Seq<char>, Duration, usize)> {
    if mode != ContentMode::PhotoSlideshow && is_locked_input(e) {
        Some((locked_warning(e), shorter(delay, Duration { nanos: 1_000_000_000 }), attempt))
    } else if attempt < ATTEMPTS && is_retryable(mode, e) {
        Some((retry_warning(attempt as nat, e, delay), delay, (attempt + 1) as usize))
    } else {
        None
    }
}

pub fn run_with_retry(mode: ContentMode, attempt: usize, error: &EngineError, delay: Duration) -> (r:
    RetryDecision)
    ensures
        match r {
            RetryDecision::Again { warning, delay: wait, attempt: next } => retry_outcome(
                mode,
                attempt,
                *error,
                delay,
            ) == Some((warning@, wait, next)),
            RetryDecision::GiveUp => retry_outcome(mode, attempt, *error, delay) is None,
        },
{
    if mode != ContentMode::PhotoSlideshow && worker_error_is_locked_input(error) {
        let warning = concat3(
            "Locked input detected: ",
            error.message().as_str(),
            "; waiting to retry",
        );
        let second = Duration::from_secs(1);
        let wait = if second.is_shorter_than(delay) {
            second
        } else {
            delay
        };
        return RetryDecision::Again { warning, delay: wait, attempt };
    }
    if attempt < ATTEMPTS && worker_error_should_retry(mode, error) {
        let mut warning = concat3(
            "Conversion attempt ",
            decimal_text(attempt as u128).as_str(),
            " failed: ",
        );
        warning.append(error.message().as_str());
        warning.append("; retrying in ");
        warning.append(decimal_text(delay.as_secs() as u128).as_str());
        warning.append(" seconds");
        return RetryDecision::Again { warning, delay, attempt: attempt + 1 };
    }
    RetryDecision::GiveUp
}

/// Waiting for a locked file uses up no attempt; other failures are tried again once at most; and
/// cancelled work and slideshows are never tried again.
pub proof fn law_retries_are_bounded(
    mode: ContentMode,
    attempt: usize,
    e: EngineError,
    delay: Duration,
)
    requires
        1 <= attempt <= ATTEMPTS,
    ensures
        retry_outcome(mode, attempt, e, delay) matches Some((_, _, next)) ==> attempt <= next
            <= ATTEMPTS,
        mode != ContentMode::PhotoSlideshow && is_locked_input(e) ==> (retry_outcome(
            mode,
            attempt,
            e,
            delay,
        ) matches Some((_, wait, next)) && next == attempt && wait.nanos <= 1_000_000_000),
        !is_locked_input(e) && attempt == ATTEMPTS ==> retry_outcome(mode, attempt, e, delay) is None,
        mode == ContentMode::PhotoSlideshow ==> retry_outcome(mode, attempt, e, delay) is None,
        !is_locked_input(e) && (e is Cancelled || e is Unavailable) ==> retry_outcome(
            mode,
            attempt,
            e,
            delay,
        ) is None,
{
}

/// The size and the time of change of a file.
#[derive(Debug, Clone, Copy, PartialEq, Eq, Structural)]
pub struct FileStamp {
    pub length: u64,
    /// Nanoseconds since the epoch, where the system tells.
    pub modified: Option<u128>,
}

/// What follows two looks at a file that may still be copied.
#[derive(Debug, PartialEq, Eq)]
pub enum StabilityStep {
    Stable,
    /// Look again; the first time with this warning.
    Wait { warning: Option<String> },
}

/// What follows two looks at a file: it is stable where nothing changed, and else the first wait
/// comes with a warning.
pub fn wait_until_file_stable(path: &str, before: FileStamp, after: FileStamp, warned: bool) -> (r:
    StabilityStep)
    ensures
        r is Stable <==> before == after,
        r matches StabilityStep::Wait { warning } ==> opt_text(warning) == if warned {
            None
        } else {
            Some("Waiting for "@ + path@ + " to finish copying"@)
        },
{
    let same_time = match (before.modified, after.modified) {
        (Some(a), Some(b)) => a == b,
        (None, None) => true,
        _ => false,
    };
    if before.length == after.length && same_time {
        StabilityStep::Stable
    } else if warned {
        StabilityStep::Wait { warning: None }
    } else {
        StabilityStep::Wait { warning: Some(concat3("Waiting for ", path, " to finish copying")) }
    }
}

} // verus!
