//! The settings form: what it shows, and the settings that it stands for.

use crate::clock::{
    clock_text, format_trim_time, law_trim_time_round_trip, parse_trim_time, trim_seconds,
    trim_time_error_text, whole_secs,
};
use crate::encoding::{
    chosen_policy, encoding_ui_settings_for, encoding_view, explicit_fps, fps_choice, fps_policy,
    fps_ui_mode, quality_limit, quality_maximum, remember_encoding, remembered, shown_rate,
    shows_fps, workflow_shows_fps, EncodingUiSettings, EncodingView, FpsUiMode, RememberedEncoding,
};
use crate::model::{
    is_hardware_encoder, is_nvenc_encoder, ContentMode, Encoder, FpsPolicy, FrameRate,
    QueueSettings, SettingsView, INFINITY_BITS,
};
use crate::paths::{has_path, list_has_path};
use crate::presets::{defaults_of, shares_lowest_fps, PresetView, Presets};
use crate::stored_queue::{is_mode_table, mode_index, mode_position, settings_views, AppPreferences};
use crate::text::{concat2, copy_list, opt_text, same_text, texts};
use crate::thumbnails::same_texts;
use crate::time::Duration;
use vstd::prelude::*;

verus! {

/// The bit pattern of the smallest normal IEEE 754 double.
pub const SMALLEST_RATE_BITS: u64 = 0x0010_0000_0000_0000;

/// A rate that is at least the smallest normal one.
pub open spec fn at_least_smallest(rate: FrameRate) -> FrameRate {
    if SMALLEST_RATE_BITS <= rate.bits <= INFINITY_BITS {
        rate
    } else {
        FrameRate { bits: SMALLEST_RATE_BITS }
    }
}

fn raised_rate(rate: FrameRate) -> (r: FrameRate)
    ensures
        r == at_least_smallest(rate),
{
    if SMALLEST_RATE_BITS <= rate.bits && rate.bits <= INFINITY_BITS {
        rate
    } else {
        FrameRate::from_bits(SMALLEST_RATE_BITS)
    }
}

/// The settings form.
#[derive(Debug)]
pub struct SettingsForm {
    pub mode: ContentMode,
    pub encoder: Encoder,
    pub trim_start_text: String,
    pub trim_end_text: String,
    pub stabilize_strength: String,
    pub apply_lut: bool,
    pub photo_interval: Duration,
    pub slideshow_fps: u32,
    pub slideshow_resolution: String,
    pub slideshow_audio_paths: Vec<String>,
    pub slideshow_audio_selected: Option<usize>,
    pub slideshow_collage: bool,
    pub fps_mode: FpsUiMode,
    pub explicit_fps: FrameRate,
    pub quality_crf: u8,
    pub speed_preset: String,
    /// The settings of each workflow, as last left.
    pub settings_by_mode: Vec<QueueSettings>,
    /// The quality and speed of each workflow and encoder, as last left.
    pub encoding_settings: Vec<RememberedEncoding>,
}

pub type EncodingMap = Map<(ContentMode, Encoder), EncodingView>;

/// What is remembered, for each workflow and encoder.
pub open spec fn encoding_map(list: Seq<RememberedEncoding>) -> EncodingMap {
    Map::new(
        |k: (ContentMode, Encoder)| remembered(list, k.0, k.1) is Some,
        |k: (ContentMode, Encoder)| remembered(list, k.0, k.1)->0,
    )
}

/// The contents of a `SettingsForm`.
pub struct FormView {
    pub mode: ContentMode,
    pub encoder: Encoder,
    pub trim_start_text: Seq<char>,
    pub trim_end_text: Seq<char>,
    pub stabilize_strength: Seq<char>,
    pub apply_lut: bool,
    pub photo_interval: Duration,
    pub slideshow_fps: u32,
    pub slideshow_resolution: Seq<char>,
    pub slideshow_audio_paths: Seq<Seq<char>>,
    pub slideshow_audio_selected: Option<usize>,
    pub slideshow_collage: bool,
    pub fps_mode: FpsUiMode,
    pub explicit_fps: FrameRate,
    pub quality_crf: u8,
    pub speed_preset: Seq<char>,
    pub settings_by_mode: Seq<SettingsView>,
    pub encoding_settings: EncodingMap,
}

impl View for SettingsForm {
    type V = FormView;

    open spec fn view(&self) -> FormView {
        FormView {
            mode: self.mode,
            encoder: self.encoder,
            trim_start_text: self.trim_start_text@,
            trim_end_text: self.trim_end_text@,
            stabilize_strength: self.stabilize_strength@,
            apply_lut: self.apply_lut,
            photo_interval: self.photo_interval,
            slideshow_fps: self.slideshow_fps,
            slideshow_resolution: self.slideshow_resolution@,
            slideshow_audio_paths: texts(self.slideshow_audio_paths@),
            slideshow_audio_selected: self.slideshow_audio_selected,
            slideshow_collage: self.slideshow_collage,
            fps_mode: self.fps_mode,
            explicit_fps: self.explicit_fps,
            quality_crf: self.quality_crf,
            speed_preset: self.speed_preset@,
            settings_by_mode: settings_views(self.settings_by_mode@),
            encoding_settings: encoding_map(self.encoding_settings@),
        }
    }
}

pub open spec fn capped_quality(encoder: Encoder, quality: u8) -> u8 {
    if quality > quality_limit(encoder) {
        quality_limit(encoder)
    } else {
        quality
    }
}

pub open spec fn resolution_name(resolution: (u32, u32)) -> Seq<char> {
    if resolution == (3840u32, 2160u32) {
        "4K"@
    } else {
        "1080p"@
    }
}

pub open spec fn named_resolution(name: Seq<char>) -> (u32, u32) {
    if name == "4K"@ {
        (3840, 2160)
    } else {
        (1920, 1080)
    }
}

/// The time that a trim entry shows; the end shows one second where there is none.
pub open spec fn shown_trim(time: Option<Duration>, missing: nat) -> Seq<char> {
    clock_text(
        match time {
            Some(t) => whole_secs(t),
            None => missing,
        },
    )
}

impl FormView {
    /// The settings of each workflow are listed in the order of the workflows.
    pub open spec fn wf(self) -> bool {
        is_mode_table(self.settings_by_mode)
    }

    /// The range of the trim entries, or what is wrong with them.
    pub open spec fn trim_range(self) -> Result<(Duration, Duration), Seq<char>> {
        match (trim_seconds(self.trim_start_text), trim_seconds(self.trim_end_text)) {
            (Err(e), _) => Err("Invalid start time: "@ + trim_time_error_text(e)),
            (Ok(_), Err(e)) => Err("Invalid end time: "@ + trim_time_error_text(e)),
            (Ok(start), Ok(end)) => {
                let a = Duration { nanos: (start * 1_000_000_000) as u128 };
                let b = Duration { nanos: (end * 1_000_000_000) as u128 };
                if b.nanos < a.nanos {
                    Err("Trim end time must be later than or equal to start time"@)
                } else {
                    Ok((a, b))
                }
            },
        }
    }

    /// The settings that the form stands for, with a workflow and an encoder.
    pub open spec fn settings(
        self,
        presets: Seq<PresetView>,
        mode: ContentMode,
        encoder: Encoder,
    ) -> SettingsView {
        let stored = self.settings_by_mode[mode_position(mode)];
        let base = if stored.encoder == encoder {
            stored
        } else {
            defaults_of(presets, mode, encoder)
        };
        let own_quality = encoder == Encoder::X264 || encoder == Encoder::X265 || encoder
            == Encoder::SvtAv1;
        let common = SettingsView {
            mode,
            encoder,
            fps: if mode == ContentMode::Trim || mode == ContentMode::PhotoSlideshow {
                FpsPolicy::Source
            } else {
                chosen_policy(self.fps_mode, at_least_smallest(self.explicit_fps))
            },
            quality: if own_quality {
                Some(capped_quality(encoder, self.quality_crf))
            } else {
                None
            },
            speed_preset: if own_quality || is_nvenc_encoder(encoder) {
                Some(self.speed_preset)
            } else {
                None
            },
            ..base
        };
        match mode {
            ContentMode::Trim => match self.trim_range() {
                Ok((start, end)) => SettingsView {
                    trim_start: Some(start),
                    trim_end: Some(end),
                    ..common
                },
                Err(_) => common,
            },
            ContentMode::CameraVideos => if is_hardware_encoder(encoder) {
                common
            } else {
                SettingsView { apply_lut: self.apply_lut, ..common }
            },
            ContentMode::Stabilize => SettingsView {
                stabilize_strength: self.stabilize_strength,
                ..common
            },
            ContentMode::PhotoSlideshow => SettingsView {
                photo_interval: self.photo_interval,
                slideshow_fps: self.slideshow_fps,
                slideshow_resolution: named_resolution(self.slideshow_resolution),
                slideshow_audio_paths: self.slideshow_audio_paths,
                slideshow_collage: self.slideshow_collage,
                ..common
            },
            _ => common,
        }
    }

    /// The settings that the form stands for.
    pub open spec fn current(self, presets: Seq<PresetView>) -> SettingsView {
        self.settings(presets, self.mode, self.encoder)
    }

    /// The settings that the form stands for, or what is wrong with its trim entries in the workflow
    /// that needs them.
    pub open spec fn validated(self, presets: Seq<PresetView>) -> Result<SettingsView, Seq<char>> {
        match self.trim_range() {
            Err(error) => if self.mode == ContentMode::Trim {
                Err(error)
            } else {
                Ok(self.current(presets))
            },
            Ok(_) => Ok(self.current(presets)),
        }
    }

    pub open spec fn with_quality(self, e: EncodingView) -> FormView {
        FormView {
            quality_crf: capped_quality(self.encoder, e.quality_crf),
            speed_preset: e.speed_preset,
            ..self
        }
    }

    /// The form shows these settings.
    pub open spec fn showing(self, s: SettingsView) -> FormView {
        FormView {
            encoder: s.encoder,
            fps_mode: fps_choice(s.fps),
            explicit_fps: shown_rate(s.fps),
            trim_start_text: shown_trim(s.trim_start, 0),
            trim_end_text: shown_trim(s.trim_end, 1),
            stabilize_strength: s.stabilize_strength,
            apply_lut: s.apply_lut,
            photo_interval: s.photo_interval,
            slideshow_fps: s.slideshow_fps,
            slideshow_resolution: resolution_name(s.slideshow_resolution),
            slideshow_audio_paths: s.slideshow_audio_paths,
            slideshow_collage: s.slideshow_collage,
            quality_crf: capped_quality(s.encoder, encoding_view(s).quality_crf),
            speed_preset: encoding_view(s).speed_preset,
            ..self
        }
    }

    /// The form remembers its quality and speed for a workflow and an encoder.
    pub open spec fn remembering(self, mode: ContentMode, encoder: Encoder) -> FormView {
        FormView {
            encoding_settings: self.encoding_settings.insert(
                (mode, encoder),
                EncodingView { quality_crf: self.quality_crf, speed_preset: self.speed_preset },
            ),
            ..self
        }
    }

    /// The settings of a workflow are kept.
    pub open spec fn keeping(self, s: SettingsView) -> FormView {
        FormView {
            settings_by_mode: self.settings_by_mode.update(mode_position(s.mode), s),
            ..self
        }
    }

    /// The form after another workflow is chosen: the settings of the left workflow are kept, and those
    /// of the chosen one are shown.
    pub open spec fn in_mode(self, presets: Seq<PresetView>, mode: ContentMode) -> FormView {
        if mode == self.mode {
            self
        } else {
            let kept = self.remembering(self.mode, self.encoder).keeping(
                self.settings(presets, self.mode, self.encoder),
            );
            let shown = FormView { mode, ..kept.showing(kept.settings_by_mode[mode_position(mode)]) };
            if mode == ContentMode::Trim {
                FormView { encoder: Encoder::X265, ..shown }
            } else {
                shown
            }
        }
    }

    /// The form with choices that are on offer: the first encoder where the chosen one is not, and the
    /// rate of the source where the lowest rate of a folder is not.
    pub open spec fn settled(self, presets: Seq<PresetView>, available: Seq<Encoder>) -> FormView {
        let offered = offered_encoders(self.mode, available);
        let chosen = if offered.contains(self.encoder) {
            self
        } else {
            self.with_encoder(presets, offered[0])
        };
        if shows_fps(chosen.mode) && chosen.fps_mode == FpsUiMode::SharedLowest
            && !shares_lowest_fps(presets, chosen.mode, chosen.encoder) {
            FormView { fps_mode: FpsUiMode::Source, ..chosen }
        } else {
            chosen
        }
    }

    /// The selected audio track is removed, and the one in its place is selected.
    pub open spec fn audio_removed(self) -> FormView {
        match self.slideshow_audio_selected {
            Some(i) => if i < self.slideshow_audio_paths.len() {
                FormView {
                    slideshow_audio_paths: self.slideshow_audio_paths.remove(i as int),
                    slideshow_audio_selected: if self.slideshow_audio_paths.len() == 1 {
                        None
                    } else if i == self.slideshow_audio_paths.len() - 1 {
                        Some((i - 1) as usize)
                    } else {
                        Some(i)
                    },
                    ..self
                }
            } else {
                self
            },
            None => self,
        }
    }

    /// The selected audio track changes places with the one that stands `delta` places further.
    pub open spec fn audio_moved(self, delta: int) -> FormView {
        match self.slideshow_audio_selected {
            Some(i) => if i < self.slideshow_audio_paths.len() && 0 <= i + delta
                < self.slideshow_audio_paths.len() {
                FormView {
                    slideshow_audio_paths: swapped(
                        self.slideshow_audio_paths,
                        i as int,
                        i + delta,
                    ),
                    slideshow_audio_selected: Some((i + delta) as usize),
                    ..self
                }
            } else {
                self
            },
            None => self,
        }
    }

    /// What is remembered for the workflow and an encoder, and otherwise what the preset says.
    pub open spec fn quality_for(self, presets: Seq<PresetView>, encoder: Encoder) -> EncodingView {
        if self.encoding_settings.contains_key((self.mode, encoder)) {
            self.encoding_settings[(self.mode, encoder)]
        } else {
            encoding_view(defaults_of(presets, self.mode, encoder))
        }
    }

    /// The form after another encoder is chosen: quality and speed are those last used with it.
    pub open spec fn with_encoder(self, presets: Seq<PresetView>, encoder: Encoder) -> FormView {
        if encoder == self.encoder {
            self
        } else {
            let kept = self.remembering(self.mode, self.encoder);
            (FormView { encoder, ..kept }).with_quality(kept.quality_for(presets, encoder))
        }
    }
}

/// The quality and speed of each workflow with the encoder of its settings.
pub open spec fn table_encodings(table: Seq<SettingsView>) -> EncodingMap {
    Map::new(
        |k: (ContentMode, Encoder)| table[mode_position(k.0)].encoder == k.1,
        |k: (ContentMode, Encoder)| encoding_view(table[mode_position(k.0)]),
    )
}

/// The form as the program starts: it shows the settings of the selected workflow.
pub open spec fn fresh_form(mode: ContentMode, table: Seq<SettingsView>) -> FormView {
    let s = table[mode_position(mode)];
    FormView {
        mode,
        encoder: s.encoder,
        trim_start_text: shown_trim(s.trim_start, 0),
        trim_end_text: shown_trim(s.trim_end, 1),
        stabilize_strength: s.stabilize_strength,
        apply_lut: s.apply_lut,
        photo_interval: s.photo_interval,
        slideshow_fps: s.slideshow_fps,
        slideshow_resolution: resolution_name(s.slideshow_resolution),
        slideshow_audio_paths: s.slideshow_audio_paths,
        slideshow_audio_selected: None,
        slideshow_collage: s.slideshow_collage,
        fps_mode: fps_choice(s.fps),
        explicit_fps: shown_rate(s.fps),
        quality_crf: encoding_view(s).quality_crf,
        speed_preset: encoding_view(s).speed_preset,
        settings_by_mode: table,
        encoding_settings: table_encodings(table),
    }
}

/// The encoders that a workflow offers, of those that are available.
pub open spec fn offered_encoders(mode: ContentMode, available: Seq<Encoder>) -> Seq<Encoder> {
    if mode == ContentMode::Trim || available.len() == 0 {
        seq![Encoder::X265]
    } else {
        available
    }
}

pub fn allowed_encoders(mode: ContentMode, available: &Vec<Encoder>) -> (r: Vec<Encoder>)
    ensures
        r@ == offered_encoders(mode, available@),
        r@.len() > 0,
{
    let mut r: Vec<Encoder> = Vec::new();
    if mode == ContentMode::Trim || available.len() == 0 {
        r.push(Encoder::X265);
        assert(r@ =~= seq![Encoder::X265]);
        return r;
    }
    let mut i: usize = 0;
    while i < available.len()
        invariant
            i <= available@.len(),
            r@ == available@.take(i as int),
        decreases available@.len() - i,
    {
        r.push(available[i]);
        i = i + 1;
        assert(r@ =~= available@.take(i as int));
    }
    assert(available@.take(i as int) =~= available@);
    r
}

fn capped(encoder: Encoder, quality: u8) -> (r: u8)
    ensures
        r == capped_quality(encoder, quality),
{
    let limit: u8 = quality_maximum(encoder);
    if quality > limit {
        limit
    } else {
        quality
    }
}

fn time_or_missing(time: Option<Duration>, missing: u64) -> (r: String)
    ensures
        r@ == shown_trim(time, missing as nat),
{
    match time {
        Some(t) => format_trim_time(t),
        None => {
            let d = Duration::from_secs(missing);
            assert(whole_secs(d) == missing);
            format_trim_time(d)
        },
    }
}

fn named(resolution: (u32, u32)) -> (r: String)
    ensures
        r@ == resolution_name(resolution),
{
    if resolution.0 == 3840 && resolution.1 == 2160 {
        "4K".to_owned()
    } else {
        "1080p".to_owned()
    }
}

pub fn same_settings(a: &QueueSettings, b: &QueueSettings) -> (r: bool)
    ensures
        r == (a@ == b@),
{
    a.mode == b.mode && a.encoder == b.encoder && a.fps == b.fps && same_level(
        a.quality,
        b.quality,
    ) && same_opt(&a.speed_preset, &b.speed_preset) && same_text(
        a.stabilize_strength.as_str(),
        b.stabilize_strength.as_str(),
    ) && same_time(a.trim_start, b.trim_start) && same_time(a.trim_end, b.trim_end) && a.apply_lut
        == b.apply_lut && same_opt(&a.camera_lut_path, &b.camera_lut_path)
        && a.photo_interval.nanos == b.photo_interval.nanos && a.slideshow_resolution.0
        == b.slideshow_resolution.0 && a.slideshow_resolution.1 == b.slideshow_resolution.1
        && a.slideshow_fps == b.slideshow_fps && a.slideshow_collage == b.slideshow_collage
        && same_texts(&a.slideshow_audio_paths, &b.slideshow_audio_paths) && same_texts(
        &a.slideshow_image_paths,
        &b.slideshow_image_paths,
    ) && same_texts(&a.slideshow_review_image_paths, &b.slideshow_review_image_paths) && a.audio
        == b.audio && a.metadata == b.metadata
}

fn same_level(a: Option<u8>, b: Option<u8>) -> (r: bool)
    ensures
        r == (a == b),
{
    match (a, b) {
        (Some(x), Some(y)) => x == y,
        (None, None) => true,
        _ => false,
    }
}

fn same_time(a: Option<Duration>, b: Option<Duration>) -> (r: bool)
    ensures
        r == (a == b),
{
    match (a, b) {
        (Some(x), Some(y)) => x.nanos == y.nanos,
        (None, None) => true,
        _ => false,
    }
}

fn same_opt(a: &Option<String>, b: &Option<String>) -> (r: bool)
    ensures
        r == (opt_text(*a) == opt_text(*b)),
{
    match (a, b) {
        (Some(x), Some(y)) => same_text(x.as_str(), y.as_str()),
        (None, None) => true,
        _ => false,
    }
}

impl SettingsForm {
    /// The form as the program starts, from the preferences.
    pub fn new(preferences: AppPreferences) -> (r: Self)
        requires
            preferences.wf(),
        ensures
            r@.wf(),
            r@ == fresh_form(
                preferences.selected_mode,
                settings_views(preferences.settings_by_mode@),
            ),
    {
        let mode = preferences.selected_mode;
        let ghost table = settings_views(preferences.settings_by_mode@);
        assert(preferences.settings_by_mode@.len() == table.len());
        let mut encoding_settings: Vec<RememberedEncoding> = Vec::new();
        let mut i: usize = 0;
        while i < 6
            invariant
                i <= 6,
                is_mode_table(table),
                table == settings_views(preferences.settings_by_mode@),
                preferences.settings_by_mode@.len() == 6,
                forall|k: int|
                    0 <= k < i ==> remembered(
                        encoding_settings@,
                        (#[trigger] table[k]).mode,
                        table[k].encoder,
                    ) == Some(encoding_view(table[k])),
                forall|m: ContentMode, e: Encoder| #[trigger]
                    remembered(encoding_settings@, m, e) is Some ==> mode_position(m) < i
                        && table[mode_position(m)].encoder == e,
            decreases 6 - i,
        {
            let settings = &preferences.settings_by_mode[i];
            let shown = EncodingUiSettings::from_settings(settings);
            assert(table[i as int] == settings@);
            assert forall|k: int| 0 <= k < i implies (#[trigger] table[k]).mode
                != table[i as int].mode by {
                assert(table[k].mode == crate::model::all_modes()[k]);
                assert(table[i as int].mode == crate::model::all_modes()[i as int]);
            }
            remember_encoding(&mut encoding_settings, settings.mode, settings.encoder, shown);
            i = i + 1;
        }
        let at: usize = mode_index(mode);
        assert(table[at as int].mode == mode);
        let current = preferences.settings_by_mode[at].clone();
        assert(current@ == table[at as int]);
        let shown = EncodingUiSettings::from_settings(&current);
        let r = SettingsForm {
            mode,
            encoder: current.encoder,
            trim_start_text: time_or_missing(current.trim_start, 0),
            trim_end_text: time_or_missing(current.trim_end, 1),
            stabilize_strength: current.stabilize_strength.clone(),
            apply_lut: current.apply_lut,
            photo_interval: current.photo_interval,
            slideshow_fps: current.slideshow_fps,
            slideshow_resolution: named(current.slideshow_resolution),
            slideshow_audio_paths: copy_list(&current.slideshow_audio_paths),
            slideshow_audio_selected: None,
            slideshow_collage: current.slideshow_collage,
            fps_mode: fps_ui_mode(current.fps),
            explicit_fps: explicit_fps(current.fps),
            quality_crf: shown.quality_crf,
            speed_preset: shown.speed_preset,
            settings_by_mode: preferences.settings_by_mode,
            encoding_settings,
        };
        assert forall|k: (ContentMode, Encoder)| #[trigger]
            r@.encoding_settings.contains_key(k) == table_encodings(table).contains_key(k) by {
            let at = mode_position(k.0);
            assert(table[at].mode == crate::model::all_modes()[at]);
            assert(remembered(r.encoding_settings@, table[at].mode, table[at].encoder) is Some);
            assert(remembered(r.encoding_settings@, k.0, k.1) is Some ==> table[at].encoder == k.1);
        }
        assert forall|k: (ContentMode, Encoder)| r@.encoding_settings.contains_key(k) implies
            #[trigger] r@.encoding_settings[k] == table_encodings(table)[k] by {
            let at = mode_position(k.0);
            assert(table[at].mode == crate::model::all_modes()[at]);
            assert(remembered(r.encoding_settings@, k.0, k.1) is Some ==> table[at].encoder == k.1);
        }
        assert(r@.encoding_settings =~= table_encodings(table));
        r
    }

    /// The range of the trim entries, or what is wrong with them.
    pub fn trim_range_from_ui(&self) -> (r: Result<(Duration, Duration), String>)
        ensures
            match r {
                Ok(range) => self@.trim_range() == Ok::<(Duration, Duration), Seq<char>>(range),
                Err(e) => self@.trim_range() == Err::<(Duration, Duration), Seq<char>>(e@),
            },
    {
        let start = match parse_trim_time(self.trim_start_text.as_str()) {
            Ok(start) => start,
            Err(e) => {
                return Err(concat2("Invalid start time: ", e.message()));
            },
        };
        let end = match parse_trim_time(self.trim_end_text.as_str()) {
            Ok(end) => end,
            Err(e) => {
                return Err(concat2("Invalid end time: ", e.message()));
            },
        };
        if end.nanos < start.nanos {
            return Err("Trim end time must be later than or equal to start time".to_owned());
        }
        Ok((start, end))
    }

    /// The settings that the form stands for, with a workflow and an encoder.
    pub fn settings_from_ui(&self, presets: &Presets, mode: ContentMode, encoder: Encoder) -> (r:
        QueueSettings)
        requires
            self@.wf(),
        ensures
            r@ == self@.settings(presets@, mode, encoder),
    {
        let at: usize = mode_index(mode);
        assert(self@.settings_by_mode.len() == self.settings_by_mode@.len());
        let mut settings = if self.settings_by_mode[at].encoder == encoder {
            self.settings_by_mode[at].clone()
        } else {
            presets.default_settings(mode, encoder)
        };
        settings.mode = mode;
        settings.encoder = encoder;
        settings.fps = if mode == ContentMode::Trim || mode == ContentMode::PhotoSlideshow {
            FpsPolicy::Source
        } else {
            fps_policy(self.fps_mode, raised_rate(self.explicit_fps))
        };
        if matches!(encoder, Encoder::X264 | Encoder::X265 | Encoder::SvtAv1) {
            settings.quality = Some(capped(encoder, self.quality_crf));
            settings.speed_preset = Some(self.speed_preset.clone());
        } else if encoder.is_nvenc() {
            settings.quality = None;
            settings.speed_preset = Some(self.speed_preset.clone());
        } else {
            settings.quality = None;
            settings.speed_preset = None;
        }
        match mode {
            ContentMode::Trim => {
                if let Ok((start, end)) = self.trim_range_from_ui() {
                    settings.trim_start = Some(start);
                    settings.trim_end = Some(end);
                }
            },
            ContentMode::CameraVideos => {
                if !encoder.is_hardware() {
                    settings.apply_lut = self.apply_lut;
                }
            },
            ContentMode::Stabilize => {
                settings.stabilize_strength = self.stabilize_strength.clone();
            },
            ContentMode::PhotoSlideshow => {
                settings.photo_interval = self.photo_interval;
                settings.slideshow_fps = self.slideshow_fps;
                settings.slideshow_resolution = if same_text(
                    self.slideshow_resolution.as_str(),
                    "4K",
                ) {
                    (3840, 2160)
                } else {
                    (1920, 1080)
                };
                settings.slideshow_audio_paths = copy_list(&self.slideshow_audio_paths);
                settings.slideshow_collage = self.slideshow_collage;
            },
            _ => {},
        }
        settings
    }

    pub fn current_settings(&self, presets: &Presets) -> (r: QueueSettings)
        requires
            self@.wf(),
        ensures
            r@ == self@.current(presets@),
    {
        self.settings_from_ui(presets, self.mode, self.encoder)
    }

    /// The settings that the form stands for, unless its trim range is wrong.
    pub fn validated_current_settings(&self, presets: &Presets) -> (r: Result<
        QueueSettings,
        String,
    >)
        requires
            self@.wf(),
        ensures
            self@.validated(presets@) == match r {
                Ok(s) => Ok::<SettingsView, Seq<char>>(s@),
                Err(e) => Err(e@),
            },
    {
        if self.mode == ContentMode::Trim {
            if let Err(e) = self.trim_range_from_ui() {
                return Err(e);
            }
        }
        Ok(self.current_settings(presets))
    }

    fn apply_quality_settings_to_ui(&mut self, settings: &EncodingUiSettings)
        ensures
            final(self)@ == old(self)@.with_quality(settings@),
    {
        self.quality_crf = capped(self.encoder, settings.quality_crf);
        self.speed_preset = settings.speed_preset.clone();
    }

    /// Shows settings in the form.
    pub fn apply_settings_to_ui(&mut self, settings: &QueueSettings)
        ensures
            final(self)@ == old(self)@.showing(settings@),
    {
        self.encoder = settings.encoder;
        self.fps_mode = fps_ui_mode(settings.fps);
        self.explicit_fps = explicit_fps(settings.fps);
        let shown = EncodingUiSettings::from_settings(settings);
        self.apply_quality_settings_to_ui(&shown);
        self.trim_start_text = time_or_missing(settings.trim_start, 0);
        self.trim_end_text = time_or_missing(settings.trim_end, 1);
        self.stabilize_strength = settings.stabilize_strength.clone();
        self.apply_lut = settings.apply_lut;
        self.photo_interval = settings.photo_interval;
        self.slideshow_fps = settings.slideshow_fps;
        self.slideshow_resolution = named(settings.slideshow_resolution);
        self.slideshow_audio_paths = copy_list(&settings.slideshow_audio_paths);
        self.slideshow_collage = settings.slideshow_collage;
    }

    fn remember_encoding_settings(&mut self, mode: ContentMode, encoder: Encoder)
        ensures
            final(self)@ == old(self)@.remembering(mode, encoder),
    {
        let settings = EncodingUiSettings {
            quality_crf: self.quality_crf,
            speed_preset: self.speed_preset.clone(),
        };
        let ghost before = encoding_map(self.encoding_settings@);
        let ghost added = settings@;
        remember_encoding(&mut self.encoding_settings, mode, encoder, settings);
        assert(encoding_map(self.encoding_settings@) =~= before.insert((mode, encoder), added)) by {
            assert forall|k: (ContentMode, Encoder)|
                encoding_map(self.encoding_settings@).contains_key(k) <==> before.insert(
                    (mode, encoder),
                    added,
                ).contains_key(k) by {
                if k.0 == mode && k.1 == encoder {
                    assert(k == (mode, encoder));
                } else {
                    assert(remembered(self.encoding_settings@, k.0, k.1) == remembered(
                        old(self).encoding_settings@,
                        k.0,
                        k.1,
                    ));
                }
            }
            assert forall|k: (ContentMode, Encoder)|
                encoding_map(self.encoding_settings@).contains_key(k) implies encoding_map(
                self.encoding_settings@,
            )[k] == before.insert((mode, encoder), added)[k] by {
                if k.0 == mode && k.1 == encoder {
                    assert(k == (mode, encoder));
                } else {
                    assert(remembered(self.encoding_settings@, k.0, k.1) == remembered(
                        old(self).encoding_settings@,
                        k.0,
                        k.1,
                    ));
                }
            }
        }
    }

    fn keep_settings(&mut self, settings: QueueSettings)
        requires
            old(self)@.wf(),
        ensures
            final(self)@ == old(self)@.keeping(settings@),
            final(self)@.wf(),
    {
        let at: usize = mode_index(settings.mode);
        let ghost before = self@.settings_by_mode;
        let ghost kept = settings@;
        assert(before.len() == self.settings_by_mode@.len());
        self.settings_by_mode.set(at, settings);
        assert(settings_views(self.settings_by_mode@) =~= before.update(at as int, kept));
    }

    /// Chooses another workflow.
    pub fn set_mode(&mut self, presets: &Presets, mode: ContentMode)
        requires
            old(self)@.wf(),
        ensures
            final(self)@ == old(self)@.in_mode(presets@, mode),
            final(self)@.wf(),
    {
        if mode == self.mode {
            return;
        }
        let left = self.mode;
        let encoder = self.encoder;
        let previous = self.settings_from_ui(presets, left, encoder);
        self.remember_encoding_settings(left, encoder);
        self.keep_settings(previous);
        let at: usize = mode_index(mode);
        assert(self@.settings_by_mode.len() == self.settings_by_mode@.len());
        let next = self.settings_by_mode[at].clone();
        assert(next@ == self@.settings_by_mode[at as int]);
        self.apply_settings_to_ui(&next);
        self.mode = mode;
        if mode == ContentMode::Trim {
            self.encoder = Encoder::X265;
        }
    }

    /// Chooses another encoder.
    pub fn set_encoder(&mut self, presets: &Presets, encoder: Encoder)
        ensures
            final(self)@ == old(self)@.with_encoder(presets@, encoder),
            old(self)@.wf() ==> final(self)@.wf(),
    {
        if encoder == self.encoder {
            return;
        }
        let left = self.encoder;
        let mode = self.mode;
        self.remember_encoding_settings(mode, left);
        let defaults = presets.default_settings(mode, encoder);
        let next = encoding_ui_settings_for(&self.encoding_settings, mode, encoder, &defaults);
        assert(next@ == self@.quality_for(presets@, encoder));
        self.encoder = encoder;
        self.apply_quality_settings_to_ui(&next);
    }

    /// Keeps the current settings for the workflow, and says whether they had changed.
    pub fn sync_settings(&mut self, presets: &Presets) -> (r: bool)
        requires
            old(self)@.wf(),
        ensures
            final(self)@ == old(self)@.remembering(old(self)@.mode, old(self)@.encoder).keeping(
                old(self)@.current(presets@),
            ),
            r == (old(self)@.settings_by_mode[mode_position(old(self)@.mode)] != old(
                self,
            )@.current(presets@)),
            final(self)@.wf(),
    {
        let settings = self.current_settings(presets);
        let mode = self.mode;
        let encoder = self.encoder;
        self.remember_encoding_settings(mode, encoder);
        let at: usize = mode_index(mode);
        assert(self@.settings_by_mode.len() == self.settings_by_mode@.len());
        assert(self@.settings_by_mode[at as int] == self.settings_by_mode@[at as int]@);
        let changed = !same_settings(&self.settings_by_mode[at], &settings);
        self.keep_settings(settings);
        changed
    }

    /// Corrects the choices that are not on offer.
    pub fn settle(&mut self, presets: &Presets, available: &Vec<Encoder>)
        requires
            old(self)@.wf(),
        ensures
            final(self)@ == old(self)@.settled(presets@, available@),
            final(self)@.wf(),
    {
        let offered = allowed_encoders(self.mode, available);
        let mut found: bool = false;
        let mut i: usize = 0;
        while i < offered.len()
            invariant
                i <= offered@.len(),
                found == offered@.take(i as int).contains(self.encoder),
            decreases offered@.len() - i,
        {
            let ghost seen = offered@.take(i as int);
            assert(offered@.take(i + 1) =~= seen.push(offered@[i as int]));
            if offered[i] == self.encoder {
                assert(offered@.take(i + 1)[i as int] == self.encoder);
                found = true;
            } else if found {
                let ghost k = choose|k: int| 0 <= k < seen.len() && seen[k] == self.encoder;
                assert(offered@.take(i + 1)[k] == self.encoder);
            }
            i = i + 1;
        }
        assert(offered@.take(i as int) =~= offered@);
        if !found {
            self.set_encoder(presets, offered[0]);
        }
        if workflow_shows_fps(self.mode) && self.fps_mode == FpsUiMode::SharedLowest
            && !presets.share_lowest_fps(self.mode, self.encoder) {
            self.fps_mode = FpsUiMode::Source;
        }
    }

    /// Adds audio tracks that are not listed yet, and selects the last one.
    pub fn add_audio(&mut self, paths: &Vec<String>)
        ensures
            final(self)@ == (FormView {
                slideshow_audio_paths: with_new(
                    old(self)@.slideshow_audio_paths,
                    texts(paths@),
                ),
                slideshow_audio_selected: last_place(
                    with_new(old(self)@.slideshow_audio_paths, texts(paths@)).len(),
                ),
                ..old(self)@
            }),
    {
        let ghost start = texts(self.slideshow_audio_paths@);
        let ghost added = texts(paths@);
        let mut list = copy_list(&self.slideshow_audio_paths);
        let mut i: usize = 0;
        assert(added.take(0) =~= Seq::<Seq<char>>::empty());
        while i < paths.len()
            invariant
                i <= paths@.len(),
                added == texts(paths@),
                texts(list@) == with_new(start, added.take(i as int)),
            decreases paths@.len() - i,
        {
            assert(added.take(i + 1).drop_last() =~= added.take(i as int));
            assert(added.take(i + 1).last() == paths@[i as int]@);
            if !list_has_path(&list, paths[i].as_str()) {
                let ghost before = texts(list@);
                list.push(paths[i].clone());
                assert(texts(list@) =~= before.push(paths@[i as int]@));
            }
            i = i + 1;
        }
        assert(added.take(i as int) =~= added);
        assert(texts(list@).len() == list@.len());
        self.slideshow_audio_selected = if list.len() == 0 {
            None
        } else {
            Some(list.len() - 1)
        };
        self.slideshow_audio_paths = list;
    }

    /// Removes the selected audio track.
    pub fn remove_audio(&mut self)
        ensures
            final(self)@ == old(self)@.audio_removed(),
    {
        if let Some(i) = self.slideshow_audio_selected {
            let n: usize = self.slideshow_audio_paths.len();
            let ghost before = texts(self.slideshow_audio_paths@);
            assert(before.len() == n);
            if i < n {
                let _ = self.slideshow_audio_paths.remove(i);
                assert(texts(self.slideshow_audio_paths@) =~= before.remove(i as int));
                self.slideshow_audio_selected = if n == 1 {
                    None
                } else if i == n - 1 {
                    Some(i - 1)
                } else {
                    Some(i)
                };
            }
        }
    }

    /// Moves the selected audio track by some places, up where `delta` is negative: it changes places
    /// with the track that stands there. Nothing moves where there is no such track.
    pub fn move_audio(&mut self, delta: isize)
        ensures
            final(self)@ == old(self)@.audio_moved(delta as int),
    {
        if let Some(i) = self.slideshow_audio_selected {
            let n: usize = self.slideshow_audio_paths.len();
            let ghost before = texts(self.slideshow_audio_paths@);
            assert(before.len() == n);
            if i < n {
                let next: i128 = i as i128 + delta as i128;
                if next >= 0 && next < n as i128 {
                    let to: usize = next as usize;
                    swap_texts(&mut self.slideshow_audio_paths, i, to);
                    self.slideshow_audio_selected = Some(to);
                }
            }
        }
    }

    pub fn clear_audio(&mut self)
        ensures
            final(self)@ == (FormView {
                slideshow_audio_paths: Seq::empty(),
                slideshow_audio_selected: None,
                ..old(self)@
            }),
    {
        self.slideshow_audio_paths = Vec::new();
        assert(texts(self.slideshow_audio_paths@) =~= Seq::<Seq<char>>::empty());
        self.slideshow_audio_selected = None;
    }
}

/// The list with the paths that it does not have yet.
pub open spec fn with_new(list: Seq<Seq<char>>, added: Seq<Seq<char>>) -> Seq<Seq<char>>
    decreases added.len(),
{
    if added.len() == 0 {
        list
    } else {
        let before = with_new(list, added.drop_last());
        if has_path(before, added.last()) {
            before
        } else {
            before.push(added.last())
        }
    }
}

pub open spec fn last_place(len: nat) -> Option<usize> {
    if len == 0 {
        None
    } else {
        Some((len - 1) as usize)
    }
}

/// Two items have changed places.
pub open spec fn swapped<A>(s: Seq<A>, i: int, j: int) -> Seq<A> {
    s.update(i, s[j]).update(j, s[i])
}

pub fn swap_texts(list: &mut Vec<String>, i: usize, j: usize)
    requires
        i < old(list)@.len(),
        j < old(list)@.len(),
    ensures
        texts(final(list)@) == swapped(texts(old(list)@), i as int, j as int),
{
    let ghost before = texts(list@);
    let a = list[i].clone();
    let b = list[j].clone();
    list.set(i, b);
    list.set(j, a);
    assert(texts(list@) =~= swapped(before, i as int, j as int));
}

/// A time that the trim entries can show.
pub open spec fn fits_trim_entry(d: Duration) -> bool {
    d.nanos % 1_000_000_000 == 0 && d.nanos < 360_000_000_000_000
}

/// The form shows all of the settings: nothing is set that their workflow and encoder have no entry
/// for, and nothing is left open that they have one for.
pub open spec fn fits_form(s: SettingsView) -> bool {
    let own_quality = s.encoder == Encoder::X264 || s.encoder == Encoder::X265 || s.encoder
        == Encoder::SvtAv1;
    &&& if own_quality {
        s.quality matches Some(q) && q <= quality_limit(s.encoder)
    } else {
        s.quality is None
    }
    &&& s.speed_preset is Some <==> (own_quality || is_nvenc_encoder(s.encoder))
    &&& if s.mode == ContentMode::Trim || s.mode == ContentMode::PhotoSlideshow {
        s.fps == FpsPolicy::Source
    } else {
        s.fps matches FpsPolicy::Exact(rate) ==> SMALLEST_RATE_BITS <= rate.bits < INFINITY_BITS
    }
    &&& s.mode == ContentMode::Trim ==> s.trim_start is Some && s.trim_end is Some
        && fits_trim_entry(s.trim_start->0) && fits_trim_entry(s.trim_end->0)
        && s.trim_start->0.nanos <= s.trim_end->0.nanos
    &&& s.mode == ContentMode::PhotoSlideshow ==> s.slideshow_resolution == (3840u32, 2160u32)
        || s.slideshow_resolution == (1920u32, 1080u32)
}

/// Showing settings that the form can hold, and reading them back, keeps them.
pub proof fn law_form_round_trip(f: FormView, presets: Seq<PresetView>, s: SettingsView)
    requires
        f.wf(),
        f.settings_by_mode[mode_position(s.mode)] == s,
        fits_form(s),
    ensures
        f.showing(s).settings(presets, s.mode, s.encoder) == s,
{
    if s.mode == ContentMode::Trim {
        lemma_trim_entry(s.trim_start->0, s.trim_start, 0);
        lemma_trim_entry(s.trim_end->0, s.trim_end, 1);
    }
    if s.mode == ContentMode::PhotoSlideshow {
        reveal_strlit("4K");
        reveal_strlit("1080p");
        assert("4K"@.len() != "1080p"@.len());
    }
}

proof fn lemma_trim_entry(d: Duration, entry: Option<Duration>, fallback: nat)
    requires
        entry == Some(d),
        fits_trim_entry(d),
    ensures
        trim_seconds(shown_trim(entry, fallback)) matches Ok(secs) && secs * 1_000_000_000 == d.nanos,
{
    law_trim_time_round_trip(whole_secs(d));
}

/// Choosing another workflow keeps the settings of the one that is left, and those of all the others.
pub proof fn law_mode_change_keeps_settings(f: FormView, presets: Seq<PresetView>, mode: ContentMode)
    requires
        f.wf(),
        f.mode != mode,
    ensures
        f.in_mode(presets, mode).settings_by_mode[mode_position(f.mode)] == f.current(presets),
        f.in_mode(presets, mode).mode == mode,
        f.in_mode(presets, mode).wf(),
        forall|m: ContentMode|
            m != f.mode ==> f.in_mode(presets, mode).settings_by_mode[#[trigger] mode_position(m)]
                == f.settings_by_mode[mode_position(m)],
{
}

/// Choosing another encoder and coming back brings back the quality and speed.
pub proof fn law_encoder_change_remembers(f: FormView, presets: Seq<PresetView>, encoder: Encoder)
    requires
        encoder != f.encoder,
        f.quality_crf <= quality_limit(f.encoder),
    ensures
        f.with_encoder(presets, encoder).with_encoder(presets, f.encoder).quality_crf
            == f.quality_crf,
        f.with_encoder(presets, encoder).with_encoder(presets, f.encoder).speed_preset
            == f.speed_preset,
        f.with_encoder(presets, encoder).with_encoder(presets, f.encoder).encoder == f.encoder,
{
}

/// Choices that are on offer stay.
pub proof fn law_settled_choices_stay(f: FormView, presets: Seq<PresetView>, available: Seq<Encoder>)
    ensures
        f.settled(presets, available).settled(presets, available) == f.settled(presets, available),
        offered_encoders(f.mode, available).contains(f.settled(presets, available).encoder),
{
    let offered = offered_encoders(f.mode, available);
    assert(offered.len() > 0);
    assert(offered.contains(offered[0]));
    assert(f.settled(presets, available).mode == f.mode);
}

} // verus!
