//! Stored settings, the stored queue, and stored preferences.
//!
//! The front end turns files into these plain values and back; reading and printing decimal fractions
//! is its part too. What the values mean is decided here.

use crate::clock::{
    clock_text, format_duration, law_stored_time_round_trip, parse_duration, stored_seconds,
    whole_secs,
};
use crate::encoding::{
    is_finite_single, nearest_level, normalized_quality, quality_limit, quality_maximum,
};
use crate::model::{
    encoder_named, encoder_user_name, is_hardware_encoder, law_encoder_names_round_trip,
    law_mode_labels_round_trip, mode_label, mode_labelled, AudioPolicy, ContentMode, Encoder,
    FpsPolicy, FrameRate, MetadataPolicy, QueueSettings, SettingsView,
};
use crate::text::{
    copy_list, copy_opt, decimal, decimal_text, lemma_decimal_round_trip, list_contains, opt_text,
    parse_unsigned, parsed_unsigned, same_text, texts,
};
use crate::time::Duration;
use vstd::prelude::*;

verus! {

/// The stored frame rate entry.
#[derive(Debug, Clone, Copy, PartialEq, Eq, Structural)]
pub enum StoredFps {
    /// The lowest rate of the folder.
    Automatic,
    /// A number.
    Number(FrameRate),
    /// Anything else, which keeps the source's rate.
    Absent,
}

/// Settings as they are stored.
#[derive(Debug, PartialEq, Eq)]
pub struct StoredSettings {
    pub mode: String,
    pub encoder: String,
    pub fps_raw: StoredFps,
    pub target_fps: Option<FrameRate>,
    pub share_lowest_fps: bool,
    pub quality_crf: String,
    pub quality_preset: String,
    pub stabilize_strength: String,
    pub trim_start: String,
    pub trim_end: String,
    pub apply_lut: Option<bool>,
    pub camera_lut_path: Option<String>,
    /// The interval between photos, where the stored number is a positive finite one.
    pub photo_interval: Option<Duration>,
    pub slideshow_resolution: String,
    pub slideshow_width: Option<u32>,
    pub slideshow_height: Option<u32>,
    pub slideshow_fps: u32,
    pub slideshow_collage_enabled: bool,
    pub slideshow_audio_paths: Vec<String>,
    pub slideshow_audio_path: Option<String>,
    pub slideshow_image_paths: Vec<String>,
    pub slideshow_review_image_paths: Vec<String>,
    pub metadata: Option<String>,
}

/// The contents of `StoredSettings`.
pub struct StoredView {
    pub mode: Seq<char>,
    pub encoder: Seq<char>,
    pub fps_raw: StoredFps,
    pub target_fps: Option<FrameRate>,
    pub share_lowest_fps: bool,
    pub quality_crf: Seq<char>,
    pub quality_preset: Seq<char>,
    pub stabilize_strength: Seq<char>,
    pub trim_start: Seq<char>,
    pub trim_end: Seq<char>,
    pub apply_lut: Option<bool>,
    pub camera_lut_path: Option<Seq<char>>,
    pub photo_interval: Option<Duration>,
    pub slideshow_resolution: Seq<char>,
    pub slideshow_width: Option<u32>,
    pub slideshow_height: Option<u32>,
    pub slideshow_fps: u32,
    pub slideshow_collage_enabled: bool,
    pub slideshow_audio_paths: Seq<Seq<char>>,
    pub slideshow_audio_path: Option<Seq<char>>,
    pub slideshow_image_paths: Seq<Seq<char>>,
    pub slideshow_review_image_paths: Seq<Seq<char>>,
    pub metadata: Option<Seq<char>>,
}

impl View for StoredSettings {
    type V = StoredView;

    open spec fn view(&self) -> StoredView {
        StoredView {
            mode: self.mode@,
            encoder: self.encoder@,
            fps_raw: self.fps_raw,
            target_fps: self.target_fps,
            share_lowest_fps: self.share_lowest_fps,
            quality_crf: self.quality_crf@,
            quality_preset: self.quality_preset@,
            stabilize_strength: self.stabilize_strength@,
            trim_start: self.trim_start@,
            trim_end: self.trim_end@,
            apply_lut: self.apply_lut,
            camera_lut_path: opt_text(self.camera_lut_path),
            photo_interval: self.photo_interval,
            slideshow_resolution: self.slideshow_resolution@,
            slideshow_width: self.slideshow_width,
            slideshow_height: self.slideshow_height,
            slideshow_fps: self.slideshow_fps,
            slideshow_collage_enabled: self.slideshow_collage_enabled,
            slideshow_audio_paths: texts(self.slideshow_audio_paths@),
            slideshow_audio_path: opt_text(self.slideshow_audio_path),
            slideshow_image_paths: texts(self.slideshow_image_paths@),
            slideshow_review_image_paths: texts(self.slideshow_review_image_paths@),
            metadata: opt_text(self.metadata),
        }
    }
}

/// What stored settings are read against.
#[derive(Debug, PartialEq, Eq)]
pub struct SettingsFacts {
    /// The settings that the stored workflow and encoder start from.
    pub defaults: QueueSettings,
    /// The bit pattern of the single that the quality entry reads as, where it is a decimal fraction.
    pub quality_number: Option<u32>,
    /// Those of the stored audio files that exist.
    pub existing_files: Vec<String>,
}

/// The contents of `SettingsFacts`.
pub struct FactsView {
    pub defaults: SettingsView,
    pub quality_number: Option<u32>,
    pub existing_files: Seq<Seq<char>>,
}

impl View for SettingsFacts {
    type V = FactsView;

    open spec fn view(&self) -> FactsView {
        FactsView {
            defaults: self.defaults@,
            quality_number: self.quality_number,
            existing_files: texts(self.existing_files@),
        }
    }
}

/// A level brought into the range of an encoder.
pub open spec fn limited_level(n: nat, encoder: Encoder) -> u8 {
    if n > quality_limit(encoder) {
        quality_limit(encoder)
    } else {
        n as u8
    }
}

/// The quality that an entry means: a whole number, or a fraction rounded to the nearest level.
pub open spec fn stored_quality(
    entry: Seq<char>,
    number: Option<u32>,
    encoder: Encoder,
) -> Option<u8> {
    match parsed_unsigned(entry, 1_000_000) {
        Some(n) => Some(limited_level(n, encoder)),
        None => match number {
            Some(bits) => if entry.len() > 0 && is_finite_single(bits) {
                Some(nearest_level(bits, quality_limit(encoder)))
            } else {
                None
            },
            None => None,
        },
    }
}

pub open spec fn stored_fps(v: StoredView) -> FpsPolicy {
    if v.share_lowest_fps || v.fps_raw == StoredFps::Automatic {
        FpsPolicy::SharedLowest
    } else if v.target_fps is Some && v.target_fps->0.usable() {
        FpsPolicy::Exact(v.target_fps->0)
    } else {
        match v.fps_raw {
            StoredFps::Number(rate) => if rate.usable() {
                FpsPolicy::Exact(rate)
            } else {
                FpsPolicy::Source
            },
            _ => FpsPolicy::Source,
        }
    }
}

/// The span that a stored time means.
pub open spec fn stored_time(entry: Seq<char>) -> Option<Duration> {
    match stored_seconds(entry) {
        Some(secs) => Some(Duration { nanos: (secs * 1_000_000_000) as u128 }),
        None => None,
    }
}

/// Those files of a list that exist.
pub open spec fn existing_only(
    files: Seq<Seq<char>>,
    existing: Seq<Seq<char>>,
) -> Seq<Seq<char>> {
    files.filter(|f: Seq<char>| existing.contains(f))
}

/// The audio files that still exist; the older single entry counts where the list gives none.
pub open spec fn stored_audio(v: StoredView, existing: Seq<Seq<char>>) -> Seq<Seq<char>> {
    let listed = existing_only(v.slideshow_audio_paths, existing);
    if listed.len() == 0 && v.slideshow_audio_path is Some && existing.contains(
        v.slideshow_audio_path->0,
    ) {
        seq![v.slideshow_audio_path->0]
    } else {
        listed
    }
}

pub open spec fn stored_resolution(v: StoredView) -> (u32, u32) {
    if v.slideshow_width is Some && v.slideshow_height is Some && v.slideshow_width->0 > 0
        && v.slideshow_height->0 > 0 {
        (v.slideshow_width->0, v.slideshow_height->0)
    } else if v.slideshow_resolution == "4K"@ {
        (3840, 2160)
    } else {
        (1920, 1080)
    }
}

/// The settings that stored settings mean, where their workflow and encoder are known.
pub open spec fn restored_settings(v: StoredView, facts: FactsView) -> Option<SettingsView> {
    match (mode_labelled(v.mode), encoder_named(v.encoder)) {
        (Some(mode), Some(encoder)) => Some(
            SettingsView {
                mode,
                encoder,
                fps: stored_fps(v),
                quality: stored_quality(v.quality_crf, facts.quality_number, encoder),
                speed_preset: if v.quality_preset.len() == 0 {
                    None
                } else {
                    Some(v.quality_preset)
                },
                stabilize_strength: if v.stabilize_strength.len() == 0 {
                    facts.defaults.stabilize_strength
                } else {
                    v.stabilize_strength
                },
                trim_start: stored_time(v.trim_start),
                trim_end: stored_time(v.trim_end),
                apply_lut: mode == ContentMode::CameraVideos && !is_hardware_encoder(encoder) && (
                v.apply_lut is None || v.apply_lut->0),
                camera_lut_path: v.camera_lut_path,
                photo_interval: match v.photo_interval {
                    Some(d) => d,
                    None => facts.defaults.photo_interval,
                },
                slideshow_resolution: stored_resolution(v),
                slideshow_fps: if v.slideshow_fps > 0 {
                    v.slideshow_fps
                } else {
                    facts.defaults.slideshow_fps
                },
                slideshow_collage: v.slideshow_collage_enabled,
                slideshow_audio_paths: stored_audio(v, facts.existing_files),
                slideshow_image_paths: v.slideshow_image_paths,
                slideshow_review_image_paths: v.slideshow_review_image_paths,
                audio: AudioPolicy::CopyValid,
                metadata: if v.metadata == Some("preserve"@) {
                    MetadataPolicy::Preserve
                } else if v.metadata == Some("remove"@) {
                    MetadataPolicy::Remove
                } else {
                    facts.defaults.metadata
                },
            },
        ),
        _ => None,
    }
}

/// Settings as they are stored.
pub open spec fn stored_form(s: SettingsView) -> StoredView {
    StoredView {
        mode: mode_label(s.mode),
        encoder: encoder_user_name(s.encoder),
        fps_raw: match s.fps {
            FpsPolicy::SharedLowest => StoredFps::Automatic,
            FpsPolicy::Source => StoredFps::Absent,
            FpsPolicy::Exact(rate) => StoredFps::Number(rate),
        },
        target_fps: match s.fps {
            FpsPolicy::Exact(rate) => Some(rate),
            _ => None,
        },
        share_lowest_fps: s.fps == FpsPolicy::SharedLowest,
        quality_crf: match s.quality {
            Some(q) => decimal(limited_level(q as nat, s.encoder) as nat),
            None => Seq::empty(),
        },
        quality_preset: match s.speed_preset {
            Some(p) => p,
            None => Seq::empty(),
        },
        stabilize_strength: s.stabilize_strength,
        trim_start: time_entry(s.trim_start),
        trim_end: time_entry(s.trim_end),
        apply_lut: Some(s.apply_lut),
        camera_lut_path: s.camera_lut_path,
        photo_interval: Some(s.photo_interval),
        slideshow_resolution: if s.slideshow_resolution == (3840u32, 2160u32) {
            "4K"@
        } else {
            "1080p"@
        },
        slideshow_width: Some(s.slideshow_resolution.0),
        slideshow_height: Some(s.slideshow_resolution.1),
        slideshow_fps: s.slideshow_fps,
        slideshow_collage_enabled: s.slideshow_collage,
        slideshow_audio_paths: s.slideshow_audio_paths,
        slideshow_audio_path: None,
        slideshow_image_paths: s.slideshow_image_paths,
        slideshow_review_image_paths: s.slideshow_review_image_paths,
        metadata: Some(
            match s.metadata {
                MetadataPolicy::Preserve => "preserve"@,
                MetadataPolicy::Remove => "remove"@,
            },
        ),
    }
}

/// The stored entry of an optional time.
pub open spec fn time_entry(d: Option<Duration>) -> Seq<char> {
    match d {
        Some(d) => clock_text(whole_secs(d)),
        None => Seq::empty(),
    }
}

fn time_entry_text(d: Option<Duration>) -> (r: String)
    ensures
        r@ == time_entry(d),
{
    match d {
        Some(d) => format_duration(d),
        None => empty_text(),
    }
}

fn empty_text() -> (r: String)
    ensures
        r@ == Seq::<char>::empty(),
{
    let r = String::new();
    assert(r@ =~= Seq::<char>::empty());
    r
}

fn limit_level(n: u128, encoder: Encoder) -> (r: u8)
    ensures
        r == limited_level(n as nat, encoder),
{
    let limit: u8 = quality_maximum(encoder);
    if n > limit as u128 {
        limit
    } else {
        n as u8
    }
}

fn read_quality(entry: &str, number: Option<u32>, encoder: Encoder) -> (r: Option<u8>)
    ensures
        r == stored_quality(entry@, number, encoder),
{
    match parse_unsigned(entry, 1_000_000) {
        Some(n) => Some(limit_level(n, encoder)),
        None => match number {
            Some(bits) => {
                let exponent: u32 = bits % 0x8000_0000 / 0x80_0000;
                if entry.unicode_len() > 0 && exponent < 255 {
                    Some(normalized_quality(encoder, bits))
                } else {
                    None
                }
            },
            None => None,
        },
    }
}

fn keep_existing(files: &Vec<String>, existing: &Vec<String>) -> (r: Vec<String>)
    ensures
        texts(r@) == existing_only(texts(files@), texts(existing@)),
{
    let ghost known = texts(existing@);
    let ghost all = texts(files@);
    let ghost test = |f: Seq<char>| known.contains(f);
    let mut r: Vec<String> = Vec::new();
    let mut i: usize = 0;
    assert(texts(r@) =~= all.take(0).filter(test));
    while i < files.len()
        invariant
            i <= files@.len(),
            known == texts(existing@),
            all == texts(files@),
            test == (|f: Seq<char>| known.contains(f)),
            texts(r@) == all.take(i as int).filter(test),
        decreases files@.len() - i,
    {
        let ghost before = texts(r@);
        proof {
            assert(all.take(i + 1) =~= all.take(i as int).push(all[i as int]));
            all.take(i as int).lemma_filter_push(all[i as int], test);
            assert(all[i as int] == files@[i as int]@);
        }
        if list_contains(existing, files[i].as_str()) {
            r.push(files[i].clone());
            assert(texts(r@) =~= before.push(all[i as int]));
        }
        i = i + 1;
    }
    assert(all.take(i as int) =~= all);
    r
}

impl StoredSettings {
    /// The workflow and encoder of stored settings, where both are known.
    pub fn workflow(&self) -> (r: Option<(ContentMode, Encoder)>)
        ensures
            r == match (mode_labelled(self@.mode), encoder_named(self@.encoder)) {
                (Some(mode), Some(encoder)) => Some((mode, encoder)),
                _ => None,
            },
    {
        match (
            ContentMode::from_label(self.mode.as_str()),
            Encoder::from_library_name(self.encoder.as_str()),
        ) {
            (Some(mode), Some(encoder)) => Some((mode, encoder)),
            _ => None,
        }
    }

    /// The settings as they are stored.
    pub fn from_settings(settings: &QueueSettings) -> (r: StoredSettings)
        ensures
            r@ == stored_form(settings@),
    {
        let (fps_raw, target_fps, share_lowest_fps) = match settings.fps {
            FpsPolicy::SharedLowest => (StoredFps::Automatic, None, true),
            FpsPolicy::Source => (StoredFps::Absent, None, false),
            FpsPolicy::Exact(rate) => (StoredFps::Number(rate), Some(rate), false),
        };
        let quality_crf = match settings.quality {
            Some(q) => decimal_text(limit_level(q as u128, settings.encoder) as u128),
            None => empty_text(),
        };
        let quality_preset = match &settings.speed_preset {
            Some(p) => p.clone(),
            None => empty_text(),
        };
        let is_4k = settings.slideshow_resolution.0 == 3840 && settings.slideshow_resolution.1
            == 2160;
        StoredSettings {
            mode: settings.mode.label().to_owned(),
            encoder: settings.encoder.user_name().to_owned(),
            fps_raw,
            target_fps,
            share_lowest_fps,
            quality_crf,
            quality_preset,
            stabilize_strength: settings.stabilize_strength.clone(),
            trim_start: time_entry_text(settings.trim_start),
            trim_end: time_entry_text(settings.trim_end),
            apply_lut: Some(settings.apply_lut),
            camera_lut_path: copy_opt(&settings.camera_lut_path),
            photo_interval: Some(settings.photo_interval),
            slideshow_resolution: if is_4k {
                "4K".to_owned()
            } else {
                "1080p".to_owned()
            },
            slideshow_width: Some(settings.slideshow_resolution.0),
            slideshow_height: Some(settings.slideshow_resolution.1),
            slideshow_fps: settings.slideshow_fps,
            slideshow_collage_enabled: settings.slideshow_collage,
            slideshow_audio_paths: copy_list(&settings.slideshow_audio_paths),
            slideshow_audio_path: None,
            slideshow_image_paths: copy_list(&settings.slideshow_image_paths),
            slideshow_review_image_paths: copy_list(&settings.slideshow_review_image_paths),
            metadata: Some(
                match settings.metadata {
                    MetadataPolicy::Preserve => "preserve".to_owned(),
                    MetadataPolicy::Remove => "remove".to_owned(),
                },
            ),
        }
    }

    /// The settings that stored settings mean, where their workflow and encoder are known.
    pub fn into_settings(&self, facts: &SettingsFacts) -> (r: Option<QueueSettings>)
        ensures
            match r {
                Some(s) => restored_settings(self@, facts@) == Some(s@),
                None => restored_settings(self@, facts@) is None,
            },
    {
        let (mode, encoder) = match self.workflow() {
            Some(pair) => pair,
            None => {
                return None;
            },
        };
        let fps = self.fps_policy();
        let metadata = match &self.metadata {
            Some(text) => {
                if same_text(text.as_str(), "preserve") {
                    MetadataPolicy::Preserve
                } else if same_text(text.as_str(), "remove") {
                    MetadataPolicy::Remove
                } else {
                    facts.defaults.metadata
                }
            },
            None => facts.defaults.metadata,
        };
        let apply_lut = mode == ContentMode::CameraVideos && !encoder.is_hardware() && match self.apply_lut {
            Some(flag) => flag,
            None => true,
        };
        let settings = QueueSettings {
            mode,
            encoder,
            fps,
            quality: read_quality(self.quality_crf.as_str(), facts.quality_number, encoder),
            speed_preset: if self.quality_preset.as_str().unicode_len() == 0 {
                None
            } else {
                Some(self.quality_preset.clone())
            },
            stabilize_strength: if self.stabilize_strength.as_str().unicode_len() == 0 {
                facts.defaults.stabilize_strength.clone()
            } else {
                self.stabilize_strength.clone()
            },
            trim_start: parse_duration(self.trim_start.as_str()),
            trim_end: parse_duration(self.trim_end.as_str()),
            apply_lut,
            camera_lut_path: copy_opt(&self.camera_lut_path),
            photo_interval: match self.photo_interval {
                Some(d) => d,
                None => facts.defaults.photo_interval,
            },
            slideshow_resolution: self.resolution(),
            slideshow_fps: if self.slideshow_fps > 0 {
                self.slideshow_fps
            } else {
                facts.defaults.slideshow_fps
            },
            slideshow_collage: self.slideshow_collage_enabled,
            slideshow_audio_paths: self.audio(&facts.existing_files),
            slideshow_image_paths: copy_list(&self.slideshow_image_paths),
            slideshow_review_image_paths: copy_list(&self.slideshow_review_image_paths),
            audio: AudioPolicy::CopyValid,
            metadata,
        };
        Some(settings)
    }

    fn fps_policy(&self) -> (r: FpsPolicy)
        ensures
            r == stored_fps(self@),
    {
        if self.share_lowest_fps || self.fps_raw == StoredFps::Automatic {
            return FpsPolicy::SharedLowest;
        }
        if let Some(rate) = self.target_fps {
            if rate.is_usable() {
                return FpsPolicy::Exact(rate);
            }
        }
        match self.fps_raw {
            StoredFps::Number(rate) => {
                if rate.is_usable() {
                    FpsPolicy::Exact(rate)
                } else {
                    FpsPolicy::Source
                }
            },
            _ => FpsPolicy::Source,
        }
    }

    fn resolution(&self) -> (r: (u32, u32))
        ensures
            r == stored_resolution(self@),
    {
        if let (Some(width), Some(height)) = (self.slideshow_width, self.slideshow_height) {
            if width > 0 && height > 0 {
                return (width, height);
            }
        }
        if same_text(self.slideshow_resolution.as_str(), "4K") {
            (3840, 2160)
        } else {
            (1920, 1080)
        }
    }

    fn audio(&self, existing: &Vec<String>) -> (r: Vec<String>)
        ensures
            texts(r@) == stored_audio(self@, texts(existing@)),
    {
        let mut listed = keep_existing(&self.slideshow_audio_paths, existing);
        assert(texts(listed@).len() == listed@.len());
        if listed.len() == 0 {
            if let Some(path) = &self.slideshow_audio_path {
                if list_contains(existing, path.as_str()) {
                    let ghost added = path@;
                    listed.push(path.clone());
                    assert(texts(listed@) =~= seq![added]);
                }
            }
        }
        listed
    }
}

/// Settings that storing keeps: a supported quality, whole-second trim times, a lookup table only
/// for camera videos in software, nonempty names, nonzero sizes, and audio files that exist.
pub open spec fn storable(s: SettingsView, existing: Seq<Seq<char>>) -> bool {
    &&& s.fps matches FpsPolicy::Exact(rate) ==> rate.usable()
    &&& s.quality matches Some(q) ==> q <= quality_limit(s.encoder)
    &&& s.speed_preset matches Some(p) ==> p.len() > 0
    &&& s.stabilize_strength.len() > 0
    &&& s.trim_start matches Some(d) ==> is_whole_time(d)
    &&& s.trim_end matches Some(d) ==> is_whole_time(d)
    &&& s.apply_lut ==> s.mode == ContentMode::CameraVideos && !is_hardware_encoder(s.encoder)
    &&& s.slideshow_resolution.0 > 0 && s.slideshow_resolution.1 > 0
    &&& s.slideshow_fps > 0
    &&& forall|i: int|
        0 <= i < s.slideshow_audio_paths.len() ==> existing.contains(
            #[trigger] s.slideshow_audio_paths[i],
        )
}

/// A whole number of seconds that fits in 64 bits.
pub open spec fn is_whole_time(d: Duration) -> bool {
    d.nanos % 1_000_000_000 == 0 && d.nanos / 1_000_000_000 <= u64::MAX
}

proof fn lemma_whole_time_round_trip(d: Option<Duration>)
    requires
        d matches Some(t) ==> is_whole_time(t),
    ensures
        stored_time(time_entry(d)) == d,
{
    if let Some(t) = d {
        law_stored_time_round_trip(whole_secs(t));
        assert(whole_secs(t) * 1_000_000_000 == t.nanos);
    }
}

/// Filtering keeps a list whose items all pass.
pub proof fn lemma_filter_keeps_all<A>(s: Seq<A>, test: spec_fn(A) -> bool)
    requires
        forall|i: int| 0 <= i < s.len() ==> test(#[trigger] s[i]),
    ensures
        s.filter(test) == s,
    decreases s.len(),
{
    reveal(Seq::filter);
    if s.len() > 0 {
        let rest = s.drop_last();
        assert forall|i: int| 0 <= i < rest.len() implies test(#[trigger] rest[i]) by {
            assert(rest[i] == s[i]);
        }
        lemma_filter_keeps_all(rest, test);
        assert(test(s[s.len() - 1]));
        assert(rest.push(s.last()) =~= s);
    }
}

/// What comes back of settings that were stored. A quality beyond the encoder's range comes back as the
/// end of the range, a rate that is none as the rate of the source, and audio files that are gone do
/// not come back. Empty words, empty sizes, and times with a fraction of a second are not kept.
pub open spec fn settings_come_back(
    s: SettingsView,
    back: SettingsView,
    existing: Seq<Seq<char>>,
) -> bool {
    &&& back.mode == s.mode
    &&& back.encoder == s.encoder
    &&& back.fps == match s.fps {
        FpsPolicy::Exact(rate) => if rate.usable() {
            s.fps
        } else {
            FpsPolicy::Source
        },
        _ => s.fps,
    }
    &&& back.quality == match s.quality {
        Some(q) => Some(limited_level(q as nat, s.encoder)),
        None => None,
    }
    &&& (s.speed_preset matches Some(p) ==> p.len() > 0) ==> back.speed_preset == s.speed_preset
    &&& s.stabilize_strength.len() > 0 ==> back.stabilize_strength == s.stabilize_strength
    &&& (s.trim_start matches Some(d) ==> is_whole_time(d)) ==> back.trim_start == s.trim_start
    &&& (s.trim_end matches Some(d) ==> is_whole_time(d)) ==> back.trim_end == s.trim_end
    &&& back.apply_lut == (s.apply_lut && s.mode == ContentMode::CameraVideos
        && !is_hardware_encoder(s.encoder))
    &&& back.camera_lut_path == s.camera_lut_path
    &&& back.photo_interval == s.photo_interval
    &&& s.slideshow_resolution.0 > 0 && s.slideshow_resolution.1 > 0 ==> back.slideshow_resolution
        == s.slideshow_resolution
    &&& s.slideshow_fps > 0 ==> back.slideshow_fps == s.slideshow_fps
    &&& back.slideshow_collage == s.slideshow_collage
    &&& back.slideshow_audio_paths == existing_only(s.slideshow_audio_paths, existing)
    &&& back.slideshow_image_paths == s.slideshow_image_paths
    &&& back.slideshow_review_image_paths == s.slideshow_review_image_paths
    &&& back.metadata == s.metadata
}

/// Reading stored settings gives back what storing keeps of them: all of storable settings.
pub proof fn law_settings_round_trip(s: SettingsView, facts: FactsView)
    ensures
        restored_settings(stored_form(s), facts) matches Some(back) && settings_come_back(
            s,
            back,
            facts.existing_files,
        ),
        storable(s, facts.existing_files) ==> restored_settings(stored_form(s), facts) == Some(s),
{
    law_mode_labels_round_trip(s.mode, s.mode);
    law_encoder_names_round_trip(s.encoder);
    if s.trim_start is None || is_whole_time(s.trim_start->0) {
        lemma_whole_time_round_trip(s.trim_start);
    }
    if s.trim_end is None || is_whole_time(s.trim_end->0) {
        lemma_whole_time_round_trip(s.trim_end);
    }
    reveal_strlit("preserve");
    reveal_strlit("remove");
    assert("preserve"@.len() == 8 && "remove"@.len() == 6);
    match s.quality {
        Some(q) => {
            let level = limited_level(q as nat, s.encoder) as nat;
            lemma_decimal_round_trip(level);
            assert(parsed_unsigned(decimal(level), 1_000_000) == Some(level));
        },
        None => {
            assert(parsed_unsigned(Seq::<char>::empty(), 1_000_000) is None);
        },
    }
    if storable(s, facts.existing_files) {
        lemma_filter_keeps_all(
            s.slideshow_audio_paths,
            |f: Seq<char>| facts.existing_files.contains(f),
        );
        let back = restored_settings(stored_form(s), facts)->0;
        assert(back.slideshow_audio_paths == s.slideshow_audio_paths);
        assert(back.quality == s.quality);
    }
}

} // verus!
