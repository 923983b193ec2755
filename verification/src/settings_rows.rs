//! What the settings form shows.

use crate::clock::format_trim_time;
use crate::encoding::{
    band_captions, explicit_fps, fps_choice, fps_mode_label, fps_modes_for, fps_ui_mode,
    offered_fps_modes, quality_bands, quality_guidance, quality_limit, quality_maximum,
    quality_name, shown_rate, shows_fps, speed_captions, speed_help, speed_hint,
    speed_option_labels, speed_options, speed_presets, workflow_shows_encoder, workflow_shows_fps,
    FpsUiMode,
};
use crate::form::{
    allowed_encoders, capped_quality, offered_encoders, shown_trim, FormView, SettingsForm,
};
use crate::model::{
    all_modes, encoder_user_name, is_nvenc_encoder, mode_label, ContentMode, Encoder, FrameRate,
    QueueSettings, SettingsView,
};
use crate::output_naming::text_or;
use crate::presets::{shares_lowest_fps, PresetView, Presets};
use crate::selection::{find_place, place_of};
use crate::stored_queue::{mode_index, mode_position};
use crate::task_files::{task_file_title, title_of};
use crate::text::{copy_list, same_text, texts};
use crate::time::Duration;
use vstd::prelude::*;

verus! {

/// The settings form, as it is shown.
#[derive(Debug, PartialEq, Eq)]
pub struct SlintSettingsSnapshot {
    pub mode_index: usize,
    pub mode_labels: Vec<String>,
    pub encoder_index: usize,
    pub encoder_labels: Vec<String>,
    pub show_encoder: bool,
    pub fps_index: usize,
    pub fps_labels: Vec<String>,
    pub show_fps: bool,
    pub explicit_fps: FrameRate,
    pub show_explicit_fps: bool,
    pub quality: u8,
    pub show_quality: bool,
    pub quality_level: String,
    pub quality_guide_labels: Vec<String>,
    pub quality_minimum: u8,
    pub quality_maximum: u8,
    pub quality_step: u8,
    pub speed: String,
    pub speed_labels: Vec<String>,
    pub speed_help: String,
    pub speed_index: usize,
    pub show_speed: bool,
    pub prevent_sleep: bool,
    pub trim_start: String,
    pub trim_end: String,
    pub apply_lut: bool,
    pub stabilize_index: usize,
    pub slideshow_interval: Duration,
    pub slideshow_fps: i32,
    pub slideshow_resolution_index: usize,
    pub slideshow_collage: bool,
    pub slideshow_audio_labels: Vec<String>,
    /// The selected audio track; minus one where none is.
    pub slideshow_audio_selected: i32,
}

/// The contents of a `SlintSettingsSnapshot`.
pub struct SettingsRowView {
    pub mode_index: usize,
    pub mode_labels: Seq<Seq<char>>,
    pub encoder_index: usize,
    pub encoder_labels: Seq<Seq<char>>,
    pub show_encoder: bool,
    pub fps_index: usize,
    pub fps_labels: Seq<Seq<char>>,
    pub show_fps: bool,
    pub explicit_fps: FrameRate,
    pub show_explicit_fps: bool,
    pub quality: u8,
    pub show_quality: bool,
    pub quality_level: Seq<char>,
    pub quality_guide_labels: Seq<Seq<char>>,
    pub quality_minimum: u8,
    pub quality_maximum: u8,
    pub quality_step: u8,
    pub speed: Seq<char>,
    pub speed_labels: Seq<Seq<char>>,
    pub speed_help: Seq<char>,
    pub speed_index: usize,
    pub show_speed: bool,
    pub prevent_sleep: bool,
    pub trim_start: Seq<char>,
    pub trim_end: Seq<char>,
    pub apply_lut: bool,
    pub stabilize_index: usize,
    pub slideshow_interval: Duration,
    pub slideshow_fps: i32,
    pub slideshow_resolution_index: usize,
    pub slideshow_collage: bool,
    pub slideshow_audio_labels: Seq<Seq<char>>,
    pub slideshow_audio_selected: i32,
}

impl View for SlintSettingsSnapshot {
    type V = SettingsRowView;

    open spec fn view(&self) -> SettingsRowView {
        SettingsRowView {
            mode_index: self.mode_index,
            mode_labels: texts(self.mode_labels@),
            encoder_index: self.encoder_index,
            encoder_labels: texts(self.encoder_labels@),
            show_encoder: self.show_encoder,
            fps_index: self.fps_index,
            fps_labels: texts(self.fps_labels@),
            show_fps: self.show_fps,
            explicit_fps: self.explicit_fps,
            show_explicit_fps: self.show_explicit_fps,
            quality: self.quality,
            show_quality: self.show_quality,
            quality_level: self.quality_level@,
            quality_guide_labels: texts(self.quality_guide_labels@),
            quality_minimum: self.quality_minimum,
            quality_maximum: self.quality_maximum,
            quality_step: self.quality_step,
            speed: self.speed@,
            speed_labels: texts(self.speed_labels@),
            speed_help: self.speed_help@,
            speed_index: self.speed_index,
            show_speed: self.show_speed,
            prevent_sleep: self.prevent_sleep,
            trim_start: self.trim_start@,
            trim_end: self.trim_end@,
            apply_lut: self.apply_lut,
            stabilize_index: self.stabilize_index,
            slideshow_interval: self.slideshow_interval,
            slideshow_fps: self.slideshow_fps,
            slideshow_resolution_index: self.slideshow_resolution_index,
            slideshow_collage: self.slideshow_collage,
            slideshow_audio_labels: texts(self.slideshow_audio_labels@),
            slideshow_audio_selected: self.slideshow_audio_selected,
        }
    }
}

/// The place of a label in a list, or `missing` where it is not in it.
pub open spec fn label_place(labels: Seq<Seq<char>>, label: Seq<char>, missing: usize) -> usize {
    if labels.contains(label) {
        place_of(labels, label) as usize
    } else {
        missing
    }
}

fn place_or(labels: &Vec<String>, label: &str, missing: usize) -> (r: usize)
    ensures
        r == label_place(texts(labels@), label@, missing),
{
    match find_place(labels, label) {
        Some(i) => {
            assert(texts(labels@)[i as int] == label@);
            i
        },
        None => missing,
    }
}

/// The strengths of stabilization, weakest first.
pub open spec fn strength_names() -> Seq<Seq<char>> {
    seq!["Gentle"@, "Balanced"@, "Steady"@, "Strong"@, "Maximum"@]
}

/// The strengths of stabilization, weakest first.
pub fn stabilize_strengths() -> (r: Vec<String>)
    ensures
        texts(r@) == strength_names(),
{
    let mut r: Vec<String> = Vec::new();
    r.push("Gentle".to_owned());
    r.push("Balanced".to_owned());
    r.push("Steady".to_owned());
    r.push("Strong".to_owned());
    r.push("Maximum".to_owned());
    assert(texts(r@) =~= strength_names());
    r
}

/// The encoders to choose from: those on offer, and the chosen one in any case.
pub open spec fn listed_encoders(mode: ContentMode, available: Seq<Encoder>, encoder: Encoder) -> Seq<
    Encoder,
> {
    let offered = offered_encoders(mode, available);
    if offered.contains(encoder) {
        offered
    } else {
        offered.push(encoder)
    }
}

pub open spec fn encoder_names(list: Seq<Encoder>) -> Seq<Seq<char>> {
    list.map_values(|e: Encoder| encoder_user_name(e))
}

pub open spec fn mode_names() -> Seq<Seq<char>> {
    all_modes().map_values(|m: ContentMode| mode_label(m))
}

pub open spec fn fps_names(list: Seq<FpsUiMode>) -> Seq<Seq<char>> {
    list.map_values(|m: FpsUiMode| fps_mode_label(m))
}

pub open spec fn file_titles(paths: Seq<Seq<char>>) -> Seq<Seq<char>> {
    paths.map_values(|p: Seq<char>| title_of(p))
}

/// A number as a signed one of 32 bits; the largest for all that are larger.
pub open spec fn signed(n: u32) -> i32 {
    if n <= i32::MAX {
        n as i32
    } else {
        i32::MAX
    }
}

/// A place as a signed number of 32 bits; minus one where there is none or it is too large.
pub open spec fn signed_place(place: Option<usize>) -> i32 {
    match place {
        Some(i) => if i <= i32::MAX {
            i as i32
        } else {
            (-1) as i32
        },
        None => (-1) as i32,
    }
}

pub fn place_as_signed(place: Option<usize>) -> (r: i32)
    ensures
        r == signed_place(place),
{
    match place {
        Some(i) => if i <= 0x7fff_ffff {
            i as i32
        } else {
            -1
        },
        None => -1,
    }
}

/// The encoder takes a quality level.
pub open spec fn takes_quality(encoder: Encoder) -> bool {
    encoder == Encoder::X264 || encoder == Encoder::X265 || encoder == Encoder::SvtAv1
}

/// What a form shows, and the settings of a task show too.
pub struct ShownView {
    pub mode: ContentMode,
    pub encoder: Encoder,
    pub fps_mode: FpsUiMode,
    pub explicit_fps: FrameRate,
    pub quality: u8,
    pub speed: Seq<char>,
    pub trim_start: Seq<char>,
    pub trim_end: Seq<char>,
    pub apply_lut: bool,
    pub strength: Seq<char>,
    pub interval: Duration,
    pub slideshow_fps: u32,
    pub large: bool,
    pub collage: bool,
    pub audio: Seq<Seq<char>>,
    pub audio_selected: Option<usize>,
}

/// What is shown of the settings of a task; what it has no quality for, the form has.
pub open spec fn shown_of_task(s: SettingsView, form: FormView) -> ShownView {
    ShownView {
        mode: s.mode,
        encoder: s.encoder,
        fps_mode: fps_choice(s.fps),
        explicit_fps: shown_rate(s.fps),
        quality: match s.quality {
            Some(q) => q,
            None => form.quality_crf,
        },
        speed: text_or(s.speed_preset, Seq::empty()),
        trim_start: shown_trim(s.trim_start, 0),
        trim_end: shown_trim(s.trim_end, 1),
        apply_lut: s.apply_lut,
        strength: s.stabilize_strength,
        interval: s.photo_interval,
        slideshow_fps: s.slideshow_fps,
        large: s.slideshow_resolution == (3840u32, 2160u32),
        collage: s.slideshow_collage,
        audio: s.slideshow_audio_paths,
        audio_selected: None,
    }
}

/// What is shown of the form itself.
pub open spec fn shown_of_form(form: FormView) -> ShownView {
    ShownView {
        mode: form.mode,
        encoder: form.encoder,
        fps_mode: form.fps_mode,
        explicit_fps: form.explicit_fps,
        quality: form.quality_crf,
        speed: form.speed_preset,
        trim_start: form.trim_start_text,
        trim_end: form.trim_end_text,
        apply_lut: form.apply_lut,
        strength: form.stabilize_strength,
        interval: form.photo_interval,
        slideshow_fps: form.slideshow_fps,
        large: form.slideshow_resolution == "4K"@,
        collage: form.slideshow_collage,
        audio: form.slideshow_audio_paths,
        audio_selected: form.slideshow_audio_selected,
    }
}

/// The form with all that goes with what it shows.
pub open spec fn row_of_shown(
    s: ShownView,
    available: Seq<Encoder>,
    prevent_sleep: bool,
    presets: Seq<PresetView>,
) -> SettingsRowView {
    let quality = capped_quality(s.encoder, s.quality);
    let encoders = encoder_names(listed_encoders(s.mode, available, s.encoder));
    let fps_labels = fps_names(offered_fps_modes(shares_lowest_fps(presets, s.mode, s.encoder)));
    SettingsRowView {
        mode_index: mode_position(s.mode) as usize,
        mode_labels: mode_names(),
        encoder_index: label_place(encoders, encoder_user_name(s.encoder), 0),
        encoder_labels: encoders,
        show_encoder: s.mode != ContentMode::Trim,
        fps_index: label_place(fps_labels, fps_mode_label(s.fps_mode), 0),
        fps_labels,
        show_fps: shows_fps(s.mode),
        explicit_fps: s.explicit_fps,
        show_explicit_fps: s.fps_mode == FpsUiMode::Explicit,
        quality,
        show_quality: takes_quality(s.encoder) && s.mode != ContentMode::Trim,
        quality_level: quality_name(quality_bands(s.encoder), quality),
        quality_guide_labels: band_captions(quality_bands(s.encoder)),
        quality_minimum: 0,
        quality_maximum: quality_limit(s.encoder),
        quality_step: 1,
        speed: s.speed,
        speed_labels: speed_captions(s.encoder),
        speed_help: speed_hint(s.encoder),
        speed_index: label_place(speed_presets(s.encoder), s.speed, 0),
        show_speed: (takes_quality(s.encoder) || is_nvenc_encoder(s.encoder)) && s.mode
            != ContentMode::Trim,
        prevent_sleep,
        trim_start: s.trim_start,
        trim_end: s.trim_end,
        apply_lut: s.apply_lut,
        stabilize_index: label_place(strength_names(), s.strength, 1),
        slideshow_interval: s.interval,
        slideshow_fps: signed(s.slideshow_fps),
        slideshow_resolution_index: if s.large {
            1
        } else {
            0
        },
        slideshow_collage: s.collage,
        slideshow_audio_labels: file_titles(s.audio),
        slideshow_audio_selected: signed_place(s.audio_selected),
    }
}

/// What the form shows: the settings of a task where one is given, its own otherwise.
pub open spec fn settings_row(
    form: FormView,
    task: Option<SettingsView>,
    available: Seq<Encoder>,
    prevent_sleep: bool,
    presets: Seq<PresetView>,
) -> SettingsRowView {
    row_of_shown(
        match task {
            Some(s) => shown_of_task(s, form),
            None => shown_of_form(form),
        },
        available,
        prevent_sleep,
        presets,
    )
}

fn mode_label_list() -> (r: Vec<String>)
    ensures
        texts(r@) == mode_names(),
{
    let modes = ContentMode::all();
    let mut r: Vec<String> = Vec::new();
    let mut i: usize = 0;
    while i < 6
        invariant
            i <= 6,
            modes@ == all_modes(),
            texts(r@) == mode_names().take(i as int),
        decreases 6 - i,
    {
        let ghost before = texts(r@);
        r.push(modes[i].label().to_owned());
        assert(texts(r@) =~= before.push(mode_names()[i as int]));
        i = i + 1;
        assert(texts(r@) =~= mode_names().take(i as int));
    }
    assert(mode_names().take(6) =~= mode_names());
    r
}

fn encoder_label_list(mode: ContentMode, available: &Vec<Encoder>, encoder: Encoder) -> (r: Vec<String>)
    ensures
        texts(r@) == encoder_names(listed_encoders(mode, available@, encoder)),
{
    let offered = allowed_encoders(mode, available);
    let ghost all = encoder_names(offered@);
    let mut r: Vec<String> = Vec::new();
    let mut found: bool = false;
    let mut i: usize = 0;
    while i < offered.len()
        invariant
            i <= offered@.len(),
            all == encoder_names(offered@),
            texts(r@) == all.take(i as int),
            found == offered@.take(i as int).contains(encoder),
        decreases offered@.len() - i,
    {
        let ghost before = texts(r@);
        let ghost seen = offered@.take(i as int);
        r.push(offered[i].user_name().to_owned());
        assert(texts(r@) =~= before.push(all[i as int]));
        assert(offered@.take(i + 1) =~= seen.push(offered@[i as int]));
        if offered[i] == encoder {
            assert(offered@.take(i + 1)[i as int] == encoder);
            found = true;
        } else if found {
            let ghost k = choose|k: int| 0 <= k < seen.len() && seen[k] == encoder;
            assert(offered@.take(i + 1)[k] == encoder);
        }
        i = i + 1;
        assert(texts(r@) =~= all.take(i as int));
    }
    assert(offered@.take(i as int) =~= offered@);
    assert(all.take(i as int) =~= all);
    if !found {
        let ghost before = texts(r@);
        r.push(encoder.user_name().to_owned());
        assert(texts(r@) =~= before.push(encoder_user_name(encoder)));
        assert(texts(r@) =~= encoder_names(listed_encoders(mode, available@, encoder)));
    }
    r
}

fn fps_label_list(share_lowest_fps: bool) -> (r: Vec<String>)
    ensures
        texts(r@) == fps_names(offered_fps_modes(share_lowest_fps)),
{
    let modes = fps_modes_for(share_lowest_fps);
    let ghost all = fps_names(modes@);
    let mut r: Vec<String> = Vec::new();
    let mut i: usize = 0;
    while i < modes.len()
        invariant
            i <= modes@.len(),
            all == fps_names(modes@),
            texts(r@) == all.take(i as int),
        decreases modes@.len() - i,
    {
        let ghost before = texts(r@);
        r.push(modes[i].label().to_owned());
        assert(texts(r@) =~= before.push(all[i as int]));
        i = i + 1;
        assert(texts(r@) =~= all.take(i as int));
    }
    assert(all.take(i as int) =~= all);
    r
}

fn title_list(paths: &Vec<String>) -> (r: Vec<String>)
    ensures
        texts(r@) == file_titles(texts(paths@)),
{
    let ghost all = file_titles(texts(paths@));
    let mut r: Vec<String> = Vec::new();
    let mut i: usize = 0;
    while i < paths.len()
        invariant
            i <= paths@.len(),
            all == file_titles(texts(paths@)),
            texts(r@) == all.take(i as int),
        decreases paths@.len() - i,
    {
        let ghost before = texts(r@);
        r.push(task_file_title(paths[i].as_str()));
        assert(texts(r@) =~= before.push(all[i as int]));
        i = i + 1;
        assert(texts(r@) =~= all.take(i as int));
    }
    assert(all.take(i as int) =~= all);
    r
}

fn trim_text_or(time: Option<Duration>, missing: u64) -> (r: String)
    ensures
        r@ == shown_trim(time, missing as nat),
{
    match time {
        Some(t) => format_trim_time(t),
        None => {
            let d = Duration::from_secs(missing);
            assert(crate::clock::whole_secs(d) == missing);
            format_trim_time(d)
        },
    }
}

struct Shown {
    mode: ContentMode,
    encoder: Encoder,
    fps_mode: FpsUiMode,
    explicit_fps: FrameRate,
    quality: u8,
    speed: String,
    trim_start: String,
    trim_end: String,
    apply_lut: bool,
    strength: String,
    interval: Duration,
    slideshow_fps: u32,
    large: bool,
    collage: bool,
    audio: Vec<String>,
    audio_selected: Option<usize>,
}

impl Shown {
    spec fn view(&self) -> ShownView {
        ShownView {
            mode: self.mode,
            encoder: self.encoder,
            fps_mode: self.fps_mode,
            explicit_fps: self.explicit_fps,
            quality: self.quality,
            speed: self.speed@,
            trim_start: self.trim_start@,
            trim_end: self.trim_end@,
            apply_lut: self.apply_lut,
            strength: self.strength@,
            interval: self.interval,
            slideshow_fps: self.slideshow_fps,
            large: self.large,
            collage: self.collage,
            audio: texts(self.audio@),
            audio_selected: self.audio_selected,
        }
    }

    fn of_task(s: &QueueSettings, form: &SettingsForm) -> (r: Shown)
        ensures
            r.view() == shown_of_task(s@, form@),
    {
        Shown {
            mode: s.mode,
            encoder: s.encoder,
            fps_mode: fps_ui_mode(s.fps),
            explicit_fps: explicit_fps(s.fps),
            quality: match s.quality {
                Some(q) => q,
                None => form.quality_crf,
            },
            speed: match &s.speed_preset {
                Some(speed) => speed.clone(),
                None => {
                    let none = String::new();
                    assert(none@ =~= Seq::<char>::empty());
                    none
                },
            },
            trim_start: trim_text_or(s.trim_start, 0),
            trim_end: trim_text_or(s.trim_end, 1),
            apply_lut: s.apply_lut,
            strength: s.stabilize_strength.clone(),
            interval: s.photo_interval,
            slideshow_fps: s.slideshow_fps,
            large: s.slideshow_resolution.0 == 3840 && s.slideshow_resolution.1 == 2160,
            collage: s.slideshow_collage,
            audio: copy_list(&s.slideshow_audio_paths),
            audio_selected: None,
        }
    }

    fn of_form(form: &SettingsForm) -> (r: Shown)
        ensures
            r.view() == shown_of_form(form@),
    {
        Shown {
            mode: form.mode,
            encoder: form.encoder,
            fps_mode: form.fps_mode,
            explicit_fps: form.explicit_fps,
            quality: form.quality_crf,
            speed: form.speed_preset.clone(),
            trim_start: form.trim_start_text.clone(),
            trim_end: form.trim_end_text.clone(),
            apply_lut: form.apply_lut,
            strength: form.stabilize_strength.clone(),
            interval: form.photo_interval,
            slideshow_fps: form.slideshow_fps,
            large: same_text(form.slideshow_resolution.as_str(), "4K"),
            collage: form.slideshow_collage,
            audio: copy_list(&form.slideshow_audio_paths),
            audio_selected: form.slideshow_audio_selected,
        }
    }

    #[verifier::rlimit(40)]
    fn row(self, available: &Vec<Encoder>, prevent_sleep: bool, presets: &Presets) -> (r:
        SlintSettingsSnapshot)
        ensures
            r@ == row_of_shown(self.view(), available@, prevent_sleep, presets@),
    {
        let encoder = self.encoder;
        let limit: u8 = quality_maximum(encoder);
        let quality: u8 = if self.quality > limit {
            limit
        } else {
            self.quality
        };
        let (quality_level, quality_guide_labels) = quality_guidance(encoder, quality);
        let encoder_labels = encoder_label_list(self.mode, available, encoder);
        let encoder_index: usize = place_or(&encoder_labels, encoder.user_name(), 0);
        let fps_labels = fps_label_list(presets.share_lowest_fps(self.mode, encoder));
        let fps_index: usize = place_or(&fps_labels, self.fps_mode.label(), 0);
        let speeds = speed_options(encoder);
        let speed_index: usize = place_or(&speeds, self.speed.as_str(), 0);
        let strengths = stabilize_strengths();
        let stabilize_index: usize = place_or(&strengths, self.strength.as_str(), 1);
        let takes = matches!(encoder, Encoder::X264 | Encoder::X265 | Encoder::SvtAv1);
        let slideshow_fps: i32 = if self.slideshow_fps <= 0x7fff_ffff {
            self.slideshow_fps as i32
        } else {
            0x7fff_ffff
        };
        SlintSettingsSnapshot {
            mode_index: mode_index(self.mode),
            mode_labels: mode_label_list(),
            encoder_index,
            encoder_labels,
            show_encoder: workflow_shows_encoder(self.mode),
            fps_index,
            fps_labels,
            show_fps: workflow_shows_fps(self.mode),
            explicit_fps: self.explicit_fps,
            show_explicit_fps: self.fps_mode == FpsUiMode::Explicit,
            quality,
            show_quality: takes && self.mode != ContentMode::Trim,
            quality_level,
            quality_guide_labels,
            quality_minimum: 0,
            quality_maximum: limit,
            quality_step: 1,
            speed: self.speed,
            speed_labels: speed_option_labels(encoder),
            speed_help: speed_help(encoder),
            speed_index,
            show_speed: (takes || encoder.is_nvenc()) && self.mode != ContentMode::Trim,
            prevent_sleep,
            trim_start: self.trim_start,
            trim_end: self.trim_end,
            apply_lut: self.apply_lut,
            stabilize_index,
            slideshow_interval: self.interval,
            slideshow_fps,
            slideshow_resolution_index: if self.large {
                1
            } else {
                0
            },
            slideshow_collage: self.collage,
            slideshow_audio_labels: title_list(&self.audio),
            slideshow_audio_selected: place_as_signed(self.audio_selected),
        }
    }
}

/// What the form shows: the settings of a task where one is given, its own otherwise.
pub fn slint_settings_snapshot(
    form: &SettingsForm,
    task_settings: Option<&QueueSettings>,
    available: &Vec<Encoder>,
    prevent_sleep: bool,
    presets: &Presets,
) -> (r: SlintSettingsSnapshot)
    ensures
        r@ == settings_row(
            form@,
            match task_settings {
                Some(s) => Some(s@),
                None => None,
            },
            available@,
            prevent_sleep,
            presets@,
        ),
{
    let shown = match task_settings {
        Some(s) => Shown::of_task(s, form),
        None => Shown::of_form(form),
    };
    shown.row(available, prevent_sleep, presets)
}

} // verus!
