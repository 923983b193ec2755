//! What the settings form shows: the labels under its places, and the places that choices have.

use crate::encoding::{
    fps_mode_label, quality_bands, quality_limit, quality_name, speed_captions, speed_presets, FpsUiMode,
};
use crate::form::FormView;
use crate::model::{encoder_user_name, mode_label, ContentMode, Encoder, SettingsView};
use crate::paths::file_name;
use crate::presets::{shares_lowest_fps, PresetView};
use crate::selection::{first_at, lemma_first_exists, place_of};
use crate::settings_rows::{
    encoder_names, label_place, listed_encoders, mode_names, settings_row, strength_names,
};
use crate::stored_queue::mode_position;
use vstd::prelude::*;

verus! {

/// The label at the place of a label is that label.
proof fn lemma_label_at_its_place(labels: Seq<Seq<char>>, label: Seq<char>, missing: usize)
    requires
        labels.contains(label),
        labels.len() <= usize::MAX,
    ensures
        label_place(labels, label, missing) < labels.len(),
        labels[label_place(labels, label, missing) as int] == label,
{
    lemma_first_exists(labels, label);
    let i = place_of(labels, label);
    assert(first_at(labels, label, i));
}

/// The labels that the form points at are those of its workflow and its encoder, and of its choice of a frame
/// rate where that is on offer.
pub proof fn law_shown_places_have_the_chosen_labels(
    form: FormView,
    available: Seq<Encoder>,
    prevent_sleep: bool,
    presets: Seq<PresetView>,
)
    requires
        available.len() < usize::MAX,
    ensures
        ({
            let row = settings_row(form, None, available, prevent_sleep, presets);
            &&& row.mode_labels[row.mode_index as int] == mode_label(form.mode)
            &&& row.encoder_labels[row.encoder_index as int] == encoder_user_name(form.encoder)
            &&& (form.fps_mode != FpsUiMode::SharedLowest || shares_lowest_fps(
                presets,
                form.mode,
                form.encoder,
            )) ==> row.fps_labels[row.fps_index as int] == fps_mode_label(form.fps_mode)
            &&& speed_presets(form.encoder).contains(form.speed_preset) ==> speed_presets(
                form.encoder,
            )[row.speed_index as int] == form.speed_preset
            &&& strength_names().contains(form.stabilize_strength)
                ==> strength_names()[row.stabilize_index as int] == form.stabilize_strength
            &&& !strength_names().contains(form.stabilize_strength) ==> row.stabilize_index == 1
        }),
{
    let row = settings_row(form, None, available, prevent_sleep, presets);
    lemma_shown_encoder(form.mode, available, form.encoder);
    assert(mode_names()[mode_position(form.mode)] == mode_label(form.mode));
    let shared = shares_lowest_fps(presets, form.mode, form.encoder);
    if form.fps_mode != FpsUiMode::SharedLowest || shared {
        let k: int = match form.fps_mode {
            FpsUiMode::SharedLowest => 0,
            FpsUiMode::Source => if shared {
                1
            } else {
                0
            },
            FpsUiMode::Explicit => if shared {
                2
            } else {
                1
            },
        };
        assert(row.fps_labels[k] == fps_mode_label(form.fps_mode));
        lemma_label_at_its_place(row.fps_labels, fps_mode_label(form.fps_mode), 0);
    }
    if speed_presets(form.encoder).contains(form.speed_preset) {
        lemma_label_at_its_place(speed_presets(form.encoder), form.speed_preset, 0);
    }
    if strength_names().contains(form.stabilize_strength) {
        lemma_label_at_its_place(strength_names(), form.stabilize_strength, 1);
    }
}

proof fn lemma_shown_encoder(mode: ContentMode, available: Seq<Encoder>, encoder: Encoder)
    requires
        available.len() < usize::MAX,
    ensures
        ({
            let names = encoder_names(listed_encoders(mode, available, encoder));
            &&& label_place(names, encoder_user_name(encoder), 0) < names.len()
            &&& names[label_place(names, encoder_user_name(encoder), 0) as int] == encoder_user_name(
                encoder,
            )
        }),
{
    let list = listed_encoders(mode, available, encoder);
    let names = encoder_names(list);
    let offered = crate::form::offered_encoders(mode, available);
    if !offered.contains(encoder) {
        assert(list[offered.len() as int] == encoder);
    }
    assert(list.contains(encoder));
    let i = choose|i: int| 0 <= i < list.len() && list[i] == encoder;
    assert(names[i] == encoder_user_name(encoder));
    lemma_label_at_its_place(names, encoder_user_name(encoder), 0);
}

/// The other entries are shown as the form has them: `4K` is the second size, all else the first.
pub proof fn law_shown_entries_are_those_of_the_form(
    form: FormView,
    available: Seq<Encoder>,
    prevent_sleep: bool,
    presets: Seq<PresetView>,
)
    ensures
        ({
            let row = settings_row(form, None, available, prevent_sleep, presets);
            &&& row.explicit_fps == form.explicit_fps
            &&& row.show_explicit_fps <==> form.fps_mode == FpsUiMode::Explicit
            &&& form.quality_crf <= 51 ==> row.quality == form.quality_crf
            &&& row.quality_level == quality_name(quality_bands(form.encoder), row.quality)
            &&& row.quality_minimum == 0 && row.quality_maximum == quality_limit(form.encoder)
                && row.quality_step == 1
            &&& row.quality <= row.quality_maximum
            &&& row.speed == form.speed_preset
            &&& row.speed_labels == speed_captions(form.encoder)
            &&& row.prevent_sleep == prevent_sleep
            &&& row.trim_start == form.trim_start_text
            &&& row.trim_end == form.trim_end_text
            &&& row.apply_lut == form.apply_lut
            &&& row.slideshow_interval == form.photo_interval
            &&& form.slideshow_fps <= i32::MAX ==> row.slideshow_fps == form.slideshow_fps
            &&& form.slideshow_resolution == "4K"@ ==> row.slideshow_resolution_index == 1
            &&& form.slideshow_resolution == "1080p"@ ==> row.slideshow_resolution_index == 0
            &&& row.slideshow_collage == form.slideshow_collage
            &&& row.slideshow_audio_labels.len() == form.slideshow_audio_paths.len()
            &&& form.slideshow_audio_selected is None ==> row.slideshow_audio_selected == -1
            &&& form.slideshow_audio_selected matches Some(i) ==> i <= i32::MAX
                ==> row.slideshow_audio_selected == i
            &&& forall|i: int|
                0 <= i < form.slideshow_audio_paths.len() ==> (file_name(
                    form.slideshow_audio_paths[i],
                ) matches Some(name) ==> #[trigger] row.slideshow_audio_labels[i] == name)
        }),
{
    reveal_strlit("4K");
    reveal_strlit("1080p");
    assert("4K"@.len() != "1080p"@.len());
}

/// With a task, the form shows the settings of the task.
pub proof fn law_shown_entries_are_those_of_the_task(
    form: FormView,
    s: SettingsView,
    available: Seq<Encoder>,
    prevent_sleep: bool,
    presets: Seq<PresetView>,
)
    requires
        available.len() < usize::MAX,
    ensures
        ({
            let row = settings_row(form, Some(s), available, prevent_sleep, presets);
            let own = settings_row(form.showing(s), None, available, prevent_sleep, presets);
            &&& row.mode_labels[row.mode_index as int] == mode_label(s.mode)
            &&& row.encoder_labels[row.encoder_index as int] == encoder_user_name(s.encoder)
            &&& s.quality matches Some(q) ==> q <= 51 ==> row.quality == q
            &&& s.quality is None ==> form.quality_crf <= 51 ==> row.quality == form.quality_crf
            &&& s.speed_preset matches Some(p) ==> row.speed == p
            &&& s.slideshow_resolution == (3840u32, 2160u32) ==> row.slideshow_resolution_index == 1
            &&& s.slideshow_resolution != (3840u32, 2160u32) ==> row.slideshow_resolution_index == 0
            &&& row.trim_start == own.trim_start && row.trim_end == own.trim_end
            &&& row.apply_lut == s.apply_lut
            &&& row.slideshow_interval == s.photo_interval
            &&& row.slideshow_collage == s.slideshow_collage
            &&& row.slideshow_audio_labels == own.slideshow_audio_labels
            &&& row.slideshow_audio_selected == -1
            &&& row.explicit_fps == own.explicit_fps
            &&& row.show_explicit_fps <==> s.fps is Exact
            &&& row.stabilize_index == own.stabilize_index
            &&& s.slideshow_fps <= i32::MAX ==> row.slideshow_fps == s.slideshow_fps
        }),
{
    lemma_shown_encoder(s.mode, available, s.encoder);
    assert(mode_names()[mode_position(s.mode)] == mode_label(s.mode));
}

/// Which entries a workflow has: trimming has neither encoder, quality, speed, nor rate; a rate is only for
/// TV, animation, and camera videos; a quality is for the three software encoders, and a speed for those of
/// NVENC too.
pub proof fn law_shown_groups(
    form: FormView,
    available: Seq<Encoder>,
    prevent_sleep: bool,
    presets: Seq<PresetView>,
)
    ensures
        ({
            let row = settings_row(form, None, available, prevent_sleep, presets);
            &&& row.show_encoder <==> form.mode != ContentMode::Trim
            &&& row.show_fps <==> (form.mode == ContentMode::Tv || form.mode == ContentMode::Animation
                || form.mode == ContentMode::CameraVideos)
            &&& row.show_quality <==> form.mode != ContentMode::Trim && (form.encoder == Encoder::X264
                || form.encoder == Encoder::X265 || form.encoder == Encoder::SvtAv1)
            &&& row.show_speed <==> form.mode != ContentMode::Trim && form.encoder
                != Encoder::H264VideoToolbox && form.encoder != Encoder::HevcVideoToolbox
                && form.encoder != Encoder::Av1VideoToolbox
        }),
{
}

/// Each strength of stabilization is shown at the place by which it is chosen.
pub proof fn law_strengths_keep_their_places(
    form: FormView,
    i: int,
    available: Seq<Encoder>,
    prevent_sleep: bool,
    presets: Seq<PresetView>,
)
    requires
        0 <= i < 5,
        form.stabilize_strength == strength_names()[i],
    ensures
        settings_row(form, None, available, prevent_sleep, presets).stabilize_index == i,
        strength_names()[0] == "Gentle"@,
        strength_names()[1] == "Balanced"@,
        strength_names()[2] == "Steady"@,
        strength_names()[3] == "Strong"@,
        strength_names()[4] == "Maximum"@,
{
    reveal_strlit("Gentle");
    reveal_strlit("Balanced");
    reveal_strlit("Steady");
    reveal_strlit("Strong");
    reveal_strlit("Maximum");
    let names = strength_names();
    assert("Gentle"@.len() == 6 && "Balanced"@.len() == 8 && "Steady"@.len() == 6);
    assert("Strong"@.len() == 6 && "Maximum"@.len() == 7);
    assert("Gentle"@[0] == 'G' && "Steady"@[2] == 'e' && "Strong"@[2] == 'r' && "Steady"@[0] == 'S');
    assert("Strong"@[0] == 'S');
    assert(names.contains(names[i]));
    let k = label_place(names, form.stabilize_strength, 1) as int;
    lemma_label_at_its_place(names, form.stabilize_strength, 1);
    assert(names[k] == names[i]);
}

/// The choices of a frame rate: sharing the lowest only where the workflow does, then that of the source, then
/// an explicit one.
pub proof fn law_rate_choices(
    form: FormView,
    available: Seq<Encoder>,
    prevent_sleep: bool,
    presets: Seq<PresetView>,
)
    ensures
        ({
            let row = settings_row(form, None, available, prevent_sleep, presets);
            if shares_lowest_fps(presets, form.mode, form.encoder) {
                row.fps_labels.len() == 3 && row.fps_labels[0] == "Shared lowest in folder"@
                    && row.fps_labels[1] == "Keep source FPS"@ && row.fps_labels[2]
                    == "Set explicit FPS"@
            } else {
                row.fps_labels.len() == 2 && row.fps_labels[0] == "Keep source FPS"@
                    && row.fps_labels[1] == "Set explicit FPS"@
            }
        }),
{
}

} // verus!
