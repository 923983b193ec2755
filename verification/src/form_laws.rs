//! What the entries of the settings form stand for, and what the tables behind them say.

use crate::clock::{clock_text, trim_seconds, whole_secs};
use crate::encoding::{
    band_caption, is_first_reaching, quality_bands, quality_limit, quality_name, speed_captions,
    speed_presets, FpsUiMode,
};
use crate::form::{fresh_form, offered_encoders, with_new, FormView, SMALLEST_RATE_BITS};
use crate::model::{
    all_encoders, all_modes, encoder_library_name, encoder_user_name, is_hardware_encoder,
    is_hevc_encoder, is_nvenc_encoder, is_videotoolbox_encoder, mode_label, ContentMode, Encoder,
    FpsPolicy, SettingsView, INFINITY_BITS,
};
use crate::paths::{has_path, plain, plains};
use crate::presets::{defaults_of, preset_of, PresetView};
use crate::stored_queue::mode_position;
use crate::text::{decimal, has_suffix};
use vstd::prelude::*;

verus! {

/// A slideshow gets the size that its form names: 3840 by 2160 for `4K`, and 1920 by 1080 for `1080p`.
pub proof fn law_slideshow_gets_the_named_size(
    f: FormView,
    presets: Seq<PresetView>,
    encoder: Encoder,
)
    ensures
        f.slideshow_resolution == "4K"@ ==> f.settings(
            presets,
            ContentMode::PhotoSlideshow,
            encoder,
        ).slideshow_resolution == (3840u32, 2160u32),
        f.slideshow_resolution == "1080p"@ ==> f.settings(
            presets,
            ContentMode::PhotoSlideshow,
            encoder,
        ).slideshow_resolution == (1920u32, 1080u32),
{
    reveal_strlit("4K");
    reveal_strlit("1080p");
    assert("4K"@.len() != "1080p"@.len());
}

/// A form that shows settings names their size: `4K` for 3840 by 2160, and `1080p` for any other.
pub proof fn law_form_names_the_size(f: FormView, mode: ContentMode, table: Seq<SettingsView>, s: SettingsView)
    ensures
        s.slideshow_resolution == (3840u32, 2160u32) ==> f.showing(s).slideshow_resolution == "4K"@,
        s.slideshow_resolution != (3840u32, 2160u32) ==> f.showing(s).slideshow_resolution == "1080p"@,
        table[mode_position(mode)].slideshow_resolution == (3840u32, 2160u32) ==> fresh_form(
            mode,
            table,
        ).slideshow_resolution == "4K"@,
        table[mode_position(mode)].slideshow_resolution != (3840u32, 2160u32) ==> fresh_form(
            mode,
            table,
        ).slideshow_resolution == "1080p"@,
{
}

/// The settings of a slideshow are those that the form shows.
pub proof fn law_slideshow_follows_the_form(f: FormView, presets: Seq<PresetView>, encoder: Encoder)
    ensures
        ({
            let s = f.settings(presets, ContentMode::PhotoSlideshow, encoder);
            &&& s.mode == ContentMode::PhotoSlideshow
            &&& s.encoder == encoder
            &&& s.fps == FpsPolicy::Source
            &&& s.photo_interval == f.photo_interval
            &&& s.slideshow_fps == f.slideshow_fps
            &&& s.slideshow_audio_paths == f.slideshow_audio_paths
            &&& s.slideshow_collage == f.slideshow_collage
        }),
{
}

/// A stabilizing task gets the strength that the form shows.
pub proof fn law_stabilizing_follows_the_form(f: FormView, presets: Seq<PresetView>, encoder: Encoder)
    ensures
        f.settings(presets, ContentMode::Stabilize, encoder).stabilize_strength == f.stabilize_strength,
        f.settings(presets, ContentMode::Stabilize, encoder).mode == ContentMode::Stabilize,
        f.settings(presets, ContentMode::Stabilize, encoder).encoder == encoder,
{
}

/// Camera videos follow the form's choice of a lookup table with the three software encoders; with the
/// others the choice kept before stays.
pub proof fn law_lookup_table_follows_the_form(f: FormView, presets: Seq<PresetView>, encoder: Encoder)
    requires
        f.settings_by_mode[mode_position(ContentMode::CameraVideos)].encoder == encoder,
    ensures
        encoder == Encoder::X264 || encoder == Encoder::X265 || encoder == Encoder::SvtAv1
            ==> f.settings(presets, ContentMode::CameraVideos, encoder).apply_lut == f.apply_lut,
        encoder != Encoder::X264 && encoder != Encoder::X265 && encoder != Encoder::SvtAv1
            ==> f.settings(presets, ContentMode::CameraVideos, encoder).apply_lut
            == f.settings_by_mode[mode_position(ContentMode::CameraVideos)].apply_lut,
{
}

/// The quality is that of the form, at most 51 with x264 and x265 and at most 63 with SVT-AV1; the other
/// encoders get none.
pub proof fn law_quality_follows_the_form(
    f: FormView,
    presets: Seq<PresetView>,
    mode: ContentMode,
    encoder: Encoder,
)
    ensures
        encoder == Encoder::X264 || encoder == Encoder::X265 ==> f.settings(presets, mode, encoder).quality
            == Some(
            if f.quality_crf > 51 {
                51u8
            } else {
                f.quality_crf
            },
        ),
        encoder == Encoder::SvtAv1 ==> f.settings(presets, mode, encoder).quality == Some(
            if f.quality_crf > 63 {
                63u8
            } else {
                f.quality_crf
            },
        ),
        encoder != Encoder::X264 && encoder != Encoder::X265 && encoder != Encoder::SvtAv1
            ==> f.settings(presets, mode, encoder).quality is None,
{
}

/// The speed preset is that of the form with every encoder but those of VideoToolbox, which have none.
pub proof fn law_speed_follows_the_form(
    f: FormView,
    presets: Seq<PresetView>,
    mode: ContentMode,
    encoder: Encoder,
)
    ensures
        encoder == Encoder::H264VideoToolbox || encoder == Encoder::HevcVideoToolbox || encoder
            == Encoder::Av1VideoToolbox ==> f.settings(presets, mode, encoder).speed_preset is None,
        encoder != Encoder::H264VideoToolbox && encoder != Encoder::HevcVideoToolbox && encoder
            != Encoder::Av1VideoToolbox ==> f.settings(presets, mode, encoder).speed_preset == Some(
            f.speed_preset,
        ),
{
}

/// The frame rate is what the form chooses, except that trimming and slideshows keep that of the source.
pub proof fn law_rate_follows_the_form(
    f: FormView,
    presets: Seq<PresetView>,
    mode: ContentMode,
    encoder: Encoder,
)
    requires
        SMALLEST_RATE_BITS <= f.explicit_fps.bits <= INFINITY_BITS,
    ensures
        mode == ContentMode::Trim || mode == ContentMode::PhotoSlideshow ==> f.settings(
            presets,
            mode,
            encoder,
        ).fps == FpsPolicy::Source,
        mode != ContentMode::Trim && mode != ContentMode::PhotoSlideshow ==> match f.fps_mode {
            FpsUiMode::SharedLowest => f.settings(presets, mode, encoder).fps == FpsPolicy::SharedLowest,
            FpsUiMode::Source => f.settings(presets, mode, encoder).fps == FpsPolicy::Source,
            FpsUiMode::Explicit => f.settings(presets, mode, encoder).fps == FpsPolicy::Exact(
                f.explicit_fps,
            ),
        },
{
}

/// The form shows a shared rate, that of the source, or an exact one as such, with the rate itself.
pub proof fn law_form_shows_the_rate(f: FormView, s: SettingsView)
    ensures
        f.showing(s).fps_mode == FpsUiMode::SharedLowest <==> s.fps == FpsPolicy::SharedLowest,
        f.showing(s).fps_mode == FpsUiMode::Source <==> s.fps == FpsPolicy::Source,
        f.showing(s).fps_mode == FpsUiMode::Explicit <==> s.fps is Exact,
        s.fps matches FpsPolicy::Exact(rate) ==> 0 < rate.bits < INFINITY_BITS
            ==> f.showing(s).explicit_fps == rate,
{
}

/// Trimming cuts from the time of the first entry to that of the second; where the entries are no range,
/// the one kept before stays.
pub proof fn law_trimming_follows_the_form(f: FormView, presets: Seq<PresetView>, encoder: Encoder)
    ensures
        ({
            let s = f.settings(presets, ContentMode::Trim, encoder);
            match (trim_seconds(f.trim_start_text), trim_seconds(f.trim_end_text)) {
                (Ok(start), Ok(end)) => if start <= end && end <= 360_000 {
                    &&& s.trim_start matches Some(a)
                    &&& s.trim_end matches Some(b)
                    &&& a.nanos == start * 1_000_000_000
                    &&& b.nanos == end * 1_000_000_000
                } else {
                    end < start && start <= 360_000
                        && f.settings_by_mode[mode_position(ContentMode::Trim)].encoder == encoder
                        ==> s.trim_start
                        == f.settings_by_mode[mode_position(ContentMode::Trim)].trim_start
                        && s.trim_end == f.settings_by_mode[mode_position(ContentMode::Trim)].trim_end
                },
                _ => f.settings_by_mode[mode_position(ContentMode::Trim)].encoder == encoder
                    ==> s.trim_start == f.settings_by_mode[mode_position(ContentMode::Trim)].trim_start
                    && s.trim_end == f.settings_by_mode[mode_position(ContentMode::Trim)].trim_end,
            }
        }),
{
}

/// A form with bad trim entries is refused in the trimming workflow, with the entry that is bad named first,
/// and in no other workflow.
pub proof fn law_bad_trim_entries_are_refused(f: FormView, presets: Seq<PresetView>)
    requires
        trim_seconds(f.trim_start_text) matches Ok(secs) ==> secs <= 360_000,
        trim_seconds(f.trim_end_text) matches Ok(secs) ==> secs <= 360_000,
    ensures
        f.mode != ContentMode::Trim ==> f.validated(presets) == Ok::<SettingsView, Seq<char>>(
            f.current(presets),
        ),
        f.mode == ContentMode::Trim ==> match (
            trim_seconds(f.trim_start_text),
            trim_seconds(f.trim_end_text),
        ) {
            (Err(e), _) => f.validated(presets) matches Err(text) && text
                == "Invalid start time: "@ + crate::clock::trim_time_error_text(e),
            (Ok(_), Err(e)) => f.validated(presets) matches Err(text) && text
                == "Invalid end time: "@ + crate::clock::trim_time_error_text(e),
            (Ok(start), Ok(end)) => if end < start {
                f.validated(presets) matches Err(text) && text
                    == "Trim end time must be later than or equal to start time"@
            } else {
                f.validated(presets) == Ok::<SettingsView, Seq<char>>(f.current(presets))
            },
        },
{
}

/// What a workflow has no entry for stays as it was kept: a trim range outside of trimming, a strength
/// outside of stabilizing, and a slideshow's settings outside of slideshows.
pub proof fn law_other_settings_stay(
    f: FormView,
    presets: Seq<PresetView>,
    mode: ContentMode,
    encoder: Encoder,
)
    requires
        f.settings_by_mode[mode_position(mode)].encoder == encoder,
    ensures
        ({
            let kept = f.settings_by_mode[mode_position(mode)];
            let s = f.settings(presets, mode, encoder);
            &&& mode != ContentMode::Trim ==> s.trim_start == kept.trim_start && s.trim_end
                == kept.trim_end
            &&& mode != ContentMode::Stabilize ==> s.stabilize_strength == kept.stabilize_strength
            &&& mode != ContentMode::CameraVideos ==> s.apply_lut == kept.apply_lut
            &&& mode != ContentMode::PhotoSlideshow ==> s.photo_interval == kept.photo_interval
                && s.slideshow_fps == kept.slideshow_fps && s.slideshow_resolution
                == kept.slideshow_resolution && s.slideshow_audio_paths == kept.slideshow_audio_paths
                && s.slideshow_collage == kept.slideshow_collage
            &&& s.camera_lut_path == kept.camera_lut_path
            &&& s.mode == mode
            &&& s.encoder == encoder
        }),
{
}

/// With an encoder other than the kept one, what the form has no entry for comes from the first preset of
/// the workflow and the encoder.
pub proof fn law_new_encoder_starts_from_its_preset(
    f: FormView,
    presets: Seq<PresetView>,
    mode: ContentMode,
    encoder: Encoder,
    i: int,
)
    requires
        f.settings_by_mode[mode_position(mode)].encoder != encoder,
        0 <= i < presets.len(),
        presets[i].mode == mode && presets[i].encoder == encoder,
        forall|j: int|
            0 <= j < i ==> !((#[trigger] presets[j]).mode == mode && presets[j].encoder == encoder),
    ensures
        defaults_of(presets, mode, encoder) == presets[i].defaults,
        mode != ContentMode::Trim ==> f.settings(presets, mode, encoder).trim_start
            == presets[i].defaults.trim_start,
        mode != ContentMode::Stabilize ==> f.settings(presets, mode, encoder).stabilize_strength
            == presets[i].defaults.stabilize_strength,
        mode != ContentMode::PhotoSlideshow ==> f.settings(presets, mode, encoder).slideshow_resolution
            == presets[i].defaults.slideshow_resolution,
{
    lemma_preset_is_first(presets, mode, encoder, i);
}

/// The preset of a workflow and an encoder is the first that is listed for both.
pub proof fn lemma_preset_is_first(presets: Seq<PresetView>, mode: ContentMode, encoder: Encoder, i: int)
    requires
        0 <= i < presets.len(),
        presets[i].mode == mode && presets[i].encoder == encoder,
        forall|j: int|
            0 <= j < i ==> !((#[trigger] presets[j]).mode == mode && presets[j].encoder == encoder),
    ensures
        preset_of(presets, mode, encoder) == Some(presets[i]),
    decreases i,
{
    if i > 0 {
        let rest = presets.drop_first();
        assert(rest[i - 1] == presets[i]);
        assert forall|j: int| 0 <= j < i - 1 implies !((#[trigger] rest[j]).mode == mode
            && rest[j].encoder == encoder) by {
            assert(rest[j] == presets[j + 1]);
        }
        lemma_preset_is_first(rest, mode, encoder, i - 1);
    }
}

/// The presets answer with what the first one listed for a workflow and an encoder says, and without one
/// with Matroska, no shared rate, and no suffix.
pub proof fn law_presets_answer_from_the_first(
    presets: Seq<PresetView>,
    mode: ContentMode,
    encoder: Encoder,
    i: int,
)
    requires
        0 <= i < presets.len(),
        presets[i].mode == mode && presets[i].encoder == encoder,
        forall|j: int|
            0 <= j < i ==> !((#[trigger] presets[j]).mode == mode && presets[j].encoder == encoder),
    ensures
        crate::presets::container_of(presets, mode, encoder) == presets[i].container,
        crate::presets::shares_lowest_fps(presets, mode, encoder) == presets[i].share_lowest_fps,
        crate::presets::suffix_of(presets, mode, encoder) == presets[i].folder_suffix,
        defaults_of(presets, mode, encoder) == presets[i].defaults,
{
    lemma_preset_is_first(presets, mode, encoder, i);
}

/// A form that shows settings has each of them in its entry.
pub proof fn law_form_shows_every_setting(f: FormView, s: SettingsView)
    ensures
        ({
            let g = f.showing(s);
            &&& g.encoder == s.encoder
            &&& g.stabilize_strength == s.stabilize_strength
            &&& g.apply_lut == s.apply_lut
            &&& g.photo_interval == s.photo_interval
            &&& g.slideshow_fps == s.slideshow_fps
            &&& g.slideshow_audio_paths == s.slideshow_audio_paths
            &&& g.slideshow_collage == s.slideshow_collage
            &&& s.trim_start matches Some(a) ==> g.trim_start_text == clock_text(whole_secs(a))
            &&& s.trim_end matches Some(b) ==> g.trim_end_text == clock_text(whole_secs(b))
            &&& s.trim_start is None ==> g.trim_start_text == clock_text(0)
            &&& s.trim_end is None ==> g.trim_end_text == clock_text(1)
            &&& s.speed_preset matches Some(p) ==> g.speed_preset == p
            &&& s.speed_preset is None ==> g.speed_preset.len() == 0
            &&& s.quality matches Some(q) ==> q <= 51 ==> g.quality_crf == q
            &&& s.quality is None ==> g.quality_crf == 28
            &&& g.settings_by_mode == f.settings_by_mode
            &&& g.encoding_settings == f.encoding_settings
        }),
{
}

/// The form that the program starts with shows the settings kept for its workflow, with no track selected.
pub proof fn law_fresh_form_shows_the_kept_settings(mode: ContentMode, table: Seq<SettingsView>, f: FormView)
    requires
        table[mode_position(mode)].quality matches Some(q) ==> q <= 51,
    ensures
        ({
            let s = table[mode_position(mode)];
            let g = fresh_form(mode, table);
            &&& g.mode == mode
            &&& g.settings_by_mode == table
            &&& g.slideshow_audio_selected is None
            &&& g == (FormView {
                mode,
                settings_by_mode: table,
                slideshow_audio_selected: None,
                encoding_settings: g.encoding_settings,
                ..f.showing(s)
            })
            &&& g.encoding_settings.contains_key((mode, s.encoder))
            &&& g.encoding_settings[(mode, s.encoder)].quality_crf == g.quality_crf
            &&& g.encoding_settings[(mode, s.encoder)].speed_preset == g.speed_preset
        }),
{
}

/// Choosing another workflow shows the settings kept for it; trimming always shows x265.
pub proof fn law_chosen_workflow_shows_its_settings(
    f: FormView,
    presets: Seq<PresetView>,
    mode: ContentMode,
)
    requires
        f.wf(),
        f.mode != mode,
    ensures
        ({
            let s = f.settings_by_mode[mode_position(mode)];
            let g = f.in_mode(presets, mode);
            &&& mode != ContentMode::Trim ==> g.encoder == s.encoder
            &&& mode == ContentMode::Trim ==> g.encoder == Encoder::X265
            &&& g.stabilize_strength == s.stabilize_strength
            &&& g.apply_lut == s.apply_lut
            &&& g.photo_interval == s.photo_interval
            &&& g.slideshow_fps == s.slideshow_fps
            &&& g.slideshow_audio_paths == s.slideshow_audio_paths
            &&& g.slideshow_collage == s.slideshow_collage
            &&& g.fps_mode == f.showing(s).fps_mode
            &&& s.quality matches Some(q) ==> q <= 51 ==> g.quality_crf == q
            &&& s.speed_preset matches Some(p) ==> g.speed_preset == p
            &&& g.encoding_settings.contains_key((f.mode, f.encoder))
            &&& g.encoding_settings[(f.mode, f.encoder)].quality_crf == f.quality_crf
            &&& g.encoding_settings[(f.mode, f.encoder)].speed_preset == f.speed_preset
        }),
{
    assert(mode_position(mode) != mode_position(f.mode));
}

/// Choosing another encoder changes nothing but the encoder, the quality, and the speed, which are those last
/// used with it in the workflow, and those of its preset where it was not used.
pub proof fn law_chosen_encoder_brings_its_quality(
    f: FormView,
    presets: Seq<PresetView>,
    encoder: Encoder,
)
    requires
        encoder != f.encoder,
    ensures
        ({
            let g = f.with_encoder(presets, encoder);
            let preset = defaults_of(presets, f.mode, encoder);
            &&& g == (FormView {
                encoder,
                quality_crf: g.quality_crf,
                speed_preset: g.speed_preset,
                encoding_settings: g.encoding_settings,
                ..f
            })
            &&& f.encoding_settings.contains_key((f.mode, encoder)) ==> g.speed_preset
                == f.encoding_settings[(f.mode, encoder)].speed_preset
            &&& f.encoding_settings.contains_key((f.mode, encoder)) ==> f.encoding_settings[(
                f.mode,
                encoder,
            )].quality_crf <= 51 ==> g.quality_crf == f.encoding_settings[(f.mode, encoder)].quality_crf
            &&& !f.encoding_settings.contains_key((f.mode, encoder)) ==> (preset.speed_preset matches Some(
                p,
            ) ==> g.speed_preset == p)
            &&& !f.encoding_settings.contains_key((f.mode, encoder)) ==> (preset.quality matches Some(q)
                ==> q <= 51 ==> g.quality_crf == q)
        }),
{
}

/// Trimming offers x265 alone; the other workflows offer what is available, and x265 where nothing is.
pub proof fn law_offered_encoders_are_available(mode: ContentMode, available: Seq<Encoder>, e: Encoder)
    ensures
        mode == ContentMode::Trim ==> offered_encoders(mode, available) == seq![Encoder::X265],
        mode != ContentMode::Trim && available.len() > 0 ==> (offered_encoders(mode, available).contains(e)
            <==> available.contains(e)),
        available.len() == 0 ==> offered_encoders(mode, available) == seq![Encoder::X265],
{
}

/// A form whose encoder is on offer keeps it, with its quality and speed; the lowest rate of a folder is
/// given up for that of the source exactly where the workflow does not share it.
pub proof fn law_settling_changes_only_what_is_not_offered(
    f: FormView,
    presets: Seq<PresetView>,
    available: Seq<Encoder>,
)
    requires
        f.mode != ContentMode::Trim,
        available.contains(f.encoder),
    ensures
        f.settled(presets, available) == (FormView {
            fps_mode: f.settled(presets, available).fps_mode,
            ..f
        }),
        f.fps_mode != FpsUiMode::SharedLowest ==> f.settled(presets, available) == f,
        f.fps_mode == FpsUiMode::SharedLowest && (f.mode == ContentMode::Tv || f.mode
            == ContentMode::Animation || f.mode == ContentMode::CameraVideos)
            ==> f.settled(presets, available).fps_mode == if crate::presets::shares_lowest_fps(
            presets,
            f.mode,
            f.encoder,
        ) {
            FpsUiMode::SharedLowest
        } else {
            FpsUiMode::Source
        },
{
}

/// Removing the selected track takes out that one and leaves the others in their order.
pub proof fn law_removing_a_track(f: FormView, i: usize, k: int)
    requires
        f.slideshow_audio_selected == Some(i),
        i < f.slideshow_audio_paths.len(),
        0 <= k < f.slideshow_audio_paths.len() - 1,
    ensures
        f.audio_removed().slideshow_audio_paths.len() == f.slideshow_audio_paths.len() - 1,
        f.audio_removed().slideshow_audio_paths[k] == f.slideshow_audio_paths[if k < i {
            k
        } else {
            k + 1
        }],
        f.audio_removed().slideshow_audio_selected matches Some(j) && j
            < f.audio_removed().slideshow_audio_paths.len() && (j == i || j == i - 1),
{
}

/// Moving the selected track puts it as many places further and keeps it selected; moving it back undoes that.
pub proof fn law_moving_a_track(f: FormView, i: usize, delta: int)
    requires
        f.slideshow_audio_selected == Some(i),
        i < f.slideshow_audio_paths.len(),
        0 <= i + delta < f.slideshow_audio_paths.len(),
        f.slideshow_audio_paths.len() <= usize::MAX,
    ensures
        f.audio_moved(delta).slideshow_audio_paths[i + delta] == f.slideshow_audio_paths[i as int],
        f.audio_moved(delta).slideshow_audio_paths[i as int] == f.slideshow_audio_paths[i + delta],
        f.audio_moved(delta).slideshow_audio_selected == Some((i + delta) as usize),
        f.audio_moved(delta).audio_moved(-delta) == f,
        forall|k: int|
            0 <= k < f.slideshow_audio_paths.len() && k != i && k != i + delta
                ==> #[trigger] f.audio_moved(delta).slideshow_audio_paths[k]
                == f.slideshow_audio_paths[k],
{
    let there = f.audio_moved(delta);
    let back = there.audio_moved(-delta);
    assert(back.slideshow_audio_paths =~= f.slideshow_audio_paths);
}

/// Added tracks come after those that are there, which stay; every added track is in the list afterwards.
pub proof fn law_added_tracks_are_listed(list: Seq<Seq<char>>, added: Seq<Seq<char>>, k: int)
    ensures
        with_new(list, added).len() >= list.len(),
        with_new(list, added).take(list.len() as int) == list,
        0 <= k < added.len() ==> has_path(with_new(list, added), added[k]),
        0 <= k < with_new(list, added).len() ==> list.contains(with_new(list, added)[k])
            || added.contains(with_new(list, added)[k]),
    decreases added.len(),
{
    let all = with_new(list, added);
    if added.len() == 0 {
        assert(list.take(list.len() as int) =~= list);
        if 0 <= k < all.len() {
            assert(list.contains(all[k]));
        }
    } else {
        let rest = added.drop_last();
        let before = with_new(list, rest);
        law_added_tracks_are_listed(list, rest, k);
        assert(all.take(list.len() as int) =~= before.take(list.len() as int));
        if 0 <= k < added.len() {
            if k < rest.len() {
                assert(rest[k] == added[k]);
                let j = choose|j: int| 0 <= j < plains(before).len() && plains(before)[j] == plain(added[k]);
                assert(plains(all)[j] == plain(added[k]));
            } else if !has_path(before, added.last()) {
                assert(plains(all)[before.len() as int] == plain(added[k]));
            }
        }
        if 0 <= k < all.len() {
            if k < before.len() {
                assert(all[k] == before[k]);
                if rest.contains(before[k]) {
                    let j = choose|j: int| 0 <= j < rest.len() && rest[j] == before[k];
                    assert(added[j] == all[k]);
                }
            } else {
                assert(added[added.len() - 1] == all[k]);
            }
        }
    }
}

/// The names that quality levels have with x264.
pub proof fn law_quality_names_of_x264(q: u8)
    requires
        q <= 51,
    ensures
        quality_name(quality_bands(Encoder::X264), q) == if q <= 17 {
            "Max detail"@
        } else if q <= 22 {
            "High detail"@
        } else if q <= 27 {
            "Balanced"@
        } else if q <= 35 {
            "Smaller file"@
        } else {
            "Smallest file"@
        },
{
    lemma_quality_name(Encoder::X264, q);
}

/// The names that quality levels have with x265.
pub proof fn law_quality_names_of_x265(q: u8)
    requires
        q <= 51,
    ensures
        quality_name(quality_bands(Encoder::X265), q) == if q <= 17 {
            "Max detail"@
        } else if q <= 25 {
            "High detail"@
        } else if q <= 31 {
            "Balanced"@
        } else if q <= 39 {
            "Smaller file"@
        } else {
            "Smallest file"@
        },
{
    lemma_quality_name(Encoder::X265, q);
}

/// The names that quality levels have with SVT-AV1.
pub proof fn law_quality_names_of_svt_av1(q: u8)
    requires
        q <= 63,
    ensures
        quality_name(quality_bands(Encoder::SvtAv1), q) == if q <= 19 {
            "Max detail"@
        } else if q <= 27 {
            "High detail"@
        } else if q <= 35 {
            "Balanced"@
        } else if q <= 47 {
            "Smaller file"@
        } else {
            "Smallest file"@
        },
{
    lemma_quality_name(Encoder::SvtAv1, q);
}

proof fn lemma_quality_name(e: Encoder, q: u8)
    requires
        quality_bands(e).len() == 5,
        q <= quality_limit(e),
    ensures
        ({
            let b = quality_bands(e);
            quality_name(b, q) == if q <= b[0].1 {
                b[0].2
            } else if q <= b[1].1 {
                b[1].2
            } else if q <= b[2].1 {
                b[2].2
            } else if q <= b[3].1 {
                b[3].2
            } else {
                b[4].2
            }
        }),
{
    let b = quality_bands(e);
    let k: int = if q <= b[0].1 {
        0
    } else if q <= b[1].1 {
        1
    } else if q <= b[2].1 {
        2
    } else if q <= b[3].1 {
        3
    } else {
        4
    };
    assert(is_first_reaching(b, q, k));
    let j = choose|j: int| is_first_reaching(b, q, j);
    assert(is_first_reaching(b, q, j));
    if j < k {
        assert(q > b[j].1);
    } else if k < j {
        assert(q > b[k].1);
    }
}

/// A band's caption gives its first and last level, and below them its name.
pub proof fn law_band_captions_give_the_levels(e: Encoder, i: int)
    requires
        0 <= i < quality_bands(e).len(),
    ensures
        band_caption(quality_bands(e)[i]) == decimal(quality_bands(e)[i].0 as nat) + "\u{2013}"@
            + decimal(quality_bands(e)[i].1 as nat) + "\n"@ + quality_bands(e)[i].2,
{
}

/// The speed presets of x264 and x265 go from the fastest to the slowest.
pub proof fn law_speeds_of_x264_and_x265(e: Encoder)
    requires
        e == Encoder::X264 || e == Encoder::X265,
    ensures
        speed_presets(e).len() == 10,
        speed_presets(e)[0] == "ultrafast"@,
        speed_presets(e)[1] == "superfast"@,
        speed_presets(e)[2] == "veryfast"@,
        speed_presets(e)[3] == "faster"@,
        speed_presets(e)[4] == "fast"@,
        speed_presets(e)[5] == "medium"@,
        speed_presets(e)[6] == "slow"@,
        speed_presets(e)[7] == "slower"@,
        speed_presets(e)[8] == "veryslow"@,
        speed_presets(e)[9] == "placebo"@,
        speed_captions(e) == speed_presets(e),
{
}

/// The speed presets of SVT-AV1 are the numbers from 0 to 13, those of NVENC `p1` to `p7`; VideoToolbox
/// has none.
pub proof fn law_speeds_of_the_other_encoders(e: Encoder, i: int)
    ensures
        e == Encoder::SvtAv1 ==> speed_presets(e).len() == 14 && speed_captions(e) == speed_presets(e),
        e == Encoder::SvtAv1 && 0 <= i < 14 ==> speed_presets(e)[i] == decimal(i as nat),
        e == Encoder::HevcNvenc || e == Encoder::H264Nvenc || e == Encoder::Av1Nvenc ==> speed_presets(
            e,
        ).len() == 7 && speed_captions(e).len() == 7 && (0 <= i < 7 ==> speed_presets(e)[i] == "p"@
            + decimal((i + 1) as nat)),
        e == Encoder::H264VideoToolbox || e == Encoder::HevcVideoToolbox || e == Encoder::Av1VideoToolbox
            ==> speed_presets(e).len() == 0,
{
}

/// The workflows are listed in the order of the interface, each with its own label.
pub proof fn law_workflows_and_their_labels(mode: ContentMode)
    ensures
        mode_label(ContentMode::Tv) == "TV"@,
        mode_label(ContentMode::Animation) == "Animation"@,
        mode_label(ContentMode::CameraVideos) == "Camera videos"@,
        mode_label(ContentMode::Stabilize) == "Stabilize"@,
        mode_label(ContentMode::Trim) == "Trim"@,
        mode_label(ContentMode::PhotoSlideshow) == "Photo slideshow"@,
        0 <= mode_position(mode) < all_modes().len(),
        all_modes()[mode_position(mode)] == mode,
        all_modes().len() == 6,
        all_modes()[0] == ContentMode::Tv && all_modes()[5] == ContentMode::PhotoSlideshow,
{
}

/// Every encoder is listed once, and x265 and x264 go by names without the library's prefix.
pub proof fn law_encoders_and_their_names(e: Encoder)
    ensures
        all_encoders().contains(e),
        all_encoders().len() == 9,
        all_encoders()[0] == Encoder::X265,
        encoder_user_name(Encoder::X265) == "x265"@,
        encoder_user_name(Encoder::X264) == "x264"@,
        e != Encoder::X265 && e != Encoder::X264 ==> encoder_user_name(e) == encoder_library_name(e),
        encoder_library_name(Encoder::X265) == "libx265"@,
        encoder_library_name(Encoder::X264) == "libx264"@,
        encoder_library_name(Encoder::SvtAv1) == "libsvtav1"@,
        encoder_library_name(Encoder::HevcNvenc) == "hevc_nvenc"@,
        encoder_library_name(Encoder::Av1Nvenc) == "av1_nvenc"@,
        encoder_library_name(Encoder::H264Nvenc) == "h264_nvenc"@,
        encoder_library_name(Encoder::H264VideoToolbox) == "h264_videotoolbox"@,
        encoder_library_name(Encoder::HevcVideoToolbox) == "hevc_videotoolbox"@,
        encoder_library_name(Encoder::Av1VideoToolbox) == "av1_videotoolbox"@,
{
    let k: int = match e {
        Encoder::X265 => 0,
        Encoder::X264 => 1,
        Encoder::SvtAv1 => 2,
        Encoder::HevcNvenc => 3,
        Encoder::Av1Nvenc => 4,
        Encoder::H264Nvenc => 5,
        Encoder::H264VideoToolbox => 6,
        Encoder::HevcVideoToolbox => 7,
        Encoder::Av1VideoToolbox => 8,
    };
    assert(all_encoders()[k] == e);
}

/// The name of an encoder tells its family and its codec.
pub proof fn law_encoder_names_tell_the_family(e: Encoder)
    ensures
        is_nvenc_encoder(e) <==> has_suffix(encoder_library_name(e), "_nvenc"@),
        is_videotoolbox_encoder(e) <==> has_suffix(encoder_library_name(e), "_videotoolbox"@),
        is_hevc_encoder(e) <==> encoder_library_name(e) == "libx265"@ || encoder_library_name(e)
            == "hevc_nvenc"@ || encoder_library_name(e) == "hevc_videotoolbox"@,
        is_hardware_encoder(e) <==> is_nvenc_encoder(e) || is_videotoolbox_encoder(e),
{
    reveal_strlit("libx265");
    reveal_strlit("libx264");
    reveal_strlit("libsvtav1");
    reveal_strlit("hevc_nvenc");
    reveal_strlit("av1_nvenc");
    reveal_strlit("h264_nvenc");
    reveal_strlit("h264_videotoolbox");
    reveal_strlit("hevc_videotoolbox");
    reveal_strlit("av1_videotoolbox");
    reveal_strlit("_nvenc");
    reveal_strlit("_videotoolbox");
    let name = encoder_library_name(e);
    let a = "_nvenc"@;
    let b = "_videotoolbox"@;
    if is_nvenc_encoder(e) {
        assert(name.subrange(name.len() - a.len(), name.len() as int) =~= a);
    }
    if is_videotoolbox_encoder(e) {
        assert(name.subrange(name.len() - b.len(), name.len() as int) =~= b);
    }
    if has_suffix(name, a) {
        lemma_suffix_ends(name, a);
    }
    if has_suffix(name, b) {
        lemma_suffix_ends(name, b);
    }
    assert("libx265"@.len() == 7 && "hevc_nvenc"@.len() == 10 && "hevc_videotoolbox"@.len() == 17);
    assert("libx264"@[6] == '4' && "libx265"@[6] == '5');
    assert("h264_nvenc"@[1] == '2' && "hevc_nvenc"@[1] == 'e');
    assert("h264_videotoolbox"@[1] == '2' && "hevc_videotoolbox"@[1] == 'e');
}

/// A text and its suffix end with the same character.
proof fn lemma_suffix_ends(s: Seq<char>, suffix: Seq<char>)
    requires
        has_suffix(s, suffix),
        suffix.len() > 0,
    ensures
        s.len() > 0,
        s.last() == suffix.last(),
{
    assert(s.subrange(s.len() - suffix.len(), s.len() as int)[suffix.len() - 1] == suffix.last());
}

} // verus!
