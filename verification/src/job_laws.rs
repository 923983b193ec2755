//! When a conversion is skipped, tried again, or given up, and which lookup table it gets.

use crate::engine::{engine_error_text, EngineError};
use crate::jobs::{
    existing_library, is_locked_input, is_queue_fatal, is_retryable, lut_candidate_list, main_codec,
    rate_fits, retry_outcome, source_skip_text, wants_lut, EncodedSource, LutPlaces,
};
use crate::model::{
    encoder_user_name, ContentMode, Encoder, FpsPolicy, FrameRate, MediaStream, SettingsView, StreamKind,
};
use crate::paths::{joined, parent};
use crate::stream_policy::is_main_video;
use crate::text::{ascii_lower, contains_text, decimal, opt_text};
use crate::time::Duration;
use vstd::prelude::*;

verus! {

/// A lookup table is looked for exactly for camera videos whose settings ask for one and whose encoder is one
/// of the three software encoders.
pub proof fn law_lookup_tables_are_for_camera_videos(s: SettingsView)
    ensures
        wants_lut(s) <==> s.mode == ContentMode::CameraVideos && s.apply_lut && (s.encoder == Encoder::X265
            || s.encoder == Encoder::X264 || s.encoder == Encoder::SvtAv1),
{
}

/// A source is skipped exactly if it is known to be encoded by the library that the encoder stands for, at a
/// known rate that is the wanted one: x264 for x264, SVT-AV1 for SVT-AV1, and x265 for all the others.
pub proof fn law_encoded_sources_are_skipped(source: EncodedSource, encoder: Encoder, input: Seq<char>)
    ensures
        source_skip_text(source, encoder, input) is Some <==> source.rate_fits && source.rate_text is Some
            && opt_text(source.library) == Some(
            if encoder == Encoder::X264 {
                "x264"@
            } else if encoder == Encoder::SvtAv1 {
                "libsvtav1"@
            } else {
                "x265"@
            },
        ),
        source_skip_text(source, encoder, input) matches Some(text) ==> text == input
            + " already uses "@ + source.library->0@ + " at "@ + source.rate_text->0@ + " FPS"@,
        encoder == Encoder::X264 || encoder == Encoder::X265 || encoder == Encoder::SvtAv1
            ==> existing_library(encoder) == encoder_user_name(encoder),
{
}

/// The rate of a source always fits where it is kept; it fits an exact one where it is near it, and the lowest
/// of the folder where that is known and near.
pub proof fn law_rates_that_fit(rate: FrameRate, near_exact: bool, near_lowest: Option<bool>)
    ensures
        rate_fits(FpsPolicy::Source, near_exact, near_lowest),
        rate_fits(FpsPolicy::Exact(rate), near_exact, near_lowest) <==> near_exact,
        rate_fits(FpsPolicy::SharedLowest, near_exact, near_lowest) <==> near_lowest == Some(true),
{
}

/// The failure of a slideshow and the loss of the engine end the queue; no other failure does.
pub proof fn law_failures_that_end_the_queue(mode: ContentMode, e: EngineError)
    ensures
        mode == ContentMode::PhotoSlideshow ==> is_queue_fatal(mode, e),
        mode != ContentMode::PhotoSlideshow ==> match e {
            EngineError::Unavailable(_) => is_queue_fatal(mode, e),
            EngineError::Unsupported(_) => !is_queue_fatal(mode, e),
            EngineError::InvalidMedia(_) => !is_queue_fatal(mode, e),
            EngineError::Cancelled => !is_queue_fatal(mode, e),
            EngineError::Failed(_) => !is_queue_fatal(mode, e),
        },
{
}

/// Of a video, unsupported and invalid media and failed conversions may mend; a lost engine and a
/// cancellation do not. No failure of a slideshow mends.
pub proof fn law_failures_that_may_mend(mode: ContentMode, e: EngineError)
    ensures
        mode == ContentMode::PhotoSlideshow ==> !is_retryable(mode, e),
        mode != ContentMode::PhotoSlideshow ==> match e {
            EngineError::Unavailable(_) => !is_retryable(mode, e),
            EngineError::Unsupported(_) => is_retryable(mode, e),
            EngineError::InvalidMedia(_) => is_retryable(mode, e),
            EngineError::Cancelled => !is_retryable(mode, e),
            EngineError::Failed(_) => is_retryable(mode, e),
        },
        is_retryable(mode, e) ==> !is_queue_fatal(mode, e),
{
}

/// The first attempt at a video that fails for a reason that may mend is followed by a second one after the
/// whole delay.
pub proof fn law_first_failure_is_tried_again(mode: ContentMode, e: EngineError, delay: Duration)
    requires
        mode != ContentMode::PhotoSlideshow,
        e is Unsupported || e is InvalidMedia || e is Failed,
        !is_locked_input(e),
    ensures
        retry_outcome(mode, 1, e, delay) matches Some((warning, wait, attempt)) && wait == delay && attempt
            == 2 && warning == "Conversion attempt "@ + decimal(1) + " failed: "@ + engine_error_text(e)
            + "; retrying in "@ + decimal(crate::clock::whole_secs(delay)) + " seconds"@,
        retry_outcome(mode, 2, e, delay) is None,
{
}

/// A video that another program has open is waited for, as often as it takes, and for a second at most.
pub proof fn law_locked_files_are_waited_for(
    mode: ContentMode,
    attempt: usize,
    e: EngineError,
    delay: Duration,
)
    requires
        mode != ContentMode::PhotoSlideshow,
        is_locked_input(e),
    ensures
        retry_outcome(mode, attempt, e, delay) matches Some((warning, wait, next)) && next == attempt
            && wait.nanos <= delay.nanos && wait.nanos <= 1_000_000_000 && (wait == delay || wait.nanos
            == 1_000_000_000) && warning == "Locked input detected: "@ + engine_error_text(e)
            + "; waiting to retry"@,
{
}

/// A file counts as locked exactly if the words of its failure hold one of three phrases, in any case.
pub proof fn law_words_of_a_locked_file(e: EngineError)
    ensures
        is_locked_input(e) <==> contains_text(ascii_lower(engine_error_text(e)), "winerror 32"@)
            || contains_text(ascii_lower(engine_error_text(e)), "being used by another process"@)
            || contains_text(ascii_lower(engine_error_text(e)), "sharing violation"@),
{
}

/// The words for a failure begin with its kind and end with its message.
pub proof fn law_words_for_failures(m: String)
    ensures
        engine_error_text(EngineError::Unavailable(m)) == "media engine unavailable: "@ + m@,
        engine_error_text(EngineError::Unsupported(m)) == "unsupported media: "@ + m@,
        engine_error_text(EngineError::InvalidMedia(m)) == "invalid media: "@ + m@,
        engine_error_text(EngineError::Failed(m)) == "conversion failed: "@ + m@,
        engine_error_text(EngineError::Cancelled) == "conversion cancelled"@,
{
}

/// A lookup table is looked for first in the folder that the user set, then with the program, then among the
/// bundled assets, and last around the current folder.
pub proof fn law_lookup_tables_have_their_places(places: LutPlaces, name: Seq<char>)
    ensures
        ({
            let list = lut_candidate_list(places, name);
            let a: int = if places.override_folder is Some {
                1
            } else {
                0
            };
            let b: int = match opt_text(places.program_folder) {
                Some(folder) => if parent(folder) is Some {
                    3
                } else {
                    2
                },
                None => 0,
            };
            &&& list.len() == a + b + 1 + if places.current_folder is Some {
                2int
            } else {
                0int
            }
            &&& opt_text(places.override_folder) matches Some(folder) ==> list[0] == joined(folder, name)
            &&& opt_text(places.program_folder) matches Some(folder) ==> {
                &&& list[a] == joined(joined(joined(folder, "lut"@), "dji"@), name)
                &&& list[a + 1] == joined(
                    joined(joined(joined(folder, "resources"@), "lut"@), "dji"@),
                    name,
                )
                &&& parent(folder) matches Some(above) ==> list[a + 2] == joined(
                    joined(joined(joined(above, "Resources"@), "lut"@), "dji"@),
                    name,
                )
            }
            &&& list[a + b] == joined(places.asset_folder@, name)
            &&& opt_text(places.current_folder) matches Some(folder) ==> {
                &&& list[a + b + 1] == joined(joined(joined(folder, "lut"@), "dji"@), name)
                &&& list[a + b + 2] == joined(
                    joined(joined(joined(folder, ".."@), "lut"@), "dji"@),
                    name,
                )
            }
        }),
{
}

/// The codec of a file is that of its first video stream, cover art aside; audio and cover art alone give none.
pub proof fn law_codec_is_that_of_the_first_video(streams: Seq<MediaStream>, i: int)
    ensures
        0 <= i < streams.len() && streams[i].kind == StreamKind::Video && !streams[i].is_attached_picture && (
        forall|j: int|
            0 <= j < i ==> (#[trigger] streams[j]).kind != StreamKind::Video
                || streams[j].is_attached_picture) ==> main_codec(streams) == opt_text(
            streams[i].codec_name,
        ),
        (forall|j: int|
            0 <= j < streams.len() ==> (#[trigger] streams[j]).kind != StreamKind::Video
                || streams[j].is_attached_picture) ==> main_codec(streams) is None,
{
    if is_main_video(streams, i) {
        let k = choose|k: int| is_main_video(streams, k);
        assert(is_main_video(streams, k));
        assert(k == i);
    }
}

} // verus!
