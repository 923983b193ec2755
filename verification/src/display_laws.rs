//! What times, sizes, rates, and counts look like.

use crate::clock::{
    clock_text, counted, fine_clock_text, resolution_text, short_clock_text, size_text, whole_secs,
};
use crate::counts::{
    completion_text, failure_note, finished_note, item_position, photo_index, progress_parts,
    shown_counts, status_word, target_counts, task_counts, video_counts, TaskDisplayCounts,
};
use crate::disk::{is_done, is_folder, DiskView};
use crate::media_files::is_video_name;
use crate::model::{ContentMode, ConversionProgress, FpsPolicy, FrameRate, MediaStream};
use crate::paths::has_path;
use crate::progress::{
    basis_points, bytes_per_minute, carried_audio_text, carried_subtitles_text, channel_sum, channels_of,
    effective_rate, estimated_bytes, frame_progress_text, progress_points, progress_time_text,
    rate_policy_text, stream_at, target_rate_text, StreamCarryInfo,
};
use crate::queue::{QueueStatus, TaskView};
use crate::summary::SummaryView;
use crate::text::{decimal, padded_two};
use crate::time::Duration;
use vstd::prelude::*;

verus! {

/// Hours, minutes, and seconds stand in their places, each with two digits; hours only from one hour on.
pub proof fn law_clocks_show_hours_minutes_and_seconds(h: nat, m: nat, s: nat)
    requires
        m < 60,
        s < 60,
    ensures
        h > 0 ==> clock_text(h * 3600 + m * 60 + s) == padded_two(h) + ":"@ + (padded_two(m) + ":"@
            + padded_two(s)),
        h > 0 ==> short_clock_text(h * 3600 + m * 60 + s) == decimal(h) + ":"@ + (padded_two(m) + ":"@
            + padded_two(s)),
        clock_text(m * 60 + s) == padded_two(m) + ":"@ + padded_two(s),
        short_clock_text(m * 60 + s) == padded_two(m) + ":"@ + padded_two(s),
{
    let secs = h * 3600 + m * 60 + s;
    assert(secs / 3600 == h && secs % 3600 == m * 60 + s) by (nonlinear_arith)
        requires
            secs == h * 3600 + m * 60 + s,
            m < 60,
            s < 60,
    ;
    assert(secs % 60 == s && (m * 60 + s) / 60 == m) by (nonlinear_arith)
        requires
            secs == h * 3600 + m * 60 + s,
            m < 60,
            s < 60,
    ;
    let few = m * 60 + s;
    assert(few / 3600 == 0 && few % 3600 == few && few % 60 == s && few / 60 == m) by (nonlinear_arith)
        requires
            few == m * 60 + s,
            m < 60,
            s < 60,
    ;
}

/// A fine clock shows hours, minutes, seconds, and hundredths, and drops what is finer.
pub proof fn law_fine_clocks_show_hundredths(d: Duration, h: nat, m: nat, s: nat, c: nat, finer: nat)
    requires
        m < 60,
        s < 60,
        c < 100,
        finer < 10_000_000,
        d.nanos == ((h * 3600 + m * 60 + s) * 100 + c) * 10_000_000 + finer,
    ensures
        fine_clock_text(d) == padded_two(h) + ":"@ + padded_two(m) + ":"@ + padded_two(s) + "."@
            + padded_two(c),
{
    let secs = h * 3600 + m * 60 + s;
    let hundredths = d.nanos as nat / 1_000_000 / 10;
    assert(hundredths == secs * 100 + c) by (nonlinear_arith)
        requires
            hundredths == d.nanos as nat / 1_000_000 / 10,
            d.nanos == (secs * 100 + c) * 10_000_000 + finer,
            finer < 10_000_000,
    ;
    assert(hundredths / 100 == secs && hundredths % 100 == c) by (nonlinear_arith)
        requires
            hundredths == secs * 100 + c,
            c < 100,
    ;
    assert(secs / 3600 == h && secs % 3600 == m * 60 + s) by (nonlinear_arith)
        requires
            secs == h * 3600 + m * 60 + s,
            m < 60,
            s < 60,
    ;
    assert(secs % 60 == s && (m * 60 + s) / 60 == m) by (nonlinear_arith)
        requires
            secs == h * 3600 + m * 60 + s,
            m < 60,
            s < 60,
    ;
}

/// Whole and hundredths of mebibytes are shown as they are; an unknown size is a dash.
pub proof fn law_sizes_are_in_mebibytes(bytes: u64, whole: nat, hundredths: nat)
    requires
        hundredths < 100,
        bytes * 100 == (whole * 100 + hundredths) * 1_048_576,
    ensures
        size_text(Some(bytes)) == decimal(whole) + "."@ + padded_two(hundredths) + " MB"@,
        size_text(None) == "-"@,
{
    let n = whole * 100 + hundredths;
    assert(bytes as nat * 100 / 1_048_576 == n && bytes as nat * 100 % 1_048_576 == 0) by (nonlinear_arith)
        requires
            bytes * 100 == n * 1_048_576,
    ;
    assert(n / 100 == whole && n % 100 == hundredths) by (nonlinear_arith)
        requires
            n == whole * 100 + hundredths,
            hundredths < 100,
    ;
}

/// A resolution is the width, an `x`, and the height, and a dash where either is unknown or zero.
pub proof fn law_resolutions(w: u32, h: u32)
    ensures
        w > 0 && h > 0 ==> resolution_text(Some(w), Some(h)) == decimal(w as nat) + "x"@ + decimal(h as nat),
        resolution_text(Some(0), Some(h)) == "-"@,
        resolution_text(Some(w), Some(0)) == "-"@,
        resolution_text(None, Some(h)) == "-"@,
        resolution_text(Some(w), None) == "-"@,
        resolution_text(None, None) == "-"@,
{
}

/// One thing is named in the singular, any other number of things in the plural.
pub proof fn law_counts_are_worded(n: nat, noun: Seq<char>)
    ensures
        n == 1 ==> counted(n, noun) == decimal(1) + " "@ + noun,
        n != 1 ==> counted(n, noun) == decimal(n) + " "@ + noun + "s"@,
{
    assert(decimal(n) + " "@ + noun + Seq::<char>::empty() =~= decimal(n) + " "@ + noun);
}

/// Progress over all passes comes first; without it frames count, except while stabilizing, and then time.
pub proof fn law_progress_goes_by_passes_frames_and_time(p: ConversionProgress, mode: Option<ContentMode>)
    ensures
        p.overall matches Some(o) ==> progress_points(p, mode) == basis_points(
            o.completed as nat,
            o.total as nat,
        ),
        p.overall is None && mode != Some(ContentMode::Stabilize) ==> (p.frames matches Some(n)
            ==> (p.total_frames matches Some(total) ==> total > 0 ==> progress_points(p, mode)
            == basis_points(n as nat, total as nat))),
        p.overall is None && mode == Some(ContentMode::Stabilize) ==> (p.total matches Some(total)
            ==> progress_points(p, mode) == basis_points(p.completed.nanos as nat, total.nanos as nat)),
        p.overall is None && p.frames is None ==> (p.total matches Some(total) ==> progress_points(p, mode)
            == basis_points(p.completed.nanos as nat, total.nanos as nat)),
        p.overall is None && p.frames is None && p.total is None ==> progress_points(p, mode) is None,
{
}

/// Nothing done is no progress, half is half, and everything is all of it; nothing is known of no whole.
pub proof fn law_shares_of_a_whole(whole: nat)
    requires
        0 < whole,
        whole * 20_000 <= u128::MAX,
    ensures
        basis_points(0, whole) == Some(0u16),
        basis_points(whole, 2 * whole) == Some(5_000u16),
        basis_points(whole, whole) == Some(10_000u16),
        basis_points(whole, 0) is None,
{
    assert(0int / whole as int == 0) by (nonlinear_arith)
        requires
            whole > 0,
    ;
    assert((whole as int * 10_000) / (2 * whole) as int == 5_000) by (nonlinear_arith)
        requires
            whole > 0,
    ;
    assert((whole as int * 10_000) / whole as int == 10_000) by (nonlinear_arith)
        requires
            whole > 0,
    ;
}

/// The estimated size is to the size so far as the whole time is to the time so far, rounded down.
pub proof fn law_estimates_are_proportional(p: ConversionProgress)
    requires
        p.output_bytes is Some,
        p.total is Some,
        p.completed.nanos > 0,
        p.total->0.nanos > 0,
        p.output_bytes->0 * p.total->0.nanos <= u64::MAX * p.completed.nanos,
        p.output_bytes->0 * p.total->0.nanos <= u128::MAX,
    ensures
        estimated_bytes(p) matches Some(n) && n * p.completed.nanos <= p.output_bytes->0
            * p.total->0.nanos && p.output_bytes->0 * p.total->0.nanos < (n + 1) * p.completed.nanos,
{
    let product = p.output_bytes->0 * p.total->0.nanos;
    let by = p.completed.nanos as int;
    let n = product / by;
    assert(product >= 0) by (nonlinear_arith)
        requires
            product == p.output_bytes->0 * p.total->0.nanos,
    ;
    assert(0 <= n <= u64::MAX && n * by <= product < (n + 1) * by) by (nonlinear_arith)
        requires
            n == product / by,
            by > 0,
            product >= 0,
            product <= u64::MAX * by,
    ;
}

/// The size of one minute is to the size so far as one minute is to the time so far, rounded down.
pub proof fn law_rate_of_output(p: ConversionProgress)
    requires
        p.output_bytes is Some,
        p.completed.nanos > 0,
        p.output_bytes->0 * 60_000_000_000 <= u64::MAX * p.completed.nanos,
    ensures
        bytes_per_minute(p) matches Some(n) && n * p.completed.nanos <= p.output_bytes->0
            * 60_000_000_000 && p.output_bytes->0 * 60_000_000_000 < (n + 1) * p.completed.nanos,
{
    let product = p.output_bytes->0 * 60_000_000_000;
    let by = p.completed.nanos as int;
    let n = product / by;
    assert(0 <= n <= u64::MAX && n * by <= product < (n + 1) * by) by (nonlinear_arith)
        requires
            n == product / by,
            by > 0,
            product >= 0,
            product <= u64::MAX * by,
    ;
}

/// Without a size or a time so far nothing is estimated.
pub proof fn law_nothing_is_estimated_at_first(p: ConversionProgress)
    ensures
        p.output_bytes is None || p.completed.nanos == 0 ==> estimated_bytes(p) is None
            && bytes_per_minute(p) is None,
        p.total is None ==> estimated_bytes(p) is None,
{
}

/// The time so far stands before the slash, the whole time after it.
pub proof fn law_progress_times(p: ConversionProgress)
    ensures
        p.total matches Some(total) ==> progress_time_text(p, Some(ContentMode::PhotoSlideshow))
            == short_clock_text(whole_secs(p.completed)) + "/"@ + short_clock_text(whole_secs(total)),
        p.total matches Some(total) ==> progress_time_text(p, None) == fine_clock_text(p.completed) + "/"@
            + short_clock_text(whole_secs(total)),
        p.total is None ==> progress_time_text(p, None) == fine_clock_text(p.completed) + "/"@ + "-"@,
        p.total matches Some(total) ==> progress_time_text(p, Some(ContentMode::Tv)) == fine_clock_text(
            p.completed,
        ) + "/"@ + short_clock_text(whole_secs(total)),
{
}

/// The frames so far stand before the slash; after it stands their known number, or else the estimate.
pub proof fn law_progress_frames(p: ConversionProgress, n: u64, total: u64, estimate: u64)
    requires
        p.frames == Some(n),
    ensures
        p.total_frames == Some(total) && total > 0 ==> frame_progress_text(p, Some(estimate)) == decimal(
            n as nat,
        ) + "/"@ + decimal(total as nat),
        p.total_frames is None && estimate > 0 ==> frame_progress_text(p, Some(estimate)) == decimal(
            n as nat,
        ) + "/"@ + decimal(estimate as nat),
        p.total_frames is None ==> frame_progress_text(p, None) == decimal(n as nat) + "/"@ + "?"@,
{
}

/// Frames are estimated by the slideshow's rate, the exact rate, or that of the source; a shared rate is not
/// known beforehand.
pub proof fn law_rates_for_estimates(
    mode: ContentMode,
    exact: FrameRate,
    slideshow_rate: FrameRate,
    source_rate: Option<FrameRate>,
)
    ensures
        effective_rate(ContentMode::PhotoSlideshow, FpsPolicy::Source, slideshow_rate, source_rate) == Some(
            slideshow_rate,
        ),
        mode != ContentMode::PhotoSlideshow ==> effective_rate(
            mode,
            FpsPolicy::Source,
            slideshow_rate,
            source_rate,
        ) == source_rate,
        mode != ContentMode::PhotoSlideshow ==> effective_rate(
            mode,
            FpsPolicy::Exact(exact),
            slideshow_rate,
            source_rate,
        ) == Some(exact),
        mode != ContentMode::PhotoSlideshow ==> effective_rate(
            mode,
            FpsPolicy::SharedLowest,
            slideshow_rate,
            source_rate,
        ) is None,
{
}

/// The rate shown for the output is the reported one; without a report the policy tells.
pub proof fn law_words_for_the_rate(
    reported: Seq<char>,
    policy: FpsPolicy,
    exact: Seq<char>,
    rate: FrameRate,
    source: Option<Seq<char>>,
)
    ensures
        target_rate_text(Some(reported), policy, exact, source) == reported,
        source matches Some(text) ==> target_rate_text(None, FpsPolicy::Source, exact, source) == text,
        target_rate_text(None, FpsPolicy::Source, exact, None) == "Original"@,
        target_rate_text(None, FpsPolicy::Exact(rate), exact, source) == exact,
        target_rate_text(None, FpsPolicy::SharedLowest, exact, source) == "Shared lowest in folder"@,
        target_rate_text(None, policy, exact, None) == rate_policy_text(policy, exact),
{
}

/// Audio is worded by its tracks and channels, subtitles by their tracks.
pub proof fn law_words_for_carried_streams(info: StreamCarryInfo)
    ensures
        carried_audio_text(None) == "-"@,
        carried_subtitles_text(None) == "-"@,
        carried_subtitles_text(Some(info)) == counted(info.subtitle_tracks as nat, "track"@),
        info.audio_tracks == 0 ==> carried_audio_text(Some(info)) == counted(0, "track"@),
        info.audio_tracks > 0 ==> (info.audio_channels matches Some(n) ==> carried_audio_text(Some(info))
            == counted(info.audio_tracks as nat, "track"@) + ", "@ + decimal(n as nat) + " ch"@),
        info.audio_tracks > 0 && info.audio_channels is None ==> carried_audio_text(Some(info)) == counted(
            info.audio_tracks as nat,
            "track"@,
        ) + ", ? ch"@,
{
}

/// The channels of a carried stream are those of the first stream of the source with its index, and the
/// channels of several add up.
pub proof fn law_channels_add_up(
    streams: Seq<MediaStream>,
    carried: Seq<MediaStream>,
    s: MediaStream,
    i: int,
)
    requires
        0 <= i < streams.len(),
        streams[i].index == s.index,
        forall|j: int| 0 <= j < i ==> (#[trigger] streams[j]).index != s.index,
    ensures
        channels_of(streams, s.index) == streams[i].channels,
        channel_sum(streams, Seq::empty()) == Some(0u32),
        streams[i].channels is None ==> channel_sum(streams, carried.push(s)) is None,
        channel_sum(streams, carried) is None ==> channel_sum(streams, carried.push(s)) is None,
        channel_sum(streams, carried) matches Some(a) ==> (streams[i].channels matches Some(b) ==> a + b
            <= u32::MAX ==> channel_sum(streams, carried.push(s)) == Some((a + b) as u32)),
{
    assert(stream_at(streams, s.index, i));
    let k = choose|k: int| stream_at(streams, s.index, k);
    assert(stream_at(streams, s.index, k));
    assert(k == i);
    assert(carried.push(s).drop_last() =~= carried);
    assert(carried.push(s).last() == s);
}

/// The words for the state of a task.
pub proof fn law_words_for_tasks(has_error: bool)
    ensures
        status_word(QueueStatus::Pending, has_error) == "Ready"@,
        status_word(QueueStatus::Running, has_error) == "Converting"@,
        status_word(QueueStatus::Paused, has_error) == "Paused"@,
        status_word(QueueStatus::Completed, true) == "Finished with issues"@,
        status_word(QueueStatus::Completed, false) == "Finished"@,
        status_word(QueueStatus::Failed, has_error) == "Needs attention"@,
        status_word(QueueStatus::Cancelled, has_error) == "Stopped"@,
{
}

/// A bar divides into what was converted before the run, what was converted in it, and the rest.
pub proof fn law_bars_divide_the_files(counts: TaskDisplayCounts, before: usize)
    requires
        before <= counts.converted,
        counts.converted <= counts.files,
        0 < counts.files,
    ensures
        progress_parts(counts, Some(before)).total == counts.files,
        progress_parts(counts, Some(before)).completed_before == before,
        progress_parts(counts, Some(before)).completed_this_run == counts.converted - before,
        progress_parts(counts, None).completed_before == counts.converted,
        progress_parts(counts, None).completed_this_run == 0,
        progress_parts(counts, None).counts_current <==> counts.converted < counts.files,
{
}

/// Whatever the counts are, the parts of a bar do not exceed it.
pub proof fn law_bars_are_not_exceeded(counts: TaskDisplayCounts, before: Option<usize>)
    ensures
        progress_parts(counts, before).completed_before + progress_parts(counts, before).completed_this_run
            <= progress_parts(counts, before).total,
        progress_parts(counts, before).total == counts.files,
{
}

/// The item at work is the one after those that are done, converted or failed.
pub proof fn law_item_at_work(t: TaskView, counts: TaskDisplayCounts, progress: Option<ConversionProgress>)
    requires
        t.settings.mode != ContentMode::PhotoSlideshow,
        counts.converted + counts.failed < usize::MAX,
    ensures
        counts.files == 0 ==> item_position(t, counts, progress) is None,
        counts.converted + counts.failed < counts.files ==> item_position(t, counts, progress) == Some(
            ((counts.converted + counts.failed + 1) as usize, counts.files),
        ),
        0 < counts.files <= counts.converted + counts.failed ==> item_position(t, counts, progress) == Some(
            (counts.files, counts.files),
        ),
{
}

/// A slideshow is at its first photo at the start and at its last at the end, and never goes back.
pub proof fn law_photo_at_work(total: nat, earlier: nat, later: nat, duration: nat)
    requires
        0 < total,
        0 < duration,
        earlier <= later,
        duration * total <= u128::MAX,
    ensures
        photo_index(total, 0, duration) == 1,
        photo_index(total, duration, duration) == total,
        1 <= photo_index(total, earlier, duration) <= photo_index(total, later, duration) <= total,
{
    let d = duration as int;
    let t = total as int;
    let a = crate::time::smaller(earlier as int, d);
    let b = crate::time::smaller(later as int, d);
    assert(0 <= a * t <= b * t <= d * t) by (nonlinear_arith)
        requires
            0 <= a <= b <= d,
            t > 0,
    ;
    assert(0 <= (a * t) / d <= (b * t) / d) by (nonlinear_arith)
        requires
            0 <= a * t <= b * t,
            d > 0,
    ;
    assert(0int * t == 0 && 0int / d == 0) by (nonlinear_arith)
        requires
            d > 0,
    ;
    assert((d * t) / d == t) by (nonlinear_arith)
        requires
            d > 0,
    ;
    assert(d * t == duration * total);
}

/// A task counts each target: a video among its targets as one file, anything else that is no folder as none.
pub proof fn law_each_video_counts_once(
    d: DiskView,
    t: TaskView,
    summaries: Seq<SummaryView>,
    failed: Seq<Seq<char>>,
    p: Seq<char>,
)
    requires
        !is_folder(d, p),
    ensures
        ({
            let c = target_counts(d, t, summaries, failed, p);
            &&& is_video_name(p) ==> c.remaining + c.converted + c.failed == 1
            &&& !is_video_name(p) ==> c.remaining + c.converted + c.failed == 0
            &&& c.folders == 0
            &&& is_video_name(p) && has_path(failed, p) ==> c.failed == 1
            &&& is_video_name(p) && !has_path(failed, p) && has_path(t.skipped_paths, p) ==> c.converted == 1
            &&& is_video_name(p) && !has_path(failed, p) && !has_path(t.skipped_paths, p) ==> match t.status {
                QueueStatus::Completed => c.converted == 1,
                QueueStatus::Failed => c.failed == 1,
                QueueStatus::Cancelled => c.failed == 1,
                _ => if is_done(d, p, t.settings.mode) {
                    c.converted == 1
                } else {
                    c.remaining == 1
                },
            }
        }),
{
}

/// The counts of targets add up.
pub proof fn law_counts_of_targets_add_up(
    d: DiskView,
    t: TaskView,
    summaries: Seq<SummaryView>,
    failed: Seq<Seq<char>>,
    a: Seq<Seq<char>>,
    b: Seq<Seq<char>>,
)
    ensures
        ({
            let x = video_counts(d, t, summaries, failed, a);
            let y = video_counts(d, t, summaries, failed, b);
            let z = video_counts(d, t, summaries, failed, a + b);
            &&& z.targets == x.targets + y.targets
            &&& z.folders == x.folders + y.folders
            &&& z.remaining == x.remaining + y.remaining
            &&& z.converted == x.converted + y.converted
            &&& z.failed == x.failed + y.failed
            &&& x.targets == a.len()
        }),
    decreases b.len(), a.len(),
{
    if b.len() == 0 {
        assert(a + b =~= a);
        if a.len() > 0 {
            law_counts_of_targets_add_up(d, t, summaries, failed, a.drop_last(), b);
        }
    } else {
        law_counts_of_targets_add_up(d, t, summaries, failed, a, b.drop_last());
        assert((a + b).drop_last() =~= a + b.drop_last());
        assert((a + b).last() == b.last());
    }
}

/// A slideshow task counts as one file where there are two photos: converted once the task is completed.
pub proof fn law_slideshow_counts_as_one(
    d: DiskView,
    t: TaskView,
    summaries: Seq<SummaryView>,
    failed: Seq<Seq<char>>,
)
    requires
        t.settings.mode == ContentMode::PhotoSlideshow,
        t.settings.slideshow_image_paths.len() >= 2,
        t.targets.len() <= usize::MAX,
    ensures
        ({
            let c = shown_counts(task_counts(d, t, summaries, failed));
            &&& c.files == 1 && c.failed == 0 && c.targets == t.targets.len()
            &&& t.status == QueueStatus::Completed ==> c.converted == 1 && c.remaining == 0
            &&& t.status != QueueStatus::Completed ==> c.converted == 0 && c.remaining == 1
        }),
{
}

/// What is said of failures, and at the end of the queue.
pub proof fn law_words_for_the_end(this_run: nat, previous: nat, failed: nat, remaining: nat)
    ensures
        failure_note(0) is None,
        failed > 0 ==> failure_note(failed) == Some(
            counted(failed, "file"@) + " failed in this run; conversion is continuing"@,
        ),
        finished_note(failed) == decimal(failed) + " file(s) failed"@,
        completion_text(this_run, previous, failed, remaining) == "Queue complete — "@ + decimal(this_run)
            + " completed this run, "@ + decimal(previous) + " already complete, "@ + decimal(failed)
            + " failed, "@ + decimal(remaining) + " remaining"@,
{
}

} // verus!
