//! The progress of a running conversion as numbers and text.

use crate::clock::{
    counted, counted_text, fine_clock_text, format_clock, format_ffmpeg_progress_clock,
    short_clock_text, whole_secs,
};
use crate::model::{
    Container, ContentMode, ConversionProgress, FpsPolicy, FrameRate, MediaInfo, MediaStream,
    StreamKind,
};
use crate::output_naming::text_or;
use crate::stream_policy::{build_stream_plan, is_audio_plan, is_carried, PlanContext};
use crate::text::{concat2, concat3, decimal, decimal_text};
use crate::time::{smaller, Duration, MAX_NANOS};
use vstd::prelude::*;

verus! {

/// The share of a whole in hundredths of a percent.
pub open spec fn basis_points(part: nat, whole: nat) -> Option<u16> {
    if whole == 0 {
        None
    } else {
        Some(
            (smaller(smaller(part as int, whole as int) * 10_000, u128::MAX as int)
                / whole as int) as u16,
        )
    }
}

pub fn ratio_fraction(part: u128, whole: u128) -> (r: Option<u16>)
    ensures
        r == basis_points(part as nat, whole as nat),
        r matches Some(points) ==> points <= 10_000,
        whole > 0 && part == 0 ==> r == Some(0u16),
{
    if whole == 0 {
        return None;
    }
    let limit: u128 = 340_282_366_920_938_463_463_374_607_431_768_211_455;
    let done: u128 = if part <= whole {
        part
    } else {
        whole
    };
    let scaled: u128 = if done > limit / 10_000 {
        limit
    } else {
        done * 10_000
    };
    let points: u128 = scaled / whole;
    proof {
        assert(points <= 10_000) by (nonlinear_arith)
            requires
                points == scaled / whole,
                scaled <= done * 10_000,
                done <= whole,
                whole > 0,
        ;
        if part == 0 {
            assert(0int / whole as int == 0) by (nonlinear_arith)
                requires
                    whole > 0,
            ;
        }
    }
    Some(points as u16)
}

/// How far a conversion has come: over all passes where that is known, else by frames, except for
/// stabilization, whose passes each count frames anew, and else by time.
pub open spec fn progress_points(p: ConversionProgress, mode: Option<ContentMode>) -> Option<u16> {
    if p.overall is Some {
        basis_points(p.overall->0.completed as nat, p.overall->0.total as nat)
    } else if mode != Some(ContentMode::Stabilize) && p.frames is Some && p.total_frames is Some
        && p.total_frames->0 > 0 {
        basis_points(p.frames->0 as nat, p.total_frames->0 as nat)
    } else if p.total is Some {
        basis_points(p.completed.nanos as nat, p.total->0.nanos as nat)
    } else {
        None
    }
}

pub fn progress_fraction(p: &ConversionProgress, mode: Option<ContentMode>) -> (r: Option<u16>)
    ensures
        r == progress_points(*p, mode),
        r matches Some(points) ==> points <= 10_000,
{
    if let Some(overall) = p.overall {
        return ratio_fraction(overall.completed, overall.total);
    }
    let stabilizing = match mode {
        Some(mode) => mode == ContentMode::Stabilize,
        None => false,
    };
    if !stabilizing {
        if let (Some(frames), Some(total)) = (p.frames, p.total_frames) {
            if total > 0 {
                return ratio_fraction(frames as u128, total as u128);
            }
        }
    }
    match p.total {
        Some(total) => ratio_fraction(p.completed.nanos, total.nanos),
        None => None,
    }
}

/// Progress never falls while the part grows, and is complete exactly with the whole.
pub proof fn law_progress_is_monotone(a: nat, b: nat, whole: nat)
    requires
        a <= b,
        0 < whole,
        whole * 10_000 <= u128::MAX,
    ensures
        basis_points(a, whole)->0 <= basis_points(b, whole)->0,
        b >= whole <==> basis_points(b, whole)->0 == 10_000,
{
    let x = smaller(a as int, whole as int);
    let y = smaller(b as int, whole as int);
    assert(x * 10_000 <= whole * 10_000);
    assert(y * 10_000 <= whole * 10_000);
    assert(x * 10_000 / whole as int <= y * 10_000 / whole as int) by (nonlinear_arith)
        requires
            0 <= x <= y,
            whole > 0,
    ;
    assert(0 <= x * 10_000 / whole as int) by (nonlinear_arith)
        requires
            0 <= x,
            whole > 0,
    ;
    assert(y * 10_000 / whole as int <= 10_000) by (nonlinear_arith)
        requires
            0 <= y <= whole,
            whole > 0,
    ;
    if b >= whole {
        assert((whole as int) * 10_000 / (whole as int) == 10_000) by (nonlinear_arith)
            requires
                whole > 0,
        ;
    } else {
        assert(y * 10_000 / whole as int <= 9_999) by (nonlinear_arith)
            requires
                0 <= y < whole,
                whole > 0,
        ;
    }
}

/// A product divided by a positive number, with the product and the quotient capped.
pub open spec fn scaled_bytes(bytes: nat, times: nat, by: nat) -> u64 {
    smaller(smaller((bytes * times) as int, u128::MAX as int) / by as int, u64::MAX as int) as u64
}

fn scale_bytes(bytes: u64, times: u128, by: u128) -> (r: u64)
    requires
        by > 0,
    ensures
        r == scaled_bytes(bytes as nat, times as nat, by as nat),
{
    let limit: u128 = 340_282_366_920_938_463_463_374_607_431_768_211_455;
    let b: u128 = bytes as u128;
    let product: u128 = if b == 0 {
        0
    } else if times > limit / b {
        assert(b * times > limit) by (nonlinear_arith)
            requires
                times > limit / b,
                b > 0,
        ;
        limit
    } else {
        assert(b * times <= limit) by (nonlinear_arith)
            requires
                times <= limit / b,
                b > 0,
        ;
        b * times
    };
    let quotient: u128 = product / by;
    if quotient > 18_446_744_073_709_551_615 {
        18_446_744_073_709_551_615
    } else {
        quotient as u64
    }
}

/// The size of the whole output at the rate so far.
pub open spec fn estimated_bytes(p: ConversionProgress) -> Option<u64> {
    if p.output_bytes is Some && p.total is Some && p.completed.nanos > 0 && p.total->0.nanos > 0 {
        Some(
            scaled_bytes(
                p.output_bytes->0 as nat,
                p.total->0.nanos as nat,
                p.completed.nanos as nat,
            ),
        )
    } else {
        None
    }
}

pub fn estimated_output_bytes(p: &ConversionProgress) -> (r: Option<u64>)
    ensures
        r == estimated_bytes(*p),
{
    match (p.output_bytes, p.total) {
        (Some(bytes), Some(total)) => {
            if p.completed.nanos == 0 || total.nanos == 0 {
                None
            } else {
                Some(scale_bytes(bytes, total.nanos, p.completed.nanos))
            }
        },
        _ => None,
    }
}

/// The output for one minute at the rate so far.
pub open spec fn bytes_per_minute(p: ConversionProgress) -> Option<u64> {
    if p.output_bytes is Some && p.completed.nanos > 0 {
        Some(
            scaled_bytes(
                p.output_bytes->0 as nat,
                60_000_000_000,
                p.completed.nanos as nat,
            ),
        )
    } else {
        None
    }
}

pub fn output_bytes_per_minute(p: &ConversionProgress) -> (r: Option<u64>)
    ensures
        r == bytes_per_minute(*p),
{
    match p.output_bytes {
        Some(bytes) => {
            if p.completed.nanos == 0 {
                None
            } else {
                Some(scale_bytes(bytes, 60_000_000_000, p.completed.nanos))
            }
        },
        None => None,
    }
}

/// A playing time, or a dash for an unknown one.
pub open spec fn clock_or_dash(d: Option<Duration>) -> Seq<char> {
    match d {
        Some(d) => short_clock_text(whole_secs(d)),
        None => "-"@,
    }
}

pub fn format_clock_or_dash(d: Option<Duration>) -> (r: String)
    ensures
        r@ == clock_or_dash(d),
{
    match d {
        Some(d) => format_clock(d),
        None => "-".to_owned(),
    }
}

/// The time converted and the whole time.
pub open spec fn progress_time_text(p: ConversionProgress, mode: Option<ContentMode>) -> Seq<char> {
    (if mode == Some(ContentMode::PhotoSlideshow) {
        short_clock_text(whole_secs(p.completed))
    } else {
        fine_clock_text(p.completed)
    }) + "/"@ + clock_or_dash(p.total)
}

pub fn format_progress_time(p: &ConversionProgress, mode: Option<ContentMode>) -> (r: String)
    ensures
        r@ == progress_time_text(*p, mode),
{
    let slideshow = match mode {
        Some(mode) => mode == ContentMode::PhotoSlideshow,
        None => false,
    };
    let completed = if slideshow {
        format_clock(p.completed)
    } else {
        format_ffmpeg_progress_clock(p.completed)
    };
    let total = format_clock_or_dash(p.total);
    concat3(completed.as_str(), "/", total.as_str())
}

/// The rate by which the number of frames is estimated.
pub open spec fn effective_rate(
    mode: ContentMode,
    fps: FpsPolicy,
    slideshow_rate: FrameRate,
    source_rate: Option<FrameRate>,
) -> Option<FrameRate> {
    if mode == ContentMode::PhotoSlideshow {
        Some(slideshow_rate)
    } else {
        match fps {
            FpsPolicy::Source => source_rate,
            FpsPolicy::Exact(rate) => Some(rate),
            FpsPolicy::SharedLowest => None,
        }
    }
}

pub fn effective_frame_rate(
    mode: ContentMode,
    fps: FpsPolicy,
    slideshow_rate: FrameRate,
    source_rate: Option<FrameRate>,
) -> (r: Option<FrameRate>)
    ensures
        r == effective_rate(mode, fps, slideshow_rate, source_rate),
{
    if mode == ContentMode::PhotoSlideshow {
        return Some(slideshow_rate);
    }
    match fps {
        FpsPolicy::Source => source_rate,
        FpsPolicy::Exact(rate) => Some(rate),
        FpsPolicy::SharedLowest => None,
    }
}

/// The frames converted and all frames: their known number, or else the estimate.
pub open spec fn frame_progress_text(p: ConversionProgress, estimate: Option<u64>) -> Seq<char> {
    match p.frames {
        None => "-"@,
        Some(current) => decimal(current as nat) + "/"@ + if p.total_frames is Some
            && p.total_frames->0 > 0 {
            decimal(p.total_frames->0 as nat)
        } else if estimate is Some && estimate->0 > 0 {
            decimal(estimate->0 as nat)
        } else {
            "?"@
        },
    }
}

/// The frames converted and all frames. `estimate` is the playing time at the effective rate.
pub fn format_frame_progress(p: &ConversionProgress, estimate: Option<u64>) -> (r: String)
    ensures
        r@ == frame_progress_text(*p, estimate),
{
    let current: u64 = match p.frames {
        Some(current) => current,
        None => {
            return "-".to_owned();
        },
    };
    let head = decimal_text(current as u128);
    if let Some(total) = p.total_frames {
        if total > 0 {
            return concat3(head.as_str(), "/", decimal_text(total as u128).as_str());
        }
    }
    if let Some(total) = estimate {
        if total > 0 {
            return concat3(head.as_str(), "/", decimal_text(total as u128).as_str());
        }
    }
    concat3(head.as_str(), "/", "?")
}

/// The audio and subtitles that go into the output.
#[derive(Debug, Clone, Copy, PartialEq, Eq, Structural)]
pub struct StreamCarryInfo {
    pub audio_tracks: usize,
    pub audio_channels: Option<u32>,
    pub subtitle_tracks: usize,
}

/// The first stream with an index stands at `i`.
pub open spec fn stream_at(streams: Seq<MediaStream>, index: usize, i: int) -> bool {
    &&& 0 <= i < streams.len()
    &&& streams[i].index == index
    &&& forall|j: int| 0 <= j < i ==> (#[trigger] streams[j]).index != index
}

pub open spec fn channels_of(streams: Seq<MediaStream>, index: usize) -> Option<u32> {
    if exists|i: int| stream_at(streams, index, i) {
        streams[choose|i: int| stream_at(streams, index, i)].channels
    } else {
        None
    }
}

/// The channels of streams together, where all are known and the sum fits in 32 bits.
pub open spec fn channel_sum(streams: Seq<MediaStream>, carried: Seq<MediaStream>) -> Option<u32>
    decreases carried.len(),
{
    if carried.len() == 0 {
        Some(0)
    } else {
        match (
            channel_sum(streams, carried.drop_last()),
            channels_of(streams, carried.last().index),
        ) {
            (Some(total), Some(n)) => if total + n <= u32::MAX {
                Some((total + n) as u32)
            } else {
                None
            },
            _ => None,
        }
    }
}

/// The tracks that are carried do not depend on the container.
pub open spec fn carry_context(info: MediaInfo) -> PlanContext {
    PlanContext {
        container: Container::Matroska,
        source_duration: info.duration,
        tolerance: Duration { nanos: 2_000_000_000 },
    }
}

fn find_channels(streams: &Vec<MediaStream>, index: usize) -> (r: Option<u32>)
    ensures
        r == channels_of(streams@, index),
{
    let mut i: usize = 0;
    while i < streams.len()
        invariant
            i <= streams@.len(),
            forall|j: int| 0 <= j < i ==> (#[trigger] streams@[j]).index != index,
        decreases streams@.len() - i,
    {
        if streams[i].index == index {
            proof {
                assert(stream_at(streams@, index, i as int));
                let k = choose|k: int| stream_at(streams@, index, k);
                assert(stream_at(streams@, index, k));
                assert(k == i);
            }
            return streams[i].channels;
        }
        i = i + 1;
    }
    None
}

impl StreamCarryInfo {
    pub fn from_media(info: &MediaInfo) -> (r: StreamCarryInfo)
        ensures
            ({
                let cx = carry_context(*info);
                let audio = info.streams@.filter(is_carried(StreamKind::Audio, cx));
                let subtitles = info.streams@.filter(is_carried(StreamKind::Subtitle, cx));
                &&& r.audio_tracks == audio.len()
                &&& r.audio_channels == channel_sum(info.streams@, audio)
                &&& r.subtitle_tracks == subtitles.len()
            }),
    {
        let plan = build_stream_plan(info, Container::Matroska);
        let ghost cx = carry_context(*info);
        let ghost audio = info.streams@.filter(is_carried(StreamKind::Audio, cx));
        let mut total: Option<u32> = Some(0);
        let mut i: usize = 0;
        assert(audio.take(0) =~= Seq::<MediaStream>::empty());
        while i < plan.audio.len()
            invariant
                i <= plan.audio@.len(),
                plan.audio@.len() == audio.len(),
                is_audio_plan(plan.audio@, info.streams@, cx),
                audio == info.streams@.filter(is_carried(StreamKind::Audio, cx)),
                total == channel_sum(info.streams@, audio.take(i as int)),
            decreases plan.audio@.len() - i,
        {
            assert(audio.take(i + 1).drop_last() =~= audio.take(i as int));
            assert(audio.take(i + 1).last() == audio[i as int]);
            assert(plan.audio@[i as int].input_index == audio[i as int].index);
            let found = find_channels(&info.streams, plan.audio[i].input_index);
            total = match (total, found) {
                (Some(sum), Some(n)) => {
                    if n <= 4_294_967_295 - sum {
                        Some(sum + n)
                    } else {
                        None
                    }
                },
                _ => None,
            };
            i = i + 1;
        }
        assert(audio.take(i as int) =~= audio);
        StreamCarryInfo {
            audio_tracks: plan.audio.len(),
            audio_channels: total,
            subtitle_tracks: plan.subtitles.len(),
        }
    }
}

impl Default for StreamCarryInfo {
    fn default() -> (r: Self)
        ensures
            r.audio_tracks == 0,
            r.audio_channels is None,
            r.subtitle_tracks == 0,
    {
        StreamCarryInfo { audio_tracks: 0, audio_channels: None, subtitle_tracks: 0 }
    }
}

pub open spec fn carried_audio_text(info: Option<StreamCarryInfo>) -> Seq<char> {
    match info {
        None => "-"@,
        Some(info) => {
            let tracks = counted(info.audio_tracks as nat, "track"@);
            if info.audio_tracks == 0 {
                tracks
            } else {
                match info.audio_channels {
                    Some(n) => tracks + ", "@ + decimal(n as nat) + " ch"@,
                    None => tracks + ", ? ch"@,
                }
            }
        },
    }
}

pub fn format_carried_audio(info: Option<StreamCarryInfo>) -> (r: String)
    ensures
        r@ == carried_audio_text(info),
{
    match info {
        None => "-".to_owned(),
        Some(info) => {
            let tracks = counted_text(info.audio_tracks, "track");
            if info.audio_tracks == 0 {
                return tracks;
            }
            match info.audio_channels {
                Some(n) => {
                    let mut r = concat3(tracks.as_str(), ", ", decimal_text(n as u128).as_str());
                    r.append(" ch");
                    r
                },
                None => concat2(tracks.as_str(), ", ? ch"),
            }
        },
    }
}

pub open spec fn carried_subtitles_text(info: Option<StreamCarryInfo>) -> Seq<char> {
    match info {
        None => "-"@,
        Some(info) => counted(info.subtitle_tracks as nat, "track"@),
    }
}

pub fn format_carried_subtitles(info: Option<StreamCarryInfo>) -> (r: String)
    ensures
        r@ == carried_subtitles_text(info),
{
    match info {
        None => "-".to_owned(),
        Some(info) => counted_text(info.subtitle_tracks, "track"),
    }
}

/// The rate that the output gets: the one that the engine reports, or what the policy says.
///
/// The texts of the three rates come from the front end.
pub open spec fn target_rate_text(
    reported: Option<Seq<char>>,
    policy: FpsPolicy,
    exact: Seq<char>,
    source: Option<Seq<char>>,
) -> Seq<char> {
    match reported {
        Some(text) => text,
        None => match policy {
            FpsPolicy::Source => match source {
                Some(text) => text,
                None => "Original"@,
            },
            FpsPolicy::Exact(_) => exact,
            FpsPolicy::SharedLowest => "Shared lowest in folder"@,
        },
    }
}

/// What is said of the frame rate that a task asks for; `exact` words a rate of its own.
pub open spec fn rate_policy_text(policy: FpsPolicy, exact: Seq<char>) -> Seq<char> {
    match policy {
        FpsPolicy::SharedLowest => "Shared lowest in folder"@,
        FpsPolicy::Source => "Original"@,
        FpsPolicy::Exact(_) => exact,
    }
}

pub fn fps_policy_status(policy: FpsPolicy, exact: &str) -> (r: String)
    ensures
        r@ == rate_policy_text(policy, exact@),
{
    match policy {
        FpsPolicy::SharedLowest => "Shared lowest in folder".to_owned(),
        FpsPolicy::Source => "Original".to_owned(),
        FpsPolicy::Exact(_) => exact.to_owned(),
    }
}

/// The frame rate of the output: the one that the engine reports, or else what the task asks for.
pub fn target_fps_status(reported: Option<&str>, policy: FpsPolicy, exact: &str) -> (r: String)
    ensures
        r@ == text_or(crate::targets::opt_slice(reported), rate_policy_text(policy, exact@)),
{
    match reported {
        Some(text) => text.to_owned(),
        None => fps_policy_status(policy, exact),
    }
}

pub fn target_fps_status_with_source(
    reported: Option<&str>,
    policy: FpsPolicy,
    exact: &str,
    source: Option<&str>,
) -> (r: String)
    ensures
        r@ == target_rate_text(
            crate::targets::opt_slice(reported),
            policy,
            exact@,
            crate::targets::opt_slice(source),
        ),
{
    if let Some(text) = reported {
        return text.to_owned();
    }
    match policy {
        FpsPolicy::Source => match source {
            Some(text) => text.to_owned(),
            None => "Original".to_owned(),
        },
        FpsPolicy::Exact(_) => exact.to_owned(),
        FpsPolicy::SharedLowest => "Shared lowest in folder".to_owned(),
    }
}

/// Whether the system is kept awake: while a conversion runs and is not paused, if at all.
pub fn should_inhibit_sleep(enabled: bool, worker_active: bool, paused: bool) -> (r: bool)
    ensures
        r == (enabled && worker_active && !paused),
{
    enabled && worker_active && !paused
}

/// The time that a conversion has worked: without its earlier pauses and the one that it is in.
pub fn active_elapsed(elapsed: Duration, paused: Duration, current_pause: Option<Duration>) -> (r:
    Duration)
    ensures
        ({
            let pauses = smaller(
                paused.nanos + match current_pause {
                    Some(p) => p.nanos as int,
                    None => 0,
                },
                MAX_NANOS as int,
            );
            r.nanos == if elapsed.nanos >= pauses {
                elapsed.nanos - pauses
            } else {
                0
            }
        }),
{
    let current = match current_pause {
        Some(p) => p,
        None => Duration::zero(),
    };
    elapsed.saturating_sub(paused.saturating_add(current))
}

} // verus!
