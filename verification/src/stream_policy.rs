//! Which streams of a source go into the output, and how.

use crate::model::{Container, MediaInfo, MediaStream, StreamKind};
use crate::text::{ascii_lower, eq_ignoring_ascii_case, opt_text};
use crate::time::{smaller, Duration, MAX_NANOS};
use vstd::prelude::*;

verus! {

#[derive(Debug, Clone, Copy, PartialEq, Eq, Structural)]
pub enum AudioStreamAction {
    Copy,
    TranscodeAc3 { bit_rate: u64 },
}

#[derive(Debug, Clone, Copy, PartialEq, Eq, Structural)]
pub struct PlannedAudioStream {
    pub input_index: usize,
    pub output_ordinal: usize,
    pub action: AudioStreamAction,
}

#[derive(Debug, Clone, Copy, PartialEq, Eq, Structural)]
pub enum SubtitleStreamAction {
    Copy,
    TranscodeSrt,
    TranscodeMovText,
}

#[derive(Debug, Clone, Copy, PartialEq, Eq, Structural)]
pub struct PlannedSubtitleStream {
    pub input_index: usize,
    pub output_ordinal: usize,
    pub action: SubtitleStreamAction,
}

#[derive(Debug, Clone, Copy, PartialEq, Eq, Structural)]
pub enum StreamSkipReason {
    UnknownCodec,
    SparseSubtitle { frame_count: u64, duration: Duration },
}

#[derive(Debug, Clone, Copy, PartialEq, Eq, Structural)]
pub struct SkippedStream {
    pub input_index: usize,
    pub kind: StreamKind,
    pub reason: StreamSkipReason,
}

/// What happens to each stream of a source.
#[derive(Debug, PartialEq, Eq)]
pub struct StreamPlan {
    pub video_input_index: Option<usize>,
    pub audio: Vec<PlannedAudioStream>,
    pub subtitles: Vec<PlannedSubtitleStream>,
    pub attachments: Vec<usize>,
    pub skipped: Vec<SkippedStream>,
}

impl Default for StreamPlan {
    fn default() -> (r: Self)
        ensures
            r.video_input_index is None,
            r.audio@ == Seq::<PlannedAudioStream>::empty(),
            r.subtitles@ == Seq::<PlannedSubtitleStream>::empty(),
            r.attachments@ == Seq::<usize>::empty(),
            r.skipped@ == Seq::<SkippedStream>::empty(),
    {
        StreamPlan {
            video_input_index: None,
            audio: Vec::new(),
            subtitles: Vec::new(),
            attachments: Vec::new(),
            skipped: Vec::new(),
        }
    }
}

/// What the plan of a stream depends on besides the stream.
pub struct PlanContext {
    pub container: Container,
    pub source_duration: Option<Duration>,
    pub tolerance: Duration,
}

/// The codec of a stream, unless its name is missing, `unknown`, or `none` in any case.
pub open spec fn valid_codec(s: MediaStream) -> Option<Seq<char>> {
    match opt_text(s.codec_name) {
        Some(name) => if name.len() == 0 || ascii_lower(name) == ascii_lower("unknown"@)
            || ascii_lower(name) == ascii_lower("none"@) {
            None
        } else {
            Some(name)
        },
        None => None,
    }
}

/// A subtitle of at most one frame that ends more than the tolerance before the source does.
pub open spec fn is_sparse(s: MediaStream, cx: PlanContext) -> bool {
    match (s.frame_count, s.duration, cx.source_duration) {
        (Some(frames), Some(duration), Some(total)) => frames <= 1 && smaller(
            duration.nanos + cx.tolerance.nanos,
            MAX_NANOS as int,
        ) < total.nanos,
        _ => false,
    }
}

/// Why a stream is skipped, if it is.
pub open spec fn skip_reason(s: MediaStream, cx: PlanContext) -> Option<StreamSkipReason> {
    if s.kind != StreamKind::Audio && s.kind != StreamKind::Subtitle {
        None
    } else if valid_codec(s) is None {
        Some(StreamSkipReason::UnknownCodec)
    } else if s.kind == StreamKind::Subtitle && is_sparse(s, cx) {
        Some(
            StreamSkipReason::SparseSubtitle {
                frame_count: s.frame_count->0,
                duration: s.duration->0,
            },
        )
    } else {
        None
    }
}

/// DTS audio is re-encoded for Matroska; any other audio is copied.
pub open spec fn audio_action(s: MediaStream, cx: PlanContext) -> AudioStreamAction {
    if cx.container == Container::Matroska && ascii_lower(valid_codec(s)->0) == ascii_lower(
        "dts"@,
    ) {
        AudioStreamAction::TranscodeAc3 { bit_rate: 640_000 }
    } else {
        AudioStreamAction::Copy
    }
}

/// A text subtitle codec that MP4 cannot hold as it is.
pub open spec fn is_mp4_foreign_text(codec: Seq<char>) -> bool {
    let c = ascii_lower(codec);
    c == ascii_lower("subrip"@) || c == ascii_lower("srt"@) || c == ascii_lower("ass"@) || c
        == ascii_lower("ssa"@) || c == ascii_lower("webvtt"@)
}

pub open spec fn subtitle_action(s: MediaStream, cx: PlanContext) -> SubtitleStreamAction {
    let codec = valid_codec(s)->0;
    match cx.container {
        Container::Matroska => if ascii_lower(codec) == ascii_lower("mov_text"@) {
            SubtitleStreamAction::TranscodeSrt
        } else {
            SubtitleStreamAction::Copy
        },
        Container::Mp4 => if is_mp4_foreign_text(codec) {
            SubtitleStreamAction::TranscodeMovText
        } else {
            SubtitleStreamAction::Copy
        },
    }
}

/// The audio or subtitle streams that are carried.
pub open spec fn is_carried(kind: StreamKind, cx: PlanContext) -> spec_fn(MediaStream) -> bool {
    |s: MediaStream| s.kind == kind && skip_reason(s, cx) is None
}

pub open spec fn skip_entry(cx: PlanContext) -> spec_fn(MediaStream) -> Option<SkippedStream> {
    |s: MediaStream|
        match skip_reason(s, cx) {
            Some(reason) => Some(SkippedStream { input_index: s.index, kind: s.kind, reason }),
            None => None,
        }
}

pub open spec fn attachment_entry(cx: PlanContext) -> spec_fn(MediaStream) -> Option<usize> {
    |s: MediaStream|
        if s.kind == StreamKind::Attachment && cx.container == Container::Matroska {
            Some(s.index)
        } else {
            None
        }
}

/// The first video stream that is not cover art.
pub open spec fn is_main_video(streams: Seq<MediaStream>, i: int) -> bool {
    &&& 0 <= i < streams.len()
    &&& streams[i].kind == StreamKind::Video && !streams[i].is_attached_picture
    &&& forall|j: int|
        0 <= j < i ==> !((#[trigger] streams[j]).kind == StreamKind::Video
            && !streams[j].is_attached_picture)
}

pub open spec fn is_audio_plan(
    plan: Seq<PlannedAudioStream>,
    streams: Seq<MediaStream>,
    cx: PlanContext,
) -> bool {
    let carried = streams.filter(is_carried(StreamKind::Audio, cx));
    &&& plan.len() == carried.len()
    &&& forall|i: int|
        0 <= i < plan.len() ==> #[trigger] plan[i] == (PlannedAudioStream {
            input_index: carried[i].index,
            output_ordinal: i as usize,
            action: audio_action(carried[i], cx),
        })
}

pub open spec fn is_subtitle_plan(
    plan: Seq<PlannedSubtitleStream>,
    streams: Seq<MediaStream>,
    cx: PlanContext,
) -> bool {
    let carried = streams.filter(is_carried(StreamKind::Subtitle, cx));
    &&& plan.len() == carried.len()
    &&& forall|i: int|
        0 <= i < plan.len() ==> #[trigger] plan[i] == (PlannedSubtitleStream {
            input_index: carried[i].index,
            output_ordinal: i as usize,
            action: subtitle_action(carried[i], cx),
        })
}

/// The plan for these streams: carried audio and subtitles in source order with consecutive
/// ordinals, attachments for Matroska, and every skipped stream with its reason.
pub open spec fn is_stream_plan(
    plan: StreamPlan,
    streams: Seq<MediaStream>,
    cx: PlanContext,
) -> bool {
    &&& is_audio_plan(plan.audio@, streams, cx)
    &&& is_subtitle_plan(plan.subtitles@, streams, cx)
    &&& plan.attachments@ == streams.filter_map(attachment_entry(cx))
    &&& plan.skipped@ == streams.filter_map(skip_entry(cx))
    &&& match plan.video_input_index {
        Some(index) => exists|i: int| #[trigger]
            is_main_video(streams, i) && streams[i].index == index,
        None => forall|i: int| !#[trigger] is_main_video(streams, i),
    }
}

/// The stream plan with the usual tolerance of two seconds for short subtitles.
pub fn build_stream_plan(media: &MediaInfo, container: Container) -> (plan: StreamPlan)
    ensures
        is_stream_plan(
            plan,
            media.streams@,
            (PlanContext {
                container,
                source_duration: media.duration,
                tolerance: Duration { nanos: 2_000_000_000 },
            }),
        ),
{
    build_stream_plan_with_tolerance(media, container, Duration::from_secs(2))
}

pub fn build_stream_plan_with_tolerance(
    media: &MediaInfo,
    container: Container,
    duration_tolerance: Duration,
) -> (plan: StreamPlan)
    ensures
        is_stream_plan(
            plan,
            media.streams@,
            (PlanContext {
                container,
                source_duration: media.duration,
                tolerance: duration_tolerance,
            }),
        ),
{
    let cx = PlanContext {
        container,
        source_duration: media.duration,
        tolerance: duration_tolerance,
    };
    let streams = &media.streams;
    let mut plan = StreamPlan::default();
    plan.video_input_index = main_video_index(streams);
    let ghost video = plan.video_input_index;
    let mut i: usize = 0;
    assert(streams@.take(0) =~= Seq::<MediaStream>::empty());
    assert(streams@.take(0).filter(is_carried(StreamKind::Audio, cx)).len() == 0);
    assert(streams@.take(0).filter(is_carried(StreamKind::Subtitle, cx)).len() == 0);
    assert(plan.attachments@ =~= streams@.take(0).filter_map(attachment_entry(cx)));
    assert(plan.skipped@ =~= streams@.take(0).filter_map(skip_entry(cx)));
    while i < streams.len()
        invariant
            i <= streams@.len(),
            plan.video_input_index == video,
            is_audio_plan(plan.audio@, streams@.take(i as int), cx),
            is_subtitle_plan(plan.subtitles@, streams@.take(i as int), cx),
            plan.attachments@ == streams@.take(i as int).filter_map(attachment_entry(cx)),
            plan.skipped@ == streams@.take(i as int).filter_map(skip_entry(cx)),
        decreases streams@.len() - i,
    {
        let stream = &streams[i];
        plan_stream(stream, &cx, &mut plan, Ghost(streams@.take(i as int)));
        assert(streams@.take(i as int).push(*stream) =~= streams@.take(i + 1));
        i = i + 1;
    }
    assert(streams@.take(i as int) =~= streams@);
    plan
}

fn main_video_index(streams: &Vec<MediaStream>) -> (r: Option<usize>)
    ensures
        match r {
            Some(index) => exists|i: int| #[trigger]
                is_main_video(streams@, i) && streams@[i].index == index,
            None => forall|i: int| !#[trigger] is_main_video(streams@, i),
        },
{
    let mut i: usize = 0;
    while i < streams.len()
        invariant
            i <= streams@.len(),
            forall|j: int|
                0 <= j < i ==> !((#[trigger] streams@[j]).kind == StreamKind::Video
                    && !streams@[j].is_attached_picture),
        decreases streams@.len() - i,
    {
        if streams[i].kind == StreamKind::Video && !streams[i].is_attached_picture {
            assert(is_main_video(streams@, i as int));
            return Some(streams[i].index);
        }
        i = i + 1;
    }
    None
}

/// Extends the plan for the streams `done` by one stream.
fn plan_stream(
    stream: &MediaStream,
    cx: &PlanContext,
    plan: &mut StreamPlan,
    Ghost(done): Ghost<Seq<MediaStream>>,
)
    requires
        is_audio_plan(old(plan).audio@, done, *cx),
        is_subtitle_plan(old(plan).subtitles@, done, *cx),
        old(plan).attachments@ == done.filter_map(attachment_entry(*cx)),
        old(plan).skipped@ == done.filter_map(skip_entry(*cx)),
        done.len() < usize::MAX,
    ensures
        is_audio_plan(final(plan).audio@, done.push(*stream), *cx),
        is_subtitle_plan(final(plan).subtitles@, done.push(*stream), *cx),
        final(plan).attachments@ == done.push(*stream).filter_map(attachment_entry(*cx)),
        final(plan).skipped@ == done.push(*stream).filter_map(skip_entry(*cx)),
        final(plan).video_input_index == old(plan).video_input_index,
{
    proof {
        let next = done.push(*stream);
        done.lemma_filter_push(*stream, is_carried(StreamKind::Audio, *cx));
        done.lemma_filter_push(*stream, is_carried(StreamKind::Subtitle, *cx));
        next.lemma_filter_map_take_succ(attachment_entry(*cx), done.len() as int);
        next.lemma_filter_map_take_succ(skip_entry(*cx), done.len() as int);
        assert(next.take(done.len() as int) =~= done);
        assert(next.take((done.len() + 1) as int) =~= next);
    }
    match stream.kind {
        StreamKind::Audio => match checked_codec(stream) {
            Some(codec) => {
                let action = if cx.container == Container::Matroska && eq_ignoring_ascii_case(
                    codec,
                    "dts",
                ) {
                    AudioStreamAction::TranscodeAc3 { bit_rate: 640_000 }
                } else {
                    AudioStreamAction::Copy
                };
                let output_ordinal: usize = plan.audio.len();
                plan.audio.push(
                    PlannedAudioStream { input_index: stream.index, output_ordinal, action },
                );
            },
            None => {
                plan.skipped.push(
                    SkippedStream {
                        input_index: stream.index,
                        kind: StreamKind::Audio,
                        reason: StreamSkipReason::UnknownCodec,
                    },
                );
            },
        },
        StreamKind::Subtitle => match checked_codec(stream) {
            Some(codec) => {
                match sparse_reason(stream, cx) {
                    Some(reason) => {
                        plan.skipped.push(
                            SkippedStream {
                                input_index: stream.index,
                                kind: StreamKind::Subtitle,
                                reason,
                            },
                        );
                    },
                    None => {
                        let action = choose_subtitle_action(codec, cx.container);
                        let output_ordinal: usize = plan.subtitles.len();
                        plan.subtitles.push(
                            PlannedSubtitleStream {
                                input_index: stream.index,
                                output_ordinal,
                                action,
                            },
                        );
                    },
                }
            },
            None => {
                plan.skipped.push(
                    SkippedStream {
                        input_index: stream.index,
                        kind: StreamKind::Subtitle,
                        reason: StreamSkipReason::UnknownCodec,
                    },
                );
            },
        },
        StreamKind::Attachment => {
            if cx.container == Container::Matroska {
                plan.attachments.push(stream.index);
            }
        },
        _ => {},
    }
}

fn sparse_reason(stream: &MediaStream, cx: &PlanContext) -> (r: Option<StreamSkipReason>)
    ensures
        r == if is_sparse(*stream, *cx) {
            Some(
                StreamSkipReason::SparseSubtitle {
                    frame_count: stream.frame_count->0,
                    duration: stream.duration->0,
                },
            )
        } else {
            None
        },
{
    match (stream.frame_count, stream.duration, cx.source_duration) {
        (Some(frame_count), Some(duration), Some(total)) => {
            if frame_count <= 1 && duration.saturating_add(cx.tolerance).is_shorter_than(total) {
                Some(StreamSkipReason::SparseSubtitle { frame_count, duration })
            } else {
                None
            }
        },
        _ => None,
    }
}

fn choose_subtitle_action(codec: &str, container: Container) -> (r: SubtitleStreamAction)
    ensures
        r == match container {
            Container::Matroska => if ascii_lower(codec@) == ascii_lower("mov_text"@) {
                SubtitleStreamAction::TranscodeSrt
            } else {
                SubtitleStreamAction::Copy
            },
            Container::Mp4 => if is_mp4_foreign_text(codec@) {
                SubtitleStreamAction::TranscodeMovText
            } else {
                SubtitleStreamAction::Copy
            },
        },
{
    match container {
        Container::Matroska => {
            if eq_ignoring_ascii_case(codec, "mov_text") {
                SubtitleStreamAction::TranscodeSrt
            } else {
                SubtitleStreamAction::Copy
            }
        },
        Container::Mp4 => {
            if eq_ignoring_ascii_case(codec, "subrip") || eq_ignoring_ascii_case(codec, "srt")
                || eq_ignoring_ascii_case(codec, "ass") || eq_ignoring_ascii_case(codec, "ssa")
                || eq_ignoring_ascii_case(codec, "webvtt") {
                SubtitleStreamAction::TranscodeMovText
            } else {
                SubtitleStreamAction::Copy
            }
        },
    }
}

fn checked_codec(stream: &MediaStream) -> (r: Option<&str>)
    ensures
        match r {
            Some(name) => valid_codec(*stream) == Some(name@),
            None => valid_codec(*stream) is None,
        },
{
    match &stream.codec_name {
        Some(name) => {
            let name = name.as_str();
            if name.unicode_len() == 0 || eq_ignoring_ascii_case(name, "unknown")
                || eq_ignoring_ascii_case(name, "none") {
                None
            } else {
                Some(name)
            }
        },
        None => None,
    }
}

/// Every audio or subtitle stream is either carried or skipped, never both, and streams of other
/// kinds are neither carried as audio or subtitles nor reported as skipped.
pub proof fn law_streams_are_carried_or_skipped(s: MediaStream, cx: PlanContext)
    ensures
        (s.kind == StreamKind::Audio || s.kind == StreamKind::Subtitle) ==> (is_carried(
            s.kind,
            cx,
        )(s) <==> skip_entry(cx)(s) is None),
        (s.kind != StreamKind::Audio && s.kind != StreamKind::Subtitle) ==> skip_entry(cx)(s)
            is None && !is_carried(StreamKind::Audio, cx)(s) && !is_carried(
            StreamKind::Subtitle,
            cx,
        )(s),
{
}

/// The planned audio and skipped audio together account for every audio stream of the source, and
/// likewise for subtitles.
pub proof fn law_plan_accounts_for_every_stream(
    plan: StreamPlan,
    streams: Seq<MediaStream>,
    cx: PlanContext,
)
    requires
        is_stream_plan(plan, streams, cx),
    ensures
        plan.audio@.len() + plan.skipped@.filter(|k: SkippedStream| k.kind == StreamKind::Audio).len()
            == streams.filter(|s: MediaStream| s.kind == StreamKind::Audio).len(),
        plan.subtitles@.len() + plan.skipped@.filter(
            |k: SkippedStream| k.kind == StreamKind::Subtitle,
        ).len() == streams.filter(|s: MediaStream| s.kind == StreamKind::Subtitle).len(),
{
    lemma_accounting(streams, cx, StreamKind::Audio);
    lemma_accounting(streams, cx, StreamKind::Subtitle);
    assert(of_kind(StreamKind::Audio) =~= |s: MediaStream| s.kind == StreamKind::Audio);
    assert(of_kind(StreamKind::Subtitle) =~= |s: MediaStream| s.kind == StreamKind::Subtitle);
    assert(skip_of_kind(StreamKind::Audio) =~= |k: SkippedStream| k.kind == StreamKind::Audio);
    assert(skip_of_kind(StreamKind::Subtitle) =~= |k: SkippedStream|
        k.kind == StreamKind::Subtitle);
}

spec fn of_kind(kind: StreamKind) -> spec_fn(MediaStream) -> bool {
    |s: MediaStream| s.kind == kind
}

spec fn skip_of_kind(kind: StreamKind) -> spec_fn(SkippedStream) -> bool {
    |k: SkippedStream| k.kind == kind
}

proof fn lemma_accounting(streams: Seq<MediaStream>, cx: PlanContext, kind: StreamKind)
    requires
        kind == StreamKind::Audio || kind == StreamKind::Subtitle,
    ensures
        streams.filter(is_carried(kind, cx)).len() + streams.filter_map(skip_entry(cx)).filter(
            skip_of_kind(kind),
        ).len() == streams.filter(of_kind(kind)).len(),
    decreases streams.len(),
{
    reveal(Seq::filter);
    if streams.len() == 0 {
        assert(streams.filter_map(skip_entry(cx)) =~= Seq::<SkippedStream>::empty());
    } else {
        let rest = streams.drop_last();
        let s = streams.last();
        lemma_accounting(rest, cx, kind);
        streams.lemma_filter_map_take_succ(skip_entry(cx), rest.len() as int);
        assert(streams.take(rest.len() as int) =~= rest);
        assert(streams.take((rest.len() + 1) as int) =~= streams);
        match skip_entry(cx)(s) {
            Some(entry) => {
                rest.filter_map(skip_entry(cx)).lemma_filter_push(entry, skip_of_kind(kind));
                assert(streams.filter_map(skip_entry(cx)) =~= rest.filter_map(skip_entry(cx)).push(
                    entry,
                ));
            },
            None => {
                assert(streams.filter_map(skip_entry(cx)) =~= rest.filter_map(skip_entry(cx)));
            },
        }
    }
}

/// A text without capital letters is its own lower-case form.
pub proof fn lemma_lower_case_stays(s: Seq<char>)
    requires
        forall|i: int| 0 <= i < s.len() ==> !('A' <= #[trigger] s[i] <= 'Z'),
    ensures
        ascii_lower(s) == s,
{
    assert(ascii_lower(s) =~= s);
}

proof fn lemma_codec_names()
    ensures
        ascii_lower("unknown"@) == "unknown"@,
        ascii_lower("none"@) == "none"@,
        ascii_lower("dts"@) == "dts"@,
        ascii_lower("mov_text"@) == "mov_text"@,
        ascii_lower("subrip"@) == "subrip"@,
        ascii_lower("srt"@) == "srt"@,
        ascii_lower("ass"@) == "ass"@,
        ascii_lower("ssa"@) == "ssa"@,
        ascii_lower("webvtt"@) == "webvtt"@,
{
    reveal_strlit("unknown");
    reveal_strlit("none");
    reveal_strlit("dts");
    reveal_strlit("mov_text");
    reveal_strlit("subrip");
    reveal_strlit("srt");
    reveal_strlit("ass");
    reveal_strlit("ssa");
    reveal_strlit("webvtt");
    lemma_lower_case_stays("unknown"@);
    lemma_lower_case_stays("none"@);
    lemma_lower_case_stays("dts"@);
    lemma_lower_case_stays("mov_text"@);
    lemma_lower_case_stays("subrip"@);
    lemma_lower_case_stays("srt"@);
    lemma_lower_case_stays("ass"@);
    lemma_lower_case_stays("ssa"@);
    lemma_lower_case_stays("webvtt"@);
}

/// The stream tells its codec: it has a name, and the name is neither `unknown` nor `none`.
pub open spec fn tells_codec(s: MediaStream) -> bool {
    s.codec_name matches Some(name) && name@.len() > 0 && ascii_lower(name@) != "unknown"@
        && ascii_lower(name@) != "none"@
}

/// No two streams have the same index.
pub open spec fn has_own_indexes(streams: Seq<MediaStream>) -> bool {
    forall|i: int, j: int|
        0 <= i < j < streams.len() ==> (#[trigger] streams[i]).index != (#[trigger] streams[j]).index
}

/// Every kept item is one of the sequence that passes the test.
pub proof fn lemma_filter_source<A>(s: Seq<A>, test: spec_fn(A) -> bool, i: int)
    requires
        0 <= i < s.filter(test).len(),
    ensures
        exists|k: int| 0 <= k < s.len() && #[trigger] s[k] == s.filter(test)[i] && test(s[k]),
    decreases s.len(),
{
    reveal(Seq::filter);
    let rest = s.drop_last();
    if i < rest.filter(test).len() {
        lemma_filter_source(rest, test, i);
        let k = choose|k: int|
            0 <= k < rest.len() && #[trigger] rest[k] == rest.filter(test)[i] && test(rest[k]);
        assert(s[k] == s.filter(test)[i]);
    } else {
        assert(s[s.len() - 1] == s.filter(test)[i]);
    }
}

proof fn lemma_filter_map_source<A, B>(s: Seq<A>, f: spec_fn(A) -> Option<B>, i: int)
    requires
        0 <= i < s.filter_map(f).len(),
    ensures
        exists|k: int| 0 <= k < s.len() && f(#[trigger] s[k]) == Some(s.filter_map(f)[i]),
    decreases s.len(),
{
    if s.len() == 0 {
        assert(s.filter_map(f) =~= Seq::<B>::empty());
    } else {
        let rest = s.drop_last();
        s.lemma_filter_map_take_succ(f, rest.len() as int);
        assert(s.take(rest.len() as int) =~= rest);
        assert(s.take((rest.len() + 1) as int) =~= s);
        if i < rest.filter_map(f).len() {
            lemma_filter_map_source(rest, f, i);
            let k = choose|k: int|
                0 <= k < rest.len() && f(#[trigger] rest[k]) == Some(rest.filter_map(f)[i]);
            assert(s[k] == rest[k]);
            assert(f(s[k]) == Some(s.filter_map(f)[i]));
        } else {
            assert(f(s[s.len() - 1]) == Some(s.filter_map(f)[i]));
        }
    }
}

/// What a function gives for an item is among what it gives for the sequence.
pub proof fn lemma_filter_map_has<A, B>(s: Seq<A>, f: spec_fn(A) -> Option<B>, k: int)
    requires
        0 <= k < s.len(),
        f(s[k]) is Some,
    ensures
        s.filter_map(f).contains(f(s[k])->0),
    decreases s.len(),
{
    let rest = s.drop_last();
    s.lemma_filter_map_take_succ(f, rest.len() as int);
    assert(s.take(rest.len() as int) =~= rest);
    assert(s.take((rest.len() + 1) as int) =~= s);
    let all = s.filter_map(f);
    let before = rest.filter_map(f);
    if k < rest.len() {
        assert(rest[k] == s[k]);
        lemma_filter_map_has(rest, f, k);
        let i = choose|i: int| 0 <= i < before.len() && before[i] == f(s[k])->0;
        assert(all[i] == before[i]);
    } else {
        assert(all[all.len() - 1] == f(s[k])->0);
    }
}

/// A subtitle stream that tells its codec is carried, whatever its length, unless it has at most one frame
/// and ends too early. What is carried is not reported as skipped.
pub proof fn law_subtitles_are_carried(
    plan: StreamPlan,
    streams: Seq<MediaStream>,
    cx: PlanContext,
    k: int,
)
    requires
        is_stream_plan(plan, streams, cx),
        0 <= k < streams.len(),
        streams[k].kind == StreamKind::Subtitle,
        tells_codec(streams[k]),
        streams[k].frame_count matches Some(n) ==> n > 1,
    ensures
        exists|i: int|
            0 <= i < plan.subtitles@.len() && (#[trigger] plan.subtitles@[i]).input_index
                == streams[k].index,
        has_own_indexes(streams) ==> forall|i: int|
            0 <= i < plan.skipped@.len() ==> (#[trigger] plan.skipped@[i]).input_index
                != streams[k].index,
{
    lemma_codec_names();
    let test = is_carried(StreamKind::Subtitle, cx);
    assert(test(streams[k]));
    streams.lemma_filter_contains(test, k);
    let carried = streams.filter(test);
    let i = choose|i: int| 0 <= i < carried.len() && carried[i] == streams[k];
    assert(plan.subtitles@[i].input_index == streams[k].index);
    lemma_carried_is_not_skipped(plan, streams, cx, k);
}

proof fn lemma_carried_is_not_skipped(
    plan: StreamPlan,
    streams: Seq<MediaStream>,
    cx: PlanContext,
    k: int,
)
    requires
        is_stream_plan(plan, streams, cx),
        0 <= k < streams.len(),
        skip_reason(streams[k], cx) is None,
    ensures
        has_own_indexes(streams) ==> forall|i: int|
            0 <= i < plan.skipped@.len() ==> (#[trigger] plan.skipped@[i]).input_index
                != streams[k].index,
{
    if has_own_indexes(streams) {
        assert forall|i: int| 0 <= i < plan.skipped@.len() implies (
        #[trigger] plan.skipped@[i]).input_index != streams[k].index by {
            lemma_filter_map_source(streams, skip_entry(cx), i);
            let j = choose|j: int|
                0 <= j < streams.len() && skip_entry(cx)(#[trigger] streams[j]) == Some(
                    plan.skipped@[i],
                );
            assert(streams[j].index == plan.skipped@[i].input_index);
            assert(j != k);
        }
    }
}

/// An audio stream that tells its codec is carried. Only DTS in a Matroska file is re-encoded, to AC-3 at
/// 640 kbit/s; any other audio is copied.
pub proof fn law_audio_is_carried(
    plan: StreamPlan,
    streams: Seq<MediaStream>,
    cx: PlanContext,
    k: int,
)
    requires
        is_stream_plan(plan, streams, cx),
        0 <= k < streams.len(),
        streams[k].kind == StreamKind::Audio,
        tells_codec(streams[k]),
    ensures
        exists|i: int|
            0 <= i < plan.audio@.len() && (#[trigger] plan.audio@[i]).input_index == streams[k].index
                && plan.audio@[i].action == if cx.container == Container::Matroska && ascii_lower(
                streams[k].codec_name->0@,
            ) == "dts"@ {
                AudioStreamAction::TranscodeAc3 { bit_rate: 640_000 }
            } else {
                AudioStreamAction::Copy
            },
        has_own_indexes(streams) ==> forall|i: int|
            0 <= i < plan.skipped@.len() ==> (#[trigger] plan.skipped@[i]).input_index
                != streams[k].index,
{
    lemma_codec_names();
    let test = is_carried(StreamKind::Audio, cx);
    assert(test(streams[k]));
    streams.lemma_filter_contains(test, k);
    let carried = streams.filter(test);
    let i = choose|i: int| 0 <= i < carried.len() && carried[i] == streams[k];
    assert(plan.audio@[i].input_index == streams[k].index);
    lemma_carried_is_not_skipped(plan, streams, cx, k);
}

/// Every planned audio or subtitle stream is one of the source, of that kind and with a known codec, and
/// its ordinal is its place among the carried streams of the kind. A subtitle is re-encoded only where
/// the container cannot hold it: MOV text in Matroska, and SubRip, SRT, ASS, SSA, or WebVTT in MP4.
pub proof fn law_planned_streams_come_from_the_source(
    plan: StreamPlan,
    streams: Seq<MediaStream>,
    cx: PlanContext,
)
    requires
        is_stream_plan(plan, streams, cx),
        streams.len() <= usize::MAX,
    ensures
        forall|i: int|
            0 <= i < plan.audio@.len() ==> (#[trigger] plan.audio@[i]).output_ordinal == i && exists|k: int|
                0 <= k < streams.len() && (#[trigger] streams[k]).index == plan.audio@[i].input_index
                    && streams[k].kind == StreamKind::Audio && tells_codec(streams[k]),
        forall|i: int|
            0 <= i < plan.subtitles@.len() ==> (#[trigger] plan.subtitles@[i]).output_ordinal == i
                && exists|k: int|
                0 <= k < streams.len() && (#[trigger] streams[k]).index
                    == plan.subtitles@[i].input_index && streams[k].kind == StreamKind::Subtitle
                    && tells_codec(streams[k]) && plan.subtitles@[i].action == ({
                    let codec = ascii_lower(streams[k].codec_name->0@);
                    if cx.container == Container::Matroska && codec == "mov_text"@ {
                        SubtitleStreamAction::TranscodeSrt
                    } else if cx.container == Container::Mp4 && (codec == "subrip"@ || codec
                        == "srt"@ || codec == "ass"@ || codec == "ssa"@ || codec == "webvtt"@) {
                        SubtitleStreamAction::TranscodeMovText
                    } else {
                        SubtitleStreamAction::Copy
                    }
                }),
{
    lemma_codec_names();
    let sound = is_carried(StreamKind::Audio, cx);
    let text = is_carried(StreamKind::Subtitle, cx);
    streams.lemma_filter_len(sound);
    streams.lemma_filter_len(text);
    assert forall|i: int| 0 <= i < plan.audio@.len() implies (
    #[trigger] plan.audio@[i]).output_ordinal == i && exists|k: int|
        0 <= k < streams.len() && (#[trigger] streams[k]).index == plan.audio@[i].input_index
            && streams[k].kind == StreamKind::Audio && tells_codec(streams[k]) by {
        lemma_filter_source(streams, sound, i);
        let k = choose|k: int|
            0 <= k < streams.len() && #[trigger] streams[k] == streams.filter(sound)[i] && sound(
                streams[k],
            );
        assert(streams[k].index == plan.audio@[i].input_index);
    }
    assert forall|i: int| 0 <= i < plan.subtitles@.len() implies (
    #[trigger] plan.subtitles@[i]).output_ordinal == i && exists|k: int|
        0 <= k < streams.len() && (#[trigger] streams[k]).index == plan.subtitles@[i].input_index
            && streams[k].kind == StreamKind::Subtitle && tells_codec(streams[k])
            && plan.subtitles@[i].action == ({
            let codec = ascii_lower(streams[k].codec_name->0@);
            if cx.container == Container::Matroska && codec == "mov_text"@ {
                SubtitleStreamAction::TranscodeSrt
            } else if cx.container == Container::Mp4 && (codec == "subrip"@ || codec == "srt"@
                || codec == "ass"@ || codec == "ssa"@ || codec == "webvtt"@) {
                SubtitleStreamAction::TranscodeMovText
            } else {
                SubtitleStreamAction::Copy
            }
        }) by {
        lemma_filter_source(streams, text, i);
        let k = choose|k: int|
            0 <= k < streams.len() && #[trigger] streams[k] == streams.filter(text)[i] && text(
                streams[k],
            );
        assert(streams[k].index == plan.subtitles@[i].input_index);
    }
}

/// A stream is skipped only for a reason that holds of it: its codec is not told, or it is a subtitle of at
/// most one frame that ends more than the tolerance before the source. Each such stream is skipped.
pub proof fn law_streams_are_skipped_for_a_reason(
    plan: StreamPlan,
    streams: Seq<MediaStream>,
    cx: PlanContext,
)
    requires
        is_stream_plan(plan, streams, cx),
    ensures
        forall|i: int|
            0 <= i < plan.skipped@.len() ==> exists|k: int|
                0 <= k < streams.len() && (#[trigger] streams[k]).index == (
                #[trigger] plan.skipped@[i]).input_index && streams[k].kind == plan.skipped@[i].kind && (
                streams[k].kind == StreamKind::Audio || streams[k].kind == StreamKind::Subtitle)
                    && match plan.skipped@[i].reason {
                    StreamSkipReason::UnknownCodec => !tells_codec(streams[k]),
                    StreamSkipReason::SparseSubtitle { frame_count, duration } => streams[k].kind
                        == StreamKind::Subtitle && streams[k].frame_count == Some(frame_count)
                        && frame_count <= 1 && streams[k].duration == Some(duration)
                        && cx.source_duration is Some && (duration.nanos + cx.tolerance.nanos
                        < cx.source_duration->0.nanos || MAX_NANOS < cx.source_duration->0.nanos),
                },
        forall|k: int|
            0 <= k < streams.len() && ((#[trigger] streams[k]).kind == StreamKind::Audio
                || streams[k].kind == StreamKind::Subtitle) && !tells_codec(streams[k])
                ==> plan.skipped@.contains(
                (SkippedStream {
                    input_index: streams[k].index,
                    kind: streams[k].kind,
                    reason: StreamSkipReason::UnknownCodec,
                }),
            ),
        forall|k: int|
            0 <= k < streams.len() && (#[trigger] streams[k]).kind == StreamKind::Subtitle
                && tells_codec(streams[k]) && streams[k].frame_count is Some
                && streams[k].frame_count->0 <= 1 && streams[k].duration is Some
                && cx.source_duration is Some && cx.source_duration->0.nanos <= MAX_NANOS
                && streams[k].duration->0.nanos + cx.tolerance.nanos < cx.source_duration->0.nanos
                ==> plan.skipped@.contains(
                (SkippedStream {
                    input_index: streams[k].index,
                    kind: StreamKind::Subtitle,
                    reason: StreamSkipReason::SparseSubtitle {
                        frame_count: streams[k].frame_count->0,
                        duration: streams[k].duration->0,
                    },
                }),
            ),
{
    lemma_codec_names();
    let entry = skip_entry(cx);
    assert forall|i: int| 0 <= i < plan.skipped@.len() implies exists|k: int|
        0 <= k < streams.len() && (#[trigger] streams[k]).index == (
        #[trigger] plan.skipped@[i]).input_index && streams[k].kind == plan.skipped@[i].kind && (
        streams[k].kind == StreamKind::Audio || streams[k].kind == StreamKind::Subtitle)
            && match plan.skipped@[i].reason {
            StreamSkipReason::UnknownCodec => !tells_codec(streams[k]),
            StreamSkipReason::SparseSubtitle { frame_count, duration } => streams[k].kind
                == StreamKind::Subtitle && streams[k].frame_count == Some(frame_count)
                && frame_count <= 1 && streams[k].duration == Some(duration) && cx.source_duration
                is Some && (duration.nanos + cx.tolerance.nanos < cx.source_duration->0.nanos
                || MAX_NANOS < cx.source_duration->0.nanos),
        } by {
        lemma_filter_map_source(streams, entry, i);
        let k = choose|k: int|
            0 <= k < streams.len() && entry(#[trigger] streams[k]) == Some(plan.skipped@[i]);
        assert(streams[k].index == plan.skipped@[i].input_index);
    }
    assert forall|k: int|
        0 <= k < streams.len() && ((#[trigger] streams[k]).kind == StreamKind::Audio
            || streams[k].kind == StreamKind::Subtitle) && !tells_codec(
            streams[k],
        ) implies plan.skipped@.contains(
        (SkippedStream {
            input_index: streams[k].index,
            kind: streams[k].kind,
            reason: StreamSkipReason::UnknownCodec,
        }),
    ) by {
        lemma_filter_map_has(streams, entry, k);
    }
    assert forall|k: int|
        0 <= k < streams.len() && (#[trigger] streams[k]).kind == StreamKind::Subtitle && tells_codec(
            streams[k],
        ) && streams[k].frame_count is Some && streams[k].frame_count->0 <= 1 && streams[k].duration
            is Some && cx.source_duration is Some && cx.source_duration->0.nanos <= MAX_NANOS
            && streams[k].duration->0.nanos + cx.tolerance.nanos
            < cx.source_duration->0.nanos implies plan.skipped@.contains(
        (SkippedStream {
            input_index: streams[k].index,
            kind: StreamKind::Subtitle,
            reason: StreamSkipReason::SparseSubtitle {
                frame_count: streams[k].frame_count->0,
                duration: streams[k].duration->0,
            },
        }),
    ) by {
        lemma_filter_map_has(streams, entry, k);
    }
}

/// An attachment of the source has this index.
pub open spec fn has_attachment(streams: Seq<MediaStream>, index: usize) -> bool {
    exists|k: int|
        0 <= k < streams.len() && (#[trigger] streams[k]).kind == StreamKind::Attachment
            && streams[k].index == index
}

/// Attachments go into Matroska files, all of them, and into no others; the picture is the first video
/// stream that is no cover art, where there is one.
pub proof fn law_attachments_and_picture(
    plan: StreamPlan,
    streams: Seq<MediaStream>,
    cx: PlanContext,
)
    requires
        is_stream_plan(plan, streams, cx),
    ensures
        cx.container == Container::Mp4 ==> plan.attachments@.len() == 0,
        cx.container == Container::Matroska ==> forall|k: int|
            0 <= k < streams.len() && (#[trigger] streams[k]).kind == StreamKind::Attachment
                ==> plan.attachments@.contains(streams[k].index),
        forall|i: int|
            0 <= i < plan.attachments@.len() ==> has_attachment(
                streams,
                #[trigger] plan.attachments@[i],
            ),
        (exists|k: int|
            0 <= k < streams.len() && (#[trigger] streams[k]).kind == StreamKind::Video
                && !streams[k].is_attached_picture) <==> plan.video_input_index is Some,
{
    let entry = attachment_entry(cx);
    assert forall|i: int| 0 <= i < plan.attachments@.len() implies has_attachment(
        streams,
        #[trigger] plan.attachments@[i],
    ) by {
        lemma_filter_map_source(streams, entry, i);
        let k = choose|k: int|
            0 <= k < streams.len() && entry(#[trigger] streams[k]) == Some(plan.attachments@[i]);
        assert(streams[k].kind == StreamKind::Attachment);
    }
    if cx.container == Container::Mp4 && plan.attachments@.len() > 0 {
        lemma_filter_map_source(streams, entry, 0);
    }
    if cx.container == Container::Matroska {
        assert forall|k: int|
            0 <= k < streams.len() && (#[trigger] streams[k]).kind
                == StreamKind::Attachment implies plan.attachments@.contains(streams[k].index) by {
            lemma_filter_map_has(streams, entry, k);
        }
    }
    if exists|k: int|
        0 <= k < streams.len() && (#[trigger] streams[k]).kind == StreamKind::Video
            && !streams[k].is_attached_picture {
        let k = choose|k: int|
            0 <= k < streams.len() && (#[trigger] streams[k]).kind == StreamKind::Video
                && !streams[k].is_attached_picture;
        lemma_some_main_video(streams, k);
    }
    if plan.video_input_index is Some {
        let i = choose|i: int| #[trigger]
            is_main_video(streams, i) && streams[i].index == plan.video_input_index->0;
        assert(streams[i].kind == StreamKind::Video);
    }
}

proof fn lemma_some_main_video(streams: Seq<MediaStream>, k: int)
    requires
        0 <= k < streams.len(),
        streams[k].kind == StreamKind::Video && !streams[k].is_attached_picture,
    ensures
        exists|i: int| #[trigger] is_main_video(streams, i),
    decreases k,
{
    if exists|j: int|
        0 <= j < k && (#[trigger] streams[j]).kind == StreamKind::Video
            && !streams[j].is_attached_picture {
        let j = choose|j: int|
            0 <= j < k && (#[trigger] streams[j]).kind == StreamKind::Video
                && !streams[j].is_attached_picture;
        lemma_some_main_video(streams, j);
    } else {
        assert(is_main_video(streams, k));
    }
}

} // verus!
