//! Workflows, encoders, task settings, and what is known of a media file.

use crate::text::{copy_list, copy_opt, opt_text, same_text, texts};
use crate::time::Duration;
use vstd::prelude::*;

verus! {

/// The workflow of a task.
#[derive(Debug, Clone, Copy, PartialEq, Eq, Hash, Structural)]
pub enum ContentMode {
    Tv,
    Animation,
    CameraVideos,
    Stabilize,
    Trim,
    PhotoSlideshow,
}

/// The name of a workflow in the interface and in stored state.
pub open spec fn mode_label(mode: ContentMode) -> Seq<char> {
    match mode {
        ContentMode::Tv => "TV"@,
        ContentMode::Animation => "Animation"@,
        ContentMode::CameraVideos => "Camera videos"@,
        ContentMode::Stabilize => "Stabilize"@,
        ContentMode::Trim => "Trim"@,
        ContentMode::PhotoSlideshow => "Photo slideshow"@,
    }
}

/// Every workflow, in the order of the interface.
pub open spec fn all_modes() -> Seq<ContentMode> {
    seq![
        ContentMode::Tv,
        ContentMode::Animation,
        ContentMode::CameraVideos,
        ContentMode::Stabilize,
        ContentMode::Trim,
        ContentMode::PhotoSlideshow,
    ]
}

/// The workflow with a given label.
pub open spec fn mode_labelled(label: Seq<char>) -> Option<ContentMode> {
    if exists|m: ContentMode| #[trigger] mode_label(m) == label {
        Some(choose|m: ContentMode| #[trigger] mode_label(m) == label)
    } else {
        None
    }
}

/// Different workflows have different labels, so a label gives back its workflow.
pub proof fn law_mode_labels_round_trip(a: ContentMode, b: ContentMode)
    ensures
        mode_label(a) == mode_label(b) ==> a == b,
        mode_labelled(mode_label(a)) == Some(a),
{
    lemma_mode_labels_differ(a, b);
    let c = choose|m: ContentMode| #[trigger] mode_label(m) == mode_label(a);
    lemma_mode_labels_differ(a, c);
}

proof fn lemma_mode_labels_differ(a: ContentMode, b: ContentMode)
    ensures
        mode_label(a) == mode_label(b) ==> a == b,
{
    reveal_strlit("TV");
    reveal_strlit("Animation");
    reveal_strlit("Camera videos");
    reveal_strlit("Stabilize");
    reveal_strlit("Trim");
    reveal_strlit("Photo slideshow");
    assert("TV"@.len() == 2 && "Animation"@.len() == 9 && "Camera videos"@.len() == 13);
    assert("Stabilize"@.len() == 9 && "Trim"@.len() == 4 && "Photo slideshow"@.len() == 15);
    assert("Animation"@[0] == 'A' && "Stabilize"@[0] == 'S');
}

impl ContentMode {
    /// Every workflow, in the order of the interface.
    pub fn all() -> (r: [ContentMode; 6])
        ensures
            r@ == all_modes(),
    {
        let r = [
            ContentMode::Tv,
            ContentMode::Animation,
            ContentMode::CameraVideos,
            ContentMode::Stabilize,
            ContentMode::Trim,
            ContentMode::PhotoSlideshow,
        ];
        assert(r@ =~= all_modes());
        r
    }

    pub fn label(self) -> (r: &'static str)
        ensures
            r@ == mode_label(self),
    {
        match self {
            ContentMode::Tv => "TV",
            ContentMode::Animation => "Animation",
            ContentMode::CameraVideos => "Camera videos",
            ContentMode::Stabilize => "Stabilize",
            ContentMode::Trim => "Trim",
            ContentMode::PhotoSlideshow => "Photo slideshow",
        }
    }

    /// The workflow with this label.
    pub fn from_label(label: &str) -> (r: Option<ContentMode>)
        ensures
            r == mode_labelled(label@),
    {
        let modes = ContentMode::all();
        let mut i: usize = 0;
        while i < 6
            invariant
                i <= 6,
                modes@ == all_modes(),
                forall|k: int| 0 <= k < i ==> mode_label(#[trigger] all_modes()[k]) != label@,
            decreases 6 - i,
        {
            let mode = modes[i];
            if same_text(mode.label(), label) {
                proof {
                    law_mode_labels_round_trip(mode, mode);
                }
                return Some(mode);
            }
            i = i + 1;
        }
        assert forall|m: ContentMode| #[trigger] mode_label(m) != label@ by {
            let k: int = match m {
                ContentMode::Tv => 0,
                ContentMode::Animation => 1,
                ContentMode::CameraVideos => 2,
                ContentMode::Stabilize => 3,
                ContentMode::Trim => 4,
                ContentMode::PhotoSlideshow => 5,
            };
            assert(all_modes()[k] == m);
        }
        None
    }
}

/// A video encoder.
#[derive(Debug, Clone, Copy, PartialEq, Eq, Hash, Structural)]
pub enum Encoder {
    X265,
    X264,
    SvtAv1,
    HevcNvenc,
    Av1Nvenc,
    H264Nvenc,
    H264VideoToolbox,
    HevcVideoToolbox,
    Av1VideoToolbox,
}

/// The name of an encoder in the codec library.
pub open spec fn encoder_library_name(e: Encoder) -> Seq<char> {
    match e {
        Encoder::X265 => "libx265"@,
        Encoder::X264 => "libx264"@,
        Encoder::SvtAv1 => "libsvtav1"@,
        Encoder::HevcNvenc => "hevc_nvenc"@,
        Encoder::Av1Nvenc => "av1_nvenc"@,
        Encoder::H264Nvenc => "h264_nvenc"@,
        Encoder::H264VideoToolbox => "h264_videotoolbox"@,
        Encoder::HevcVideoToolbox => "hevc_videotoolbox"@,
        Encoder::Av1VideoToolbox => "av1_videotoolbox"@,
    }
}

/// The name of an encoder in the interface and in stored state.
pub open spec fn encoder_user_name(e: Encoder) -> Seq<char> {
    match e {
        Encoder::X265 => "x265"@,
        Encoder::X264 => "x264"@,
        _ => encoder_library_name(e),
    }
}

/// A name stands for an encoder when it is either of that encoder's names.
pub open spec fn encoder_has_name(e: Encoder, name: Seq<char>) -> bool {
    name == encoder_library_name(e) || name == encoder_user_name(e)
}

/// The encoder that a name stands for.
pub open spec fn encoder_named(name: Seq<char>) -> Option<Encoder> {
    if exists|e: Encoder| #[trigger] encoder_has_name(e, name) {
        Some(choose|e: Encoder| #[trigger] encoder_has_name(e, name))
    } else {
        None
    }
}

pub open spec fn all_encoders() -> Seq<Encoder> {
    seq![
        Encoder::X265,
        Encoder::X264,
        Encoder::SvtAv1,
        Encoder::HevcNvenc,
        Encoder::Av1Nvenc,
        Encoder::H264Nvenc,
        Encoder::H264VideoToolbox,
        Encoder::HevcVideoToolbox,
        Encoder::Av1VideoToolbox,
    ]
}

pub open spec fn is_hevc_encoder(e: Encoder) -> bool {
    e == Encoder::X265 || e == Encoder::HevcNvenc || e == Encoder::HevcVideoToolbox
}

pub open spec fn is_nvenc_encoder(e: Encoder) -> bool {
    e == Encoder::HevcNvenc || e == Encoder::Av1Nvenc || e == Encoder::H264Nvenc
}

pub open spec fn is_videotoolbox_encoder(e: Encoder) -> bool {
    e == Encoder::H264VideoToolbox || e == Encoder::HevcVideoToolbox || e
        == Encoder::Av1VideoToolbox
}

pub open spec fn is_hardware_encoder(e: Encoder) -> bool {
    is_nvenc_encoder(e) || is_videotoolbox_encoder(e)
}

/// No name stands for two encoders.
proof fn lemma_encoder_names_differ(a: Encoder, b: Encoder, name: Seq<char>)
    requires
        encoder_has_name(a, name),
        encoder_has_name(b, name),
    ensures
        a == b,
{
    reveal_strlit("libx265");
    reveal_strlit("libx264");
    reveal_strlit("libsvtav1");
    reveal_strlit("hevc_nvenc");
    reveal_strlit("av1_nvenc");
    reveal_strlit("h264_nvenc");
    reveal_strlit("h264_videotoolbox");
    reveal_strlit("hevc_videotoolbox");
    reveal_strlit("av1_videotoolbox");
    reveal_strlit("x265");
    reveal_strlit("x264");
    assert("libx265"@.len() == 7 && "libx264"@.len() == 7 && "libsvtav1"@.len() == 9);
    assert("hevc_nvenc"@.len() == 10 && "av1_nvenc"@.len() == 9 && "h264_nvenc"@.len() == 10);
    assert("h264_videotoolbox"@.len() == 17 && "hevc_videotoolbox"@.len() == 17);
    assert("av1_videotoolbox"@.len() == 16 && "x265"@.len() == 4 && "x264"@.len() == 4);
    assert("libx265"@[6] == '5' && "libx264"@[6] == '4');
    assert("x265"@[3] == '5' && "x264"@[3] == '4');
    assert("libsvtav1"@[0] == 'l' && "av1_nvenc"@[0] == 'a');
    assert("hevc_nvenc"@[1] == 'e' && "h264_nvenc"@[1] == '2');
    assert("hevc_videotoolbox"@[1] == 'e' && "h264_videotoolbox"@[1] == '2');
}

/// Both names of an encoder give back that encoder.
pub proof fn law_encoder_names_round_trip(e: Encoder)
    ensures
        encoder_named(encoder_library_name(e)) == Some(e),
        encoder_named(encoder_user_name(e)) == Some(e),
{
    assert(encoder_has_name(e, encoder_library_name(e)));
    assert(encoder_has_name(e, encoder_user_name(e)));
    let a = choose|x: Encoder| #[trigger] encoder_has_name(x, encoder_library_name(e));
    lemma_encoder_names_differ(e, a, encoder_library_name(e));
    let b = choose|x: Encoder| #[trigger] encoder_has_name(x, encoder_user_name(e));
    lemma_encoder_names_differ(e, b, encoder_user_name(e));
}

/// An encoder belongs to at most one hardware family.
pub proof fn law_hardware_families_are_disjoint(e: Encoder)
    ensures
        !(is_nvenc_encoder(e) && is_videotoolbox_encoder(e)),
{
}

impl Encoder {
    /// Every encoder, in the order of the interface.
    pub fn all() -> (r: [Encoder; 9])
        ensures
            r@ == all_encoders(),
    {
        let r = [
            Encoder::X265,
            Encoder::X264,
            Encoder::SvtAv1,
            Encoder::HevcNvenc,
            Encoder::Av1Nvenc,
            Encoder::H264Nvenc,
            Encoder::H264VideoToolbox,
            Encoder::HevcVideoToolbox,
            Encoder::Av1VideoToolbox,
        ];
        assert(r@ =~= all_encoders());
        r
    }

    pub fn library_name(self) -> (r: &'static str)
        ensures
            r@ == encoder_library_name(self),
    {
        match self {
            Encoder::X265 => "libx265",
            Encoder::X264 => "libx264",
            Encoder::SvtAv1 => "libsvtav1",
            Encoder::HevcNvenc => "hevc_nvenc",
            Encoder::Av1Nvenc => "av1_nvenc",
            Encoder::H264Nvenc => "h264_nvenc",
            Encoder::H264VideoToolbox => "h264_videotoolbox",
            Encoder::HevcVideoToolbox => "hevc_videotoolbox",
            Encoder::Av1VideoToolbox => "av1_videotoolbox",
        }
    }

    pub fn user_name(self) -> (r: &'static str)
        ensures
            r@ == encoder_user_name(self),
    {
        match self {
            Encoder::X265 => "x265",
            Encoder::X264 => "x264",
            _ => self.library_name(),
        }
    }

    /// The encoder that a library name or an interface name stands for.
    pub fn from_library_name(value: &str) -> (r: Option<Encoder>)
        ensures
            r == encoder_named(value@),
    {
        let encoders = Encoder::all();
        let mut i: usize = 0;
        while i < 9
            invariant
                i <= 9,
                encoders@ == all_encoders(),
                forall|k: int| 0 <= k < i ==> !encoder_has_name(#[trigger] all_encoders()[k], value@),
            decreases 9 - i,
        {
            let encoder = encoders[i];
            if same_text(encoder.library_name(), value) || same_text(encoder.user_name(), value) {
                proof {
                    assert(encoder_has_name(encoder, value@));
                    let e = choose|e: Encoder| #[trigger] encoder_has_name(e, value@);
                    lemma_encoder_names_differ(e, encoder, value@);
                }
                return Some(encoder);
            }
            i = i + 1;
        }
        assert forall|e: Encoder| !#[trigger] encoder_has_name(e, value@) by {
            let k: int = match e {
                Encoder::X265 => 0,
                Encoder::X264 => 1,
                Encoder::SvtAv1 => 2,
                Encoder::HevcNvenc => 3,
                Encoder::Av1Nvenc => 4,
                Encoder::H264Nvenc => 5,
                Encoder::H264VideoToolbox => 6,
                Encoder::HevcVideoToolbox => 7,
                Encoder::Av1VideoToolbox => 8,
            };
            assert(all_encoders()[k] == e);
        }
        None
    }

    pub fn is_hevc(self) -> (r: bool)
        ensures
            r == is_hevc_encoder(self),
    {
        matches!(self, Encoder::X265 | Encoder::HevcNvenc | Encoder::HevcVideoToolbox)
    }

    pub fn is_nvenc(self) -> (r: bool)
        ensures
            r == is_nvenc_encoder(self),
    {
        matches!(self, Encoder::HevcNvenc | Encoder::Av1Nvenc | Encoder::H264Nvenc)
    }

    pub fn is_videotoolbox(self) -> (r: bool)
        ensures
            r == is_videotoolbox_encoder(self),
    {
        matches!(
            self,
            Encoder::H264VideoToolbox | Encoder::HevcVideoToolbox | Encoder::Av1VideoToolbox
        )
    }

    pub fn is_hardware(self) -> (r: bool)
        ensures
            r == is_hardware_encoder(self),
    {
        self.is_nvenc() || self.is_videotoolbox()
    }
}

/// The container format of an output file.
#[derive(Debug, Clone, Copy, PartialEq, Eq, Structural)]
pub enum Container {
    Matroska,
    Mp4,
}

pub open spec fn container_extension(c: Container) -> Seq<char> {
    match c {
        Container::Matroska => "mkv"@,
        Container::Mp4 => "mp4"@,
    }
}

impl Container {
    pub fn extension(self) -> (r: &'static str)
        ensures
            r@ == container_extension(self),
    {
        match self {
            Container::Matroska => "mkv",
            Container::Mp4 => "mp4",
        }
    }
}

/// A frame rate, held as the bit pattern of an IEEE 754 double.
///
/// Positive finite doubles are ordered as their bit patterns are.
#[derive(Debug, Clone, Copy, PartialEq, Eq, Structural)]
pub struct FrameRate {
    pub bits: u64,
}

/// The bit pattern of positive infinity.
pub const INFINITY_BITS: u64 = 0x7FF0_0000_0000_0000;

/// The bit pattern of thirty frames per second.
pub const THIRTY_FPS_BITS: u64 = 0x403E_0000_0000_0000;

impl FrameRate {
    /// A positive number, neither infinite nor undefined.
    pub open spec fn usable(self) -> bool {
        0 < self.bits < INFINITY_BITS
    }

    pub fn from_bits(bits: u64) -> (r: FrameRate)
        ensures
            r.bits == bits,
    {
        FrameRate { bits }
    }

    pub fn is_usable(self) -> (r: bool)
        ensures
            r == self.usable(),
    {
        0 < self.bits && self.bits < INFINITY_BITS
    }
}

/// How the frame rate of the output is chosen.
#[derive(Debug, Clone, Copy, PartialEq, Eq, Structural)]
pub enum FpsPolicy {
    SharedLowest,
    Source,
    Exact(FrameRate),
}

#[derive(Debug, Clone, Copy, PartialEq, Eq, Structural)]
pub enum AudioPolicy {
    CopyValid,
}

#[derive(Debug, Clone, Copy, PartialEq, Eq, Structural)]
pub enum MetadataPolicy {
    Preserve,
    Remove,
}

/// The settings of one queued task.
#[derive(Debug, PartialEq, Eq)]
pub struct QueueSettings {
    pub mode: ContentMode,
    pub encoder: Encoder,
    pub fps: FpsPolicy,
    /// A whole quality level; lower is better.
    pub quality: Option<u8>,
    pub speed_preset: Option<String>,
    pub stabilize_strength: String,
    pub trim_start: Option<Duration>,
    pub trim_end: Option<Duration>,
    pub apply_lut: bool,
    pub camera_lut_path: Option<String>,
    pub photo_interval: Duration,
    pub slideshow_resolution: (u32, u32),
    pub slideshow_fps: u32,
    pub slideshow_collage: bool,
    pub slideshow_audio_paths: Vec<String>,
    pub slideshow_image_paths: Vec<String>,
    pub slideshow_review_image_paths: Vec<String>,
    pub audio: AudioPolicy,
    pub metadata: MetadataPolicy,
}

/// The contents of `QueueSettings`.
pub struct SettingsView {
    pub mode: ContentMode,
    pub encoder: Encoder,
    pub fps: FpsPolicy,
    pub quality: Option<u8>,
    pub speed_preset: Option<Seq<char>>,
    pub stabilize_strength: Seq<char>,
    pub trim_start: Option<Duration>,
    pub trim_end: Option<Duration>,
    pub apply_lut: bool,
    pub camera_lut_path: Option<Seq<char>>,
    pub photo_interval: Duration,
    pub slideshow_resolution: (u32, u32),
    pub slideshow_fps: u32,
    pub slideshow_collage: bool,
    pub slideshow_audio_paths: Seq<Seq<char>>,
    pub slideshow_image_paths: Seq<Seq<char>>,
    pub slideshow_review_image_paths: Seq<Seq<char>>,
    pub audio: AudioPolicy,
    pub metadata: MetadataPolicy,
}

impl View for QueueSettings {
    type V = SettingsView;

    open spec fn view(&self) -> SettingsView {
        SettingsView {
            mode: self.mode,
            encoder: self.encoder,
            fps: self.fps,
            quality: self.quality,
            speed_preset: opt_text(self.speed_preset),
            stabilize_strength: self.stabilize_strength@,
            trim_start: self.trim_start,
            trim_end: self.trim_end,
            apply_lut: self.apply_lut,
            camera_lut_path: opt_text(self.camera_lut_path),
            photo_interval: self.photo_interval,
            slideshow_resolution: self.slideshow_resolution,
            slideshow_fps: self.slideshow_fps,
            slideshow_collage: self.slideshow_collage,
            slideshow_audio_paths: texts(self.slideshow_audio_paths@),
            slideshow_image_paths: texts(self.slideshow_image_paths@),
            slideshow_review_image_paths: texts(self.slideshow_review_image_paths@),
            audio: self.audio,
            metadata: self.metadata,
        }
    }
}

impl Clone for QueueSettings {
    fn clone(&self) -> (r: Self)
        ensures
            r@ == self@,
    {
        QueueSettings {
            mode: self.mode,
            encoder: self.encoder,
            fps: self.fps,
            quality: self.quality,
            speed_preset: copy_opt(&self.speed_preset),
            stabilize_strength: self.stabilize_strength.clone(),
            trim_start: self.trim_start,
            trim_end: self.trim_end,
            apply_lut: self.apply_lut,
            camera_lut_path: copy_opt(&self.camera_lut_path),
            photo_interval: self.photo_interval,
            slideshow_resolution: self.slideshow_resolution,
            slideshow_fps: self.slideshow_fps,
            slideshow_collage: self.slideshow_collage,
            slideshow_audio_paths: copy_list(&self.slideshow_audio_paths),
            slideshow_image_paths: copy_list(&self.slideshow_image_paths),
            slideshow_review_image_paths: copy_list(&self.slideshow_review_image_paths),
            audio: self.audio,
            metadata: self.metadata,
        }
    }
}

/// The settings that a new task starts from.
pub open spec fn default_settings_view() -> SettingsView {
    SettingsView {
        mode: ContentMode::Tv,
        encoder: Encoder::X265,
        fps: FpsPolicy::SharedLowest,
        quality: Some(28),
        speed_preset: Some("medium"@),
        stabilize_strength: "Balanced"@,
        trim_start: None,
        trim_end: None,
        apply_lut: true,
        camera_lut_path: None,
        photo_interval: Duration { nanos: 4_000_000_000 },
        slideshow_resolution: (1920, 1080),
        slideshow_fps: 30,
        slideshow_collage: false,
        slideshow_audio_paths: Seq::empty(),
        slideshow_image_paths: Seq::empty(),
        slideshow_review_image_paths: Seq::empty(),
        audio: AudioPolicy::CopyValid,
        metadata: MetadataPolicy::Remove,
    }
}

impl Default for QueueSettings {
    fn default() -> (r: Self)
        ensures
            r@ == default_settings_view(),
    {
        let r = QueueSettings {
            mode: ContentMode::Tv,
            encoder: Encoder::X265,
            fps: FpsPolicy::SharedLowest,
            quality: Some(28),
            speed_preset: Some("medium".to_owned()),
            stabilize_strength: "Balanced".to_owned(),
            trim_start: None,
            trim_end: None,
            apply_lut: true,
            camera_lut_path: None,
            photo_interval: Duration::from_secs(4),
            slideshow_resolution: (1920, 1080),
            slideshow_fps: 30,
            slideshow_collage: false,
            slideshow_audio_paths: Vec::new(),
            slideshow_image_paths: Vec::new(),
            slideshow_review_image_paths: Vec::new(),
            audio: AudioPolicy::CopyValid,
            metadata: MetadataPolicy::Remove,
        };
        assert(r@.slideshow_audio_paths =~= Seq::empty());
        assert(r@.slideshow_image_paths =~= Seq::empty());
        assert(r@.slideshow_review_image_paths =~= Seq::empty());
        r
    }
}

#[derive(Debug, Clone, Copy, PartialEq, Eq, Structural)]
pub enum StreamKind {
    Video,
    Audio,
    Subtitle,
    Attachment,
    Data,
    Unknown,
}

#[derive(Debug, Clone, PartialEq, Eq)]
pub struct ColorCharacteristics {
    pub range: Option<String>,
    pub primaries: Option<String>,
    pub transfer: Option<String>,
    pub space: Option<String>,
    pub chroma_location: Option<String>,
}

/// One stream of a media file.
#[derive(Debug, Clone, PartialEq, Eq)]
pub struct MediaStream {
    pub index: usize,
    pub kind: StreamKind,
    pub codec_name: Option<String>,
    pub codec_profile: Option<String>,
    pub codec_level: Option<i32>,
    pub bit_depth: Option<u32>,
    pub bit_rate: Option<u64>,
    pub duration: Option<Duration>,
    pub frame_count: Option<u64>,
    pub frame_rate: Option<FrameRate>,
    pub width: Option<u32>,
    pub height: Option<u32>,
    pub sample_rate: Option<u32>,
    pub channels: Option<u32>,
    pub language: Option<String>,
    pub is_default: bool,
    pub is_forced: bool,
    pub is_attached_picture: bool,
    pub color: ColorCharacteristics,
    /// Tags as name and value, each name at most once.
    pub metadata: Vec<(String, String)>,
}

/// What a probe reports of a media file.
#[derive(Debug, Clone, PartialEq, Eq)]
pub struct MediaInfo {
    pub path: String,
    pub container_name: String,
    pub duration: Option<Duration>,
    pub file_size: Option<u64>,
    pub bit_rate: Option<u64>,
    pub width: Option<u32>,
    pub height: Option<u32>,
    pub frame_rate: Option<FrameRate>,
    pub streams: Vec<MediaStream>,
    /// Tags as name and value, each name at most once.
    pub metadata: Vec<(String, String)>,
}

/// What the media engine can do on this machine.
#[derive(Debug, Clone, PartialEq, Eq)]
pub struct EncoderCapabilities {
    pub encoders: Vec<String>,
    pub filters: Vec<String>,
    pub muxers: Vec<String>,
    pub hardware_devices: Vec<String>,
}

impl Default for EncoderCapabilities {
    fn default() -> (r: Self)
        ensures
            r.encoders@.len() == 0,
            r.filters@.len() == 0,
            r.muxers@.len() == 0,
            r.hardware_devices@.len() == 0,
    {
        EncoderCapabilities {
            encoders: Vec::new(),
            filters: Vec::new(),
            muxers: Vec::new(),
            hardware_devices: Vec::new(),
        }
    }
}

/// One conversion for the media engine.
#[derive(Debug, PartialEq, Eq)]
pub struct ConversionRequest {
    pub input: String,
    pub output: String,
    pub settings: QueueSettings,
}

/// A share of a whole.
#[derive(Debug, Clone, Copy, PartialEq, Eq, Structural)]
pub struct ProgressRatio {
    pub completed: u128,
    pub total: u128,
}

/// How far a running conversion has come.
#[derive(Debug, Clone, Copy, PartialEq, Eq, Structural)]
pub struct ConversionProgress {
    /// The work done over all passes, as against `completed`, the media time of the running pass.
    pub overall: Option<ProgressRatio>,
    pub completed: Duration,
    pub total: Option<Duration>,
    pub frames: Option<u64>,
    pub total_frames: Option<u64>,
    pub target_fps: Option<FrameRate>,
    pub frames_per_second: Option<FrameRate>,
    /// The processing speed relative to playback, held as a frame rate is.
    pub speed: Option<FrameRate>,
    pub output_bytes: Option<u64>,
}

/// A picture of the frame being converted, four bytes to a pixel.
#[derive(Debug, PartialEq, Eq)]
pub struct ConversionPreview {
    pub width: u32,
    pub height: u32,
    pub rgba: Vec<u8>,
}

/// The contents of a `ConversionPreview`.
pub struct PreviewView {
    pub width: u32,
    pub height: u32,
    pub rgba: Seq<u8>,
}

impl View for ConversionPreview {
    type V = PreviewView;

    open spec fn view(&self) -> PreviewView {
        PreviewView { width: self.width, height: self.height, rgba: self.rgba@ }
    }
}

impl Clone for ConversionPreview {
    fn clone(&self) -> (r: Self)
        ensures
            r@ == self@,
    {
        let rgba = self.rgba.clone();
        assert(rgba@ =~= self.rgba@);
        ConversionPreview { width: self.width, height: self.height, rgba }
    }
}

pub open spec fn opt_preview(picture: Option<ConversionPreview>) -> Option<PreviewView> {
    match picture {
        Some(p) => Some(p@),
        None => None,
    }
}

/// What the media engine reports during one conversion.
#[derive(Debug, PartialEq, Eq)]
pub enum ConversionEvent {
    Started { input: String, output: String },
    Progress(ConversionProgress),
    Preview(ConversionPreview),
    Warning(String),
    Completed { output: String },
}

} // verus!
