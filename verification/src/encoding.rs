//! Quality levels, speed presets, and frame rate choices of the settings form.

use crate::model::{
    ContentMode, Encoder, FpsPolicy, FrameRate, QueueSettings, SettingsView, THIRTY_FPS_BITS,
};
use crate::text::{concat2, decimal, decimal_text, texts};
use vstd::arithmetic::power2::{lemma2_to64, pow2};
use vstd::prelude::*;

verus! {

/// The worst quality level of an encoder.
pub open spec fn quality_limit(encoder: Encoder) -> u8 {
    match encoder {
        Encoder::X264 | Encoder::X265 => 51,
        _ => 63,
    }
}

/// The exponent field of an IEEE 754 single.
pub open spec fn single_exponent(bits: u32) -> nat {
    (bits % 0x8000_0000 / 0x80_0000) as nat
}

/// The significand of a normal IEEE 754 single, an integer below 2^24.
pub open spec fn single_significand(bits: u32) -> nat {
    (0x80_0000 + bits % 0x80_0000) as nat
}

/// The single is a number, and not an infinite one.
pub open spec fn is_finite_single(bits: u32) -> bool {
    single_exponent(bits) < 255
}

/// The single is a number, finite or infinite.
pub open spec fn is_number_single(bits: u32) -> bool {
    single_exponent(bits) < 255 || bits % 0x80_0000 == 0
}

/// Twice the value of a non-negative single, rounded down.
///
/// A normal single is `significand * 2^(exponent - 150)`; a subnormal one is below one half.
pub open spec fn single_doubled_floor(bits: u32) -> nat {
    let e = single_exponent(bits);
    if e == 0 {
        0
    } else if e >= 149 {
        single_significand(bits) * pow2((e - 149) as nat)
    } else {
        single_significand(bits) / pow2((149 - e) as nat)
    }
}

/// A single rounded to the nearest whole number, halves away from zero, and brought into the range
/// from zero to the limit.
pub open spec fn nearest_level(bits: u32, limit: u8) -> u8 {
    let rounded = (single_doubled_floor(bits) + 1) / 2;
    if bits >= 0x8000_0000 {
        0
    } else if rounded > limit {
        limit
    } else {
        rounded as u8
    }
}

pub fn quality_maximum(encoder: Encoder) -> (r: u8)
    ensures
        r == quality_limit(encoder),
{
    match encoder {
        Encoder::X264 | Encoder::X265 => 51,
        _ => 63,
    }
}

/// The supported quality level nearest to a number, given by the bit pattern of its single.
pub fn normalized_quality(encoder: Encoder, bits: u32) -> (r: u8)
    requires
        is_number_single(bits),
    ensures
        r == nearest_level(bits, quality_limit(encoder)),
        r <= quality_limit(encoder),
{
    let limit: u8 = quality_maximum(encoder);
    if bits >= 0x8000_0000 {
        return 0;
    }
    let exponent: u32 = bits % 0x8000_0000 / 0x80_0000;
    let significand: u32 = 0x80_0000 + bits % 0x80_0000;
    proof {
        lemma2_to64();
    }
    if exponent < 126 {
        proof {
            if exponent > 0 {
                let k = (149 - exponent) as nat;
                vstd::arithmetic::power2::lemma_pow2_strictly_increases(23, k);
                assert(significand < pow2(24));
                assert(k >= 24);
                if k > 24 {
                    vstd::arithmetic::power2::lemma_pow2_strictly_increases(24, k);
                }
                assert(significand as nat / pow2(k) == 0) by {
                    vstd::arithmetic::div_mod::lemma_basic_div(significand as int, pow2(k) as int);
                }
            }
        }
        return 0;
    }
    if exponent > 133 {
        proof {
            lemma_large_single(bits);
        }
        return limit;
    }
    let doubled: u32 = match exponent {
        126 => significand / 0x80_0000,
        127 => significand / 0x40_0000,
        128 => significand / 0x20_0000,
        129 => significand / 0x10_0000,
        130 => significand / 0x8_0000,
        131 => significand / 0x4_0000,
        132 => significand / 0x2_0000,
        _ => significand / 0x1_0000,
    };
    assert(doubled as nat == single_doubled_floor(bits));
    let rounded: u32 = (doubled + 1) / 2;
    if rounded > limit as u32 {
        limit
    } else {
        rounded as u8
    }
}

/// From an exponent of 134 on, a single is at least 128.
proof fn lemma_large_single(bits: u32)
    requires
        single_exponent(bits) > 133,
    ensures
        single_doubled_floor(bits) >= 256,
{
    lemma2_to64();
    let e = single_exponent(bits);
    let s = single_significand(bits);
    if e >= 149 {
        let p = pow2((e - 149) as nat);
        vstd::arithmetic::power2::lemma_pow2_pos((e - 149) as nat);
        assert(s * p >= s) by (nonlinear_arith)
            requires
                p >= 1,
        ;
    } else {
        let k = (149 - e) as nat;
        let p = pow2(k);
        vstd::arithmetic::power2::lemma_pow2_pos(k);
        if k < 15 {
            vstd::arithmetic::power2::lemma_pow2_strictly_increases(k, 15);
        }
        assert(p <= 0x8000);
        assert(s / p >= 256) by {
            assert(256 * p <= s);
            vstd::arithmetic::div_mod::lemma_div_is_ordered(256 * p as int, s as int, p as int);
            vstd::arithmetic::div_mod::lemma_div_by_multiple(256, p as int);
        }
    }
}

/// A range of quality levels with a friendly name.
#[derive(Debug, Clone, Copy, PartialEq, Eq)]
pub struct QualityBand {
    pub start: u8,
    pub end: u8,
    pub label: &'static str,
}

/// What a band covers and is called.
pub open spec fn band_of(b: QualityBand) -> (u8, u8, Seq<char>) {
    (b.start, b.end, b.label@)
}

pub open spec fn bands_of(bands: Seq<QualityBand>) -> Seq<(u8, u8, Seq<char>)> {
    bands.map_values(|b: QualityBand| band_of(b))
}

/// The bands of an encoder whose quality the form offers; none for the others.
pub open spec fn quality_bands(encoder: Encoder) -> Seq<(u8, u8, Seq<char>)> {
    match encoder {
        Encoder::X264 => band_table(17, 22, 27, 35, 51),
        Encoder::X265 => band_table(17, 25, 31, 39, 51),
        Encoder::SvtAv1 => band_table(19, 27, 35, 47, 63),
        _ => Seq::empty(),
    }
}

/// Five bands that end at the given levels.
pub open spec fn band_table(a: u8, b: u8, c: u8, d: u8, e: u8) -> Seq<(u8, u8, Seq<char>)> {
    seq![
        (0, a, "Max detail"@),
        ((a + 1) as u8, b, "High detail"@),
        ((b + 1) as u8, c, "Balanced"@),
        ((c + 1) as u8, d, "Smaller file"@),
        ((d + 1) as u8, e, "Smallest file"@),
    ]
}

fn five_bands(a: u8, b: u8, c: u8, d: u8, e: u8) -> (r: Vec<QualityBand>)
    requires
        a < 255,
        b < 255,
        c < 255,
        d < 255,
    ensures
        bands_of(r@) == band_table(a, b, c, d, e),
{
    let r = vec![
        QualityBand { start: 0, end: a, label: "Max detail" },
        QualityBand { start: a + 1, end: b, label: "High detail" },
        QualityBand { start: b + 1, end: c, label: "Balanced" },
        QualityBand { start: c + 1, end: d, label: "Smaller file" },
        QualityBand { start: d + 1, end: e, label: "Smallest file" },
    ];
    assert(bands_of(r@) =~= band_table(a, b, c, d, e));
    r
}

/// The range of quality levels of an encoder and its bands; levels are whole numbers from zero.
#[derive(Debug, PartialEq, Eq)]
pub struct QualityScale {
    pub minimum: u8,
    pub maximum: u8,
    pub step: u8,
    pub bands: Vec<QualityBand>,
}

pub fn quality_scale(encoder: Encoder) -> (r: QualityScale)
    ensures
        r.minimum == 0,
        r.maximum == quality_limit(encoder),
        r.step == 1,
        bands_of(r.bands@) == quality_bands(encoder),
{
    let bands = match encoder {
        Encoder::X264 => five_bands(17, 22, 27, 35, 51),
        Encoder::X265 => five_bands(17, 25, 31, 39, 51),
        Encoder::SvtAv1 => five_bands(19, 27, 35, 47, 63),
        _ => {
            let empty: Vec<QualityBand> = Vec::new();
            assert(bands_of(empty@) =~= Seq::empty());
            empty
        },
    };
    QualityScale { minimum: 0, maximum: quality_maximum(encoder), step: 1, bands }
}

/// The first band that reaches to a quality level.
pub open spec fn is_first_reaching(bands: Seq<(u8, u8, Seq<char>)>, quality: u8, i: int) -> bool {
    &&& 0 <= i < bands.len()
    &&& quality <= bands[i].1
    &&& forall|j: int| 0 <= j < i ==> quality > (#[trigger] bands[j]).1
}

/// The name of a quality level.
pub open spec fn quality_name(bands: Seq<(u8, u8, Seq<char>)>, quality: u8) -> Seq<char> {
    if exists|i: int| is_first_reaching(bands, quality, i) {
        bands[choose|i: int| is_first_reaching(bands, quality, i)].2
    } else {
        "Smallest file"@
    }
}

/// The caption of a band: its levels and, below them, its name.
pub open spec fn band_caption(band: (u8, u8, Seq<char>)) -> Seq<char> {
    decimal(band.0 as nat) + "\u{2013}"@ + decimal(band.1 as nat) + "\n"@ + band.2
}

pub open spec fn band_captions(bands: Seq<(u8, u8, Seq<char>)>) -> Seq<Seq<char>> {
    bands.map_values(|b: (u8, u8, Seq<char>)| band_caption(b))
}

/// The name of a quality level and the captions of all bands.
pub fn quality_guidance(encoder: Encoder, quality: u8) -> (r: (String, Vec<String>))
    ensures
        r.0@ == quality_name(quality_bands(encoder), quality),
        texts(r.1@) == band_captions(quality_bands(encoder)),
{
    let bands = quality_scale(encoder).bands;
    let ghost table = quality_bands(encoder);
    let mut level: Option<&'static str> = None;
    let mut labels: Vec<String> = Vec::new();
    let mut i: usize = 0;
    while i < bands.len()
        invariant
            i <= bands@.len(),
            bands_of(bands@) == table,
            level matches Some(name) ==> exists|k: int|
                k < i && #[trigger] is_first_reaching(table, quality, k) && name@ == table[k].2,
            level is None ==> forall|k: int| 0 <= k < i ==> quality > (#[trigger] table[k]).1,
            texts(labels@) == band_captions(table).take(i as int),
        decreases bands@.len() - i,
    {
        let band = bands[i];
        assert(table[i as int] == band_of(band));
        if level.is_none() && quality <= band.end {
            assert(is_first_reaching(table, quality, i as int));
            level = Some(band.label);
        }
        let mut caption = decimal_text(band.start as u128);
        caption.append("\u{2013}");
        caption.append(decimal_text(band.end as u128).as_str());
        caption.append("\n");
        caption.append(band.label);
        let ghost before = texts(labels@);
        let ghost added = caption@;
        labels.push(caption);
        assert(texts(labels@) =~= before.push(added));
        i = i + 1;
        assert(texts(labels@) =~= band_captions(table).take(i as int));
    }
    assert(band_captions(table).take(i as int) =~= band_captions(table));
    let name = match level {
        Some(name) => {
            proof {
                let k = choose|k: int|
                    #[trigger] is_first_reaching(table, quality, k) && name@ == table[k].2;
                let j = choose|j: int| is_first_reaching(table, quality, j);
                assert(j == k) by {
                    if j < k {
                        assert(quality > table[j].1);
                    }
                    if k < j {
                        assert(quality > table[k].1);
                    }
                }
            }
            name
        },
        None => "Smallest file",
    };
    (name.to_owned(), labels)
}

/// The bands of an encoder follow each other without a gap, from zero to its worst level.
pub proof fn law_bands_cover_the_range(encoder: Encoder)
    ensures
        quality_bands(encoder).len() > 0 ==> {
            let b = quality_bands(encoder);
            &&& b[0].0 == 0
            &&& b.last().1 == quality_limit(encoder)
            &&& forall|i: int| 0 <= i < b.len() ==> (#[trigger] b[i]).0 <= b[i].1
            &&& forall|i: int, j: int|
                0 <= i && j == i + 1 && j < b.len() ==> (#[trigger] b[j]).0 == (#[trigger] b[i]).1
                    + 1
        },
{
}

/// A normalized level is supported, and a supported whole number is its own normalized level.
pub proof fn law_normalized_quality_is_supported(encoder: Encoder, bits: u32)
    requires
        is_number_single(bits),
    ensures
        nearest_level(bits, quality_limit(encoder)) <= quality_limit(encoder),
        bits < 0x8000_0000 && single_doubled_floor(bits) % 2 == 0 && single_doubled_floor(bits) / 2
            <= quality_limit(encoder) ==> nearest_level(bits, quality_limit(encoder))
            == single_doubled_floor(bits) / 2,
{
}

pub open spec fn is_x26x(encoder: Encoder) -> bool {
    encoder == Encoder::X264 || encoder == Encoder::X265
}

/// The speed presets of an encoder, fastest or lowest first.
pub open spec fn speed_presets(encoder: Encoder) -> Seq<Seq<char>> {
    if is_x26x(encoder) {
        seq![
            "ultrafast"@,
            "superfast"@,
            "veryfast"@,
            "faster"@,
            "fast"@,
            "medium"@,
            "slow"@,
            "slower"@,
            "veryslow"@,
            "placebo"@,
        ]
    } else if encoder == Encoder::SvtAv1 {
        Seq::new(14, |i: int| decimal(i as nat))
    } else if crate::model::is_nvenc_encoder(encoder) {
        Seq::new(7, |i: int| "p"@ + decimal((i + 1) as nat))
    } else {
        Seq::empty()
    }
}

/// The captions of the speed presets.
pub open spec fn speed_captions(encoder: Encoder) -> Seq<Seq<char>> {
    if crate::model::is_nvenc_encoder(encoder) {
        seq![
            "P1 · Fastest"@,
            "P2 · Very fast"@,
            "P3 · Fast"@,
            "P4 · Medium (default)"@,
            "P5 · Quality"@,
            "P6 · High quality"@,
            "P7 · Highest quality"@,
        ]
    } else {
        speed_presets(encoder)
    }
}

/// The characters of a list of string slices.
pub open spec fn slice_texts(list: Seq<&str>) -> Seq<Seq<char>> {
    list.map_values(|s: &str| s@)
}

/// Owned copies of string slices.
pub fn owned_texts(list: &[&str]) -> (r: Vec<String>)
    ensures
        texts(r@) == slice_texts(list@),
{
    let mut r: Vec<String> = Vec::new();
    let mut i: usize = 0;
    while i < list.len()
        invariant
            i <= list@.len(),
            texts(r@) == slice_texts(list@).take(i as int),
        decreases list@.len() - i,
    {
        let ghost before = texts(r@);
        r.push(list[i].to_owned());
        assert(texts(r@) =~= before.push(list@[i as int]@));
        i = i + 1;
        assert(texts(r@) =~= slice_texts(list@).take(i as int));
    }
    assert(texts(r@) =~= slice_texts(list@));
    r
}

/// The numbers from `from` to `to` after a prefix.
fn numbered(prefix: &str, from: usize, to: usize) -> (r: Vec<String>)
    requires
        from <= to < 100,
    ensures
        texts(r@) == Seq::new((to - from + 1) as nat, |i: int| prefix@ + decimal((i + from) as nat)),
{
    let mut r: Vec<String> = Vec::new();
    let mut n: usize = from;
    while n <= to
        invariant
            from <= n <= to + 1,
            to < 100,
            texts(r@) == Seq::new((n - from) as nat, |i: int| prefix@ + decimal((i + from) as nat)),
        decreases to + 1 - n,
    {
        let number = decimal_text(n as u128);
        let ghost before = texts(r@);
        let item = concat2(prefix, number.as_str());
        let ghost added = item@;
        r.push(item);
        assert(texts(r@) =~= before.push(added));
        n = n + 1;
        assert(texts(r@) =~= Seq::new(
            (n - from) as nat,
            |i: int| prefix@ + decimal((i + from) as nat),
        ));
    }
    r
}

pub fn speed_options(encoder: Encoder) -> (r: Vec<String>)
    ensures
        texts(r@) == speed_presets(encoder),
{
    if matches!(encoder, Encoder::X264 | Encoder::X265) {
        let names: [&str; 10] = [
            "ultrafast",
            "superfast",
            "veryfast",
            "faster",
            "fast",
            "medium",
            "slow",
            "slower",
            "veryslow",
            "placebo",
        ];
        let r = owned_texts(names.as_slice());
        assert(texts(r@) =~= speed_presets(encoder));
        r
    } else if encoder == Encoder::SvtAv1 {
        let r = numbered("", 0, 13);
        proof {
            reveal_strlit("");
            assert forall|i: int| 0 <= i < 14 implies (#[trigger] texts(r@)[i]) == decimal(
                i as nat,
            ) by {
                assert(texts(r@)[i] =~= decimal(i as nat));
            }
        }
        assert(texts(r@) =~= speed_presets(encoder));
        r
    } else if encoder.is_nvenc() {
        let r = numbered("p", 1, 7);
        assert(texts(r@) =~= speed_presets(encoder));
        r
    } else {
        let r: Vec<String> = Vec::new();
        assert(texts(r@) =~= speed_presets(encoder));
        r
    }
}

pub fn speed_option_labels(encoder: Encoder) -> (r: Vec<String>)
    ensures
        texts(r@) == speed_captions(encoder),
{
    if encoder.is_nvenc() {
        let names: [&str; 7] = [
            "P1 · Fastest",
            "P2 · Very fast",
            "P3 · Fast",
            "P4 · Medium (default)",
            "P5 · Quality",
            "P6 · High quality",
            "P7 · Highest quality",
        ];
        let r = owned_texts(names.as_slice());
        assert(texts(r@) =~= speed_captions(encoder));
        r
    } else {
        speed_options(encoder)
    }
}

pub open spec fn speed_hint(encoder: Encoder) -> Seq<char> {
    if crate::model::is_nvenc_encoder(encoder) {
        "P1 is fastest, P4 is medium, and P7 gives the highest quality."@
    } else {
        "Slower settings usually make a smaller file but take longer."@
    }
}

pub fn speed_help(encoder: Encoder) -> (r: String)
    ensures
        r@ == speed_hint(encoder),
{
    if encoder.is_nvenc() {
        "P1 is fastest, P4 is medium, and P7 gives the highest quality.".to_owned()
    } else {
        "Slower settings usually make a smaller file but take longer.".to_owned()
    }
}

/// Every preset has exactly one caption.
pub proof fn law_presets_and_captions_match(encoder: Encoder)
    ensures
        speed_presets(encoder).len() == speed_captions(encoder).len(),
{
}

/// The frame rate choices of the form.
#[derive(Debug, Clone, Copy, PartialEq, Eq, Structural)]
pub enum FpsUiMode {
    SharedLowest,
    Source,
    Explicit,
}

pub open spec fn fps_mode_label(mode: FpsUiMode) -> Seq<char> {
    match mode {
        FpsUiMode::SharedLowest => "Shared lowest in folder"@,
        FpsUiMode::Source => "Keep source FPS"@,
        FpsUiMode::Explicit => "Set explicit FPS"@,
    }
}

impl FpsUiMode {
    pub fn label(self) -> (r: &'static str)
        ensures
            r@ == fps_mode_label(self),
    {
        match self {
            FpsUiMode::SharedLowest => "Shared lowest in folder",
            FpsUiMode::Source => "Keep source FPS",
            FpsUiMode::Explicit => "Set explicit FPS",
        }
    }
}

/// The choices of a workflow; only some workflows share the lowest rate of a folder.
pub open spec fn offered_fps_modes(share_lowest_fps: bool) -> Seq<FpsUiMode> {
    if share_lowest_fps {
        seq![FpsUiMode::SharedLowest, FpsUiMode::Source, FpsUiMode::Explicit]
    } else {
        seq![FpsUiMode::Source, FpsUiMode::Explicit]
    }
}

pub fn fps_modes_for(share_lowest_fps: bool) -> (r: Vec<FpsUiMode>)
    ensures
        r@ == offered_fps_modes(share_lowest_fps),
{
    if share_lowest_fps {
        vec![FpsUiMode::SharedLowest, FpsUiMode::Source, FpsUiMode::Explicit]
    } else {
        vec![FpsUiMode::Source, FpsUiMode::Explicit]
    }
}

/// The choice that a policy shows as.
pub open spec fn fps_choice(policy: FpsPolicy) -> FpsUiMode {
    match policy {
        FpsPolicy::SharedLowest => FpsUiMode::SharedLowest,
        FpsPolicy::Source => FpsUiMode::Source,
        FpsPolicy::Exact(_) => FpsUiMode::Explicit,
    }
}

pub fn fps_ui_mode(policy: FpsPolicy) -> (r: FpsUiMode)
    ensures
        r == fps_choice(policy),
{
    match policy {
        FpsPolicy::SharedLowest => FpsUiMode::SharedLowest,
        FpsPolicy::Source => FpsUiMode::Source,
        FpsPolicy::Exact(_) => FpsUiMode::Explicit,
    }
}

/// The rate that the form shows for a policy: the exact rate, or thirty where there is none.
pub open spec fn shown_rate(policy: FpsPolicy) -> FrameRate {
    match policy {
        FpsPolicy::Exact(rate) => if rate.usable() {
            rate
        } else {
            FrameRate { bits: THIRTY_FPS_BITS }
        },
        _ => FrameRate { bits: THIRTY_FPS_BITS },
    }
}

pub fn explicit_fps(policy: FpsPolicy) -> (r: FrameRate)
    ensures
        r == shown_rate(policy),
        r.usable(),
{
    match policy {
        FpsPolicy::Exact(rate) => {
            if rate.is_usable() {
                return rate;
            }
        },
        _ => {},
    }
    FrameRate::from_bits(THIRTY_FPS_BITS)
}

/// The policy that a choice and a rate stand for.
pub open spec fn chosen_policy(mode: FpsUiMode, rate: FrameRate) -> FpsPolicy {
    match mode {
        FpsUiMode::SharedLowest => FpsPolicy::SharedLowest,
        FpsUiMode::Source => FpsPolicy::Source,
        FpsUiMode::Explicit => FpsPolicy::Exact(rate),
    }
}

pub fn fps_policy(mode: FpsUiMode, rate: FrameRate) -> (r: FpsPolicy)
    ensures
        r == chosen_policy(mode, rate),
{
    match mode {
        FpsUiMode::SharedLowest => FpsPolicy::SharedLowest,
        FpsUiMode::Source => FpsPolicy::Source,
        FpsUiMode::Explicit => FpsPolicy::Exact(rate),
    }
}

/// Showing a policy in the form and reading it back keeps it.
pub proof fn law_fps_form_round_trip(policy: FpsPolicy)
    requires
        policy matches FpsPolicy::Exact(rate) ==> rate.usable(),
    ensures
        chosen_policy(fps_choice(policy), shown_rate(policy)) == policy,
{
}

pub fn workflow_shows_encoder(mode: ContentMode) -> (r: bool)
    ensures
        r == (mode != ContentMode::Trim),
{
    !matches!(mode, ContentMode::Trim)
}

pub open spec fn shows_fps(mode: ContentMode) -> bool {
    mode != ContentMode::Trim && mode != ContentMode::Stabilize && mode
        != ContentMode::PhotoSlideshow
}

pub fn workflow_shows_fps(mode: ContentMode) -> (r: bool)
    ensures
        r == shows_fps(mode),
{
    !matches!(mode, ContentMode::Trim | ContentMode::Stabilize | ContentMode::PhotoSlideshow)
}

/// The quality level and speed preset of the form.
#[derive(Debug, PartialEq, Eq)]
pub struct EncodingUiSettings {
    pub quality_crf: u8,
    pub speed_preset: String,
}

/// The contents of `EncodingUiSettings`.
pub struct EncodingView {
    pub quality_crf: u8,
    pub speed_preset: Seq<char>,
}

impl View for EncodingUiSettings {
    type V = EncodingView;

    open spec fn view(&self) -> EncodingView {
        EncodingView { quality_crf: self.quality_crf, speed_preset: self.speed_preset@ }
    }
}

impl Clone for EncodingUiSettings {
    fn clone(&self) -> (r: Self)
        ensures
            r == *self,
    {
        EncodingUiSettings {
            quality_crf: self.quality_crf,
            speed_preset: self.speed_preset.clone(),
        }
    }
}

/// The level and preset that settings show as; 28 and none where they have none.
pub open spec fn encoding_view(s: SettingsView) -> EncodingView {
    EncodingView {
        quality_crf: match s.quality {
            Some(q) => q,
            None => 28,
        },
        speed_preset: match s.speed_preset {
            Some(p) => p,
            None => Seq::empty(),
        },
    }
}

impl EncodingUiSettings {
    pub fn from_settings(settings: &QueueSettings) -> (r: EncodingUiSettings)
        ensures
            r@ == encoding_view(settings@),
    {
        let quality_crf: u8 = match settings.quality {
            Some(q) => q,
            None => 28,
        };
        let speed_preset = match &settings.speed_preset {
            Some(p) => p.clone(),
            None => {
                let empty = String::new();
                assert(empty@ =~= Seq::<char>::empty());
                empty
            },
        };
        EncodingUiSettings { quality_crf, speed_preset }
    }
}

/// One remembered quality level and speed preset.
#[derive(Debug, PartialEq, Eq)]
pub struct RememberedEncoding {
    pub mode: ContentMode,
    pub encoder: Encoder,
    pub settings: EncodingUiSettings,
}

/// The last entry for a workflow and encoder stands at `i`.
pub open spec fn remembered_at(
    list: Seq<RememberedEncoding>,
    mode: ContentMode,
    encoder: Encoder,
    i: int,
) -> bool {
    &&& 0 <= i < list.len()
    &&& list[i].mode == mode && list[i].encoder == encoder
    &&& forall|j: int|
        i < j < list.len() ==> !((#[trigger] list[j]).mode == mode && list[j].encoder == encoder)
}

/// What is remembered for a workflow and encoder.
pub open spec fn remembered(
    list: Seq<RememberedEncoding>,
    mode: ContentMode,
    encoder: Encoder,
) -> Option<EncodingView> {
    if exists|i: int| remembered_at(list, mode, encoder, i) {
        Some(list[choose|i: int| remembered_at(list, mode, encoder, i)].settings@)
    } else {
        None
    }
}

proof fn lemma_remembered_unique(
    list: Seq<RememberedEncoding>,
    mode: ContentMode,
    encoder: Encoder,
    i: int,
)
    requires
        remembered_at(list, mode, encoder, i),
    ensures
        remembered(list, mode, encoder) == Some(list[i].settings@),
{
    let k = choose|k: int| remembered_at(list, mode, encoder, k);
    assert(remembered_at(list, mode, encoder, k));
    assert(k == i);
}

/// What is remembered for a workflow and encoder, or else what the defaults show as.
pub fn encoding_ui_settings_for(
    list: &Vec<RememberedEncoding>,
    mode: ContentMode,
    encoder: Encoder,
    defaults: &QueueSettings,
) -> (r: EncodingUiSettings)
    ensures
        r@ == match remembered(list@, mode, encoder) {
            Some(found) => found,
            None => encoding_view(defaults@),
        },
{
    let mut i: usize = list.len();
    while i > 0
        invariant
            i <= list@.len(),
            forall|j: int|
                i <= j < list@.len() ==> !((#[trigger] list@[j]).mode == mode && list@[j].encoder
                    == encoder),
        decreases i,
    {
        i = i - 1;
        if list[i].mode == mode && list[i].encoder == encoder {
            proof {
                lemma_remembered_unique(list@, mode, encoder, i as int);
            }
            return list[i].settings.clone();
        }
    }
    EncodingUiSettings::from_settings(defaults)
}

/// Replacing the settings of the last entry of a workflow and encoder changes only what is remembered
/// for them.
proof fn lemma_replaced_entry(
    before: Seq<RememberedEncoding>,
    after: Seq<RememberedEncoding>,
    at: int,
)
    requires
        0 <= at < before.len(),
        remembered_at(before, before[at].mode, before[at].encoder, at),
        after.len() == before.len(),
        after[at].mode == before[at].mode,
        after[at].encoder == before[at].encoder,
        forall|j: int| 0 <= j < before.len() && j != at ==> after[j] == before[j],
    ensures
        remembered(after, before[at].mode, before[at].encoder) == Some(after[at].settings@),
        forall|m: ContentMode, e: Encoder|
            (m != before[at].mode || e != before[at].encoder) ==> #[trigger] remembered(after, m, e)
                == remembered(before, m, e),
{
    let mode = before[at].mode;
    let encoder = before[at].encoder;
    assert(remembered_at(after, mode, encoder, at));
    lemma_remembered_unique(after, mode, encoder, at);
    assert forall|m: ContentMode, e: Encoder|
        (m != mode || e != encoder) implies #[trigger] remembered(after, m, e) == remembered(
        before,
        m,
        e,
    ) by {
        if exists|i: int| remembered_at(before, m, e, i) {
            let i = choose|i: int| remembered_at(before, m, e, i);
            assert(i != at);
            assert(remembered_at(after, m, e, i));
            lemma_remembered_unique(after, m, e, i);
        } else if exists|i: int| remembered_at(after, m, e, i) {
            let i = choose|i: int| remembered_at(after, m, e, i);
            assert(i != at);
            assert forall|j: int| i < j < before.len() implies !((#[trigger] before[j]).mode == m
                && before[j].encoder == e) by {
                if j != at {
                    assert(after[j] == before[j]);
                }
            }
            assert(remembered_at(before, m, e, i));
        }
    }
}

/// Remembers a level and preset for a workflow and encoder.
pub fn remember_encoding(
    list: &mut Vec<RememberedEncoding>,
    mode: ContentMode,
    encoder: Encoder,
    settings: EncodingUiSettings,
)
    ensures
        remembered(final(list)@, mode, encoder) == Some(settings@),
        forall|m: ContentMode, e: Encoder|
            (m != mode || e != encoder) ==> #[trigger] remembered(final(list)@, m, e) == remembered(
                old(list)@,
                m,
                e,
            ),
{
    let ghost before = list@;
    let mut i: usize = list.len();
    while i > 0
        invariant
            i <= list@.len(),
            list@ == before,
            before == old(list)@,
            forall|j: int|
                i <= j < list@.len() ==> !((#[trigger] list@[j]).mode == mode && list@[j].encoder
                    == encoder),
        decreases i,
    {
        i = i - 1;
        if list[i].mode == mode && list[i].encoder == encoder {
            list[i].settings = settings;
            proof {
                lemma_replaced_entry(before, list@, i as int);
            }
            return;
        }
    }
    list.push(RememberedEncoding { mode, encoder, settings });
    proof {
        let before = old(list)@;
        let after = list@;
        lemma_remembered_unique(after, mode, encoder, before.len() as int);
        assert forall|m: ContentMode, e: Encoder|
            (m != mode || e != encoder) implies #[trigger] remembered(after, m, e) == remembered(
            before,
            m,
            e,
        ) by {
            if exists|i: int| remembered_at(before, m, e, i) {
                let i = choose|i: int| remembered_at(before, m, e, i);
                assert(remembered_at(after, m, e, i));
                lemma_remembered_unique(after, m, e, i);
            } else if exists|i: int| remembered_at(after, m, e, i) {
                let i = choose|i: int| remembered_at(after, m, e, i);
                assert(after[i] == before[i]);
                assert forall|j: int| i < j < before.len() implies !((#[trigger] before[j]).mode == m
                    && before[j].encoder == e) by {
                    assert(after[j] == before[j]);
                }
                assert(remembered_at(before, m, e, i));
            }
        }
    }
}

} // verus!
