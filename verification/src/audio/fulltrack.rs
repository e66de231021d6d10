//! Full-track visualization support: colour parsing and the naming of the
//! image cache (content-derived keys and file locations).

use vstd::prelude::*;

use crate::audio::player::{is_dsd_path, spec_is_dsd_path};
use crate::hashing::{
    bool_byte, default_hash_bytes, le_bytes, push_bool, push_le, push_str_bytes, std_hash_bytes, str_hash_bytes,
};
use crate::audio::visualizer::{ChannelMode, FreqScale, Palette, WindowType};
use crate::text::{append_hex, append_str, hex_char, hex_min, join_path, owned, path_join, to_chars};

verus! {

/// A DSD track (`.dsf`/`.dff`, any case): rendered through the DSD decoder
/// and skipped by the PCM-only analysis shortcuts.
pub fn is_dsd(path: &str) -> (r: bool)
    ensures
        r == spec_is_dsd_path(path@),
{
    is_dsd_path(path)
}

// ---------------------------------------------------------------------------
// Colours
// ---------------------------------------------------------------------------

pub open spec fn is_hex_digit(c: char) -> bool {
    ('0' <= c && c <= '9') || ('a' <= c && c <= 'f') || ('A' <= c && c <= 'F')
}

pub open spec fn hex_value(c: char) -> int {
    if '0' <= c && c <= '9' {
        c as int - '0' as int
    } else if 'a' <= c && c <= 'f' {
        c as int - 'a' as int + 10
    } else {
        c as int - 'A' as int + 10
    }
}

/// The hex digits of `s`, in order.
pub open spec fn hex_digits(s: Seq<char>) -> Seq<char>
    decreases s.len(),
{
    if s.len() == 0 {
        Seq::empty()
    } else if is_hex_digit(s.last()) {
        hex_digits(s.drop_last()).push(s.last())
    } else {
        hex_digits(s.drop_last())
    }
}

pub open spec fn byte_of(h: Seq<char>, i: int) -> u8 {
    (hex_value(h[i]) * 16 + hex_value(h[i + 1])) as u8
}

/// `#rrggbb` as opaque RGBA: the first six hex digits of the string give the
/// three channels (other characters are ignored); with fewer, black.
pub open spec fn spec_parse_color(s: Seq<char>) -> [u8; 4] {
    let h = hex_digits(s);
    if h.len() >= 6 {
        [byte_of(h, 0), byte_of(h, 2), byte_of(h, 4), 255]
    } else {
        [0, 0, 0, 255]
    }
}

fn hex_val(c: char) -> (r: u8)
    requires
        is_hex_digit(c),
    ensures
        r == hex_value(c),
{
    if '0' <= c && c <= '9' {
        ((c as u32) - ('0' as u32)) as u8
    } else if 'a' <= c && c <= 'f' {
        ((c as u32) - ('a' as u32) + 10) as u8
    } else {
        ((c as u32) - ('A' as u32) + 10) as u8
    }
}

/// Parse a colour like `#cba6f7` into `[r, g, b, 255]`.
pub fn parse_color(hex: &str) -> (r: [u8; 4])
    ensures
        r@ == spec_parse_color(hex@)@,
{
    let v = to_chars(hex);
    let mut h: Vec<char> = Vec::new();
    let mut i: usize = 0;
    while i < v.len()
        invariant
            i <= v@.len(),
            h@ == hex_digits(v@.take(i as int)),
            forall|k: int| 0 <= k < h@.len() ==> is_hex_digit(#[trigger] h@[k]),
        decreases v.len() - i,
    {
        let c = v[i];
        proof {
            assert(v@.take(i + 1).drop_last() =~= v@.take(i as int));
        }
        if ('0' <= c && c <= '9') || ('a' <= c && c <= 'f') || ('A' <= c && c <= 'F') {
            h.push(c);
        }
        i += 1;
    }
    assert(v@.take(v@.len() as int) =~= v@);
    if h.len() >= 6 {
        let r = hex_val(h[0]) * 16 + hex_val(h[1]);
        let g = hex_val(h[2]) * 16 + hex_val(h[3]);
        let b = hex_val(h[4]) * 16 + hex_val(h[5]);
        [r, g, b, 255]
    } else {
        [0, 0, 0, 255]
    }
}

// ---------------------------------------------------------------------------
// Cache keys
// ---------------------------------------------------------------------------

/// What a cached spectrogram depends on: the file (path, modification time
/// in milliseconds, size) and every visual parameter (floats by their bits).
#[derive(Debug, Clone)]
pub struct SpectrogramKey {
    pub path: String,
    pub mtime_ms: u128,
    pub size: u64,
    pub channels: ChannelMode,
    pub fft_size: u32,
    pub window_type: WindowType,
    pub freq_scale: FreqScale,
    pub freq_min: u32,
    pub freq_max: u32,
    pub gain_db_bits: u32,
    pub range_db_bits: u32,
    pub high_boost_db_bits: u32,
    pub palette: Palette,
    pub sensitivity_bits: u32,
    pub max_frames: u32,
    pub dsd_cic_compensation: bool,
    pub bg_color: String,
    pub fg_color: String,
}

/// What a cached oscilloscope image depends on.
#[derive(Debug, Clone)]
pub struct OscilloscopeKey {
    pub path: String,
    pub mtime_ms: u128,
    pub size: u64,
    pub channels: ChannelMode,
    pub line_width_bits: u32,
    pub draw_center_line: bool,
    pub max_columns: u32,
    pub sensitivity_bits: u32,
    pub bg_color: String,
    pub fg_color: String,
}

/// The key fields with the strings as characters.
pub struct SpectrogramKeyView {
    pub path: Seq<char>,
    pub mtime_ms: u128,
    pub size: u64,
    pub channels: u8,
    pub fft_size: u32,
    pub window_type: u8,
    pub freq_scale: u8,
    pub freq_min: u32,
    pub freq_max: u32,
    pub gain_db_bits: u32,
    pub range_db_bits: u32,
    pub high_boost_db_bits: u32,
    pub palette: u8,
    pub sensitivity_bits: u32,
    pub max_frames: u32,
    pub dsd_cic_compensation: bool,
    pub bg_color: Seq<char>,
    pub fg_color: Seq<char>,
}

pub struct OscilloscopeKeyView {
    pub path: Seq<char>,
    pub mtime_ms: u128,
    pub size: u64,
    pub channels: u8,
    pub line_width_bits: u32,
    pub draw_center_line: bool,
    pub max_columns: u32,
    pub sensitivity_bits: u32,
    pub bg_color: Seq<char>,
    pub fg_color: Seq<char>,
}

pub open spec fn channels_tag(c: ChannelMode) -> u8 {
    match c {
        ChannelMode::Mono => 0,
        ChannelMode::Stereo => 1,
    }
}

pub open spec fn window_tag(w: WindowType) -> u8 {
    match w {
        WindowType::Hann => 0,
        WindowType::Hamming => 1,
        WindowType::Blackman => 2,
    }
}

pub open spec fn scale_tag(f: FreqScale) -> u8 {
    match f {
        FreqScale::Linear => 0,
        FreqScale::Log => 1,
        FreqScale::Mel => 2,
    }
}

pub open spec fn palette_tag(p: Palette) -> u8 {
    match p {
        Palette::Solid => 0,
        Palette::Magma => 1,
        Palette::Viridis => 2,
        Palette::Plasma => 3,
        Palette::Inferno => 4,
        Palette::Gray => 5,
        Palette::Thermal => 6,
        Palette::Rainbow => 7,
    }
}

impl View for SpectrogramKey {
    type V = SpectrogramKeyView;

    open spec fn view(&self) -> SpectrogramKeyView {
        SpectrogramKeyView {
            path: self.path@,
            mtime_ms: self.mtime_ms,
            size: self.size,
            channels: channels_tag(self.channels),
            fft_size: self.fft_size,
            window_type: window_tag(self.window_type),
            freq_scale: scale_tag(self.freq_scale),
            freq_min: self.freq_min,
            freq_max: self.freq_max,
            gain_db_bits: self.gain_db_bits,
            range_db_bits: self.range_db_bits,
            high_boost_db_bits: self.high_boost_db_bits,
            palette: palette_tag(self.palette),
            sensitivity_bits: self.sensitivity_bits,
            max_frames: self.max_frames,
            dsd_cic_compensation: self.dsd_cic_compensation,
            bg_color: self.bg_color@,
            fg_color: self.fg_color@,
        }
    }
}

impl View for OscilloscopeKey {
    type V = OscilloscopeKeyView;

    open spec fn view(&self) -> OscilloscopeKeyView {
        OscilloscopeKeyView {
            path: self.path@,
            mtime_ms: self.mtime_ms,
            size: self.size,
            channels: channels_tag(self.channels),
            line_width_bits: self.line_width_bits,
            draw_center_line: self.draw_center_line,
            max_columns: self.max_columns,
            sensitivity_bits: self.sensitivity_bits,
            bg_color: self.bg_color@,
            fg_color: self.fg_color@,
        }
    }
}

/// The byte stream std's `Hash` feeds the hasher for a spectrogram key:
/// the file (path, modification time, size), the tag "spectrogram", then
/// every visual parameter in order, the colours last.
pub open spec fn spectrogram_key_bytes(k: SpectrogramKeyView) -> Seq<u8> {
    str_hash_bytes(k.path) + le_bytes(k.mtime_ms as nat, 16) + le_bytes(k.size as nat, 8)
        + str_hash_bytes("spectrogram"@) + seq![k.channels] + le_bytes(k.fft_size as nat, 4)
        + seq![k.window_type] + seq![k.freq_scale] + le_bytes(k.freq_min as nat, 4) + le_bytes(
        k.freq_max as nat,
        4,
    ) + le_bytes(k.gain_db_bits as nat, 4) + le_bytes(k.range_db_bits as nat, 4) + le_bytes(
        k.high_boost_db_bits as nat,
        4,
    ) + seq![k.palette] + le_bytes(k.sensitivity_bits as nat, 4) + le_bytes(k.max_frames as nat, 4)
        + bool_byte(k.dsd_cic_compensation) + str_hash_bytes(k.bg_color) + str_hash_bytes(
        k.fg_color,
    )
}

/// The byte stream std's `Hash` feeds the hasher for an oscilloscope key:
/// the file (path, modification time, size), the tag "oscilloscope", then
/// every visual parameter in order, the colours last.
pub open spec fn oscilloscope_key_bytes(k: OscilloscopeKeyView) -> Seq<u8> {
    str_hash_bytes(k.path) + le_bytes(k.mtime_ms as nat, 16) + le_bytes(k.size as nat, 8)
        + str_hash_bytes("oscilloscope"@) + seq![k.channels] + le_bytes(k.line_width_bits as nat, 4)
        + bool_byte(k.draw_center_line) + le_bytes(k.max_columns as nat, 4) + le_bytes(
        k.sensitivity_bits as nat,
        4,
    ) + str_hash_bytes(k.bg_color) + str_hash_bytes(k.fg_color)
}

fn channels_byte(c: ChannelMode) -> (r: u8)
    ensures
        r == channels_tag(c),
{
    match c {
        ChannelMode::Mono => 0,
        ChannelMode::Stereo => 1,
    }
}

fn window_byte(w: WindowType) -> (r: u8)
    ensures
        r == window_tag(w),
{
    match w {
        WindowType::Hann => 0,
        WindowType::Hamming => 1,
        WindowType::Blackman => 2,
    }
}

fn scale_byte(f: FreqScale) -> (r: u8)
    ensures
        r == scale_tag(f),
{
    match f {
        FreqScale::Linear => 0,
        FreqScale::Log => 1,
        FreqScale::Mel => 2,
    }
}

fn palette_byte(p: Palette) -> (r: u8)
    ensures
        r == palette_tag(p),
{
    match p {
        Palette::Solid => 0,
        Palette::Magma => 1,
        Palette::Viridis => 2,
        Palette::Plasma => 3,
        Palette::Inferno => 4,
        Palette::Gray => 5,
        Palette::Thermal => 6,
        Palette::Rainbow => 7,
    }
}

/// The bytes hashed for a spectrogram key (see [`spectrogram_key_bytes`]).
pub fn spectrogram_key_stream(k: &SpectrogramKey) -> (r: Vec<u8>)
    ensures
        r@ == spectrogram_key_bytes(k@),
{
    let mut b: Vec<u8> = Vec::new();
    push_str_bytes(&mut b, k.path.as_str());
    push_le(&mut b, k.mtime_ms, 16);
    push_le(&mut b, k.size as u128, 8);
    push_str_bytes(&mut b, "spectrogram");
    b.push(channels_byte(k.channels));
    push_le(&mut b, k.fft_size as u128, 4);
    b.push(window_byte(k.window_type));
    b.push(scale_byte(k.freq_scale));
    push_le(&mut b, k.freq_min as u128, 4);
    push_le(&mut b, k.freq_max as u128, 4);
    push_le(&mut b, k.gain_db_bits as u128, 4);
    push_le(&mut b, k.range_db_bits as u128, 4);
    push_le(&mut b, k.high_boost_db_bits as u128, 4);
    b.push(palette_byte(k.palette));
    push_le(&mut b, k.sensitivity_bits as u128, 4);
    push_le(&mut b, k.max_frames as u128, 4);
    push_bool(&mut b, k.dsd_cic_compensation);
    push_str_bytes(&mut b, k.bg_color.as_str());
    push_str_bytes(&mut b, k.fg_color.as_str());
    assert(b@ =~= spectrogram_key_bytes(k@));
    b
}

/// The bytes hashed for an oscilloscope key (see [`oscilloscope_key_bytes`]).
pub fn oscilloscope_key_stream(k: &OscilloscopeKey) -> (r: Vec<u8>)
    ensures
        r@ == oscilloscope_key_bytes(k@),
{
    let mut b: Vec<u8> = Vec::new();
    push_str_bytes(&mut b, k.path.as_str());
    push_le(&mut b, k.mtime_ms, 16);
    push_le(&mut b, k.size as u128, 8);
    push_str_bytes(&mut b, "oscilloscope");
    b.push(channels_byte(k.channels));
    push_le(&mut b, k.line_width_bits as u128, 4);
    push_bool(&mut b, k.draw_center_line);
    push_le(&mut b, k.max_columns as u128, 4);
    push_le(&mut b, k.sensitivity_bits as u128, 4);
    push_str_bytes(&mut b, k.bg_color.as_str());
    push_str_bytes(&mut b, k.fg_color.as_str());
    assert(b@ =~= oscilloscope_key_bytes(k@));
    b
}

/// A lower-case hex digit.
pub open spec fn is_lower_hex_digit(c: char) -> bool {
    ('0' <= c && c <= '9') || ('a' <= c && c <= 'f')
}

/// What a cache key looks like: 1 to 16 lower-case hex digits.
pub open spec fn key_shape(s: Seq<char>) -> bool {
    &&& 1 <= s.len() <= 16
    &&& forall|i: int| 0 <= i < s.len() ==> is_lower_hex_digit(#[trigger] s[i])
}

pub open spec fn pow16(k: nat) -> nat
    decreases k,
{
    if k == 0 {
        1
    } else {
        16 * pow16((k - 1) as nat)
    }
}

proof fn lemma_hex_min_shape(n: nat, k: nat)
    requires
        k >= 1,
        n < pow16(k),
    ensures
        1 <= hex_min(n).len() <= k,
        forall|i: int| 0 <= i < hex_min(n).len() ==> is_lower_hex_digit(#[trigger] hex_min(n)[i]),
    decreases n,
{
    if n >= 16 {
        assert(k >= 2) by {
            if k == 1 {
                assert(pow16(1) == 16 * pow16(0));
            }
        }
        assert(pow16(k) == 16 * pow16((k - 1) as nat));
        assert(n / 16 < pow16((k - 1) as nat));
        lemma_hex_min_shape(n / 16, (k - 1) as nat);
        let d = n % 16;
        assert(is_lower_hex_digit(hex_char(d, false)));
        assert forall|i: int| 0 <= i < hex_min(n).len() implies is_lower_hex_digit(#[trigger] hex_min(n)[i]) by {
            if i < hex_min(n / 16).len() {
                assert(hex_min(n)[i] == hex_min(n / 16)[i]);
            }
        }
    } else {
        assert(is_lower_hex_digit(hex_char(n, false)));
    }
}

/// A 64-bit hash in lower-case hex has the shape of a cache key.
proof fn lemma_key_shape(h: u64)
    ensures
        key_shape(hex_min(h as nat)),
{
    assert(pow16(16) == 0x1_0000_0000_0000_0000) by {
        reveal_with_fuel(pow16, 17);
    }
    lemma_hex_min_shape(h as nat, 16);
}

/// Cache keys are 1 to 16 lower-case hex digits, and a function of the key
/// fields alone: equal fields give equal keys.
pub proof fn law_cache_key_shape(s1: SpectrogramKeyView, s2: SpectrogramKeyView, o: OscilloscopeKeyView)
    ensures
        key_shape(hex_min(std_hash_bytes(spectrogram_key_bytes(s1)) as nat)),
        key_shape(hex_min(std_hash_bytes(oscilloscope_key_bytes(o)) as nat)),
        s1 == s2 ==> hex_min(std_hash_bytes(spectrogram_key_bytes(s1)) as nat) == hex_min(
            std_hash_bytes(spectrogram_key_bytes(s2)) as nat,
        ),
{
    lemma_key_shape(std_hash_bytes(spectrogram_key_bytes(s1)));
    lemma_key_shape(std_hash_bytes(oscilloscope_key_bytes(o)));
}

/// Cache key of a full-track spectrogram: its hash in lower-case hex.
pub fn cache_key_spectrogram(k: &SpectrogramKey) -> (r: String)
    ensures
        r@ == hex_min(std_hash_bytes(spectrogram_key_bytes(k@)) as nat),
        key_shape(r@),
{
    proof {
        lemma_key_shape(std_hash_bytes(spectrogram_key_bytes(k@)));
    }
    let bytes = spectrogram_key_stream(k);
    let mut s = String::new();
    append_hex(&mut s, default_hash_bytes(bytes.as_slice()));
    s
}

/// Cache key of a full-track oscilloscope image: its hash in lower-case hex.
pub fn cache_key(k: &OscilloscopeKey) -> (r: String)
    ensures
        r@ == hex_min(std_hash_bytes(oscilloscope_key_bytes(k@)) as nat),
        key_shape(r@),
{
    proof {
        lemma_key_shape(std_hash_bytes(oscilloscope_key_bytes(k@)));
    }
    let bytes = oscilloscope_key_stream(k);
    let mut s = String::new();
    append_hex(&mut s, default_hash_bytes(bytes.as_slice()));
    s
}

/// The visualization cache directory under the user cache directory.
pub fn viz_cache_dir(cache_root: &str) -> (r: String)
    ensures
        r@ == join_path(join_path(cache_root@, "music_player"@), "viz"@),
{
    let a = path_join(cache_root, "music_player");
    path_join(a.as_str(), "viz")
}

/// PNG file of a cached image in `viz_dir`.
pub fn cache_png_path(viz_dir: &str, key: &str) -> (r: String)
    ensures
        r@ == join_path(viz_dir@, key@ + ".png"@),
{
    let mut name = owned(key);
    append_str(&mut name, ".png");
    path_join(viz_dir, name.as_str())
}

/// JSON sidecar of a cached image in `viz_dir`.
pub fn cache_meta_path(viz_dir: &str, key: &str) -> (r: String)
    ensures
        r@ == join_path(viz_dir@, key@ + ".json"@),
{
    let mut name = owned(key);
    append_str(&mut name, ".json");
    path_join(viz_dir, name.as_str())
}

/// Sidecar record of a cached image.
#[derive(Debug, Clone)]
pub struct CacheMeta {
    pub path: String,
    pub mtime_secs: u64,
    pub size: u64,
    pub mode: String,
    pub channels: String,
    pub max_columns: u32,
    pub width: usize,
    pub height: usize,
}

/// A cached image is still valid when the file on disk is not newer than
/// the modification time recorded with it.
pub fn cache_meta_valid_for(meta: &CacheMeta, disk_mtime_secs: Option<u64>) -> (r: bool)
    ensures
        r == match disk_mtime_secs {
            Some(d) => d <= meta.mtime_secs,
            None => false,
        },
{
    match disk_mtime_secs {
        Some(d) => d <= meta.mtime_secs,
        None => false,
    }
}

} // verus!
