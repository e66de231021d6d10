//! Player settings model: the enumerations that drive playback policy and the
//! settings record the pure decision functions read.

use vstd::prelude::*;

verus! {

/// Playlist repeat mode.
#[derive(Debug, Clone, Copy, PartialEq, Eq, Structural)]
pub enum RepeatMode {
    Off,
    All,
    One,
}

impl RepeatMode {
    pub open spec fn spec_next(self) -> RepeatMode {
        match self {
            RepeatMode::Off => RepeatMode::All,
            RepeatMode::All => RepeatMode::One,
            RepeatMode::One => RepeatMode::Off,
        }
    }

    /// The mode the repeat button cycles to: Off → All → One → Off.
    pub fn next(self) -> (r: RepeatMode)
        ensures
            r == self.spec_next(),
    {
        match self {
            RepeatMode::Off => RepeatMode::All,
            RepeatMode::All => RepeatMode::One,
            RepeatMode::One => RepeatMode::Off,
        }
    }
}

/// Pressing the repeat button three times comes back to the start, passing
/// through every mode once.
pub proof fn law_repeat_cycle_returns(m: RepeatMode)
    ensures
        m.spec_next().spec_next().spec_next() == m,
        m.spec_next() != m,
        m.spec_next().spec_next() != m,
{
}

/// Playlist table columns.
#[derive(Debug, Clone, Copy, PartialEq, Eq, Structural)]
pub enum ColumnId {
    NowPlaying,
    Index,
    TrackNumber,
    Title,
    Artist,
    Album,
    Genre,
    Year,
    Format,
    Bitrate,
    BitDepth,
    SampleRate,
    Duration,
    FileName,
    FilePath,
}

/// Where album art is looked up.
#[derive(Debug, Clone, Copy, PartialEq, Eq, Structural)]
pub enum CoverSource {
    Folder,
    Embedded,
    Internet,
}

impl CoverSource {
    pub open spec fn spec_key(self) -> Seq<char> {
        match self {
            CoverSource::Folder => "folder"@,
            CoverSource::Embedded => "embedded"@,
            CoverSource::Internet => "internet"@,
        }
    }

    /// Every source, in the default priority order.
    pub fn all() -> (r: [CoverSource; 3])
        ensures
            r@ == seq![CoverSource::Folder, CoverSource::Embedded, CoverSource::Internet],
    {
        [CoverSource::Folder, CoverSource::Embedded, CoverSource::Internet]
    }

    /// Persisted key of the source.
    pub fn key(self) -> (r: &'static str)
        ensures
            r@ == self.spec_key(),
    {
        match self {
            CoverSource::Folder => "folder",
            CoverSource::Embedded => "embedded",
            CoverSource::Internet => "internet",
        }
    }

    /// The source whose key is `k`, if any.
    pub fn from_key(k: &str) -> (r: Option<CoverSource>)
        ensures
            r matches Some(c) ==> c.spec_key() == k@,
            r is None ==> (forall|c: CoverSource| c.spec_key() != k@),
    {
        let v = crate::text::to_chars(k);
        if crate::text::chars_eq(&v, "folder") {
            Some(CoverSource::Folder)
        } else if crate::text::chars_eq(&v, "embedded") {
            Some(CoverSource::Embedded)
        } else if crate::text::chars_eq(&v, "internet") {
            Some(CoverSource::Internet)
        } else {
            None
        }
    }
}

/// The persisted keys tell the sources apart: two sources with the same key
/// are the same source, so reading back the key of a source gives that source.
pub proof fn law_cover_keys_distinct(a: CoverSource, b: CoverSource)
    ensures
        a.spec_key() == b.spec_key() ==> a == b,
{
    reveal_strlit("folder");
    reveal_strlit("embedded");
    reveal_strlit("internet");
    if a.spec_key() == b.spec_key() && a != b {
        assert(a.spec_key().len() != b.spec_key().len() || a.spec_key()[0] != b.spec_key()[0]);
    }
}

/// Sample-rate clock family.
#[derive(Debug, Clone, Copy, PartialEq, Eq, Structural)]
pub enum ClockFamily {
    Auto,
    Family44k,
    Family48k,
}

/// How DSD tracks are delivered.
#[derive(Debug, Clone, Copy, PartialEq, Eq, Structural)]
pub enum DsdMode {
    Pcm,
    Native,
    DoP,
}

/// Exclusive-access policy for the output device.
#[derive(Debug, Clone, Copy, PartialEq, Eq, Structural)]
pub enum ExclusiveMode {
    Off,
    Auto,
    Strict,
}

/// What to do when the device cannot take the track's parameters.
#[derive(Debug, Clone, Copy, PartialEq, Eq, Structural)]
pub enum FallbackPolicy {
    Nearest,
    DeviceDefault,
    Fail,
}

/// Which fallback rate to take when the native one is unsupported.
#[derive(Debug, Clone, Copy, PartialEq, Eq, Structural)]
pub enum FallbackRatePolicy {
    Nearest,
    SameFamily,
    NeverDownsample,
}

/// How the output rate is chosen.
#[derive(Debug, Clone, Copy, PartialEq, Eq, Structural)]
pub enum ResamplerMode {
    Auto,
    Native,
    Fixed,
}

/// Interpolation algorithm of the resampler.
#[derive(Debug, Clone, Copy, PartialEq, Eq, Structural)]
pub enum ResamplerAlgorithm {
    Linear,
    Cubic,
    SincFast,
    SincMedium,
    SincSlow,
}

impl ResamplerAlgorithm {
    pub open spec fn spec_sinc_taps(self) -> u32 {
        match self {
            ResamplerAlgorithm::SincFast => 32,
            ResamplerAlgorithm::SincMedium => 64,
            ResamplerAlgorithm::SincSlow => 128,
            _ => 0,
        }
    }

    /// Windowed-sinc kernel length (0 for the polynomial interpolators).
    pub fn sinc_taps(self) -> (r: u32)
        ensures
            r == self.spec_sinc_taps(),
    {
        match self {
            ResamplerAlgorithm::SincFast => 32,
            ResamplerAlgorithm::SincMedium => 64,
            ResamplerAlgorithm::SincSlow => 128,
            _ => 0,
        }
    }
}

/// Dither applied at the final quantisation.
#[derive(Debug, Clone, Copy, PartialEq, Eq, Structural)]
pub enum ResamplerDither {
    Tpdf,
    Triangular,
    Off,
}

/// Smallest accepted ring depth, in milliseconds.
pub const RING_BUFFER_MS_MIN: u32 = 100;
/// Largest accepted ring depth, in milliseconds.
pub const RING_BUFFER_MS_MAX: u32 = 5000;
/// Ring depth used until the user picks one, in milliseconds.
pub const RING_BUFFER_MS_DEFAULT: u32 = 500;

pub open spec fn spec_clamp_ring_buffer_ms(ms: u32) -> u32 {
    if ms < RING_BUFFER_MS_MIN {
        RING_BUFFER_MS_MIN
    } else if ms > RING_BUFFER_MS_MAX {
        RING_BUFFER_MS_MAX
    } else {
        ms
    }
}

/// Clamp a ring depth into `[RING_BUFFER_MS_MIN, RING_BUFFER_MS_MAX]`.
pub fn clamp_ring_buffer_ms(ms: u32) -> (r: u32)
    ensures
        r == spec_clamp_ring_buffer_ms(ms),
{
    if ms < RING_BUFFER_MS_MIN {
        RING_BUFFER_MS_MIN
    } else if ms > RING_BUFFER_MS_MAX {
        RING_BUFFER_MS_MAX
    } else {
        ms
    }
}

/// Resampler policy settings.
#[derive(Debug, Clone, Copy)]
pub struct ResamplerSettings {
    pub mode: ResamplerMode,
    pub fallback_rate: FallbackRatePolicy,
    pub prefer_family: ClockFamily,
    /// Fixed output rate (0 = pick the best rate of the preferred family).
    pub fixed_rate: u32,
    pub dither: ResamplerDither,
    pub algorithm: ResamplerAlgorithm,
}

/// Output-stream policy settings.
#[derive(Debug, Clone, Copy)]
pub struct AudioSettings {
    pub exclusive: ExclusiveMode,
    pub fallback: FallbackPolicy,
    pub bit_perfect: bool,
    pub resampler: ResamplerSettings,
}

/// DSD playback settings.
#[derive(Debug, Clone, Copy)]
pub struct DsdSettings {
    pub mode: DsdMode,
}

/// The settings the library's decisions depend on.
#[derive(Debug, Clone)]
pub struct Settings {
    /// Persisted output device key (stable id or legacy name; empty = default).
    pub audio_device: String,
    pub audio: AudioSettings,
    pub dsd: DsdSettings,
    pub repeat: RepeatMode,
    pub muted: bool,
    /// Cover sources in priority order.
    pub cover_priority: Vec<CoverSource>,
    /// File names looked up in the album folder.
    pub cover_folder_names: Vec<String>,
    /// Whether online cover lookup is allowed.
    pub cover_online: bool,
}

impl Settings {
    /// The default settings: shared-or-exclusive (`Auto`) access, nearest-rate
    /// fallback, automatic output rate, PCM conversion of DSD.
    pub fn new() -> (s: Settings)
        ensures
            s.audio_device@ == Seq::<char>::empty(),
            s.audio.exclusive == ExclusiveMode::Auto,
            s.audio.fallback == FallbackPolicy::Nearest,
            !s.audio.bit_perfect,
            s.audio.resampler.mode == ResamplerMode::Auto,
            s.audio.resampler.fallback_rate == FallbackRatePolicy::Nearest,
            s.audio.resampler.prefer_family == ClockFamily::Auto,
            s.audio.resampler.fixed_rate == 0,
            s.audio.resampler.dither == ResamplerDither::Tpdf,
            s.audio.resampler.algorithm == ResamplerAlgorithm::SincMedium,
            s.dsd.mode == DsdMode::Pcm,
            s.repeat == RepeatMode::Off,
            !s.muted,
            s.cover_priority@ == seq![CoverSource::Folder, CoverSource::Embedded, CoverSource::Internet],
            s.cover_folder_names@.len() == 0,
            s.cover_online,
    {
        Settings {
            audio_device: String::new(),
            audio: AudioSettings {
                exclusive: ExclusiveMode::Auto,
                fallback: FallbackPolicy::Nearest,
                bit_perfect: false,
                resampler: ResamplerSettings {
                    mode: ResamplerMode::Auto,
                    fallback_rate: FallbackRatePolicy::Nearest,
                    prefer_family: ClockFamily::Auto,
                    fixed_rate: 0,
                    dither: ResamplerDither::Tpdf,
                    algorithm: ResamplerAlgorithm::SincMedium,
                },
            },
            dsd: DsdSettings { mode: DsdMode::Pcm },
            repeat: RepeatMode::Off,
            muted: false,
            cover_priority: vec![CoverSource::Folder, CoverSource::Embedded, CoverSource::Internet],
            cover_folder_names: Vec::new(),
            cover_online: true,
        }
    }
}

impl Default for Settings {
    fn default() -> (s: Settings)
        ensures
            s.audio.exclusive == ExclusiveMode::Auto,
            s.audio.fallback == FallbackPolicy::Nearest,
            s.audio.resampler.mode == ResamplerMode::Auto,
            s.audio.resampler.fallback_rate == FallbackRatePolicy::Nearest,
            s.dsd.mode == DsdMode::Pcm,
    {
        Settings::new()
    }
}

} // verus!
