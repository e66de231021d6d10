//! Visualization modes and the enumerations of their settings, with the
//! mappings to persisted names and to the indices of the settings dialog.

use vstd::prelude::*;

use crate::text::{chars_eq, to_chars};

pub mod defaults;

verus! {

/// Visualization mode.
#[derive(Debug, Clone, Copy, PartialEq, Eq, Structural)]
pub enum VisualizationMode {
    /// Placeholder (artist/album/format).
    Off,
    /// Full-track signal envelope.
    Oscilloscope,
    /// Full-track frequency x time colour map.
    Spectrogram,
    /// Live bands at the current moment.
    Spectrum,
}

impl VisualizationMode {
    pub open spec fn spec_as_str(self) -> Seq<char> {
        match self {
            VisualizationMode::Off => "off"@,
            VisualizationMode::Oscilloscope => "oscilloscope"@,
            VisualizationMode::Spectrogram => "spectrogram"@,
            VisualizationMode::Spectrum => "spectrum"@,
        }
    }

    pub open spec fn spec_index(self) -> i32 {
        match self {
            VisualizationMode::Off => 0,
            VisualizationMode::Oscilloscope => 1,
            VisualizationMode::Spectrogram => 2,
            VisualizationMode::Spectrum => 3,
        }
    }

    /// Every mode, in index order.
    pub fn all() -> (r: [VisualizationMode; 4])
        ensures
            r@ == seq![
                VisualizationMode::Off,
                VisualizationMode::Oscilloscope,
                VisualizationMode::Spectrogram,
                VisualizationMode::Spectrum,
            ],
    {
        [
            VisualizationMode::Off,
            VisualizationMode::Oscilloscope,
            VisualizationMode::Spectrogram,
            VisualizationMode::Spectrum,
        ]
    }

    /// Persisted (lower-case) name.
    pub fn as_str(&self) -> (r: &'static str)
        ensures
            r@ == self.spec_as_str(),
    {
        match self {
            VisualizationMode::Off => "off",
            VisualizationMode::Oscilloscope => "oscilloscope",
            VisualizationMode::Spectrogram => "spectrogram",
            VisualizationMode::Spectrum => "spectrum",
        }
    }

    /// The mode with persisted name `s`; anything else is `Off`.
    pub fn parse(s: &str) -> (r: VisualizationMode)
        ensures
            r == if s@ == "oscilloscope"@ {
                VisualizationMode::Oscilloscope
            } else if s@ == "spectrogram"@ {
                VisualizationMode::Spectrogram
            } else if s@ == "spectrum"@ {
                VisualizationMode::Spectrum
            } else {
                VisualizationMode::Off
            },
    {
        let v = to_chars(s);
        if chars_eq(&v, "oscilloscope") {
            VisualizationMode::Oscilloscope
        } else if chars_eq(&v, "spectrogram") {
            VisualizationMode::Spectrogram
        } else if chars_eq(&v, "spectrum") {
            VisualizationMode::Spectrum
        } else {
            VisualizationMode::Off
        }
    }

    /// Index for the UI: 0 off, 1 oscilloscope, 2 spectrogram, 3 spectrum.
    pub fn index(&self) -> (r: i32)
        ensures
            r == self.spec_index(),
    {
        match self {
            VisualizationMode::Off => 0,
            VisualizationMode::Oscilloscope => 1,
            VisualizationMode::Spectrogram => 2,
            VisualizationMode::Spectrum => 3,
        }
    }

    /// The mode with index `i`; any other index is `Off`.
    pub fn from_index(i: i32) -> (r: VisualizationMode)
        ensures
            (exists|m: VisualizationMode| m.spec_index() == i) ==> r.spec_index() == i,
            (forall|m: VisualizationMode| m.spec_index() != i) ==> r == VisualizationMode::Off,
    {
        let all = VisualizationMode::all();
        let mut k: usize = 0;
        while k < 4
            invariant
                k <= 4,
                all@ == seq![
                    VisualizationMode::Off,
                    VisualizationMode::Oscilloscope,
                    VisualizationMode::Spectrogram,
                    VisualizationMode::Spectrum,
                ],
                forall|j: int| 0 <= j < k ==> all@[j].spec_index() != i,
            decreases 4 - k,
        {
            if all[k].index() == i {
                return all[k];
            }
            k += 1;
        }
        assert forall|m: VisualizationMode| m.spec_index() != i by {
            match m {
                VisualizationMode::Off => assert(all@[0] == m),
                VisualizationMode::Oscilloscope => assert(all@[1] == m),
                VisualizationMode::Spectrogram => assert(all@[2] == m),
                VisualizationMode::Spectrum => assert(all@[3] == m),
            }
        }
        VisualizationMode::Off
    }

    /// Full-track visualizations (built once and cached).
    pub fn is_fulltrack(&self) -> (r: bool)
        ensures
            r == (*self == VisualizationMode::Oscilloscope || *self
                == VisualizationMode::Spectrogram),
    {
        match self {
            VisualizationMode::Oscilloscope | VisualizationMode::Spectrogram => true,
            _ => false,
        }
    }

    /// Live visualization (updated continuously).
    pub fn is_live(&self) -> (r: bool)
        ensures
            r == (*self == VisualizationMode::Spectrum),
    {
        match self {
            VisualizationMode::Spectrum => true,
            _ => false,
        }
    }
}

/// The mode after `m` when the visualization button is pressed: Off,
/// Oscilloscope, Spectrogram, Spectrum, then Off again.
pub open spec fn spec_cycled(m: VisualizationMode) -> VisualizationMode {
    match m {
        VisualizationMode::Off => VisualizationMode::Oscilloscope,
        VisualizationMode::Oscilloscope => VisualizationMode::Spectrogram,
        VisualizationMode::Spectrogram => VisualizationMode::Spectrum,
        VisualizationMode::Spectrum => VisualizationMode::Off,
    }
}

/// The mode of menu entry `i` (entries past the list are Off).
pub open spec fn spec_mode_at(i: i32) -> VisualizationMode {
    if i == 1 {
        VisualizationMode::Oscilloscope
    } else if i == 2 {
        VisualizationMode::Spectrogram
    } else if i == 3 {
        VisualizationMode::Spectrum
    } else {
        VisualizationMode::Off
    }
}

impl VisualizationMode {
    /// The next mode in button order (the mode with the next index).
    pub fn cycled(&self) -> (r: VisualizationMode)
        ensures
            r == spec_cycled(*self),
    {
        let r = VisualizationMode::from_index(self.index() + 1);
        proof {
            match *self {
                VisualizationMode::Off => assert(VisualizationMode::Oscilloscope.spec_index() == 1),
                VisualizationMode::Oscilloscope => assert(VisualizationMode::Spectrogram.spec_index() == 2),
                VisualizationMode::Spectrogram => assert(VisualizationMode::Spectrum.spec_index() == 3),
                VisualizationMode::Spectrum => {},
            }
        }
        r
    }

    /// The mode after picking menu entry `i`: picking the entry of the
    /// current mode turns the visualization off, any other entry selects
    /// its mode.
    pub fn menu_pick(&self, i: i32) -> (r: VisualizationMode)
        ensures
            r == (if spec_mode_at(i) == *self {
                VisualizationMode::Off
            } else {
                spec_mode_at(i)
            }),
    {
        let picked = VisualizationMode::from_index(i);
        proof {
            if i == 0 {
                assert(VisualizationMode::Off.spec_index() == 0);
            } else if i == 1 {
                assert(VisualizationMode::Oscilloscope.spec_index() == 1);
            } else if i == 2 {
                assert(VisualizationMode::Spectrogram.spec_index() == 2);
            } else if i == 3 {
                assert(VisualizationMode::Spectrum.spec_index() == 3);
            }
        }
        if picked == *self {
            VisualizationMode::Off
        } else {
            picked
        }
    }
}

/// Pressing the visualization button four times comes back to the start,
/// passing through every mode once.
pub proof fn law_cycle_visits_every_mode(m: VisualizationMode)
    ensures
        spec_cycled(spec_cycled(spec_cycled(spec_cycled(m)))) == m,
        m != spec_cycled(m) && m != spec_cycled(spec_cycled(m)) && m != spec_cycled(
            spec_cycled(spec_cycled(m)),
        ),
{
}

/// The persisted name of a mode reads back as the same mode, and so does
/// its index; the two index ranges never overlap between modes.
pub proof fn law_mode_round_trips(m: VisualizationMode, n: VisualizationMode)
    ensures
        (if m.spec_as_str() == "oscilloscope"@ {
            VisualizationMode::Oscilloscope
        } else if m.spec_as_str() == "spectrogram"@ {
            VisualizationMode::Spectrogram
        } else if m.spec_as_str() == "spectrum"@ {
            VisualizationMode::Spectrum
        } else {
            VisualizationMode::Off
        }) == m,
        m.spec_index() == n.spec_index() ==> m == n,
{
    reveal_strlit("off");
    reveal_strlit("oscilloscope");
    reveal_strlit("spectrogram");
    reveal_strlit("spectrum");
    // The four names have pairwise different lengths (3, 12, 11, 8).
    assert("off"@.len() == 3 && "oscilloscope"@.len() == 12);
    assert("spectrogram"@.len() == 11 && "spectrum"@.len() == 8);
}

/// A mode is never both full-track and live.
pub proof fn law_fulltrack_and_live_exclusive(m: VisualizationMode)
    ensures
        !((m == VisualizationMode::Oscilloscope || m == VisualizationMode::Spectrogram) && m
            == VisualizationMode::Spectrum),
{
}

/// Channel handling of every visualization.
#[derive(Debug, Clone, Copy, PartialEq, Eq, Structural)]
pub enum ChannelMode {
    /// L and R summed.
    Mono,
    /// L and R separately.
    Stereo,
}

/// Frequency axis of the spectrogram and the analyzer.
#[derive(Debug, Clone, Copy, PartialEq, Eq, Structural)]
pub enum FreqScale {
    Linear,
    Log,
    Mel,
}

/// FFT window.
#[derive(Debug, Clone, Copy, PartialEq, Eq, Structural)]
pub enum WindowType {
    Hann,
    Hamming,
    Blackman,
}

/// Spectrogram colour palette.
#[derive(Debug, Clone, Copy, PartialEq, Eq, Structural)]
pub enum Palette {
    Solid,
    Magma,
    Viridis,
    Plasma,
    Inferno,
    Gray,
    Thermal,
    Rainbow,
}

/// Level axis of the analyzer.
#[derive(Debug, Clone, Copy, PartialEq, Eq, Structural)]
pub enum LevelScale {
    Linear,
    Log,
}

impl Default for VisualizationMode {
    fn default() -> (r: VisualizationMode)
        ensures
            r == VisualizationMode::Off,
    {
        VisualizationMode::Off
    }
}

impl Default for ChannelMode {
    fn default() -> (r: ChannelMode)
        ensures
            r == ChannelMode::Stereo,
    {
        ChannelMode::Stereo
    }
}

impl Default for FreqScale {
    fn default() -> (r: FreqScale)
        ensures
            r == FreqScale::Log,
    {
        FreqScale::Log
    }
}

impl Default for WindowType {
    fn default() -> (r: WindowType)
        ensures
            r == WindowType::Hann,
    {
        WindowType::Hann
    }
}

impl Default for Palette {
    fn default() -> (r: Palette)
        ensures
            r == Palette::Magma,
    {
        Palette::Magma
    }
}

impl Default for LevelScale {
    fn default() -> (r: LevelScale)
        ensures
            r == LevelScale::Log,
    {
        LevelScale::Log
    }
}

// ---------------------------------------------------------------------------
// Settings-dialog indices
// ---------------------------------------------------------------------------

pub open spec fn spec_channel_index(c: ChannelMode) -> i32 {
    match c {
        ChannelMode::Mono => 0,
        ChannelMode::Stereo => 1,
    }
}

/// Channel combo-box index: 0 mono, 1 stereo.
pub fn channel_index(c: ChannelMode) -> (r: i32)
    ensures
        r == spec_channel_index(c),
{
    match c {
        ChannelMode::Mono => 0,
        ChannelMode::Stereo => 1,
    }
}

/// Channel mode of a combo-box index (non-positive is mono).
pub fn channel_from_index(i: i32) -> (r: ChannelMode)
    ensures
        r == if i <= 0 {
            ChannelMode::Mono
        } else {
            ChannelMode::Stereo
        },
{
    if i <= 0 {
        ChannelMode::Mono
    } else {
        ChannelMode::Stereo
    }
}

pub open spec fn spec_freq_scale_index(f: FreqScale) -> i32 {
    match f {
        FreqScale::Linear => 0,
        FreqScale::Log => 1,
        FreqScale::Mel => 2,
    }
}

/// Frequency-scale index: 0 linear, 1 log, 2 mel.
pub fn freq_scale_index(f: FreqScale) -> (r: i32)
    ensures
        r == spec_freq_scale_index(f),
{
    match f {
        FreqScale::Linear => 0,
        FreqScale::Log => 1,
        FreqScale::Mel => 2,
    }
}

/// Frequency scale of an index (unknown indices are log).
pub fn freq_scale_from_index(i: i32) -> (r: FreqScale)
    ensures
        r == if i == 0 {
            FreqScale::Linear
        } else if i == 2 {
            FreqScale::Mel
        } else {
            FreqScale::Log
        },
{
    if i == 0 {
        FreqScale::Linear
    } else if i == 2 {
        FreqScale::Mel
    } else {
        FreqScale::Log
    }
}

pub open spec fn spec_level_scale_index(l: LevelScale) -> i32 {
    match l {
        LevelScale::Linear => 0,
        LevelScale::Log => 1,
    }
}

/// Level-scale index: 0 linear, 1 log.
pub fn level_scale_index(l: LevelScale) -> (r: i32)
    ensures
        r == spec_level_scale_index(l),
{
    match l {
        LevelScale::Linear => 0,
        LevelScale::Log => 1,
    }
}

/// Level scale of an index (non-positive is linear).
pub fn level_scale_from_index(i: i32) -> (r: LevelScale)
    ensures
        r == if i <= 0 {
            LevelScale::Linear
        } else {
            LevelScale::Log
        },
{
    if i <= 0 {
        LevelScale::Linear
    } else {
        LevelScale::Log
    }
}

pub open spec fn spec_window_index(w: WindowType) -> i32 {
    match w {
        WindowType::Hann => 0,
        WindowType::Hamming => 1,
        WindowType::Blackman => 2,
    }
}

/// Window index: 0 Hann, 1 Hamming, 2 Blackman.
pub fn window_index(w: WindowType) -> (r: i32)
    ensures
        r == spec_window_index(w),
{
    match w {
        WindowType::Hann => 0,
        WindowType::Hamming => 1,
        WindowType::Blackman => 2,
    }
}

/// Window of an index (unknown indices are Hann).
pub fn window_from_index(i: i32) -> (r: WindowType)
    ensures
        r == if i == 1 {
            WindowType::Hamming
        } else if i == 2 {
            WindowType::Blackman
        } else {
            WindowType::Hann
        },
{
    if i == 1 {
        WindowType::Hamming
    } else if i == 2 {
        WindowType::Blackman
    } else {
        WindowType::Hann
    }
}

pub open spec fn spec_palette_index(p: Palette) -> i32 {
    match p {
        Palette::Solid => 0,
        Palette::Magma => 1,
        Palette::Viridis => 2,
        Palette::Plasma => 3,
        Palette::Inferno => 4,
        Palette::Gray => 5,
        Palette::Thermal => 6,
        Palette::Rainbow => 7,
    }
}

pub open spec fn spec_palette_from_index(i: i32) -> Palette {
    if i == 0 {
        Palette::Solid
    } else if i == 2 {
        Palette::Viridis
    } else if i == 3 {
        Palette::Plasma
    } else if i == 4 {
        Palette::Inferno
    } else if i == 5 {
        Palette::Gray
    } else if i == 6 {
        Palette::Thermal
    } else if i == 7 {
        Palette::Rainbow
    } else {
        Palette::Magma
    }
}

/// Palette index, 0..=7 in declaration order.
pub fn palette_index(p: Palette) -> (r: i32)
    ensures
        r == spec_palette_index(p),
{
    match p {
        Palette::Solid => 0,
        Palette::Magma => 1,
        Palette::Viridis => 2,
        Palette::Plasma => 3,
        Palette::Inferno => 4,
        Palette::Gray => 5,
        Palette::Thermal => 6,
        Palette::Rainbow => 7,
    }
}

/// Palette of an index (unknown indices are Magma).
pub fn palette_from_index(i: i32) -> (r: Palette)
    ensures
        r == spec_palette_from_index(i),
{
    match i {
        0 => Palette::Solid,
        2 => Palette::Viridis,
        3 => Palette::Plasma,
        4 => Palette::Inferno,
        5 => Palette::Gray,
        6 => Palette::Thermal,
        7 => Palette::Rainbow,
        _ => Palette::Magma,
    }
}

pub open spec fn spec_fft_index(fft: u32) -> i32 {
    if fft == 512 {
        0
    } else if fft == 1024 {
        1
    } else if fft == 2048 {
        2
    } else if fft == 4096 {
        3
    } else if fft == 8192 {
        4
    } else {
        2
    }
}

/// FFT size `512 << min(|i|, 4)`.
pub open spec fn spec_fft_from_index(i: i32) -> u32 {
    let a: int = if i < 0 {
        -(i as int)
    } else {
        i as int
    };
    if a == 0 {
        512
    } else if a == 1 {
        1024
    } else if a == 2 {
        2048
    } else if a == 3 {
        4096
    } else {
        8192
    }
}

/// FFT-size index among 512..8192 (unknown sizes map to the 2048 slot).
pub fn fft_index(fft: u32) -> (r: i32)
    ensures
        r == spec_fft_index(fft),
{
    match fft {
        512 => 0,
        1024 => 1,
        2048 => 2,
        4096 => 3,
        8192 => 4,
        _ => 2,
    }
}

/// FFT size of an index: `512 << min(|i|, 4)`.
pub fn fft_from_index(i: i32) -> (r: u32)
    ensures
        r == spec_fft_from_index(i),
{
    let k: u32 = if i > 4 || i < -4 {
        4
    } else if i < 0 {
        (0 - i) as u32
    } else {
        i as u32
    };
    let r = 512u32 << k;
    assert(k == 0 ==> 512u32 << k == 512) by (bit_vector);
    assert(k == 1 ==> 512u32 << k == 1024) by (bit_vector);
    assert(k == 2 ==> 512u32 << k == 2048) by (bit_vector);
    assert(k == 3 ==> 512u32 << k == 4096) by (bit_vector);
    assert(k == 4 ==> 512u32 << k == 8192) by (bit_vector);
    r
}

/// Every dialog index reads back as the setting it was written from.
pub proof fn law_dialog_indices_round_trip(
    c: ChannelMode,
    f: FreqScale,
    l: LevelScale,
    w: WindowType,
    p: Palette,
)
    ensures
        spec_palette_from_index(spec_palette_index(p)) == p,
        (if spec_channel_index(c) <= 0 {
            ChannelMode::Mono
        } else {
            ChannelMode::Stereo
        }) == c,
        (if spec_level_scale_index(l) <= 0 {
            LevelScale::Linear
        } else {
            LevelScale::Log
        }) == l,
        (if spec_freq_scale_index(f) == 0 {
            FreqScale::Linear
        } else if spec_freq_scale_index(f) == 2 {
            FreqScale::Mel
        } else {
            FreqScale::Log
        }) == f,
        (if spec_window_index(w) == 1 {
            WindowType::Hamming
        } else if spec_window_index(w) == 2 {
            WindowType::Blackman
        } else {
            WindowType::Hann
        }) == w,
{
}

/// Every FFT size offered by the dialog survives the index round trip.
pub proof fn law_fft_index_round_trip(size: u32)
    requires
        size == 512 || size == 1024 || size == 2048 || size == 4096 || size == 8192,
    ensures
        spec_fft_from_index(spec_fft_index(size)) == size,
{
}

// ---------------------------------------------------------------------------
// Validation of the dialog's text fields
// ---------------------------------------------------------------------------

/// Outcome of checking the `freq_min`, `freq_max` and `bands` fields.
#[derive(Debug, Clone, Copy, PartialEq, Eq, Structural)]
pub struct VizTextCheck {
    /// Values to apply (only valid ones are applied).
    pub apply_freq_min: Option<u32>,
    pub apply_freq_max: Option<u32>,
    pub apply_bands: Option<u32>,
    /// Fields to highlight as invalid.
    pub freq_min_invalid: bool,
    pub freq_max_invalid: bool,
    pub bands_invalid: bool,
}

pub open spec fn in_range(v: Option<u32>, lo: u32, hi: u32) -> bool {
    v matches Some(x) && lo <= x <= hi
}

/// Frequencies must be integers in 1..=22050 with `freq_min < freq_max`;
/// bands an integer in 4..=128. Invalid values are not applied.
pub open spec fn spec_check_viz_texts(
    fmin: Option<u32>,
    fmax: Option<u32>,
    bands: Option<u32>,
) -> VizTextCheck {
    let fmin_ok = in_range(fmin, 1, 22050);
    let fmax_ok = in_range(fmax, 1, 22050);
    let bands_ok = in_range(bands, 4, 128);
    let cross_ok = !(fmin_ok && fmax_ok && fmin.unwrap() >= fmax.unwrap());
    VizTextCheck {
        apply_freq_min: if fmin_ok && cross_ok {
            fmin
        } else {
            None
        },
        apply_freq_max: if fmax_ok && cross_ok {
            fmax
        } else {
            None
        },
        apply_bands: if bands_ok {
            bands
        } else {
            None
        },
        freq_min_invalid: !fmin_ok || !cross_ok,
        freq_max_invalid: !fmax_ok || !cross_ok,
        bands_invalid: !bands_ok,
    }
}

fn opt_in_range(v: Option<u32>, lo: u32, hi: u32) -> (r: bool)
    ensures
        r == in_range(v, lo, hi),
{
    match v {
        Some(x) => lo <= x && x <= hi,
        None => false,
    }
}

/// Check the parsed text fields of the visualization settings (see
/// [`spec_check_viz_texts`]).
pub fn check_viz_texts(fmin: Option<u32>, fmax: Option<u32>, bands: Option<u32>) -> (r:
    VizTextCheck)
    ensures
        r == spec_check_viz_texts(fmin, fmax, bands),
{
    let fmin_ok = opt_in_range(fmin, 1, 22050);
    let fmax_ok = opt_in_range(fmax, 1, 22050);
    let bands_ok = opt_in_range(bands, 4, 128);
    let cross_ok = match (fmin, fmax) {
        (Some(a), Some(b)) => !(fmin_ok && fmax_ok && a >= b),
        _ => true,
    };
    VizTextCheck {
        apply_freq_min: if fmin_ok && cross_ok {
            fmin
        } else {
            None
        },
        apply_freq_max: if fmax_ok && cross_ok {
            fmax
        } else {
            None
        },
        apply_bands: if bands_ok {
            bands
        } else {
            None
        },
        freq_min_invalid: !fmin_ok || !cross_ok,
        freq_max_invalid: !fmax_ok || !cross_ok,
        bands_invalid: !bands_ok,
    }
}

/// An applied frequency pair is always ordered and in range, so the
/// spectrogram never receives an empty or inverted band.
pub proof fn law_applied_frequencies_are_ordered(
    fmin: Option<u32>,
    fmax: Option<u32>,
    bands: Option<u32>,
)
    ensures
        ({
            let c = spec_check_viz_texts(fmin, fmax, bands);
            &&& (c.apply_freq_min matches Some(a) ==> 1 <= a <= 22050)
            &&& (c.apply_freq_max matches Some(b) ==> 1 <= b <= 22050)
            &&& (c.apply_freq_min matches Some(a) ==> (c.apply_freq_max matches Some(b) ==> a
                < b))
            &&& (c.apply_bands matches Some(n) ==> 4 <= n <= 128)
            &&& (c.apply_freq_min is Some <==> !c.freq_min_invalid)
        }),
{
}


// ---------------------------------------------------------------------------
// Integer settings from the dialog
// ---------------------------------------------------------------------------

/// A count set in the dialog (a slider's `i32`), as the `u32` the settings
/// keep, limited to `lo..=hi`: a negative value reads as a huge `u32` (the
/// `as` conversion) and so gives `hi`.
pub open spec fn spec_dialog_count(i: i32, lo: u32, hi: u32) -> u32 {
    if i < 0 {
        hi
    } else if (i as u32) < lo {
        lo
    } else if (i as u32) > hi {
        hi
    } else {
        i as u32
    }
}

/// A count set in the dialog (see [`spec_dialog_count`]).
pub fn dialog_count(i: i32, lo: u32, hi: u32) -> (r: u32)
    requires
        lo <= hi,
        hi < 0x8000_0000,
    ensures
        r == spec_dialog_count(i, lo, hi),
        lo <= r <= hi,
{
    if i < 0 {
        hi
    } else {
        let u = i as u32;
        if u < lo {
            lo
        } else if u > hi {
            hi
        } else {
            u
        }
    }
}

/// Oscilloscope columns and spectrogram frames: 512 to 8192.
pub fn dialog_max_columns(i: i32) -> (r: u32)
    ensures
        r == spec_dialog_count(i, 512, 8192),
{
    dialog_count(i, 512, 8192)
}

/// Spectrum peak decay in milliseconds: 50 to 2000.
pub fn dialog_peak_decay_ms(i: i32) -> (r: u32)
    ensures
        r == spec_dialog_count(i, 50, 2000),
{
    dialog_count(i, 50, 2000)
}

/// Spectrum bar gap in pixels: 0 to 10.
pub fn dialog_bar_gap(i: i32) -> (r: u32)
    ensures
        r == spec_dialog_count(i, 0, 10),
{
    dialog_count(i, 0, 10)
}

/// Spectrum bar corner radius in pixels: 0 to 12.
pub fn dialog_bar_radius(i: i32) -> (r: u32)
    ensures
        r == spec_dialog_count(i, 0, 12),
{
    dialog_count(i, 0, 12)
}

} // verus!
