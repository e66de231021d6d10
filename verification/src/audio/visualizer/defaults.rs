//! Default values of the integer, colour and flag fields shared by the
//! visualizer types.

use vstd::prelude::*;

use crate::text::owned;

verus! {

/// Default background colour.
pub const BG_COLOR: &'static str = "#11111b";

/// Default foreground colour.
pub const FG_COLOR: &'static str = "#cba6f7";

/// Default background colour, as an owned string.
pub fn color() -> (r: String)
    ensures
        r@ == BG_COLOR@,
{
    owned(BG_COLOR)
}

/// Default foreground colour, as an owned string.
pub fn fg_color() -> (r: String)
    ensures
        r@ == FG_COLOR@,
{
    owned(FG_COLOR)
}

/// Oscilloscope columns.
pub fn max_columns() -> (r: u32)
    ensures
        r == 2000,
{
    2000
}

/// Spectrogram frames.
pub fn max_frames() -> (r: u32)
    ensures
        r == 4000,
{
    4000
}

/// FFT window size.
pub fn fft_size() -> (r: u32)
    ensures
        r == 2048,
{
    2048
}

/// Lowest displayed frequency, Hz.
pub fn freq_min() -> (r: u32)
    ensures
        r == 20,
{
    20
}

/// Highest displayed frequency, Hz.
pub fn freq_max() -> (r: u32)
    ensures
        r == 22_000,
{
    22_000
}

/// Spectrum analyzer bands.
pub fn bands() -> (r: u32)
    ensures
        r == 32,
{
    32
}

/// Peak fall-off time, ms.
pub fn peak_decay_ms() -> (r: u32)
    ensures
        r == 400,
{
    400
}

/// Gap between bars, px.
pub fn bar_gap() -> (r: u32)
    ensures
        r == 2,
{
    2
}

/// Bar corner radius, px.
pub fn bar_radius() -> (r: u32)
    ensures
        r == 2,
{
    2
}

/// `true`, for flags that default to on.
pub fn true_() -> (r: bool)
    ensures
        r,
{
    true
}

} // verus!
