//! Full-track spectrogram planning: how many analysis columns a track gets
//! and how far apart they are.

use vstd::prelude::*;

verus! {

/// Widest spectrogram image, in columns.
pub const MAX_PIX_W: usize = 8192;

/// `ceil(a / b)`.
pub open spec fn div_ceil(a: int, b: int) -> int {
    (a + b - 1) / b
}

/// `(hop, columns)` for a track of `total` frames: the hop is at least one
/// FFT window and large enough that the column count stays within
/// `max_frames` (clamped to 512..=8192); columns = ceil(total / hop).
pub open spec fn spec_adaptive_plan(total: u64, fft_size: u32, max_frames: u32) -> (usize, usize) {
    let fft: int = if fft_size < 1 {
        1
    } else {
        fft_size as int
    };
    let cap: int = if max_frames < 512 {
        512
    } else if max_frames > 8192 {
        8192
    } else {
        max_frames as int
    };
    if total == 0 {
        (fft as usize, 0)
    } else if total <= fft {
        (fft as usize, 1)
    } else {
        let h = div_ceil(total as int, cap);
        let hop = if h < fft {
            fft
        } else {
            h
        };
        let cols = div_ceil(total as int, hop);
        (hop as usize, if cols < 1 {
            1
        } else {
            cols as usize
        })
    }
}

fn div_ceil_u64(a: u64, b: u64) -> (r: u64)
    requires
        b > 0,
    ensures
        r == div_ceil(a as int, b as int),
{
    let q = a / b;
    proof {
        vstd::arithmetic::div_mod::lemma_fundamental_div_mod(a as int, b as int);
        if a % b != 0 {
            assert(q < u64::MAX) by (nonlinear_arith)
                requires
                    a == b * q + a % b,
                    a % b >= 1,
                    a % b < b,
                    q <= a,
            ;
        }
        assert(b * q == q * b) by (nonlinear_arith);
    }
    let r = if a % b != 0 {
        q + 1
    } else {
        q
    };
    proof {
        let m = a % b;
        let rem: int = if m != 0 {
            m - 1
        } else {
            b - 1
        };
        assert(a + b - 1 == (r as int) * (b as int) + rem) by (nonlinear_arith)
            requires
                a == b * q + m,
                r == (if m != 0 {
                    q + 1
                } else {
                    q as int
                }),
                rem == (if m != 0 {
                    m - 1
                } else {
                    b - 1
                }),
        ;
        vstd::arithmetic::div_mod::lemma_fundamental_div_mod_converse(
            a + b - 1,
            b as int,
            r as int,
            (if a % b != 0 {
                a % b - 1
            } else {
                b - 1
            }) as int,
        );
    }
    r
}

/// `ceil(t / cap) <= t` for positive `t` and `cap`.
proof fn lemma_ceil_at_most(t: int, cap: int)
    requires
        t > 0,
        cap > 0,
    ensures
        div_ceil(t, cap) <= t,
        div_ceil(t, cap) >= 1,
{
    let q = div_ceil(t, cap);
    vstd::arithmetic::div_mod::lemma_fundamental_div_mod(t + cap - 1, cap);
    let r = (t + cap - 1) % cap;
    assert(cap * q + r == t + cap - 1);
    assert(q <= t) by (nonlinear_arith)
        requires
            cap * q + r == t + cap - 1,
            0 <= r < cap,
            cap >= 1,
            t >= 1,
    ;
    assert(q >= 1) by (nonlinear_arith)
        requires
            cap * q + r == t + cap - 1,
            0 <= r < cap,
            t >= 1,
    ;
}

/// With a hop of at least `ceil(t / cap)` frames, `ceil(t / hop)` columns
/// fit within `cap`.
proof fn lemma_columns_within_cap(t: int, cap: int, h: int, hop: int)
    requires
        t > 0,
        cap > 0,
        h == div_ceil(t, cap),
        hop >= h,
        hop > 0,
    ensures
        div_ceil(t, hop) <= cap,
{
    vstd::arithmetic::div_mod::lemma_fundamental_div_mod(t + cap - 1, cap);
    let r = (t + cap - 1) % cap;
    assert(cap * h + r == t + cap - 1);
    assert(t <= cap * hop) by (nonlinear_arith)
        requires
            cap * h + r == t + cap - 1,
            0 <= r < cap,
            hop >= h,
            cap > 0,
    ;
    let c = div_ceil(t, hop);
    vstd::arithmetic::div_mod::lemma_fundamental_div_mod(t + hop - 1, hop);
    let r2 = (t + hop - 1) % hop;
    assert(hop * c + r2 == t + hop - 1);
    assert(c <= cap) by (nonlinear_arith)
        requires
            hop * c + r2 == t + hop - 1,
            0 <= r2 < hop,
            t <= cap * hop,
            hop > 0,
    ;
}

/// Choose `(hop, columns)` for a whole track (see [`spec_adaptive_plan`]).
pub fn adaptive_plan(total_frames: u64, fft_size: u32, max_frames: u32) -> (r: (usize, usize))
    ensures
        r.0 == spec_adaptive_plan(total_frames, fft_size, max_frames).0,
        r.1 == spec_adaptive_plan(total_frames, fft_size, max_frames).1,
        total_frames > 0 ==> r.1 >= 1,
        r.1 <= 8192,
{
    let fft: u32 = if fft_size < 1 {
        1
    } else {
        fft_size
    };
    let cap: u64 = if max_frames < 512 {
        512
    } else if max_frames > 8192 {
        8192
    } else {
        max_frames as u64
    };
    if total_frames == 0 {
        return (fft as usize, 0);
    }
    if total_frames <= fft as u64 {
        return (fft as usize, 1);
    }
    let h = div_ceil_u64(total_frames, cap);
    let hop = if h < fft as u64 {
        fft as u64
    } else {
        h
    };
    let cols = div_ceil_u64(total_frames, hop);
    proof {
        lemma_columns_within_cap(total_frames as int, cap as int, h as int, hop as int);
        lemma_ceil_at_most(total_frames as int, cap as int);
    }
    (hop as usize, if cols < 1 {
        1
    } else {
        cols as usize
    })
}

} // verus!
