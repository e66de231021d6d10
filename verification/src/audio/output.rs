//! Output-device model and the stream-selection policy: which device, how
//! many channels, which rate, format and buffer a track is played with, and
//! why the choice degrades from the ideal (native rate, exclusive access).

use vstd::prelude::*;

use crate::settings::{
    ClockFamily, DsdMode, ExclusiveMode, FallbackPolicy, FallbackRatePolicy, ResamplerMode,
    Settings,
};
use crate::text::{append_dec, append_part, append_str, dec, join, lemma_join_push, owned, str_eq};

verus! {

// ---------------------------------------------------------------------------
// Backend-independent device description
// ---------------------------------------------------------------------------

/// Sample formats an output stream can carry.
#[derive(Debug, Clone, Copy, PartialEq, Eq, Structural)]
pub enum SampleFormat {
    I8,
    I16,
    I24,
    I32,
    I64,
    U8,
    U16,
    U24,
    U32,
    U64,
    F32,
    F64,
    DsdU8,
    DsdU16,
    DsdU32,
}

/// Buffer sizes a configuration accepts (in frames).
#[derive(Debug, Clone, Copy, PartialEq, Eq, Structural)]
pub enum SupportedBufferSize {
    Range { min: u32, max: u32 },
    Unknown,
}

/// Requested buffer size of a stream.
#[derive(Debug, Clone, Copy, PartialEq, Eq, Structural)]
pub enum BufferSize {
    Default,
    Fixed(u32),
}

/// Stream geometry handed to the backend.
#[derive(Debug, Clone, Copy, PartialEq, Eq, Structural)]
pub struct StreamConfig {
    pub channels: u16,
    pub sample_rate: u32,
    pub buffer_size: BufferSize,
}

/// One entry of a device's supported-configuration list.
#[derive(Debug, Clone, Copy, PartialEq, Eq, Structural)]
pub struct RateRange {
    pub channels: u16,
    pub min: u32,
    pub max: u32,
    pub buffer_size: SupportedBufferSize,
}

/// Device category (what kind of node the backend exposes).
#[derive(Debug, Clone, Copy, PartialEq, Eq, Structural)]
pub enum DeviceCategory {
    /// A raw hardware node (`hw:*`) without a resampling layer in between.
    Hardware,
    /// A sound-server proxy (PipeWire/Pulse/plughw/default/front/surround).
    ServerProxy,
    /// Virtual ALSA nodes (dmix, dsnoop, softvol, null, ffmpeg).
    Virtual,
    /// Loopback / "Monitor of …" nodes.
    Loopback,
    /// Anything else.
    Unknown,
}

/// Capabilities of one output device, enough to run the selection policy
/// without a live backend.
#[derive(Debug, Clone)]
pub struct DeviceInfo {
    /// Stable backend key (e.g. the ALSA pcm id `hw:CARD=4,DEV=0`).
    pub id: String,
    /// Human-readable label.
    pub name: String,
    pub channels: u16,
    pub sample_rate: u32,
    pub sample_format: SampleFormat,
    pub buffer_size: SupportedBufferSize,
    pub supported: Vec<RateRange>,
    pub category: DeviceCategory,
    /// Sorted, duplicate-free list of rate bounds (for UI and family checks).
    pub supported_rates: Vec<u32>,
    /// Supported sample formats, first-appearance order, no duplicates.
    pub supported_formats: Vec<SampleFormat>,
    /// A raw hardware node that could run an exclusive stream.
    pub exclusive_capable: bool,
}

/// Whether some supported range covers `rate` (any channel count).
pub open spec fn spec_supports_rate(sup: Seq<RateRange>, rate: u32) -> bool {
    exists|i: int| 0 <= i < sup.len() && sup[i].min <= rate && rate <= sup[i].max
}

/// First of the standard DoP container rates the device supports.
pub open spec fn spec_dop_container_rate(sup: Seq<RateRange>) -> Option<u32> {
    if spec_supports_rate(sup, 176400) {
        Some(176400u32)
    } else if spec_supports_rate(sup, 352800) {
        Some(352800u32)
    } else if spec_supports_rate(sup, 705600) {
        Some(705600u32)
    } else {
        None
    }
}

impl DeviceInfo {
    /// Two output channels.
    pub fn is_stereo(&self) -> (r: bool)
        ensures
            r == (self.channels == 2),
    {
        self.channels == 2
    }

    /// Whether the device can run at `rate`: some raw range `[min, max]`
    /// contains it (a continuous range covers intermediate rates too).
    pub fn supports_rate(&self, rate: u32) -> (r: bool)
        ensures
            r == spec_supports_rate(self.supported@, rate),
    {
        let mut i: usize = 0;
        while i < self.supported.len()
            invariant
                i <= self.supported.len(),
                forall|j: int|
                    0 <= j < i ==> !(self.supported@[j].min <= rate && rate
                        <= self.supported@[j].max),
            decreases self.supported.len() - i,
        {
            let r = self.supported[i];
            if r.min <= rate && rate <= r.max {
                return true;
            }
            i += 1;
        }
        false
    }

    /// Whether `f` is among the supported formats.
    pub fn supports_format(&self, f: SampleFormat) -> (r: bool)
        ensures
            r == self.supported_formats@.contains(f),
    {
        let mut i: usize = 0;
        while i < self.supported_formats.len()
            invariant
                i <= self.supported_formats.len(),
                forall|j: int| 0 <= j < i ==> self.supported_formats@[j] != f,
            decreases self.supported_formats.len() - i,
        {
            if self.supported_formats[i] == f {
                return true;
            }
            i += 1;
        }
        false
    }

    /// DoP container rate for DSD64/128/256: the first supported of
    /// 176400, 352800, 705600.
    pub fn dop_container_rate(&self) -> (r: Option<u32>)
        ensures
            r == spec_dop_container_rate(self.supported@),
    {
        if self.supports_rate(176400) {
            Some(176400)
        } else if self.supports_rate(352800) {
            Some(352800)
        } else if self.supports_rate(705600) {
            Some(705600)
        } else {
            None
        }
    }
}

// ---------------------------------------------------------------------------
// Rate helpers
// ---------------------------------------------------------------------------

/// Output buffer target of ~40 ms (`rate * 0.04` frames), clamped into
/// `[min, max]`. For every `u32` rate `floor(rate * 0.04)` equals `rate / 25`
/// exactly, so the computation stays in integers.
pub open spec fn spec_target_buffer_frames(rate: u32, min: u32, max: u32) -> u32 {
    let t = rate / 25;
    if t < min {
        min
    } else if t > max {
        max
    } else {
        t
    }
}

pub fn target_buffer_frames(rate: u32, min: u32, max: u32) -> (r: u32)
    requires
        min <= max,
    ensures
        r == spec_target_buffer_frames(rate, min, max),
{
    let t = rate / 25;
    if t < min {
        min
    } else if t > max {
        max
    } else {
        t
    }
}

/// Candidate rate a range offers for `req`: `req` itself inside the range,
/// otherwise the nearer bound.
pub open spec fn range_candidate(r: RateRange, req: u32) -> u32 {
    if req < r.min {
        r.min
    } else if req > r.max {
        r.max
    } else {
        req
    }
}

/// Distance between `req` and the range's candidate.
pub open spec fn range_distance(r: RateRange, req: u32) -> int {
    if req < r.min {
        r.min - req
    } else if req > r.max {
        req - r.max
    } else {
        0
    }
}

/// `rate` is the candidate of a range with `channels` channels, and no such
/// range offers a closer candidate, nor an equally close but lower one.
pub open spec fn is_nearest_rate(ranges: Seq<RateRange>, channels: u16, req: u32, rate: u32) -> bool {
    &&& exists|i: int|
        0 <= i < ranges.len() && ranges[i].channels == channels && range_candidate(ranges[i], req)
            == rate && #[trigger] range_distance(ranges[i], req) == (if req < rate {
            rate - req
        } else {
            req - rate
        })
    &&& forall|j: int|
        0 <= j < ranges.len() && ranges[j].channels == channels ==> {
            let d = if req < rate {
                rate - req
            } else {
                req - rate
            };
            range_distance(ranges[j], req) > d || (range_distance(ranges[j], req) == d
                && range_candidate(ranges[j], req) >= rate)
        }
}

proof fn lemma_candidate_distance(r: RateRange, req: u32)
    ensures
        range_distance(r, req) == (if req < range_candidate(r, req) {
            range_candidate(r, req) - req
        } else {
            req - range_candidate(r, req)
        }),
{
}

/// Nearest supported rate for `requested` among the ranges with `channels`
/// channels: `requested` itself when a range covers it, else the closest
/// range bound; ties go to the lower rate. `None` without such a range.
pub fn nearest_rate(ranges: &[RateRange], channels: u16, requested: u32) -> (r: Option<u32>)
    ensures
        r is None <==> (forall|i: int| 0 <= i < ranges@.len() ==> ranges@[i].channels != channels),
        r matches Some(x) ==> is_nearest_rate(ranges@, channels, requested, x),
{
    let mut best: Option<(u64, u32)> = None;
    let mut i: usize = 0;
    while i < ranges.len()
        invariant
            i <= ranges.len(),
            best is None <==> (forall|k: int| 0 <= k < i ==> ranges@[k].channels != channels),
            best matches Some(b) ==> {
                &&& b.0 == (if requested < b.1 {
                    b.1 - requested
                } else {
                    requested - b.1
                })
                &&& exists|k: int|
                    0 <= k < i && ranges@[k].channels == channels && range_candidate(
                        ranges@[k],
                        requested,
                    ) == b.1 && #[trigger] range_distance(ranges@[k], requested) == b.0
                &&& forall|j: int|
                    0 <= j < i && ranges@[j].channels == channels ==> range_distance(
                        ranges@[j],
                        requested,
                    ) > b.0 || (range_distance(ranges@[j], requested) == b.0 && range_candidate(
                        ranges@[j],
                        requested,
                    ) >= b.1)
            },
        decreases ranges.len() - i,
    {
        let r = ranges[i];
        if r.channels == channels {
            let req = requested as u64;
            let lo = r.min as u64;
            let hi = r.max as u64;
            let (candidate, dist) = if req < lo {
                (r.min, lo - req)
            } else if req > hi {
                (r.max, req - hi)
            } else {
                (requested, 0u64)
            };
            proof {
                lemma_candidate_distance(r, requested);
            }
            let better = match best {
                None => true,
                Some((bd, br)) => dist < bd || (dist == bd && candidate < br),
            };
            if better {
                best = Some((dist, candidate));
                assert(range_distance(ranges@[i as int], requested) == dist);
            }
        }
        i += 1;
    }
    match best {
        None => None,
        Some((_, rate)) => Some(rate),
    }
}

/// Clock family of a rate: multiples of 44100 belong to the 44.1k family,
/// everything else to the 48k family.
pub open spec fn spec_clock_family_of(rate: u32) -> ClockFamily {
    if rate % 44100 == 0 {
        ClockFamily::Family44k
    } else {
        ClockFamily::Family48k
    }
}

pub fn clock_family_of(rate: u32) -> (r: ClockFamily)
    ensures
        r == spec_clock_family_of(rate),
{
    if rate % 44100 == 0 {
        ClockFamily::Family44k
    } else {
        ClockFamily::Family48k
    }
}

/// Both rates belong to the same clock family.
pub fn same_family(a: u32, b: u32) -> (r: bool)
    ensures
        r == (spec_clock_family_of(a) == spec_clock_family_of(b)),
{
    clock_family_of(a) == clock_family_of(b)
}

pub open spec fn spec_resolve_family(prefer: ClockFamily, track_rate: u32) -> ClockFamily {
    match prefer {
        ClockFamily::Auto => spec_clock_family_of(track_rate),
        other => other,
    }
}

/// Concrete family for a request: `Auto` follows the source rate.
pub fn resolve_family(prefer: ClockFamily, track_rate: u32) -> (r: ClockFamily)
    ensures
        r == spec_resolve_family(prefer, track_rate),
{
    match prefer {
        ClockFamily::Auto => clock_family_of(track_rate),
        other => other,
    }
}

/// Base rate of a concrete family (`None` for `Auto`).
pub open spec fn family_base(family: ClockFamily) -> Option<u32> {
    match family {
        ClockFamily::Family44k => Some(44100u32),
        ClockFamily::Family48k => Some(48000u32),
        ClockFamily::Auto => None,
    }
}

/// `m` is the largest element of `rates` satisfying "multiple of `base`".
pub open spec fn is_max_multiple(rates: Seq<u32>, base: u32, m: u32) -> bool {
    &&& rates.contains(m)
    &&& m % base == 0
    &&& forall|k: int| 0 <= k < rates.len() && rates[k] % base == 0 ==> rates[k] <= m
}

/// Highest listed device rate that is a multiple of the family base;
/// `None` when the family is empty on the device (or `Auto` is passed).
pub fn nearest_in_family(device: &DeviceInfo, family: ClockFamily) -> (r: Option<u32>)
    ensures
        family_base(family) is None ==> r is None,
        family_base(family) matches Some(base) ==> {
            &&& r is None <==> (forall|k: int|
                0 <= k < device.supported_rates@.len() ==> device.supported_rates@[k] % base != 0)
            &&& r matches Some(m) ==> is_max_multiple(device.supported_rates@, base, m)
        },
{
    let base: u32 = match family {
        ClockFamily::Family44k => 44100,
        ClockFamily::Family48k => 48000,
        ClockFamily::Auto => {
            return None;
        },
    };
    let rates = &device.supported_rates;
    let mut best: Option<u32> = None;
    let mut i: usize = 0;
    while i < rates.len()
        invariant
            i <= rates.len(),
            base == 44100 || base == 48000,
            family_base(family) == Some(base),
            best is None <==> (forall|k: int| 0 <= k < i ==> rates@[k] % base != 0),
            best matches Some(m) ==> {
                &&& rates@.subrange(0, i as int).contains(m)
                &&& m % base == 0
                &&& forall|k: int| 0 <= k < i && rates@[k] % base == 0 ==> rates@[k] <= m
            },
        decreases rates.len() - i,
    {
        let r = rates[i];
        if r % base == 0 {
            match best {
                None => {
                    best = Some(r);
                },
                Some(m) => {
                    if r > m {
                        best = Some(r);
                    }
                },
            }
        }
        proof {
            if best is Some {
                let m = best->0;
                if rates@.subrange(0, i as int).contains(m) {
                    let w = choose|w: int| 0 <= w < i && rates@.subrange(0, i as int)[w] == m;
                    assert(rates@.subrange(0, i + 1)[w] == m);
                } else {
                    assert(rates@.subrange(0, i + 1)[i as int] == m);
                }
            }
        }
        i += 1;
    }
    assert(rates@.subrange(0, rates.len() as int) =~= rates@);
    best
}

/// `m` is the smallest element of `rates` at or above `req`.
pub open spec fn is_min_at_least(rates: Seq<u32>, req: u32, m: u32) -> bool {
    &&& rates.contains(m)
    &&& m >= req
    &&& forall|k: int| 0 <= k < rates.len() && rates[k] >= req ==> rates[k] >= m
}

/// Lowest listed device rate at or above `requested`.
pub fn nearest_rate_at_least(device: &DeviceInfo, requested: u32) -> (r: Option<u32>)
    ensures
        r is None <==> (forall|k: int|
            0 <= k < device.supported_rates@.len() ==> device.supported_rates@[k] < requested),
        r matches Some(m) ==> is_min_at_least(device.supported_rates@, requested, m),
{
    let rates = &device.supported_rates;
    let mut best: Option<u32> = None;
    let mut i: usize = 0;
    while i < rates.len()
        invariant
            i <= rates.len(),
            best is None <==> (forall|k: int| 0 <= k < i ==> rates@[k] < requested),
            best matches Some(m) ==> {
                &&& rates@.subrange(0, i as int).contains(m)
                &&& m >= requested
                &&& forall|k: int| 0 <= k < i && rates@[k] >= requested ==> rates@[k] >= m
            },
        decreases rates.len() - i,
    {
        let r = rates[i];
        if r >= requested {
            match best {
                None => {
                    best = Some(r);
                },
                Some(m) => {
                    if r < m {
                        best = Some(r);
                    }
                },
            }
        }
        proof {
            if best is Some {
                let m = best->0;
                if rates@.subrange(0, i as int).contains(m) {
                    let w = choose|w: int| 0 <= w < i && rates@.subrange(0, i as int)[w] == m;
                    assert(rates@.subrange(0, i + 1)[w] == m);
                } else {
                    assert(rates@.subrange(0, i + 1)[i as int] == m);
                }
            }
        }
        i += 1;
    }
    assert(rates@.subrange(0, rates.len() as int) =~= rates@);
    best
}

} // verus!

verus! {

// ---------------------------------------------------------------------------
// Selection policy
// ---------------------------------------------------------------------------

/// Why the chosen stream departs from the ideal (native rate + exclusive).
#[derive(Debug, Clone, Copy, PartialEq, Eq, Structural)]
pub enum FallbackReason {
    /// The requested (or fixed) rate is unavailable; another was chosen.
    RateUnsupported { requested: u32, chosen: u32, cross_family: bool },
    /// The source channel count is not supported directly (downmix).
    ChannelsUnsupported { requested: usize, chosen: u16 },
    /// Exclusive access was requested but the device cannot give it.
    ExclusiveUnavailable,
    /// The rate was converted because `Fixed` resampling was requested.
    ResamplerForced { requested: u32 },
    /// The requested clock family is empty on the device; its default was used.
    ClockFamilyIncomplete { requested: u32, chosen: u32 },
}

/// Output parameters assembled from the settings for one source.
#[derive(Debug, Clone)]
pub struct OutputRequest {
    pub track_rate: u32,
    pub track_channels: usize,
    /// Wanted device (stable id or legacy name), or `None` for the default.
    pub preferred_device: Option<String>,
    pub exclusive: ExclusiveMode,
    pub fallback: FallbackPolicy,
    pub resampler: ResamplerMode,
    pub fallback_rate: FallbackRatePolicy,
    /// Preferred clock family (only used with `resampler = Fixed`).
    pub clock_family: ClockFamily,
    /// Fixed output rate (0 = best rate of the family).
    pub fixed_rate: u32,
}

/// The backend-independent result of device selection.
#[derive(Debug, Clone)]
pub struct ChosenOutput {
    pub device_id: String,
    pub device_name: String,
    pub config: StreamConfig,
    pub sample_format: SampleFormat,
    /// Raw stream without the OS mixer.
    pub exclusive: bool,
    /// The output rate differs from the source rate.
    pub resampled: bool,
    pub source_rate: u32,
    pub source_channels: usize,
    pub fallback: Option<FallbackReason>,
}

/// The stream parameters of a successful selection (device aside).
#[derive(Debug, Clone, Copy, PartialEq, Eq, Structural)]
pub struct StreamChoice {
    pub channels: u16,
    pub sample_rate: u32,
    pub buffer_size: BufferSize,
    pub sample_format: SampleFormat,
    pub exclusive: bool,
    pub resampled: bool,
    pub fallback: Option<FallbackReason>,
}

/// Key of a device: its stable id or its display name.
pub open spec fn device_key(d: DeviceInfo, by_name: bool) -> Seq<char> {
    if by_name {
        d.name@
    } else {
        d.id@
    }
}

/// Index of the first device at or after `start` whose id (or name) is `key`.
pub open spec fn first_match_from(devs: Seq<DeviceInfo>, key: Seq<char>, by_name: bool, start: int) -> Option<int>
    decreases devs.len() - start,
{
    if start < 0 || start >= devs.len() {
        None
    } else if device_key(devs[start], by_name) == key {
        Some(start)
    } else {
        first_match_from(devs, key, by_name, start + 1)
    }
}

pub open spec fn first_with_id(devs: Seq<DeviceInfo>, key: Seq<char>) -> Option<int> {
    first_match_from(devs, key, false, 0)
}

pub open spec fn first_with_name(devs: Seq<DeviceInfo>, key: Seq<char>) -> Option<int> {
    first_match_from(devs, key, true, 0)
}

proof fn lemma_first_match_in_range(devs: Seq<DeviceInfo>, key: Seq<char>, by_name: bool, start: int)
    ensures
        first_match_from(devs, key, by_name, start) matches Some(i) ==> start <= i < devs.len()
            && device_key(devs[i], by_name) == key,
    decreases devs.len() - start,
{
    if start >= 0 && start < devs.len() && device_key(devs[start], by_name) != key {
        lemma_first_match_in_range(devs, key, by_name, start + 1);
    }
}

/// A device key resolves by id first, by name second.
pub open spec fn lookup_device(devs: Seq<DeviceInfo>, key: Seq<char>) -> Option<int> {
    match first_with_id(devs, key) {
        Some(i) => Some(i),
        None => first_with_name(devs, key),
    }
}

/// The device a request plays on: the preferred key (ignored when empty),
/// else the host default, each resolved by id then by name.
pub open spec fn spec_resolve_device(
    devs: Seq<DeviceInfo>,
    preferred: Option<Seq<char>>,
    default_name: Option<Seq<char>>,
) -> Option<int> {
    let from_pref = match preferred {
        Some(p) => if p.len() > 0 {
            lookup_device(devs, p)
        } else {
            None
        },
        None => None,
    };
    match from_pref {
        Some(i) => Some(i),
        None => match default_name {
            Some(d) => lookup_device(devs, d),
            None => None,
        },
    }
}

/// The buffer ranges the selection reads for a stream of `channels` are
/// well formed (`min <= max`): the device's own and those of the supported
/// configurations with that channel count.
pub open spec fn buffers_ok(d: DeviceInfo, channels: u16) -> bool {
    &&& (d.buffer_size matches SupportedBufferSize::Range { min, max } ==> min <= max)
    &&& forall|i: int|
        0 <= i < d.supported@.len() && d.supported@[i].channels == channels ==> (
        #[trigger] d.supported@[i].buffer_size matches SupportedBufferSize::Range { min, max }
            ==> min <= max)
}

/// Channel count a stereo source gets on `d`.
pub open spec fn stereo_channels(d: DeviceInfo) -> u16 {
    let m: usize = if 2 < d.channels as usize {
        2
    } else {
        d.channels as usize
    };
    if m < 1 {
        1
    } else {
        m as u16
    }
}

/// Rate choice for the resampler mode and fallback policies, with the reason
/// the rate departs from the request (or the error that stops selection).
pub open spec fn spec_pick_rate(d: DeviceInfo, req: OutputRequest, channels: u16) -> Result<
    (u32, Option<FallbackReason>),
    Seq<char>,
> {
    let track = req.track_rate;
    let sup = d.supported@;
    let nearest_or_default = |r: u32|
        if exists|x: u32| is_nearest_rate(sup, channels, r, x) {
            choose|x: u32| is_nearest_rate(sup, channels, r, x)
        } else {
            d.sample_rate
        };
    match req.resampler {
        ResamplerMode::Native => if spec_supports_rate(sup, track) {
            Ok((track, None))
        } else {
            Err(
                "Native mode requires exact rate match; device lacks "@ + dec(track as nat)
                    + " Hz"@,
            )
        },
        ResamplerMode::Fixed => if req.fixed_rate != 0 {
            if !spec_supports_rate(sup, req.fixed_rate) {
                let n = nearest_or_default(req.fixed_rate);
                Ok(
                    (
                        n,
                        Some(
                            FallbackReason::RateUnsupported {
                                requested: req.fixed_rate,
                                chosen: n,
                                cross_family: spec_clock_family_of(req.fixed_rate)
                                    != spec_clock_family_of(n),
                            },
                        ),
                    ),
                )
            } else {
                Ok((req.fixed_rate, None))
            }
        } else {
            let fam = spec_resolve_family(req.clock_family, track);
            let base = family_base(fam)->0;
            if exists|m: u32| is_max_multiple(d.supported_rates@, base, m) {
                Ok((choose|m: u32| is_max_multiple(d.supported_rates@, base, m), None))
            } else {
                Ok(
                    (
                        d.sample_rate,
                        Some(
                            FallbackReason::ClockFamilyIncomplete {
                                requested: track,
                                chosen: d.sample_rate,
                            },
                        ),
                    ),
                )
            }
        },
        ResamplerMode::Auto => if spec_supports_rate(sup, track) {
            Ok((track, None))
        } else {
            match req.fallback {
                FallbackPolicy::Fail => Err(
                    "device does not support "@ + dec(track as nat) + " Hz"@,
                ),
                FallbackPolicy::DeviceDefault => Ok((d.sample_rate, None)),
                FallbackPolicy::Nearest => match req.fallback_rate {
                    FallbackRatePolicy::Nearest => {
                        let n = nearest_or_default(track);
                        Ok(
                            (
                                n,
                                Some(
                                    FallbackReason::RateUnsupported {
                                        requested: track,
                                        chosen: n,
                                        cross_family: spec_clock_family_of(track)
                                            != spec_clock_family_of(n),
                                    },
                                ),
                            ),
                        )
                    },
                    FallbackRatePolicy::SameFamily => {
                        let base = family_base(spec_clock_family_of(track))->0;
                        if exists|m: u32| is_max_multiple(d.supported_rates@, base, m) {
                            let m = choose|m: u32| is_max_multiple(d.supported_rates@, base, m);
                            Ok(
                                (
                                    m,
                                    Some(
                                        FallbackReason::RateUnsupported {
                                            requested: track,
                                            chosen: m,
                                            cross_family: false,
                                        },
                                    ),
                                ),
                            )
                        } else {
                            let n = nearest_or_default(track);
                            Ok(
                                (
                                    n,
                                    Some(
                                        FallbackReason::RateUnsupported {
                                            requested: track,
                                            chosen: n,
                                            cross_family: true,
                                        },
                                    ),
                                ),
                            )
                        }
                    },
                    FallbackRatePolicy::NeverDownsample => {
                        if exists|m: u32| is_min_at_least(d.supported_rates@, track, m) {
                            let m = choose|m: u32| is_min_at_least(d.supported_rates@, track, m);
                            Ok(
                                (
                                    m,
                                    Some(
                                        FallbackReason::RateUnsupported {
                                            requested: track,
                                            chosen: m,
                                            cross_family: spec_clock_family_of(track)
                                                != spec_clock_family_of(m),
                                        },
                                    ),
                                ),
                            )
                        } else {
                            Err("no supported rate at or above "@ + dec(track as nat) + " Hz"@)
                        }
                    },
                },
            }
        },
    }
}

/// Buffer size: the device-level range gives a ~40 ms target at the default
/// rate; the last supported range with the stream's channel count and a
/// known buffer range overrides it with a target at that range's max rate.
pub open spec fn spec_buffer_over(sup: Seq<RateRange>, channels: u16, base: BufferSize) -> BufferSize
    decreases sup.len(),
{
    if sup.len() == 0 {
        base
    } else {
        let prev = spec_buffer_over(sup.drop_last(), channels, base);
        let r = sup.last();
        if r.channels == channels {
            match r.buffer_size {
                SupportedBufferSize::Range { min, max } => BufferSize::Fixed(
                    spec_target_buffer_frames(r.max, min, max),
                ),
                _ => prev,
            }
        } else {
            prev
        }
    }
}

pub open spec fn spec_buffer(d: DeviceInfo, channels: u16) -> BufferSize {
    let base = match d.buffer_size {
        SupportedBufferSize::Range { min, max } => BufferSize::Fixed(
            spec_target_buffer_frames(d.sample_rate, min, max),
        ),
        _ => BufferSize::Default,
    };
    spec_buffer_over(d.supported@, channels, base)
}

/// Sample format: exclusive streams take the first supported of
/// I32, I24, I16, F32; shared streams take F32. Otherwise the device default.
pub open spec fn spec_format(d: DeviceInfo, exclusive: bool) -> SampleFormat {
    let f = d.supported_formats@;
    if exclusive {
        if f.contains(SampleFormat::I32) {
            SampleFormat::I32
        } else if f.contains(SampleFormat::I24) {
            SampleFormat::I24
        } else if f.contains(SampleFormat::I16) {
            SampleFormat::I16
        } else if f.contains(SampleFormat::F32) {
            SampleFormat::F32
        } else {
            d.sample_format
        }
    } else if f.contains(SampleFormat::F32) {
        SampleFormat::F32
    } else {
        d.sample_format
    }
}

/// Output channel count: the source count clamped into `1..=device channels`.
pub open spec fn spec_channels(track_channels: usize, device_channels: u16) -> u16 {
    let m = if track_channels < device_channels as usize {
        track_channels
    } else {
        device_channels as usize
    };
    if m < 1 {
        1u16
    } else {
        m as u16
    }
}

/// The whole selection: device, exclusive access, channels, rate, buffer,
/// format and the reported degradation (rate reason first, then the earlier
/// exclusive/channel reason, then forced resampling in `Fixed` mode).
pub open spec fn spec_choose_output(
    devs: Seq<DeviceInfo>,
    default_name: Option<Seq<char>>,
    req: OutputRequest,
) -> Result<(int, StreamChoice), Seq<char>> {
    let pref = preferred_view(req);
    if devs.len() == 0 {
        Err("No audio output device found"@)
    } else {
        match spec_resolve_device(devs, pref, default_name) {
            None => Err("No audio output device found"@),
            Some(i) => {
                let d = devs[i];
                let strict_fail = req.exclusive == ExclusiveMode::Strict && !d.exclusive_capable;
                let exclusive = req.exclusive != ExclusiveMode::Off && d.exclusive_capable;
                let excl_reason = req.exclusive == ExclusiveMode::Auto && !d.exclusive_capable;
                let channels = spec_channels(req.track_channels, d.channels);
                let channels_fail = req.fallback == FallbackPolicy::Fail && (req.track_channels
                    as u16) > d.channels;
                let wanted_ch = if req.track_channels < 1 {
                    1u16
                } else {
                    req.track_channels as u16
                };
                let early = if channels != wanted_ch {
                    Some(
                        FallbackReason::ChannelsUnsupported {
                            requested: req.track_channels,
                            chosen: channels,
                        },
                    )
                } else if excl_reason {
                    Some(FallbackReason::ExclusiveUnavailable)
                } else {
                    None
                };
                if strict_fail {
                    Err("Exclusive mode unavailable on this device"@)
                } else if channels_fail {
                    Err(
                        "device does not support "@ + dec(req.track_channels as nat)
                            + " channels"@,
                    )
                } else {
                    match spec_pick_rate(d, req, channels) {
                        Err(e) => Err(e),
                        Ok((rate, rate_reason)) => {
                            let resampled = rate != req.track_rate;
                            let fallback = if rate_reason is Some {
                                rate_reason
                            } else if early is Some {
                                early
                            } else if req.resampler == ResamplerMode::Fixed && resampled {
                                Some(FallbackReason::ResamplerForced { requested: req.track_rate })
                            } else {
                                None
                            };
                            Ok(
                                (
                                    i,
                                    StreamChoice {
                                        channels,
                                        sample_rate: rate,
                                        buffer_size: spec_buffer(d, channels),
                                        sample_format: spec_format(d, exclusive),
                                        exclusive,
                                        resampled,
                                        fallback,
                                    },
                                ),
                            )
                        },
                    }
                }
            },
        }
    }
}

/// `c` is the selection `choice` on device `d` for request `req`.
pub open spec fn chosen_matches(c: ChosenOutput, d: DeviceInfo, choice: StreamChoice, req: OutputRequest) -> bool {
    &&& c.device_id@ == d.id@
    &&& c.device_name@ == d.name@
    &&& c.config.channels == choice.channels
    &&& c.config.sample_rate == choice.sample_rate
    &&& c.config.buffer_size == choice.buffer_size
    &&& c.sample_format == choice.sample_format
    &&& c.exclusive == choice.exclusive
    &&& c.resampled == choice.resampled
    &&& c.fallback == choice.fallback
    &&& c.source_rate == req.track_rate
    &&& c.source_channels == req.track_channels
}

pub open spec fn preferred_view(req: OutputRequest) -> Option<Seq<char>> {
    match req.preferred_device {
        Some(p) => Some(p@),
        None => None,
    }
}

pub open spec fn opt_view(s: Option<&str>) -> Option<Seq<char>> {
    match s {
        Some(x) => Some(x@),
        None => None,
    }
}

} // verus!

verus! {

proof fn lemma_nearest_unique(ranges: Seq<RateRange>, channels: u16, req: u32, x: u32, y: u32)
    requires
        is_nearest_rate(ranges, channels, req, x),
        is_nearest_rate(ranges, channels, req, y),
    ensures
        x == y,
{
    let kx = choose|k: int|
        0 <= k < ranges.len() && ranges[k].channels == channels && range_candidate(ranges[k], req)
            == x && #[trigger] range_distance(ranges[k], req) == (if req < x {
            x - req
        } else {
            req - x
        });
    let ky = choose|k: int|
        0 <= k < ranges.len() && ranges[k].channels == channels && range_candidate(ranges[k], req)
            == y && #[trigger] range_distance(ranges[k], req) == (if req < y {
            y - req
        } else {
            req - y
        });
    assert(range_distance(ranges[ky], req) == (if req < y { y - req } else { req - y }));
    assert(range_distance(ranges[kx], req) == (if req < x { x - req } else { req - x }));
}

proof fn lemma_nearest_is_choice(ranges: Seq<RateRange>, channels: u16, req: u32, x: u32)
    requires
        is_nearest_rate(ranges, channels, req, x),
    ensures
        (choose|y: u32| is_nearest_rate(ranges, channels, req, y)) == x,
{
    let y = choose|y: u32| is_nearest_rate(ranges, channels, req, y);
    lemma_nearest_unique(ranges, channels, req, x, y);
}

proof fn lemma_no_nearest(ranges: Seq<RateRange>, channels: u16, req: u32)
    requires
        forall|i: int| 0 <= i < ranges.len() ==> ranges[i].channels != channels,
    ensures
        !(exists|x: u32| is_nearest_rate(ranges, channels, req, x)),
{
}

proof fn lemma_max_multiple_is_choice(rates: Seq<u32>, base: u32, m: u32)
    requires
        is_max_multiple(rates, base, m),
    ensures
        (choose|y: u32| is_max_multiple(rates, base, y)) == m,
{
    let y = choose|y: u32| is_max_multiple(rates, base, y);
    let iy = choose|k: int| 0 <= k < rates.len() && rates[k] == y;
    let im = choose|k: int| 0 <= k < rates.len() && rates[k] == m;
    assert(rates[iy] <= m);
    assert(rates[im] <= y);
}

proof fn lemma_min_at_least_is_choice(rates: Seq<u32>, req: u32, m: u32)
    requires
        is_min_at_least(rates, req, m),
    ensures
        (choose|y: u32| is_min_at_least(rates, req, y)) == m,
{
    let y = choose|y: u32| is_min_at_least(rates, req, y);
    let iy = choose|k: int| 0 <= k < rates.len() && rates[k] == y;
    let im = choose|k: int| 0 <= k < rates.len() && rates[k] == m;
    assert(rates[iy] >= m);
    assert(rates[im] >= y);
}

/// Index of the first device whose id (or name) is `key`.
fn find_first(devices: &[DeviceInfo], key: &str, by_name: bool) -> (r: Option<usize>)
    ensures
        match r {
            Some(i) => first_match_from(devices@, key@, by_name, 0) == Some(i as int),
            None => first_match_from(devices@, key@, by_name, 0) is None,
        },
{
    let mut i: usize = 0;
    while i < devices.len()
        invariant
            i <= devices.len(),
            first_match_from(devices@, key@, by_name, 0) == first_match_from(
                devices@,
                key@,
                by_name,
                i as int,
            ),
        decreases devices.len() - i,
    {
        let d = &devices[i];
        let hit = if by_name {
            str_eq(d.name.as_str(), key)
        } else {
            str_eq(d.id.as_str(), key)
        };
        if hit {
            return Some(i);
        }
        i += 1;
    }
    None
}

/// Resolve a device key: by stable id first, then by display name.
fn find_device(devices: &[DeviceInfo], key: &str) -> (r: Option<usize>)
    ensures
        match r {
            Some(i) => lookup_device(devices@, key@) == Some(i as int),
            None => lookup_device(devices@, key@) is None,
        },
{
    match find_first(devices, key, false) {
        Some(i) => Some(i),
        None => find_first(devices, key, true),
    }
}

proof fn lemma_lookup_in_range(devs: Seq<DeviceInfo>, key: Seq<char>)
    ensures
        lookup_device(devs, key) matches Some(i) ==> 0 <= i < devs.len(),
{
    lemma_first_match_in_range(devs, key, false, 0);
    lemma_first_match_in_range(devs, key, true, 0);
}

fn lit(s: &str) -> (r: String)
    ensures
        r@ == s@,
{
    owned(s)
}

/// `prefix` + decimal `n` + `suffix`.
fn msg_with_number(prefix: &str, n: u64, suffix: &str) -> (r: String)
    ensures
        r@ == prefix@ + dec(n as nat) + suffix@,
{
    let mut s = owned(prefix);
    append_dec(&mut s, n);
    append_str(&mut s, suffix);
    s
}

/// Nearest rate for `req`, or the device default when no range has the
/// stream's channel count.
fn nearest_or_default(d: &DeviceInfo, channels: u16, req: u32) -> (r: u32)
    ensures
        r == (if exists|x: u32| is_nearest_rate(d.supported@, channels, req, x) {
            choose|x: u32| is_nearest_rate(d.supported@, channels, req, x)
        } else {
            d.sample_rate
        }),
{
    match nearest_rate(d.supported.as_slice(), channels, req) {
        Some(x) => {
            proof {
                lemma_nearest_is_choice(d.supported@, channels, req, x);
            }
            x
        },
        None => {
            proof {
                lemma_no_nearest(d.supported@, channels, req);
            }
            d.sample_rate
        },
    }
}

/// Rate step of the selection policy.
fn pick_rate(d: &DeviceInfo, req: &OutputRequest, channels: u16) -> (r: Result<
    (u32, Option<FallbackReason>),
    String,
>)
    ensures
        match (r, spec_pick_rate(*d, *req, channels)) {
            (Ok(a), Ok(b)) => a == b,
            (Err(e), Err(m)) => e@ == m,
            _ => false,
        },
{
    let track = req.track_rate;
    match req.resampler {
        ResamplerMode::Native => {
            if !d.supports_rate(track) {
                return Err(
                    msg_with_number(
                        "Native mode requires exact rate match; device lacks ",
                        track as u64,
                        " Hz",
                    ),
                );
            }
            Ok((track, None))
        },
        ResamplerMode::Fixed => {
            if req.fixed_rate != 0 {
                if !d.supports_rate(req.fixed_rate) {
                    let nearest = nearest_or_default(d, channels, req.fixed_rate);
                    let cross_family = !same_family(req.fixed_rate, nearest);
                    Ok(
                        (
                            nearest,
                            Some(
                                FallbackReason::RateUnsupported {
                                    requested: req.fixed_rate,
                                    chosen: nearest,
                                    cross_family,
                                },
                            ),
                        ),
                    )
                } else {
                    Ok((req.fixed_rate, None))
                }
            } else {
                let fam = resolve_family(req.clock_family, track);
                match nearest_in_family(d, fam) {
                    Some(m) => {
                        proof {
                            lemma_max_multiple_is_choice(
                                d.supported_rates@,
                                family_base(fam)->0,
                                m,
                            );
                        }
                        Ok((m, None))
                    },
                    None => Ok(
                        (
                            d.sample_rate,
                            Some(
                                FallbackReason::ClockFamilyIncomplete {
                                    requested: track,
                                    chosen: d.sample_rate,
                                },
                            ),
                        ),
                    ),
                }
            }
        },
        ResamplerMode::Auto => {
            if d.supports_rate(track) {
                Ok((track, None))
            } else {
                match req.fallback {
                    FallbackPolicy::Fail => Err(
                        msg_with_number("device does not support ", track as u64, " Hz"),
                    ),
                    FallbackPolicy::DeviceDefault => Ok((d.sample_rate, None)),
                    FallbackPolicy::Nearest => match req.fallback_rate {
                        FallbackRatePolicy::Nearest => {
                            let nearest = nearest_or_default(d, channels, track);
                            let cross_family = !same_family(track, nearest);
                            Ok(
                                (
                                    nearest,
                                    Some(
                                        FallbackReason::RateUnsupported {
                                            requested: track,
                                            chosen: nearest,
                                            cross_family,
                                        },
                                    ),
                                ),
                            )
                        },
                        FallbackRatePolicy::SameFamily => {
                            let fam = clock_family_of(track);
                            match nearest_in_family(d, fam) {
                                Some(m) => {
                                    proof {
                                        lemma_max_multiple_is_choice(
                                            d.supported_rates@,
                                            family_base(fam)->0,
                                            m,
                                        );
                                    }
                                    Ok(
                                        (
                                            m,
                                            Some(
                                                FallbackReason::RateUnsupported {
                                                    requested: track,
                                                    chosen: m,
                                                    cross_family: false,
                                                },
                                            ),
                                        ),
                                    )
                                },
                                None => {
                                    let nearest = nearest_or_default(d, channels, track);
                                    Ok(
                                        (
                                            nearest,
                                            Some(
                                                FallbackReason::RateUnsupported {
                                                    requested: track,
                                                    chosen: nearest,
                                                    cross_family: true,
                                                },
                                            ),
                                        ),
                                    )
                                },
                            }
                        },
                        FallbackRatePolicy::NeverDownsample => {
                            match nearest_rate_at_least(d, track) {
                                Some(m) => {
                                    proof {
                                        lemma_min_at_least_is_choice(d.supported_rates@, track, m);
                                    }
                                    let cross_family = !same_family(track, m);
                                    Ok(
                                        (
                                            m,
                                            Some(
                                                FallbackReason::RateUnsupported {
                                                    requested: track,
                                                    chosen: m,
                                                    cross_family,
                                                },
                                            ),
                                        ),
                                    )
                                },
                                None => Err(
                                    msg_with_number(
                                        "no supported rate at or above ",
                                        track as u64,
                                        " Hz",
                                    ),
                                ),
                            }
                        },
                    },
                }
            }
        },
    }
}

/// Buffer step of the selection policy.
fn pick_buffer(d: &DeviceInfo, channels: u16) -> (r: BufferSize)
    requires
        buffers_ok(*d, channels),
    ensures
        r == spec_buffer(*d, channels),
{
    let mut chosen = match d.buffer_size {
        SupportedBufferSize::Range { min, max } => BufferSize::Fixed(
            target_buffer_frames(d.sample_rate, min, max),
        ),
        _ => BufferSize::Default,
    };
    let ghost base = chosen;
    let mut i: usize = 0;
    while i < d.supported.len()
        invariant
            i <= d.supported.len(),
            buffers_ok(*d, channels),
            chosen == spec_buffer_over(d.supported@.take(i as int), channels, base),
            base == (match d.buffer_size {
                SupportedBufferSize::Range { min, max } => BufferSize::Fixed(
                    spec_target_buffer_frames(d.sample_rate, min, max),
                ),
                _ => BufferSize::Default,
            }),
        decreases d.supported.len() - i,
    {
        let cfg = d.supported[i];
        assert(d.supported@.take(i + 1).drop_last() =~= d.supported@.take(i as int));
        assert(d.supported@.take(i + 1).last() == d.supported@[i as int]);
        if cfg.channels == channels {
            match cfg.buffer_size {
                SupportedBufferSize::Range { min, max } => {
                    assert(d.supported@[i as int].buffer_size == cfg.buffer_size);
                    chosen = BufferSize::Fixed(target_buffer_frames(cfg.max, min, max));
                },
                _ => {},
            }
        }
        i += 1;
    }
    assert(d.supported@.take(d.supported.len() as int) =~= d.supported@);
    chosen
}

/// Format step of the selection policy.
fn pick_format(d: &DeviceInfo, exclusive: bool) -> (r: SampleFormat)
    ensures
        r == spec_format(*d, exclusive),
{
    if exclusive {
        if d.supports_format(SampleFormat::I32) {
            SampleFormat::I32
        } else if d.supports_format(SampleFormat::I24) {
            SampleFormat::I24
        } else if d.supports_format(SampleFormat::I16) {
            SampleFormat::I16
        } else if d.supports_format(SampleFormat::F32) {
            SampleFormat::F32
        } else {
            d.sample_format
        }
    } else if d.supports_format(SampleFormat::F32) {
        SampleFormat::F32
    } else {
        d.sample_format
    }
}

/// Decide which device and stream configuration a track plays with.
///
/// Pure selection, no backend involved: exclusive access, channels, sample
/// rate (Auto/Native/Fixed with the fallback policies), buffer size and
/// sample format, reporting the degradation in [`ChosenOutput::fallback`].
pub fn choose_output(
    devices: &[DeviceInfo],
    default_name: Option<&str>,
    req: &OutputRequest,
) -> (r: Result<ChosenOutput, String>)
    requires
        ({
            spec_choose_output(devices@, opt_view(default_name), *req) matches Ok((i, c)) ==> (0 <= i
                < devices@.len() ==> buffers_ok(devices@[i], c.channels))
        }),
    ensures
        match (r, spec_choose_output(devices@, opt_view(default_name), *req)) {
            (Ok(c), Ok((i, choice))) => 0 <= i < devices@.len() && chosen_matches(
                c,
                devices@[i],
                choice,
                *req,
            ),
            (Err(e), Err(m)) => e@ == m,
            _ => false,
        },
{
    if devices.len() == 0 {
        return Err(lit("No audio output device found"));
    }
    let ghost pref = preferred_view(*req);
    let mut idx: Option<usize> = None;
    match &req.preferred_device {
        Some(p) => {
            let pc = crate::text::to_chars(p.as_str());
            if pc.len() != 0 {
                idx = find_device(devices, p.as_str());
            }
        },
        None => {},
    }
    if idx.is_none() {
        match default_name {
            Some(dn) => {
                idx = find_device(devices, dn);
            },
            None => {},
        }
    }
    let i = match idx {
        Some(i) => i,
        None => {
            return Err(lit("No audio output device found"));
        },
    };
    proof {
        if let Some(p) = pref {
            lemma_lookup_in_range(devices@, p);
        }
        if let Some(dn) = opt_view(default_name) {
            lemma_lookup_in_range(devices@, dn);
        }
    }
    let device = &devices[i];
    let track_rate = req.track_rate;
    let track_channels = req.track_channels;
    let mut fallback: Option<FallbackReason> = None;

    let exclusive = match req.exclusive {
        ExclusiveMode::Off => false,
        ExclusiveMode::Auto => {
            if !device.exclusive_capable {
                fallback = Some(FallbackReason::ExclusiveUnavailable);
                false
            } else {
                true
            }
        },
        ExclusiveMode::Strict => {
            if !device.exclusive_capable {
                return Err(lit("Exclusive mode unavailable on this device"));
            }
            true
        },
    };

    let m = if track_channels < device.channels as usize {
        track_channels
    } else {
        device.channels as usize
    };
    let channels: u16 = if m < 1 { 1 } else { m as u16 };
    if req.fallback == FallbackPolicy::Fail && (track_channels as u16) > device.channels {
        return Err(msg_with_number("device does not support ", track_channels as u64, " channels"));
    }
    let wanted: u16 = if track_channels < 1 { 1 } else { track_channels as u16 };
    if channels != wanted {
        fallback = Some(
            FallbackReason::ChannelsUnsupported { requested: track_channels, chosen: channels },
        );
    }

    let (out_rate, rate_reason) = match pick_rate(device, req, channels) {
        Ok(x) => x,
        Err(e) => {
            return Err(e);
        },
    };
    let buffer_size = pick_buffer(device, channels);
    let sample_format = pick_format(device, exclusive);
    let resampled = out_rate != track_rate;
    let fallback = if rate_reason.is_some() {
        rate_reason
    } else if fallback.is_some() {
        fallback
    } else if req.resampler == ResamplerMode::Fixed && resampled {
        Some(FallbackReason::ResamplerForced { requested: track_rate })
    } else {
        None
    };
    Ok(
        ChosenOutput {
            device_id: device.id.clone(),
            device_name: device.name.clone(),
            config: StreamConfig { channels, sample_rate: out_rate, buffer_size },
            sample_format,
            exclusive,
            resampled,
            source_rate: track_rate,
            source_channels: track_channels,
            fallback,
        },
    )
}

} // verus!

verus! {

// ---------------------------------------------------------------------------
// Device classification and the settings-dialog device list
// ---------------------------------------------------------------------------

/// A raw ALSA hardware id: `hw:` or `hw=` prefix, ignoring ASCII case.
pub open spec fn spec_is_raw_hardware_id(id: Seq<char>) -> bool {
    let l = crate::text::ascii_lower_seq(id);
    crate::text::has_prefix(l, "hw:"@) || crate::text::has_prefix(l, "hw="@)
}

/// True when `id` names a raw hardware node (`hw:*`, case-insensitive): the
/// only handles that deliver native rates and bit-exact output.
pub fn is_raw_hardware_id(id: &str) -> (r: bool)
    ensures
        r == spec_is_raw_hardware_id(id@),
{
    let l = crate::text::lower_chars(id);
    crate::text::starts_with(&l, "hw:") || crate::text::starts_with(&l, "hw=")
}

/// Device category by its id and name (first matching rule wins):
/// `hw:`/`hw=` → Hardware; `loopback` id or "monitor of" name → Loopback;
/// plughw/default/front/surround/sysdefault ids or PipeWire/PulseAudio/
/// sound-server names → ServerProxy; dmix/dsnoop/softvol/null/ffmpeg ids →
/// Virtual; otherwise Unknown. Matching ignores ASCII case.
pub open spec fn spec_classify_device(id: Seq<char>, name: Seq<char>) -> DeviceCategory {
    let i = crate::text::ascii_lower_seq(id);
    let n = crate::text::ascii_lower_seq(name);
    if crate::text::has_prefix(i, "hw:"@) || crate::text::has_prefix(i, "hw="@) {
        DeviceCategory::Hardware
    } else if crate::text::has_infix(i, "loopback"@) || crate::text::has_infix(n, "monitor of"@) {
        DeviceCategory::Loopback
    } else if crate::text::has_prefix(i, "plughw:"@) || i == "default"@ || crate::text::has_prefix(
        i,
        "front:"@,
    ) || crate::text::has_prefix(i, "surround"@) || crate::text::has_prefix(i, "sysdefault"@)
        || crate::text::has_infix(n, "pipewire"@) || crate::text::has_infix(n, "pulseaudio"@)
        || crate::text::has_infix(n, "sound server"@) {
        DeviceCategory::ServerProxy
    } else if crate::text::has_infix(i, "dmix"@) || crate::text::has_infix(i, "dsnoop"@)
        || crate::text::has_infix(i, "softvol"@) || crate::text::has_infix(i, "null"@)
        || crate::text::has_infix(i, "ffmpeg"@) {
        DeviceCategory::Virtual
    } else {
        DeviceCategory::Unknown
    }
}

/// Classify an output device by its stable id and human-readable name.
pub fn classify_device(id: &str, name: &str) -> (r: DeviceCategory)
    ensures
        r == spec_classify_device(id@, name@),
{
    let i = crate::text::lower_chars(id);
    let n = crate::text::lower_chars(name);
    if crate::text::starts_with(&i, "hw:") || crate::text::starts_with(&i, "hw=") {
        return DeviceCategory::Hardware;
    }
    if crate::text::contains(&i, "loopback") || crate::text::contains(&n, "monitor of") {
        return DeviceCategory::Loopback;
    }
    if crate::text::starts_with(&i, "plughw:") || crate::text::chars_eq(&i, "default")
        || crate::text::starts_with(&i, "front:") || crate::text::starts_with(&i, "surround")
        || crate::text::starts_with(&i, "sysdefault") || crate::text::contains(&n, "pipewire")
        || crate::text::contains(&n, "pulseaudio") || crate::text::contains(&n, "sound server") {
        return DeviceCategory::ServerProxy;
    }
    if crate::text::contains(&i, "dmix") || crate::text::contains(&i, "dsnoop")
        || crate::text::contains(&i, "softvol") || crate::text::contains(&i, "null")
        || crate::text::contains(&i, "ffmpeg") {
        return DeviceCategory::Virtual;
    }
    DeviceCategory::Unknown
}

/// The sample format of a chosen stream. An exclusive stream takes the most
/// precise format the device supports, in the order I32, I24, I16, F32, and
/// never passes over a supported format of higher precision; a shared
/// stream takes F32 where the device supports it. Only a device supporting
/// none of these keeps its default format. A stream is exclusive exactly
/// when it was asked for (Auto or Strict) and the device can grant it.
pub proof fn law_stream_format_priority(
    devs: Seq<DeviceInfo>,
    default_name: Option<Seq<char>>,
    req: OutputRequest,
)
    ensures
        spec_choose_output(devs, default_name, req) matches Ok((i, c)) ==> {
            let d = devs[i];
            let f = d.supported_formats@;
            &&& c.exclusive == (req.exclusive != ExclusiveMode::Off && d.exclusive_capable)
            &&& c.exclusive && f.contains(SampleFormat::I32) ==> c.sample_format == SampleFormat::I32
            &&& c.exclusive && !f.contains(SampleFormat::I32) && f.contains(SampleFormat::I24)
                ==> c.sample_format == SampleFormat::I24
            &&& c.exclusive && !f.contains(SampleFormat::I32) && !f.contains(SampleFormat::I24)
                && f.contains(SampleFormat::I16) ==> c.sample_format == SampleFormat::I16
            &&& c.exclusive && !f.contains(SampleFormat::I32) && !f.contains(SampleFormat::I24)
                && !f.contains(SampleFormat::I16) && f.contains(SampleFormat::F32)
                ==> c.sample_format == SampleFormat::F32
            &&& !c.exclusive && f.contains(SampleFormat::F32) ==> c.sample_format
                == SampleFormat::F32
            &&& !f.contains(SampleFormat::I32) && !f.contains(SampleFormat::I24) && !f.contains(
                SampleFormat::I16,
            ) && !f.contains(SampleFormat::F32) ==> c.sample_format == d.sample_format
        },
{
}

/// The rate and channels of a chosen stream. Under the Auto and Native
/// policies a track rate inside one of the device's supported ranges is
/// played as it is, without resampling; Native refuses a rate the device
/// lacks. The channel count is the track's when the device has that many,
/// never more than the device has (at least one).
pub proof fn law_stream_rate_and_channels(
    devs: Seq<DeviceInfo>,
    default_name: Option<Seq<char>>,
    req: OutputRequest,
)
    ensures
        spec_choose_output(devs, default_name, req) matches Ok((i, c)) ==> {
            let d = devs[i];
            let fits = exists|k: int|
                0 <= k < d.supported@.len() && d.supported@[k].min <= req.track_rate
                    && req.track_rate <= d.supported@[k].max;
            &&& (req.resampler == ResamplerMode::Auto || req.resampler == ResamplerMode::Native) && fits
                ==> c.sample_rate == req.track_rate && !c.resampled
            &&& req.resampler == ResamplerMode::Native ==> fits
            &&& c.channels >= 1
            &&& d.channels >= 1 ==> c.channels <= d.channels
            &&& 1 <= req.track_channels <= d.channels ==> c.channels == req.track_channels
        },
{
}

/// A raw hardware id is always classified as hardware, whatever its name.
pub proof fn law_raw_hardware_is_hardware(id: Seq<char>, name: Seq<char>)
    requires
        spec_is_raw_hardware_id(id),
    ensures
        spec_classify_device(id, name) == DeviceCategory::Hardware,
{
}

/// A software sound-server node (PipeWire/Pulse) by its name, ignoring
/// ASCII case.
pub open spec fn spec_is_server_node(name: Seq<char>) -> bool {
    let n = crate::text::ascii_lower_seq(name);
    crate::text::has_infix(n, "pipewire"@) || crate::text::has_infix(n, "pulseaudio"@)
        || crate::text::has_infix(n, "sound server"@) || crate::text::has_infix(
        n,
        "default alsa output"@,
    ) || n == "default audio device"@
}

/// True when `name` is a software sound-server node that resamples the
/// stream and can never deliver bit-exact output.
pub fn is_server_node(name: &str) -> (r: bool)
    ensures
        r == spec_is_server_node(name@),
{
    let n = crate::text::lower_chars(name);
    crate::text::contains(&n, "pipewire") || crate::text::contains(&n, "pulseaudio")
        || crate::text::contains(&n, "sound server") || crate::text::contains(
        &n,
        "default alsa output",
    ) || crate::text::chars_eq(&n, "default audio device")
}

/// Suffix of sound-server device labels in the settings dialog.
pub const SERVER_NODE_SUFFIX: &'static str = " — (software, resamples)";

/// First occurrences of the elements of `s`, in order.
pub open spec fn dedup_first<A>(s: Seq<A>) -> Seq<A>
    decreases s.len(),
{
    if s.len() == 0 {
        Seq::empty()
    } else {
        let p = dedup_first(s.drop_last());
        if p.contains(s.last()) {
            p
        } else {
            p.push(s.last())
        }
    }
}

/// Label pairs `(name, name)` of the non-server names of `u`, in order.
pub open spec fn hardware_labels(u: Seq<Seq<char>>) -> Seq<(Seq<char>, Seq<char>)>
    decreases u.len(),
{
    if u.len() == 0 {
        Seq::empty()
    } else if spec_is_server_node(u.last()) {
        hardware_labels(u.drop_last())
    } else {
        hardware_labels(u.drop_last()).push((u.last(), u.last()))
    }
}

/// Label pairs `(name, name + suffix)` of the server names of `u`, in order.
pub open spec fn server_labels(u: Seq<Seq<char>>) -> Seq<(Seq<char>, Seq<char>)>
    decreases u.len(),
{
    if u.len() == 0 {
        Seq::empty()
    } else if spec_is_server_node(u.last()) {
        server_labels(u.drop_last()).push((u.last(), u.last() + " — (software, resamples)"@))
    } else {
        server_labels(u.drop_last())
    }
}

/// The settings-dialog list for `names`: duplicates dropped (first kept),
/// hardware nodes first and server nodes last, each group in input order;
/// server labels carry [`SERVER_NODE_SUFFIX`], the raw name is kept as is.
pub open spec fn spec_label_device_names(names: Seq<Seq<char>>) -> Seq<(Seq<char>, Seq<char>)> {
    let u = dedup_first(names);
    hardware_labels(u) + server_labels(u)
}

pub open spec fn pair_views(v: Seq<(String, String)>) -> Seq<(Seq<char>, Seq<char>)> {
    v.map_values(|p: (String, String)| (p.0@, p.1@))
}

pub open spec fn str_views(v: Seq<&str>) -> Seq<Seq<char>> {
    v.map_values(|s: &str| s@)
}

pub open spec fn string_views(v: Seq<String>) -> Seq<Seq<char>> {
    v.map_values(|s: String| s@)
}

/// Whether `key` is among `seen` (by characters).
fn seen_contains(seen: &Vec<String>, key: &str) -> (r: bool)
    ensures
        r == string_views(seen@).contains(key@),
{
    let mut i: usize = 0;
    while i < seen.len()
        invariant
            i <= seen.len(),
            forall|j: int| 0 <= j < i ==> seen@[j]@ != key@,
        decreases seen.len() - i,
    {
        if str_eq(seen[i].as_str(), key) {
            assert(string_views(seen@)[i as int] == key@);
            return true;
        }
        i += 1;
    }
    proof {
        if string_views(seen@).contains(key@) {
            let j = choose|j: int| 0 <= j < string_views(seen@).len() && string_views(seen@)[j] == key@;
            assert(seen@[j]@ == key@);
        }
    }
    false
}

/// Build the settings-dialog device list as `(raw_name, label)` pairs:
/// duplicates dropped, hardware nodes first, sound-server nodes last with a
/// "(software, resamples)" hint in the label.
pub fn label_device_names(names: &[&str]) -> (r: Vec<(String, String)>)
    ensures
        pair_views(r@) == spec_label_device_names(str_views(names@)),
{
    let mut seen: Vec<String> = Vec::new();
    let mut hw: Vec<(String, String)> = Vec::new();
    let mut srv: Vec<(String, String)> = Vec::new();
    let mut i: usize = 0;
    while i < names.len()
        invariant
            i <= names.len(),
            string_views(seen@) == dedup_first(str_views(names@).take(i as int)),
            pair_views(hw@) == hardware_labels(string_views(seen@)),
            pair_views(srv@) == server_labels(string_views(seen@)),
        decreases names.len() - i,
    {
        let name = names[i];
        let ghost before = string_views(seen@);
        assert(str_views(names@).take(i + 1).drop_last() =~= str_views(names@).take(i as int));
        assert(str_views(names@).take(i + 1).last() == name@);
        if !seen_contains(&seen, name) {
            seen.push(owned(name));
            assert(string_views(seen@) =~= before.push(name@));
            assert(string_views(seen@).drop_last() =~= before);
            if is_server_node(name) {
                let mut label = owned(name);
                append_str(&mut label, SERVER_NODE_SUFFIX);
                srv.push((owned(name), label));
                assert(pair_views(srv@) =~= server_labels(before).push(
                    (name@, name@ + " — (software, resamples)"@),
                ));
                assert(pair_views(hw@) =~= hardware_labels(string_views(seen@)));
            } else {
                hw.push((owned(name), owned(name)));
                assert(pair_views(hw@) =~= hardware_labels(before).push((name@, name@)));
                assert(pair_views(srv@) =~= server_labels(string_views(seen@)));
            }
        }
        i += 1;
    }
    assert(str_views(names@).take(names.len() as int) =~= str_views(names@));
    let ghost hv = pair_views(hw@);
    let ghost sv = pair_views(srv@);
    hw.append(&mut srv);
    assert(pair_views(hw@) =~= hv + sv);
    hw
}

} // verus!

verus! {

/// `(id, label)` pairs for the settings dialog: the labels of
/// [`label_device_names`] over the device names, each keyed by the id of the
/// first device carrying that name.
pub open spec fn spec_device_pairs(infos: Seq<DeviceInfo>) -> Seq<(Seq<char>, Seq<char>)> {
    pairs_with_ids(infos, spec_label_device_names(device_names(infos)))
}

/// Display names of the devices, in order.
pub open spec fn device_names(infos: Seq<DeviceInfo>) -> Seq<Seq<char>> {
    infos.map_values(|d: DeviceInfo| d.name@)
}

/// A label pair keyed by the id of the first device with that name.
pub open spec fn pair_with_id(infos: Seq<DeviceInfo>, p: (Seq<char>, Seq<char>)) -> (Seq<char>, Seq<char>) {
    (
        match first_with_name(infos, p.0) {
            Some(j) => infos[j].id@,
            None => p.0,
        },
        p.1,
    )
}

pub open spec fn pairs_with_ids(infos: Seq<DeviceInfo>, ps: Seq<(Seq<char>, Seq<char>)>) -> Seq<(Seq<char>, Seq<char>)> {
    ps.map_values(|p: (Seq<char>, Seq<char>)| pair_with_id(infos, p))
}

/// Settings-dialog device list `(id, label)` from full device infos.
pub fn device_pairs_from_infos(infos: &[DeviceInfo]) -> (r: Vec<(String, String)>)
    ensures
        pair_views(r@) == spec_device_pairs(infos@),
{
    let mut names: Vec<&str> = Vec::new();
    let mut i: usize = 0;
    while i < infos.len()
        invariant
            i <= infos.len(),
            names.len() == i,
            forall|j: int| 0 <= j < i ==> (#[trigger] names@[j])@ == infos@[j].name@,
        decreases infos.len() - i,
    {
        let nm = infos[i].name.as_str();
        names.push(nm);
        i += 1;
    }
    assert(str_views(names@) =~= device_names(infos@));
    let labels = label_device_names(names.as_slice());
    let ghost lv = pair_views(labels@);
    let mut out: Vec<(String, String)> = Vec::new();
    let mut k: usize = 0;
    while k < labels.len()
        invariant
            k <= labels.len(),
            lv == pair_views(labels@),
            lv == spec_label_device_names(device_names(infos@)),
            out.len() == k,
            forall|j: int|
                0 <= j < k ==> (#[trigger] out@[j]).0@ == pair_with_id(infos@, lv[j]).0
                    && out@[j].1@ == lv[j].1,
        decreases labels.len() - k,
    {
        let name = labels[k].0.as_str();
        let id = match find_first(infos, name, true) {
            Some(j) => {
                proof {
                    lemma_first_match_in_range(infos@, name@, true, 0);
                }
                infos[j].id.clone()
            },
            None => owned(name),
        };
        let label = labels[k].1.clone();
        assert(name@ == lv[k as int].0);
        assert(label@ == lv[k as int].1);
        out.push((id, label));
        k += 1;
    }
    assert(pair_views(out@) =~= pairs_with_ids(infos@, lv));
    out
}

/// One entry per device name; a later raw `hw:*` handle replaces a kept
/// non-raw handle of the same name, otherwise the first handle stays.
pub open spec fn spec_collapse_same_name(s: Seq<DeviceInfo>) -> Seq<DeviceInfo>
    decreases s.len(),
{
    if s.len() == 0 {
        Seq::empty()
    } else {
        let p = spec_collapse_same_name(s.drop_last());
        let x = s.last();
        match first_with_name(p, x.name@) {
            Some(k) => if spec_is_raw_hardware_id(x.id@) && !spec_is_raw_hardware_id(p[k].id@) {
                p.update(k, x)
            } else {
                p
            },
            None => p.push(x),
        }
    }
}

/// Keep one device per human-readable name, preferring the raw `hw:*` node.
pub fn collapse_same_name(infos: Vec<DeviceInfo>) -> (r: Vec<DeviceInfo>)
    ensures
        r@ == spec_collapse_same_name(infos@),
{
    let ghost orig = infos@;
    let n = infos.len();
    let mut rest = infos;
    let mut out: Vec<DeviceInfo> = Vec::new();
    let mut i: usize = 0;
    while rest.len() > 0
        invariant
            i + rest@.len() == orig.len(),
            orig.len() == n,
            rest@ == orig.skip(i as int),
            out@ == spec_collapse_same_name(orig.take(i as int)),
        decreases rest@.len(),
    {
        let info = rest.remove(0);
        assert(orig.take(i + 1).drop_last() =~= orig.take(i as int));
        assert(orig.take(i + 1).last() == info);
        assert(rest@ =~= orig.skip(i + 1));
        match find_first(out.as_slice(), info.name.as_str(), true) {
            Some(k) => {
                proof {
                    lemma_first_match_in_range(out@, info.name@, true, 0);
                }
                if is_raw_hardware_id(info.id.as_str()) && !is_raw_hardware_id(
                    out[k].id.as_str(),
                ) {
                    out.set(k, info);
                }
            },
            None => {
                out.push(info);
            },
        }
        i += 1;
    }
    assert(orig.take(i as int) =~= orig);
    out
}

/// `v` is strictly increasing.
pub open spec fn strictly_sorted(v: Seq<u32>) -> bool {
    forall|a: int, b: int| 0 <= a < b < v.len() ==> v[a] < v[b]
}

/// `x` is a bound (`min` or `max`) of some range.
pub open spec fn is_range_bound(sup: Seq<RateRange>, x: u32) -> bool {
    exists|i: int| 0 <= i < sup.len() && #[trigger] range_has_bound(sup[i], x)
}

pub open spec fn range_has_bound(r: RateRange, x: u32) -> bool {
    r.min == x || r.max == x
}

/// Insert `x` into a strictly increasing vector (no duplicates).
fn insert_sorted(v: &mut Vec<u32>, x: u32)
    requires
        strictly_sorted(old(v)@),
    ensures
        strictly_sorted(final(v)@),
        forall|y: u32| #[trigger] final(v)@.contains(y) <==> (old(v)@.contains(y) || y == x),
{
    let mut i: usize = 0;
    while i < v.len() && v[i] < x
        invariant
            i <= v.len(),
            v@ == old(v)@,
            strictly_sorted(v@),
            forall|j: int| 0 <= j < i ==> v@[j] < x,
        decreases v.len() - i,
    {
        i += 1;
    }
    if i < v.len() && v[i] == x {
        assert(v@[i as int] == x);
        return;
    }
    let ghost before = v@;
    assert(before == old(v)@);
    v.insert(i, x);
    assert(strictly_sorted(v@)) by {
        assert forall|a: int, b: int| 0 <= a < b < v@.len() implies v@[a] < v@[b] by {
            if b < i {
            } else if a < i && b == i {
            } else if a < i {
                assert(before[a] < before[b - 1]);
            } else if a == i {
                assert(before[b - 1] >= before[i as int] || b - 1 == i);
            } else {
                assert(before[a - 1] < before[b - 1]);
            }
        }
    }
    assert forall|y: u32| #[trigger] v@.contains(y) <==> (before.contains(y) || y == x) by {
        if v@.contains(y) {
            let j = choose|j: int| 0 <= j < v@.len() && v@[j] == y;
            if j < i {
                assert(before[j] == y);
            } else if j > i {
                assert(before[j - 1] == y);
            }
        }
        if before.contains(y) {
            let j = choose|j: int| 0 <= j < before.len() && before[j] == y;
            if j < i {
                assert(v@[j] == y);
            } else {
                assert(v@[j + 1] == y);
            }
        }
        if y == x {
            assert(v@[i as int] == y);
        }
    }
}

/// Sorted, duplicate-free list of the range bounds (`min` and `max` of every
/// range; a discrete range contributes its single rate).
pub fn expand_supported_rates(supported: &[RateRange]) -> (r: Vec<u32>)
    ensures
        strictly_sorted(r@),
        forall|x: u32| r@.contains(x) <==> is_range_bound(supported@, x),
{
    let mut rates: Vec<u32> = Vec::new();
    let mut i: usize = 0;
    while i < supported.len()
        invariant
            i <= supported.len(),
            strictly_sorted(rates@),
            forall|x: u32|
                rates@.contains(x) <==> is_range_bound(supported@.take(i as int), x),
        decreases supported.len() - i,
    {
        let r = supported[i];
        if r.min == r.max {
            insert_sorted(&mut rates, r.min);
        } else {
            insert_sorted(&mut rates, r.min);
            insert_sorted(&mut rates, r.max);
        }
        assert forall|x: u32|
            is_range_bound(supported@.take(i + 1), x) implies rates@.contains(x) by {
            {
                let j = choose|j: int|
                    0 <= j < supported@.take(i + 1).len() && #[trigger] range_has_bound(
                        supported@.take(i + 1)[j],
                        x,
                    );
                if j < i {
                    assert(supported@.take(i as int)[j] == supported@[j]);
                }
            }
        }
        assert forall|x: u32|
            rates@.contains(x) implies is_range_bound(supported@.take(i + 1), x) by {
            if x != r.min && x != r.max {
                let j = choose|j: int|
                    0 <= j < supported@.take(i as int).len() && #[trigger] range_has_bound(
                        supported@.take(i as int)[j],
                        x,
                    );
                assert(supported@.take(i + 1)[j] == supported@[j]);
            }
            if x == r.min || x == r.max {
                assert(supported@.take(i + 1)[i as int] == r);
                assert(range_has_bound(supported@.take(i + 1)[i as int], x));
            }
        }
        i += 1;
    }
    assert(supported@.take(supported.len() as int) =~= supported@);
    rates
}

/// Drop repeated sample formats, keeping first-appearance order.
pub fn dedup_formats(formats: &[SampleFormat]) -> (r: Vec<SampleFormat>)
    ensures
        r@ == dedup_first(formats@),
{
    let mut out: Vec<SampleFormat> = Vec::new();
    let mut i: usize = 0;
    while i < formats.len()
        invariant
            i <= formats.len(),
            out@ == dedup_first(formats@.take(i as int)),
        decreases formats.len() - i,
    {
        let f = formats[i];
        assert(formats@.take(i + 1).drop_last() =~= formats@.take(i as int));
        let mut present = false;
        let mut k: usize = 0;
        while k < out.len()
            invariant
                k <= out.len(),
                present == (exists|j: int| 0 <= j < k && out@[j] == f),
            decreases out.len() - k,
        {
            if out[k] == f {
                present = true;
            }
            k += 1;
        }
        if !present {
            out.push(f);
        }
        i += 1;
    }
    assert(formats@.take(formats.len() as int) =~= formats@);
    out
}

} // verus!

verus! {

// ---------------------------------------------------------------------------
// Human-readable descriptions
// ---------------------------------------------------------------------------

/// Short upper-case label of a sample format ("I32", "F32", "DSD8", ...).
pub open spec fn spec_sample_format_label(f: SampleFormat) -> Seq<char> {
    match f {
        SampleFormat::I8 => "I8"@,
        SampleFormat::I16 => "I16"@,
        SampleFormat::I24 => "I24"@,
        SampleFormat::I32 => "I32"@,
        SampleFormat::I64 => "I64"@,
        SampleFormat::U8 => "U8"@,
        SampleFormat::U16 => "U16"@,
        SampleFormat::U24 => "U24"@,
        SampleFormat::U32 => "U32"@,
        SampleFormat::U64 => "U64"@,
        SampleFormat::F32 => "F32"@,
        SampleFormat::F64 => "F64"@,
        SampleFormat::DsdU8 => "DSD8"@,
        SampleFormat::DsdU16 => "DSD16"@,
        SampleFormat::DsdU32 => "DSD32"@,
    }
}

/// Label of a sample format for the UI.
pub fn sample_format_label(f: SampleFormat) -> (r: &'static str)
    ensures
        r@ == spec_sample_format_label(f),
{
    match f {
        SampleFormat::I8 => "I8",
        SampleFormat::I16 => "I16",
        SampleFormat::I24 => "I24",
        SampleFormat::I32 => "I32",
        SampleFormat::I64 => "I64",
        SampleFormat::U8 => "U8",
        SampleFormat::U16 => "U16",
        SampleFormat::U24 => "U24",
        SampleFormat::U32 => "U32",
        SampleFormat::U64 => "U64",
        SampleFormat::F32 => "F32",
        SampleFormat::F64 => "F64",
        SampleFormat::DsdU8 => "DSD8",
        SampleFormat::DsdU16 => "DSD16",
        SampleFormat::DsdU32 => "DSD32",
    }
}

pub open spec fn format_labels(fs: Seq<SampleFormat>) -> Seq<Seq<char>> {
    fs.map_values(|f: SampleFormat| spec_sample_format_label(f))
}

/// Rate in kHz for a rate that is a multiple of 100 Hz: 48000 -> "48",
/// 176400 -> "176.4".
pub open spec fn khz_text(rate: nat) -> Seq<char> {
    if rate % 1000 == 0 {
        dec(rate / 1000)
    } else {
        dec(rate / 1000) + "."@ + dec((rate % 1000) / 100)
    }
}

fn append_khz(s: &mut String, rate: u32)
    requires
        rate % 100 == 0,
    ensures
        final(s)@ == old(s)@ + khz_text(rate as nat),
{
    append_dec(s, (rate / 1000) as u64);
    if rate % 1000 != 0 {
        append_str(s, ".");
        append_dec(s, ((rate % 1000) / 100) as u64);
    }
}

/// The rate as a one-element list when the device supports it.
pub open spec fn rate_if_supported(sup: Seq<RateRange>, r: u32) -> Seq<u32> {
    if spec_supports_rate(sup, r) {
        seq![r]
    } else {
        Seq::empty()
    }
}

/// The members `a`, `b`, `c` of a clock family that the device supports.
pub open spec fn family_present(sup: Seq<RateRange>, a: u32, b: u32, c: u32) -> Seq<u32> {
    rate_if_supported(sup, a) + rate_if_supported(sup, b) + rate_if_supported(sup, c)
}

pub open spec fn khz_texts(rates: Seq<u32>) -> Seq<Seq<char>> {
    rates.map_values(|r: u32| khz_text(r as nat))
}

/// "44k full (44.1, 88.2, 176.4)" / "48k partial (48, 96)", or nothing when
/// no member of the family is supported.
pub open spec fn family_entry(sup: Seq<RateRange>, label: Seq<char>, a: u32, b: u32, c: u32) -> Seq<
    Seq<char>,
> {
    let p = family_present(sup, a, b, c);
    if p.len() == 0 {
        Seq::empty()
    } else {
        seq![
            label + " "@ + (if p.len() == 3 {
                "full"@
            } else {
                "partial"@
            }) + " ("@ + join(khz_texts(p), ", "@) + ")"@,
        ]
    }
}

pub open spec fn spec_clock_families_desc(sup: Seq<RateRange>) -> Seq<char> {
    let entries = family_entry(sup, "44k"@, 44100, 88200, 176400) + family_entry(
        sup,
        "48k"@,
        48000,
        96000,
        192000,
    );
    if entries.len() == 0 {
        "—"@
    } else {
        join(entries, " · "@)
    }
}

impl DeviceInfo {
    /// Supported sample formats joined with " · " ("I16 · I24 · F32"), or
    /// "—" when there are none.
    pub fn formats_desc(&self) -> (r: String)
        ensures
            r@ == if self.supported_formats@.len() == 0 {
                "—"@
            } else {
                join(format_labels(self.supported_formats@), " · "@)
            },
    {
        if self.supported_formats.len() == 0 {
            return lit("—");
        }
        let ghost fs = self.supported_formats@;
        let mut s = String::new();
        let mut i: usize = 0;
        while i < self.supported_formats.len()
            invariant
                i <= fs.len(),
                fs == self.supported_formats@,
                s@ == join(format_labels(fs.take(i as int)), " · "@),
            decreases fs.len() - i,
        {
            let label = sample_format_label(self.supported_formats[i]);
            proof {
                assert(format_labels(fs.take(i + 1)) =~= format_labels(fs.take(i as int)).push(
                    label@,
                ));
                lemma_join_push(format_labels(fs.take(i as int)), " · "@, label@);
            }
            append_part(&mut s, i == 0, " · ", label);
            i += 1;
        }
        assert(fs.take(fs.len() as int) =~= fs);
        s
    }

    /// One family entry (see [`family_entry`]).
    fn family_desc(&self, label: &str, a: u32, b: u32, c: u32) -> (r: Option<String>)
        requires
            a % 100 == 0,
            b % 100 == 0,
            c % 100 == 0,
        ensures
            match r {
                Some(e) => family_entry(self.supported@, label@, a, b, c) == seq![e@],
                None => family_entry(self.supported@, label@, a, b, c).len() == 0,
            },
    {
        let ghost sup = self.supported@;
        let mut present: Vec<u32> = Vec::new();
        if self.supports_rate(a) {
            present.push(a);
        }
        if self.supports_rate(b) {
            present.push(b);
        }
        if self.supports_rate(c) {
            present.push(c);
        }
        assert(present@ =~= family_present(sup, a, b, c));
        if present.len() == 0 {
            return None;
        }
        let ghost p = present@;
        let mut list = String::new();
        let mut i: usize = 0;
        while i < present.len()
            invariant
                i <= p.len(),
                p == present@,
                forall|j: int| 0 <= j < p.len() ==> p[j] % 100 == 0,
                list@ == join(khz_texts(p.take(i as int)), ", "@),
            decreases p.len() - i,
        {
            let mut part = String::new();
            append_khz(&mut part, present[i]);
            proof {
                assert(khz_texts(p.take(i + 1)) =~= khz_texts(p.take(i as int)).push(part@));
                lemma_join_push(khz_texts(p.take(i as int)), ", "@, part@);
            }
            append_part(&mut list, i == 0, ", ", part.as_str());
            i += 1;
        }
        assert(p.take(p.len() as int) =~= p);
        let mut e = owned(label);
        append_str(&mut e, " ");
        if present.len() == 3 {
            append_str(&mut e, "full");
        } else {
            append_str(&mut e, "partial");
        }
        append_str(&mut e, " (");
        append_str(&mut e, list.as_str());
        append_str(&mut e, ")");
        Some(e)
    }

    /// Clock families and their completeness, "44k partial (44.1, 176.4) ·
    /// 48k full (48, 96, 192)"; a family is listed when at least one of its
    /// base, 2x and 4x rates is supported and is "full" when all three are.
    pub fn clock_families_desc(&self) -> (r: String)
        ensures
            r@ == spec_clock_families_desc(self.supported@),
    {
        let ghost sup = self.supported@;
        let e44 = self.family_desc("44k", 44100, 88200, 176400);
        let e48 = self.family_desc("48k", 48000, 96000, 192000);
        let ghost f44 = family_entry(sup, "44k"@, 44100, 88200, 176400);
        let ghost f48 = family_entry(sup, "48k"@, 48000, 96000, 192000);
        match (e44, e48) {
            (None, None) => {
                assert((f44 + f48).len() == 0);
                lit("—")
            },
            (Some(a), None) => {
                assert(f44 + f48 =~= seq![a@]);
                a
            },
            (None, Some(b)) => {
                assert(f44 + f48 =~= seq![b@]);
                b
            },
            (Some(a), Some(b)) => {
                assert(f44 + f48 =~= seq![a@].push(b@));
                proof {
                    lemma_join_push(seq![a@], " · "@, b@);
                }
                let mut s = a;
                append_str(&mut s, " · ");
                append_str(&mut s, b.as_str());
                s
            },
        }
    }
}

/// Stream description for the report and the status bar:
/// "48000 Гц · I32 · Exclusive", "48000 Гц · I32 · Shared · ресемплинг из 96000".
pub open spec fn spec_describe_stream(c: ChosenOutput) -> Seq<char> {
    dec(c.config.sample_rate as nat) + " Гц · "@ + spec_sample_format_label(c.sample_format)
        + " · "@ + (if c.exclusive {
        "Exclusive"@
    } else {
        "Shared"@
    }) + (if c.resampled {
        " · ресемплинг из "@ + dec(c.source_rate as nat)
    } else {
        Seq::empty()
    })
}

/// Describe a chosen stream (see [`spec_describe_stream`]).
pub fn describe_stream(chosen: &ChosenOutput) -> (r: String)
    ensures
        r@ == spec_describe_stream(*chosen),
{
    let mut s = String::new();
    append_dec(&mut s, chosen.config.sample_rate as u64);
    append_str(&mut s, " Гц · ");
    append_str(&mut s, sample_format_label(chosen.sample_format));
    append_str(&mut s, " · ");
    if chosen.exclusive {
        append_str(&mut s, "Exclusive");
    } else {
        append_str(&mut s, "Shared");
    }
    if chosen.resampled {
        append_str(&mut s, " · ресемплинг из ");
        append_dec(&mut s, chosen.source_rate as u64);
    }
    s
}

// ---------------------------------------------------------------------------
// Settings validation
// ---------------------------------------------------------------------------

/// How a canonical source would play with the current settings.
#[derive(Debug, Clone, Copy, PartialEq, Eq, Structural)]
pub enum Outcome {
    /// Native rate and exclusive access: the signal is untouched.
    BitPerfect,
    /// Plays, but degraded (shared access, resampling or DoP over a mixer).
    Degraded,
    /// Cannot be played with the current settings.
    Unsupported,
}

/// One row of the settings-validation table.
#[derive(Debug, Clone)]
pub struct ValidationRow {
    /// Canonical source ("96k PCM", "DSD64").
    pub source: String,
    pub outcome: Outcome,
    /// "native, exclusive access" / "resampled → 48000 Hz" / "unsupported".
    pub detail: String,
}

pub open spec fn row_view(r: ValidationRow) -> (Seq<char>, Outcome, Seq<char>) {
    (r.source@, r.outcome, r.detail@)
}

/// The request with only the source parameters replaced.
pub open spec fn spec_with_source(req: OutputRequest, rate: u32, channels: usize) -> OutputRequest {
    OutputRequest { track_rate: rate, track_channels: channels, ..req }
}

impl OutputRequest {
    /// Build the request for one source from the settings; an empty device
    /// setting means "no preference".
    pub fn from_settings(s: &Settings, track_rate: u32, track_channels: usize) -> (r: OutputRequest)
        ensures
            r.track_rate == track_rate,
            r.track_channels == track_channels,
            r.preferred_device == if s.audio_device@.len() == 0 {
                None
            } else {
                Some(s.audio_device)
            },
            r.exclusive == s.audio.exclusive,
            r.fallback == s.audio.fallback,
            r.resampler == s.audio.resampler.mode,
            r.fallback_rate == s.audio.resampler.fallback_rate,
            r.clock_family == s.audio.resampler.prefer_family,
            r.fixed_rate == s.audio.resampler.fixed_rate,
    {
        OutputRequest {
            track_rate,
            track_channels,
            preferred_device: if s.audio_device.as_str().is_empty() {
                None
            } else {
                Some(s.audio_device.clone())
            },
            exclusive: s.audio.exclusive,
            fallback: s.audio.fallback,
            resampler: s.audio.resampler.mode,
            fallback_rate: s.audio.resampler.fallback_rate,
            clock_family: s.audio.resampler.prefer_family,
            fixed_rate: s.audio.resampler.fixed_rate,
        }
    }

    /// A copy of the request with another source rate and channel count.
    pub fn with_source(&self, track_rate: u32, track_channels: usize) -> (r: OutputRequest)
        ensures
            r == spec_with_source(*self, track_rate, track_channels),
    {
        OutputRequest {
            track_rate,
            track_channels,
            preferred_device: match &self.preferred_device {
                Some(p) => Some(p.clone()),
                None => None,
            },
            exclusive: self.exclusive,
            fallback: self.fallback,
            resampler: self.resampler,
            fallback_rate: self.fallback_rate,
            clock_family: self.clock_family,
            fixed_rate: self.fixed_rate,
        }
    }
}

/// The reason reports a change of clock family.
pub open spec fn is_cross_family(f: Option<FallbackReason>) -> bool {
    f matches Some(FallbackReason::RateUnsupported { cross_family: true, .. })
}

/// Outcome and detail of a selected stream: bit-perfect is native rate with
/// exclusive access; everything else is degraded.
pub open spec fn spec_classify(
    resampled: bool,
    exclusive: bool,
    rate: u32,
    fallback: Option<FallbackReason>,
) -> (Outcome, Seq<char>) {
    if !resampled && exclusive {
        (Outcome::BitPerfect, "native, exclusive access"@)
    } else if !resampled {
        (Outcome::Degraded, "native, shared access"@)
    } else {
        (
            Outcome::Degraded,
            "resampled → "@ + dec(rate as nat) + " Hz"@ + (if is_cross_family(fallback) {
                ", cross-family"@
            } else {
                Seq::empty()
            }),
        )
    }
}

pub open spec fn classify_choice(ch: StreamChoice) -> (Outcome, Seq<char>) {
    spec_classify(ch.resampled, ch.exclusive, ch.sample_rate, ch.fallback)
}

fn classify_chosen(chosen: &ChosenOutput) -> (r: (Outcome, String))
    ensures
        (r.0, r.1@) == spec_classify(
            chosen.resampled,
            chosen.exclusive,
            chosen.config.sample_rate,
            chosen.fallback,
        ),
{
    if !chosen.resampled && chosen.exclusive {
        (Outcome::BitPerfect, lit("native, exclusive access"))
    } else if !chosen.resampled {
        (Outcome::Degraded, lit("native, shared access"))
    } else {
        let mut detail = lit("resampled → ");
        append_dec(&mut detail, chosen.config.sample_rate as u64);
        append_str(&mut detail, " Hz");
        let cross = match chosen.fallback {
            Some(FallbackReason::RateUnsupported { cross_family, .. }) => cross_family,
            _ => false,
        };
        if cross {
            append_str(&mut detail, ", cross-family");
        }
        (Outcome::Degraded, detail)
    }
}

/// Outcome and detail of a PCM row: the classified selection, or the
/// selection error as an unsupported row.
#[verifier::opaque]
pub open spec fn spec_pcm_row(d: DeviceInfo, req: OutputRequest) -> (Outcome, Seq<char>) {
    match spec_choose_output(seq![d], None, req) {
        Ok((_, ch)) => classify_choice(ch),
        Err(m) => (Outcome::Unsupported, m),
    }
}

/// DoP step of a DSD row: only when the device's DoP container rate is the
/// row's rate, playing natively at the container rate.
pub open spec fn spec_dop_step(d: DeviceInfo, base: OutputRequest, rate: u32) -> Option<
    (Outcome, Seq<char>),
> {
    if spec_dop_container_rate(d.supported@) != Some(rate) {
        None
    } else {
        match spec_choose_output(seq![d], None, spec_with_source(base, rate, 2)) {
            Ok((_, ch)) => Some(
                (
                    if !ch.resampled && ch.exclusive {
                        Outcome::BitPerfect
                    } else {
                        Outcome::Degraded
                    },
                    if ch.exclusive {
                        "DoP"@
                    } else {
                        "DoP, shared access"@
                    },
                ),
            ),
            Err(_) => None,
        }
    }
}

/// PCM step of a DSD row: decimated to an eighth of the DSD rate.
pub open spec fn spec_dsd_pcm_step(d: DeviceInfo, base: OutputRequest, rate: u32) -> Option<
    (Outcome, Seq<char>),
> {
    match spec_choose_output(seq![d], None, spec_with_source(base, rate / 8, 2)) {
        Ok((_, ch)) => Some(
            (
                classify_choice(ch).0,
                "PCM @ "@ + dec(ch.sample_rate as nat) + (if ch.resampled {
                    " (resampled)"@
                } else {
                    Seq::empty()
                }),
            ),
        ),
        Err(_) => None,
    }
}

/// A DSD row walks the chain of its mode (Native -> DoP -> Pcm; the native
/// backend is not available, so that step always fails) and keeps the first
/// step that plays.
#[verifier::opaque]
pub open spec fn spec_dsd_row(d: DeviceInfo, base: OutputRequest, rate: u32, mode: DsdMode) -> (
    Outcome,
    Seq<char>,
) {
    let first = if mode == DsdMode::Pcm {
        None
    } else {
        spec_dop_step(d, base, rate)
    };
    match first {
        Some(x) => x,
        None => match spec_dsd_pcm_step(d, base, rate) {
            Some(x) => x,
            None => (Outcome::Unsupported, "unsupported"@),
        },
    }
}

/// Request shared by all rows: the settings' policies, pinned to `d`.
pub open spec fn spec_base_request(d: DeviceInfo, s: Settings) -> OutputRequest {
    OutputRequest {
        track_rate: 44100,
        track_channels: 2,
        preferred_device: Some(d.id),
        exclusive: s.audio.exclusive,
        fallback: s.audio.fallback,
        resampler: s.audio.resampler.mode,
        fallback_rate: s.audio.resampler.fallback_rate,
        clock_family: s.audio.resampler.prefer_family,
        fixed_rate: s.audio.resampler.fixed_rate,
    }
}

pub open spec fn pcm_rows() -> Seq<(u32, Seq<char>)> {
    seq![
        (44100u32, "44.1k PCM"@),
        (48000u32, "48k PCM"@),
        (88200u32, "88.2k PCM"@),
        (96000u32, "96k PCM"@),
        (176400u32, "176.4k PCM"@),
        (192000u32, "192k PCM"@),
        (352800u32, "352.8k PCM"@),
        (384000u32, "384k PCM"@),
    ]
}

pub open spec fn dsd_rows() -> Seq<(u32, Seq<char>)> {
    seq![(176400u32, "DSD64"@), (352800u32, "DSD128"@), (705600u32, "DSD256"@)]
}

/// `std::slice::from_ref`: the one-element slice holding `*d`, without copying.
#[verifier::external_body]
fn one_device<'a>(d: &'a DeviceInfo) -> (r: &'a [DeviceInfo])
    ensures
        r@ == seq![*d],
{
    std::slice::from_ref(d)
}

fn validate_pcm_row(device: &DeviceInfo, req: &OutputRequest, label: &str) -> (r: ValidationRow)
    requires
        buffers_ok(*device, stereo_channels(*device)),
        req.track_channels == 2,
    ensures
        row_view(r) == (label@, spec_pcm_row(*device, *req).0, spec_pcm_row(*device, *req).1),
{
    reveal(spec_pcm_row);
    let devs = one_device(device);
    match choose_output(devs, None, req) {
        Ok(chosen) => {
            let (outcome, detail) = classify_chosen(&chosen);
            ValidationRow { source: owned(label), outcome, detail }
        },
        Err(msg) => ValidationRow { source: owned(label), outcome: Outcome::Unsupported, detail: msg },
    }
}

fn validate_dop_step(device: &DeviceInfo, base: &OutputRequest, rate: u32, label: &str) -> (r:
    Option<ValidationRow>)
    requires
        buffers_ok(*device, stereo_channels(*device)),
    ensures
        match (r, spec_dop_step(*device, *base, rate)) {
            (Some(row), Some(x)) => row_view(row) == (label@, x.0, x.1),
            (None, None) => true,
            _ => false,
        },
{
    if device.dop_container_rate() != Some(rate) {
        return None;
    }
    let req = base.with_source(rate, 2);
    let devs = one_device(device);
    match choose_output(devs, None, &req) {
        Ok(chosen) => {
            let outcome = if !chosen.resampled && chosen.exclusive {
                Outcome::BitPerfect
            } else {
                Outcome::Degraded
            };
            let detail = if chosen.exclusive {
                lit("DoP")
            } else {
                lit("DoP, shared access")
            };
            Some(ValidationRow { source: owned(label), outcome, detail })
        },
        Err(_) => None,
    }
}

fn validate_dsd_pcm_step(device: &DeviceInfo, base: &OutputRequest, rate: u32, label: &str) -> (r:
    Option<ValidationRow>)
    requires
        buffers_ok(*device, stereo_channels(*device)),
    ensures
        match (r, spec_dsd_pcm_step(*device, *base, rate)) {
            (Some(row), Some(x)) => row_view(row) == (label@, x.0, x.1),
            (None, None) => true,
            _ => false,
        },
{
    let req = base.with_source(rate / 8, 2);
    let devs = one_device(device);
    match choose_output(devs, None, &req) {
        Ok(chosen) => {
            let (outcome, _) = classify_chosen(&chosen);
            let mut detail = lit("PCM @ ");
            append_dec(&mut detail, chosen.config.sample_rate as u64);
            if chosen.resampled {
                append_str(&mut detail, " (resampled)");
            }
            Some(ValidationRow { source: owned(label), outcome, detail })
        },
        Err(_) => None,
    }
}

fn validate_dsd_row(
    device: &DeviceInfo,
    base: &OutputRequest,
    rate: u32,
    label: &str,
    mode: DsdMode,
) -> (r: ValidationRow)
    requires
        buffers_ok(*device, stereo_channels(*device)),
    ensures
        row_view(r) == (
            label@,
            spec_dsd_row(*device, *base, rate, mode).0,
            spec_dsd_row(*device, *base, rate, mode).1,
        ),
{
    reveal(spec_dsd_row);
    if mode != DsdMode::Pcm {
        if let Some(row) = validate_dop_step(device, base, rate, label) {
            return row;
        }
    }
    match validate_dsd_pcm_step(device, base, rate, label) {
        Some(row) => row,
        None => ValidationRow {
            source: owned(label),
            outcome: Outcome::Unsupported,
            detail: lit("unsupported"),
        },
    }
}

/// For the eleven canonical sources (eight PCM rates from 44.1k to 384k and
/// DSD64/128/256 in their DoP slots) classify how the current selection
/// policy would play them on `device`.
pub fn validate_audio_settings(device: &DeviceInfo, settings: &Settings) -> (r: Vec<ValidationRow>)
    requires
        buffers_ok(*device, stereo_channels(*device)),
    ensures
        r@.len() == 11,
        forall|i: int|
            0 <= i < 8 ==> #[trigger] row_view(r@[i]) == (
                pcm_rows()[i].1,
                spec_pcm_row(
                    *device,
                    spec_with_source(spec_base_request(*device, *settings), pcm_rows()[i].0, 2),
                ).0,
                spec_pcm_row(
                    *device,
                    spec_with_source(spec_base_request(*device, *settings), pcm_rows()[i].0, 2),
                ).1,
            ),
        forall|i: int|
            8 <= i < 11 ==> #[trigger] row_view(r@[i]) == (
                dsd_rows()[i - 8].1,
                spec_dsd_row(
                    *device,
                    spec_base_request(*device, *settings),
                    dsd_rows()[i - 8].0,
                    settings.dsd.mode,
                ).0,
                spec_dsd_row(
                    *device,
                    spec_base_request(*device, *settings),
                    dsd_rows()[i - 8].0,
                    settings.dsd.mode,
                ).1,
            ),
{
    let base = OutputRequest {
        track_rate: 44_100,
        track_channels: 2,
        preferred_device: Some(device.id.clone()),
        exclusive: settings.audio.exclusive,
        fallback: settings.audio.fallback,
        resampler: settings.audio.resampler.mode,
        fallback_rate: settings.audio.resampler.fallback_rate,
        clock_family: settings.audio.resampler.prefer_family,
        fixed_rate: settings.audio.resampler.fixed_rate,
    };
    let mode = settings.dsd.mode;
    let mut rows: Vec<ValidationRow> = Vec::new();
    rows.push(validate_pcm_row(device, &base.with_source(44_100, 2), "44.1k PCM"));
    rows.push(validate_pcm_row(device, &base.with_source(48_000, 2), "48k PCM"));
    rows.push(validate_pcm_row(device, &base.with_source(88_200, 2), "88.2k PCM"));
    rows.push(validate_pcm_row(device, &base.with_source(96_000, 2), "96k PCM"));
    rows.push(validate_pcm_row(device, &base.with_source(176_400, 2), "176.4k PCM"));
    rows.push(validate_pcm_row(device, &base.with_source(192_000, 2), "192k PCM"));
    rows.push(validate_pcm_row(device, &base.with_source(352_800, 2), "352.8k PCM"));
    rows.push(validate_pcm_row(device, &base.with_source(384_000, 2), "384k PCM"));
    rows.push(validate_dsd_row(device, &base, 176_400, "DSD64", mode));
    rows.push(validate_dsd_row(device, &base, 352_800, "DSD128", mode));
    rows.push(validate_dsd_row(device, &base, 705_600, "DSD256", mode));
    rows
}


// ---------------------------------------------------------------------------
// Device descriptions from backend data
// ---------------------------------------------------------------------------

/// The default stream configuration a backend reports for a device.
#[derive(Debug, Clone, Copy, PartialEq, Eq, Structural)]
pub struct DefaultConfig {
    pub channels: u16,
    pub sample_rate: u32,
    pub sample_format: SampleFormat,
    pub buffer_size: SupportedBufferSize,
}

/// Index of the first supported configuration with two channels.
pub open spec fn first_stereo(sup: Seq<RateRange>, from: int) -> Option<int>
    decreases sup.len() - from,
{
    if from < 0 || from >= sup.len() {
        None
    } else if sup[from].channels == 2 {
        Some(from)
    } else {
        first_stereo(sup, from + 1)
    }
}

/// The configuration taken when the backend cannot report a default: the
/// first stereo supported configuration, else the first one, at its lowest
/// rate and with its sample format (F32 when none is known for it).
pub open spec fn spec_fallback_config(sup: Seq<RateRange>, formats: Seq<SampleFormat>) -> Option<
    DefaultConfig,
> {
    let pick: Option<int> = match first_stereo(sup, 0) {
        Some(i) => Some(i),
        None => if sup.len() > 0 {
            Some(0int)
        } else {
            None
        },
    };
    match pick {
        Some(i) => Some(
            DefaultConfig {
                channels: sup[i].channels,
                sample_rate: sup[i].min,
                sample_format: if i < formats.len() {
                    formats[i]
                } else {
                    SampleFormat::F32
                },
                buffer_size: sup[i].buffer_size,
            },
        ),
        None => None,
    }
}

proof fn lemma_first_stereo_in_range(sup: Seq<RateRange>, from: int)
    ensures
        first_stereo(sup, from) matches Some(i) ==> from <= i < sup.len() && sup[i].channels == 2,
    decreases sup.len() - from,
{
    if 0 <= from < sup.len() && sup[from].channels != 2 {
        lemma_first_stereo_in_range(sup, from + 1);
    }
}

fn find_stereo(sup: &Vec<RateRange>) -> (r: Option<usize>)
    ensures
        match r {
            Some(i) => first_stereo(sup@, 0) == Some(i as int),
            None => first_stereo(sup@, 0) is None,
        },
{
    let mut i: usize = 0;
    while i < sup.len()
        invariant
            i <= sup@.len(),
            first_stereo(sup@, 0) == first_stereo(sup@, i as int),
        decreases sup.len() - i,
    {
        if sup[i].channels == 2 {
            return Some(i);
        }
        i += 1;
    }
    None
}

fn fallback_config(sup: &Vec<RateRange>, formats: &Vec<SampleFormat>) -> (r: Option<DefaultConfig>)
    ensures
        r == spec_fallback_config(sup@, formats@),
{
    proof {
        lemma_first_stereo_in_range(sup@, 0);
    }
    let pick = match find_stereo(sup) {
        Some(p) => Some(p),
        None => if sup.len() > 0 {
            Some(0usize)
        } else {
            None
        },
    };
    match pick {
        Some(k) => {
            let r = sup[k];
            let f = if k < formats.len() {
                formats[k]
            } else {
                SampleFormat::F32
            };
            Some(
                DefaultConfig {
                    channels: r.channels,
                    sample_rate: r.min,
                    sample_format: f,
                    buffer_size: r.buffer_size,
                },
            )
        },
        None => None,
    }
}

/// The description of a device from what the backend reports: its key and
/// label, its supported configurations with their sample formats (aligned
/// by index), and its default configuration if the backend could resolve
/// one (else the fallback of [`spec_fallback_config`]). A device with
/// neither is left out (`None`).
pub fn device_info_from(
    id: String,
    name: String,
    supported: Vec<RateRange>,
    formats: Vec<SampleFormat>,
    default: Option<DefaultConfig>,
) -> (r: Option<DeviceInfo>)
    ensures
        ({
            let cfg = match default {
                Some(c) => Some(c),
                None => spec_fallback_config(supported@, formats@),
            };
            match (r, cfg) {
                (None, None) => true,
                (Some(d), Some(c)) => {
                    &&& d.id@ == id@
                    &&& d.name@ == name@
                    &&& d.channels == c.channels
                    &&& d.sample_rate == c.sample_rate
                    &&& d.sample_format == c.sample_format
                    &&& d.buffer_size == c.buffer_size
                    &&& d.supported@ == supported@
                    &&& d.category == spec_classify_device(id@, name@)
                    &&& strictly_sorted(d.supported_rates@)
                    &&& (forall|x: u32| d.supported_rates@.contains(x) <==> is_range_bound(supported@, x))
                    &&& d.supported_formats@ == dedup_first(formats@)
                    &&& d.exclusive_capable == (spec_is_raw_hardware_id(id@) && d.category
                        == DeviceCategory::Hardware)
                },
                _ => false,
            }
        }),
{
    let cfg = match default {
        Some(c) => c,
        None => match fallback_config(&supported, &formats) {
            Some(c) => c,
            None => {
                return None;
            },
        },
    };
    let category = classify_device(id.as_str(), name.as_str());
    let rates = expand_supported_rates(supported.as_slice());
    let fmts = dedup_formats(formats.as_slice());
    let raw = is_raw_hardware_id(id.as_str());
    let exclusive_capable = raw && category == DeviceCategory::Hardware;
    Some(
        DeviceInfo {
            id,
            name,
            channels: cfg.channels,
            sample_rate: cfg.sample_rate,
            sample_format: cfg.sample_format,
            buffer_size: cfg.buffer_size,
            supported,
            category,
            supported_rates: rates,
            supported_formats: fmts,
            exclusive_capable,
        },
    )
}

} // verus!
