//! Playback control rules: the transport state machine over the shared
//! control block, the DSD fallback chain, the dither switches and PRNG, and
//! the sizing of the producer/consumer ring.

use vstd::prelude::*;

use std::collections::hash_map::DefaultHasher;
use std::hash::{Hash, Hasher};
use std::path::Path;

use crate::audio::output::{FallbackReason, SampleFormat};
use crate::audio::worker::{spec_rebased, spec_reconcile, spec_seek_acknowledged, stop_kept, RtShared, SeekReconcile};
use crate::playlist::{extension_chars, lower_vec, path_extension};
use crate::settings::{
    clamp_ring_buffer_ms, spec_clamp_ring_buffer_ms, DsdMode, FallbackPolicy, ResamplerDither,
};
use crate::text::{ascii_lower_seq, chars_eq};

verus! {

// ---------------------------------------------------------------------------
// Dither
// ---------------------------------------------------------------------------

/// Dither-mode index for TPDF noise.
pub const DITHER_INDEX_TPDF: u8 = 0;

/// Dither-mode index for half-amplitude triangular noise.
pub const DITHER_INDEX_TRIANGULAR: u8 = 1;

/// Dither-mode index for no dither.
pub const DITHER_INDEX_OFF: u8 = 2;

pub open spec fn spec_dither_index(d: ResamplerDither) -> u8 {
    match d {
        ResamplerDither::Tpdf => DITHER_INDEX_TPDF,
        ResamplerDither::Triangular => DITHER_INDEX_TRIANGULAR,
        ResamplerDither::Off => DITHER_INDEX_OFF,
    }
}

/// The index stored in the control block for a dither setting.
pub fn dither_index(d: ResamplerDither) -> (r: u8)
    ensures
        r == spec_dither_index(d),
{
    match d {
        ResamplerDither::Tpdf => DITHER_INDEX_TPDF,
        ResamplerDither::Triangular => DITHER_INDEX_TRIANGULAR,
        ResamplerDither::Off => DITHER_INDEX_OFF,
    }
}

/// Whether the quantising callbacks add dither: not when dither is off, and
/// not in a true bit-perfect passthrough (bit-perfect without resampling).
pub fn dither_enabled_rt(bit_perfect: bool, resampler_enabled: bool, dither_idx: u8) -> (r: bool)
    ensures
        r == (dither_idx != DITHER_INDEX_OFF && !(bit_perfect && !resampler_enabled)),
{
    if dither_idx == DITHER_INDEX_OFF {
        return false;
    }
    if bit_perfect && !resampler_enabled {
        return false;
    }
    true
}

/// One xorshift32 step.
pub open spec fn xorshift32(x: u32) -> u32 {
    let a = x ^ (x << 13u32);
    let b = a ^ (a >> 17u32);
    b ^ (b << 5u32)
}

/// Noise generator for the quantising callbacks (xorshift32).
#[derive(Debug, Clone, Copy)]
pub struct TpdfRng {
    pub state: u32,
}

impl TpdfRng {
    /// The generator with its fixed start state.
    pub fn new() -> (r: TpdfRng)
        ensures
            r.state == 0x9E37_79B9,
    {
        TpdfRng { state: 0x9E37_79B9 }
    }

    /// (Re)seed the generator; the state is forced odd, so never zero.
    pub fn reseed(&mut self, seed: u32)
        ensures
            final(self).state == seed | 1,
    {
        self.state = seed | 1;
    }

    /// Advance the generator and return the new state; the callbacks take its
    /// top 24 bits as a uniform sample in [0, 1).
    pub fn next_bits(&mut self) -> (r: u32)
        ensures
            r == xorshift32(old(self).state),
            final(self).state == r,
    {
        let mut x = self.state;
        x ^= x << 13;
        x ^= x >> 17;
        x ^= x << 5;
        self.state = x;
        x
    }
}

impl Default for TpdfRng {
    fn default() -> (r: TpdfRng)
        ensures
            r.state == 0x9E37_79B9,
    {
        TpdfRng::new()
    }
}

/// A seeded generator is never in the all-zero state, and a step keeps a
/// non-zero state non-zero, so the noise never collapses to silence.
pub proof fn law_xorshift_never_zero(seed: u32, x: u32)
    ensures
        seed | 1 != 0,
        x != 0 ==> xorshift32(x) != 0,
{
    assert(seed | 1 != 0) by (bit_vector);
    let a = x ^ (x << 13u32);
    let b = a ^ (a >> 17u32);
    assert(x != 0 ==> x ^ (x << 13u32) != 0) by (bit_vector);
    assert(a != 0 ==> a ^ (a >> 17u32) != 0) by (bit_vector);
    assert(b != 0 ==> b ^ (b << 5u32) != 0) by (bit_vector);
}

// ---------------------------------------------------------------------------
// Ring sizing and stream labels
// ---------------------------------------------------------------------------

/// Interleaved samples of `ms` milliseconds at `rate` Hz and `ch` channels.
pub open spec fn ring_samples(rate: u32, ch: int, ms: u32) -> int {
    rate as int * ch * spec_clamp_ring_buffer_ms(ms) as int / 1000
}

pub open spec fn spec_ring_capacity(
    out_rate: u32,
    out_ch: usize,
    ring_buffer_ms: u32,
    buffer_frames: Option<u32>,
) -> int {
    let ch: int = if out_ch < 1 {
        1
    } else {
        out_ch as int
    };
    let samples = ring_samples(out_rate, ch, ring_buffer_ms) as usize as int;
    let floor: int = match buffer_frames {
        Some(f) => f as int * ch * 2,
        None => 0,
    };
    let a = if samples < floor {
        floor
    } else {
        samples
    };
    if a < 4096 {
        4096
    } else {
        a
    }
}

/// What `DefaultHasher::new()` yields after hashing the path `p` (std
/// `Hash for Path`, which hashes its components).
pub uninterp spec fn std_path_hash(p: Seq<char>) -> u64;

/// std `Hash for Path` fed into a fresh `DefaultHasher`: a deterministic
/// function of the path's characters in a given build; nothing is claimed of
/// its value.
#[verifier::external_body]
fn hash_path(path: &str) -> (r: u64)
    ensures
        r == std_path_hash(path@),
{
    let mut h = DefaultHasher::new();
    Path::new(path).hash(&mut h);
    h.finish()
}

/// The dither seed of a track: the top 30 bits of its path hash, made odd.
pub open spec fn spec_track_seed(h: u64) -> u32 {
    ((h >> 34u64) as u32) | 1u32
}

/// Per-track seed of the dither generator: stable across runs for a given
/// path, and never zero.
pub fn track_seed(path: &str) -> (r: u32)
    ensures
        r == spec_track_seed(std_path_hash(path@)),
        r != 0,
{
    let h = hash_path(path);
    let r = ((h >> 34) as u32) | 1;
    assert(r != 0) by (bit_vector)
        requires
            r == ((h >> 34u64) as u32) | 1u32,
    ;
    r
}

/// Sample capacity of the producer/consumer ring: the requested depth (in
/// milliseconds, clamped) at the device geometry, but never less than two
/// backend buffer periods nor 4096 samples.
pub fn ring_capacity(
    out_rate: u32,
    out_ch: usize,
    ring_buffer_ms: u32,
    buffer_frames: Option<u32>,
) -> (r: usize)
    requires
        out_rate as int * (if out_ch < 1 {
            1
        } else {
            out_ch as int
        }) * spec_clamp_ring_buffer_ms(ring_buffer_ms) as int <= u64::MAX,
        buffer_frames matches Some(f) ==> f as int * (if out_ch < 1 {
            1
        } else {
            out_ch as int
        }) * 2 <= usize::MAX,
    ensures
        r == spec_ring_capacity(out_rate, out_ch, ring_buffer_ms, buffer_frames),
{
    let ch: usize = if out_ch < 1 {
        1
    } else {
        out_ch
    };
    let ms = clamp_ring_buffer_ms(ring_buffer_ms) as u64;
    assert(out_rate as int * ch as int <= out_rate as int * ch as int * ms) by (nonlinear_arith)
        requires
            ms >= 1,
    ;
    let samples = (out_rate as u64) * (ch as u64) * ms / 1000;
    let floor: usize = match buffer_frames {
        Some(f) => (f as usize) * ch * 2,
        None => 0,
    };
    let s = samples as usize;
    let a = if s < floor {
        floor
    } else {
        s
    };
    if a < 4096 {
        4096
    } else {
        a
    }
}

pub open spec fn spec_format_name(f: SampleFormat) -> Seq<char> {
    match f {
        SampleFormat::F32 => "F32"@,
        SampleFormat::I32 => "I32"@,
        SampleFormat::I24 => "I24"@,
        SampleFormat::I16 => "I16"@,
        SampleFormat::U8 => "U8"@,
        _ => "?"@,
    }
}

/// Short sample-format name of the formats the callbacks produce ("?" for
/// the others).
pub fn format_name(f: SampleFormat) -> (r: &'static str)
    ensures
        r@ == spec_format_name(f),
{
    match f {
        SampleFormat::F32 => "F32",
        SampleFormat::I32 => "I32",
        SampleFormat::I24 => "I24",
        SampleFormat::I16 => "I16",
        SampleFormat::U8 => "U8",
        _ => "?",
    }
}

/// A `.dsf` or `.dff` file (case-insensitive).
pub open spec fn spec_is_dsd_path(path: Seq<char>) -> bool {
    match path_extension(path) {
        Some(e) => ascii_lower_seq(e) == "dsf"@ || ascii_lower_seq(e) == "dff"@,
        None => false,
    }
}

/// Whether `path` names a DSD file (`.dsf`/`.dff`, any case).
pub fn is_dsd_path(path: &str) -> (r: bool)
    ensures
        r == spec_is_dsd_path(path@),
{
    match extension_chars(path) {
        None => false,
        Some(e) => {
            let l = lower_vec(&e);
            chars_eq(&l, "dsf") || chars_eq(&l, "dff")
        },
    }
}

/// Description of the current audio stream: geometry and degradations.
#[derive(Debug, Clone)]
pub struct StreamDesc {
    pub device: String,
    pub rate: u32,
    pub channels: u16,
    pub format: &'static str,
    pub exclusive: bool,
    /// Exclusive access was requested by the policy but not granted.
    pub exclusive_fallback: bool,
    pub resampled: bool,
    pub source_rate: u32,
    pub source_channels: usize,
    pub dsd_mode: Option<DsdMode>,
    pub dsd_preferred: Option<DsdMode>,
    pub dsd_fallback_reason: Option<String>,
    pub fallback: Option<FallbackReason>,
}

/// Seam that makes the first `build_failures` stream builds fail, to exercise
/// the retry paths without a device.
#[derive(Debug, Default)]
pub struct TestHooks {
    /// Remaining forced build failures.
    pub build_failures: usize,
}

impl TestHooks {
    /// Consume one forced failure, if any is left.
    pub fn take_failure(&mut self) -> (r: bool)
        ensures
            r == (old(self).build_failures > 0),
            final(self).build_failures == if r {
                (old(self).build_failures - 1) as usize
            } else {
                old(self).build_failures
            },
    {
        if self.build_failures > 0 {
            self.build_failures = self.build_failures - 1;
            true
        } else {
            false
        }
    }
}

// ---------------------------------------------------------------------------
// DSD fallback chain
// ---------------------------------------------------------------------------

/// Modes tried for a DSD track, in order: Native -> DoP -> Pcm from the
/// preferred mode on.
pub open spec fn spec_dsd_chain(preferred: DsdMode) -> Seq<DsdMode> {
    match preferred {
        DsdMode::Native => seq![DsdMode::Native, DsdMode::DoP, DsdMode::Pcm],
        DsdMode::DoP => seq![DsdMode::DoP, DsdMode::Pcm],
        DsdMode::Pcm => seq![DsdMode::Pcm],
    }
}

/// The DSD modes to try for `preferred`.
pub fn dsd_chain(preferred: DsdMode) -> (r: Vec<DsdMode>)
    ensures
        r@ == spec_dsd_chain(preferred),
{
    match preferred {
        DsdMode::Native => vec![DsdMode::Native, DsdMode::DoP, DsdMode::Pcm],
        DsdMode::DoP => vec![DsdMode::DoP, DsdMode::Pcm],
        DsdMode::Pcm => vec![DsdMode::Pcm],
    }
}

/// Whether the chain goes on after a failed step: not under the `Fail`
/// policy, which stops at the first failure.
pub fn dsd_chain_continues(policy: FallbackPolicy) -> (r: bool)
    ensures
        r == (policy != FallbackPolicy::Fail),
{
    policy != FallbackPolicy::Fail
}

pub open spec fn spec_mode_name(m: DsdMode) -> Seq<char> {
    match m {
        DsdMode::Pcm => "Pcm"@,
        DsdMode::Native => "Native"@,
        DsdMode::DoP => "DoP"@,
    }
}

/// Why the chain ended on `used` rather than `preferred` ("DoP unavailable").
pub fn dsd_fallback_reason(preferred: DsdMode, used: DsdMode) -> (r: Option<String>)
    ensures
        match r {
            Some(s) => used != preferred && s@ == spec_mode_name(preferred) + " unavailable"@,
            None => used == preferred,
        },
{
    if used == preferred {
        return None;
    }
    let mut s = crate::text::owned(
        match preferred {
            DsdMode::Pcm => "Pcm",
            DsdMode::Native => "Native",
            DsdMode::DoP => "DoP",
        },
    );
    crate::text::append_str(&mut s, " unavailable");
    Some(s)
}

// ---------------------------------------------------------------------------
// Transport state machine
// ---------------------------------------------------------------------------

/// Rewind: publish a seek to frame 0 and clear the finished state.
pub open spec fn spec_rewind(s: RtShared) -> RtShared {
    RtShared {
        seek_generation: (s.seek_generation + 1) as u64,
        seek_target_frames: 0,
        finished: false,
        natural_end: false,
        ..s
    }
}

/// Play: a finished track is rewound first; then it plays.
pub open spec fn spec_play(s: RtShared) -> RtShared {
    let r = if s.finished {
        spec_rewind(s)
    } else {
        s
    };
    RtShared { natural_end: false, playing: true, ..r }
}

/// Toggle: pause when playing, otherwise play.
pub open spec fn spec_toggle(s: RtShared) -> RtShared {
    if s.playing {
        RtShared { playing: false, ..s }
    } else {
        spec_play(s)
    }
}

/// Stop: not playing, finished (by hand, not naturally), position and worker
/// back at the start.
pub open spec fn spec_stop(s: RtShared) -> RtShared {
    RtShared {
        playing: false,
        finished: true,
        natural_end: false,
        pos_frames: 0,
        seek_generation: (s.seek_generation + 1) as u64,
        seek_target_frames: 0,
        ..s
    }
}

/// Seek: publish the target and re-base the position optimistically.
pub open spec fn spec_seek(s: RtShared, target: u64) -> RtShared {
    RtShared {
        seek_generation: (s.seek_generation + 1) as u64,
        seek_target_frames: target,
        pos_frames: target,
        finished: false,
        natural_end: false,
        ..s
    }
}

/// End of stream: when the callback got fewer samples than it asked for and
/// the worker reported the end, playback stops with a natural end.
pub open spec fn spec_finish_if_eof(s: RtShared, produced: usize, requested: usize) -> RtShared {
    if produced < requested && s.eof {
        RtShared { playing: false, finished: true, natural_end: true, ..s }
    } else {
        s
    }
}

/// Rewind the track; returns the seek generation to send to the worker.
pub fn transport_rewind(shared: &mut RtShared) -> (generation: u64)
    requires
        old(shared).seek_generation < u64::MAX,
    ensures
        stop_kept(*old(shared), *final(shared)),
        *final(shared) == spec_rewind(*old(shared)),
        generation == final(shared).seek_generation,
{
    let generation = shared.begin_seek(0);
    shared.set_finished(false);
    shared.set_natural_end(false);
    generation
}

/// Start or resume playback; when the track had finished it is rewound and
/// the seek generation for the worker is returned.
pub fn transport_play(shared: &mut RtShared) -> (r: Option<u64>)
    requires
        old(shared).seek_generation < u64::MAX,
    ensures
        stop_kept(*old(shared), *final(shared)),
        *final(shared) == spec_play(*old(shared)),
        r == if old(shared).finished {
            Some(final(shared).seek_generation)
        } else {
            None
        },
{
    let mut r = None;
    if shared.finished() {
        r = Some(transport_rewind(shared));
    }
    shared.set_natural_end(false);
    shared.set_playing(true);
    r
}

/// Pause when playing, otherwise play (see [`transport_play`]).
pub fn transport_toggle(shared: &mut RtShared) -> (r: Option<u64>)
    requires
        old(shared).seek_generation < u64::MAX,
    ensures
        stop_kept(*old(shared), *final(shared)),
        *final(shared) == spec_toggle(*old(shared)),
        r == if !old(shared).playing && old(shared).finished {
            Some(final(shared).seek_generation)
        } else {
            None
        },
{
    if shared.is_playing() {
        shared.set_playing(false);
        None
    } else {
        transport_play(shared)
    }
}

/// Stop and rewind; returns the seek generation for the worker.
pub fn transport_stop(shared: &mut RtShared) -> (generation: u64)
    requires
        old(shared).seek_generation < u64::MAX,
    ensures
        stop_kept(*old(shared), *final(shared)),
        *final(shared) == spec_stop(*old(shared)),
        generation == final(shared).seek_generation,
{
    shared.set_playing(false);
    shared.set_finished(true);
    shared.set_natural_end(false);
    shared.set_pos_frames(0);
    shared.begin_seek(0)
}

/// Seek to `target_frames`; returns the seek generation for the worker.
pub fn transport_seek(shared: &mut RtShared, target_frames: u64) -> (generation: u64)
    requires
        old(shared).seek_generation < u64::MAX,
    ensures
        stop_kept(*old(shared), *final(shared)),
        *final(shared) == spec_seek(*old(shared), target_frames),
        generation == final(shared).seek_generation,
{
    let generation = shared.begin_seek(target_frames);
    shared.set_pos_frames(target_frames);
    shared.set_finished(false);
    shared.set_natural_end(false);
    generation
}

/// Stop with a natural end once the worker has drained the source.
pub fn finish_if_eof(shared: &mut RtShared, produced: usize, requested: usize)
    ensures
        stop_kept(*old(shared), *final(shared)),
        *final(shared) == spec_finish_if_eof(*old(shared), produced, requested),
{
    if produced < requested && shared.eof() {
        shared.set_playing(false);
        shared.set_finished(true);
        shared.set_natural_end(true);
    }
}

/// Playing after a stop replays the track from its start: playing, not
/// finished, position and worker seek target at frame 0.
pub proof fn law_play_after_stop_replays_from_start(s: RtShared)
    requires
        s.seek_generation < u64::MAX - 1,
    ensures
        ({
            let t = spec_play(spec_stop(s));
            &&& t.playing
            &&& !t.finished
            &&& !t.natural_end
            &&& t.pos_frames == 0
            &&& t.seek_target_frames == 0
            &&& t.seek_generation == s.seek_generation + 2
        }),
{
}

/// Toggling twice from unfinished playback pauses and resumes: the state
/// comes back unchanged (apart from clearing the natural-end flag).
pub proof fn law_toggle_twice_resumes(s: RtShared)
    requires
        s.playing,
        !s.finished,
    ensures
        !spec_toggle(s).playing,
        spec_toggle(spec_toggle(s)) == (RtShared { natural_end: false, ..s }),
{
}

/// A seek re-bases the position to its target and is what the worker is
/// asked to perform; it never leaves the track finished.
pub proof fn law_seek_moves_position(s: RtShared, target: u64)
    requires
        s.seek_generation < u64::MAX,
    ensures
        spec_seek(s, target).pos_frames == target,
        spec_seek(s, target).seek_target_frames == target,
        !spec_seek(s, target).finished,
        spec_seek(s, target).playing == s.playing,
{
}

/// A seek runs end to end: after the player publishes it and the worker
/// acknowledges it, the consumer re-bases to the target, the track is not
/// finished, the source is not at its end, and no seek is pending any more.
pub proof fn law_seek_round_trip(s: RtShared, local: u64, target: u64)
    requires
        s.seek_generation < u64::MAX,
        local == s.seek_generation,
    ensures
        ({
            let a = spec_seek(s, target);
            let b = spec_seek_acknowledged(a, a.seek_generation);
            let c = spec_rebased(b);
            &&& spec_reconcile(local, b.seek_generation, b.seek_done_generation)
                == SeekReconcile::Rebase
            &&& c.pos_frames == target
            &&& !c.finished && !c.eof && !c.natural_end
            &&& c.playing == s.playing
            &&& spec_reconcile(b.seek_generation, c.seek_generation, c.seek_done_generation)
                == SeekReconcile::Idle
        }),
{
}

/// Playback ends on its own only through end of stream: the natural-end
/// flag set by `finish_if_eof` comes with a finished, stopped transport.
pub proof fn law_natural_end_only_at_eof(s: RtShared, produced: usize, requested: usize)
    ensures
        spec_finish_if_eof(s, produced, requested).natural_end && !s.natural_end ==> s.eof
            && produced < requested && spec_finish_if_eof(s, produced, requested).finished
            && !spec_finish_if_eof(s, produced, requested).playing,
{
}

} // verus!
