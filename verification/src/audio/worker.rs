//! Control/status block shared by the UI, the decode worker and the
//! real-time consumer, and the consumer's pure bookkeeping: how many samples
//! a pull may take and when a pending seek is reconciled.

use vstd::prelude::*;

use crate::audio::player::DITHER_INDEX_TPDF;

verus! {

/// Raw bits of the default software volume (0.8 as an IEEE-754 `f32`).
pub const DEFAULT_VOLUME_BITS: u32 = 0x3F4C_CCCD;

/// Control/status block: transport flags, counters of the seek handshake and
/// the immutable stream geometry published at open.
#[derive(Debug)]
pub struct RtShared {
    /// Software volume as raw `f32` bits.
    pub volume_bits: u32,
    pub muted: bool,
    /// Whether the worker should produce and the consumer should play.
    pub playing: bool,
    /// The track is logically finished (stop or natural end).
    pub finished: bool,
    /// Direct output: bypass software volume and mute.
    pub bit_perfect: bool,
    /// Dither-mode index (see `player::dither_index`).
    pub dither: u8,
    /// Whether the resampler actually transforms the stream.
    pub resampler_enabled: bool,
    /// Output frame counter owned by the consumer.
    pub pos_frames: u64,
    /// Seek handshake: the UI bumps the generation and publishes the target;
    /// the worker echoes the generation when done.
    pub seek_generation: u64,
    pub seek_target_frames: u64,
    pub seek_done_generation: u64,
    /// The source is exhausted and the tail is drained.
    pub eof: bool,
    /// Playback ended because of `eof`.
    pub natural_end: bool,
    /// Non-zero after an unrecoverable worker error.
    pub rt_err: u8,
    /// Visualizer tap switch.
    pub viz_tap_active: bool,
    /// The worker should bail out (even while blocked on a full ring).
    pub stop_requested: bool,
    pub out_rate: u32,
    pub out_ch: usize,
}

/// Every field of `a` equals that of `b`, except possibly those the caller
/// lists as changed (the flags select the fields that may differ).
pub open spec fn same_except(
    a: RtShared,
    b: RtShared,
    muted: bool,
    playing: bool,
    finished: bool,
    bit_perfect: bool,
    dither: bool,
    pos: bool,
    seek: bool,
    eof: bool,
    natural_end: bool,
    viz: bool,
    stop: bool,
    volume: bool,
) -> bool {
    &&& (!volume ==> a.volume_bits == b.volume_bits)
    &&& (!muted ==> a.muted == b.muted)
    &&& (!playing ==> a.playing == b.playing)
    &&& (!finished ==> a.finished == b.finished)
    &&& (!bit_perfect ==> a.bit_perfect == b.bit_perfect)
    &&& (!dither ==> a.dither == b.dither)
    &&& a.resampler_enabled == b.resampler_enabled
    &&& (!pos ==> a.pos_frames == b.pos_frames)
    &&& (!seek ==> a.seek_generation == b.seek_generation && a.seek_target_frames
        == b.seek_target_frames && a.seek_done_generation == b.seek_done_generation)
    &&& (!eof ==> a.eof == b.eof)
    &&& (!natural_end ==> a.natural_end == b.natural_end)
    &&& a.rt_err == b.rt_err
    &&& (!viz ==> a.viz_tap_active == b.viz_tap_active)
    &&& (!stop ==> a.stop_requested == b.stop_requested)
    &&& a.out_rate == b.out_rate
    &&& a.out_ch == b.out_ch
}

/// Only the field selected by `which` may differ between `a` and `b`:
/// 0 muted, 1 playing, 2 finished, 3 bit-perfect, 4 dither, 5 position,
/// 6 seek handshake, 7 eof, 8 natural end, 9 visualizer tap, 10 stop,
/// 11 volume.
pub open spec fn only_changed(a: RtShared, b: RtShared, which: int) -> bool {
    same_except(
        a,
        b,
        which == 0,
        which == 1,
        which == 2,
        which == 3,
        which == 4,
        which == 5,
        which == 6,
        which == 7,
        which == 8,
        which == 9,
        which == 10,
        which == 11,
    )
}

/// No operation clears the stop flag: once set in `a`, it is set in `b`.
pub open spec fn stop_kept(a: RtShared, b: RtShared) -> bool {
    a.stop_requested ==> b.stop_requested
}

/// The block after `begin_seek(target)`: the generation counts one more seek
/// and the target is published; nothing else changes.
pub open spec fn seek_begun(s: RtShared, target: u64) -> RtShared {
    RtShared { seek_generation: (s.seek_generation + 1) as u64, seek_target_frames: target, ..s }
}

/// The block after `begin_seek` with each of `targets` in turn.
pub open spec fn seeks_begun(s: RtShared, targets: Seq<u64>) -> RtShared
    decreases targets.len(),
{
    if targets.len() == 0 {
        s
    } else {
        seek_begun(seeks_begun(s, targets.drop_last()), targets.last())
    }
}

/// Once a stop has been requested it stays requested: along any run of the
/// block's operations (each keeping the flag, as every operation's contract
/// states), every later state still asks to stop.
pub proof fn law_stop_stays_requested(run: Seq<RtShared>, i: int, j: int)
    requires
        forall|k: int| 0 <= k < run.len() - 1 ==> #[trigger] stop_kept(run[k], run[k + 1]),
        0 <= i <= j < run.len(),
        run[i].stop_requested,
    ensures
        run[j].stop_requested,
    decreases j - i,
{
    if j > i {
        law_stop_stays_requested(run, i, j - 1);
        let k = j - 1;
        assert(stop_kept(run[k], run[k + 1]));
        assert(k + 1 == j);
    }
}

/// Seek generations count the seeks: after `k` calls of `begin_seek` the
/// generation has grown by exactly `k` and the last target is published;
/// the `i`-th call returns the starting generation plus `i` (from 1).
pub proof fn law_seek_generation_counts(s: RtShared, targets: Seq<u64>)
    requires
        s.seek_generation + targets.len() <= u64::MAX,
    ensures
        seeks_begun(s, targets).seek_generation == s.seek_generation + targets.len(),
        targets.len() > 0 ==> seeks_begun(s, targets).seek_target_frames == targets.last(),
        forall|i: int|
            0 < i <= targets.len() ==> #[trigger] seeks_begun(s, targets.take(i)).seek_generation == s.seek_generation + i,
        seeks_begun(s, targets).stop_requested == s.stop_requested,
    decreases targets.len(),
{
    if targets.len() > 0 {
        law_seek_generation_counts(s, targets.drop_last());
        assert forall|i: int| 0 < i <= targets.len() implies #[trigger] seeks_begun(s, targets.take(i)).seek_generation
            == s.seek_generation + i by {
            if i < targets.len() {
                assert(targets.take(i) =~= targets.drop_last().take(i));
            } else {
                assert(targets.take(i) =~= targets);
            }
        }
    }
}

impl RtShared {
    /// A stopped, unmuted block with no pending seek.
    pub fn new(out_rate: u32, out_ch: usize, resampler_enabled: bool) -> (r: RtShared)
        ensures
            r.volume_bits == DEFAULT_VOLUME_BITS,
            !r.muted,
            !r.playing,
            r.finished,
            !r.bit_perfect,
            r.dither == DITHER_INDEX_TPDF,
            r.resampler_enabled == resampler_enabled,
            r.pos_frames == 0,
            r.seek_generation == 0,
            r.seek_target_frames == 0,
            r.seek_done_generation == 0,
            !r.eof,
            !r.natural_end,
            r.rt_err == 0,
            !r.viz_tap_active,
            !r.stop_requested,
            r.out_rate == out_rate,
            r.out_ch == out_ch,
    {
        RtShared {
            volume_bits: DEFAULT_VOLUME_BITS,
            muted: false,
            playing: false,
            finished: true,
            bit_perfect: false,
            dither: DITHER_INDEX_TPDF,
            resampler_enabled,
            pos_frames: 0,
            seek_generation: 0,
            seek_target_frames: 0,
            seek_done_generation: 0,
            eof: false,
            natural_end: false,
            rt_err: 0,
            viz_tap_active: false,
            stop_requested: false,
            out_rate,
            out_ch,
        }
    }

    pub fn out_rate(&self) -> (r: u32)
        ensures
            r == self.out_rate,
    {
        self.out_rate
    }

    pub fn out_ch(&self) -> (r: usize)
        ensures
            r == self.out_ch,
    {
        self.out_ch
    }

    pub fn resampler_enabled(&self) -> (r: bool)
        ensures
            r == self.resampler_enabled,
    {
        self.resampler_enabled
    }

    /// Raw bits of the software volume.
    pub fn volume_bits(&self) -> (r: u32)
        ensures
            r == self.volume_bits,
    {
        self.volume_bits
    }

    /// Store the raw bits of an (already clamped) software volume.
    pub fn set_volume_bits(&mut self, bits: u32)
        ensures
            stop_kept(*old(self), *final(self)),
            final(self).volume_bits == bits,
            only_changed(*old(self), *final(self), 11),
    {
        self.volume_bits = bits;
    }

    pub fn muted(&self) -> (r: bool)
        ensures
            r == self.muted,
    {
        self.muted
    }

    pub fn set_muted(&mut self, m: bool)
        ensures
            stop_kept(*old(self), *final(self)),
            final(self).muted == m,
            only_changed(*old(self), *final(self), 0),
    {
        self.muted = m;
    }

    /// Flip mute.
    pub fn toggle_muted(&mut self)
        ensures
            stop_kept(*old(self), *final(self)),
            final(self).muted == !old(self).muted,
            only_changed(*old(self), *final(self), 0),
    {
        let cur = self.muted;
        self.muted = !cur;
    }

    pub fn is_playing(&self) -> (r: bool)
        ensures
            r == self.playing,
    {
        self.playing
    }

    pub fn set_playing(&mut self, p: bool)
        ensures
            stop_kept(*old(self), *final(self)),
            final(self).playing == p,
            only_changed(*old(self), *final(self), 1),
    {
        self.playing = p;
    }

    pub fn bit_perfect(&self) -> (r: bool)
        ensures
            r == self.bit_perfect,
    {
        self.bit_perfect
    }

    pub fn set_bit_perfect(&mut self, b: bool)
        ensures
            stop_kept(*old(self), *final(self)),
            final(self).bit_perfect == b,
            only_changed(*old(self), *final(self), 3),
    {
        self.bit_perfect = b;
    }

    /// Bit-perfect output is on, but the stream is resampled anyway.
    pub fn bit_perfect_resampled(&self) -> (r: bool)
        ensures
            r == (self.bit_perfect && self.resampler_enabled),
    {
        self.bit_perfect() && self.resampler_enabled
    }

    pub fn dither_index(&self) -> (r: u8)
        ensures
            r == self.dither,
    {
        self.dither
    }

    pub fn set_dither_index(&mut self, idx: u8)
        ensures
            stop_kept(*old(self), *final(self)),
            final(self).dither == idx,
            only_changed(*old(self), *final(self), 4),
    {
        self.dither = idx;
    }

    pub fn finished(&self) -> (r: bool)
        ensures
            r == self.finished,
    {
        self.finished
    }

    pub fn set_finished(&mut self, f: bool)
        ensures
            stop_kept(*old(self), *final(self)),
            final(self).finished == f,
            only_changed(*old(self), *final(self), 2),
    {
        self.finished = f;
    }

    pub fn pos_frames(&self) -> (r: u64)
        ensures
            r == self.pos_frames,
    {
        self.pos_frames
    }

    pub fn set_pos_frames(&mut self, frames: u64)
        ensures
            stop_kept(*old(self), *final(self)),
            final(self).pos_frames == frames,
            only_changed(*old(self), *final(self), 5),
    {
        self.pos_frames = frames;
    }

    pub fn natural_end(&self) -> (r: bool)
        ensures
            r == self.natural_end,
    {
        self.natural_end
    }

    pub fn set_natural_end(&mut self, e: bool)
        ensures
            stop_kept(*old(self), *final(self)),
            final(self).natural_end == e,
            only_changed(*old(self), *final(self), 8),
    {
        self.natural_end = e;
    }

    pub fn eof(&self) -> (r: bool)
        ensures
            r == self.eof,
    {
        self.eof
    }

    pub fn set_eof(&mut self, e: bool)
        ensures
            stop_kept(*old(self), *final(self)),
            final(self).eof == e,
            only_changed(*old(self), *final(self), 7),
    {
        self.eof = e;
    }

    /// Publish a seek request and return its generation (the previous
    /// generation plus one); the caller then tells the worker to seek.
    pub fn begin_seek(&mut self, target_frames: u64) -> (r: u64)
        requires
            old(self).seek_generation < u64::MAX,
        ensures
            stop_kept(*old(self), *final(self)),
            r == old(self).seek_generation + 1,
            final(self).seek_generation == r,
            final(self).seek_target_frames == target_frames,
            final(self).seek_done_generation == old(self).seek_done_generation,
            only_changed(*old(self), *final(self), 6),
            *final(self) == seek_begun(*old(self), target_frames),
    {
        self.seek_target_frames = target_frames;
        let g = self.seek_generation;
        self.seek_generation = g + 1;
        g + 1
    }

    pub fn seek_generation(&self) -> (r: u64)
        ensures
            r == self.seek_generation,
    {
        self.seek_generation
    }

    pub fn seek_target_frames(&self) -> (r: u64)
        ensures
            r == self.seek_target_frames,
    {
        self.seek_target_frames
    }

    /// The worker acknowledges the seek of `generation`.
    pub fn publish_seek_done(&mut self, generation: u64)
        ensures
            stop_kept(*old(self), *final(self)),
            final(self).seek_done_generation == generation,
            final(self).seek_generation == old(self).seek_generation,
            final(self).seek_target_frames == old(self).seek_target_frames,
            only_changed(*old(self), *final(self), 6),
    {
        self.seek_done_generation = generation;
    }

    pub fn seek_done_generation(&self) -> (r: u64)
        ensures
            r == self.seek_done_generation,
    {
        self.seek_done_generation
    }

    pub fn viz_tap_active(&self) -> (r: bool)
        ensures
            r == self.viz_tap_active,
    {
        self.viz_tap_active
    }

    pub fn set_viz_tap_active(&mut self, active: bool)
        ensures
            stop_kept(*old(self), *final(self)),
            final(self).viz_tap_active == active,
            only_changed(*old(self), *final(self), 9),
    {
        self.viz_tap_active = active;
    }

    pub fn stop_requested(&self) -> (r: bool)
        ensures
            r == self.stop_requested,
    {
        self.stop_requested
    }

    /// Ask the worker to stop.
    pub fn request_stop(&mut self)
        ensures
            stop_kept(*old(self), *final(self)),
            final(self).stop_requested,
            only_changed(*old(self), *final(self), 10),
    {
        self.stop_requested = true;
    }
}

// ---------------------------------------------------------------------------
// Consumer bookkeeping
// ---------------------------------------------------------------------------

/// Samples one pull takes: as many whole frames as both the ring and the
/// destination hold (a partial frame is never torn off).
pub open spec fn spec_whole_frame_samples(available: usize, wanted: usize, ch: usize) -> int {
    let m = if available < wanted {
        available
    } else {
        wanted
    };
    m as int / ch as int * ch as int
}

/// Interleaved samples a pull may take (see [`spec_whole_frame_samples`]).
pub fn whole_frame_samples(available: usize, wanted: usize, ch: usize) -> (r: usize)
    requires
        ch > 0,
    ensures
        r == spec_whole_frame_samples(available, wanted, ch),
        r % ch == 0,
        r <= available,
        r <= wanted,
{
    let m = if available < wanted {
        available
    } else {
        wanted
    };
    proof {
        vstd::arithmetic::div_mod::lemma_fundamental_div_mod(m as int, ch as int);
        vstd::arithmetic::div_mod::lemma_mod_multiples_basic(m as int / ch as int, ch as int);
        vstd::arithmetic::mul::lemma_mul_is_commutative(m as int / ch as int, ch as int);
    }
    m / ch * ch
}

/// Position after a pull of `samples` interleaved samples.
pub fn advance_position(pos: u64, samples: usize, ch: usize) -> (r: u64)
    requires
        ch > 0,
    ensures
        r == (pos as int + samples as int / ch as int) % 0x1_0000_0000_0000_0000,
{
    pos.wrapping_add((samples / ch) as u64)
}

/// What the consumer does about the seek handshake.
#[derive(Debug, Clone, Copy, PartialEq, Eq, Structural)]
pub enum SeekReconcile {
    /// No seek pending: play on.
    Idle,
    /// A seek is pending and the worker has not acknowledged it yet.
    Waiting,
    /// The worker acknowledged: drain stale samples, adopt the generation
    /// and re-base the position to the target.
    Rebase,
}

/// Seek decision from the consumer's generation and the shared counters.
pub open spec fn spec_reconcile(local: u64, generation: u64, done: u64) -> SeekReconcile {
    if generation == local {
        SeekReconcile::Idle
    } else if done == generation {
        SeekReconcile::Rebase
    } else {
        SeekReconcile::Waiting
    }
}

/// Decide the seek handshake step (see [`spec_reconcile`]).
pub fn reconcile(local: u64, shared: &RtShared) -> (r: SeekReconcile)
    ensures
        r == spec_reconcile(local, shared.seek_generation, shared.seek_done_generation),
{
    let generation = shared.seek_generation();
    if generation == local {
        SeekReconcile::Idle
    } else if shared.seek_done_generation() == generation {
        SeekReconcile::Rebase
    } else {
        SeekReconcile::Waiting
    }
}

/// The position re-based to the target of the acknowledged seek.
pub open spec fn spec_rebased(s: RtShared) -> RtShared {
    RtShared { pos_frames: s.seek_target_frames, ..s }
}

/// The worker's acknowledgement of the seek of `generation`.
pub open spec fn spec_seek_acknowledged(s: RtShared, generation: u64) -> RtShared {
    RtShared { eof: false, finished: false, natural_end: false, seek_done_generation: generation, ..s }
}

/// The consumer's side of a seek (the stale samples are drained by the
/// caller whenever the result is not `Idle`): once the worker has
/// acknowledged the pending seek, the position is re-based to its target.
/// Returns the consumer's generation afterwards and whether playback may go
/// on (no seek pending any more).
pub fn reconcile_seek_state(local: u64, shared: &mut RtShared) -> (r: (u64, bool))
    ensures
        stop_kept(*old(shared), *final(shared)),
        match spec_reconcile(local, old(shared).seek_generation, old(shared).seek_done_generation) {
            SeekReconcile::Idle => r == (local, true) && *final(shared) == *old(shared),
            SeekReconcile::Waiting => r == (local, false) && *final(shared) == *old(shared),
            SeekReconcile::Rebase => r == (old(shared).seek_generation, true) && *final(shared)
                == spec_rebased(*old(shared)),
        },
{
    match reconcile(local, shared) {
        SeekReconcile::Idle => (local, true),
        SeekReconcile::Waiting => (local, false),
        SeekReconcile::Rebase => {
            let target = shared.seek_target_frames();
            shared.set_pos_frames(target);
            (shared.seek_generation(), true)
        },
    }
}

/// The worker's side of a seek (after moving its source): the end-of-stream
/// and finished flags are cleared and the seek of `generation` acknowledged.
pub fn worker_seek_done(shared: &mut RtShared, generation: u64)
    ensures
        stop_kept(*old(shared), *final(shared)),
        *final(shared) == spec_seek_acknowledged(*old(shared), generation),
{
    shared.set_eof(false);
    shared.set_finished(false);
    shared.set_natural_end(false);
    shared.publish_seek_done(generation);
}

/// A seek that has been begun and acknowledged is reconciled by re-basing,
/// and the consumer then sees no pending seek.
pub proof fn law_seek_handshake(s: RtShared, local: u64, target: u64)
    requires
        s.seek_generation < u64::MAX,
        local == s.seek_generation,
    ensures
        ({
            let g = (s.seek_generation + 1) as u64;
            let begun = RtShared { seek_generation: g, seek_target_frames: target, ..s };
            let acked = RtShared { seek_done_generation: g, ..begun };
            &&& spec_reconcile(local, begun.seek_generation, begun.seek_done_generation)
                != SeekReconcile::Idle
            &&& (s.seek_done_generation != g ==> spec_reconcile(
                local,
                begun.seek_generation,
                begun.seek_done_generation,
            ) == SeekReconcile::Waiting)
            &&& spec_reconcile(local, acked.seek_generation, acked.seek_done_generation)
                == SeekReconcile::Rebase
            &&& spec_reconcile(g, acked.seek_generation, acked.seek_done_generation)
                == SeekReconcile::Idle
        }),
{
}

} // verus!
