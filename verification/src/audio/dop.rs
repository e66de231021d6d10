//! DoP (DSD over PCM) framing.
//!
//! One PCM word carries two DSD bytes per channel, so the container rate is
//! the DSD byte rate / 2 (176.4 kHz for DSD64) and the DSD stream stays
//! bit-exact. Word layout (24-bit value, marker in bits 23-16, data 15-0):
//! `(marker << 16) | (older_byte << 8) | newer_byte`. The marker alternates
//! 0x05/0xFA on every output frame; both channels of a frame share the same
//! marker phase.

use vstd::prelude::*;

use vstd::arithmetic::div_mod::{
    lemma_div_plus_one, lemma_fundamental_div_mod, lemma_fundamental_div_mod_converse, lemma_mod_sub_multiples_vanish,
};

verus! {

/// Marker byte for even frames.
pub const DOP_MARKER_EVEN: u8 = 0x05;

/// Marker byte for odd frames.
pub const DOP_MARKER_ODD: u8 = 0xFA;

/// Marker of a frame emitted in the given phase (`true` = odd).
pub open spec fn marker_of(odd: bool) -> u8 {
    if odd {
        DOP_MARKER_ODD
    } else {
        DOP_MARKER_EVEN
    }
}

/// One 24-bit DoP word.
pub open spec fn dop_word(marker: u8, older: u8, newer: u8) -> u32 {
    ((marker as u32) << 16u32) | ((older as u32) << 8u32) | (newer as u32)
}

/// The words of one output frame: for channel `c` the bytes of that channel
/// in the first and in the second source frame of the pair.
pub open spec fn pair_words(pair: Seq<u8>, ch: nat, odd: bool) -> Seq<u32> {
    Seq::new(ch, |c: int| dop_word(marker_of(odd), pair[c], pair[ch + c]))
}

/// DoP words for every complete pair of source frames of `bytes`
/// (interleaved, `ch` bytes per frame), starting in phase `odd`.
pub open spec fn dop_stream(bytes: Seq<u8>, ch: nat, odd: bool) -> Seq<u32>
    decreases bytes.len(),
{
    if ch == 0 || bytes.len() < 2 * ch {
        Seq::empty()
    } else {
        pair_words(bytes.take(2 * ch as int), ch, odd) + dop_stream(
            bytes.skip(2 * ch as int),
            ch,
            !odd,
        )
    }
}

/// The bytes left over after the complete pairs of `bytes`.
pub open spec fn dop_tail(bytes: Seq<u8>, ch: nat) -> Seq<u8>
    decreases bytes.len(),
{
    if ch == 0 || bytes.len() < 2 * ch {
        bytes
    } else {
        dop_tail(bytes.skip(2 * ch as int), ch)
    }
}

/// The marker phase after framing the complete pairs of `bytes`.
pub open spec fn dop_phase_after(bytes: Seq<u8>, ch: nat, odd: bool) -> bool
    decreases bytes.len(),
{
    if ch == 0 || bytes.len() < 2 * ch {
        odd
    } else {
        dop_phase_after(bytes.skip(2 * ch as int), ch, !odd)
    }
}

/// Zero-allocation DoP framer for the real-time audio path.
///
/// `frame()` reads interleaved DSD bytes and writes one 24-bit word per
/// channel per pair of source frames. Bytes that do not complete a pair are
/// kept and paired with the next call's first bytes, so a stream split at any
/// byte boundary stays bit-exact.
#[derive(Debug, Clone)]
pub struct DoPFramer {
    /// Whether the next emitted frame carries the odd (0xFA) marker.
    pub marker_phase: bool,
    /// Trailing bytes carried over from the previous call.
    pub leftover: Vec<u8>,
}

impl Default for DoPFramer {
    fn default() -> (r: DoPFramer)
        ensures
            !r.marker_phase,
            r.leftover@.len() == 0,
    {
        DoPFramer { marker_phase: false, leftover: Vec::new() }
    }
}

impl DoPFramer {
    /// A framer in the even phase with nothing carried.
    pub fn new() -> (r: DoPFramer)
        ensures
            !r.marker_phase,
            r.leftover@.len() == 0,
    {
        DoPFramer { marker_phase: false, leftover: Vec::new() }
    }

    /// Preallocate the carry buffer for `ch` channels (drops any carried
    /// bytes; the phase is kept). Called once when a stream is opened.
    pub fn with_channels(&mut self, ch: usize)
        ensures
            final(self).marker_phase == old(self).marker_phase,
            final(self).leftover@.len() == 0,
    {
        self.leftover = Vec::with_capacity(ch);
    }

    /// Byte `i` of the concatenation `[leftover, raw]`.
    fn byte_at(&self, i: usize, carry: usize, raw: &[u8]) -> (r: u8)
        requires
            i < carry ==> i < self.leftover@.len(),
            i >= carry ==> i - carry < raw@.len(),
        ensures
            r == if i < carry {
                self.leftover@[i as int]
            } else {
                raw@[i - carry]
            },
    {
        if i < carry {
            self.leftover[i]
        } else {
            raw[i - carry]
        }
    }

    /// Frame `raw` (interleaved DSD bytes, `ch` per frame) after the carried
    /// bytes into `out` and return the number of words written, `ch` per
    /// complete pair of source frames; the bytes of an incomplete pair are
    /// carried to the next call, so a stream split at any byte boundary
    /// frames the same as in one piece.
    pub fn frame(&mut self, raw: &[u8], ch: usize, out: &mut [u32]) -> (r: usize)
        requires
            ch > 0,
            2 * ch <= usize::MAX,
            old(self).leftover@.len() + raw@.len() <= usize::MAX,
            out@.len() >= (old(self).leftover@.len() + raw@.len()) as int / (2 * ch as int) * (
            ch as int),
        ensures
            ({
                let t = old(self).leftover@ + raw@;
                let w = dop_stream(t, ch as nat, old(self).marker_phase);
                &&& r == w.len()
                &&& r == t.len() as int / (2 * ch as int) * (ch as int)
                &&& final(out)@.take(r as int) == w
                &&& final(out)@.skip(r as int) == old(out)@.skip(r as int)
                &&& final(out)@.len() == old(out)@.len()
                &&& final(self).leftover@ == dop_tail(t, ch as nat)
                &&& final(self).marker_phase == dop_phase_after(
                    t,
                    ch as nat,
                    old(self).marker_phase,
                )
            }),
    {
        let ghost t = self.leftover@ + raw@;
        let ghost odd0 = self.marker_phase;
        let ghost out0 = out@;
        let ghost chn = ch as nat;
        let carry = self.leftover.len();
        let total = carry + raw.len();
        let olen = out.len();
        proof {
            lemma_dop_lengths(t, chn, odd0);
        }
        let mut src: usize = 0;
        let mut dst: usize = 0;
        assert(t.skip(0) =~= t);
        assert(out@.take(0) + dop_stream(t, chn, odd0) =~= dop_stream(t, chn, odd0));
        assert(out@.skip(0) =~= out0);
        while total - src >= 2 * ch
            invariant
                ch > 0,
                chn == ch as nat,
                olen == out@.len(),
                2 * ch <= usize::MAX,
                carry == self.leftover@.len(),
                total == carry + raw@.len(),
                t == self.leftover@ + raw@,
                t.len() == total,
                src <= total,
                out@.len() == out0.len(),
                dst + dop_stream(t.skip(src as int), chn, self.marker_phase).len() <= out@.len(),
                out@.take(dst as int) + dop_stream(t.skip(src as int), chn, self.marker_phase)
                    == dop_stream(t, chn, odd0),
                out@.skip(dst as int) == out0.skip(dst as int),
                dop_tail(t.skip(src as int), chn) == dop_tail(t, chn),
                dop_phase_after(t.skip(src as int), chn, self.marker_phase) == dop_phase_after(
                    t,
                    chn,
                    odd0,
                ),
            decreases total - src,
        {
            let ghost rest = t.skip(src as int);
            let ghost pw = pair_words(rest.take(2 * ch as int), chn, self.marker_phase);
            let ghost prefix = out@.take(dst as int);
            proof {
                assert(rest.len() >= 2 * ch);
                assert(dop_stream(rest, chn, self.marker_phase) == pw + dop_stream(
                    rest.skip(2 * ch as int),
                    chn,
                    !self.marker_phase,
                ));
                assert(rest.skip(2 * ch as int) =~= t.skip(src + 2 * ch));
            }
            let marker = if self.marker_phase {
                DOP_MARKER_ODD
            } else {
                DOP_MARKER_EVEN
            };
            assert forall|k: int| dst <= k < out@.len() implies out@[k] == out0[k] by {
                assert(out@.skip(dst as int)[k - dst] == out0.skip(dst as int)[k - dst]);
            }
            let mut c: usize = 0;
            while c < ch
                invariant
                    c <= ch,
                    ch > 0,
                    chn == ch as nat,
                    olen == out@.len(),
                    carry == self.leftover@.len(),
                    total == carry + raw@.len(),
                    t == self.leftover@ + raw@,
                    t.len() == total,
                    src + 2 * ch <= total,
                    rest == t.skip(src as int),
                    marker == marker_of(self.marker_phase),
                    pw == pair_words(rest.take(2 * ch as int), chn, self.marker_phase),
                    pw.len() == ch,
                    dst + ch <= out@.len(),
                    out@.len() == out0.len(),
                    out@.take(dst as int) == prefix,
                    forall|k: int| 0 <= k < c ==> out@[dst + k] == pw[k],
                    forall|k: int| dst + c <= k < out@.len() ==> out@[k] == out0[k],
                decreases ch - c,
            {
                let older = self.byte_at(src + c, carry, raw);
                let newer = self.byte_at(src + ch + c, carry, raw);
                proof {
                    assert(older == t[src + c]);
                    assert(newer == t[src + ch + c]);
                    assert(rest.take(2 * ch as int)[c as int] == t[src + c]);
                    assert(rest.take(2 * ch as int)[ch + c] == t[src + ch + c]);
                }
                out[dst + c] = ((marker as u32) << 16) | ((older as u32) << 8) | newer as u32;
                c += 1;
            }
            proof {
                assert(out@.take(dst + ch) =~= prefix + pw);
                assert(out@.skip(dst + ch) =~= out0.skip(dst + ch));
                assert(dop_stream(t, chn, odd0) == prefix + pw + dop_stream(
                    t.skip(src + 2 * ch),
                    chn,
                    !self.marker_phase,
                ));
            }
            self.marker_phase = !self.marker_phase;
            dst += ch;
            src += 2 * ch;
        }
        let ghost rest = t.skip(src as int);
        assert(dop_stream(rest, chn, self.marker_phase) =~= Seq::<u32>::empty());
        assert(out@.take(dst as int) == dop_stream(t, chn, odd0));
        let ghost start = src as int;
        assert(self.marker_phase == dop_phase_after(t, chn, odd0));
        let mut tail: Vec<u8> = Vec::new();
        while src < total
            invariant
                0 <= start <= src <= total,
                carry == self.leftover@.len(),
                t == self.leftover@ + raw@,
                total == carry + raw@.len(),
                t.len() == total,
                tail@ == t.subrange(start, src as int),
            decreases total - src,
        {
            let b = self.byte_at(src, carry, raw);
            assert(b == t[src as int]);
            tail.push(b);
            src += 1;
            assert(tail@ =~= t.subrange(start, src as int));
        }
        self.leftover = tail;
        assert(self.leftover@ =~= rest);
        dst
    }
}

/// Lengths: `ch` words per complete pair, and fewer than two frames left.
pub proof fn lemma_dop_lengths(bytes: Seq<u8>, ch: nat, odd: bool)
    requires
        ch > 0,
    ensures
        dop_stream(bytes, ch, odd).len() == bytes.len() / (2 * ch) * ch,
        dop_tail(bytes, ch).len() == bytes.len() % (2 * ch),
        dop_tail(bytes, ch) == bytes.skip(bytes.len() - bytes.len() % (2 * ch)),
    decreases bytes.len(),
{
    let m = 2 * ch;
    if bytes.len() < m {
        lemma_fundamental_div_mod_converse(bytes.len() as int, m as int, 0, bytes.len() as int);
        assert(bytes.skip(0) =~= bytes);
    } else {
        let rest = bytes.skip(m as int);
        lemma_dop_lengths(rest, ch, !odd);
        lemma_div_plus_one(rest.len() as int, m as int);
        lemma_mod_sub_multiples_vanish(bytes.len() as int, m as int);
        assert(m + rest.len() == bytes.len());
        let q = rest.len() / m;
        assert((1 + q) * ch == ch + q * ch) by (nonlinear_arith);
        assert(rest.skip(rest.len() - rest.len() % m) =~= bytes.skip(
            bytes.len() - bytes.len() % m,
        ));
    }
}

/// The central framing law: framing `a` and then the carried tail followed
/// by `b` produces exactly the words, carry and phase of framing `a + b` in
/// one go. A DSD stream split at any byte boundary stays bit-exact.
pub proof fn law_dop_split_stream(a: Seq<u8>, b: Seq<u8>, ch: nat, odd: bool)
    requires
        ch > 0,
    ensures
        dop_stream(a, ch, odd) + dop_stream(dop_tail(a, ch) + b, ch, dop_phase_after(a, ch, odd))
            == dop_stream(a + b, ch, odd),
        dop_tail(dop_tail(a, ch) + b, ch) == dop_tail(a + b, ch),
        dop_phase_after(dop_tail(a, ch) + b, ch, dop_phase_after(a, ch, odd)) == dop_phase_after(
            a + b,
            ch,
            odd,
        ),
    decreases a.len(),
{
    let m = 2 * ch;
    if a.len() < m {
        assert(dop_stream(a, ch, odd) =~= Seq::<u32>::empty());
        assert(Seq::<u32>::empty() + dop_stream(a + b, ch, odd) =~= dop_stream(a + b, ch, odd));
    } else {
        let rest = a.skip(m as int);
        law_dop_split_stream(rest, b, ch, !odd);
        assert((a + b).take(m as int) =~= a.take(m as int));
        assert((a + b).skip(m as int) =~= rest + b);
        assert(dop_stream(a, ch, odd) + dop_stream(
            dop_tail(a, ch) + b,
            ch,
            dop_phase_after(a, ch, odd),
        ) =~= pair_words(a.take(m as int), ch, odd) + (dop_stream(rest, ch, !odd) + dop_stream(
            dop_tail(rest, ch) + b,
            ch,
            dop_phase_after(rest, ch, !odd),
        )));
    }
}

/// Every word of a frame pair carries the phase's marker in bits 23-16 and
/// the channel's older and newer byte below it; frames alternate markers.
pub proof fn law_dop_marker_alternates(bytes: Seq<u8>, ch: nat, odd: bool)
    requires
        ch > 0,
        bytes.len() >= 4 * ch,
    ensures
        dop_stream(bytes, ch, odd)[0] == dop_word(marker_of(odd), bytes[0], bytes[ch as int]),
        dop_stream(bytes, ch, odd)[ch as int] == dop_word(
            marker_of(!odd),
            bytes[2 * ch as int],
            bytes[3 * ch as int],
        ),
{
    let m = 2 * ch;
    let rest = bytes.skip(m as int);
    assert(rest.len() >= m);
    let s2 = dop_stream(rest, ch, !odd);
    assert(s2 == pair_words(rest.take(m as int), ch, !odd) + dop_stream(
        rest.skip(m as int),
        ch,
        odd,
    ));
    assert(s2[0] == dop_word(marker_of(!odd), rest[0], rest[ch as int]));
}

} // verus!
