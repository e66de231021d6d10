//! DSD to PCM decimation, integer part: the 1-bit samples of a DSD byte in
//! stream order, and two cascaded 4th-order CIC decimators by 8 (64 in all)
//! on wrapping 128-bit integers. A CIC's output is exact under wrapping
//! arithmetic, since each output is a bounded sum of inputs.

use vstd::prelude::*;

verus! {

/// Stages of one decimator by 8.
pub const CIC_DECIM: u8 = 8;

/// The 1-bit sample `k` (0 = earliest) of a DSD byte as +1 or -1: DSF
/// stores the earliest sample in bit 0, DSDIFF in bit 7.
pub open spec fn dsd_bit(byte: u8, k: u8, lsb_first: bool) -> i128 {
    let idx: u8 = if lsb_first { k } else { (7 - k) as u8 };
    if (byte >> idx) & 1u8 == 1u8 {
        1i128
    } else {
        -1i128
    }
}

/// The 1-bit sample `k` (0 = earliest, `k < 8`) of a DSD byte.
pub fn dsd_sample(byte: u8, k: u8, lsb_first: bool) -> (r: i128)
    requires
        k < 8,
    ensures
        r == dsd_bit(byte, k, lsb_first),
{
    let idx: u8 = if lsb_first { k } else { 7 - k };
    if (byte >> idx) & 1 == 1 {
        1
    } else {
        -1
    }
}

/// The integer state of one channel: the integrators (`s*`, `t*`), the
/// comb delays (`d*`, `e*`) and the decimation counters of both stages.
#[derive(Clone, Copy)]
pub struct Cic {
    pub s1: i128,
    pub s2: i128,
    pub s3: i128,
    pub s4: i128,
    pub d1: i128,
    pub d2: i128,
    pub d3: i128,
    pub d4: i128,
    pub cnt1: u8,
    pub t1: i128,
    pub t2: i128,
    pub t3: i128,
    pub t4: i128,
    pub e1: i128,
    pub e2: i128,
    pub e3: i128,
    pub e4: i128,
    pub cnt2: u8,
}

impl Cic {
    /// Counters below the decimation factor.
    pub open spec fn wf(self) -> bool {
        self.cnt1 < CIC_DECIM && self.cnt2 < CIC_DECIM
    }
}

/// One input sample through the cascade: the state after it and, on every
/// 64th input, the decimated output (4th-order integrators, decimation by 8,
/// 4th-order combs, twice).
pub open spec fn cic_step(c: Cic, x: i128) -> (Cic, Option<i128>) {
    let s1 = c.s1.wrapping_add(x);
    let s2 = c.s2.wrapping_add(s1);
    let s3 = c.s3.wrapping_add(s2);
    let s4 = c.s4.wrapping_add(s3);
    if c.cnt1 + 1 < CIC_DECIM {
        (Cic { s1, s2, s3, s4, cnt1: (c.cnt1 + 1) as u8, ..c }, None)
    } else {
        let k1 = s4.wrapping_sub(c.d1);
        let k2 = k1.wrapping_sub(c.d2);
        let k3 = k2.wrapping_sub(c.d3);
        let k4 = k3.wrapping_sub(c.d4);
        let t1 = c.t1.wrapping_add(k4);
        let t2 = c.t2.wrapping_add(t1);
        let t3 = c.t3.wrapping_add(t2);
        let t4 = c.t4.wrapping_add(t3);
        let first = Cic {
            s1,
            s2,
            s3,
            s4,
            d1: s4,
            d2: k1,
            d3: k2,
            d4: k3,
            cnt1: 0,
            t1,
            t2,
            t3,
            t4,
            ..c
        };
        if c.cnt2 + 1 < CIC_DECIM {
            (Cic { cnt2: (c.cnt2 + 1) as u8, ..first }, None)
        } else {
            let m1 = t4.wrapping_sub(c.e1);
            let m2 = m1.wrapping_sub(c.e2);
            let m3 = m2.wrapping_sub(c.e3);
            let m4 = m3.wrapping_sub(c.e4);
            (Cic { e1: t4, e2: m1, e3: m2, e4: m3, cnt2: 0, ..first }, Some(m4))
        }
    }
}

/// The samples of `xs` through the cascade, in order: the final state and
/// the outputs appended to `out`.
pub open spec fn cic_run(c: Cic, xs: Seq<i128>, out: Seq<i128>) -> (Cic, Seq<i128>)
    decreases xs.len(),
{
    if xs.len() == 0 {
        (c, out)
    } else {
        let (c0, o0) = cic_run(c, xs.drop_last(), out);
        let (c1, y) = cic_step(c0, xs.last());
        (
            c1,
            match y {
                Some(v) => o0.push(v),
                None => o0,
            },
        )
    }
}

/// The eight 1-bit samples of a byte, earliest first.
pub open spec fn byte_samples(byte: u8, lsb_first: bool) -> Seq<i128> {
    Seq::new(8, |k: int| dsd_bit(byte, k as u8, lsb_first))
}

proof fn lemma_step_wf(c: Cic, x: i128)
    requires
        c.wf(),
    ensures
        cic_step(c, x).0.wf(),
{
}

proof fn lemma_run_wf(c: Cic, xs: Seq<i128>, out: Seq<i128>)
    requires
        c.wf(),
    ensures
        cic_run(c, xs, out).0.wf(),
    decreases xs.len(),
{
    if xs.len() > 0 {
        lemma_run_wf(c, xs.drop_last(), out);
        lemma_step_wf(cic_run(c, xs.drop_last(), out).0, xs.last());
    }
}

impl Cic {
    /// A cascade at rest.
    pub fn new() -> (r: Cic)
        ensures
            r.wf(),
            r == (Cic {
                s1: 0,
                s2: 0,
                s3: 0,
                s4: 0,
                d1: 0,
                d2: 0,
                d3: 0,
                d4: 0,
                cnt1: 0,
                t1: 0,
                t2: 0,
                t3: 0,
                t4: 0,
                e1: 0,
                e2: 0,
                e3: 0,
                e4: 0,
                cnt2: 0,
            }),
    {
        Cic {
            s1: 0,
            s2: 0,
            s3: 0,
            s4: 0,
            d1: 0,
            d2: 0,
            d3: 0,
            d4: 0,
            cnt1: 0,
            t1: 0,
            t2: 0,
            t3: 0,
            t4: 0,
            e1: 0,
            e2: 0,
            e3: 0,
            e4: 0,
            cnt2: 0,
        }
    }

    /// Feed one 1-bit sample (+1 or -1); every 64th sample yields an output
    /// (see [`cic_step`]).
    pub fn feed(&mut self, x: i128) -> (r: Option<i128>)
        requires
            old(self).wf(),
        ensures
            (*final(self), r) == cic_step(*old(self), x),
            final(self).wf(),
    {
        self.s1 = self.s1.wrapping_add(x);
        self.s2 = self.s2.wrapping_add(self.s1);
        self.s3 = self.s3.wrapping_add(self.s2);
        self.s4 = self.s4.wrapping_add(self.s3);
        if self.cnt1 + 1 < CIC_DECIM {
            self.cnt1 = self.cnt1 + 1;
            return None;
        }
        self.cnt1 = 0;
        let k1 = self.s4.wrapping_sub(self.d1);
        let k2 = k1.wrapping_sub(self.d2);
        let k3 = k2.wrapping_sub(self.d3);
        let k4 = k3.wrapping_sub(self.d4);
        self.d1 = self.s4;
        self.d2 = k1;
        self.d3 = k2;
        self.d4 = k3;
        self.t1 = self.t1.wrapping_add(k4);
        self.t2 = self.t2.wrapping_add(self.t1);
        self.t3 = self.t3.wrapping_add(self.t2);
        self.t4 = self.t4.wrapping_add(self.t3);
        if self.cnt2 + 1 < CIC_DECIM {
            self.cnt2 = self.cnt2 + 1;
            return None;
        }
        self.cnt2 = 0;
        let m1 = self.t4.wrapping_sub(self.e1);
        let m2 = m1.wrapping_sub(self.e2);
        let m3 = m2.wrapping_sub(self.e3);
        let m4 = m3.wrapping_sub(self.e4);
        self.e1 = self.t4;
        self.e2 = m1;
        self.e3 = m2;
        self.e4 = m3;
        Some(m4)
    }

    /// Feed the eight samples of a DSD byte in stream order (bit 0 first
    /// for DSF, bit 7 first for DSDIFF), appending the outputs to `out`.
    pub fn feed_byte(&mut self, byte: u8, lsb_first: bool, out: &mut Vec<i128>)
        requires
            old(self).wf(),
        ensures
            (*final(self), final(out)@) == cic_run(*old(self), byte_samples(byte, lsb_first), old(out)@),
            final(self).wf(),
    {
        let ghost c0 = *self;
        let ghost o0 = out@;
        let ghost xs = byte_samples(byte, lsb_first);
        let mut k: u8 = 0;
        assert(xs.take(0) =~= Seq::<i128>::empty());
        while k < 8
            invariant
                k <= 8,
                xs == byte_samples(byte, lsb_first),
                (*self, out@) == cic_run(c0, xs.take(k as int), o0),
                self.wf(),
            decreases 8 - k,
        {
            let x = dsd_sample(byte, k, lsb_first);
            assert(xs.take(k + 1).drop_last() =~= xs.take(k as int));
            assert(xs.take(k + 1).last() == x);
            match self.feed(x) {
                Some(v) => out.push(v),
                None => {},
            }
            k += 1;
        }
        assert(xs.take(8) =~= xs);
    }
}


// ---------------------------------------------------------------------------
// Raw groups
// ---------------------------------------------------------------------------

/// The 1-bit samples of a run of bytes, byte after byte.
pub open spec fn bits_of(bytes: Seq<u8>, lsb_first: bool) -> Seq<i128>
    decreases bytes.len(),
{
    if bytes.len() == 0 {
        Seq::empty()
    } else {
        bits_of(bytes.drop_last(), lsb_first) + byte_samples(bytes.last(), lsb_first)
    }
}

/// Running `xs` then `ys` is running `xs + ys`.
pub proof fn lemma_run_concat(c: Cic, xs: Seq<i128>, ys: Seq<i128>, out: Seq<i128>)
    ensures
        cic_run(c, xs + ys, out) == cic_run(cic_run(c, xs, out).0, ys, cic_run(c, xs, out).1),
    decreases ys.len(),
{
    if ys.len() == 0 {
        assert(xs + ys =~= xs);
    } else {
        lemma_run_concat(c, xs, ys.drop_last(), out);
        assert((xs + ys).drop_last() =~= xs + ys.drop_last());
        assert((xs + ys).last() == ys.last());
    }
}

/// Feed a run of bytes in stream order, appending the outputs to `out`.
pub fn feed_bytes(cic: &mut Cic, bytes: &[u8], lsb_first: bool, out: &mut Vec<i128>)
    requires
        old(cic).wf(),
    ensures
        (*final(cic), final(out)@) == cic_run(*old(cic), bits_of(bytes@, lsb_first), old(out)@),
        final(cic).wf(),
{
    let ghost c0 = *cic;
    let ghost o0 = out@;
    let mut i: usize = 0;
    assert(bytes@.take(0) =~= Seq::<u8>::empty());
    while i < bytes.len()
        invariant
            i <= bytes@.len(),
            (*cic, out@) == cic_run(c0, bits_of(bytes@.take(i as int), lsb_first), o0),
            cic.wf(),
        decreases bytes.len() - i,
    {
        let ghost before = (*cic, out@);
        cic.feed_byte(bytes[i], lsb_first, out);
        proof {
            let prev = bits_of(bytes@.take(i as int), lsb_first);
            assert(bytes@.take(i + 1).drop_last() =~= bytes@.take(i as int));
            assert(bytes@.take(i + 1).last() == bytes@[i as int]);
            lemma_run_concat(c0, prev, byte_samples(bytes@[i as int], lsb_first), o0);
        }
        i += 1;
    }
    assert(bytes@.take(i as int) =~= bytes@);
}

/// The bytes of channel `c` in a raw group of `ch` channels: DSF stores one
/// block per channel after the other (`raw.len() / ch` bytes each), DSDIFF
/// interleaves the channels byte by byte (whole positions only).
pub open spec fn channel_bytes(raw: Seq<u8>, ch: nat, planar: bool, c: nat) -> Seq<u8> {
    let per = raw.len() / ch;
    if planar {
        raw.subrange((c * per) as int, (c * per + per) as int)
    } else {
        Seq::new(per, |p: int| raw[p * ch + c])
    }
}

/// The bytes of channel `c` in a raw group (see [`channel_bytes`]).
pub fn channel_bytes_of(raw: &[u8], ch: usize, planar: bool, c: usize) -> (r: Vec<u8>)
    requires
        0 <= c < ch,
    ensures
        r@ == channel_bytes(raw@, ch as nat, planar, c as nat),
{
    let per = raw.len() / ch;
    assert(per * ch <= raw.len()) by (nonlinear_arith)
        requires
            per == raw.len() / ch,
            ch > 0,
    ;
    let mut r: Vec<u8> = Vec::new();
    let mut p: usize = 0;
    while p < per
        invariant
            p <= per,
            per == raw@.len() / (ch as nat),
            per * ch <= raw@.len(),
            0 <= c < ch,
            r@.len() == p,
            forall|q: int|
                0 <= q < p ==> #[trigger] r@[q] == if planar {
                    raw@[(c * per + q) as int]
                } else {
                    raw@[q * ch + c]
                },
        decreases per - p,
    {
        let idx = if planar {
            assert(c * per + p < per * ch) by (nonlinear_arith)
                requires
                    c < ch,
                    p < per,
            ;
            assert(c * per <= c * per + p);
            assert(raw@.len() == raw.len());
            c * per + p
        } else {
            assert(p * ch + c < per * ch) by (nonlinear_arith)
                requires
                    c < ch,
                    p < per,
            ;
            assert(p * ch <= p * ch + c);
            assert(raw@.len() == raw.len());
            p * ch + c
        };
        r.push(raw[idx]);
        p += 1;
    }
    if planar {
        assert(c * per + per <= per * ch) by (nonlinear_arith)
            requires
                c < ch,
        ;
        assert(r@ =~= raw@.subrange((c * per) as int, (c * per + per) as int));
    } else {
        assert(r@ =~= Seq::new(per as nat, |q: int| raw@[q * ch + c]));
    }
    r
}

/// Decimate a raw group: channel `c`'s bytes (see [`channel_bytes`]) run
/// through its own cascade, bit 0 first for DSF (`planar`), bit 7 first for
/// DSDIFF. Returns each channel's outputs.
pub fn decimate_group(cics: &mut Vec<Cic>, raw: &[u8], ch: usize, planar: bool) -> (r: Vec<Vec<i128>>)
    requires
        old(cics)@.len() == ch,
        forall|i: int| 0 <= i < ch ==> (#[trigger] old(cics)@[i]).wf(),
    ensures
        final(cics)@.len() == ch,
        r@.len() == ch,
        forall|c: int|
            0 <= c < ch ==> (#[trigger] final(cics)@[c], r@[c]@) == cic_run(
                old(cics)@[c],
                bits_of(channel_bytes(raw@, ch as nat, planar, c as nat), planar),
                Seq::empty(),
            ),
        forall|i: int| 0 <= i < ch ==> (#[trigger] final(cics)@[i]).wf(),
{
    let ghost start = cics@;
    let mut r: Vec<Vec<i128>> = Vec::new();
    let mut c: usize = 0;
    while c < ch
        invariant
            c <= ch,
            cics@.len() == ch,
            start.len() == ch,
            r@.len() == c,
            forall|i: int| 0 <= i < ch ==> (#[trigger] start[i]).wf(),
            forall|i: int| c <= i < ch ==> #[trigger] cics@[i] == start[i],
            forall|i: int| 0 <= i < ch ==> (#[trigger] cics@[i]).wf(),
            forall|i: int|
                0 <= i < c ==> (#[trigger] cics@[i], r@[i]@) == cic_run(
                    start[i],
                    bits_of(channel_bytes(raw@, ch as nat, planar, i as nat), planar),
                    Seq::empty(),
                ),
        decreases ch - c,
    {
        let bytes = channel_bytes_of(raw, ch, planar, c);
        let mut cic = cics[c];
        let mut out: Vec<i128> = Vec::new();
        assert(out@ =~= Seq::<i128>::empty());
        feed_bytes(&mut cic, bytes.as_slice(), planar, &mut out);
        cics.set(c, cic);
        r.push(out);
        c += 1;
    }
    r
}

} // verus!
