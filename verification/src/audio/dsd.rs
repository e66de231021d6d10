//! DSD containers: DSF and DSDIFF headers, the rate label, and the ID3 tags
//! DSD files carry (ID3v2.2/2.3/2.4 text frames and ID3v1).

use vstd::prelude::*;

use crate::audio::decoder::{fill, 
    empty_tags, first_wins, max_u32, opt_view, parse_number_pair, spec_parse_number_pair, Tags,
    TagsView,
};
use crate::text::{
    append_dec, append_str, char_from_u32, dec, owned, push_char, string_from_chars, to_chars,
    trim, trim_bounds,
};

verus! {

// ---------------------------------------------------------------------------
// Integer fields
// ---------------------------------------------------------------------------

pub open spec fn be16(b: Seq<u8>) -> int {
    b[0] as int * 0x100 + b[1] as int
}

pub open spec fn le32(b: Seq<u8>) -> int {
    b[0] as int + b[1] as int * 0x100 + b[2] as int * 0x1_0000 + b[3] as int * 0x100_0000
}

pub open spec fn be32(b: Seq<u8>) -> int {
    b[3] as int + b[2] as int * 0x100 + b[1] as int * 0x1_0000 + b[0] as int * 0x100_0000
}

pub open spec fn le64(b: Seq<u8>) -> int {
    le32(b) + le32(b.skip(4)) * 0x1_0000_0000
}

pub open spec fn be64(b: Seq<u8>) -> int {
    be32(b.skip(4)) + be32(b) * 0x1_0000_0000
}

/// Big-endian `u16` from the first two bytes.
pub fn read_u16_be(buf: &[u8]) -> (r: u16)
    requires
        buf@.len() >= 2,
    ensures
        r == be16(buf@),
{
    (buf[0] as u16) * 0x100 + buf[1] as u16
}

/// Little-endian `u32` from the first four bytes.
pub fn read_u32_le(buf: &[u8]) -> (r: u32)
    requires
        buf@.len() >= 4,
    ensures
        r == le32(buf@),
{
    (buf[0] as u32) + (buf[1] as u32) * 0x100 + (buf[2] as u32) * 0x1_0000 + (buf[3] as u32)
        * 0x100_0000
}

/// Big-endian `u32` from the first four bytes.
pub fn read_u32_be(buf: &[u8]) -> (r: u32)
    requires
        buf@.len() >= 4,
    ensures
        r == be32(buf@),
{
    (buf[3] as u32) + (buf[2] as u32) * 0x100 + (buf[1] as u32) * 0x1_0000 + (buf[0] as u32)
        * 0x100_0000
}

fn read_u32_le_at(buf: &[u8], off: usize) -> (r: u32)
    requires
        off + 4 <= buf@.len(),
    ensures
        r == le32(buf@.skip(off as int)),
{
    let _n = buf.len();
    (buf[off] as u32) + (buf[off + 1] as u32) * 0x100 + (buf[off + 2] as u32) * 0x1_0000 + (buf[off
        + 3] as u32) * 0x100_0000
}

fn read_u32_be_at(buf: &[u8], off: usize) -> (r: u32)
    requires
        off + 4 <= buf@.len(),
    ensures
        r == be32(buf@.skip(off as int)),
{
    let _n = buf.len();
    (buf[off + 3] as u32) + (buf[off + 2] as u32) * 0x100 + (buf[off + 1] as u32) * 0x1_0000 + (
    buf[off] as u32) * 0x100_0000
}

/// Little-endian `u64` from the first eight bytes.
pub fn read_u64_le(buf: &[u8]) -> (r: u64)
    requires
        buf@.len() >= 8,
    ensures
        r == le64(buf@),
{
    let lo = read_u32_le_at(buf, 0) as u64;
    let hi = read_u32_le_at(buf, 4) as u64;
    assert(buf@.skip(0) =~= buf@);
    lo + hi * 0x1_0000_0000
}

/// Big-endian `u64` from the first eight bytes.
pub fn read_u64_be(buf: &[u8]) -> (r: u64)
    requires
        buf@.len() >= 8,
    ensures
        r == be64(buf@),
{
    let hi = read_u32_be_at(buf, 0) as u64;
    let lo = read_u32_be_at(buf, 4) as u64;
    assert(buf@.skip(0) =~= buf@);
    lo + hi * 0x1_0000_0000
}

fn read_u64_le_at(buf: &[u8], off: usize) -> (r: u64)
    requires
        off + 8 <= buf@.len(),
    ensures
        r == le64(buf@.skip(off as int)),
{
    let _n = buf.len();
    let lo = read_u32_le_at(buf, off) as u64;
    let hi = read_u32_le_at(buf, off + 4) as u64;
    assert(buf@.skip(off as int).skip(4) =~= buf@.skip(off + 4));
    lo + hi * 0x1_0000_0000
}

fn read_u64_be_at(buf: &[u8], off: usize) -> (r: u64)
    requires
        off + 8 <= buf@.len(),
    ensures
        r == be64(buf@.skip(off as int)),
{
    let _n = buf.len();
    let hi = read_u32_be_at(buf, off) as u64;
    let lo = read_u32_be_at(buf, off + 4) as u64;
    assert(buf@.skip(off as int).skip(4) =~= buf@.skip(off + 4));
    lo + hi * 0x1_0000_0000
}

// ---------------------------------------------------------------------------
// Rate label
// ---------------------------------------------------------------------------

/// "DSD64" ... "DSD1024" for the multiples 1, 2, 4, 8, 16 of the 44.1k
/// (2.8224 MHz) or 48k (3.072 MHz) base rate, else "DSD (<rate> Hz)".
pub open spec fn spec_dsd_rate_label(rate: u32) -> Seq<char> {
    let base: int = if rate % 2822400 == 0 {
        2822400
    } else {
        3072000
    };
    let mult = rate as int / base;
    if mult == 1 {
        "DSD64"@
    } else if mult == 2 {
        "DSD128"@
    } else if mult == 4 {
        "DSD256"@
    } else if mult == 8 {
        "DSD512"@
    } else if mult == 16 {
        "DSD1024"@
    } else {
        "DSD ("@ + dec(rate as nat) + " Hz)"@
    }
}

/// Display label of a DSD bit rate.
pub fn dsd_rate_label(rate: u32) -> (r: String)
    ensures
        r@ == spec_dsd_rate_label(rate),
{
    let base: u32 = if rate % 2822400 == 0 {
        2822400
    } else {
        3072000
    };
    let mult = rate / base;
    match mult {
        1 => owned("DSD64"),
        2 => owned("DSD128"),
        4 => owned("DSD256"),
        8 => owned("DSD512"),
        16 => owned("DSD1024"),
        _ => {
            let mut s = owned("DSD (");
            append_dec(&mut s, rate as u64);
            append_str(&mut s, " Hz)");
            s
        },
    }
}

/// The lower-case label shown in the "Bit Depth" column ("dsd64").
pub open spec fn spec_dsd_label_lower(rate: u32) -> Seq<char> {
    let base: int = if rate % 2822400 == 0 {
        2822400
    } else {
        3072000
    };
    let mult = rate as int / base;
    if mult == 1 {
        "dsd64"@
    } else if mult == 2 {
        "dsd128"@
    } else if mult == 4 {
        "dsd256"@
    } else if mult == 8 {
        "dsd512"@
    } else if mult == 16 {
        "dsd1024"@
    } else {
        "dsd ("@ + dec(rate as nat) + " hz)"@
    }
}

/// Lower-case rate label for the track list.
pub fn dsd_label_lower(rate: u32) -> (r: String)
    ensures
        r@ == spec_dsd_label_lower(rate),
{
    let base: u32 = if rate % 2822400 == 0 {
        2822400
    } else {
        3072000
    };
    let mult = rate / base;
    match mult {
        1 => owned("dsd64"),
        2 => owned("dsd128"),
        4 => owned("dsd256"),
        8 => owned("dsd512"),
        16 => owned("dsd1024"),
        _ => {
            let mut s = owned("dsd (");
            append_dec(&mut s, rate as u64);
            append_str(&mut s, " hz)");
            s
        },
    }
}

// ---------------------------------------------------------------------------
// DSF header
// ---------------------------------------------------------------------------

/// DSD container geometry.
#[derive(Debug, Clone, Copy, PartialEq, Eq, Structural)]
pub struct DsdHeader {
    pub dsd_rate: u32,
    pub channels: usize,
    pub data_offset: u64,
    pub audio_bytes: u64,
    /// Channel blocks (DSF) rather than interleaved bytes (DSDIFF).
    pub planar: bool,
    pub block_size: usize,
}

/// `data[off..off + pat.len()] == pat`.
pub open spec fn bytes_at(data: Seq<u8>, off: int, pat: Seq<u8>) -> bool {
    off + pat.len() <= data.len() && data.subrange(off, off + pat.len()) == pat
}

pub fn has_bytes_at(data: &[u8], off: usize, pat: &[u8]) -> (r: bool)
    ensures
        r == bytes_at(data@, off as int, pat@),
{
    if off > data.len() || pat.len() > data.len() - off {
        return false;
    }
    let dl = data.len();
    let mut k: usize = 0;
    while k < pat.len()
        invariant
            dl == data@.len(),
            k <= pat@.len(),
            off + pat@.len() <= data@.len(),
            forall|j: int| 0 <= j < k ==> data@[off + j] == pat@[j],
        decreases pat.len() - k,
    {
        if data[off + k] != pat[k] {
            assert(data@.subrange(off as int, off + pat@.len())[k as int] != pat@[k as int]);
            return false;
        }
        k += 1;
    }
    assert(data@.subrange(off as int, off + pat@.len()) =~= pat@);
    true
}

/// "DSD " (chunk id and DSDIFF form type).
pub open spec fn id_dsd() -> Seq<u8> {
    seq![0x44u8, 0x53, 0x44, 0x20]
}

/// "fmt " (DSF format chunk).
pub open spec fn id_fmt() -> Seq<u8> {
    seq![0x66u8, 0x6D, 0x74, 0x20]
}

/// Result of reading the first 92 bytes of a DSF file: the header and the
/// offset of the ID3 metadata chunk (0 when there is none).
pub open spec fn spec_parse_dsf(buf: Seq<u8>) -> Result<(DsdHeader, u64), Seq<char>> {
    let format_id = le32(buf.skip(44));
    let channels = le32(buf.skip(52));
    let dsd_rate = le32(buf.skip(56));
    let bits = le32(buf.skip(60));
    let samples = le64(buf.skip(64));
    let block = le32(buf.skip(72));
    if !bytes_at(buf, 0, id_dsd()) {
        Err("Not a DSF file"@)
    } else if !bytes_at(buf, 28, id_fmt()) {
        Err("DSF: missing fmt chunk"@)
    } else if format_id != 0 {
        Err("DSF: DST-encoded data not supported"@)
    } else if bits != 1 {
        Err("DSF: unsupported bits per sample "@ + dec(bits as nat))
    } else if dsd_rate == 0 || dsd_rate % 64 != 0 {
        Err("DSF: unsupported sample rate "@ + dec(dsd_rate as nat))
    } else {
        Ok(
            (
                DsdHeader {
                    dsd_rate: dsd_rate as u32,
                    channels: channels as usize,
                    data_offset: 92,
                    audio_bytes: ((samples + 7) / 8 * channels) as u64,
                    planar: true,
                    block_size: if block > 0 {
                        block as usize
                    } else {
                        4096
                    },
                },
                le64(buf.skip(20)) as u64,
            ),
        )
    }
}

/// Parse the DSF header held in the first 92 bytes of the file.
pub fn parse_dsf(buf: &[u8]) -> (r: Result<(DsdHeader, u64), String>)
    requires
        buf@.len() >= 92,
        spec_parse_dsf(buf@) is Ok ==> (le64(buf@.skip(64)) + 7) / 8 * le32(buf@.skip(52))
            <= u64::MAX,
    ensures
        match (r, spec_parse_dsf(buf@)) {
            (Ok(a), Ok(b)) => a == b,
            (Err(e), Err(m)) => e@ == m,
            _ => false,
        },
{
    let dsd: [u8; 4] = [0x44, 0x53, 0x44, 0x20];
    let fmt: [u8; 4] = [0x66, 0x6D, 0x74, 0x20];
    assert(dsd@ =~= id_dsd());
    assert(fmt@ =~= id_fmt());
    if !has_bytes_at(buf, 0, &dsd) {
        return Err(owned("Not a DSF file"));
    }
    let metadata_offset = read_u64_le_at(buf, 20);
    if !has_bytes_at(buf, 28, &fmt) {
        return Err(owned("DSF: missing fmt chunk"));
    }
    let format_id = read_u32_le_at(buf, 44);
    let channels = read_u32_le_at(buf, 52);
    let dsd_rate = read_u32_le_at(buf, 56);
    let bits_per_sample = read_u32_le_at(buf, 60);
    let sample_count = read_u64_le_at(buf, 64);
    let block_size = read_u32_le_at(buf, 72);
    if format_id != 0 {
        return Err(owned("DSF: DST-encoded data not supported"));
    }
    if bits_per_sample != 1 {
        let mut e = owned("DSF: unsupported bits per sample ");
        append_dec(&mut e, bits_per_sample as u64);
        return Err(e);
    }
    if dsd_rate == 0 || dsd_rate % 64 != 0 {
        let mut e = owned("DSF: unsupported sample rate ");
        append_dec(&mut e, dsd_rate as u64);
        return Err(e);
    }
    let per_ch_bytes = sample_count / 8 + if sample_count % 8 != 0 {
        1
    } else {
        0
    };
    assert(per_ch_bytes == (sample_count + 7) / 8);
    let audio_bytes = per_ch_bytes * (channels as u64);
    let header = DsdHeader {
        dsd_rate,
        channels: channels as usize,
        data_offset: 92,
        audio_bytes,
        planar: true,
        block_size: if block_size > 0 {
            block_size as usize
        } else {
            4096
        },
    };
    Ok((header, metadata_offset))
}

/// Whether [`parse_dsf`] may be given `buf`: the 92 header bytes are there
/// and, when the header is valid, its audio size fits in 64 bits.
pub fn dsf_header_fits(buf: &[u8]) -> (r: bool)
    ensures
        r == (buf@.len() >= 92 && (spec_parse_dsf(buf@) is Ok ==> (le64(buf@.skip(64)) + 7) / 8
            * le32(buf@.skip(52)) <= u64::MAX)),
{
    if buf.len() < 92 {
        return false;
    }
    let dsd: [u8; 4] = [0x44, 0x53, 0x44, 0x20];
    let fmt: [u8; 4] = [0x66, 0x6D, 0x74, 0x20];
    assert(dsd@ =~= id_dsd());
    assert(fmt@ =~= id_fmt());
    if !has_bytes_at(buf, 0, &dsd) || !has_bytes_at(buf, 28, &fmt) {
        return true;
    }
    let format_id = read_u32_le_at(buf, 44);
    let channels = read_u32_le_at(buf, 52);
    let dsd_rate = read_u32_le_at(buf, 56);
    let bits_per_sample = read_u32_le_at(buf, 60);
    if format_id != 0 || bits_per_sample != 1 || dsd_rate == 0 || dsd_rate % 64 != 0 {
        return true;
    }
    let sample_count = read_u64_le_at(buf, 64);
    let per_ch_bytes = sample_count / 8 + if sample_count % 8 != 0 {
        1
    } else {
        0
    };
    assert(per_ch_bytes == (sample_count + 7) / 8);
    let a = per_ch_bytes as u128;
    let b = channels as u128;
    assert(a * b <= 0xFFFF_FFFF_FFFF_FFFF_FFFF_FFFF) by (nonlinear_arith)
        requires
            a <= 0xFFFF_FFFF_FFFF_FFFF,
            b <= 0xFFFF_FFFF,
    ;
    a * b <= 0xFFFF_FFFF_FFFF_FFFFu128
}

// ---------------------------------------------------------------------------
// Reading DSD audio
// ---------------------------------------------------------------------------

/// Byte positions (per channel) the interleaved reader takes at most in one
/// group.
pub const RAW_GROUP: usize = 4096;

/// Where reading restarts after a seek to PCM frame `target_frames` (one
/// frame per channel is 8 bytes of DSD): the byte position in the file and
/// the audio bytes left from there. DSF data restarts at the start of the
/// block holding the target, so each channel starts on its own block.
pub open spec fn spec_dsd_seek_plan(h: DsdHeader, target_frames: u64) -> (u64, u64) {
    let per_ch = target_frames as int * 8;
    let aligned = if h.planar {
        per_ch / h.block_size as int * h.block_size as int
    } else {
        per_ch
    };
    let skipped = aligned * h.channels as int;
    (
        (h.data_offset as int + skipped) as u64,
        if h.audio_bytes as int > skipped {
            (h.audio_bytes as int - skipped) as u64
        } else {
            0u64
        },
    )
}

/// Seek arithmetic of the DSD reader (see [`spec_dsd_seek_plan`]).
pub fn dsd_seek_plan(h: &DsdHeader, target_frames: u64) -> (r: (u64, u64))
    requires
        h.planar ==> h.block_size > 0,
        target_frames as int * 8 <= u64::MAX,
        target_frames as int * 8 * h.channels as int + h.data_offset as int <= u64::MAX,
    ensures
        r == spec_dsd_seek_plan(*h, target_frames),
{
    let per_ch = target_frames * 8;
    let aligned = if h.planar {
        let bs = h.block_size as u64;
        assert(per_ch as int / bs as int * bs as int <= per_ch) by (nonlinear_arith)
            requires
                bs > 0,
                per_ch >= 0,
        ;
        per_ch / bs * bs
    } else {
        per_ch
    };
    let ch = h.channels as u64;
    assert(aligned as int * ch as int <= per_ch as int * ch as int) by (nonlinear_arith)
        requires
            aligned <= per_ch,
    ;
    let skipped = aligned * ch;
    let remaining = if h.audio_bytes > skipped {
        h.audio_bytes - skipped
    } else {
        0
    };
    (h.data_offset + skipped, remaining)
}

/// How many raw bytes the reader takes next, with `remaining` audio bytes
/// left: DSF takes whole periods (one block per channel), DSDIFF takes
/// whole byte positions (one byte per channel), at most [`RAW_GROUP`] of
/// them. Zero means the audio is used up.
pub open spec fn spec_dsd_group_bytes(h: DsdHeader, remaining: u64) -> int {
    if h.planar {
        let period = h.block_size as int * h.channels as int;
        if (remaining as usize) < period {
            (remaining as usize) as int
        } else {
            period
        }
    } else {
        let positions = (remaining as usize) as int / h.channels as int;
        let p = if positions < RAW_GROUP {
            positions
        } else {
            RAW_GROUP as int
        };
        p * h.channels as int
    }
}

/// The size of the next raw group (see [`spec_dsd_group_bytes`]).
pub fn dsd_group_bytes(h: &DsdHeader, remaining: u64) -> (r: usize)
    requires
        h.channels > 0,
        h.block_size as int * h.channels as int <= usize::MAX,
        RAW_GROUP * h.channels as int <= usize::MAX,
    ensures
        r == spec_dsd_group_bytes(*h, remaining),
{
    let rem = remaining as usize;
    if h.planar {
        let period = h.block_size * h.channels;
        if rem < period {
            rem
        } else {
            period
        }
    } else {
        let positions = rem / h.channels;
        let p = if positions < RAW_GROUP {
            positions
        } else {
            RAW_GROUP
        };
        assert(p * h.channels <= RAW_GROUP * h.channels) by (nonlinear_arith)
            requires
                p <= RAW_GROUP,
        ;
        p * h.channels
    }
}

// ---------------------------------------------------------------------------
// ID3 text decoding
// ---------------------------------------------------------------------------

/// The code point of a surrogate pair.
pub open spec fn pair_code(hi: u16, lo: u16) -> u32 {
    (0x10000 + (hi - 0xD800) * 0x400 + (lo - 0xDC00)) as u32
}

/// One step of the lenient UTF-16 decoder: NUL units are skipped, a high
/// surrogate is remembered (replacing any earlier one), a low surrogate
/// completes a remembered high one (and is dropped otherwise), and every
/// other unit is its own character. The remembered unit survives ordinary
/// characters.
pub open spec fn utf16_step(out: Seq<u32>, pending: Option<u16>, u: u16) -> (
    Seq<u32>,
    Option<u16>,
) {
    if u == 0 {
        (out, pending)
    } else if 0xD800 <= u < 0xDC00 {
        (out, Some(u))
    } else if 0xDC00 <= u < 0xE000 {
        match pending {
            Some(hi) => (out.push(pair_code(hi, u)), None),
            None => (out, None),
        }
    } else {
        (out.push(u as u32), pending)
    }
}

/// Code points decoded from `units` (and the still-pending high surrogate).
pub open spec fn utf16_decode(units: Seq<u16>) -> (Seq<u32>, Option<u16>)
    decreases units.len(),
{
    if units.len() == 0 {
        (Seq::empty(), None)
    } else {
        let p = utf16_decode(units.drop_last());
        utf16_step(p.0, p.1, units.last())
    }
}

/// Characters with the given code points.
pub open spec fn chars_of(codes: Seq<u32>) -> Seq<char> {
    codes.map_values(|c: u32| c as char)
}

/// Lenient UTF-16 decoding of ID3 text units.
pub fn decode_utf16(units: &[u16]) -> (r: String)
    ensures
        r@ == chars_of(utf16_decode(units@).0),
{
    let mut pending: Option<u16> = None;
    let mut out = String::new();
    let ghost mut codes: Seq<u32> = Seq::empty();
    let mut i: usize = 0;
    while i < units.len()
        invariant
            i <= units@.len(),
            (codes, pending) == utf16_decode(units@.take(i as int)),
            out@ == chars_of(codes),
            forall|k: int| 0 <= k < codes.len() ==> vstd::utf8::is_scalar(#[trigger] codes[k]),
            pending matches Some(h) ==> 0xD800 <= h < 0xDC00,
        decreases units.len() - i,
    {
        let u = units[i];
        proof {
            assert(units@.take(i + 1).drop_last() =~= units@.take(i as int));
        }
        if u == 0 {
        } else if 0xD800 <= u && u < 0xDC00 {
            pending = Some(u);
        } else if 0xDC00 <= u && u < 0xE000 {
            match pending {
                Some(hi) => {
                    assert(((hi - 0xD800) as u32) * 0x400 <= 0xFFC00) by (nonlinear_arith)
                        requires
                            (hi - 0xD800) as u32 <= 0x3FF,
                    ;
                    let c = 0x10000 + ((hi - 0xD800) as u32) * 0x400 + (u - 0xDC00) as u32;
                    assert(crate::text::is_scalar_value(c));
                    let ch = match char_from_u32(c) {
                        Some(ch) => ch,
                        None => '\u{FFFD}',
                    };
                    push_char(&mut out, ch);
                    proof {
                        lemma_char_of_code(c, ch);
                    }
                    proof {
                        codes = codes.push(c);
                        assert(out@ =~= chars_of(codes));
                    }
                    pending = None;
                },
                None => {},
            }
        } else {
            let c = u as u32;
            assert(crate::text::is_scalar_value(c));
            let ch = match char_from_u32(c) {
                Some(ch) => ch,
                None => '\u{FFFD}',
            };
            push_char(&mut out, ch);
            proof {
                lemma_char_of_code(c, ch);
            }
            proof {
                codes = codes.push(c);
                assert(out@ =~= chars_of(codes));
            }
        }
        i += 1;
    }
    assert(units@.take(units@.len() as int) =~= units@);
    out
}

proof fn lemma_char_of_code(c: u32, ch: char)
    requires
        crate::text::is_scalar_value(c),
        ch as u32 == c,
    ensures
        ch == c as char,
{
    assert((c as char) as u32 == c);
}

/// Little-endian (or big-endian) 16-bit units of whole byte pairs.
pub open spec fn units_of(bytes: Seq<u8>, le: bool) -> Seq<u16> {
    Seq::new(
        bytes.len() / 2,
        |i: int|
            if le {
                (bytes[2 * i] as int + bytes[2 * i + 1] as int * 0x100) as u16
            } else {
                (bytes[2 * i] as int * 0x100 + bytes[2 * i + 1] as int) as u16
            },
    )
}

fn units_from(bytes: &[u8], start: usize, le: bool) -> (r: Vec<u16>)
    requires
        start <= bytes@.len(),
    ensures
        r@ == units_of(bytes@.skip(start as int), le),
{
    let mut v: Vec<u16> = Vec::new();
    let bl = bytes.len();
    let n = (bl - start) / 2;
    let mut i: usize = 0;
    while i < n
        invariant
            bl == bytes@.len(),
            i <= n,
            n == (bytes@.len() - start) / 2,
            start <= bytes@.len(),
            v@.len() == i,
            forall|k: int| 0 <= k < i ==> v@[k] == units_of(bytes@.skip(start as int), le)[k],
        decreases n - i,
    {
        let a = bytes[start + 2 * i] as u16;
        let b = bytes[start + 2 * i + 1] as u16;
        let u = if le {
            a + b * 0x100
        } else {
            a * 0x100 + b
        };
        v.push(u);
        i += 1;
    }
    assert(v@ =~= units_of(bytes@.skip(start as int), le));
    v
}

/// `s` without leading and trailing `c`.
pub open spec fn trim_char(s: Seq<char>, c: char) -> Seq<char>
    decreases s.len(),
{
    if s.len() > 0 && s[0] == c {
        trim_char(s.skip(1), c)
    } else if s.len() > 0 && s.last() == c {
        trim_char(s.drop_last(), c)
    } else {
        s
    }
}

fn trim_nul(v: &Vec<char>) -> (r: Vec<char>)
    ensures
        r@ == trim_char(v@, '\0'),
{
    let mut lo: usize = 0;
    let mut hi: usize = v.len();
    assert(v@.subrange(0, hi as int) =~= v@);
    while lo < hi && v[lo] == '\0'
        invariant
            lo <= hi == v@.len(),
            trim_char(v@.subrange(lo as int, hi as int), '\0') == trim_char(v@, '\0'),
        decreases hi - lo,
    {
        proof {
            assert(v@.subrange(lo as int, hi as int).skip(1) =~= v@.subrange(lo + 1, hi as int));
        }
        lo += 1;
    }
    while lo < hi && v[hi - 1] == '\0'
        invariant
            lo <= hi <= v@.len(),
            lo < hi ==> v@[lo as int] != '\0',
            trim_char(v@.subrange(lo as int, hi as int), '\0') == trim_char(v@, '\0'),
        decreases hi - lo,
    {
        proof {
            let s = v@.subrange(lo as int, hi as int);
            assert(s[0] != '\0');
            assert(s.drop_last() =~= v@.subrange(lo as int, hi - 1));
        }
        hi -= 1;
    }
    proof {
        let s = v@.subrange(lo as int, hi as int);
        if s.len() > 0 {
            assert(s[0] != '\0');
            assert(s.last() != '\0');
        }
    }
    let mut r: Vec<char> = Vec::new();
    let mut i = lo;
    while i < hi
        invariant
            lo <= i <= hi <= v@.len(),
            r@ == v@.subrange(lo as int, i as int),
        decreases hi - i,
    {
        r.push(v[i]);
        i += 1;
        assert(r@ =~= v@.subrange(lo as int, i as int));
    }
    r
}

/// What `String::from_utf8_lossy` yields for `bytes`.
pub uninterp spec fn utf8_lossy(bytes: Seq<u8>) -> Seq<char>;

/// std `String::from_utf8_lossy`: the decoded text, with invalid sequences
/// replaced by U+FFFD. Claimed: the result is this function of the bytes,
/// and valid UTF-8 decodes exactly; how invalid input is replaced is not
/// stated.
#[verifier::external_body]
fn from_utf8_lossy(bytes: &[u8]) -> (r: String)
    ensures
        r@ == utf8_lossy(bytes@),
        vstd::utf8::valid_utf8(bytes@) ==> r@ == vstd::utf8::decode_utf8(bytes@),
{
    String::from_utf8_lossy(bytes).into_owned()
}

/// Index of the first zero byte at or after `from`, or the length.
pub open spec fn nul_end(b: Seq<u8>) -> int
    decreases b.len(),
{
    if b.len() == 0 || b[0] == 0 {
        0
    } else {
        1 + nul_end(b.skip(1))
    }
}

/// Latin-1 characters of the bytes before the first zero byte.
pub open spec fn latin1_until_nul(b: Seq<u8>) -> Seq<char> {
    b.take(nul_end(b)).map_values(|x: u8| x as char)
}

proof fn lemma_nul_end(b: Seq<u8>, k: int)
    requires
        0 <= k <= b.len(),
        forall|j: int| 0 <= j < k ==> b[j] != 0,
        k < b.len() ==> b[k] == 0,
    ensures
        nul_end(b) == k,
    decreases k,
{
    if k > 0 {
        lemma_nul_end(b.skip(1), k - 1);
    }
}

/// Text of an ID3v2 text frame: encoding byte 1 is UTF-16 with a byte-order
/// mark (little-endian without one), 2 is UTF-16BE, 3 is UTF-8 (NULs
/// stripped), anything else is Latin-1 up to the first NUL; the text is
/// trimmed of white space.
pub open spec fn spec_extract_text(data: Seq<u8>) -> Seq<char> {
    if data.len() == 0 {
        Seq::empty()
    } else {
        let enc = data[0];
        let text = data.skip(1);
        if enc == 1 {
            if text.len() >= 2 && text[0] == 0xFF && text[1] == 0xFE {
                trim(chars_of(utf16_decode(units_of(text.skip(2), true)).0))
            } else if text.len() >= 2 && text[0] == 0xFE && text[1] == 0xFF {
                trim(chars_of(utf16_decode(units_of(text.skip(2), false)).0))
            } else {
                trim(chars_of(utf16_decode(units_of(text, true)).0))
            }
        } else if enc == 2 {
            trim(chars_of(utf16_decode(units_of(text, false)).0))
        } else if enc == 3 {
            trim(trim_char(utf8_lossy(text), '\0'))
        } else {
            trim(latin1_until_nul(text))
        }
    }
}

fn trim_string(s: &String) -> (r: String)
    ensures
        r@ == trim(s@),
{
    let v = to_chars(s.as_str());
    let (lo, hi) = trim_bounds(&v);
    string_from_chars(&v, lo, hi)
}

/// Decode the text of an ID3v2 text frame (see [`spec_extract_text`]).
pub fn extract_text(data: &[u8]) -> (r: String)
    ensures
        r@ == spec_extract_text(data@),
{
    if data.len() == 0 {
        return String::new();
    }
    let enc = data[0];
    let ghost text = data@.skip(1);
    if enc == 1 {
        if data.len() >= 3 && data[1] == 0xFF && data[2] == 0xFE {
            assert(text.skip(2) =~= data@.skip(3));
            let units = units_from(data, 3, true);
            trim_string(&decode_utf16(units.as_slice()))
        } else if data.len() >= 3 && data[1] == 0xFE && data[2] == 0xFF {
            assert(text.skip(2) =~= data@.skip(3));
            let units = units_from(data, 3, false);
            trim_string(&decode_utf16(units.as_slice()))
        } else {
            let units = units_from(data, 1, true);
            trim_string(&decode_utf16(units.as_slice()))
        }
    } else if enc == 2 {
        let units = units_from(data, 1, false);
        trim_string(&decode_utf16(units.as_slice()))
    } else if enc == 3 {
        let rest = slice_from(data, 1);
        let s = from_utf8_lossy(rest);
        let v = to_chars(s.as_str());
        let nn = trim_nul(&v);
        let (lo, hi) = trim_bounds(&nn);
        string_from_chars(&nn, lo, hi)
    } else {
        let mut k: usize = 1;
        while k < data.len() && data[k] != 0
            invariant
                1 <= k <= data@.len(),
                forall|j: int| 1 <= j < k ==> data@[j] != 0,
            decreases data.len() - k,
        {
            k += 1;
        }
        proof {
            lemma_nul_end(text, k - 1);
        }
        let mut v: Vec<char> = Vec::new();
        let mut i: usize = 1;
        while i < k
            invariant
                1 <= i <= k <= data@.len(),
                v@ == data@.subrange(1, i as int).map_values(|x: u8| x as char),
            decreases k - i,
        {
            v.push(data[i] as char);
            i += 1;
            assert(v@ =~= data@.subrange(1, i as int).map_values(|x: u8| x as char));
        }
        assert(text.take(k - 1) =~= data@.subrange(1, k as int));
        let (lo, hi) = trim_bounds(&v);
        string_from_chars(&v, lo, hi)
    }
}

/// `&data[from..]`.
fn slice_from(data: &[u8], from: usize) -> (r: &[u8])
    requires
        from <= data@.len(),
    ensures
        r@ == data@.skip(from as int),
{
    let r = slice_range(data, from, data.len());
    assert(data@.subrange(from as int, data@.len() as int) =~= data@.skip(from as int));
    r
}

/// `&data[lo..hi]`.
fn slice_range(data: &[u8], lo: usize, hi: usize) -> (r: &[u8])
    requires
        lo <= hi <= data@.len(),
    ensures
        r@ == data@.subrange(lo as int, hi as int),
{
    &data[lo..hi]
}

// ---------------------------------------------------------------------------
// ID3 tags
// ---------------------------------------------------------------------------

/// Text fields an ID3 frame can fill.
#[derive(Debug, Clone, Copy, PartialEq, Eq, Structural)]
pub enum Id3Field {
    Title,
    Artist,
    AlbumArtist,
    Album,
    Genre,
    Year,
    Track,
    Disc,
    Other,
}

pub open spec fn id4(a: u8, b: u8, c: u8, d: u8) -> Seq<u8> {
    seq![a, b, c, d]
}

pub open spec fn id3c(a: u8, b: u8, c: u8) -> Seq<u8> {
    seq![a, b, c]
}

/// Field of a frame id (v2.3/2.4 four-letter ids and v2.2 three-letter ones).
pub open spec fn spec_id3_field(id: Seq<u8>) -> Id3Field {
    if id == id4(0x54, 0x49, 0x54, 0x32) || id == id3c(0x54, 0x54, 0x32) {
        Id3Field::Title
    } else if id == id4(0x54, 0x50, 0x45, 0x31) || id == id3c(0x54, 0x50, 0x31) {
        Id3Field::Artist
    } else if id == id4(0x54, 0x50, 0x45, 0x32) || id == id3c(0x54, 0x50, 0x32) {
        Id3Field::AlbumArtist
    } else if id == id4(0x54, 0x41, 0x4C, 0x42) || id == id3c(0x54, 0x41, 0x4C) {
        Id3Field::Album
    } else if id == id4(0x54, 0x43, 0x4F, 0x4E) || id == id3c(0x54, 0x43, 0x4F) {
        Id3Field::Genre
    } else if id == id4(0x54, 0x44, 0x52, 0x43) || id == id4(0x54, 0x59, 0x45, 0x52) || id == id4(
        0x54,
        0x4F,
        0x52,
        0x59,
    ) {
        Id3Field::Year
    } else if id == id4(0x54, 0x52, 0x43, 0x4B) || id == id3c(0x54, 0x52, 0x4B) {
        Id3Field::Track
    } else if id == id4(0x54, 0x50, 0x4F, 0x53) || id == id3c(0x54, 0x50, 0x41) {
        Id3Field::Disc
    } else {
        Id3Field::Other
    }
}

fn id_eq4(body: &[u8], pos: usize, idlen: usize, a: u8, b: u8, c: u8, d: u8) -> (r: bool)
    requires
        idlen == 3 || idlen == 4,
        pos + idlen <= body@.len(),
    ensures
        r == (body@.subrange(pos as int, pos + idlen) == id4(a, b, c, d)),
{
    if idlen != 4 {
        assert(body@.subrange(pos as int, pos + idlen).len() != id4(a, b, c, d).len());
        return false;
    }
    let r = body[pos] == a && body[pos + 1] == b && body[pos + 2] == c && body[pos + 3] == d;
    proof {
        let id = body@.subrange(pos as int, pos + 4);
        if r {
            assert(id =~= id4(a, b, c, d));
        } else if id == id4(a, b, c, d) {
            assert(id[0] == a && id[1] == b && id[2] == c && id[3] == d);
        }
    }
    r
}

fn id_eq3(body: &[u8], pos: usize, idlen: usize, a: u8, b: u8, c: u8) -> (r: bool)
    requires
        idlen == 3 || idlen == 4,
        pos + idlen <= body@.len(),
    ensures
        r == (body@.subrange(pos as int, pos + idlen) == id3c(a, b, c)),
{
    if idlen != 3 {
        assert(body@.subrange(pos as int, pos + idlen).len() != id3c(a, b, c).len());
        return false;
    }
    let r = body[pos] == a && body[pos + 1] == b && body[pos + 2] == c;
    proof {
        let id = body@.subrange(pos as int, pos + 3);
        if r {
            assert(id =~= id3c(a, b, c));
        } else if id == id3c(a, b, c) {
            assert(id[0] == a && id[1] == b && id[2] == c);
        }
    }
    r
}

/// Field of the frame id `body[pos..pos + idlen]`.
fn id3_field(body: &[u8], pos: usize, idlen: usize) -> (r: Id3Field)
    requires
        idlen == 3 || idlen == 4,
        pos + idlen <= body@.len(),
    ensures
        r == spec_id3_field(body@.subrange(pos as int, pos + idlen)),
{
    if id_eq4(body, pos, idlen, 0x54, 0x49, 0x54, 0x32) || id_eq3(body, pos, idlen, 0x54, 0x54, 0x32) {
        Id3Field::Title
    } else if id_eq4(body, pos, idlen, 0x54, 0x50, 0x45, 0x31) || id_eq3(body, pos, idlen, 0x54, 0x50, 0x31) {
        Id3Field::Artist
    } else if id_eq4(body, pos, idlen, 0x54, 0x50, 0x45, 0x32) || id_eq3(body, pos, idlen, 0x54, 0x50, 0x32) {
        Id3Field::AlbumArtist
    } else if id_eq4(body, pos, idlen, 0x54, 0x41, 0x4C, 0x42) || id_eq3(body, pos, idlen, 0x54, 0x41, 0x4C) {
        Id3Field::Album
    } else if id_eq4(body, pos, idlen, 0x54, 0x43, 0x4F, 0x4E) || id_eq3(body, pos, idlen, 0x54, 0x43, 0x4F) {
        Id3Field::Genre
    } else if id_eq4(body, pos, idlen, 0x54, 0x44, 0x52, 0x43) || id_eq4(body, pos, idlen, 0x54, 0x59, 0x45, 0x52)
        || id_eq4(body, pos, idlen, 0x54, 0x4F, 0x52, 0x59) {
        Id3Field::Year
    } else if id_eq4(body, pos, idlen, 0x54, 0x52, 0x43, 0x4B) || id_eq3(body, pos, idlen, 0x54, 0x52, 0x4B) {
        Id3Field::Track
    } else if id_eq4(body, pos, idlen, 0x54, 0x50, 0x4F, 0x53) || id_eq3(body, pos, idlen, 0x54, 0x50, 0x41) {
        Id3Field::Disc
    } else {
        Id3Field::Other
    }
}

/// The effect of one text frame on the tags: text fields keep their first
/// value, numbers their first non-zero value, totals the largest.
pub open spec fn id3_apply(t: TagsView, f: Id3Field, data: Seq<u8>) -> TagsView {
    let text = spec_extract_text(data);
    match f {
        Id3Field::Title => TagsView { title: first_wins(t.title, text), ..t },
        Id3Field::Artist => TagsView { artist: first_wins(t.artist, text), ..t },
        Id3Field::AlbumArtist => TagsView { album_artist: first_wins(t.album_artist, text), ..t },
        Id3Field::Album => TagsView { album: first_wins(t.album, text), ..t },
        Id3Field::Genre => TagsView { genre: first_wins(t.genre, text), ..t },
        Id3Field::Year => TagsView { year: first_wins(t.year, text), ..t },
        Id3Field::Track => {
            let p = spec_parse_number_pair(text);
            TagsView {
                track_number: if t.track_number == 0 {
                    p.0
                } else {
                    t.track_number
                },
                track_total: max_u32(t.track_total, p.1),
                ..t
            }
        },
        Id3Field::Disc => {
            let p = spec_parse_number_pair(text);
            TagsView {
                disc_number: if t.disc_number == 0 {
                    p.0
                } else {
                    t.disc_number
                },
                disc_total: max_u32(t.disc_total, p.1),
                ..t
            }
        },
        Id3Field::Other => t,
    }
}

/// A 28-bit "syncsafe" integer (7 bits per byte).
pub open spec fn syncsafe(b: Seq<u8>) -> int {
    (b[0] % 128) as int * 0x20_0000 + (b[1] % 128) as int * 0x4000 + (b[2] % 128) as int * 0x80 + (
    b[3] % 128) as int
}

/// Length field of the frame header at `pos`: a plain big-endian integer in
/// v2.3, syncsafe otherwise.
pub open spec fn frame_len(body: Seq<u8>, ver: u8, pos: int) -> int {
    if ver == 3 {
        be32(body.skip(pos + 4))
    } else {
        syncsafe(body.skip(pos + 4))
    }
}

/// Walk the frames of an ID3v2 tag body from `pos`, stopping at padding (a
/// zero length) or at a frame that would run past the body.
pub open spec fn id3_walk(body: Seq<u8>, ver: u8, pos: int, t: TagsView) -> TagsView
    decreases body.len() - pos,
{
    if pos < 0 || pos + 10 > body.len() {
        t
    } else {
        let fl = frame_len(body, ver, pos);
        if fl <= 0 || pos + 10 + fl > body.len() {
            t
        } else {
            let id = if ver == 2 {
                body.subrange(pos, pos + 3)
            } else {
                body.subrange(pos, pos + 4)
            };
            id3_walk(
                body,
                ver,
                pos + 10 + fl,
                id3_apply(t, spec_id3_field(id), body.subrange(pos + 10, pos + 10 + fl)),
            )
        }
    }
}

/// "ID3"
pub open spec fn magic_id3() -> Seq<u8> {
    seq![0x49u8, 0x44, 0x33]
}

/// "TAG"
pub open spec fn magic_tag() -> Seq<u8> {
    seq![0x54u8, 0x41, 0x47]
}

/// A trimmed ID3v1 text field, when it is not empty.
pub open spec fn v1_field(b: Seq<u8>) -> Option<Seq<char>> {
    let s = trim(utf8_lossy(b));
    if s.len() == 0 {
        None
    } else {
        Some(s)
    }
}

/// Tags of an ID3v2 tag (header, syncsafe size, text frames) or of an
/// ID3v1 tag (128 bytes: fixed title, artist and album fields).
pub open spec fn spec_parse_id3(buf: Seq<u8>) -> TagsView {
    if buf.len() >= 10 && bytes_at(buf, 0, magic_id3()) {
        let ver = buf[3];
        let sz = syncsafe(buf.skip(6));
        let end = if 10 + sz < buf.len() {
            10 + sz
        } else {
            buf.len() as int
        };
        id3_walk(buf.subrange(10, end), ver, 0, empty_tags())
    } else if buf.len() >= 128 && bytes_at(buf, 0, magic_tag()) {
        TagsView {
            title: v1_field(buf.subrange(3, 33)),
            artist: v1_field(buf.subrange(33, 63)),
            album: v1_field(buf.subrange(63, 93)),
            ..empty_tags()
        }
    } else {
        empty_tags()
    }
}

fn set_first_text(slot: &mut Option<String>, text: String)
    ensures
        opt_view(*final(slot)) == first_wins(opt_view(*old(slot)), text@),
{
    if slot.is_none() {
        *slot = Some(text);
    }
}

fn apply_frame(t: &mut Tags, f: Id3Field, data: &[u8])
    ensures
        final(t)@ == id3_apply(old(t)@, f, data@),
{
    match f {
        Id3Field::Title => set_first_text(&mut t.title, extract_text(data)),
        Id3Field::Artist => set_first_text(&mut t.artist, extract_text(data)),
        Id3Field::AlbumArtist => set_first_text(&mut t.album_artist, extract_text(data)),
        Id3Field::Album => set_first_text(&mut t.album, extract_text(data)),
        Id3Field::Genre => set_first_text(&mut t.genre, extract_text(data)),
        Id3Field::Year => set_first_text(&mut t.year, extract_text(data)),
        Id3Field::Track => {
            let text = extract_text(data);
            let (n, tot) = parse_number_pair(text.as_str());
            if t.track_number == 0 {
                t.track_number = n;
            }
            if t.track_total < tot {
                t.track_total = tot;
            }
        },
        Id3Field::Disc => {
            let text = extract_text(data);
            let (n, tot) = parse_number_pair(text.as_str());
            if t.disc_number == 0 {
                t.disc_number = n;
            }
            if t.disc_total < tot {
                t.disc_total = tot;
            }
        },
        Id3Field::Other => {},
    }
}

fn syncsafe_at(b: &[u8], off: usize) -> (r: usize)
    requires
        off + 4 <= b@.len(),
    ensures
        r == syncsafe(b@.skip(off as int)),
{
    let _n = b.len();
    (b[off] % 128) as usize * 0x20_0000 + (b[off + 1] % 128) as usize * 0x4000 + (b[off + 2] % 128)
        as usize * 0x80 + (b[off + 3] % 128) as usize
}

fn v1_text(buf: &[u8], lo: usize, hi: usize) -> (r: Option<String>)
    requires
        lo <= hi <= buf@.len(),
    ensures
        opt_view(r) == v1_field(buf@.subrange(lo as int, hi as int)),
{
    let s = from_utf8_lossy(slice_range(buf, lo, hi));
    let t = trim_string(&s);
    if t.as_str().is_empty() {
        None
    } else {
        Some(t)
    }
}

/// The text frames ID3 tags fill, by frame id: TIT2/TT2 the title,
/// TPE1/TP1 the artist, TPE2/TP2 the album artist, TALB/TAL the album,
/// TCON/TCO the genre, TDRC/TYER/TORY the year, TRCK/TRK the track and
/// TPOS/TPA the disc number.
pub proof fn law_id3_frame_fields()
    ensures
        spec_id3_field(seq![0x54u8, 0x49, 0x54, 0x32]) == Id3Field::Title,
        spec_id3_field(seq![0x54u8, 0x54, 0x32]) == Id3Field::Title,
        spec_id3_field(seq![0x54u8, 0x50, 0x45, 0x31]) == Id3Field::Artist,
        spec_id3_field(seq![0x54u8, 0x50, 0x31]) == Id3Field::Artist,
        spec_id3_field(seq![0x54u8, 0x50, 0x45, 0x32]) == Id3Field::AlbumArtist,
        spec_id3_field(seq![0x54u8, 0x50, 0x32]) == Id3Field::AlbumArtist,
        spec_id3_field(seq![0x54u8, 0x41, 0x4C, 0x42]) == Id3Field::Album,
        spec_id3_field(seq![0x54u8, 0x41, 0x4C]) == Id3Field::Album,
        spec_id3_field(seq![0x54u8, 0x43, 0x4F, 0x4E]) == Id3Field::Genre,
        spec_id3_field(seq![0x54u8, 0x43, 0x4F]) == Id3Field::Genre,
        spec_id3_field(seq![0x54u8, 0x44, 0x52, 0x43]) == Id3Field::Year,
        spec_id3_field(seq![0x54u8, 0x59, 0x45, 0x52]) == Id3Field::Year,
        spec_id3_field(seq![0x54u8, 0x4F, 0x52, 0x59]) == Id3Field::Year,
        spec_id3_field(seq![0x54u8, 0x52, 0x43, 0x4B]) == Id3Field::Track,
        spec_id3_field(seq![0x54u8, 0x52, 0x4B]) == Id3Field::Track,
        spec_id3_field(seq![0x54u8, 0x50, 0x4F, 0x53]) == Id3Field::Disc,
        spec_id3_field(seq![0x54u8, 0x50, 0x41]) == Id3Field::Disc,
{
    assert(seq![0x54u8, 0x50, 0x45, 0x31] != seq![0x54u8, 0x49, 0x54, 0x32]) by {
        if seq![0x54u8, 0x50, 0x45, 0x31] == seq![0x54u8, 0x49, 0x54, 0x32] {
            assert(seq![0x54u8, 0x50, 0x45, 0x31][1] == seq![0x54u8, 0x49, 0x54, 0x32][1]);
        }
    }
    assert(seq![0x54u8, 0x50, 0x31] != seq![0x54u8, 0x54, 0x32]) by {
        if seq![0x54u8, 0x50, 0x31] == seq![0x54u8, 0x54, 0x32] {
            assert(seq![0x54u8, 0x50, 0x31][1] == seq![0x54u8, 0x54, 0x32][1]);
        }
    }
    assert(seq![0x54u8, 0x50, 0x45, 0x32] != seq![0x54u8, 0x49, 0x54, 0x32]) by {
        if seq![0x54u8, 0x50, 0x45, 0x32] == seq![0x54u8, 0x49, 0x54, 0x32] {
            assert(seq![0x54u8, 0x50, 0x45, 0x32][1] == seq![0x54u8, 0x49, 0x54, 0x32][1]);
        }
    }
    assert(seq![0x54u8, 0x50, 0x45, 0x32] != seq![0x54u8, 0x50, 0x45, 0x31]) by {
        if seq![0x54u8, 0x50, 0x45, 0x32] == seq![0x54u8, 0x50, 0x45, 0x31] {
            assert(seq![0x54u8, 0x50, 0x45, 0x32][3] == seq![0x54u8, 0x50, 0x45, 0x31][3]);
        }
    }
    assert(seq![0x54u8, 0x50, 0x32] != seq![0x54u8, 0x54, 0x32]) by {
        if seq![0x54u8, 0x50, 0x32] == seq![0x54u8, 0x54, 0x32] {
            assert(seq![0x54u8, 0x50, 0x32][1] == seq![0x54u8, 0x54, 0x32][1]);
        }
    }
    assert(seq![0x54u8, 0x50, 0x32] != seq![0x54u8, 0x50, 0x31]) by {
        if seq![0x54u8, 0x50, 0x32] == seq![0x54u8, 0x50, 0x31] {
            assert(seq![0x54u8, 0x50, 0x32][2] == seq![0x54u8, 0x50, 0x31][2]);
        }
    }
    assert(seq![0x54u8, 0x41, 0x4C, 0x42] != seq![0x54u8, 0x49, 0x54, 0x32]) by {
        if seq![0x54u8, 0x41, 0x4C, 0x42] == seq![0x54u8, 0x49, 0x54, 0x32] {
            assert(seq![0x54u8, 0x41, 0x4C, 0x42][1] == seq![0x54u8, 0x49, 0x54, 0x32][1]);
        }
    }
    assert(seq![0x54u8, 0x41, 0x4C, 0x42] != seq![0x54u8, 0x50, 0x45, 0x31]) by {
        if seq![0x54u8, 0x41, 0x4C, 0x42] == seq![0x54u8, 0x50, 0x45, 0x31] {
            assert(seq![0x54u8, 0x41, 0x4C, 0x42][1] == seq![0x54u8, 0x50, 0x45, 0x31][1]);
        }
    }
    assert(seq![0x54u8, 0x41, 0x4C, 0x42] != seq![0x54u8, 0x50, 0x45, 0x32]) by {
        if seq![0x54u8, 0x41, 0x4C, 0x42] == seq![0x54u8, 0x50, 0x45, 0x32] {
            assert(seq![0x54u8, 0x41, 0x4C, 0x42][1] == seq![0x54u8, 0x50, 0x45, 0x32][1]);
        }
    }
    assert(seq![0x54u8, 0x41, 0x4C] != seq![0x54u8, 0x54, 0x32]) by {
        if seq![0x54u8, 0x41, 0x4C] == seq![0x54u8, 0x54, 0x32] {
            assert(seq![0x54u8, 0x41, 0x4C][1] == seq![0x54u8, 0x54, 0x32][1]);
        }
    }
    assert(seq![0x54u8, 0x41, 0x4C] != seq![0x54u8, 0x50, 0x31]) by {
        if seq![0x54u8, 0x41, 0x4C] == seq![0x54u8, 0x50, 0x31] {
            assert(seq![0x54u8, 0x41, 0x4C][1] == seq![0x54u8, 0x50, 0x31][1]);
        }
    }
    assert(seq![0x54u8, 0x41, 0x4C] != seq![0x54u8, 0x50, 0x32]) by {
        if seq![0x54u8, 0x41, 0x4C] == seq![0x54u8, 0x50, 0x32] {
            assert(seq![0x54u8, 0x41, 0x4C][1] == seq![0x54u8, 0x50, 0x32][1]);
        }
    }
    assert(seq![0x54u8, 0x43, 0x4F, 0x4E] != seq![0x54u8, 0x49, 0x54, 0x32]) by {
        if seq![0x54u8, 0x43, 0x4F, 0x4E] == seq![0x54u8, 0x49, 0x54, 0x32] {
            assert(seq![0x54u8, 0x43, 0x4F, 0x4E][1] == seq![0x54u8, 0x49, 0x54, 0x32][1]);
        }
    }
    assert(seq![0x54u8, 0x43, 0x4F, 0x4E] != seq![0x54u8, 0x50, 0x45, 0x31]) by {
        if seq![0x54u8, 0x43, 0x4F, 0x4E] == seq![0x54u8, 0x50, 0x45, 0x31] {
            assert(seq![0x54u8, 0x43, 0x4F, 0x4E][1] == seq![0x54u8, 0x50, 0x45, 0x31][1]);
        }
    }
    assert(seq![0x54u8, 0x43, 0x4F, 0x4E] != seq![0x54u8, 0x50, 0x45, 0x32]) by {
        if seq![0x54u8, 0x43, 0x4F, 0x4E] == seq![0x54u8, 0x50, 0x45, 0x32] {
            assert(seq![0x54u8, 0x43, 0x4F, 0x4E][1] == seq![0x54u8, 0x50, 0x45, 0x32][1]);
        }
    }
    assert(seq![0x54u8, 0x43, 0x4F, 0x4E] != seq![0x54u8, 0x41, 0x4C, 0x42]) by {
        if seq![0x54u8, 0x43, 0x4F, 0x4E] == seq![0x54u8, 0x41, 0x4C, 0x42] {
            assert(seq![0x54u8, 0x43, 0x4F, 0x4E][1] == seq![0x54u8, 0x41, 0x4C, 0x42][1]);
        }
    }
    assert(seq![0x54u8, 0x43, 0x4F] != seq![0x54u8, 0x54, 0x32]) by {
        if seq![0x54u8, 0x43, 0x4F] == seq![0x54u8, 0x54, 0x32] {
            assert(seq![0x54u8, 0x43, 0x4F][1] == seq![0x54u8, 0x54, 0x32][1]);
        }
    }
    assert(seq![0x54u8, 0x43, 0x4F] != seq![0x54u8, 0x50, 0x31]) by {
        if seq![0x54u8, 0x43, 0x4F] == seq![0x54u8, 0x50, 0x31] {
            assert(seq![0x54u8, 0x43, 0x4F][1] == seq![0x54u8, 0x50, 0x31][1]);
        }
    }
    assert(seq![0x54u8, 0x43, 0x4F] != seq![0x54u8, 0x50, 0x32]) by {
        if seq![0x54u8, 0x43, 0x4F] == seq![0x54u8, 0x50, 0x32] {
            assert(seq![0x54u8, 0x43, 0x4F][1] == seq![0x54u8, 0x50, 0x32][1]);
        }
    }
    assert(seq![0x54u8, 0x43, 0x4F] != seq![0x54u8, 0x41, 0x4C]) by {
        if seq![0x54u8, 0x43, 0x4F] == seq![0x54u8, 0x41, 0x4C] {
            assert(seq![0x54u8, 0x43, 0x4F][1] == seq![0x54u8, 0x41, 0x4C][1]);
        }
    }
    assert(seq![0x54u8, 0x44, 0x52, 0x43] != seq![0x54u8, 0x49, 0x54, 0x32]) by {
        if seq![0x54u8, 0x44, 0x52, 0x43] == seq![0x54u8, 0x49, 0x54, 0x32] {
            assert(seq![0x54u8, 0x44, 0x52, 0x43][1] == seq![0x54u8, 0x49, 0x54, 0x32][1]);
        }
    }
    assert(seq![0x54u8, 0x44, 0x52, 0x43] != seq![0x54u8, 0x50, 0x45, 0x31]) by {
        if seq![0x54u8, 0x44, 0x52, 0x43] == seq![0x54u8, 0x50, 0x45, 0x31] {
            assert(seq![0x54u8, 0x44, 0x52, 0x43][1] == seq![0x54u8, 0x50, 0x45, 0x31][1]);
        }
    }
    assert(seq![0x54u8, 0x44, 0x52, 0x43] != seq![0x54u8, 0x50, 0x45, 0x32]) by {
        if seq![0x54u8, 0x44, 0x52, 0x43] == seq![0x54u8, 0x50, 0x45, 0x32] {
            assert(seq![0x54u8, 0x44, 0x52, 0x43][1] == seq![0x54u8, 0x50, 0x45, 0x32][1]);
        }
    }
    assert(seq![0x54u8, 0x44, 0x52, 0x43] != seq![0x54u8, 0x41, 0x4C, 0x42]) by {
        if seq![0x54u8, 0x44, 0x52, 0x43] == seq![0x54u8, 0x41, 0x4C, 0x42] {
            assert(seq![0x54u8, 0x44, 0x52, 0x43][1] == seq![0x54u8, 0x41, 0x4C, 0x42][1]);
        }
    }
    assert(seq![0x54u8, 0x44, 0x52, 0x43] != seq![0x54u8, 0x43, 0x4F, 0x4E]) by {
        if seq![0x54u8, 0x44, 0x52, 0x43] == seq![0x54u8, 0x43, 0x4F, 0x4E] {
            assert(seq![0x54u8, 0x44, 0x52, 0x43][1] == seq![0x54u8, 0x43, 0x4F, 0x4E][1]);
        }
    }
    assert(seq![0x54u8, 0x59, 0x45, 0x52] != seq![0x54u8, 0x49, 0x54, 0x32]) by {
        if seq![0x54u8, 0x59, 0x45, 0x52] == seq![0x54u8, 0x49, 0x54, 0x32] {
            assert(seq![0x54u8, 0x59, 0x45, 0x52][1] == seq![0x54u8, 0x49, 0x54, 0x32][1]);
        }
    }
    assert(seq![0x54u8, 0x59, 0x45, 0x52] != seq![0x54u8, 0x50, 0x45, 0x31]) by {
        if seq![0x54u8, 0x59, 0x45, 0x52] == seq![0x54u8, 0x50, 0x45, 0x31] {
            assert(seq![0x54u8, 0x59, 0x45, 0x52][1] == seq![0x54u8, 0x50, 0x45, 0x31][1]);
        }
    }
    assert(seq![0x54u8, 0x59, 0x45, 0x52] != seq![0x54u8, 0x50, 0x45, 0x32]) by {
        if seq![0x54u8, 0x59, 0x45, 0x52] == seq![0x54u8, 0x50, 0x45, 0x32] {
            assert(seq![0x54u8, 0x59, 0x45, 0x52][1] == seq![0x54u8, 0x50, 0x45, 0x32][1]);
        }
    }
    assert(seq![0x54u8, 0x59, 0x45, 0x52] != seq![0x54u8, 0x41, 0x4C, 0x42]) by {
        if seq![0x54u8, 0x59, 0x45, 0x52] == seq![0x54u8, 0x41, 0x4C, 0x42] {
            assert(seq![0x54u8, 0x59, 0x45, 0x52][1] == seq![0x54u8, 0x41, 0x4C, 0x42][1]);
        }
    }
    assert(seq![0x54u8, 0x59, 0x45, 0x52] != seq![0x54u8, 0x43, 0x4F, 0x4E]) by {
        if seq![0x54u8, 0x59, 0x45, 0x52] == seq![0x54u8, 0x43, 0x4F, 0x4E] {
            assert(seq![0x54u8, 0x59, 0x45, 0x52][1] == seq![0x54u8, 0x43, 0x4F, 0x4E][1]);
        }
    }
    assert(seq![0x54u8, 0x4F, 0x52, 0x59] != seq![0x54u8, 0x49, 0x54, 0x32]) by {
        if seq![0x54u8, 0x4F, 0x52, 0x59] == seq![0x54u8, 0x49, 0x54, 0x32] {
            assert(seq![0x54u8, 0x4F, 0x52, 0x59][1] == seq![0x54u8, 0x49, 0x54, 0x32][1]);
        }
    }
    assert(seq![0x54u8, 0x4F, 0x52, 0x59] != seq![0x54u8, 0x50, 0x45, 0x31]) by {
        if seq![0x54u8, 0x4F, 0x52, 0x59] == seq![0x54u8, 0x50, 0x45, 0x31] {
            assert(seq![0x54u8, 0x4F, 0x52, 0x59][1] == seq![0x54u8, 0x50, 0x45, 0x31][1]);
        }
    }
    assert(seq![0x54u8, 0x4F, 0x52, 0x59] != seq![0x54u8, 0x50, 0x45, 0x32]) by {
        if seq![0x54u8, 0x4F, 0x52, 0x59] == seq![0x54u8, 0x50, 0x45, 0x32] {
            assert(seq![0x54u8, 0x4F, 0x52, 0x59][1] == seq![0x54u8, 0x50, 0x45, 0x32][1]);
        }
    }
    assert(seq![0x54u8, 0x4F, 0x52, 0x59] != seq![0x54u8, 0x41, 0x4C, 0x42]) by {
        if seq![0x54u8, 0x4F, 0x52, 0x59] == seq![0x54u8, 0x41, 0x4C, 0x42] {
            assert(seq![0x54u8, 0x4F, 0x52, 0x59][1] == seq![0x54u8, 0x41, 0x4C, 0x42][1]);
        }
    }
    assert(seq![0x54u8, 0x4F, 0x52, 0x59] != seq![0x54u8, 0x43, 0x4F, 0x4E]) by {
        if seq![0x54u8, 0x4F, 0x52, 0x59] == seq![0x54u8, 0x43, 0x4F, 0x4E] {
            assert(seq![0x54u8, 0x4F, 0x52, 0x59][1] == seq![0x54u8, 0x43, 0x4F, 0x4E][1]);
        }
    }
    assert(seq![0x54u8, 0x52, 0x43, 0x4B] != seq![0x54u8, 0x49, 0x54, 0x32]) by {
        if seq![0x54u8, 0x52, 0x43, 0x4B] == seq![0x54u8, 0x49, 0x54, 0x32] {
            assert(seq![0x54u8, 0x52, 0x43, 0x4B][1] == seq![0x54u8, 0x49, 0x54, 0x32][1]);
        }
    }
    assert(seq![0x54u8, 0x52, 0x43, 0x4B] != seq![0x54u8, 0x50, 0x45, 0x31]) by {
        if seq![0x54u8, 0x52, 0x43, 0x4B] == seq![0x54u8, 0x50, 0x45, 0x31] {
            assert(seq![0x54u8, 0x52, 0x43, 0x4B][1] == seq![0x54u8, 0x50, 0x45, 0x31][1]);
        }
    }
    assert(seq![0x54u8, 0x52, 0x43, 0x4B] != seq![0x54u8, 0x50, 0x45, 0x32]) by {
        if seq![0x54u8, 0x52, 0x43, 0x4B] == seq![0x54u8, 0x50, 0x45, 0x32] {
            assert(seq![0x54u8, 0x52, 0x43, 0x4B][1] == seq![0x54u8, 0x50, 0x45, 0x32][1]);
        }
    }
    assert(seq![0x54u8, 0x52, 0x43, 0x4B] != seq![0x54u8, 0x41, 0x4C, 0x42]) by {
        if seq![0x54u8, 0x52, 0x43, 0x4B] == seq![0x54u8, 0x41, 0x4C, 0x42] {
            assert(seq![0x54u8, 0x52, 0x43, 0x4B][1] == seq![0x54u8, 0x41, 0x4C, 0x42][1]);
        }
    }
    assert(seq![0x54u8, 0x52, 0x43, 0x4B] != seq![0x54u8, 0x43, 0x4F, 0x4E]) by {
        if seq![0x54u8, 0x52, 0x43, 0x4B] == seq![0x54u8, 0x43, 0x4F, 0x4E] {
            assert(seq![0x54u8, 0x52, 0x43, 0x4B][1] == seq![0x54u8, 0x43, 0x4F, 0x4E][1]);
        }
    }
    assert(seq![0x54u8, 0x52, 0x43, 0x4B] != seq![0x54u8, 0x44, 0x52, 0x43]) by {
        if seq![0x54u8, 0x52, 0x43, 0x4B] == seq![0x54u8, 0x44, 0x52, 0x43] {
            assert(seq![0x54u8, 0x52, 0x43, 0x4B][1] == seq![0x54u8, 0x44, 0x52, 0x43][1]);
        }
    }
    assert(seq![0x54u8, 0x52, 0x43, 0x4B] != seq![0x54u8, 0x59, 0x45, 0x52]) by {
        if seq![0x54u8, 0x52, 0x43, 0x4B] == seq![0x54u8, 0x59, 0x45, 0x52] {
            assert(seq![0x54u8, 0x52, 0x43, 0x4B][1] == seq![0x54u8, 0x59, 0x45, 0x52][1]);
        }
    }
    assert(seq![0x54u8, 0x52, 0x43, 0x4B] != seq![0x54u8, 0x4F, 0x52, 0x59]) by {
        if seq![0x54u8, 0x52, 0x43, 0x4B] == seq![0x54u8, 0x4F, 0x52, 0x59] {
            assert(seq![0x54u8, 0x52, 0x43, 0x4B][1] == seq![0x54u8, 0x4F, 0x52, 0x59][1]);
        }
    }
    assert(seq![0x54u8, 0x52, 0x4B] != seq![0x54u8, 0x54, 0x32]) by {
        if seq![0x54u8, 0x52, 0x4B] == seq![0x54u8, 0x54, 0x32] {
            assert(seq![0x54u8, 0x52, 0x4B][1] == seq![0x54u8, 0x54, 0x32][1]);
        }
    }
    assert(seq![0x54u8, 0x52, 0x4B] != seq![0x54u8, 0x50, 0x31]) by {
        if seq![0x54u8, 0x52, 0x4B] == seq![0x54u8, 0x50, 0x31] {
            assert(seq![0x54u8, 0x52, 0x4B][1] == seq![0x54u8, 0x50, 0x31][1]);
        }
    }
    assert(seq![0x54u8, 0x52, 0x4B] != seq![0x54u8, 0x50, 0x32]) by {
        if seq![0x54u8, 0x52, 0x4B] == seq![0x54u8, 0x50, 0x32] {
            assert(seq![0x54u8, 0x52, 0x4B][1] == seq![0x54u8, 0x50, 0x32][1]);
        }
    }
    assert(seq![0x54u8, 0x52, 0x4B] != seq![0x54u8, 0x41, 0x4C]) by {
        if seq![0x54u8, 0x52, 0x4B] == seq![0x54u8, 0x41, 0x4C] {
            assert(seq![0x54u8, 0x52, 0x4B][1] == seq![0x54u8, 0x41, 0x4C][1]);
        }
    }
    assert(seq![0x54u8, 0x52, 0x4B] != seq![0x54u8, 0x43, 0x4F]) by {
        if seq![0x54u8, 0x52, 0x4B] == seq![0x54u8, 0x43, 0x4F] {
            assert(seq![0x54u8, 0x52, 0x4B][1] == seq![0x54u8, 0x43, 0x4F][1]);
        }
    }
    assert(seq![0x54u8, 0x50, 0x4F, 0x53] != seq![0x54u8, 0x49, 0x54, 0x32]) by {
        if seq![0x54u8, 0x50, 0x4F, 0x53] == seq![0x54u8, 0x49, 0x54, 0x32] {
            assert(seq![0x54u8, 0x50, 0x4F, 0x53][1] == seq![0x54u8, 0x49, 0x54, 0x32][1]);
        }
    }
    assert(seq![0x54u8, 0x50, 0x4F, 0x53] != seq![0x54u8, 0x50, 0x45, 0x31]) by {
        if seq![0x54u8, 0x50, 0x4F, 0x53] == seq![0x54u8, 0x50, 0x45, 0x31] {
            assert(seq![0x54u8, 0x50, 0x4F, 0x53][2] == seq![0x54u8, 0x50, 0x45, 0x31][2]);
        }
    }
    assert(seq![0x54u8, 0x50, 0x4F, 0x53] != seq![0x54u8, 0x50, 0x45, 0x32]) by {
        if seq![0x54u8, 0x50, 0x4F, 0x53] == seq![0x54u8, 0x50, 0x45, 0x32] {
            assert(seq![0x54u8, 0x50, 0x4F, 0x53][2] == seq![0x54u8, 0x50, 0x45, 0x32][2]);
        }
    }
    assert(seq![0x54u8, 0x50, 0x4F, 0x53] != seq![0x54u8, 0x41, 0x4C, 0x42]) by {
        if seq![0x54u8, 0x50, 0x4F, 0x53] == seq![0x54u8, 0x41, 0x4C, 0x42] {
            assert(seq![0x54u8, 0x50, 0x4F, 0x53][1] == seq![0x54u8, 0x41, 0x4C, 0x42][1]);
        }
    }
    assert(seq![0x54u8, 0x50, 0x4F, 0x53] != seq![0x54u8, 0x43, 0x4F, 0x4E]) by {
        if seq![0x54u8, 0x50, 0x4F, 0x53] == seq![0x54u8, 0x43, 0x4F, 0x4E] {
            assert(seq![0x54u8, 0x50, 0x4F, 0x53][1] == seq![0x54u8, 0x43, 0x4F, 0x4E][1]);
        }
    }
    assert(seq![0x54u8, 0x50, 0x4F, 0x53] != seq![0x54u8, 0x44, 0x52, 0x43]) by {
        if seq![0x54u8, 0x50, 0x4F, 0x53] == seq![0x54u8, 0x44, 0x52, 0x43] {
            assert(seq![0x54u8, 0x50, 0x4F, 0x53][1] == seq![0x54u8, 0x44, 0x52, 0x43][1]);
        }
    }
    assert(seq![0x54u8, 0x50, 0x4F, 0x53] != seq![0x54u8, 0x59, 0x45, 0x52]) by {
        if seq![0x54u8, 0x50, 0x4F, 0x53] == seq![0x54u8, 0x59, 0x45, 0x52] {
            assert(seq![0x54u8, 0x50, 0x4F, 0x53][1] == seq![0x54u8, 0x59, 0x45, 0x52][1]);
        }
    }
    assert(seq![0x54u8, 0x50, 0x4F, 0x53] != seq![0x54u8, 0x4F, 0x52, 0x59]) by {
        if seq![0x54u8, 0x50, 0x4F, 0x53] == seq![0x54u8, 0x4F, 0x52, 0x59] {
            assert(seq![0x54u8, 0x50, 0x4F, 0x53][1] == seq![0x54u8, 0x4F, 0x52, 0x59][1]);
        }
    }
    assert(seq![0x54u8, 0x50, 0x4F, 0x53] != seq![0x54u8, 0x52, 0x43, 0x4B]) by {
        if seq![0x54u8, 0x50, 0x4F, 0x53] == seq![0x54u8, 0x52, 0x43, 0x4B] {
            assert(seq![0x54u8, 0x50, 0x4F, 0x53][1] == seq![0x54u8, 0x52, 0x43, 0x4B][1]);
        }
    }
    assert(seq![0x54u8, 0x50, 0x41] != seq![0x54u8, 0x54, 0x32]) by {
        if seq![0x54u8, 0x50, 0x41] == seq![0x54u8, 0x54, 0x32] {
            assert(seq![0x54u8, 0x50, 0x41][1] == seq![0x54u8, 0x54, 0x32][1]);
        }
    }
    assert(seq![0x54u8, 0x50, 0x41] != seq![0x54u8, 0x50, 0x31]) by {
        if seq![0x54u8, 0x50, 0x41] == seq![0x54u8, 0x50, 0x31] {
            assert(seq![0x54u8, 0x50, 0x41][2] == seq![0x54u8, 0x50, 0x31][2]);
        }
    }
    assert(seq![0x54u8, 0x50, 0x41] != seq![0x54u8, 0x50, 0x32]) by {
        if seq![0x54u8, 0x50, 0x41] == seq![0x54u8, 0x50, 0x32] {
            assert(seq![0x54u8, 0x50, 0x41][2] == seq![0x54u8, 0x50, 0x32][2]);
        }
    }
    assert(seq![0x54u8, 0x50, 0x41] != seq![0x54u8, 0x41, 0x4C]) by {
        if seq![0x54u8, 0x50, 0x41] == seq![0x54u8, 0x41, 0x4C] {
            assert(seq![0x54u8, 0x50, 0x41][1] == seq![0x54u8, 0x41, 0x4C][1]);
        }
    }
    assert(seq![0x54u8, 0x50, 0x41] != seq![0x54u8, 0x43, 0x4F]) by {
        if seq![0x54u8, 0x50, 0x41] == seq![0x54u8, 0x43, 0x4F] {
            assert(seq![0x54u8, 0x50, 0x41][1] == seq![0x54u8, 0x43, 0x4F][1]);
        }
    }
    assert(seq![0x54u8, 0x50, 0x41] != seq![0x54u8, 0x52, 0x4B]) by {
        if seq![0x54u8, 0x50, 0x41] == seq![0x54u8, 0x52, 0x4B] {
            assert(seq![0x54u8, 0x50, 0x41][1] == seq![0x54u8, 0x52, 0x4B][1]);
        }
    }
}

/// A frame fills only the field of its id, and only while it is empty; the
/// numbers take the `n` of an `n/total` text and the totals only grow.
pub proof fn law_id3_frame_fills_its_field(t: TagsView, data: Seq<u8>)
    ensures
        id3_apply(t, Id3Field::Title, data) == (TagsView { title: fill(t.title, spec_extract_text(data)), ..t }),
        id3_apply(t, Id3Field::Artist, data) == (TagsView { artist: fill(t.artist, spec_extract_text(data)), ..t }),
        id3_apply(t, Id3Field::AlbumArtist, data) == (TagsView {
            album_artist: fill(t.album_artist, spec_extract_text(data)),
            ..t
        }),
        id3_apply(t, Id3Field::Album, data) == (TagsView { album: fill(t.album, spec_extract_text(data)), ..t }),
        id3_apply(t, Id3Field::Genre, data) == (TagsView { genre: fill(t.genre, spec_extract_text(data)), ..t }),
        id3_apply(t, Id3Field::Year, data) == (TagsView { year: fill(t.year, spec_extract_text(data)), ..t }),
        id3_apply(t, Id3Field::Track, data).track_number == (if t.track_number == 0 {
            spec_parse_number_pair(spec_extract_text(data)).0
        } else {
            t.track_number
        }),
        id3_apply(t, Id3Field::Track, data).track_total >= t.track_total,
        id3_apply(t, Id3Field::Track, data).disc_number == t.disc_number,
        id3_apply(t, Id3Field::Disc, data).disc_number == (if t.disc_number == 0 {
            spec_parse_number_pair(spec_extract_text(data)).0
        } else {
            t.disc_number
        }),
        id3_apply(t, Id3Field::Disc, data).disc_total >= t.disc_total,
        id3_apply(t, Id3Field::Disc, data).track_number == t.track_number,
        id3_apply(t, Id3Field::Other, data) == t,
{
}

/// The year frames of ID3v2.3/2.4: TDRC, TYER and TORY each fill the
/// year, and no other field.
pub proof fn law_id3_year_ids(t: TagsView, id: Seq<u8>, data: Seq<u8>)
    requires
        id == seq![0x54u8, 0x44, 0x52, 0x43] || id == seq![0x54u8, 0x59, 0x45, 0x52] || id == seq![
            0x54u8,
            0x4F,
            0x52,
            0x59,
        ],
    ensures
        id3_apply(t, spec_id3_field(id), data) == (TagsView {
            year: match t.year {
                Some(y) => Some(y),
                None => Some(spec_extract_text(data)),
            },
            ..t
        }),
{
    assert(id[0] == 0x54u8);
    assert(id != id4(0x54, 0x49, 0x54, 0x32)) by {
        if id == id4(0x54, 0x49, 0x54, 0x32) {
            assert(id[1] == 0x49u8);
        }
    }
    assert(id != id4(0x54, 0x50, 0x45, 0x31)) by {
        if id == id4(0x54, 0x50, 0x45, 0x31) {
            assert(id[1] == 0x50u8);
        }
    }
    assert(id != id4(0x54, 0x50, 0x45, 0x32)) by {
        if id == id4(0x54, 0x50, 0x45, 0x32) {
            assert(id[1] == 0x50u8);
        }
    }
    assert(id != id4(0x54, 0x41, 0x4C, 0x42)) by {
        if id == id4(0x54, 0x41, 0x4C, 0x42) {
            assert(id[1] == 0x41u8);
        }
    }
    assert(id != id4(0x54, 0x43, 0x4F, 0x4E)) by {
        if id == id4(0x54, 0x43, 0x4F, 0x4E) {
            assert(id[1] == 0x43u8);
        }
    }
    assert(id.len() == 4);
}

/// A tag holding a single year frame (TDRC, TYER or TORY) gives its text as
/// the year, and nothing else: an ID3v2.3 or v2.4 tag whose size covers the
/// buffer, with one frame whose size covers the rest.
pub proof fn law_id3_single_year_frame(buf: Seq<u8>)
    requires
        buf.len() > 20,
        buf.subrange(0, 3) == seq![0x49u8, 0x44, 0x33],
        buf[3] == 3 || buf[3] == 4,
        syncsafe(buf.skip(6)) == buf.len() - 10,
        buf[3] == 3 ==> be32(buf.skip(14)) == buf.len() - 20,
        buf[3] == 4 ==> syncsafe(buf.skip(14)) == buf.len() - 20,
        buf.subrange(10, 14) == seq![0x54u8, 0x44, 0x52, 0x43] || buf.subrange(10, 14) == seq![
            0x54u8,
            0x59,
            0x45,
            0x52,
        ] || buf.subrange(10, 14) == seq![0x54u8, 0x4F, 0x52, 0x59],
    ensures
        spec_parse_id3(buf).year == Some(spec_extract_text(buf.skip(20))),
        spec_parse_id3(buf).title is None,
        spec_parse_id3(buf).artist is None,
        spec_parse_id3(buf).album_artist is None,
        spec_parse_id3(buf).album is None,
        spec_parse_id3(buf).genre is None,
        spec_parse_id3(buf).track_number == 0,
        spec_parse_id3(buf).disc_number == 0,
{
    assert(buf.subrange(0, 3) == magic_id3());
    assert(bytes_at(buf, 0, magic_id3()));
    let ver = buf[3];
    let body = buf.subrange(10, buf.len() as int);
    assert(body.skip(4) =~= buf.skip(14));
    assert(frame_len(body, ver, 0) == buf.len() - 20);
    let id = body.subrange(0, 4);
    assert(id =~= buf.subrange(10, 14));
    let data = body.subrange(10, body.len() as int);
    assert(data =~= buf.skip(20));
    law_id3_year_ids(empty_tags(), id, data);
    let t1 = id3_apply(empty_tags(), spec_id3_field(id), data);
    assert(id3_walk(body, ver, body.len() as int, t1) == t1);
    assert(id3_walk(body, ver, 0, empty_tags()) == t1);
}

/// Minimal ID3v2.2/2.3/2.4 and ID3v1 reader (see [`spec_parse_id3`]).
pub fn parse_id3(buf: &[u8]) -> (r: Tags)
    ensures
        r@ == spec_parse_id3(buf@),
{
    let mut tags = Tags::new();
    let id3: [u8; 3] = [0x49, 0x44, 0x33];
    let tag: [u8; 3] = [0x54, 0x41, 0x47];
    assert(id3@ =~= magic_id3());
    assert(tag@ =~= magic_tag());
    if buf.len() >= 10 && has_bytes_at(buf, 0, &id3) {
        let ver = buf[3];
        let sz = syncsafe_at(buf, 6);
        let end = if sz < buf.len() - 10 {
            10 + sz
        } else {
            buf.len()
        };
        let body = slice_range(buf, 10, end);
        let bl = body.len();
        let idlen: usize = if ver == 2 {
            3
        } else {
            4
        };
        let mut pos: usize = 0;
        let mut go = true;
        while go
            invariant
                bl == body@.len(),
                idlen == (if ver == 2 {
                    3usize
                } else {
                    4usize
                }),
                pos <= bl,
                id3_walk(body@, ver, pos as int, tags@) == id3_walk(body@, ver, 0, empty_tags()),
                !go ==> id3_walk(body@, ver, pos as int, tags@) == tags@,
            decreases bl - pos + (if go {
                1int
            } else {
                0int
            }),
        {
            if bl - pos < 10 {
                go = false;
            } else {
                let fl: usize = if ver == 3 {
                    read_u32_be_at(body, pos + 4) as usize
                } else {
                    syncsafe_at(body, pos + 4)
                };
                if fl == 0 || fl > bl - pos - 10 {
                    go = false;
                } else {
                    let f = id3_field(body, pos, idlen);
                    let data = slice_range(body, pos + 10, pos + 10 + fl);
                    apply_frame(&mut tags, f, data);
                    pos = pos + 10 + fl;
                }
            }
        }
        return tags;
    } else if buf.len() >= 128 && has_bytes_at(buf, 0, &tag) {
        tags.title = v1_text(buf, 3, 33);
        tags.artist = v1_text(buf, 33, 63);
        tags.album = v1_text(buf, 63, 93);
    }
    tags
}

/// Where the tag to read starts in a file tail: an ID3v1 tag in the last
/// 128 bytes, else the last "ID3" header that leaves room for a tag header.
pub open spec fn spec_tail_tag_start(tail: Seq<u8>) -> Option<int> {
    if tail.len() >= 128 && bytes_at(tail, tail.len() - 128, magic_tag()) {
        Some(tail.len() - 128)
    } else {
        last_id3_before(tail, tail.len() - 10)
    }
}

/// The largest `i < limit` where "ID3" starts.
pub open spec fn last_id3_before(tail: Seq<u8>, limit: int) -> Option<int>
    decreases limit,
{
    if limit <= 0 {
        None
    } else if bytes_at(tail, limit - 1, magic_id3()) {
        Some(limit - 1)
    } else {
        last_id3_before(tail, limit - 1)
    }
}

/// Start of the tag in a file tail (see [`spec_tail_tag_start`]).
pub fn tail_tag_start(tail: &[u8]) -> (r: Option<usize>)
    ensures
        match r {
            Some(i) => spec_tail_tag_start(tail@) == Some(i as int),
            None => spec_tail_tag_start(tail@) is None,
        },
{
    let id3: [u8; 3] = [0x49, 0x44, 0x33];
    let tag: [u8; 3] = [0x54, 0x41, 0x47];
    assert(id3@ =~= magic_id3());
    assert(tag@ =~= magic_tag());
    let n = tail.len();
    if n >= 128 && has_bytes_at(tail, n - 128, &tag) {
        return Some(n - 128);
    }
    let mut limit: usize = if n >= 10 {
        n - 10
    } else {
        0
    };
    assert(last_id3_before(tail@, n - 10) == last_id3_before(tail@, limit as int)) by {
        if n < 10 {
            assert(last_id3_before(tail@, n - 10) is None);
        }
    }
    while limit > 0
        invariant
            limit <= n,
            n == tail@.len(),
            last_id3_before(tail@, limit as int) == last_id3_before(tail@, n - 10),
            id3@ == magic_id3(),
            !(n >= 128 && bytes_at(tail@, n - 128, magic_tag())),
        decreases limit,
    {
        if has_bytes_at(tail, limit - 1, &id3) {
            assert(last_id3_before(tail@, limit as int) == Some(limit - 1));
            return Some(limit - 1);
        }
        assert(last_id3_before(tail@, limit as int) == last_id3_before(tail@, limit - 1));
        limit -= 1;
    }
    None
}

// ---------------------------------------------------------------------------
// DSDIFF container
// ---------------------------------------------------------------------------

/// `x` reduced modulo 2^64 (unsigned wrap-around).
pub open spec fn wrap64(x: int) -> u64 {
    (x % 0x1_0000_0000_0000_0000) as u64
}

/// A chunk's size rounded up to an even length (wrapping like `u64`).
pub open spec fn padded_size(size: u64) -> u64 {
    wrap64(size + size % 2)
}

pub open spec fn id_frm8() -> Seq<u8> {
    seq![0x46u8, 0x52, 0x4D, 0x38]
}

pub open spec fn id_prop() -> Seq<u8> {
    seq![0x50u8, 0x52, 0x4F, 0x50]
}

pub open spec fn id_snd() -> Seq<u8> {
    seq![0x53u8, 0x4E, 0x44, 0x20]
}

pub open spec fn id_fs() -> Seq<u8> {
    seq![0x46u8, 0x53, 0x20, 0x20]
}

pub open spec fn id_chnl() -> Seq<u8> {
    seq![0x43u8, 0x48, 0x4E, 0x4C]
}

pub open spec fn id_compression() -> Seq<u8> {
    seq![0x43u8, 0x4D, 0x50, 0x52]
}

/// Channel count of a CHNL property: the first 16-bit field when it is
/// 1..=6, else the field after a 4-byte version prefix, else stereo.
pub open spec fn chnl_channels(d: Seq<u8>) -> usize {
    let v1 = if d.len() >= 2 {
        be16(d)
    } else {
        0
    };
    let v2 = if d.len() >= 6 {
        be16(d.skip(4))
    } else {
        0
    };
    if 1 <= v1 <= 6 {
        v1 as usize
    } else if 1 <= v2 <= 6 {
        v2 as usize
    } else {
        2
    }
}

/// A forward skip of `amount` bytes from `pos`. An amount that does not fit
/// a signed 64-bit offset is refused as an invalid seek: a reader that
/// passed it on as a signed offset would seek backwards instead (into bytes
/// already read, possibly the same chunk again, without end) or fail with
/// the operating system's error text; refusing keeps the walk forward-only.
pub open spec fn skip_to(pos: int, amount: u64) -> Option<int> {
    if amount > i64::MAX {
        None
    } else {
        Some(pos + amount)
    }
}

/// Measure that decreases as the reader moves forward through `data`.
pub open spec fn left(data: Seq<u8>, pos: int) -> int {
    if pos <= data.len() {
        data.len() - pos
    } else {
        0
    }
}

/// The children of the "SND " property chunk, read from `pos` while at least
/// a child header's worth of the chunk remains: sample rate ("FS  "),
/// channels ("CHNL"), compression ("CMPR", only plain DSD). A child that does
/// not fit in what remains stops the walk (its header already read). The
/// result is the reader position, what remains, the rate and the channels.
#[verifier::opaque]
pub open spec fn dff_props(
    data: Seq<u8>,
    pos: int,
    remaining: u64,
    rate: u32,
    ch: usize,
) -> Result<(int, u64, u32, usize), Seq<char>>
    decreases left(data, pos),
{
    if remaining < 12 {
        Ok((pos, remaining, rate, ch))
    } else if pos < 0 || pos + 12 > data.len() {
        Err("DFF: bad PROP child"@)
    } else {
        let sid = data.subrange(pos, pos + 4);
        let ssize = be64(data.skip(pos + 4)) as u64;
        let step = wrap64(12 + padded_size(ssize));
        if remaining < step {
            Ok((pos + 12, remaining, rate, ch))
        } else if pos + 12 + ssize > data.len() {
            Err("DFF: bad PROP child data"@)
        } else {
            let d = data.subrange(pos + 12, pos + 12 + ssize);
            match dff_child(sid, d, rate, ch) {
                Err(e) => Err(e),
                Ok((rate2, ch2)) => dff_props(
                    data,
                    pos + 12 + ssize,
                    (remaining - step) as u64,
                    rate2,
                    ch2,
                ),
            }
        }
    }
}

/// One unfolding of [`dff_props`].
pub proof fn lemma_dff_props_unfold(data: Seq<u8>, pos: int, remaining: u64, rate: u32, ch: usize)
    ensures
        dff_props(data, pos, remaining, rate, ch) == if remaining < 12 {
            Ok((pos, remaining, rate, ch))
        } else if pos < 0 || pos + 12 > data.len() {
            Err("DFF: bad PROP child"@)
        } else {
            let ssize = be64(data.skip(pos + 4)) as u64;
            let step = wrap64(12 + padded_size(ssize));
            if remaining < step {
                Ok((pos + 12, remaining, rate, ch))
            } else if pos + 12 + ssize > data.len() {
                Err("DFF: bad PROP child data"@)
            } else {
                match dff_child(
                    data.subrange(pos, pos + 4),
                    data.subrange(pos + 12, pos + 12 + ssize),
                    rate,
                    ch,
                ) {
                    Err(e) => Err(e),
                    Ok((rate2, ch2)) => dff_props(
                        data,
                        pos + 12 + ssize,
                        (remaining - step) as u64,
                        rate2,
                        ch2,
                    ),
                }
            }
        },
{
    reveal_with_fuel(dff_props, 1);
}

/// One property child: the sample rate ("FS  "), the channels ("CHNL"), or a
/// compression check ("CMPR", only plain DSD is accepted).
pub open spec fn dff_child(sid: Seq<u8>, d: Seq<u8>, rate: u32, ch: usize) -> Result<
    (u32, usize),
    Seq<char>,
> {
    if sid == id_compression() && d.len() >= 4 && d.take(4) != id_dsd() {
        Err("DFF: DST-encoded data not supported"@)
    } else {
        Ok(
            (
                if sid == id_fs() && d.len() >= 4 {
                    be32(d) as u32
                } else {
                    rate
                },
                if sid == id_chnl() {
                    chnl_channels(d)
                } else {
                    ch
                },
            ),
        )
    }
}

/// The property walk never moves the reader backwards.
pub proof fn lemma_dff_props_forward(data: Seq<u8>, pos: int, remaining: u64, rate: u32, ch: usize)
    ensures
        dff_props(data, pos, remaining, rate, ch) matches Ok((q, _, _, _)) ==> q >= pos,
    decreases left(data, pos),
{
    reveal_with_fuel(dff_props, 1);
    if remaining >= 12 && !(pos < 0 || pos + 12 > data.len()) {
        let ssize = be64(data.skip(pos + 4)) as u64;
        let step = wrap64(12 + padded_size(ssize));
        if !(remaining < step) && !(pos + 12 + ssize > data.len()) {
            let d = data.subrange(pos + 12, pos + 12 + ssize);
            match dff_child(data.subrange(pos, pos + 4), d, rate, ch) {
                Err(_) => {},
                Ok((r2, c2)) => {
                    lemma_dff_props_forward(data, pos + 12 + ssize, (remaining - step) as u64, r2, c2);
                },
            }
        }
    }
}

/// One step of the chunk walk from the chunk header at `pos`.
pub enum DffStep {
    /// The walk fails with this message.
    Fail(Seq<char>),
    /// The "DSD " chunk: its data offset and size.
    Audio(u64, u64),
    /// Go on at the next chunk header, with the properties found so far.
    Next(int, u32, usize),
}

/// What the chunk header at `pos` leads to: a property chunk ("PROP" of
/// type "SND ") contributes its children, other property chunks and unknown
/// chunks are skipped, and the "DSD " chunk ends the walk.
pub open spec fn dff_step(data: Seq<u8>, pos: int, rate: u32, ch: usize) -> DffStep {
    if pos < 0 || pos + 12 > data.len() {
        DffStep::Fail("DFF: bad chunk header"@)
    } else {
        let id = data.subrange(pos, pos + 4);
        let size = be64(data.skip(pos + 4)) as u64;
        let p = pos + 12;
        if id == id_prop() {
            if p + 4 > data.len() {
                DffStep::Fail("DFF: bad PROP"@)
            } else if data.subrange(p, p + 4) != id_snd() {
                let amount: u64 = if padded_size(size) >= 4 {
                    (padded_size(size) - 4) as u64
                } else {
                    0
                };
                match skip_to(p + 4, amount) {
                    None => DffStep::Fail("DFF: invalid seek"@),
                    Some(q) => DffStep::Next(q, rate, ch),
                }
            } else {
                match dff_props(data, p + 4, wrap64(size - 4), rate, ch) {
                    Err(e) => DffStep::Fail(e),
                    Ok((q, rem, rate2, ch2)) => if rem > 0 {
                        match skip_to(q, rem) {
                            None => DffStep::Fail("DFF: invalid seek"@),
                            Some(q2) => DffStep::Next(q2, rate2, ch2),
                        }
                    } else {
                        DffStep::Next(q, rate2, ch2)
                    },
                }
            }
        } else if id == id_dsd() {
            DffStep::Audio(p as u64, size)
        } else if size == 0 {
            DffStep::Fail("DFF: zero-sized unknown chunk"@)
        } else {
            match skip_to(p, padded_size(size)) {
                None => DffStep::Fail("DFF: invalid seek"@),
                Some(q) => DffStep::Next(q, rate, ch),
            }
        }
    }
}

/// Every step moves past the chunk header it read.
pub proof fn lemma_dff_step_forward(data: Seq<u8>, pos: int, rate: u32, ch: usize)
    ensures
        dff_step(data, pos, rate, ch) matches DffStep::Next(q, _, _) ==> q >= pos + 12,
{
    if !(pos < 0 || pos + 12 > data.len()) {
        let size = be64(data.skip(pos + 4)) as u64;
        lemma_dff_props_forward(data, pos + 16, wrap64(size - 4), rate, ch);
    }
}

/// The chunk walk after the form header: properties are collected until
/// the "DSD " chunk, whose data offset and size end the walk.
#[verifier::opaque]
pub open spec fn dff_walk(data: Seq<u8>, pos: int, rate: u32, ch: usize) -> Result<
    (u64, u64, u32, usize),
    Seq<char>,
>
    decreases left(data, pos),
{
    proof {
        lemma_dff_step_forward(data, pos, rate, ch);
    }
    match dff_step(data, pos, rate, ch) {
        DffStep::Fail(e) => Err(e),
        DffStep::Audio(off, size) => Ok((off, size, rate, ch)),
        DffStep::Next(q, rate2, ch2) => if pos >= 0 && pos + 12 <= data.len() {
            dff_walk(data, q, rate2, ch2)
        } else {
            Err("DFF: bad chunk header"@)
        },
    }
}

/// One unfolding of [`dff_walk`].
pub proof fn lemma_dff_walk_unfold(data: Seq<u8>, pos: int, rate: u32, ch: usize)
    ensures
        dff_walk(data, pos, rate, ch) == match dff_step(data, pos, rate, ch) {
            DffStep::Fail(e) => Err(e),
            DffStep::Audio(off, size) => Ok((off, size, rate, ch)),
            DffStep::Next(q, rate2, ch2) => if pos >= 0 && pos + 12 <= data.len() {
                dff_walk(data, q, rate2, ch2)
            } else {
                Err("DFF: bad chunk header"@)
            },
        },
{
    reveal_with_fuel(dff_walk, 1);
}

/// A walk that starts past the data fails on its first header.
pub proof fn lemma_dff_walk_past_end(data: Seq<u8>, pos: int, rate: u32, ch: usize)
    requires
        pos > data.len(),
    ensures
        dff_walk(data, pos, rate, ch) == Err::<(u64, u64, u32, usize), Seq<char>>(
            "DFF: bad chunk header"@,
        ),
{
    lemma_dff_walk_unfold(data, pos, rate, ch);
}

/// A DSDIFF file read from its start (`data` holds its bytes; reading past
/// them fails as reading past the end of the file does).
pub open spec fn spec_parse_dff(data: Seq<u8>) -> Result<(DsdHeader, u64), Seq<char>> {
    if data.len() < 12 {
        Err("Cannot read DFF header: failed to fill whole buffer"@)
    } else if !bytes_at(data, 0, id_frm8()) {
        Err("Not a DFF file"@)
    } else if data.len() < 16 {
        Err("DFF: bad form type"@)
    } else if !bytes_at(data, 12, id_dsd()) {
        Err("DFF: unsupported form type"@)
    } else {
        match dff_walk(data, 16, 0, 0) {
            Err(e) => Err(e),
            Ok((off, size, rate, ch)) => if rate == 0 || rate % 64 != 0 {
                Err("DFF: unsupported sample rate "@ + dec(rate as nat))
            } else {
                Ok(
                    (
                        DsdHeader {
                            dsd_rate: rate,
                            channels: if ch == 0 {
                                2
                            } else {
                                ch
                            },
                            data_offset: off,
                            audio_bytes: size,
                            planar: false,
                            block_size: 1,
                        },
                        0,
                    ),
                )
            },
        }
    }
}

fn id_at(data: &[u8], pos: usize, a: u8, b: u8, c: u8, d: u8) -> (r: bool)
    requires
        pos + 4 <= data@.len(),
    ensures
        r == (data@.subrange(pos as int, pos + 4) == seq![a, b, c, d]),
{
    let r = data[pos] == a && data[pos + 1] == b && data[pos + 2] == c && data[pos + 3] == d;
    proof {
        let id = data@.subrange(pos as int, pos + 4);
        if r {
            assert(id =~= seq![a, b, c, d]);
        } else if id == seq![a, b, c, d] {
            assert(id[0] == a && id[1] == b && id[2] == c && id[3] == d);
        }
    }
    r
}

fn chnl_channels_exec(data: &[u8], lo: usize, hi: usize) -> (r: usize)
    requires
        lo <= hi <= data@.len(),
    ensures
        r == chnl_channels(data@.subrange(lo as int, hi as int)),
{
    let ghost d = data@.subrange(lo as int, hi as int);
    let v1: usize = if hi - lo >= 2 {
        (data[lo] as usize) * 0x100 + data[lo + 1] as usize
    } else {
        0
    };
    let v2: usize = if hi - lo >= 6 {
        (data[lo + 4] as usize) * 0x100 + data[lo + 5] as usize
    } else {
        0
    };
    proof {
        if hi - lo >= 6 {
            assert(d.skip(4)[0] == data@[lo + 4]);
            assert(d.skip(4)[1] == data@[lo + 5]);
        }
    }
    if 1 <= v1 && v1 <= 6 {
        v1
    } else if 1 <= v2 && v2 <= 6 {
        v2
    } else {
        2
    }
}

/// Parse a DSDIFF container from the bytes of the file (see
/// [`spec_parse_dff`]).
///
/// A chunk whose size asks for a skip beyond `i64::MAX` bytes is refused
/// with "DFF: invalid seek" (see [`skip_to`]), where a file reader given the
/// size as a signed offset would seek backwards or fail with an OS error:
/// the walk only ever moves forward, so it always ends.
pub fn parse_dff(data: &[u8]) -> (r: Result<(DsdHeader, u64), String>)
    ensures
        match (r, spec_parse_dff(data@)) {
            (Ok(a), Ok(b)) => a == b,
            (Err(e), Err(m)) => e@ == m,
            _ => false,
        },
{
    let n = data.len();
    if n < 12 {
        return Err(owned("Cannot read DFF header: failed to fill whole buffer"));
    }
    let frm8: [u8; 4] = [0x46, 0x52, 0x4D, 0x38];
    let dsd: [u8; 4] = [0x44, 0x53, 0x44, 0x20];
    assert(frm8@ =~= id_frm8());
    assert(dsd@ =~= id_dsd());
    if !has_bytes_at(data, 0, &frm8) {
        return Err(owned("Not a DFF file"));
    }
    if n < 16 {
        return Err(owned("DFF: bad form type"));
    }
    if !has_bytes_at(data, 12, &dsd) {
        return Err(owned("DFF: unsupported form type"));
    }
    let walked = dff_walk_exec(data, 16);
    match walked {
        Err(e) => Err(e),
        Ok((off, size, rate, ch)) => {
            if rate == 0 || rate % 64 != 0 {
                let mut e = owned("DFF: unsupported sample rate ");
                append_dec(&mut e, rate as u64);
                Err(e)
            } else {
                Ok(
                    (
                        DsdHeader {
                            dsd_rate: rate,
                            channels: if ch == 0 {
                                2
                            } else {
                                ch
                            },
                            data_offset: off,
                            audio_bytes: size,
                            planar: false,
                            block_size: 1,
                        },
                        0,
                    ),
                )
            }
        },
    }
}

fn dff_child_exec(data: &[u8], pos: usize, lo: usize, hi: usize, rate: u32, ch: usize) -> (r:
    Result<(u32, usize), String>)
    requires
        pos + 12 == lo,
        lo <= hi <= data@.len(),
    ensures
        match (r, dff_child(data@.subrange(pos as int, pos + 4), data@.subrange(lo as int, hi as int), rate, ch)) {
            (Ok(a), Ok(b)) => a == b,
            (Err(e), Err(m)) => e@ == m,
            _ => false,
        },
{
    let ghost d = data@.subrange(lo as int, hi as int);
    assert(id_fs() =~= seq![0x46u8, 0x53, 0x20, 0x20]);
    assert(id_chnl() =~= seq![0x43u8, 0x48, 0x4E, 0x4C]);
    assert(id_compression() =~= seq![0x43u8, 0x4D, 0x50, 0x52]);
    assert(id_dsd() =~= seq![0x44u8, 0x53, 0x44, 0x20]);
    if id_at(data, pos, 0x43, 0x4D, 0x50, 0x52) && hi - lo >= 4 {
        let ok = id_at(data, lo, 0x44, 0x53, 0x44, 0x20);
        assert(data@.subrange(lo as int, lo + 4) =~= d.take(4));
        if !ok {
            return Err(owned("DFF: DST-encoded data not supported"));
        }
    }
    let mut rate2 = rate;
    if id_at(data, pos, 0x46, 0x53, 0x20, 0x20) && hi - lo >= 4 {
        rate2 = read_u32_be_at(data, lo);
        assert(data@.skip(lo as int)[0] == d[0]);
        assert(data@.skip(lo as int)[1] == d[1]);
        assert(data@.skip(lo as int)[2] == d[2]);
        assert(data@.skip(lo as int)[3] == d[3]);
    }
    let mut ch2 = ch;
    if id_at(data, pos, 0x43, 0x48, 0x4E, 0x4C) {
        ch2 = chnl_channels_exec(data, lo, hi);
    }
    Ok((rate2, ch2))
}

#[verifier::rlimit(100)]
fn dff_props_exec(data: &[u8], pos0: usize, remaining0: u64, rate0: u32, ch0: usize) -> (r: Result<
    (usize, u64, u32, usize),
    String,
>)
    requires
        pos0 <= data@.len(),
    ensures
        match (r, dff_props(data@, pos0 as int, remaining0, rate0, ch0)) {
            (Ok((p, rem, rate, ch)), Ok((q, rem2, rate2, ch2))) => p == q && rem == rem2 && rate
                == rate2 && ch == ch2 && p <= data@.len(),
            (Err(e), Err(m)) => e@ == m,
            _ => false,
        },
{
    let n = data.len();
    let mut pos = pos0;
    let mut remaining = remaining0;
    let mut rate = rate0;
    let mut ch = ch0;
    loop
        invariant
            n == data@.len(),
            pos <= n,
            dff_props(data@, pos as int, remaining, rate, ch) == dff_props(
                data@,
                pos0 as int,
                remaining0,
                rate0,
                ch0,
            ),
        decreases n - pos,
    {
        proof {
            lemma_dff_props_unfold(data@, pos as int, remaining, rate, ch);
        }
        if remaining < 12 {
            return Ok((pos, remaining, rate, ch));
        }
        if n - pos < 12 {
            return Err(owned("DFF: bad PROP child"));
        }
        let ssize = read_u64_be_at(data, pos + 4);
        let spadded = ssize.wrapping_add(ssize % 2);
        let step = 12u64.wrapping_add(spadded);
        proof {
            assert(spadded == padded_size(ssize)) by {
                assert(ssize % 2 == ssize as int % 2);
            }
        }
        if remaining < step {
            return Ok((pos + 12, remaining, rate, ch));
        }
        if ssize > (n - pos - 12) as u64 {
            return Err(owned("DFF: bad PROP child data"));
        }
        let sz = ssize as usize;
        let lo = pos + 12;
        let hi = pos + 12 + sz;
        match dff_child_exec(data, pos, lo, hi, rate, ch) {
            Err(e) => {
                return Err(e);
            },
            Ok((r2, c2)) => {
                rate = r2;
                ch = c2;
            },
        }
        remaining = remaining - step;
        pos = hi;
    }
}

/// Exec form of [`dff_step`]; `Next` positions past the data are reported
/// as the failed header read they lead to.
#[verifier::rlimit(100)]
fn dff_step_exec(data: &[u8], pos: usize, rate: u32, ch: usize) -> (r: Result<
    Option<(u64, u64)>,
    (usize, u32, usize, Option<String>),
>)
    requires
        pos <= data@.len(),
    ensures
        match r {
            Ok(Some((off, size))) => dff_step(data@, pos as int, rate, ch) == DffStep::Audio(
                off,
                size,
            ),
            Ok(None) => false,
            Err((q, r2, c2, None)) => dff_step(data@, pos as int, rate, ch) == DffStep::Next(
                q as int,
                r2,
                c2,
            ) && q <= data@.len(),
            Err((_, _, _, Some(e))) => match dff_step(data@, pos as int, rate, ch) {
                DffStep::Fail(m) => e@ == m,
                DffStep::Next(q, r2, c2) => q > data@.len() && e@ == "DFF: bad chunk header"@
                    && dff_walk(data@, q, r2, c2) == Err::<(u64, u64, u32, usize), Seq<char>>(
                    "DFF: bad chunk header"@,
                ),
                _ => false,
            },
        },
{
    let n = data.len();
    if n - pos < 12 {
        return Err((pos, rate, ch, Some(owned("DFF: bad chunk header"))));
    }
    let size = read_u64_be_at(data, pos + 4);
    let padded = size.wrapping_add(size % 2);
    assert(padded == padded_size(size));
    let p = pos + 12;
    assert(id_prop() =~= seq![0x50u8, 0x52, 0x4F, 0x50]);
    assert(id_snd() =~= seq![0x53u8, 0x4E, 0x44, 0x20]);
    assert(id_dsd() =~= seq![0x44u8, 0x53, 0x44, 0x20]);
    if id_at(data, pos, 0x50, 0x52, 0x4F, 0x50) {
        if n - p < 4 {
            return Err((pos, rate, ch, Some(owned("DFF: bad PROP"))));
        }
        if !id_at(data, p, 0x53, 0x4E, 0x44, 0x20) {
            let amount: u64 = if padded >= 4 {
                padded - 4
            } else {
                0
            };
            if amount > 0x7FFF_FFFF_FFFF_FFFF {
                return Err((pos, rate, ch, Some(owned("DFF: invalid seek"))));
            }
            if amount > (n - p - 4) as u64 {
                proof {
                lemma_dff_walk_past_end(data@, p + 4 + amount, rate, ch);
            }
                return Err((pos, rate, ch, Some(owned("DFF: bad chunk header"))));
            }
            return Err((p + 4 + amount as usize, rate, ch, None));
        }
        let props = dff_props_exec(data, p + 4, size.wrapping_sub(4), rate, ch);
        assert(size.wrapping_sub(4) == wrap64(size - 4));
        match props {
            Err(e) => {
                return Err((pos, rate, ch, Some(e)));
            },
            Ok((q, rem, rate2, ch2)) => {
                if rem > 0 {
                    if rem > 0x7FFF_FFFF_FFFF_FFFF {
                        return Err((pos, rate, ch, Some(owned("DFF: invalid seek"))));
                    }
                    if rem > (n - q) as u64 {
                        proof {
                lemma_dff_walk_past_end(data@, q + rem, rate2, ch2);
            }
                        return Err((pos, rate, ch, Some(owned("DFF: bad chunk header"))));
                    }
                    return Err((q + rem as usize, rate2, ch2, None));
                }
                return Err((q, rate2, ch2, None));
            },
        }
    } else if id_at(data, pos, 0x44, 0x53, 0x44, 0x20) {
        return Ok(Some((p as u64, size)));
    } else {
        if size == 0 {
            return Err((pos, rate, ch, Some(owned("DFF: zero-sized unknown chunk"))));
        }
        if padded > 0x7FFF_FFFF_FFFF_FFFF {
            return Err((pos, rate, ch, Some(owned("DFF: invalid seek"))));
        }
        if padded > (n - p) as u64 {
            proof {
                lemma_dff_walk_past_end(data@, p + padded, rate, ch);
            }
            return Err((pos, rate, ch, Some(owned("DFF: bad chunk header"))));
        }
        return Err((p + padded as usize, rate, ch, None));
    }
}

fn dff_walk_exec(data: &[u8], pos0: usize) -> (r: Result<(u64, u64, u32, usize), String>)
    requires
        pos0 <= data@.len(),
    ensures
        match (r, dff_walk(data@, pos0 as int, 0, 0)) {
            (Ok(a), Ok(b)) => a == b,
            (Err(e), Err(m)) => e@ == m,
            _ => false,
        },
{
    let n = data.len();
    let mut pos = pos0;
    let mut rate: u32 = 0;
    let mut ch: usize = 0;
    loop
        invariant
            n == data@.len(),
            pos <= n,
            dff_walk(data@, pos as int, rate, ch) == dff_walk(data@, pos0 as int, 0, 0),
        decreases n - pos,
    {
        proof {
            lemma_dff_step_forward(data@, pos as int, rate, ch);
            lemma_dff_walk_unfold(data@, pos as int, rate, ch);
        }
        match dff_step_exec(data, pos, rate, ch) {
            Ok(Some((off, size))) => {
                return Ok((off, size, rate, ch));
            },
            Ok(None) => {
                return Err(String::new());
            },
            Err((q, r2, c2, None)) => {
                pos = q;
                rate = r2;
                ch = c2;
            },
            Err((_, _, _, Some(e))) => {
                return Err(e);
            },
        }
    }
}

} // verus!
