//! File metadata rules: container names by extension, the bit-depth label,
//! and the FLAC header walk that locates the audio payload.

use vstd::prelude::*;

use crate::text::{append_dec, append_str, owned, str_eq};

verus! {

pub open spec fn spec_format_name_for_ext(ext: Seq<char>) -> Seq<char> {
    if ext == "flac"@ || ext == "fla"@ {
        "FLAC"@
    } else if ext == "mp3"@ || ext == "mp2"@ {
        "MP3"@
    } else if ext == "wav"@ {
        "WAV"@
    } else if ext == "ogg"@ || ext == "oga"@ {
        "OGG"@
    } else if ext == "opus"@ {
        "Opus"@
    } else if ext == "m4a"@ || ext == "m4b"@ || ext == "aac"@ || ext == "mp4"@ {
        "M4A/AAC"@
    } else if ext == "alac"@ {
        "ALAC"@
    } else if ext == "aiff"@ || ext == "aif"@ {
        "AIFF"@
    } else if ext == "dsf"@ {
        "DSF"@
    } else if ext == "dff"@ {
        "DFF"@
    } else {
        "Unknown"@
    }
}

/// Container/format name for the "Format" column, by (lower-case) extension.
pub fn format_name_for_ext(ext: &str) -> (r: &'static str)
    ensures
        r@ == spec_format_name_for_ext(ext@),
{
    if str_eq(ext, "flac") || str_eq(ext, "fla") {
        "FLAC"
    } else if str_eq(ext, "mp3") || str_eq(ext, "mp2") {
        "MP3"
    } else if str_eq(ext, "wav") {
        "WAV"
    } else if str_eq(ext, "ogg") || str_eq(ext, "oga") {
        "OGG"
    } else if str_eq(ext, "opus") {
        "Opus"
    } else if str_eq(ext, "m4a") || str_eq(ext, "m4b") || str_eq(ext, "aac") || str_eq(ext, "mp4") {
        "M4A/AAC"
    } else if str_eq(ext, "alac") {
        "ALAC"
    } else if str_eq(ext, "aiff") || str_eq(ext, "aif") {
        "AIFF"
    } else if str_eq(ext, "dsf") {
        "DSF"
    } else if str_eq(ext, "dff") {
        "DFF"
    } else {
        "Unknown"
    }
}

/// The "Bit Depth" column: the DSD rate label, else "<bits> bit", else empty.
pub open spec fn spec_bit_depth_string(dsd_label: Option<Seq<char>>, bits: Option<u32>) -> Seq<char> {
    match dsd_label {
        Some(l) => l,
        None => match bits {
            Some(b) => if b > 0 {
                crate::text::dec(b as nat) + " bit"@
            } else {
                Seq::empty()
            },
            None => Seq::empty(),
        },
    }
}

/// Text of the "Bit Depth" column for a probed file.
pub fn bit_depth_string(dsd_label: Option<&str>, bits: Option<u32>) -> (r: String)
    ensures
        r@ == spec_bit_depth_string(
            match dsd_label {
                Some(l) => Some(l@),
                None => None,
            },
            bits,
        ),
{
    if let Some(label) = dsd_label {
        return owned(label);
    }
    match bits {
        Some(b) => if b > 0 {
            let mut s = String::new();
            append_dec(&mut s, b as u64);
            append_str(&mut s, " bit");
            s
        } else {
            String::new()
        },
        None => String::new(),
    }
}

// ---------------------------------------------------------------------------
// FLAC payload offset
// ---------------------------------------------------------------------------

/// Where the FLAC stream marker is expected, from the first bytes read.
#[derive(Debug, Clone, Copy, PartialEq, Eq, Structural)]
pub enum FlacStart {
    /// An ID3v2 tag comes first; "fLaC" must follow at this offset.
    AfterId3(u64),
    /// The file starts with "fLaC".
    AtStart,
    /// Not a FLAC file.
    NotFlac,
}

/// The ID3v2 size field as the bytes are combined: each shifted by a
/// multiple of 7 bits and or-ed together (set high bits are not masked).
pub open spec fn id3_size_field(a: u8, b: u8, c: u8, d: u8) -> u32 {
    ((a as u32) << 21u32) | ((b as u32) << 14u32) | ((c as u32) << 7u32) | (d as u32)
}

/// Classify the first bytes of a file (`n` of the 10 requested were read):
/// an ID3v2 header gives the offset after the tag (10 + syncsafe size),
/// "fLaC" gives the start; anything else is not FLAC.
pub open spec fn spec_flac_start(magic: Seq<u8>, n: int) -> FlacStart {
    if n >= 10 && magic[0] == 0x49 && magic[1] == 0x44 && magic[2] == 0x33 {
        FlacStart::AfterId3((10 + id3_size_field(magic[6], magic[7], magic[8], magic[9])) as u64)
    } else if magic[0] == 0x66 && magic[1] == 0x4C && magic[2] == 0x61 && magic[3] == 0x43 {
        FlacStart::AtStart
    } else {
        FlacStart::NotFlac
    }
}

/// Classify the first bytes of a FLAC candidate (see [`spec_flac_start`]).
/// The size bytes are combined as in [`id3_size_field`].
pub fn flac_start(magic: &[u8; 10], n: usize) -> (r: FlacStart)
    ensures
        r == spec_flac_start(magic@, n as int),
{
    if n >= 10 && magic[0] == 0x49 && magic[1] == 0x44 && magic[2] == 0x33 {
        let size = ((magic[6] as u32) << 21) | ((magic[7] as u32) << 14) | ((magic[8] as u32) << 7)
            | (magic[9] as u32);
        FlacStart::AfterId3(10 + size as u64)
    } else if magic[0] == 0x66 && magic[1] == 0x4C && magic[2] == 0x61 && magic[3] == 0x43 {
        FlacStart::AtStart
    } else {
        FlacStart::NotFlac
    }
}

/// A metadata block header: whether it is the last block, and the offset
/// of the next header (4 header bytes plus the 24-bit length).
pub open spec fn spec_flac_block(off: u64, hdr: Seq<u8>) -> (bool, int) {
    (hdr[0] >= 0x80, off + 4 + hdr[1] as int * 0x1_0000 + hdr[2] as int * 0x100 + hdr[3] as int)
}

/// Step over one metadata block header read at `off`.
pub fn flac_block(off: u64, hdr: &[u8; 4]) -> (r: (bool, u64))
    requires
        off + 4 + 0xFF_FFFF <= u64::MAX,
    ensures
        r.0 == spec_flac_block(off, hdr@).0,
        r.1 == spec_flac_block(off, hdr@).1,
{
    let last = hdr[0] >= 0x80;
    let len = (hdr[1] as u64) * 0x1_0000 + (hdr[2] as u64) * 0x100 + hdr[3] as u64;
    (last, off + 4 + len)
}

/// Bytes of audio payload: for FLAC the part after the metadata blocks
/// when that offset lies inside the file, otherwise the whole file.
pub fn payload_bytes(file_len: u64, audio_offset: Option<u64>) -> (r: u64)
    ensures
        r == match audio_offset {
            Some(o) => if o < file_len {
                (file_len - o) as u64
            } else {
                file_len
            },
            None => file_len,
        },
{
    match audio_offset {
        Some(o) => if o < file_len {
            file_len - o
        } else {
            file_len
        },
        None => file_len,
    }
}

} // verus!
