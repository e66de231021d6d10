use music_player_rs::audio::dsd::{
    decode_utf16, dsd_label_lower, dsf_header_fits, dsd_rate_label, extract_text, parse_dff, parse_dsf, parse_id3,
    read_u16_be, read_u32_be, read_u32_le, read_u64_be, read_u64_le, tail_tag_start, DsdHeader,
    dsd_group_bytes, dsd_seek_plan, RAW_GROUP,
};

fn id3_tag(frames: &[(&str, Vec<u8>)]) -> Vec<u8> {
    let mut buf = Vec::new();
    let mut body_bytes = 0usize;
    for (id, data) in frames {
        let fsize = data.len() as u32;
        body_bytes += 10 + fsize as usize;
        buf.extend_from_slice(id.as_bytes());
        buf.extend_from_slice(&fsize.to_be_bytes());
        buf.extend_from_slice(&[0, 0]);
        buf.extend_from_slice(data);
    }
    let mut t = b"ID3\x03\x00\x00".to_vec();
    let sz = body_bytes as u32;
    t.extend_from_slice(&[
        ((sz >> 21) & 0x7f) as u8,
        ((sz >> 14) & 0x7f) as u8,
        ((sz >> 7) & 0x7f) as u8,
        (sz & 0x7f) as u8,
    ]);
    t.extend_from_slice(&buf);
    t
}

#[test]
fn id3_utf16_tags() {
    let mut buf = Vec::new();
    let frames: &[(&str, &str)] =
        &[("TPE1", "Genesis"), ("TIT2", "Invisible Touch"), ("TALB", "Invisible Touch")];
    let mut body_bytes = 0usize;
    for (id, text) in frames {
        let mut data = vec![0xFF, 0xFE];
        for &c in text.as_bytes() {
            data.extend_from_slice(&(c as u16).to_le_bytes());
        }
        let fsize = data.len() as u32 + 1;
        body_bytes += 10 + fsize as usize;
        buf.extend_from_slice(id.as_bytes());
        buf.extend_from_slice(&fsize.to_be_bytes());
        buf.extend_from_slice(&[0, 0]);
        buf.push(1);
        buf.extend_from_slice(&data);
    }
    let tag = {
        let mut t = b"ID3\x03\x00\x00".to_vec();
        let sz = body_bytes as u32;
        t.extend_from_slice(&[
            ((sz >> 21) & 0x7f) as u8,
            ((sz >> 14) & 0x7f) as u8,
            ((sz >> 7) & 0x7f) as u8,
            (sz & 0x7f) as u8,
        ]);
        t.extend_from_slice(&buf);
        t
    };
    let tags = parse_id3(&tag);
    assert_eq!(tags.artist.as_deref(), Some("Genesis"), "{:?}", tags);
    assert_eq!(tags.title.as_deref(), Some("Invisible Touch"), "{:?}", tags);
    assert_eq!(tags.album.as_deref(), Some("Invisible Touch"), "{:?}", tags);
}

#[test]
fn id3_latin1_numbers_and_year() {
    let mut trck = vec![0u8];
    trck.extend_from_slice(b"3/12");
    let mut tyer = vec![0u8];
    tyer.extend_from_slice(b"1986-06-09");
    let mut tcon = vec![3u8];
    tcon.extend_from_slice("Рок".as_bytes());
    let tag = id3_tag(&[("TRCK", trck), ("TDRC", tyer), ("TCON", tcon)]);
    let tags = parse_id3(&tag);
    assert_eq!(tags.track_number, 3);
    assert_eq!(tags.track_total, 12);
    assert_eq!(tags.year.as_deref(), Some("1986-06-09"));
    assert_eq!(tags.genre.as_deref(), Some("Рок"));
}

#[test]
fn id3_without_header_gives_no_tags() {
    let tags = parse_id3(b"not an id3 tag at all");
    assert!(tags.title.is_none() && tags.artist.is_none());
    assert_eq!(tags.track_number, 0);
}

#[test]
fn byte_readers() {
    assert_eq!(read_u16_be(&[0x12, 0x34]), 0x1234);
    assert_eq!(read_u32_le(&[0x78, 0x56, 0x34, 0x12]), 0x1234_5678);
    assert_eq!(read_u32_be(&[0x12, 0x34, 0x56, 0x78]), 0x1234_5678);
    assert_eq!(read_u64_le(&[1, 0, 0, 0, 0, 0, 0, 0x80]), 0x8000_0000_0000_0001);
    assert_eq!(read_u64_be(&[0x80, 0, 0, 0, 0, 0, 0, 1]), 0x8000_0000_0000_0001);
}

#[test]
fn dsd_rate_labels() {
    assert_eq!(dsd_rate_label(2_822_400), "DSD64");
    assert_eq!(dsd_rate_label(5_644_800), "DSD128");
    assert_eq!(dsd_rate_label(3_072_000), "DSD64");
    assert_eq!(dsd_rate_label(11_289_600), "DSD256");
    assert_eq!(dsd_rate_label(1_000_000), "DSD (1000000 Hz)");
    assert_eq!(dsd_label_lower(2_822_400), "dsd64");
    assert_eq!(dsd_label_lower(45_158_400), "dsd1024");
}

fn dsf_header(rate: u32, channels: u32, bits: u32, samples: u64, block: u32, meta: u64) -> Vec<u8> {
    let mut b = vec![0u8; 92];
    b[0..4].copy_from_slice(b"DSD ");
    b[20..28].copy_from_slice(&meta.to_le_bytes());
    b[28..32].copy_from_slice(b"fmt ");
    b[52..56].copy_from_slice(&channels.to_le_bytes());
    b[56..60].copy_from_slice(&rate.to_le_bytes());
    b[60..64].copy_from_slice(&bits.to_le_bytes());
    b[64..72].copy_from_slice(&samples.to_le_bytes());
    b[72..76].copy_from_slice(&block.to_le_bytes());
    b
}

#[test]
fn dsf_header_parses() {
    let (h, meta) = parse_dsf(&dsf_header(2_822_400, 2, 1, 17, 4096, 1234)).unwrap();
    assert_eq!(
        h,
        DsdHeader {
            dsd_rate: 2_822_400,
            channels: 2,
            data_offset: 92,
            audio_bytes: 3 * 2,
            planar: true,
            block_size: 4096
        }
    );
    assert_eq!(meta, 1234);
    let (h0, _) = parse_dsf(&dsf_header(2_822_400, 1, 1, 8, 0, 0)).unwrap();
    assert_eq!(h0.block_size, 4096);
}

#[test]
fn dsf_header_errors() {
    let mut bad = dsf_header(2_822_400, 2, 1, 8, 4096, 0);
    bad[0] = b'X';
    assert_eq!(parse_dsf(&bad).unwrap_err(), "Not a DSF file");
    let mut nofmt = dsf_header(2_822_400, 2, 1, 8, 4096, 0);
    nofmt[28] = b'x';
    assert_eq!(parse_dsf(&nofmt).unwrap_err(), "DSF: missing fmt chunk");
    let mut dst = dsf_header(2_822_400, 2, 1, 8, 4096, 0);
    dst[44] = 1;
    assert_eq!(parse_dsf(&dst).unwrap_err(), "DSF: DST-encoded data not supported");
    assert_eq!(parse_dsf(&dsf_header(2_822_400, 2, 8, 8, 4096, 0)).unwrap_err(), "DSF: unsupported bits per sample 8");
    assert_eq!(parse_dsf(&dsf_header(100, 2, 1, 8, 4096, 0)).unwrap_err(), "DSF: unsupported sample rate 100");
}

fn chunk(id: &[u8; 4], body: &[u8]) -> Vec<u8> {
    let mut c = id.to_vec();
    c.extend_from_slice(&(body.len() as u64).to_be_bytes());
    c.extend_from_slice(body);
    if body.len() % 2 == 1 {
        c.push(0);
    }
    c
}

fn dff_file(rate: u32, chnl: &[u8], audio: &[u8]) -> Vec<u8> {
    let mut prop_body = b"SND ".to_vec();
    prop_body.extend(chunk(b"FS  ", &rate.to_be_bytes()));
    prop_body.extend(chunk(b"CHNL", chnl));
    prop_body.extend(chunk(b"CMPR", b"DSD not compressed"));
    let mut body = b"DSD ".to_vec();
    body.extend(chunk(b"FVER", &[1, 5, 0, 0]));
    body.extend(chunk(b"PROP", &prop_body));
    body.extend(chunk(b"DSD ", audio));
    let mut f = b"FRM8".to_vec();
    f.extend_from_slice(&(body.len() as u64).to_be_bytes());
    f.extend(body);
    f
}

#[test]
fn dff_header_parses() {
    let f = dff_file(2_822_400, &[0, 2, b'S', b'L', b'F', b'T', b'S', b'R', b'G', b'T'], &[0x69; 8]);
    let (h, meta) = parse_dff(&f).unwrap();
    assert_eq!(h.dsd_rate, 2_822_400);
    assert_eq!(h.channels, 2);
    assert_eq!(h.audio_bytes, 8);
    assert_eq!(h.data_offset as usize, f.len() - 8);
    assert!(!h.planar);
    assert_eq!(h.block_size, 1);
    assert_eq!(meta, 0);
}

#[test]
fn dff_errors() {
    assert_eq!(parse_dff(b"RIFF0000000000000000").unwrap_err(), "Not a DFF file");
    let f = dff_file(1000, &[0, 2], &[0; 4]);
    assert_eq!(parse_dff(&f).unwrap_err(), "DFF: unsupported sample rate 1000");
    let mut prop_body = b"SND ".to_vec();
    prop_body.extend(chunk(b"CMPR", b"DST "));
    let mut body = b"DSD ".to_vec();
    body.extend(chunk(b"PROP", &prop_body));
    let mut g = b"FRM8".to_vec();
    g.extend_from_slice(&(body.len() as u64).to_be_bytes());
    g.extend(body);
    assert_eq!(parse_dff(&g).unwrap_err(), "DFF: DST-encoded data not supported");
}

#[test]
fn utf16_and_text_decoding() {
    let units: Vec<u16> = "Hé".encode_utf16().collect();
    assert_eq!(decode_utf16(&units), "Hé");
    let pair: Vec<u16> = "𝄞".encode_utf16().collect();
    assert_eq!(decode_utf16(&pair), "𝄞");
    assert_eq!(decode_utf16(&[0x0041, 0x0000, 0x0042]), "AB");
    let mut latin = vec![0u8];
    latin.extend_from_slice(b"Abc\0");
    assert_eq!(extract_text(&latin), "Abc");
}

#[test]
fn tail_tag_located() {
    let mut tail = vec![0u8; 8];
    tail.extend_from_slice(b"ID3\x03\x00\x00\x00\x00\x00\x00\x00\x00\x00");
    assert_eq!(tail_tag_start(&tail), Some(8));
    assert_eq!(tail_tag_start(b"nothing here"), None);
}

#[test]
fn dsf_header_size_check() {
    assert!(dsf_header_fits(&dsf_header(2_822_400, 2, 1, 17, 4096, 0)));
    assert!(!dsf_header_fits(&[0u8; 40]));
    let huge = dsf_header(2_822_400, u32::MAX, 1, u64::MAX, 4096, 0);
    assert!(!dsf_header_fits(&huge));
    // An invalid header is rejected by the parser before any size is computed.
    let invalid = dsf_header(2_822_400, u32::MAX, 8, u64::MAX, 4096, 0);
    assert!(dsf_header_fits(&invalid));
    assert_eq!(parse_dsf(&invalid).unwrap_err(), "DSF: unsupported bits per sample 8");
}

fn header(planar: bool, channels: usize, block_size: usize) -> DsdHeader {
    DsdHeader { dsd_rate: 2_822_400, channels, data_offset: 92, audio_bytes: 100_000, planar, block_size }
}

#[test]
fn dsf_seek_restarts_at_block_boundary() {
    let h = header(true, 2, 4096);
    // frame 1000 is byte 8000 of each channel: block 1 starts at 4096
    assert_eq!(dsd_seek_plan(&h, 1000), (92 + 4096 * 2, 100_000 - 8192));
    assert_eq!(dsd_seek_plan(&h, 0), (92, 100_000));
    // past the end: nothing left
    assert_eq!(dsd_seek_plan(&h, 20_000), (92 + 159_744 * 2, 0));
}

#[test]
fn dff_seek_is_byte_exact() {
    let h = header(false, 2, 4096);
    assert_eq!(dsd_seek_plan(&h, 1000), (92 + 16_000, 100_000 - 16_000));
}

#[test]
fn raw_groups_follow_the_layout() {
    let dsf = header(true, 2, 4096);
    assert_eq!(dsd_group_bytes(&dsf, 100_000), 8192);
    assert_eq!(dsd_group_bytes(&dsf, 5000), 5000);
    assert_eq!(dsd_group_bytes(&dsf, 0), 0);
    let dff = header(false, 2, 4096);
    assert_eq!(dsd_group_bytes(&dff, 100_000), RAW_GROUP * 2);
    assert_eq!(dsd_group_bytes(&dff, 7), 6);
    assert_eq!(dsd_group_bytes(&dff, 1), 0);
}

#[test]
fn dff_refuses_a_skip_beyond_signed_range() {
    let mut body = b"DSD ".to_vec();
    body.extend_from_slice(b"JUNK");
    body.extend_from_slice(&0xFFFF_FFFF_FFFF_FFF4u64.to_be_bytes());
    body.extend_from_slice(&[0; 16]);
    let mut f = b"FRM8".to_vec();
    f.extend_from_slice(&(body.len() as u64).to_be_bytes());
    f.extend(body);
    assert_eq!(parse_dff(&f).unwrap_err(), "DFF: invalid seek");
}
