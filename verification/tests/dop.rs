use music_player_rs::audio::dop::{DoPFramer, DOP_MARKER_EVEN, DOP_MARKER_ODD};

#[test]
fn dop_marker_pair_layout() {
    let mut f = DoPFramer::new();
    let raw = [0x01, 0x02, 0x03, 0x04, 0x05, 0x06, 0x07, 0x08];
    let mut out = [0u32; 4];
    let n = f.frame(&raw, 2, &mut out);
    assert_eq!(n, 4);
    assert_eq!(out[0], ((DOP_MARKER_EVEN as u32) << 16) | (0x01 << 8) | 0x03);
    assert_eq!(out[1], ((DOP_MARKER_EVEN as u32) << 16) | (0x02 << 8) | 0x04);
    assert_eq!(out[2], ((DOP_MARKER_ODD as u32) << 16) | (0x05 << 8) | 0x07);
    assert_eq!(out[3], ((DOP_MARKER_ODD as u32) << 16) | (0x06 << 8) | 0x08);
    assert!(!f.marker_phase);
}

#[test]
fn dop_odd_tail_is_carried_across_calls() {
    let mut f = DoPFramer::new();
    f.with_channels(2);
    let mut out = [0u32; 2];
    let n = f.frame(&[0x11, 0x22, 0x33, 0x44, 0x55, 0x66], 2, &mut out);
    assert_eq!(n, 2);
    assert_eq!(f.leftover.len(), 2);
    assert_eq!(out[0], ((DOP_MARKER_EVEN as u32) << 16) | (0x11 << 8) | 0x33);
    assert_eq!(out[1], ((DOP_MARKER_EVEN as u32) << 16) | (0x22 << 8) | 0x44);
    let mut out2 = [0u32; 2];
    let n2 = f.frame(&[0x77, 0x88], 2, &mut out2);
    assert_eq!(n2, 2);
    assert!(f.leftover.is_empty());
    assert_eq!(out2[0], ((DOP_MARKER_ODD as u32) << 16) | (0x55 << 8) | 0x77);
    assert_eq!(out2[1], ((DOP_MARKER_ODD as u32) << 16) | (0x66 << 8) | 0x88);
    assert!(!f.marker_phase);
}

#[test]
fn dop_phase_continues_across_calls() {
    let mut f = DoPFramer::new();
    f.with_channels(2);
    let mut out = [0u32; 4];
    let n = f.frame(&[0x11, 0x22, 0x33, 0x44, 0x55, 0x66, 0x77, 0x88], 2, &mut out);
    assert_eq!(n, 4);
    let mut out2 = [0u32; 2];
    let n2 = f.frame(&[0x99, 0xAA, 0xBB, 0xCC], 2, &mut out2);
    assert_eq!(n2, 2);
    assert_eq!(out2[0], ((DOP_MARKER_EVEN as u32) << 16) | (0x99 << 8) | 0xBB);
    assert_eq!(out2[1], ((DOP_MARKER_EVEN as u32) << 16) | (0xAA << 8) | 0xCC);
    let mut out3 = [0u32; 2];
    let n3 = f.frame(&[0x01, 0x02, 0x03, 0x04], 2, &mut out3);
    assert_eq!(n3, 2);
    assert_eq!(out3[0], ((DOP_MARKER_ODD as u32) << 16) | (0x01 << 8) | 0x03);
    assert_eq!(out3[1], ((DOP_MARKER_ODD as u32) << 16) | (0x02 << 8) | 0x04);
}

/// Splitting a byte stream between two calls frames it exactly like one call.
#[test]
fn dop_split_stream_matches_single_call() {
    let raw: Vec<u8> = (0u8..24).collect();
    let mut whole = DoPFramer::new();
    let mut out_whole = [0u32; 12];
    let n_whole = whole.frame(&raw, 2, &mut out_whole);
    assert_eq!(n_whole, 12);

    let mut split = DoPFramer::new();
    let mut out_a = [0u32; 12];
    let na = split.frame(&raw[..10], 2, &mut out_a);
    let mut out_b = [0u32; 12];
    let nb = split.frame(&raw[10..], 2, &mut out_b);
    let mut joined: Vec<u32> = out_a[..na].to_vec();
    joined.extend_from_slice(&out_b[..nb]);
    assert_eq!(joined, out_whole[..n_whole].to_vec());
    assert_eq!(split.marker_phase, whole.marker_phase);
    assert!(split.leftover.is_empty());
}

/// Markers alternate from one emitted frame to the next.
#[test]
fn dop_markers_alternate() {
    let mut f = DoPFramer::new();
    let raw = [0u8; 16];
    let mut out = [0u32; 8];
    let n = f.frame(&raw, 1, &mut out);
    assert_eq!(n, 8);
    for (i, w) in out.iter().enumerate() {
        let m = (w >> 16) as u8;
        assert_eq!(m, if i % 2 == 0 { DOP_MARKER_EVEN } else { DOP_MARKER_ODD });
    }
}

#[test]
fn split_at_any_byte_frames_like_one_piece() {
    let raw: Vec<u8> = (1..=23).collect();
    let mut whole = DoPFramer::new();
    let mut out = vec![0u32; 32];
    let n = whole.frame(&raw, 3, &mut out);
    for cut in 0..=raw.len() {
        for cut2 in cut..=raw.len() {
            let mut f = DoPFramer::new();
            let mut got = Vec::new();
            for part in [&raw[..cut], &raw[cut..cut2], &raw[cut2..]] {
                let mut o = vec![0u32; 32];
                let k = f.frame(part, 3, &mut o);
                got.extend_from_slice(&o[..k]);
            }
            assert_eq!(got, out[..n].to_vec());
            assert_eq!(f.leftover, whole.leftover);
            assert_eq!(f.marker_phase, whole.marker_phase);
        }
    }
}
