use music_player_rs::audio::cic::{channel_bytes_of, decimate_group, dsd_sample, Cic};

#[test]
fn dsd_bit_order_by_container() {
    // 0b0000_0001: the earliest sample is bit 0 in DSF, bit 7 in DSDIFF.
    assert_eq!(dsd_sample(0x01, 0, true), 1);
    assert_eq!(dsd_sample(0x01, 0, false), -1);
    assert_eq!(dsd_sample(0x01, 7, false), 1);
    assert_eq!(dsd_sample(0x80, 0, false), 1);
}

#[test]
fn constant_input_reaches_full_gain() {
    let mut c = Cic::new();
    let mut outs = Vec::new();
    for _ in 0..64 * 10 {
        if let Some(y) = c.feed(1) {
            outs.push(y);
        }
    }
    assert_eq!(outs.len(), 10);
    assert_eq!(*outs.last().unwrap(), 4096 * 4096);
    let mut c = Cic::new();
    let mut out = Vec::new();
    for _ in 0..80 {
        c.feed_byte(0x00, true, &mut out);
    }
    assert_eq!(out.len(), 10);
    assert_eq!(*out.last().unwrap(), -4096 * 4096);
}

#[test]
fn channel_bytes_follow_the_layout() {
    let raw = [1u8, 2, 3, 4, 5, 6, 7];
    assert_eq!(channel_bytes_of(&raw, 2, true, 0), vec![1, 2, 3]);
    assert_eq!(channel_bytes_of(&raw, 2, true, 1), vec![4, 5, 6]);
    assert_eq!(channel_bytes_of(&raw, 2, false, 0), vec![1, 3, 5]);
    assert_eq!(channel_bytes_of(&raw, 2, false, 1), vec![2, 4, 6]);
}

#[test]
fn groups_decimate_each_channel() {
    let mut cics = vec![Cic::new(), Cic::new()];
    // DSF: 16 bytes of +1 for channel 0, then 16 bytes of -1 for channel 1.
    let mut raw = vec![0xFFu8; 16];
    raw.extend(vec![0x00u8; 16]);
    let out = decimate_group(&mut cics, &raw, 2, true);
    assert_eq!(out.len(), 2);
    assert_eq!(out[0].len(), 2);
    assert_eq!(out[1].len(), 2);
    assert!(out[0].iter().all(|&y| y > 0));
    assert!(out[1].iter().all(|&y| y < 0));
}
