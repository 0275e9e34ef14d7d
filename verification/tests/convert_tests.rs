use capture_pipeline::convert::convert;

#[test]
fn mono_samples_become_le_bytes() {
    let out = convert(&[1i16, -1, 256], 1);
    assert_eq!(out, vec![1u8, 0, 255, 255, 0, 1]);
}

#[test]
fn extreme_samples_encode_exactly() {
    let out = convert(&[i16::MAX, i16::MIN, 0], 1);
    assert_eq!(out, vec![0xFFu8, 0x7F, 0x00, 0x80, 0x00, 0x00]);
}

#[test]
fn stereo_takes_first_channel_only() {
    let out = convert(&[100i16, -100, 200, -200], 2);
    assert_eq!(out, vec![100u8, 0, 200, 0]);
}

#[test]
fn trailing_partial_frame_still_yields_a_sample() {
    let out = convert(&[7i16, 8, 9, 10, 11], 2);
    assert_eq!(out, vec![7u8, 0, 9, 0, 11, 0]);
}

#[test]
fn four_channels_keep_every_fourth_sample() {
    let out = convert(&[1i16, 2, 3, 4, 5, 6, 7, 8, 9], 4);
    assert_eq!(out, vec![1u8, 0, 5, 0, 9, 0]);
}

#[test]
fn empty_input_gives_empty_output() {
    let out = convert(&[], 3);
    assert_eq!(out.len(), 0);
}

#[test]
fn output_length_is_two_bytes_per_frame() {
    let shapes = [
        (0usize, 1usize),
        (5, 1),
        (5, 2),
        (6, 2),
        (5, 3),
        (1, 4),
        (7, 7),
        (8, 7),
        (2048, 2),
    ];
    for (len, cc) in shapes {
        let samples = vec![0i16; len];
        let out = convert(&samples, cc);
        let frames = if len == 0 { 0 } else { (len - 1) / cc + 1 };
        assert_eq!(out.len(), frames * 2);
    }
}
