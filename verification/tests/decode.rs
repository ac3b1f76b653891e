use disc_remuxer::decode::{
    audio_stream_id, lang_code, pgc_audio_control_available, pgc_audio_control_stream_number,
    pgc_subp_control_available, pgc_subp_control_stream_4_3, pgc_subp_control_stream_letterbox,
    pgc_subp_control_stream_pan_scan, pgc_subp_control_stream_wide, subp_stream_id,
    video_picture_size,
};

#[test]
fn lang_code_decodes_ascii_pairs() {
    // 'e' = 0x65, 'n' = 0x6e
    assert_eq!(lang_code(0x656e).as_deref(), Some("en"));
    assert_eq!(lang_code(0x6a61).as_deref(), Some("ja"));
    assert_eq!(lang_code(0x0000), None);
    assert_eq!(lang_code(0xffff), None);
}

#[test]
fn audio_stream_id_examples() {
    // AC-3 stream 0 -> private stream 1 (0xBD), substream 0x80.
    assert_eq!(audio_stream_id(0, 0), Some((0xBD, Some(0x80))));
    // AC-3 stream 5 -> 0xBD / 0x85.
    assert_eq!(audio_stream_id(0, 5), Some((0xBD, Some(0x85))));
    // MPEG-1 audio stream 0 -> direct ID 0xC0.
    assert_eq!(audio_stream_id(2, 0), Some((0xC0, None)));
    // DTS stream 1 -> 0xBD / 0x89.
    assert_eq!(audio_stream_id(6, 1), Some((0xBD, Some(0x89))));
    // LPCM stream 2 -> 0xBD / 0xA2.
    assert_eq!(audio_stream_id(4, 2), Some((0xBD, Some(0xA2))));
    // Reserved.
    assert_eq!(audio_stream_id(7, 0), None);
}

#[test]
fn subp_stream_id_examples() {
    assert_eq!(subp_stream_id(0), (0xBD, 0x20));
    assert_eq!(subp_stream_id(31), (0xBD, 0x3F));
}

#[test]
fn picture_size_decodes() {
    assert_eq!(video_picture_size(0, 0), (720, 480)); // NTSC full
    assert_eq!(video_picture_size(0, 1), (720, 576)); // PAL full
    assert_eq!(video_picture_size(2, 0), (352, 480)); // NTSC half-h
    assert_eq!(video_picture_size(3, 1), (352, 288)); // PAL half-both
}

#[test]
fn pgc_control_bit_decoding() {
    // Bit 15 set, stream number = 3 in bits 14..12.
    assert!(pgc_audio_control_available(0x8300));
    assert_eq!(pgc_audio_control_stream_number(0x8300), 3);
    // Bit 31 set, stream number 2 / 4 / 6 / 8 across the four bytes.
    let s = 0x82_04_06_08_u32;
    assert!(pgc_subp_control_available(s));
    assert_eq!(pgc_subp_control_stream_4_3(s), 2);
    assert_eq!(pgc_subp_control_stream_wide(s), 4);
    assert_eq!(pgc_subp_control_stream_letterbox(s), 6);
    assert_eq!(pgc_subp_control_stream_pan_scan(s), 8);
}
