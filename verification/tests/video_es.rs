use disc_remuxer::video_es::{
    analyze_video_start, find_start_code, trailing_zero_count, UserDataFilter, UserDataStats,
};

#[test]
fn analyze_video_start_counts_two_leading_b_frames() {
    // seq header (frame_rate_code 4 = 30000/1001), I-frame, two
    // frame-structured B-frames, then a P-frame (ends the run).
    let seq = b"\x00\x00\x01\xB3\x00\x00\x00\x14"; // body[3]=0x14 -> code 4
    let i_pic = b"\x00\x00\x01\x00\x00\x08"; // pct=(0x08>>3)&7 = 1 (I)
    let b_pic = b"\x00\x00\x01\x00\x00\x18"; // pct=(0x18>>3)&7 = 3 (B)
    let p_pic = b"\x00\x00\x01\x00\x00\x10"; // pct=(0x10>>3)&7 = 2 (P)
    let pce_frame = b"\x00\x00\x01\xB5\x88\x00\x03"; // ext 8, picture_structure=3 (frame)
    let mut s = Vec::new();
    s.extend_from_slice(seq);
    s.extend_from_slice(i_pic);
    s.extend_from_slice(pce_frame);
    s.extend_from_slice(b_pic);
    s.extend_from_slice(pce_frame);
    s.extend_from_slice(b_pic);
    s.extend_from_slice(pce_frame);
    s.extend_from_slice(p_pic);
    s.extend_from_slice(pce_frame);
    let info = analyze_video_start(&s);
    let rate = f64::from(info.frame_rate.num) / f64::from(info.frame_rate.den);
    assert!((rate - 30_000.0 / 1001.0).abs() < 1e-6);
    assert_eq!(info.leading_b_frames, 2);
}

#[test]
fn analyze_video_start_field_structured_b_frames_halve() {
    // Two field-structured B-frame pictures = one frame of leading B.
    let i_pic = b"\x00\x00\x01\x00\x00\x08";
    let b_pic = b"\x00\x00\x01\x00\x00\x18";
    let p_pic = b"\x00\x00\x01\x00\x00\x10";
    let pce_field = b"\x00\x00\x01\xB5\x88\x00\x01"; // picture_structure=1 (top field)
    let mut s = Vec::new();
    s.extend_from_slice(i_pic);
    s.extend_from_slice(pce_field);
    s.extend_from_slice(b_pic);
    s.extend_from_slice(pce_field);
    s.extend_from_slice(b_pic);
    s.extend_from_slice(pce_field);
    s.extend_from_slice(p_pic);
    let info = analyze_video_start(&s);
    assert_eq!(info.leading_b_frames, 1);
}

fn run(input: &[u8]) -> (Vec<u8>, Vec<u8>, UserDataStats) {
    let mut video = Vec::new();
    let mut user_data = Vec::new();
    let mut f = UserDataFilter::new();
    f.feed(input, &mut video, &mut user_data);
    let stats = f.finish(&mut video, &mut user_data);
    (video, user_data, stats)
}

#[test]
fn empty_input_emits_nothing() {
    let (v, u, s) = run(&[]);
    assert!(v.is_empty() && u.is_empty());
    assert_eq!(s.user_data_blocks, 0);
}

#[test]
fn no_user_data_passes_through() {
    // Just a sequence header + GOP header + slice — no user_data.
    let input = b"\x00\x00\x01\xB3SEQ\x00\x00\x01\xB8GOP\x00\x00\x01\x00SLICE";
    let (v, u, s) = run(input);
    assert_eq!(v, input);
    assert!(u.is_empty());
    assert_eq!(s.user_data_blocks, 0);
}

#[test]
fn single_user_data_block_split() {
    // SEQ ... USER_DATA ... GOP
    let input = b"\x00\x00\x01\xB3SEQ\x00\x00\x01\xB2GA94CCDATA\x00\x00\x01\xB8GOP";
    let (v, u, s) = run(input);
    assert_eq!(v, b"\x00\x00\x01\xB3SEQ\x00\x00\x01\xB8GOP");
    assert_eq!(u, b"\x00\x00\x01\xB2GA94CCDATA");
    assert_eq!(s.user_data_blocks, 1);
}

#[test]
fn user_data_at_eof_counts() {
    let input = b"\x00\x00\x01\xB3SEQ\x00\x00\x01\xB2GA94CCDATA";
    let (v, u, s) = run(input);
    assert_eq!(v, b"\x00\x00\x01\xB3SEQ");
    assert_eq!(u, b"\x00\x00\x01\xB2GA94CCDATA");
    assert_eq!(s.user_data_blocks, 1);
}

#[test]
fn consecutive_user_data_blocks() {
    let input = b"\x00\x00\x01\xB3SEQ\x00\x00\x01\xB2GA94XX\x00\x00\x01\xB2DTG1YY\x00\x00\x01\xB8GOP";
    let (v, u, s) = run(input);
    assert_eq!(v, b"\x00\x00\x01\xB3SEQ\x00\x00\x01\xB8GOP");
    assert_eq!(u, b"\x00\x00\x01\xB2GA94XX\x00\x00\x01\xB2DTG1YY");
    assert_eq!(s.user_data_blocks, 2);
}

#[test]
fn fed_byte_by_byte_same_result() {
    // Verify the streaming behaviour: feeding the same input one
    // byte at a time must produce identical output.
    let input = b"\x00\x00\x01\xB3SEQ\x00\x00\x01\xB2CC\x00\x00\x01\xB8GOP";
    let (v_whole, u_whole, _) = run(input);

    let mut video = Vec::new();
    let mut user_data = Vec::new();
    let mut f = UserDataFilter::new();
    for b in input {
        f.feed(&[*b], &mut video, &mut user_data);
    }
    f.finish(&mut video, &mut user_data);

    assert_eq!(video, v_whole);
    assert_eq!(user_data, u_whole);
}

#[test]
fn start_code_straddling_chunk_boundary() {
    // Split the input so the start code's `01` byte lands in the
    // second chunk.
    let input = b"DATA\x00\x00\x01\xB2CC\x00\x00\x01\xB3END";
    // Split at byte 5: first chunk = b"DATA\x00", second = b"\x00\x01\xB2CC..."
    let mut video = Vec::new();
    let mut user_data = Vec::new();
    let mut f = UserDataFilter::new();
    f.feed(&input[..5], &mut video, &mut user_data);
    f.feed(&input[5..], &mut video, &mut user_data);
    f.finish(&mut video, &mut user_data);

    let (v_whole, u_whole, _) = run(input);
    assert_eq!(video, v_whole);
    assert_eq!(user_data, u_whole);
}

#[test]
fn find_start_code_locates_prefix() {
    assert_eq!(find_start_code(b"\x00\x00\x01"), Some(0));
    assert_eq!(find_start_code(b"AB\x00\x00\x01C"), Some(2));
    assert_eq!(find_start_code(b"\x00\x00\x02"), None);
    assert_eq!(find_start_code(b""), None);
    assert_eq!(find_start_code(b"\x00\x00"), None);
}

#[test]
fn trailing_zero_count_basic() {
    assert_eq!(trailing_zero_count(b""), 0);
    assert_eq!(trailing_zero_count(b"abc"), 0);
    assert_eq!(trailing_zero_count(b"abc\x00"), 1);
    assert_eq!(trailing_zero_count(b"abc\x00\x00\x00"), 3);
    assert_eq!(trailing_zero_count(b"\x00\x00\x00"), 3);
}

/// Real-disc pattern from ANGEL_S1D1 title 1: GOP header is
/// followed by 124 `zero_byte` stuffing bytes, then a user_data
/// block carrying EIA-608 CC data, then `00 00 01 00` picture
/// start. MakeMKV strips both the stuffing and the user_data.
/// Our `.mpg` was previously +124 bytes per such GOP because the
/// leading zero stuffing was leaking into the video output.
#[test]
fn zero_stuffing_before_user_data_goes_to_cc() {
    let mut input = Vec::new();
    // GOP header (8 bytes total, no payload past the start code).
    input.extend_from_slice(b"\x00\x00\x01\xB8\x83\xBF\x40\x40");
    // 124 zero_byte stuffing bytes.
    input.extend_from_slice(&[0u8; 124]);
    // user_data block: start code + "CC01F8" magic + 79 bytes payload.
    input.extend_from_slice(b"\x00\x00\x01\xB2\x43\x43\x01\xF8");
    input.extend_from_slice(&[0xAAu8; 79]);
    // Picture start code + a few picture bytes.
    input.extend_from_slice(b"\x00\x00\x01\x00\x00\x0F\xFF\xF8");

    let (v, u, s) = run(&input);
    assert_eq!(
        v,
        b"\x00\x00\x01\xB8\x83\xBF\x40\x40\x00\x00\x01\x00\x00\x0F\xFF\xF8",
        "video must contain GOP + picture, no stuffing"
    );
    assert_eq!(u.len(), 4 + 4 + 79 + 124, "cc gets stuffing + user_data block");
    assert!(u.starts_with(&[0u8; 124]), "cc starts with the 124 stuffing zeros");
    assert_eq!(&u[124..132], b"\x00\x00\x01\xB2\x43\x43\x01\xF8");
    assert_eq!(s.user_data_blocks, 1);
}

/// Zero stuffing before a NON-user_data start code must be
/// preserved. Verified against MakeMKV: there are 4 zero bytes
/// before the first slice header in both files.
#[test]
fn zero_stuffing_before_slice_is_preserved() {
    let input = b"\
        \x00\x00\x01\xB5\x8F\xFF\xFB\x88\
        \x00\x00\x00\x00\
        \x00\x00\x01\x01slice_data";
    let (v, u, _) = run(input);
    assert_eq!(v, input, "no user_data → entire input passes through");
    assert!(u.is_empty());
}

/// Multi-feed: the 124 zero stuffing run straddles a `feed()`
/// boundary. Filter must still route all 124 zeros to cc.
#[test]
fn zero_stuffing_across_feed_boundary() {
    let mut input = Vec::new();
    input.extend_from_slice(b"\x00\x00\x01\xB8\x83\xBF\x40\x40");
    input.extend_from_slice(&[0u8; 124]);
    input.extend_from_slice(b"\x00\x00\x01\xB2payload");
    input.extend_from_slice(b"\x00\x00\x01\x00pic");

    let (v_whole, u_whole, _) = run(&input);

    // Split mid-zero-run.
    for split in [10usize, 50, 100, 130, 135] {
        let mut video = Vec::new();
        let mut user_data = Vec::new();
        let mut f = UserDataFilter::new();
        f.feed(&input[..split], &mut video, &mut user_data);
        f.feed(&input[split..], &mut video, &mut user_data);
        f.finish(&mut video, &mut user_data);
        assert_eq!(video, v_whole, "split={split}");
        assert_eq!(user_data, u_whole, "split={split}");
    }
}

/// Real-disc regression from ANGEL_S1D1 title 1 at file offset
/// 28052: a GOP whose body bytes end in `0x00` (because the
/// time_code's low bits + closed_gop + broken_link + reserved
/// happen to all be zero), followed by 124 bytes of `zero_byte`
/// stuffing, then a user_data block. The GOP's last body byte
/// must NOT be stripped as stuffing — it's a structurally
/// mandatory part of the 4-byte GOP body per ISO/IEC 13818-2
/// §6.2.2.6.
#[test]
fn gop_body_ending_in_zero_is_preserved() {
    let mut input = Vec::new();
    input.extend_from_slice(b"\x00\x00\x01\xB8\x83\xBF\x4E\x00");
    input.extend_from_slice(&[0u8; 124]);
    input.extend_from_slice(b"\x00\x00\x01\xB2\x43\x43\x01\xF8payload");
    input.extend_from_slice(b"\x00\x00\x01\x00\x00\x8F\xFF\xF8");

    let (v, _u, _s) = run(&input);
    // All 8 GOP bytes (including the trailing 0x00 of body) must
    // be present in video, followed immediately by the picture
    // start code (no stuffing in between).
    assert!(
        v.starts_with(b"\x00\x00\x01\xB8\x83\xBF\x4E\x00\x00\x00\x01\x00"),
        "expected GOP body intact + picture start code; got {:02x?}",
        &v[..16.min(v.len())]
    );
}

/// Zero stuffing immediately AFTER a user_data block (between the
/// last cc_data byte and the next non-B2 start code) belongs to
/// the following block. Currently MakeMKV-observed pattern has 0
/// such zeros, but the rule should be symmetric.
#[test]
fn zero_stuffing_after_user_data_goes_to_video() {
    let mut input = Vec::new();
    input.extend_from_slice(b"\x00\x00\x01\xB8\x83\xBF\x40\x40");
    input.extend_from_slice(b"\x00\x00\x01\xB2\x43\x43\x01\xF8payload");
    input.extend_from_slice(&[0u8; 16]);
    input.extend_from_slice(b"\x00\x00\x01\x00pic_data");

    let (v, u, _) = run(&input);
    // The 16 zeros after user_data are stuffing for the picture
    // block → they should appear in video.
    assert!(
        v.windows(16 + 4).any(|w| w == [
            &[0u8; 16][..], b"\x00\x00\x01\x00"
        ].concat().as_slice()),
        "video should contain 16 zero stuffing bytes immediately before picture_start_code"
    );
    assert_eq!(u, b"\x00\x00\x01\xB2\x43\x43\x01\xF8payload");
}

/// Reproduces the regression observed when ripping ANGEL_S1D1 title 1:
/// a GOP header followed by a picture-start code (00 00 01 00) and
/// then picture data must come through verbatim, even when the
/// picture data starts with bytes that look like part of a start
/// code prefix.
#[test]
fn picture_start_after_gop_passes_through() {
    // Real-disc byte pattern from ANGEL: GOP header then picture
    // start (00 00 01 00), then `00 0F FF F8` (which contains a
    // 0x00 that could confuse a naive matcher).
    let input = b"\
        \x00\x00\x01\xB3SEQ\
        \x00\x00\x01\xB8GOP\x83\xBF\x40\x40\
        \x00\x00\x01\x00\x00\x0F\xFF\xF8\
        \x00\x00\x01\xB5EXT_DATA\
        \x00\x00\x01\x00MORE_PIC";
    let (v, u, _) = run(input);
    // No user_data → user_data side empty; video side gets everything.
    assert!(u.is_empty(), "no user_data expected, got {} bytes", u.len());
    assert_eq!(v, input,
        "video output must match input verbatim when there's no user_data");
}
