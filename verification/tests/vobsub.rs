use disc_remuxer::vobsub::{
    encode_pts_field, ycrcb_u32_to_rgb, SubError, SubWriter, MAX_SPU_WITH_PTS,
};


#[test]
fn encode_pts_field_round_trips() {
    // Use our parser to round-trip a value through both directions.
    let pts: u64 = 0x0_1234_5678;
    let bytes = encode_pts_field(0b0010, pts);
    // Recover the 33-bit value the same way the parser does.
    let hi = u64::from((bytes[0] >> 1) & 0b111);
    let mid = (u64::from(bytes[1]) << 7) | u64::from((bytes[2] >> 1) & 0x7F);
    let lo = (u64::from(bytes[3]) << 7) | u64::from((bytes[4] >> 1) & 0x7F);
    let recovered = (hi << 30) | (mid << 15) | lo;
    assert_eq!(recovered, pts);
}

#[test]
fn ycrcb_zero_chroma_is_grey() {
    let (r, g, b) = ycrcb_u32_to_rgb(0x00_80_80_80); // Y=0x80, Cr=Cb=0x80
    // Y=128, neutral chroma → neutral grey ~128
    assert!(r.abs_diff(g) <= 1 && g.abs_diff(b) <= 1);
    assert_eq!(r, 128);
}

#[test]
fn sub_writer_aligns_to_sector() {
    let buf = Vec::new();
    let mut sw = SubWriter::new(buf, 0x20);
    sw.write_subtitle(90_000, &[0x00, 0x01, 0x02, 0x03]).unwrap();
    sw.write_subtitle(180_000, &[0x10, 0x11, 0x12, 0x13]).unwrap();
    sw.write_subtitle(270_000, &[0x20, 0x21, 0x22, 0x23]).unwrap();
    let (data, entries) = sw.finish();
    assert_eq!(data.len(), 3 * 2048);
    assert_eq!(entries.len(), 3);
    assert_eq!(entries[0].filepos, 0);
    assert_eq!(entries[1].filepos, 2048);
    assert_eq!(entries[2].filepos, 4096);
    for e in &entries {
        assert_eq!(
            &data[e.filepos as usize..e.filepos as usize + 4],
            &[0x00, 0x00, 0x01, 0xBA]
        );
    }
}

#[test]
fn sub_writer_emits_pad_stream() {
    let buf = Vec::new();
    let mut sw = SubWriter::new(buf, 0x20);
    let spu = [0xAAu8; 64];
    sw.write_subtitle(90_000, &spu).unwrap();
    let (data, _) = sw.finish();
    // Find the pad_stream start code.
    let pad_off = data
        .windows(4)
        .position(|w| w == [0x00, 0x00, 0x01, 0xBE])
        .expect("pad_stream PES should be present");
    // After pad_stream's 2-byte length field comes 0xFF content.
    let pkt_len = ((data[pad_off + 4] as usize) << 8) | data[pad_off + 5] as usize;
    let content = &data[pad_off + 6..pad_off + 6 + pkt_len];
    assert!(content.iter().all(|&b| b == 0xFF), "pad content must be 0xFF");
    // Sector should be exactly 2048 bytes.
    assert_eq!(data.len(), 2048);
}

#[test]
fn sub_writer_continuation_no_pts() {
    let buf = Vec::new();
    let mut sw = SubWriter::new(buf, 0x20);
    sw.write_subtitle(90_000, &[0xAA; 32]).unwrap();
    sw.write_continuation(&[0xBB; 16]).unwrap();
    // Next SPU starts a fresh sector.
    sw.write_subtitle(180_000, &[0xCC; 32]).unwrap();
    let (data, entries) = sw.finish();
    assert_eq!(data.len(), 3 * 2048);
    // Only 2 .idx entries (the continuation doesn't add one).
    assert_eq!(entries.len(), 2);
    assert_eq!(entries[0].filepos, 0);
    assert_eq!(entries[1].filepos, 4096);

    // First sector: PES with PTS (flags2 == 0x80).
    // PES starts at offset 14 (pack header is 14 bytes).
    assert_eq!(&data[14..18], &[0x00, 0x00, 0x01, 0xBD]);
    assert_eq!(data[14 + 6], 0x81); // flags1
    assert_eq!(data[14 + 7], 0x80); // flags2 = PTS only
    assert_eq!(data[14 + 8], 0x05); // PES_header_data_length

    // Continuation sector at offset 2048: PES with no PTS.
    let cont = 2048;
    assert_eq!(&data[cont + 14..cont + 18], &[0x00, 0x00, 0x01, 0xBD]);
    assert_eq!(data[cont + 14 + 6], 0x81); // flags1
    assert_eq!(data[cont + 14 + 7], 0x00); // flags2 = no PTS
    assert_eq!(data[cont + 14 + 8], 0x00); // PES_header_data_length = 0
    // substream_id follows the (empty) PES header data.
    assert_eq!(data[cont + 14 + 9], 0x20);
}

#[test]
fn sub_writer_substream_id_in_pes() {
    let buf = Vec::new();
    let mut sw = SubWriter::new(buf, 0x23);
    sw.write_subtitle(90_000, &[0xAA; 8]).unwrap();
    let (data, _) = sw.finish();
    // substream_id sits right after the 5-byte PTS field in the
    // PES header (PES preamble 6 + flags+len 3 + PTS 5 = 14
    // bytes inside the PES, so at offset pack(14) + 14 = 28).
    assert_eq!(data[28], 0x23);
}

#[test]
fn sub_writer_rejects_oversized_payload() {
    let buf = Vec::new();
    let mut sw = SubWriter::new(buf, 0x20);
    let oversized = vec![0xAAu8; MAX_SPU_WITH_PTS + 1];
    let err = sw.write_subtitle(90_000, &oversized).unwrap_err();
    assert_eq!(err, SubError::PayloadTooLong { len: MAX_SPU_WITH_PTS + 1 });
}
