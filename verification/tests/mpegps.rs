use disc_remuxer::mpegps::{
    scan_sector, stream_kind, MpegPsError, PackHeader, StreamKind, SECTOR_SIZE, STREAM_ID_PADDING,
    STREAM_ID_PRIVATE_1, STREAM_ID_PRIVATE_2, STREAM_ID_SYSTEM_HEADER,
};

/// Build a synthetic pack header with SCR=0, mux_rate=0x1A00 (= 10 Mbps).
fn pack_header_bytes() -> [u8; 14] {
    let mut b = [0u8; 14];
    b[0] = 0x00;
    b[1] = 0x00;
    b[2] = 0x01;
    b[3] = 0xBA;
    // SCR fields are 0 in this fixture; just set the 4 marker bits
    // (m1@byte4 bit2, m2@byte6 bit2, m3@byte8 bit2, m4@byte9 bit0)
    // and the leading '01' in byte 4.
    b[4] = 0b0100_0100; // '01' + scr=0 + marker=1 + scr=0
    b[6] = 0b0000_0100;
    b[8] = 0b0000_0100;
    b[9] = 0b0000_0001;
    // mux_rate = 0x1A00 (low 22 bits all zero except higher bits) +
    // two marker bits at the bottom of byte 12.
    b[10] = 0x00;
    b[11] = 0x68; // (0x1A00 >> 6) & 0xFF
    b[12] = 0b00_000011; // low 6 bits of rate=0 + two markers
    b[13] = 0; // no stuffing
    b
}

#[test]
fn pack_header_round_trips_markers() {
    let bytes = pack_header_bytes();
    let p = PackHeader::parse(&bytes).expect("parse");
    assert!(p.markers_ok);
    assert_eq!(p.stuffing_length, 0);
    assert_eq!(p.scr_base, 0);
}

#[test]
fn pack_header_rejects_bad_magic() {
    let mut bytes = pack_header_bytes();
    bytes[3] = 0xBB;
    assert!(matches!(
        PackHeader::parse(&bytes),
        Err(MpegPsError::BadPackStart { .. })
    ));
}

#[test]
fn pack_header_rejects_short_buffer() {
    let buf = [0u8; 10];
    assert!(matches!(
        PackHeader::parse(&buf),
        Err(MpegPsError::TooShort { .. })
    ));
}

#[test]
fn stream_kind_classifies_dvd_substreams() {
    // AC3 stream 0
    assert_eq!(
        stream_kind(STREAM_ID_PRIVATE_1, Some(0x80)),
        StreamKind::Ac3(0)
    );
    // DTS stream 1
    assert_eq!(
        stream_kind(STREAM_ID_PRIVATE_1, Some(0x89)),
        StreamKind::Dts(1)
    );
    // LPCM stream 2
    assert_eq!(
        stream_kind(STREAM_ID_PRIVATE_1, Some(0xA2)),
        StreamKind::Lpcm(2)
    );
    // Subpicture 5
    assert_eq!(
        stream_kind(STREAM_ID_PRIVATE_1, Some(0x25)),
        StreamKind::Subpicture(5)
    );
    // NV_PCK
    assert_eq!(stream_kind(STREAM_ID_PRIVATE_2, Some(0x00)), StreamKind::NavPack);
    // MPEG-2 video E0
    assert_eq!(stream_kind(0xE0, None), StreamKind::Video(0xE0));
    // Padding
    assert_eq!(stream_kind(STREAM_ID_PADDING, None), StreamKind::Padding);
    // System header
    assert_eq!(stream_kind(STREAM_ID_SYSTEM_HEADER, None), StreamKind::SystemHeader);
}

#[test]
fn stream_kind_unknown_preserves_ids() {
    let k = stream_kind(0xC0, None);
    assert_eq!(k, StreamKind::MpegAudio(0xC0));
    let k = stream_kind(0xBD, Some(0x10)); // unknown private substream
    assert_eq!(
        k,
        StreamKind::Unknown {
            stream_id: 0xBD,
            substream_id: Some(0x10)
        }
    );
}

#[test]
fn is_elementary_data_flags_correctly() {
    assert!(StreamKind::Video(0xE0).is_elementary_data());
    assert!(StreamKind::Ac3(0).is_elementary_data());
    assert!(StreamKind::Subpicture(0).is_elementary_data());
    assert!(!StreamKind::NavPack.is_elementary_data());
    assert!(!StreamKind::Padding.is_elementary_data());
    assert!(!StreamKind::SystemHeader.is_elementary_data());
}

fn build_sector_with_padding(payload_size: usize) -> Vec<u8> {
    let mut sector = vec![0u8; SECTOR_SIZE];
    sector[..14].copy_from_slice(&pack_header_bytes());
    // Padding PES at offset 14: 00 00 01 BE + length (big-endian) +
    // 0xFF bytes filling to the declared length.
    sector[14] = 0x00;
    sector[15] = 0x00;
    sector[16] = 0x01;
    sector[17] = STREAM_ID_PADDING;
    let len = SECTOR_SIZE - 14 - 6;
    sector[18] = (len >> 8) as u8;
    sector[19] = (len & 0xFF) as u8;
    for b in sector[20..20 + payload_size].iter_mut() {
        *b = 0xFF;
    }
    sector
}

#[test]
fn scan_sector_full_padding_packet() {
    let sector = build_sector_with_padding(SECTOR_SIZE - 14 - 6);
    let contents = scan_sector(&sector, "test").expect("scan");
    assert_eq!(contents.pes_packets.len(), 1);
    let p = &contents.pes_packets[0];
    assert_eq!(p.stream_id, STREAM_ID_PADDING);
    assert_eq!(p.sector_offset, 14);
    assert_eq!(p.total_size, SECTOR_SIZE - 14);
    assert_eq!(contents.trailing_unknown_bytes, 0);
}

#[test]
fn scan_sector_rejects_short_input() {
    let short = vec![0u8; 1024];
    assert!(matches!(
        scan_sector(&short, "x"),
        Err(MpegPsError::TooShort { .. })
    ));
}

#[test]
fn pes_oversize_packet_errors() {
    // Build a "PES" packet whose declared length runs past the
    // sector. We craft just enough to trigger the size check.
    let mut sector = vec![0u8; SECTOR_SIZE];
    sector[..14].copy_from_slice(&pack_header_bytes());
    sector[14] = 0x00;
    sector[15] = 0x00;
    sector[16] = 0x01;
    sector[17] = STREAM_ID_PRIVATE_1;
    sector[18] = 0xFF; // length = 0xFFFF, way past sector
    sector[19] = 0xFF;
    let err = scan_sector(&sector, "x").expect_err("should fail");
    assert!(matches!(err, MpegPsError::OversizePes { .. }));
}
