use disc_remuxer::demux::{run_magic_check, Demuxer, MagicCheck, StreamKey};
use disc_remuxer::mpegps::{PesPacket, StreamKind};


#[test]
fn stream_key_from_kind_filters_non_elementary() {
    assert_eq!(
        StreamKey::from_stream_kind(StreamKind::Ac3(2)),
        Some(StreamKey::Ac3(2))
    );
    assert_eq!(
        StreamKey::from_stream_kind(StreamKind::Video(0xE0)),
        Some(StreamKey::Video(0xE0))
    );
    assert_eq!(StreamKey::from_stream_kind(StreamKind::NavPack), None);
    assert_eq!(StreamKey::from_stream_kind(StreamKind::Padding), None);
    assert_eq!(StreamKey::from_stream_kind(StreamKind::SystemHeader), None);
    assert_eq!(
        StreamKey::from_stream_kind(StreamKind::Unknown {
            stream_id: 0x99,
            substream_id: None
        }),
        None
    );
}

#[test]
fn stream_key_filenames_are_disjoint() {
    let keys = [
        StreamKey::Video(0xE0),
        StreamKey::MpegAudio(0xC0),
        StreamKey::Ac3(0),
        StreamKey::Ac3(7),
        StreamKey::Dts(0),
        StreamKey::Lpcm(0),
        StreamKey::Subpicture(0),
        StreamKey::Subpicture(31),
    ];
    let mut seen = std::collections::HashSet::new();
    for k in keys {
        assert!(seen.insert(k.filename()), "duplicate filename for {k:?}");
    }
}

#[test]
fn payload_prefix_strip_matches_spec() {
    assert_eq!(StreamKey::Ac3(0).payload_prefix_strip(), 3);
    assert_eq!(StreamKey::Dts(0).payload_prefix_strip(), 3);
    assert_eq!(StreamKey::Lpcm(0).payload_prefix_strip(), 6);
    assert_eq!(StreamKey::Subpicture(0).payload_prefix_strip(), 0);
    assert_eq!(StreamKey::Video(0xE0).payload_prefix_strip(), 0);
    assert_eq!(StreamKey::MpegAudio(0xC0).payload_prefix_strip(), 0);
}

#[test]
fn magic_check_video_sequence_header_passes() {
    assert_eq!(
        run_magic_check(StreamKey::Video(0xE0), &[0x00, 0x00, 0x01, 0xB3, 0xFF]),
        MagicCheck::Pass,
    );
}

#[test]
fn magic_check_video_wrong_magic_fails() {
    assert_eq!(
        run_magic_check(StreamKey::Video(0xE0), &[0xDE, 0xAD, 0xBE, 0xEF]),
        MagicCheck::Fail,
    );
}

#[test]
fn magic_check_ac3_syncword() {
    assert_eq!(
        run_magic_check(StreamKey::Ac3(0), &[0x0B, 0x77, 0x00, 0x00]),
        MagicCheck::Pass,
    );
    assert_eq!(
        run_magic_check(StreamKey::Ac3(0), &[0x0A, 0x77]),
        MagicCheck::Fail,
    );
}

#[test]
fn magic_check_dts_syncword() {
    assert_eq!(
        run_magic_check(StreamKey::Dts(0), &[0x7F, 0xFE, 0x80, 0x01, 0x00]),
        MagicCheck::Pass,
    );
    assert_eq!(
        run_magic_check(StreamKey::Dts(0), &[0x7F, 0xFE, 0x80, 0x00]),
        MagicCheck::Fail,
    );
}

#[test]
fn magic_check_mpeg_audio_frame_sync() {
    // MPEG-1 layer III, valid sync.
    assert_eq!(
        run_magic_check(StreamKey::MpegAudio(0xC0), &[0xFF, 0xFB, 0x90, 0x00]),
        MagicCheck::Pass,
    );
    // No frame sync.
    assert_eq!(
        run_magic_check(StreamKey::MpegAudio(0xC0), &[0xFF, 0x00]),
        MagicCheck::Fail,
    );
}

#[test]
fn magic_check_skipped_for_lpcm_and_subpicture() {
    assert_eq!(
        run_magic_check(StreamKey::Lpcm(0), &[0; 8]),
        MagicCheck::Skipped
    );
    assert_eq!(
        run_magic_check(StreamKey::Subpicture(0), &[0; 8]),
        MagicCheck::Skipped
    );
}

fn ac3_pes<'a>(payload: &'a [u8]) -> PesPacket<'a> {
    PesPacket {
        stream_id: 0xBD,
        substream_id: Some(0x80),
        sector_offset: 0,
        total_size: 9 + payload.len() + 1,
        header_size: 9 + 1,
        raw: payload,
        payload,
    }
}

fn ac3_payload(bd_common: [u8; 3], after: &[u8]) -> Vec<u8> {
    let mut p = bd_common.to_vec();
    p.extend_from_slice(after);
    p
}

#[test]
fn begin_cell_without_discontinuity_is_noop() {
    let mut demux = Demuxer::new();
    let p = ac3_payload([0x01, 0x00, 0x00], &[0x0B, 0x77, 0xAA, 0xBB, 0xCC, 0xDD]);
    demux.process_pes(&ac3_pes(&p));
    demux.begin_cell(false);
    assert!(demux.streams.iter().all(|e| !e.resync_pending));
    assert_eq!(demux.discontinuity_boundaries, 0);
}

#[test]
fn begin_cell_with_discontinuity_marks_known_ac3_streams() {
    let mut demux = Demuxer::new();
    let p = ac3_payload([0x01, 0x00, 0x00], &[0x0B, 0x77, 0xAA, 0xBB]);
    demux.process_pes(&ac3_pes(&p));
    demux.begin_cell(true);
    assert_eq!(demux.discontinuity_boundaries, 1);
    assert!(demux.resync_pending(StreamKey::Ac3(0)));
}

#[test]
fn fap_resync_skips_partial_leading_frame() {
    let mut demux = Demuxer::new();
    let mut body = Vec::new();
    let p1 = ac3_payload([0x01, 0x00, 0x00], &[0x0B, 0x77, 0xAA, 0xBB]);
    let c1 = demux.process_pes(&ac3_pes(&p1)).expect("bytes");
    assert_eq!(c1.key, StreamKey::Ac3(0));
    body.extend_from_slice(c1.bytes);

    demux.begin_cell(true);
    assert!(demux.resync_pending(StreamKey::Ac3(0)));

    let p2 = ac3_payload(
        [0x01, 0x00, 0x04],
        &[0xDE, 0xAD, 0xBE, 0xEF, 0x0B, 0x77, 0xCA, 0xFE],
    );
    let c2 = demux.process_pes(&ac3_pes(&p2)).expect("bytes");
    body.extend_from_slice(c2.bytes);

    assert!(!demux.resync_pending(StreamKey::Ac3(0)));
    assert_eq!(demux.fap_resyncs_applied, 1);
    assert_eq!(demux.fap_bytes_skipped, 4);

    let summary = demux.finish();
    assert_eq!(summary.fap_bytes_skipped, 4);
    assert_eq!(summary.fap_resyncs_applied, 1);
    assert_eq!(&body[..4], &[0x0B, 0x77, 0xAA, 0xBB]);
    assert_eq!(&body[4..8], &[0x0B, 0x77, 0xCA, 0xFE]);
}
