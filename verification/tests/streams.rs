use disc_remuxer::demux::{Demuxer, MagicCheck, StreamKey};
use disc_remuxer::demux_title;
use disc_remuxer::demux_title_nav::{self, NavDemux};
use disc_remuxer::demux_vob::{self, accounted, accounting_closes, limit_reached};
use disc_remuxer::dump_sectors::{check_count, check_dump, report, report_text, CountError, Params};
use disc_remuxer::dump_title_nav::{self, NavDump};
use disc_remuxer::error::DvdError;
use disc_remuxer::file::{DvdFile, ReadDomain};
use disc_remuxer::mpegps::{
    parse_pes, scan_sector, MpegPsError, PackHeader, PesPacket, StreamKind,
};
use disc_remuxer::nav::{
    cap_reached, check_title, has_left_title, nav_call, nav_event, nav_open, nav_step, CellChangeInfo,
    NavAction, NavEvent, TitleRangeError,
};
use disc_remuxer::nav_cells::CellLookup;
use disc_remuxer::scan_streams;
use disc_remuxer::sha256::{hex_text, sha256_hex};
use disc_remuxer::vobsub::{
    pack_header_bytes, write_idx_file, ycrcb_u32_to_rgb, SubError, SubWriter, VobSubEntry,
    MAX_SPU_NO_PTS, MAX_SPU_WITH_PTS,
};

/// A packet of a stream that has no substream id, with a plain header.
fn packet(stream_id: u8, body: &[u8]) -> Vec<u8> {
    let mut p = vec![0, 0, 1, stream_id];
    let len = body.len() as u16;
    p.extend_from_slice(&len.to_be_bytes());
    p.extend_from_slice(body);
    p
}

fn elementary(stream_id: u8, payload: &[u8]) -> Vec<u8> {
    let mut body = vec![0x80, 0, 0];
    body.extend_from_slice(payload);
    packet(stream_id, &body)
}

/// A sector of these packets, filled up with a padding packet.
fn sector(packets: &[Vec<u8>]) -> Vec<u8> {
    let mut s = pack_header_bytes(5).to_vec();
    for p in packets {
        s.extend_from_slice(p);
    }
    let room = 2048 - s.len();
    if room >= 6 {
        s.extend_from_slice(&packet(0xBE, &vec![0xFF; room - 6]));
    } else {
        s.extend_from_slice(&vec![0; room]);
    }
    s
}

fn ac3(payload: &[u8]) -> Vec<u8> {
    let mut p = vec![0x80, 1, 0, 0];
    p.extend_from_slice(payload);
    elementary(0xBD, &p)
}

#[test]
fn pack_header_fields() {
    let b = pack_header_bytes(0x1_2345_6789);
    let p = PackHeader::parse(&b).expect("parse");
    assert_eq!(p.scr_base, 0x1_2345_6789);
    assert_eq!(p.scr_ext, 0);
    assert_eq!(p.program_mux_rate, 0x6_8000);
    assert!(p.markers_ok);
    assert_eq!(p.total_size(), 14);
    assert_eq!(p.scr_27mhz(), 0x1_2345_6789 * 300);
    // Only the low 33 bits count.
    let q = PackHeader::parse(&pack_header_bytes(0x7_2345_6789)).expect("parse");
    assert_eq!(q.scr_base, 0x1_2345_6789);
    let mut c = b;
    c[8] = 0xFF;
    c[9] = 0xFE;
    c[13] = 0xFF;
    let r = PackHeader::parse(&c).expect("parse");
    assert_eq!(r.scr_ext, 511);
    assert!(!r.markers_ok);
    assert_eq!(r.total_size(), 21);
}

#[test]
fn pes_errors_and_their_texts() {
    let e = parse_pes(&[0, 0, 1], 0).err().expect("short");
    assert_eq!(e.message(), "buffer too short for PES header (6 bytes): need 6 bytes, have 3");
    let e = parse_pes(&[9, 0, 0, 2, 0xE0, 0, 0], 1).err().expect("start");
    assert!(matches!(e, MpegPsError::BadPesStart { actual: [0, 0, 2], offset: 1 }));
    assert_eq!(e.message(), "expected PES start code 00 00 01, got [00, 00, 02] at offset 1");
    let e = parse_pes(&[0, 0, 1, 0xE0, 0, 2, 1, 1], 0).err().expect("header");
    assert_eq!(e.message(), "buffer too short for extended PES header: need 9 bytes, have 8");
    let e = parse_pes(&[0, 0, 1, 0xE0, 1, 0], 0).err().expect("size");
    assert_eq!(
        e.message(),
        "PES packet length 256 exceeds sector remaining 6 at offset 0"
    );
    let mut bad = sector(&[]);
    bad[3] = 0xBB;
    let e = scan_sector(&bad, "x").err().expect("pack");
    assert_eq!(e.message(), "expected pack-start code 00 00 01 BA, got [00, 00, 01, BB]");
}

#[test]
fn pes_headers_and_payloads() {
    // Two optional header bytes, then the payload.
    let p = packet(0xE0, &[0x80, 0x80, 2, 7, 7, 1, 2, 3]);
    let q = parse_pes(&p, 0).expect("video");
    assert_eq!((q.header_size, q.payload), (11, &[1u8, 2, 3][..]));
    assert_eq!(q.substream_id, None);
    let p = packet(0xBD, &[0x80, 0, 0, 0x25, 9]);
    let q = parse_pes(&p, 0).expect("private");
    assert_eq!((q.header_size, q.substream_id), (10, Some(0x25)));
    assert_eq!(q.payload, &[9]);
    // A header that claims more than the packet has.
    let p = packet(0xBD, &[0x80, 0, 200]);
    let q = parse_pes(&p, 0).expect("private");
    assert_eq!((q.header_size, q.substream_id), (9, None));
    assert!(q.payload.is_empty());
    let p = packet(0xBB, &[1, 2]);
    assert_eq!(parse_pes(&p, 0).expect("system").header_size, 8);
}

#[test]
fn trailing_bytes_are_reported() {
    let mut s = sector(&[elementary(0xE0, &[1; 100])]);
    let at = 14 + 9 + 100;
    s[at] = 0x55;
    let c = scan_sector(&s, "x").expect("scan");
    assert_eq!(c.pes_packets.len(), 1);
    assert_eq!(c.trailing_unknown_bytes, 2048 - at);
}

#[test]
fn labels_of_kinds_and_keys() {
    assert_eq!(StreamKind::Video(0xE0).label(), "video MPEG-2 stream 0xE0");
    assert_eq!(
        StreamKind::Unknown { stream_id: 5, substream_id: Some(0x1F) }.label(),
        "unknown stream 0x05/0x1F"
    );
    assert_eq!(StreamKey::Subpicture(31).label(), "subpicture stream 31");
    assert_eq!(StreamKey::Lpcm(2).filename(), "audio.lpcm.2.lpcm");
    assert_eq!(StreamKey::MpegAudio(0xC1).filename(), "audio.mpeg.0xC1.mp2");
}

#[test]
fn accounting_closes_on_whole_sectors() {
    let mut d = Demuxer::new();
    let video = elementary(0xE0, &[0, 0, 1, 0xB3, 1, 2, 3]);
    let s = sector(&[video, ac3(&[0x0B, 0x77, 5, 6])]);
    let chunks = d.process_sector(&s, "s").expect("demux");
    assert_eq!(chunks.len(), 2);
    assert_eq!((chunks[0].key, chunks[0].bytes), (StreamKey::Video(0xE0), &[0u8, 0, 1, 0xB3, 1, 2, 3][..]));
    assert_eq!((chunks[1].key, chunks[1].bytes), (StreamKey::Ac3(0), &[0x0Bu8, 0x77, 5, 6][..]));
    let n = sector(&[packet(0xBF, &[0; 979]), packet(0xBF, &[0; 1017])]);
    d.process_sector(&n, "n").expect("demux");
    let sum = d.finish();
    assert_eq!(sum.input_bytes, 4096);
    assert_eq!(sum.pack_header_bytes, 28);
    assert_eq!(accounted(&sum), 4096);
    assert!(accounting_closes(&sum));
    assert_eq!(sum.streams.len(), 2);
    assert_eq!(sum.streams[0].key, StreamKey::Video(0xE0));
    assert_eq!(sum.streams[0].stats.magic_check, MagicCheck::Pass);
    assert_eq!(sum.streams[1].stats.first_bytes, [0x0B, 0x77, 5, 6, 0, 0, 0, 0]);
}

#[test]
fn short_payloads_are_stripped_whole() {
    let mut d = Demuxer::new();
    // Two payload bytes where three would be stripped.
    let s = sector(&[elementary(0xBD, &[0x80, 1, 0])]);
    assert!(d.process_sector(&s, "s").expect("demux").is_empty());
    let sum = d.finish();
    assert_eq!(sum.stripped_header_bytes, 12);
    assert_eq!(sum.elementary_emitted_bytes, 0);
    assert_eq!(accounted(&sum), 2048);
    assert_eq!(sum.streams[0].stats.pes_count, 1);
    assert_eq!(sum.streams[0].stats.magic_check, MagicCheck::Pending);
    let t = demux_vob::report_text("in.vob", "out", &sum);
    assert!(t.contains("  byte accounting:         PASS"));
    assert!(t.contains("pending       (none)\n"));
}

#[test]
fn trailing_bytes_leave_the_account_open() {
    let mut s = sector(&[elementary(0xE0, &[1; 100])]);
    s[123] = 0x55;
    let mut d = Demuxer::new();
    d.process_sector(&s, "s").expect("demux");
    let sum = d.finish();
    assert_eq!(accounted(&sum), 123);
    assert!(!accounting_closes(&sum));
    let t = demux_vob::report_text("in.vob", "out", &sum);
    assert!(t.contains("  byte accounting:         FAIL (-1925 byte difference)\n"));
}

#[test]
fn bad_sectors_change_nothing() {
    let mut d = Demuxer::new();
    let e = d.process_sector(&[0; 100], "x").err().expect("short");
    assert_eq!(
        e.message(),
        "mpegps parse error: buffer too short for DVD sector: need 2048 bytes, have 100"
    );
    assert_eq!((d.sectors_processed, d.pes_total), (0, 0));
}

#[test]
fn aligned_resyncs_are_not_counted() {
    let mut d = Demuxer::new();
    let x = [0x01, 0x00, 0x00, 0x0B, 0x77, 0xAA, 0xBB];
    let p = PesPacket {
        stream_id: 0xBD,
        substream_id: Some(0x80),
        sector_offset: 0,
        header_size: 10,
        total_size: 17,
        raw: &x,
        payload: &x,
    };
    d.process_pes(&p);
    d.begin_cell(true);
    assert!(d.resync_pending(StreamKey::Ac3(0)));
    assert_eq!(d.process_pes(&p).expect("chunk").bytes, &x[3..]);
    assert!(!d.resync_pending(StreamKey::Ac3(0)));
    let sum = d.finish();
    assert_eq!((sum.fap_resyncs_applied, sum.fap_bytes_skipped), (0, 0));
    assert_eq!(sum.discontinuity_boundaries, 1);
    assert_eq!(sum.elementary_emitted_bytes, 8);
    let over_streams: u64 = sum.streams.iter().map(|e| e.stats.emitted_bytes).sum();
    assert_eq!(over_streams, 8);
}

#[test]
fn accounting_closes_across_cells() {
    let mut d = Demuxer::new();
    d.begin_cell(true);
    let far = elementary(0xBD, &[0x80, 1, 0, 2, 1, 2, 3]);
    for _ in 0..3 {
        d.process_sector(&sector(&[far.clone(), elementary(0xE0, &[9; 40])]), "s").expect("demux");
        d.begin_cell(true);
        d.begin_cell(false);
    }
    let sum = d.finish();
    assert_eq!(sum.input_bytes, 6144);
    assert_eq!(accounted(&sum), 6144);
    assert_eq!((sum.fap_resyncs_applied, sum.fap_bytes_skipped), (2, 4));
    assert_eq!(sum.elementary_emitted_bytes, 3 + 1 + 1 + 120);
    let over_streams: u64 = sum.streams.iter().map(|e| e.stats.emitted_bytes).sum();
    assert_eq!(over_streams, sum.elementary_emitted_bytes);
}

#[test]
fn resync_past_the_packet_drops_it() {
    let mut d = Demuxer::new();
    d.process_sector(&sector(&[ac3(&[0x0B, 0x77])]), "a").expect("demux");
    d.begin_cell(true);
    let far = elementary(0xBD, &[0x80, 1, 0xFF, 0xFF, 1, 2, 3]);
    assert!(d.process_sector(&sector(&[far]), "b").expect("demux").is_empty());
    assert!(!d.resync_pending(StreamKey::Ac3(0)));
    assert_eq!((d.fap_resyncs_applied, d.fap_bytes_skipped), (1, 3));
    let sum = d.finish();
    assert!(accounting_closes(&sum));
}

#[test]
fn demux_vob_report() {
    let mut d = Demuxer::new();
    d.process_sector(&sector(&[ac3(&[0x0B, 0x77, 5, 6])]), "a").expect("demux");
    let t = demux_vob::report_text("in.vob", "out", &d.finish());
    assert_eq!(
        t,
        "\ndemux-vob summary for in.vob:\n  sectors processed:       1\n  PES packets seen:        2\n  input bytes:             2048\n  pack header bytes:       14\n  PES/BD header bytes:     13\n  elementary bytes out:    4\n  dropped bytes (NV/pad/sys): 2017\n  accounted total:         2048\n  byte accounting:         PASS\n\nstream                               packets       PES bytes   emitted bytes  magic check   first bytes\n--------------------------------  ----------  --------------  --------------  ------------  ------------------------\nAC-3 audio stream 0                        1              17               4  PASS          0B 77 05 06 00 00 00 00\n\nwrote 1 per-stream files to out\n"
    );
    assert!(!limit_reached(0, 9) && limit_reached(9, 9) && !limit_reached(9, 8));
    let mut e = Demuxer::new();
    e.process_sector(&sector(&[]), "a").expect("demux");
    e.begin_cell(true);
    let r = demux_title::Report { summary: e.finish(), cells: 2 };
    let t = demux_title::report_text(1, "o", &r);
    assert!(t.starts_with("\ndemux-title summary (title 1, 2 cells -> o):\n  sectors processed:       1\n"));
    assert!(t.contains("  stc_discontinuity cells: 1\n"));
}

#[test]
fn scan_counts_every_class() {
    let mut r = scan_streams::Report::new();
    let s = sector(&[
        packet(0xBB, &[1; 4]),
        elementary(0xE0, &[1; 10]),
        packet(0xBF, &[0; 20]),
        elementary(0xBD, &[0x10, 1]),
    ]);
    r.add_sector(&s, "a").expect("scan");
    r.add_sector(&s, "b").expect("scan");
    assert_eq!((r.sectors_scanned, r.packets_total), (2, 10));
    assert_eq!(r.bytes_in_system_header, 20);
    assert_eq!(r.bytes_in_elementary, 38);
    assert_eq!(r.bytes_in_nav, 52);
    assert_eq!(r.bytes_in_unknown, 22);
    assert_eq!(r.bytes_in_padding, 2 * (2048 - 14) - 20 - 38 - 52 - 22);
    let labels: Vec<&str> = r.streams.iter().map(|e| e.label.as_str()).collect();
    assert_eq!(
        labels,
        vec![
            "NV_PCK (navigation)",
            "padding",
            "system header",
            "unknown stream 0xBD/0x10",
            "video MPEG-2 stream 0xE0",
        ]
    );
    assert_eq!(r.streams[4].tally.payload_bytes, 20);
    assert_eq!(r.streams.iter().map(|e| e.tally.packets).sum::<u64>(), 10);
    assert_eq!(r.streams.iter().map(|e| e.tally.packet_bytes).sum::<u64>(), 2 * 2034);
    assert!(r.add_sector(&[0; 3], "c").is_err());
    assert_eq!(r.sectors_scanned, 2);
    let t = scan_streams::report_text("f", &r);
    assert!(t.starts_with("\nscan-streams summary for f:\n  sectors scanned:        2\n"));
    assert!(t.contains("  bytes in unknown:       22  ⚠\n"));
    assert!(t.ends_with("video MPEG-2 stream 0xE0                   2              20              38\n"));
}

#[test]
fn subtitle_sectors_read_back() {
    let mut w = SubWriter::new(Vec::new(), 0x21);
    w.write_subtitle(0x1_0000_0001, &[7; 100]).expect("subtitle");
    w.write_continuation(&[8; 2024]).expect("continuation");
    assert_eq!(
        w.write_continuation(&vec![0; MAX_SPU_NO_PTS + 1]),
        Err(SubError::ContinuationTooLong { len: MAX_SPU_NO_PTS + 1 })
    );
    assert_eq!(
        SubError::PayloadTooLong { len: MAX_SPU_WITH_PTS + 1 }.message(),
        "subpicture PES payload 2020 bytes exceeds sector capacity 2019"
    );
    let (data, entries) = w.finish();
    assert_eq!(data.len(), 4096);
    assert_eq!(entries.len(), 1);
    let a = scan_sector(&data[..2048], "a").expect("scan");
    assert_eq!(a.pack_header.scr_base, 0x1_0000_0001);
    assert_eq!(a.pes_packets[0].substream_id, Some(0x21));
    assert_eq!(a.pes_packets[0].payload, &[7; 100]);
    assert_eq!(a.trailing_unknown_bytes, 0);
    let b = scan_sector(&data[2048..], "b").expect("scan");
    assert_eq!(b.pes_packets.len(), 1);
    assert_eq!(b.pes_packets[0].payload, &[8; 2024]);
    let mut d = Demuxer::new();
    let chunks = d.process_sector(&data[..2048], "a").expect("demux");
    assert_eq!((chunks[0].key, chunks[0].bytes), (StreamKey::Subpicture(1), &[7u8; 100][..]));
}

#[test]
fn sectors_with_little_room_are_zero_filled() {
    let mut w = SubWriter::new(Vec::new(), 0x20);
    w.write_subtitle(1, &[1; MAX_SPU_WITH_PTS - 5]).expect("subtitle");
    let (data, _) = w.finish();
    assert_eq!(&data[2043..], &[0; 5]);
    assert_eq!(scan_sector(&data, "x").expect("scan").trailing_unknown_bytes, 5);
}

#[test]
fn idx_file_text() {
    let mut t = String::new();
    let mut palette = [0x0010_8080; 16];
    palette[1] = 0x0051_F05A;
    let entries = [VobSubEntry { pts_90khz: 90 * 3_723_004, filepos: 0x800 }];
    write_idx_file(&mut t, &palette, "en", 720, 480, &entries);
    assert!(t.starts_with("# VobSub index file, v7 (do not modify this line!)\n# \n# This index block was generated by disc-remuxer\n# \nsize: 720x480\norg: 0, 0\nalpha: 100%\n"));
    assert!(t.contains("langidx: 0\npalette: 101010, ee0e0e, 101010"));
    assert!(t.ends_with("# \n# end\n\nid: en, index: 0\ntimestamp: 01:02:03:004, filepos: 000000800\n"));
}

#[test]
fn colours_match_the_double_precision_formula() {
    let clip = |v: f64| -> u8 { v.clamp(0.0, 255.0).round() as u8 };
    for y in 0..=255u32 {
        for cr in (0..=255u32).step_by(5).chain(178..=178) {
            for cb in (0..=255u32).step_by(7).chain(78..=78) {
                let (fy, fr, fb) = (f64::from(y), f64::from(cr), f64::from(cb));
                let want = (
                    clip(fy + 1.402 * (fr - 128.0)),
                    clip(fy - 0.344_136 * (fb - 128.0) - 0.714_136 * (fr - 128.0)),
                    clip(fy + 1.772 * (fb - 128.0)),
                );
                assert_eq!(ycrcb_u32_to_rgb((y << 16) | (cr << 8) | cb), want, "{y} {cr} {cb}");
            }
        }
    }
}

#[test]
fn digests_are_sha256() {
    assert_eq!(
        sha256_hex(b"abc"),
        "ba7816bf8f01cfea414140de5dae2223b00361a396177a9cb410ff61f20015ad"
    );
    assert_eq!(
        sha256_hex(b""),
        "e3b0c44298fc1c149afbf4c8996fb92427ae41e4649b934ca495991b7852b855"
    );
    assert_eq!(hex_text(&[0, 0xAB, 9]), "00ab09");
}

#[test]
fn sector_dumps() {
    assert_eq!(check_count(1), Ok(()));
    assert_eq!(check_count(65_536), Ok(()));
    assert_eq!(check_count(0), Err(CountError::Zero));
    let e = check_count(65_537).err().expect("large");
    assert_eq!(e.message(), "--count 65537 exceeds MAX_BLOCKS_PER_CALL=65536 (128 MiB)");
    assert_eq!(CountError::Zero.message(), "--count must be > 0");
    let file = DvdFile::open(3, ReadDomain::TitleVobs, Some(10)).ok().expect("file");
    let p = Params {
        vts: 3,
        domain: ReadDomain::TitleVobs,
        offset: 0,
        count: 1,
        out: "o.bin".to_string(),
    };
    let mut buf = vec![0u8; 2048];
    buf[2] = 1;
    buf[3] = 0xBA;
    assert!(file.check_range(p.offset, p.count).is_ok());
    let c = check_dump(&p, &buf);
    assert!(c.complete);
    assert_eq!(c.pack_start, Some(true));
    let far = Params { offset: 10, count: 2, ..p };
    assert!(file.check_range(far.offset, far.count).is_err());
    let c = check_dump(&far, &buf);
    assert!(!c.complete && c.pack_start.is_none());
    let r = report(far, &file, b"abc");
    assert_eq!((r.vts_nr, r.block_count, r.byte_size), (3, 10, 20480));
    assert_eq!(
        report_text(&r),
        "wrote 3 bytes to o.bin\nsha256: ba7816bf8f01cfea414140de5dae2223b00361a396177a9cb410ff61f20015ad\n"
    );
}

#[test]
fn file_reads() {
    let e = DvdFile::open(1, ReadDomain::MenuVobs, None).err().expect("none");
    assert_eq!(
        e.message(),
        "could not open file: vts=1 domain=MENU_VOBS (libdvdread DVDOpenFile() returned NULL)"
    );
    let e = DvdFile::open(1, ReadDomain::InfoFile, Some(-1)).err().expect("negative");
    assert_eq!(
        e.message(),
        "could not open file: vts=1 domain=INFO_FILE (DVDFileSize returned -1)"
    );
    let huge = DvdFile::open(1, ReadDomain::InfoBackup, Some(1 << 40)).ok().expect("huge");
    assert_eq!(huge.block_count(), u32::MAX);
    let f = DvdFile::open(7, ReadDomain::TitleVobs, Some(4)).ok().expect("file");
    assert_eq!((f.vts_nr(), f.domain(), f.byte_size()), (7, ReadDomain::TitleVobs, 8192));
    assert!(matches!(f.check_range(2, 2), Ok(4096)));
    let e = f.check_range(2, 3).err().expect("range");
    assert_eq!(e.message(), "sector read out of range: offset=2 count=3 total_blocks=4");
    assert!(f.check_range(u32::MAX, 2).is_err());
    let full = f.read_blocks(0, 2, 2, vec![5; 4096]).ok().expect("full");
    assert_eq!(full.len(), 4096);
    let short = f.read_blocks(0, 2, 1, vec![5; 4096]).ok().expect("short");
    assert_eq!(short, vec![5; 2048]);
    let e = f.read_blocks(0, 2, -1, vec![0; 4096]).err().expect("failed");
    assert_eq!(
        e.message(),
        "sector read failed: offset=0 count=2 (libdvdread returned -1)"
    );
    assert!(matches!(
        f.read_blocks(3, 2, 0, Vec::new()),
        Err(DvdError::ReadOutOfRange { offset: 3, count: 2, total: 4 })
    ));
    assert_eq!(DvdError::Io("x".to_string()).message(), "I/O error: x");
    assert_eq!(DvdError::InvalidPath.message(), "invalid path: contains interior NUL byte");
}

fn cell_change(cell_nr: i32) -> CellChangeInfo {
    CellChangeInfo {
        cell_nr,
        program_nr: 1,
        cell_length_pts: 2,
        program_length_pts: 3,
        pgc_length_pts: 4,
        cell_start_pts: 5,
        program_start_pts: 6,
    }
}

#[test]
fn events_by_code() {
    let buf = [1u8, 2, 3, 4];
    let c = cell_change(9);
    assert!(matches!(nav_event(0, &buf, 2, 0, &c), NavEvent::Block { sector: [1, 2] }));
    assert!(matches!(nav_event(2, &buf, 0, 300, &c), NavEvent::StillFrame { length: 255 }));
    assert!(matches!(nav_event(2, &buf, 0, -3, &c), NavEvent::StillFrame { length: 0 }));
    assert!(matches!(
        nav_event(6, &buf, 0, 0, &c),
        NavEvent::CellChange { cell_nr: 9, pgc_length_pts: 4, program_start_pts: 6, .. }
    ));
    assert!(matches!(nav_event(12, &buf, 0, 0, &c), NavEvent::HopChannel));
    assert!(matches!(nav_event(13, &buf, 0, 0, &c), NavEvent::Wait));
    assert!(matches!(nav_event(11, &buf, 0, 0, &c), NavEvent::Other(11)));
}

#[test]
fn nav_dump_takes_blocks_and_counts_everything() {
    let mut d = NavDump::new();
    let c = cell_change(1);
    let data = *b"abcdefgh";
    assert_eq!(d.take(&nav_event(0, &data, 2, 0, &c)), NavAction::TakeSector);
    assert_eq!(d.take(&nav_event(0, &data[2..], 1, 0, &c)), NavAction::TakeSector);
    let want = [
        (1, NavAction::Ignore),
        (2, NavAction::SkipStill),
        (3, NavAction::Ignore),
        (4, NavAction::Ignore),
        (5, NavAction::Ignore),
        (6, NavAction::EnterCell { cell_nr: 1 }),
        (7, NavAction::Ignore),
        (8, NavAction::End),
        (9, NavAction::Ignore),
        (10, NavAction::Ignore),
        (12, NavAction::Ignore),
        (13, NavAction::SkipWait),
        (99, NavAction::Ignore),
    ];
    for (code, action) in want {
        assert_eq!(d.take(&nav_event(code, &data, 0, 0, &c)), action);
    }
    let p = dump_title_nav::Params { title: 4, out: "o".to_string(), max_events: 1 };
    let (r, whole) = d.finish(p);
    assert!(!whole);
    assert_eq!((r.total_blocks, r.total_bytes), (2, 3));
    assert_eq!(
        r.sha256,
        "ba7816bf8f01cfea414140de5dae2223b00361a396177a9cb410ff61f20015ad"
    );
    let e = r.events;
    assert_eq!((e.blocks, e.nops, e.still_frames, e.spu_stream_changes), (2, 1, 1, 1));
    assert_eq!((e.audio_stream_changes, e.vts_changes, e.cell_changes), (1, 1, 1));
    assert_eq!((e.nav_packets, e.highlights, e.spu_clut_changes), (1, 1, 1));
    assert_eq!((e.hop_channels, e.waits, e.others, e.unresolved_cells), (1, 1, 1, 0));
    let t = dump_title_nav::report_text(&r);
    assert!(t.starts_with("\ndump-title-nav (title 4, libdvdnav driven):\n  sectors written:         2\n  bytes written:           3\n  output:                  o\n"));
    assert!(t.contains("nav event counts:\n  BLOCK_OK                       2\n"));
    assert!(t.ends_with("  (unknown)                      1\n"));
}

#[test]
fn title_bounds_and_call_outcomes() {
    assert_eq!(check_title(1, 1), Ok(()));
    assert_eq!(check_title(0, 5), Err(TitleRangeError::BelowOne));
    assert_eq!(check_title(6, 5), Err(TitleRangeError::OutOfRange { title: 6, titles: 5 }));
    assert!(has_left_title(Some(2), 1) && !has_left_title(Some(1), 1) && !has_left_title(None, 1));
    assert!(cap_reached(0, 0) && cap_reached(5, 5) && cap_reached(5, 6));
    assert!(!cap_reached(5, 4) && !cap_reached(1, 0));
    assert!(nav_call(true, "x", 1).is_ok());
    let e = nav_call(false, "dvdnav_title_play(3)", 0).err().expect("failed");
    assert_eq!(e.message(), "could not open disc at : dvdnav_title_play(3) returned 0");
    let e = nav_open(false, "/d", -1).err().expect("failed");
    assert_eq!(
        e.message(),
        "could not open disc at /d: libdvdnav dvdnav_open() returned status=-1"
    );
    assert!(nav_open(true, "/d", 1).is_ok() && nav_step(true, 0, 1).is_ok());
    assert!(matches!(
        nav_step(false, 1, 0),
        Err(DvdError::ReadFailed { offset: 0, count: 1, ret: 0 })
    ));
}

#[test]
fn nav_demux_enters_cells() {
    let lookup = CellLookup {
        title_to_vts: vec![1],
        cells: std::collections::HashMap::new(),
    };
    let mut d = NavDemux::new();
    let s = sector(&[ac3(&[0x0B, 0x77])]);
    d.take(&nav_event(0, &s, 2048, 0, &cell_change(1)));
    d.take_sector(&s, "a").expect("demux");
    d.enter_cell(&lookup, 1, 1, 1);
    d.enter_cell(&lookup, -1, 70_000, 300);
    assert_eq!(d.events.unresolved_cells, 2);
    assert_eq!(d.demuxer.discontinuity_boundaries, 0);
    let r = d.finish();
    assert_eq!(r.summary.sectors_processed, 1);
    let t = demux_title_nav::report_text(1, "o", &r);
    assert!(t.starts_with("\ndemux-title-nav summary (title 1, libdvdnav driven -> o):\n"));
    assert!(t.contains("  cell changes:            0 (stc_discontinuity: 0, unresolved: 2)\n\nnav event counts:\n"));
}
