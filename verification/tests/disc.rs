use disc_remuxer::backend::{DiscBackend, Session};
use disc_remuxer::cell::cells_in_pgc;
use disc_remuxer::chapters::{
    chapter_start_nanos, cumulative_cell_end_nanos, program_start_cell, stable_uid,
    write_chapters_xml,
};
use disc_remuxer::css::{CssAnswer, CssProbe, PathKind};
use disc_remuxer::detect::DiscType;
use disc_remuxer::dump_title::{plan_title, CellRead, DumpTitleError, TitleDump};
use disc_remuxer::dvd_backend::{
    audio_codec_str, build_title, enumerate_titles, iso639_3, DvdBackend, TitleFault,
};
use disc_remuxer::error::{DiscError, DvdError};
use disc_remuxer::ifo::{
    bcd_to_u8, cell_adr_count, format_dvd_time, vobu_count, AudioAttr, CAdt, CellAdr,
    CellPlayback, DvdTime, IfoHandle, IfoKind, Pgc, PgciSrp, Pgcit, PtlMait, PttInfo, SubpAttr,
    TitleInfo, TtSrpt, Ttu, VideoAttr, VmgiMat, VobuAdmap, VtsAtrt, VtsPttSrpt, VtsTmap, VtsTmapt,
    VtsiMat,
};
use disc_remuxer::info;
use disc_remuxer::list::listing;
use disc_remuxer::model::TrackKind;
use disc_remuxer::nav_cells::CellLookup;
use disc_remuxer::reader::{DiscIfos, DvdReader};
use disc_remuxer::selection::{Selection, TitleSelector};
use disc_remuxer::source::{DiscSource, DvdSource};

fn time(hour: u8, minute: u8, second: u8, frame_u: u8) -> DvdTime {
    DvdTime { hour, minute, second, frame_u }
}

fn cell(first: u32, last: u32, t: DvdTime, stc: u8) -> CellPlayback {
    CellPlayback {
        first_sector: first,
        last_sector: last,
        playback_time: t,
        block_mode: 0,
        block_type: 0,
        seamless_play: 0,
        interleaved: 0,
        stc_discontinuity: stc,
        seamless_angle: 0,
    }
}

fn pgc() -> Pgc {
    let mut audio_control = [0u16; 8];
    audio_control[0] = 0x8000;
    audio_control[1] = 0x8300;
    let mut subp_control = [0u32; 32];
    subp_control[0] = 0x8001_0203;
    Pgc {
        nr_of_programs: 2,
        nr_of_cells: 3,
        playback_time: time(0x00, 0x01, 0x35, 0x40),
        still_time: 0,
        audio_control,
        subp_control,
        palette: [0x0010_8080; 16],
        program_map: Some(vec![1, 3]),
        cell_playback: Some(vec![
            cell(0, 9, time(0, 0, 0x10, 0x40), 0),
            cell(10, 1040, time(0, 0, 0x20, 0x40), 1),
            cell(1041, 1041, time(0, 0x01, 0x05, 0x45), 0),
        ]),
    }
}

fn audio(format: u16, channels: u16, lang_code: u16) -> AudioAttr {
    AudioAttr { bits: format + channels * 8192, lang_code, lang_extension: 1, code_extension: 0 }
}

fn subp(lang_code: u16) -> SubpAttr {
    SubpAttr { code_mode: 0, type_: 1, lang_code, lang_extension: 0, code_extension: 0 }
}

fn empty_ifo(kind: IfoKind) -> IfoHandle {
    IfoHandle {
        kind,
        vmgi_mat: None,
        tt_srpt: None,
        first_play_pgc: None,
        ptl_mait: None,
        vts_atrt: None,
        vtsi_mat: None,
        vts_ptt_srpt: None,
        vts_pgcit: None,
        vts_c_adt: None,
        vts_vobu_admap: None,
        vts_tmapt: None,
    }
}

fn title_info(title_set_nr: u8, vts_ttn: u8) -> TitleInfo {
    TitleInfo {
        nr_of_angles: 1,
        nr_of_ptts: 2,
        parental_id: 0,
        title_set_nr,
        vts_ttn,
        title_set_sector: 512,
    }
}

fn vmg() -> IfoHandle {
    let mut provider = [b' '; 32];
    provider[..4].copy_from_slice(b"ACME");
    provider[31] = 0;
    IfoHandle {
        vmgi_mat: Some(VmgiMat {
            vmg_identifier: *b"DVDVIDEO-VMG",
            specification_version: 0x11,
            vmg_category: 0x00fe_0000,
            vmg_nr_of_volumes: 1,
            vmg_this_volume_nr: 1,
            disc_side: 1,
            vmg_nr_of_title_sets: 2,
            provider_identifier: provider,
            vmg_last_sector: 100,
            vmgi_last_sector: 20,
            vmgi_last_byte: 2047,
            nr_of_vmgm_audio_streams: 0,
            nr_of_vmgm_subp_streams: 0,
        }),
        tt_srpt: Some(TtSrpt {
            nr_of_srpts: 3,
            title: Some(vec![title_info(2, 1), title_info(1, 1), title_info(1, 9)]),
        }),
        first_play_pgc: Some(pgc()),
        ptl_mait: Some(PtlMait { nr_of_countries: 1, nr_of_vtss: 2 }),
        vts_atrt: Some(VtsAtrt { nr_of_vtss: 2 }),
        ..empty_ifo(IfoKind::Vmg)
    }
}

fn vts() -> IfoHandle {
    let mut vts_audio_attr = [audio(0, 0, 0); 8];
    vts_audio_attr[0] = audio(0, 5, 0x656e);
    vts_audio_attr[1] = audio(6, 5, 0x4652);
    let mut vts_subp_attr = [subp(0); 32];
    vts_subp_attr[0] = subp(0x6573);
    IfoHandle {
        vtsi_mat: Some(VtsiMat {
            vts_category: 0,
            specification_version: 0x11,
            vts_last_sector: 5000,
            vtsi_last_sector: 10,
            vtsi_last_byte: 4095,
            vts_video_attr: VideoAttr {
                mpeg_version: 1,
                video_format: 1,
                display_aspect_ratio: 3,
                permitted_df: 2,
                line21_cc_1: 0,
                line21_cc_2: 0,
                bit_rate: 0,
                picture_size: 0,
                letterboxed: 0,
                film_mode: 0,
            },
            nr_of_vts_audio_streams: 2,
            vts_audio_attr,
            nr_of_vts_subp_streams: 1,
            vts_subp_attr,
        }),
        vts_ptt_srpt: Some(VtsPttSrpt {
            nr_of_srpts: 1,
            title: Some(vec![Ttu {
                nr_of_ptts: 2,
                ptt: Some(vec![PttInfo { pgcn: 1, pgn: 1 }, PttInfo { pgcn: 1, pgn: 2 }]),
            }]),
        }),
        vts_pgcit: Some(Pgcit {
            nr_of_pgci_srp: 2,
            pgci_srp: Some(vec![PgciSrp { pgc: Some(pgc()) }, PgciSrp { pgc: None }]),
        }),
        vts_c_adt: Some(CAdt {
            nr_of_vobs: 4,
            last_byte: 8 + 4 * 12 - 1,
            cell_adr_table: Some(
                (0..4)
                    .map(|i| CellAdr {
                        vob_id: 1,
                        cell_id: i + 1,
                        start_sector: u32::from(i) * 100,
                        last_sector: u32::from(i) * 100 + 99,
                    })
                    .collect(),
            ),
        }),
        vts_vobu_admap: Some(VobuAdmap {
            last_byte: 4 + 3 * 4 - 1,
            vobu_start_sectors: Some(vec![0, 120, 240]),
        }),
        vts_tmapt: Some(VtsTmapt {
            nr_of_tmaps: 1,
            tmap: Some(vec![VtsTmap { tmu: 4, nr_of_entries: 17 }]),
        }),
        ..empty_ifo(IfoKind::Vts(1))
    }
}

fn reader() -> DvdReader {
    DvdReader::open(
        "/disc".to_string(),
        Some(DiscIfos { vmg: Some(vmg()), vts: vec![Some(vts()), None] }),
    )
    .ok()
    .expect("open")
}

#[test]
fn title_set_zero_is_the_disc_wide_ifo() {
    let mut r = reader();
    let ifo = IfoHandle::open(&r, IfoKind::Vts(0)).ok().expect("ifo");
    assert_eq!(ifo.kind(), IfoKind::Vmg);
    assert_eq!(ifo.titles().len(), 3);
    r.vmg = Some(IfoHandle {
        tt_srpt: Some(TtSrpt { nr_of_srpts: 1, title: Some(vec![title_info(0, 1)]) }),
        ..vmg()
    });
    assert!(matches!(
        plan_title(&r, 1),
        Err(DumpTitleError::Unresolved(TitleFault::NoChapters { vts_ttn: 1 }))
    ));
    let mut w = String::new();
    let probe = CssProbe::open("/x", PathKind::Other, None, None, None);
    assert!(info::run(&r, &probe, &mut w).is_ok());
    assert!(w.contains("    (vtsi_mat NULL — VTS parse failure)\n"));
    assert!(!w.contains("could not open VTS_"));
    assert!(CellLookup::build(&r).ok().expect("build").is_empty());
    r.vmg = None;
    assert!(matches!(
        IfoHandle::open(&r, IfoKind::Vts(0)),
        Err(DvdError::IfoOpenFailed { ifo_nr: 0 })
    ));
}

#[test]
fn reader_rejects_bad_paths_and_missing_discs() {
    assert!(matches!(
        DvdReader::open("a\0b".to_string(), None),
        Err(DvdError::InvalidPath)
    ));
    let err = DvdReader::open("/x".to_string(), None).err().expect("fails");
    assert_eq!(
        err.message(),
        "could not open disc at /x: libdvdread DVDOpen() returned NULL"
    );
    assert_eq!(reader().path(), "/disc");
}

#[test]
fn ifo_open_reports_the_number() {
    let r = reader();
    assert!(IfoHandle::open(&r, IfoKind::Vmg).is_ok());
    assert_eq!(IfoHandle::open(&r, IfoKind::Vts(1)).ok().expect("vts").kind(), IfoKind::Vts(1));
    for n in [2u32, 3, 99] {
        let e = IfoHandle::open(&r, IfoKind::Vts(n)).err().expect("fails");
        assert_eq!(
            e.message(),
            format!("IFO {n} could not be opened (libdvdread returned NULL)")
        );
    }
}

#[test]
fn enumeration_skips_unresolved_titles_and_keeps_order() {
    let c = enumerate_titles(&reader()).ok().expect("list");
    // Title 1 has no readable title set, title 3 no chapters.
    assert_eq!(c.len(), 1);
    assert!(!c.is_empty());
    let t = &c.titles[0];
    assert_eq!(t.index, 0);
    assert_eq!(t.backend_title_id, 2);
    assert_eq!(t.duration.as_secs(), 95);
    assert_eq!(t.chapter_count, 2);
    assert!(t.enabled && t.skip_reason.is_none());
    let got: Vec<(TrackKind, u32, u32, &str, &str, u8)> = t
        .tracks
        .iter()
        .map(|x| {
            (
                x.kind,
                x.order,
                x.backend_stream_id,
                x.codec.as_str(),
                x.language.as_deref().unwrap_or("?"),
                x.channels,
            )
        })
        .collect();
    assert_eq!(
        got,
        vec![
            (TrackKind::Video, 1, 0, "mpeg2", "und", 0),
            (TrackKind::Audio, 2, 0, "ac3", "eng", 6),
            (TrackKind::Audio, 3, 1, "dts", "fre", 6),
            (TrackKind::Subtitle, 4, 0, "vobsub", "spa", 0),
        ]
    );
}

#[test]
fn every_title_fault_has_an_input() {
    let r = reader();
    assert_eq!(
        build_title(&r, 0, 1, &title_info(2, 1)).err(),
        Some(TitleFault::VtsUnreadable { title_set_nr: 2 })
    );
    assert_eq!(
        build_title(&r, 0, 1, &title_info(1, 9)).err(),
        Some(TitleFault::NoChapters { vts_ttn: 9 })
    );
    let with = |f: fn(&mut IfoHandle)| {
        let mut v = vts();
        f(&mut v);
        DvdReader {
            path: String::new(),
            vmg: Some(vmg()),
            vts: vec![Some(v)],
        }
    };
    let far = with(|v| {
        v.vts_ptt_srpt = Some(VtsPttSrpt {
            nr_of_srpts: 1,
            title: Some(vec![Ttu {
                nr_of_ptts: 1,
                ptt: Some(vec![PttInfo { pgcn: 5, pgn: 1 }]),
            }]),
        });
    });
    assert_eq!(
        build_title(&far, 0, 1, &title_info(1, 1)).err(),
        Some(TitleFault::PgcOutOfRange { pgcn: 5, pgcs: 2 })
    );
    let empty = with(|v| {
        v.vts_ptt_srpt = Some(VtsPttSrpt {
            nr_of_srpts: 1,
            title: Some(vec![Ttu {
                nr_of_ptts: 1,
                ptt: Some(vec![PttInfo { pgcn: 2, pgn: 1 }]),
            }]),
        });
    });
    assert_eq!(
        build_title(&empty, 0, 1, &title_info(1, 1)).err(),
        Some(TitleFault::PgcMissing)
    );
    let bare = with(|v| v.vtsi_mat = None);
    assert_eq!(
        build_title(&bare, 0, 1, &title_info(1, 1)).err(),
        Some(TitleFault::NoManagementTable)
    );
}

#[test]
fn enumeration_fails_without_a_vmg() {
    let r = DvdReader { path: String::new(), vmg: None, vts: Vec::new() };
    let err = enumerate_titles(&r).err().expect("fails");
    assert!(matches!(
        err,
        DiscError::Backend { source: DvdError::IfoOpenFailed { ifo_nr: 0 } }
    ));
    assert_eq!(
        err.message(),
        "backend error: IFO 0 could not be opened (libdvdread returned NULL)"
    );
}

#[test]
fn session_lists_and_selects() {
    let backend = DvdBackend::open(
        "/disc".to_string(),
        Some(DiscIfos { vmg: Some(vmg()), vts: vec![Some(vts())] }),
    )
    .ok()
    .expect("open");
    assert_eq!(backend.path(), "/disc");
    let mut s = Session::new(backend).ok().expect("session");
    assert_eq!(s.disc_type(), DiscType::Dvd);
    assert_eq!(s.path(), "/disc");
    assert_eq!(s.backend().reader().vts.len(), 1);
    assert_eq!(s.collection().len(), 1);
    s.select(&Selection { titles: TitleSelector::Indices(vec![7]), ..Selection::default() });
    assert!(s.collection().enabled_titles().is_empty());
    s.collection_mut().titles[0].enabled = true;
    assert_eq!(s.collection().enabled_titles().len(), 1);
    let source = DvdSource::open("/d".to_string(), Some(DiscIfos { vmg: None, vts: Vec::new() }))
        .ok()
        .expect("source");
    assert_eq!(source.disc_type(), DiscType::Dvd);
    assert_eq!(DiscSource::path(&source), "/d");
    assert!(source.reader().vmg.is_none());
}

#[test]
fn languages_and_codecs() {
    assert_eq!(iso639_3(0x6465), "ger");
    assert_eq!(iso639_3(0x4445), "ger");
    assert_eq!(iso639_3(0x7878), "und");
    assert_eq!(iso639_3(0x7468), "und");
    assert_eq!(iso639_3(0x456E), "eng");
    assert_eq!(iso639_3(0x6672), "fre");
    for raw in 0..=u16::MAX {
        let code = iso639_3(raw);
        assert!(code.len() == 3 && code.bytes().all(|b| b.is_ascii_lowercase()));
    }
    assert_eq!(iso639_3(0), "und");
    assert_eq!(iso639_3(0x6530), "und");
    assert_eq!(audio_codec_str(3), "mp2");
    assert_eq!(audio_codec_str(4), "lpcm");
    assert_eq!(audio_codec_str(7), "ac3");
}

#[test]
fn cell_lookup_answers_for_every_title() {
    let l = CellLookup::build(&reader()).ok().expect("build");
    assert_eq!(l.len(), 3);
    assert!(!l.is_empty());
    assert_eq!(l.vts_for_title(0), None);
    assert_eq!(l.vts_for_title(1), Some(2));
    assert_eq!(l.vts_for_title(2), Some(1));
    assert_eq!(l.vts_for_title(4), None);
    assert!(l.get(2, 1, 2).expect("cell").stc_discontinuity);
    assert!(!l.get(2, 1, 1).expect("cell").stc_discontinuity);
    assert_eq!(l.get(2, 1, 3).expect("cell").first_sector, 1041);
    assert!(l.get(2, 1, 0).is_none() && l.get(2, 1, 4).is_none());
    assert!(l.get(2, 2, 1).is_none() && l.get(2, 0, 1).is_none());
    assert!(l.get(1, 1, 1).is_none() && l.get(0, 1, 1).is_none());
    let broken = DvdReader { path: String::new(), vmg: None, vts: Vec::new() };
    assert!(matches!(
        CellLookup::build(&broken),
        Err(DvdError::IfoOpenFailed { ifo_nr: 0 })
    ));
}

#[test]
fn cells_and_chapters_follow_the_tables() {
    let p = pgc();
    let cells = cells_in_pgc(&p);
    assert_eq!(cells.len(), 3);
    assert_eq!(cells[1].block_count, 1031);
    assert_eq!(cells[2].idx, 2);
    let ends = cumulative_cell_end_nanos(&p);
    assert_eq!(ends, vec![10_000_000_000, 30_000_000_000, 95_200_000_000]);
    assert_eq!(program_start_cell(&p, 0), None);
    assert_eq!(program_start_cell(&p, 2), Some(3));
    assert_eq!(program_start_cell(&p, 3), None);
    let ch = [
        PttInfo { pgcn: 1, pgn: 1 },
        PttInfo { pgcn: 1, pgn: 2 },
        PttInfo { pgcn: 1, pgn: 7 },
    ];
    assert_eq!(chapter_start_nanos(&p, &ch), vec![0, 30_000_000_000, 0]);
    let none = Pgc { cell_playback: None, program_map: None, ..pgc() };
    assert!(cells_in_pgc(&none).is_empty());
    assert!(cumulative_cell_end_nanos(&none).is_empty());
    assert_eq!(program_start_cell(&none, 1), None);
}

#[test]
fn chapter_xml_is_complete() {
    let mut w = String::new();
    write_chapters_xml(&mut w, &pgc(), &[PttInfo { pgcn: 1, pgn: 2 }], 3, "eng");
    let want = format!(
        "\u{FEFF}<?xml version=\"1.0\"?>\n<!-- <!DOCTYPE Chapters SYSTEM \"matroskachapters.dtd\"> -->\n<Chapters>\n  <EditionEntry>\n    <EditionFlagHidden>0</EditionFlagHidden>\n    <EditionFlagDefault>1</EditionFlagDefault>\n    <EditionUID>{}</EditionUID>\n    <ChapterAtom>\n      <ChapterUID>{}</ChapterUID>\n      <ChapterTimeStart>00:00:30.000000000</ChapterTimeStart>\n      <ChapterFlagHidden>0</ChapterFlagHidden>\n      <ChapterFlagEnabled>1</ChapterFlagEnabled>\n      <ChapterTimeEnd>00:01:35.200000000</ChapterTimeEnd>\n      <ChapterDisplay>\n        <ChapterString>Chapter 01</ChapterString>\n        <ChapterLanguage>eng</ChapterLanguage>\n      </ChapterDisplay>\n    </ChapterAtom>\n  </EditionEntry>\n</Chapters>\n",
        stable_uid(3 * 0x1_0000),
        stable_uid(3 * 0x1_0000 + 1),
    );
    assert_eq!(w, want);
    // First output of splitmix64 for seed 0.
    assert_eq!(stable_uid(0), 0xE220_A839_7B1D_CDAF);
}

#[test]
fn table_sizes_follow_the_last_byte() {
    assert_eq!(cell_adr_count(18), 0);
    assert_eq!(cell_adr_count(19), 1);
    assert_eq!(cell_adr_count(8 + 24 - 1), 2);
    assert_eq!(cell_adr_count(u32::MAX), 357_913_940);
    assert_eq!(vobu_count(6), 0);
    assert_eq!(vobu_count(7), 1);
    assert_eq!(vobu_count(15), 3);
    let v = vts();
    assert_eq!(v.cell_adr_table().len(), 4);
    assert_eq!(v.vobu_start_sectors(), &[0, 120, 240]);
    assert_eq!(v.tmaps().len(), 1);
    assert!(v.titles().is_empty());
    assert_eq!(v.chapters_for(0).len(), 2);
    assert!(v.chapters_for(2).is_empty());
    assert_eq!(vmg().titles().len(), 3);
    assert_eq!(bcd_to_u8(0x59), 59);
    assert_eq!(format_dvd_time(&time(0x01, 0x02, 0x03, 0xD5)), "01:02:03.15");
}

#[test]
fn title_plan_and_reads() {
    let r = reader();
    assert!(matches!(plan_title(&r, 0), Err(DumpTitleError::TitleZero)));
    assert!(matches!(
        plan_title(&r, 4),
        Err(DumpTitleError::TitleOutOfRange { title: 4, titles: 3 })
    ));
    assert!(matches!(
        plan_title(&r, 1),
        Err(DumpTitleError::Ifo(DvdError::IfoOpenFailed { ifo_nr: 2 }))
    ));
    assert!(matches!(
        plan_title(&r, 3),
        Err(DumpTitleError::Unresolved(TitleFault::NoChapters { vts_ttn: 9 }))
    ));
    let hollow = {
        let mut v = vts();
        v.vts_pgcit = Some(Pgcit {
            nr_of_pgci_srp: 1,
            pgci_srp: Some(vec![PgciSrp { pgc: Some(Pgc { cell_playback: None, ..pgc() }) }]),
        });
        DvdReader { path: String::new(), vmg: Some(vmg()), vts: vec![Some(v)] }
    };
    let empty = plan_title(&hollow, 2).ok().expect("plan");
    assert!(matches!(empty.check_cells(), Err(DumpTitleError::NoCells { nr_of_cells: 3 })));

    let plan = plan_title(&r, 2).ok().expect("plan");
    assert_eq!(plan.title_set_nr, 1);
    assert_eq!(plan.cells.len(), 3);
    assert!(plan.check_cells().is_ok());
    assert_eq!(plan.pgc_seconds, 95);

    let mut dump = TitleDump::new();
    let mut reads = Vec::new();
    for c in &plan.cells {
        let mut rest = CellRead::of(c);
        while let Some((offset, count)) = rest.next_chunk() {
            reads.push((offset, count));
            dump.add_chunk(&vec![0u8; count as usize * 2048], count);
        }
        assert!(dump.end_cell(c));
    }
    assert_eq!(reads, vec![(0, 10), (10, 512), (522, 512), (1034, 7), (1041, 1)]);
    let (report, checks) = dump.finish(&plan);
    assert_eq!(report.cells, 3);
    assert_eq!(report.total_blocks, 1042);
    assert_eq!(report.total_bytes, 1042 * 2048);
    assert!(checks.all_blocks && checks.full_blocks && checks.duration);
    assert_eq!(report.sha256.len(), 64);
}

#[test]
fn short_dumps_fail_their_checks() {
    let r = reader();
    let plan = plan_title(&r, 2).ok().expect("plan");
    let mut dump = TitleDump::new();
    dump.add_chunk(b"abc", 1);
    assert!(!dump.end_cell(&plan.cells[0]));
    let (report, checks) = dump.finish(&plan);
    assert_eq!(
        report.sha256,
        "ba7816bf8f01cfea414140de5dae2223b00361a396177a9cb410ff61f20015ad"
    );
    assert!(!checks.all_blocks && !checks.full_blocks && !checks.duration);
}

#[test]
fn listing_shows_the_index_map() {
    let c = enumerate_titles(&reader()).ok().expect("list");
    assert_eq!(
        listing(DiscType::Dvd, &c),
        "DVD — 1 title(s)\n\ntitle #00  (id 2)  00:01:35  2 chapter(s)\n    video 0  mpeg2   und\n    audio 0  ac3     eng  6ch\n    audio 1  dts     fre  6ch\n    subtitle 0  vobsub  spa\n"
    );
}

fn probe() -> Result<CssProbe, DvdError> {
    CssProbe::open(
        "/x.iso",
        PathKind::IsoFile,
        Some(CssAnswer { scrambled: true, error: Some("bad \"key\"".to_string()) }),
        Some((300, [0, 0, 1, 0xBA])),
        None,
    )
}

#[test]
fn info_shows_every_table() {
    let mut w = String::new();
    assert!(info::run(&reader(), &probe(), &mut w).is_ok());
    let lines = [
        "CSS protection:",
        "  probe method:  ISO file (libdvdread UDFFindFile -> raw block read)",
        "  probed at:     /x.iso@sector=300",
        "  first 4 bytes: 00 00 01 ba",
        "  is_scrambled:  false -> not scrambled  (raw VOB sector starts with MPEG-PS pack 00 00 01 ba)",
        "  libdvdcss last_error: \"bad \\\"key\\\"\"",
        "  vmg_identifier:           \"DVDVIDEO-VMG\"",
        "  specification_version:    0x11",
        "  vmg_category:             0x00fe0000",
        "  provider_identifier:      \"ACME\"",
        "  first_play_pgc:          present (nr_of_programs=2 nr_of_cells=3 playback_time=00:01:35.00)",
        "  ptl_mait:                nr_of_countries=1 nr_of_vtss=2",
        "  vts_atrt:                nr_of_vtss=2",
        "titles (3 entries in tt_srpt):",
        "  Title 2 (tt_srpt[1]):",
        "    parental_id:        0x0000",
        "      (could not open VTS_02_0.IFO: IFO 2 could not be opened (libdvdread returned NULL))",
        "      display_aspect_ratio:  3 (16:9)",
        "      permitted_df:          2 (letterboxed only)",
        "      picture_size:          0 => 720x576",
        "    vts_audio_attr (2 active streams of 8 slots):",
        "      [1] audio_format=6 (dts)",
        "          channels=5 (6ch)",
        "          lang_code=0x4652 (FR)",
        "          PS stream id:           0xBD substream 0x89",
        "    vts_subp_attr (1 active streams of 32 slots):",
        "      [0] code_mode=0  type=0x01",
        "          PS stream id:           0xBD substream 0x20",
        "    chapters for vts_ttn=1 (2 entries):",
        "      ch  2: pgcn=  1  pgn=  2",
        "    vts_c_adt:        nr_of_vobs=4  cell_adr_table_entries=4",
        "      vob_id=  1 cell_id=  3 start=200 last=299",
        "      ... (1 more)",
        "    vts_vobu_admap:   vobu_start_sectors_entries=3  (first/last VOBU starts logged below)",
        "      last  VOBU start sector: 240",
        "      tmap[0]: tmu=4s nr_of_entries=17",
        "      nr_of_pgci_srp:   2  (2 PGCs in this VTS)",
        "      playback_time:    00:01:35.00  (HH:MM:SS.FF, BCD-encoded)",
        "      audio_control (active in PGC: 2):",
        "        slot 0 -> stream_num=0  ctrl=0x8000  ac3  en  PS 0xBD/sub 0x80",
        "        slot 1 -> stream_num=3  ctrl=0x8300  ac3      PS 0xBD/sub 0x83  WARN: stream_num >= nr_of_vts_audio_streams",
        "      subp_control (active in PGC: 1):",
        "        slot 0 -> ctrl=0x80010203  streams[4:3=0 wide=1 letterbox=2 pan&scan=3]  es  PS 0xBD/sub 0x20",
        "      cells (first 3 of 3):",
        "        [1] sectors 10..1040 (   1030 blocks), playback_time=00:00:20.00",
    ];
    let mut at = 0;
    for l in lines {
        let line = format!("{l}\n");
        let found = w[..].find(&line);
        assert!(found.is_some(), "missing: {l}");
        at += found.unwrap_or(0);
    }
    assert!(at > 0);
    assert!(w.contains(&format!("      palette (YCrCb x16):{}\n", " 108080".repeat(16))));
    assert!(w.contains("    (pgc pointer for vts_ttn=") == false);
}

#[test]
fn info_without_tables() {
    let r = DvdReader {
        path: String::new(),
        vmg: Some(empty_ifo(IfoKind::Vmg)),
        vts: Vec::new(),
    };
    let failed = CssProbe::open("/x", PathKind::Other, None, None, None);
    let mut w = String::new();
    assert!(info::run(&r, &failed, &mut w).is_ok());
    assert_eq!(
        w,
        "CSS protection:\n  (libdvdcss could not open the path: could not open disc at /x: libdvdcss dvdcss_open() returned NULL)\nVMG IFO opened but vmgi_mat was NULL (parse failure?)\n\nVMG ancillary tables:\n  first_play_pgc:          (none)\n  ptl_mait:                (no parental management table)\n  vts_atrt:                (no VTS attribute table)\n\n(no titles found in tt_srpt)\n"
    );
    let gone = DvdReader { path: String::new(), vmg: None, vts: Vec::new() };
    let mut v = String::new();
    assert!(matches!(
        info::run(&gone, &probe(), &mut v),
        Err(DvdError::IfoOpenFailed { ifo_nr: 0 })
    ));
    assert!(v.starts_with("CSS protection:\n"));
}
