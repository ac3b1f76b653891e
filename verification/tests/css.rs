use disc_remuxer::css::{
    classify_path, first_vob_sector, is_title_vob_filename, title_vobs, vob_candidates, CssAnswer,
    CssProbe, FileFacts, PathKind, ProbeMethod,
};
use disc_remuxer::error::DvdError;

#[test]
fn title_vob_filename_matcher() {
    assert!(is_title_vob_filename("VTS_01_1.VOB"));
    assert!(is_title_vob_filename("VTS_99_9.VOB"));
    assert!(!is_title_vob_filename("VTS_01_0.VOB")); // menu VOB
    assert!(!is_title_vob_filename("VIDEO_TS.VOB"));
    assert!(!is_title_vob_filename("VTS_01_1.IFO"));
    assert!(!is_title_vob_filename("VTS_01.VOB"));
    assert!(!is_title_vob_filename("not_a_vob.txt"));
}

#[test]
fn vob_names_at_the_edges() {
    assert!(is_title_vob_filename("VTS_1_255.VOB"));
    assert!(is_title_vob_filename("VTS_01_+1.VOB"));
    assert!(!is_title_vob_filename("VTS_01_256.VOB"));
    assert!(!is_title_vob_filename("VTS__1.VOB"));
    assert!(!is_title_vob_filename("VTS_0a_1.VOB"));
    assert!(!is_title_vob_filename("VTS_.VOB"));
    assert!(!is_title_vob_filename("vts_01_1.vob"));
}

#[test]
fn vobs_are_tried_in_order() {
    let names: Vec<String> = ["VTS_02_1.VOB", "x", "VTS_01_2.VOB", "VTS_01_0.VOB", "VTS_01_1.VOB"]
        .iter()
        .map(|s| s.to_string())
        .collect();
    assert_eq!(title_vobs(&names), vec!["VTS_01_1.VOB", "VTS_01_2.VOB", "VTS_02_1.VOB"]);
    assert_eq!(first_vob_sector(&[(0, 9999), (5, 2047), (7, 2048), (9, 4096)]), Some(7));
    assert_eq!(first_vob_sector(&[(0, 0)]), None);
    assert_eq!(vob_candidates()[2], "/VIDEO_TS/VTS_03_1.VOB");
}

#[test]
fn probes_by_path_kind() {
    let facts = |d: bool, dir: bool, f: bool| {
        classify_path(Some(FileFacts { is_device: d, is_dir: dir, is_file: f }))
    };
    assert_eq!(facts(true, false, false), PathKind::BlockDevice);
    assert_eq!(facts(false, true, false), PathKind::Directory);
    assert_eq!(facts(false, false, true), PathKind::IsoFile);
    assert_eq!(facts(false, false, false), PathKind::Other);
    assert_eq!(classify_path(None), PathKind::Other);

    let answer = |e: Option<&str>| {
        Some(CssAnswer { scrambled: false, error: e.map(|s| s.to_string()) })
    };
    let p = CssProbe::open("/dev/sr0", PathKind::BlockDevice, answer(Some("no error")), None, None)
        .ok()
        .expect("probe");
    assert!(!p.is_scrambled && p.last_error.is_none());
    assert_eq!(p.method, ProbeMethod::LibdvdcssIoctl);
    let vob = Some(("/d/VTS_01_1.VOB".to_string(), [1, 2, 3, 4]));
    let p = CssProbe::open("/d", PathKind::Directory, answer(Some("")), None, vob)
        .ok()
        .expect("probe");
    assert!(p.is_scrambled && p.last_error.is_none());
    assert_eq!(p.method, ProbeMethod::VobFile);
    assert_eq!(p.probed_location.as_deref(), Some("/d/VTS_01_1.VOB"));
    assert_eq!(p.first_bytes, [1, 2, 3, 4]);
    let p = CssProbe::open("/i", PathKind::IsoFile, answer(Some("e")), Some((0, [0; 4])), None)
        .ok()
        .expect("probe");
    assert_eq!(p.method, ProbeMethod::Inconclusive);
    assert!(p.is_scrambled);
    assert_eq!(p.last_error.as_deref(), Some("e"));
    assert_eq!(p.path, "/i");
    assert!(matches!(
        CssProbe::open("a\0", PathKind::Other, answer(None), None, None),
        Err(DvdError::InvalidPath)
    ));
}
