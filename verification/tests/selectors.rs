use disc_remuxer::model::{Duration, SkipReason, Title, TitleCollection, Track, TrackKind};
use disc_remuxer::rip::{
    count_enabled, enabled_stream_ids, parse_indices, parse_selection, parse_title_selector,
    parse_track_selector, prepare, rip_job,
};
use disc_remuxer::selection::{enable_all, Selection, TitleSelector, TrackSelector};

fn indices(s: &TrackSelector) -> Option<Vec<usize>> {
    match s {
        TrackSelector::Indices(v) => Some(v.clone()),
        _ => None,
    }
}

fn languages(s: &TrackSelector) -> Option<Vec<String>> {
    match s {
        TrackSelector::Languages(v) => Some(v.clone()),
        _ => None,
    }
}

fn movie(index: usize, secs: u64) -> Title {
    let track = |kind: TrackKind, id: u32, lang: &str| Track {
        kind,
        order: id,
        backend_stream_id: id,
        codec: String::new(),
        language: Some(lang.to_string()),
        channels: 0,
        enabled: false,
    };
    Title {
        index,
        backend_title_id: index as u32 + 1,
        duration: Duration::from_secs(secs),
        chapter_count: 1,
        tracks: vec![
            track(TrackKind::Video, 0, "und"),
            track(TrackKind::Audio, 0, "eng"),
            track(TrackKind::Audio, 1, "FRE"),
            track(TrackKind::Audio, 2, "eng"),
            track(TrackKind::Subtitle, 0, "spa"),
        ],
        enabled: false,
        skip_reason: None,
    }
}

#[test]
fn index_lists() {
    assert_eq!(parse_indices("0, 2 ,,+5,").ok(), Some(vec![0, 2, 5]));
    assert_eq!(parse_indices("").ok(), Some(vec![]));
    assert_eq!(parse_indices(" \u{3000}7\t").ok(), Some(vec![7]));
    let err = parse_indices("1,x\ty,z").err().expect("fails");
    assert_eq!(err.token, "x\ty");
    assert_eq!(err.message(), "not a number: \"x\\ty\"");
    for bad in ["-1", "+", "1 2", "0x1", "99999999999999999999999", "++1"] {
        assert!(parse_indices(bad).is_err(), "{bad}");
    }
    assert_eq!(parse_indices("18446744073709551615").ok(), Some(vec![usize::MAX]));
    assert!(parse_indices("18446744073709551616").is_err());
}

#[test]
fn title_selectors() {
    assert!(matches!(parse_title_selector("ALL"), Ok(TitleSelector::All)));
    match parse_title_selector("3,1") {
        Ok(TitleSelector::Indices(v)) => assert_eq!(v, vec![3, 1]),
        _ => panic!("indices expected"),
    }
    assert!(parse_title_selector("none").is_err());
}

#[test]
fn track_selectors() {
    assert!(matches!(parse_track_selector("All"), TrackSelector::All));
    assert!(matches!(parse_track_selector("NONE"), TrackSelector::Nothing));
    assert!(matches!(parse_track_selector(" , "), TrackSelector::Nothing));
    assert_eq!(indices(&parse_track_selector("0,1")), Some(vec![0, 1]));
    assert_eq!(
        languages(&parse_track_selector("ENG, fre")),
        Some(vec!["eng".to_string(), "fre".to_string()])
    );
    assert_eq!(
        languages(&parse_track_selector("0,eng")),
        Some(vec!["0".to_string(), "eng".to_string()])
    );
}

#[test]
fn rip_preparation() {
    let mut c = TitleCollection { titles: vec![movie(0, 10), movie(1, 200)] };
    let sel = parse_selection("all", "fre", "none").ok().expect("selection");
    prepare(&mut c, &sel, 120);
    assert_eq!(c.titles[0].skip_reason, Some(SkipReason::MinLength));
    assert!(!c.titles[0].enabled && c.titles[1].enabled);
    let t = &c.titles[1];
    assert_eq!(count_enabled(t, TrackKind::Audio), 1);
    assert_eq!(enabled_stream_ids(t, TrackKind::Audio), vec![1]);
    assert_eq!(count_enabled(t, TrackKind::Subtitle), 0);
    let job = rip_job(t).ok().expect("job");
    assert_eq!((job.index, job.title_id), (1, 2));
    assert_eq!(job.audio, vec![1]);
    assert!(job.subp.is_empty());
    let far = Title { backend_title_id: 300, ..movie(2, 1) };
    assert_eq!(rip_job(&far).err(), Some(300));

    let mut d = TitleCollection { titles: vec![movie(0, 10)] };
    prepare(&mut d, &parse_selection("all", "all", "all").ok().expect("selection"), 0);
    assert!(d.titles[0].enabled);
    assert!(parse_selection("x", "all", "all").is_err());
}

#[test]
fn selecting_twice_is_selecting_once() {
    let second = Selection {
        audio: TrackSelector::Indices(vec![2]),
        ..Selection::default()
    };
    let mut a = TitleCollection { titles: vec![movie(0, 10)] };
    let mut b = TitleCollection { titles: vec![movie(0, 10)] };
    enable_all(&mut a.titles[0]);
    Selection { audio: TrackSelector::Nothing, ..Selection::default() }.apply(&mut a);
    second.apply(&mut a);
    second.apply(&mut b);
    let flags = |c: &TitleCollection| -> Vec<bool> {
        c.titles[0].tracks.iter().map(|t| t.enabled).collect()
    };
    assert_eq!(flags(&a), flags(&b));
    assert_eq!(flags(&a), vec![true, false, false, true, true]);
    assert!(matches!(second.for_kind(TrackKind::Audio), TrackSelector::Indices(_)));
    assert!(matches!(second.for_kind(TrackKind::Video), TrackSelector::All));
}
