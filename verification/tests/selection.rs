use disc_remuxer::model::{Duration, SkipReason, Title, TitleCollection, Track, TrackKind};
use disc_remuxer::selection::{mark_min_length, Selection, TitleSelector, TrackSelector};


fn track(kind: TrackKind, order: u32, lang: Option<&str>) -> Track {
    Track {
        kind,
        order,
        backend_stream_id: order,
        codec: "x".into(),
        language: lang.map(str::to_string),
        channels: 0,
        enabled: false,
    }
}

fn sample() -> TitleCollection {
    let mk = |index: usize| Title {
        index,
        backend_title_id: index as u32 + 1,
        duration: Duration::from_secs(60),
        chapter_count: 1,
        tracks: vec![
            track(TrackKind::Video, 1, None),
            track(TrackKind::Audio, 2, Some("eng")),
            track(TrackKind::Audio, 3, Some("fre")),
            track(TrackKind::Subtitle, 4, Some("eng")),
        ],
        enabled: false,
        skip_reason: None,
    };
    TitleCollection {
        titles: vec![mk(0), mk(1), mk(2)],
    }
}

#[test]
fn default_selects_everything() {
    let mut c = sample();
    Selection::default().apply(&mut c);
    assert_eq!(c.enabled_titles().len(), 3);
    for t in &c.titles {
        assert_eq!(t.enabled_tracks().len(), 4);
    }
}

#[test]
fn title_indices_filter() {
    let mut c = sample();
    let sel = Selection {
        titles: TitleSelector::Indices(vec![1]),
        ..Default::default()
    };
    sel.apply(&mut c);
    let enabled: Vec<usize> = c.enabled_titles().iter().map(|t| t.index).collect();
    assert_eq!(enabled, vec![1]);
}

#[test]
fn audio_index_selects_within_kind() {
    let mut c = sample();
    let sel = Selection {
        audio: TrackSelector::Indices(vec![0]),
        ..Default::default()
    };
    sel.apply(&mut c);
    let t = &c.titles[0];
    // first audio (order 2) enabled, second audio (order 3) not
    let enabled_audio: Vec<u32> = t
        .tracks
        .iter()
        .filter(|tr| tr.kind == TrackKind::Audio && tr.enabled)
        .map(|tr| tr.order)
        .collect();
    assert_eq!(enabled_audio, vec![2]);
}

#[test]
fn subtitle_none_and_audio_language() {
    let mut c = sample();
    let sel = Selection {
        audio: TrackSelector::Languages(vec!["fre".into()]),
        subtitle: TrackSelector::Nothing,
        ..Default::default()
    };
    sel.apply(&mut c);
    let t = &c.titles[0];
    let aud: Vec<u32> = t
        .tracks
        .iter()
        .filter(|tr| tr.kind == TrackKind::Audio && tr.enabled)
        .map(|tr| tr.order)
        .collect();
    assert_eq!(aud, vec![3]); // only French audio
    assert_eq!(
        t.tracks
            .iter()
            .filter(|tr| tr.kind == TrackKind::Subtitle && tr.enabled)
            .count(),
        0
    );
}

#[test]
fn audio_language_no_match_falls_back_to_all() {
    let mut c = sample();
    let sel = Selection {
        // no Spanish audio on the sample → lenient fallback to all audio
        audio: TrackSelector::Languages(vec!["spa".into()]),
        ..Default::default()
    };
    sel.apply(&mut c);
    let enabled_audio = c.titles[0]
        .tracks
        .iter()
        .filter(|t| t.kind == TrackKind::Audio && t.enabled)
        .count();
    assert_eq!(enabled_audio, 2);
}

#[test]
fn untagged_audio_not_matched_by_named_language() {
    // A title whose only audio is untagged (None): a named-language
    // filter matches nothing, so the fallback keeps it.
    let mut c = TitleCollection {
        titles: vec![Title {
            index: 0,
            backend_title_id: 1,
            duration: Duration::from_secs(60),
            chapter_count: 1,
            tracks: vec![
                track(TrackKind::Video, 1, None),
                track(TrackKind::Audio, 2, None),
            ],
            enabled: false,
            skip_reason: None,
        }],
    };
    let sel = Selection {
        audio: TrackSelector::Languages(vec!["eng".into()]),
        ..Default::default()
    };
    sel.apply(&mut c);
    assert_eq!(
        c.titles[0]
            .tracks
            .iter()
            .filter(|t| t.kind == TrackKind::Audio && t.enabled)
            .count(),
        1
    );
}

#[test]
fn min_length_unselects_but_keeps_titles() {
    let mut c = sample(); // 3 titles, 60s each
    mark_min_length(&mut c, Duration::from_secs(120));
    // flagged MinLength, but still present (never removed)
    assert_eq!(c.len(), 3);
    assert!(c
        .titles
        .iter()
        .all(|t| t.skip_reason == Some(SkipReason::MinLength)));
    // default (All) selects none of the short titles
    Selection::default().apply(&mut c);
    assert_eq!(c.enabled_titles().len(), 0);
    // but an explicit index overrides the min-length default
    let sel = Selection {
        titles: TitleSelector::Indices(vec![1]),
        ..Default::default()
    };
    sel.apply(&mut c);
    assert_eq!(
        c.enabled_titles().iter().map(|t| t.index).collect::<Vec<_>>(),
        vec![1]
    );
}
