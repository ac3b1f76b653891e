//! Manual title and track selection.
//!
//! A [`Selection`] sets the `enabled` flags of a title collection. Track
//! selectors apply per kind and count positions within the kind: audio index 0
//! is the first audio track, whatever stands before it.
use vstd::prelude::*;
use crate::model::{
    is_shorter, Duration, SkipReason, Title, TitleCollection, Track, TrackKind,
};
use crate::text::{eq_ignore_ascii_case, same_ignoring_case};

verus! {

/// Which titles to select.
#[derive(Debug, Clone, PartialEq, Eq)]
pub enum TitleSelector {
    /// All titles that no default filter left out.
    All,
    /// The titles with these indices.
    Indices(Vec<usize>),
}

impl Default for TitleSelector {
    fn default() -> (s: Self)
        ensures
            s is All,
    {
        TitleSelector::All
    }
}

/// Which tracks of one kind to select.
#[derive(Debug, Clone, PartialEq, Eq)]
pub enum TrackSelector {
    /// All tracks of the kind.
    All,
    /// No track of the kind.
    Nothing,
    /// Tracks at these positions among those of the kind, from 0.
    Indices(Vec<usize>),
    /// Tracks in one of these languages, whatever the case of the letters.
    Languages(Vec<String>),
}

impl Default for TrackSelector {
    fn default() -> (s: Self)
        ensures
            s is All,
    {
        TrackSelector::All
    }
}

/// `lang` is one of `langs`.
pub open spec fn language_in(langs: Seq<String>, lang: Seq<char>) -> bool {
    exists|i: int| 0 <= i < langs.len() && same_ignoring_case(#[trigger] langs[i]@, lang)
}

/// A track has a language, and it is one of `langs`.
pub open spec fn track_matches(langs: Seq<String>, language: Option<String>) -> bool {
    language matches Some(l) && language_in(langs, l@)
}

/// `n` is one of the indices.
pub open spec fn has_index(idxs: Seq<usize>, n: int) -> bool {
    exists|i: int| 0 <= i < idxs.len() && #[trigger] idxs[i] == n
}

/// Whether a selector takes the track at `position` among those of its kind.
pub open spec fn selector_takes(
    sel: TrackSelector,
    position: int,
    language: Option<String>,
) -> bool {
    match sel {
        TrackSelector::All => true,
        TrackSelector::Nothing => false,
        TrackSelector::Indices(idxs) => has_index(idxs@, position),
        TrackSelector::Languages(langs) => track_matches(langs@, language),
    }
}

fn contains_index(idxs: &Vec<usize>, n: usize) -> (b: bool)
    ensures
        b == has_index(idxs@, n as int),
{
    let mut i: usize = 0;
    while i < idxs.len()
        invariant
            i <= idxs.len(),
            forall|j: int| 0 <= j < i ==> #[trigger] idxs@[j] != n,
        decreases idxs.len() - i,
    {
        if idxs[i] == n {
            return true;
        }
        i = i + 1;
    }
    false
}

fn matches_language(langs: &Vec<String>, language: &Option<String>) -> (b: bool)
    ensures
        b == track_matches(langs@, *language),
{
    match language {
        None => false,
        Some(l) => {
            let mut i: usize = 0;
            while i < langs.len()
                invariant
                    i <= langs.len(),
                    *language == Some(*l),
                    forall|j: int| 0 <= j < i ==> !same_ignoring_case(#[trigger] langs@[j]@, l@),
                decreases langs.len() - i,
            {
                if eq_ignore_ascii_case(langs[i].as_str(), l.as_str()) {
                    assert(same_ignoring_case(langs@[i as int]@, l@));
                    return true;
                }
                i = i + 1;
            }
            false
        },
    }
}

impl TrackSelector {
    /// Whether the track at `position` among those of its kind is taken.
    pub fn selects(&self, position: usize, language: &Option<String>) -> (b: bool)
        ensures
            b == selector_takes(*self, position as int, *language),
    {
        match self {
            TrackSelector::All => true,
            TrackSelector::Nothing => false,
            TrackSelector::Indices(idxs) => contains_index(idxs, position),
            TrackSelector::Languages(langs) => matches_language(langs, language),
        }
    }
}

/// Tracks of a kind among the first `n`.
pub open spec fn kind_count(tracks: Seq<Track>, kind: TrackKind, n: int) -> int
    decreases n,
{
    if n <= 0 {
        0
    } else {
        kind_count(tracks, kind, n - 1) + (if tracks[n - 1].kind == kind {
            1int
        } else {
            0
        })
    }
}

/// A track of the kind is there.
pub open spec fn kind_present(tracks: Seq<Track>, kind: TrackKind) -> bool {
    exists|i: int| 0 <= i < tracks.len() && #[trigger] tracks[i].kind == kind
}

/// A track of the kind is in one of the languages.
pub open spec fn kind_matched(tracks: Seq<Track>, kind: TrackKind, langs: Seq<String>) -> bool {
    exists|i: int|
        0 <= i < tracks.len() && #[trigger] tracks[i].kind == kind && track_matches(
            langs,
            tracks[i].language,
        )
}

/// A language selector that matches no track of a kind that is there takes all
/// of them: it never drops a kind silently.
pub open spec fn falls_back(tracks: Seq<Track>, kind: TrackKind, sel: TrackSelector) -> bool {
    sel matches TrackSelector::Languages(langs) && kind_present(tracks, kind) && !kind_matched(
        tracks,
        kind,
        langs@,
    )
}

/// Whether the track at `i` becomes enabled by the selector of its kind.
pub open spec fn track_choice(tracks: Seq<Track>, i: int, sel: TrackSelector) -> bool {
    let kind = tracks[i].kind;
    falls_back(tracks, kind, sel) || selector_takes(
        sel,
        kind_count(tracks, kind, i),
        tracks[i].language,
    )
}

/// The tracks once the selector of one kind was applied.
pub open spec fn kind_applied(
    tracks: Seq<Track>,
    kind: TrackKind,
    sel: TrackSelector,
) -> Seq<Track> {
    Seq::new(
        tracks.len(),
        |i: int|
            if tracks[i].kind == kind {
                Track { enabled: track_choice(tracks, i, sel), ..tracks[i] }
            } else {
                tracks[i]
            },
    )
}

/// A complete request: which titles, and for each kind which tracks.
#[derive(Debug, Clone)]
pub struct Selection {
    pub titles: TitleSelector,
    pub video: TrackSelector,
    pub audio: TrackSelector,
    pub subtitle: TrackSelector,
}

impl Default for Selection {
    fn default() -> (s: Self)
        ensures
            s.titles is All,
            s.video is All,
            s.audio is All,
            s.subtitle is All,
    {
        Selection {
            titles: TitleSelector::All,
            video: TrackSelector::All,
            audio: TrackSelector::All,
            subtitle: TrackSelector::All,
        }
    }
}

/// The selector of a kind.
pub open spec fn selector_for(sel: Selection, kind: TrackKind) -> TrackSelector {
    match kind {
        TrackKind::Video => sel.video,
        TrackKind::Audio => sel.audio,
        TrackKind::Subtitle => sel.subtitle,
    }
}

/// Whether a title becomes enabled. An explicit list overrides the default
/// filters.
pub open spec fn title_choice(sel: TitleSelector, title: Title) -> bool {
    match sel {
        TitleSelector::All => title.skip_reason is None,
        TitleSelector::Indices(idxs) => has_index(idxs@, title.index as int),
    }
}

/// The tracks of a title once a selection was applied.
pub open spec fn tracks_applied(sel: Selection, tracks: Seq<Track>) -> Seq<Track> {
    Seq::new(
        tracks.len(),
        |i: int|
            Track {
                enabled: track_choice(tracks, i, selector_for(sel, tracks[i].kind)),
                ..tracks[i]
            },
    )
}

/// `after` is `before` once a selection was applied: only `enabled` flags
/// differ.
pub open spec fn title_applied(sel: Selection, before: Title, after: Title) -> bool {
    &&& after == Title {
        enabled: title_choice(sel.titles, before),
        tracks: after.tracks,
        ..before
    }
    &&& after.tracks@ == tracks_applied(sel, before.tracks@)
}

/// Sets the `enabled` flag of every track of `kind`, counting positions within
/// the kind.
fn apply_kind(tracks: &mut Vec<Track>, kind: TrackKind, sel: &TrackSelector)
    ensures
        final(tracks)@ == kind_applied(old(tracks)@, kind, *sel),
{
    let ghost before = tracks@;
    let mut lenient = false;
    if let TrackSelector::Languages(langs) = sel {
        let mut present = false;
        let mut any_match = false;
        let mut i: usize = 0;
        while i < tracks.len()
            invariant
                i <= tracks.len(),
                tracks@ == before,
                present == exists|j: int| 0 <= j < i && #[trigger] before[j].kind == kind,
                any_match == exists|j: int|
                    0 <= j < i && #[trigger] before[j].kind == kind && track_matches(
                        langs@,
                        before[j].language,
                    ),
            decreases tracks.len() - i,
        {
            if tracks[i].kind == kind {
                present = true;
                assert(before[i as int].kind == kind);
                if matches_language(langs, &tracks[i].language) {
                    any_match = true;
                }
            }
            i = i + 1;
        }
        lenient = present && !any_match;
    }
    assert(lenient == falls_back(before, kind, *sel));
    let mut position: usize = 0;
    let mut i: usize = 0;
    while i < tracks.len()
        invariant
            i <= tracks.len(),
            position <= i,
            tracks.len() == before.len(),
            lenient == falls_back(before, kind, *sel),
            position == kind_count(before, kind, i as int),
            forall|j: int|
                0 <= j < i ==> #[trigger] tracks@[j] == kind_applied(before, kind, *sel)[j],
            forall|j: int| i <= j < before.len() ==> #[trigger] tracks@[j] == before[j],
        decreases tracks.len() - i,
    {
        if tracks[i].kind == kind {
            let enabled = lenient || sel.selects(position, &tracks[i].language);
            tracks[i].enabled = enabled;
            position = position + 1;
        }
        i = i + 1;
    }
    assert(tracks@ =~= kind_applied(before, kind, *sel));
}

/// Tracks that differ at most in their `enabled` flags.
pub open spec fn same_but_flags(a: Seq<Track>, b: Seq<Track>) -> bool {
    a.len() == b.len() && forall|i: int|
        0 <= i < a.len() ==> #[trigger] b[i] == (Track { enabled: b[i].enabled, ..a[i] })
}

/// No choice depends on the flags as they were.
proof fn lemma_choice_ignores_flags(a: Seq<Track>, b: Seq<Track>, i: int, sel: TrackSelector)
    requires
        same_but_flags(a, b),
        0 <= i < a.len(),
    ensures
        track_choice(a, i, sel) == track_choice(b, i, sel),
{
    let kind = a[i].kind;
    assert(b[i].kind == kind);
    lemma_count_ignores_flags(a, b, kind, i);
    if let TrackSelector::Languages(langs) = sel {
        if kind_present(a, kind) {
            let j = choose|j: int| 0 <= j < a.len() && #[trigger] a[j].kind == kind;
            assert(b[j].kind == kind);
        }
        if kind_present(b, kind) {
            let j = choose|j: int| 0 <= j < b.len() && #[trigger] b[j].kind == kind;
            assert(a[j].kind == kind);
        }
        if kind_matched(a, kind, langs@) {
            let j = choose|j: int|
                0 <= j < a.len() && #[trigger] a[j].kind == kind && track_matches(
                    langs@,
                    a[j].language,
                );
            assert(b[j].kind == kind);
        }
        if kind_matched(b, kind, langs@) {
            let j = choose|j: int|
                0 <= j < b.len() && #[trigger] b[j].kind == kind && track_matches(
                    langs@,
                    b[j].language,
                );
            assert(a[j].kind == kind);
        }
    }
}

proof fn lemma_count_ignores_flags(a: Seq<Track>, b: Seq<Track>, kind: TrackKind, n: int)
    requires
        same_but_flags(a, b),
        0 <= n <= a.len(),
    ensures
        kind_count(a, kind, n) == kind_count(b, kind, n),
    decreases n,
{
    if n > 0 {
        assert(b[n - 1].kind == a[n - 1].kind);
        lemma_count_ignores_flags(a, b, kind, n - 1);
    }
}

proof fn lemma_kinds_compose(sel: Selection, tracks: Seq<Track>)
    ensures
        kind_applied(
            kind_applied(
                kind_applied(tracks, TrackKind::Video, sel.video),
                TrackKind::Audio,
                sel.audio,
            ),
            TrackKind::Subtitle,
            sel.subtitle,
        ) == tracks_applied(sel, tracks),
{
    let a = kind_applied(tracks, TrackKind::Video, sel.video);
    let b = kind_applied(a, TrackKind::Audio, sel.audio);
    let c = kind_applied(b, TrackKind::Subtitle, sel.subtitle);
    let d = tracks_applied(sel, tracks);
    assert forall|i: int| 0 <= i < tracks.len() implies c[i] == d[i] by {
        assert(same_but_flags(tracks, a));
        assert(same_but_flags(tracks, b)) by {
            assert forall|j: int| 0 <= j < b.len() implies #[trigger] b[j] == (Track {
                enabled: b[j].enabled,
                ..tracks[j]
            }) by {
                assert(a[j] == (Track { enabled: a[j].enabled, ..tracks[j] }));
            }
        }
        lemma_choice_ignores_flags(tracks, a, i, sel.audio);
        lemma_choice_ignores_flags(tracks, b, i, sel.subtitle);
    }
    assert(c =~= d);
}

fn title_selected(sel: &TitleSelector, title: &Title) -> (b: bool)
    ensures
        b == title_choice(*sel, *title),
{
    match sel {
        TitleSelector::All => title.skip_reason.is_none(),
        TitleSelector::Indices(idxs) => contains_index(idxs, title.index),
    }
}

impl Selection {
    /// Applies the selectors to a collection, setting the `enabled` flag of
    /// every title and every track.
    pub fn apply(&self, collection: &mut TitleCollection)
        ensures
            final(collection).titles@.len() == old(collection).titles@.len(),
            forall|i: int|
                0 <= i < old(collection).titles@.len() ==> title_applied(
                    *self,
                    old(collection).titles@[i],
                    #[trigger] final(collection).titles@[i],
                ),
    {
        let ghost before = collection.titles@;
        let mut i: usize = 0;
        while i < collection.titles.len()
            invariant
                i <= collection.titles.len(),
                collection.titles@.len() == before.len(),
                forall|j: int|
                    0 <= j < i ==> title_applied(
                        *self,
                        before[j],
                        #[trigger] collection.titles@[j],
                    ),
                forall|j: int|
                    i <= j < before.len() ==> #[trigger] collection.titles@[j] == before[j],
            decreases collection.titles.len() - i,
        {
            let ghost tracks = collection.titles@[i as int].tracks@;
            let enabled = title_selected(&self.titles, &collection.titles[i]);
            collection.titles[i].enabled = enabled;
            apply_kind(&mut collection.titles[i].tracks, TrackKind::Video, &self.video);
            apply_kind(&mut collection.titles[i].tracks, TrackKind::Audio, &self.audio);
            apply_kind(&mut collection.titles[i].tracks, TrackKind::Subtitle, &self.subtitle);
            proof {
                lemma_kinds_compose(*self, tracks);
            }
            i = i + 1;
        }
    }

    /// The selector of a kind.
    pub fn for_kind(&self, kind: TrackKind) -> (r: &TrackSelector)
        ensures
            *r == selector_for(*self, kind),
    {
        match kind {
            TrackKind::Video => &self.video,
            TrackKind::Audio => &self.audio,
            TrackKind::Subtitle => &self.subtitle,
        }
    }
}

/// Enables a title and all its tracks.
pub fn enable_all(title: &mut Title)
    ensures
        *final(title) == (Title { enabled: true, tracks: final(title).tracks, ..*old(title) }),
        final(title).tracks@.len() == old(title).tracks@.len(),
        forall|i: int|
            0 <= i < old(title).tracks@.len() ==> #[trigger] final(title).tracks@[i] == (Track {
                enabled: true,
                ..old(title).tracks@[i]
            }),
{
    title.enabled = true;
    let mut i: usize = 0;
    while i < title.tracks.len()
        invariant
            i <= title.tracks.len(),
            *title == (Title { enabled: true, tracks: title.tracks, ..*old(title) }),
            title.tracks@.len() == old(title).tracks@.len(),
            forall|j: int|
                0 <= j < i ==> #[trigger] title.tracks@[j] == (Track {
                    enabled: true,
                    ..old(title).tracks@[j]
                }),
            forall|j: int|
                i <= j < title.tracks@.len() ==> #[trigger] title.tracks@[j] == old(
                    title,
                ).tracks@[j],
        decreases title.tracks.len() - i,
    {
        title.tracks[i].enabled = true;
        i = i + 1;
    }
}

/// A title once the minimum length was applied.
pub open spec fn min_length_marked(title: Title, min: Duration) -> Title {
    if title.skip_reason is None && is_shorter(title.duration, min) {
        Title { skip_reason: Some(SkipReason::MinLength), ..title }
    } else {
        title
    }
}

/// Flags every title shorter than `min` that is not flagged yet. Nothing is
/// removed.
pub fn mark_min_length(collection: &mut TitleCollection, min: Duration)
    ensures
        final(collection).titles@ == old(collection).titles@.map_values(
            |t: Title| min_length_marked(t, min),
        ),
{
    let ghost before = collection.titles@;
    let mut i: usize = 0;
    while i < collection.titles.len()
        invariant
            i <= collection.titles.len(),
            collection.titles@.len() == before.len(),
            forall|j: int|
                0 <= j < i ==> #[trigger] collection.titles@[j] == min_length_marked(
                    before[j],
                    min,
                ),
            forall|j: int|
                i <= j < before.len() ==> #[trigger] collection.titles@[j] == before[j],
        decreases collection.titles.len() - i,
    {
        if collection.titles[i].skip_reason.is_none() && collection.titles[i].duration.shorter_than(
            &min,
        ) {
            collection.titles[i].skip_reason = Some(SkipReason::MinLength);
        }
        i = i + 1;
    }
    assert(collection.titles@ =~= before.map_values(|t: Title| min_length_marked(t, min)));
}

/// The default selection takes every track of every title that no filter left
/// out.
pub proof fn lemma_default_takes_everything(sel: Selection, before: Title, after: Title)
    requires
        sel.titles is All,
        sel.video is All,
        sel.audio is All,
        sel.subtitle is All,
        title_applied(sel, before, after),
    ensures
        after.enabled == (before.skip_reason is None),
        forall|i: int| 0 <= i < after.tracks@.len() ==> (#[trigger] after.tracks@[i]).enabled,
{
}

/// A selection overwrites any earlier one: the flags that it finds make no
/// difference.
pub proof fn lemma_last_selection_wins(
    first: Selection,
    second: Selection,
    a: Title,
    b: Title,
    c: Title,
    d: Title,
)
    requires
        title_applied(first, a, b),
        title_applied(second, b, c),
        title_applied(second, a, d),
    ensures
        c.enabled == d.enabled,
        c.tracks@ == d.tracks@,
{
    let x = a.tracks@;
    let y = b.tracks@;
    assert(same_but_flags(x, y));
    assert forall|i: int| 0 <= i < x.len() implies c.tracks@[i] == d.tracks@[i] by {
        assert(y[i] == (Track { enabled: y[i].enabled, ..x[i] }));
        lemma_choice_ignores_flags(x, y, i, selector_for(second, x[i].kind));
    }
    assert(c.tracks@ =~= d.tracks@);
}

/// A language selector never drops a kind that a title has.
pub proof fn lemma_languages_keep_a_track(
    sel: Selection,
    kind: TrackKind,
    before: Title,
    after: Title,
)
    requires
        title_applied(sel, before, after),
        selector_for(sel, kind) is Languages,
        kind_present(before.tracks@, kind),
    ensures
        exists|i: int|
            0 <= i < after.tracks@.len() && #[trigger] after.tracks@[i].kind == kind
                && after.tracks@[i].enabled,
{
    let tracks = before.tracks@;
    let chosen = selector_for(sel, kind);
    let langs = chosen->Languages_0@;
    let i = if kind_matched(tracks, kind, langs) {
        choose|i: int|
            0 <= i < tracks.len() && #[trigger] tracks[i].kind == kind && track_matches(
                langs,
                tracks[i].language,
            )
    } else {
        choose|i: int| 0 <= i < tracks.len() && #[trigger] tracks[i].kind == kind
    };
    assert(tracks[i].kind == kind);
    assert(track_choice(tracks, i, chosen));
    assert(after.tracks@[i].kind == kind);
}

/// A title below the minimum length is not taken by default, but is still
/// taken by its index.
pub proof fn lemma_short_title_by_index_only(
    title: Title,
    min: Duration,
    all: TitleSelector,
    idxs: Vec<usize>,
)
    requires
        is_shorter(title.duration, min),
        all is All,
        has_index(idxs@, title.index as int),
    ensures
        !title_choice(all, min_length_marked(title, min)),
        title_choice(TitleSelector::Indices(idxs), min_length_marked(title, min)),
{
}

proof fn lemma_count_grows(tracks: Seq<Track>, kind: TrackKind, i: int, j: int)
    requires
        0 <= i <= j <= tracks.len(),
    ensures
        kind_count(tracks, kind, i) <= kind_count(tracks, kind, j),
    decreases j,
{
    if i < j {
        lemma_count_grows(tracks, kind, i, j - 1);
    }
}

/// Positions within a kind tell its tracks apart: choosing one position takes
/// the track that has it, and no other of its kind.
pub proof fn lemma_position_takes_one_track(
    tracks: Seq<Track>,
    idxs: Vec<usize>,
    i: int,
    j: int,
)
    requires
        0 <= i < tracks.len(),
        0 <= j < tracks.len(),
        tracks[i].kind == tracks[j].kind,
        idxs@.len() == 1,
        idxs@[0] == kind_count(tracks, tracks[i].kind, i),
    ensures
        track_choice(tracks, j, TrackSelector::Indices(idxs)) == (i == j),
{
    let kind = tracks[i].kind;
    if i < j {
        lemma_count_grows(tracks, kind, i + 1, j);
    } else if j < i {
        lemma_count_grows(tracks, kind, j + 1, i);
    }
    assert(has_index(idxs@, idxs@[0] as int));
}

} // verus!
