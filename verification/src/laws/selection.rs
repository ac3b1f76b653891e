//! Laws of selections and of what a rip makes of them.
use vstd::prelude::*;
use crate::demux::StreamKey;
use crate::model::{
    enabled_titles_of, enabled_tracks_of, is_shorter, Duration, SkipReason, Title, Track, TrackKind,
};
use crate::rip::{
    enabled_of_kind, first_field_len, is_prepared, job_keeps, numbers_of, spells_selection,
    spells_track_selector, texts, tokens_of, RipJob,
};
use crate::selection::{
    kind_count, kind_matched, kind_present, min_length_marked, selector_for, title_applied,
    title_choice, track_choice, track_matches, Selection, TitleSelector, TrackSelector,
};
use crate::text::{lower_char, lower_text, same_ignoring_case, trimmed, usize_of};

verus! {

pub proof fn lemma_position(tracks: Seq<Track>, kind: TrackKind, n: int)
    requires
        0 <= n <= tracks.len(),
    ensures
        kind_count(tracks, kind, n) == tracks.subrange(0, n).filter(
            |t: Track| t.kind == kind,
        ).len(),
    decreases n,
{
    reveal(Seq::filter);
    if n > 0 {
        lemma_position(tracks, kind, n - 1);
        assert(tracks.subrange(0, n).drop_last() =~= tracks.subrange(0, n - 1));
        assert(tracks.subrange(0, n).last() == tracks[n - 1]);
    } else {
        assert(tracks.subrange(0, 0) =~= Seq::<Track>::empty());
    }
}

/// A selection changes only the flags: the title, its other fields and every
/// track stay as they are and where they are.
pub proof fn lemma_selection_changes_flags_only(sel: Selection, before: Title, after: Title, i: int)
    requires
        title_applied(sel, before, after),
    ensures
        after.index == before.index,
        after.backend_title_id == before.backend_title_id,
        after.duration == before.duration,
        after.chapter_count == before.chapter_count,
        after.skip_reason == before.skip_reason,
        after.tracks@.len() == before.tracks@.len(),
        0 <= i < before.tracks@.len() ==> {
            let (a, b) = (after.tracks@[i], before.tracks@[i]);
            &&& a.kind == b.kind && a.order == b.order
            &&& a.backend_stream_id == b.backend_stream_id && a.codec == b.codec
            &&& a.language == b.language && a.channels == b.channels
        },
{
}

/// A title is taken by its index where indices are listed, and otherwise where
/// nothing says to skip it.
pub proof fn lemma_titles_taken(sel: Selection, before: Title, after: Title)
    requires
        title_applied(sel, before, after),
    ensures
        sel.titles is All ==> (after.enabled <==> before.skip_reason is None),
        sel.titles matches TitleSelector::Indices(v) ==> (after.enabled <==> v@.contains(
            before.index,
        )),
{
    if let TitleSelector::Indices(v) = sel.titles {
        if v@.contains(before.index) {
            let k = choose|k: int| 0 <= k < v@.len() && v@[k] == before.index;
            assert(v@[k] == before.index as int);
        }
    }
}

/// Each track goes by the selector of its own kind: all, none, those whose
/// position among the tracks of their kind is listed, or those in a listed
/// language. Where no track of the kind is in a listed language, all are taken.
pub proof fn lemma_tracks_taken(
    sel: Selection,
    before: Title,
    after: Title,
    i: int,
    own: TrackSelector,
)
    requires
        title_applied(sel, before, after),
        0 <= i < before.tracks@.len(),
        match before.tracks@[i].kind {
            TrackKind::Video => own == sel.video,
            TrackKind::Audio => own == sel.audio,
            TrackKind::Subtitle => own == sel.subtitle,
        },
    ensures
        ({
            let tracks = before.tracks@;
            let kind = tracks[i].kind;
            let taken = after.tracks@[i].enabled;
            &&& own is All ==> taken
            &&& own is Nothing ==> !taken
            &&& own matches TrackSelector::Indices(v) ==> (taken <==> exists|k: int|
                0 <= k < v@.len() && #[trigger] v@[k] == tracks.subrange(0, i).filter(
                    |t: Track| t.kind == kind,
                ).len())
            &&& own matches TrackSelector::Languages(v) ==> {
                let fits = |t: Track|
                    t.kind == kind && (t.language matches Some(l) && exists|k: int|
                        0 <= k < v@.len() && same_ignoring_case(#[trigger] v@[k]@, l@));
                taken <==> fits(tracks[i]) || forall|j: int|
                    0 <= j < tracks.len() ==> !fits(#[trigger] tracks[j])
            }
        }),
{
    let tracks = before.tracks@;
    let kind = tracks[i].kind;
    lemma_position(tracks, kind, i);
    if let TrackSelector::Languages(v) = own {
        let fits = |t: Track|
            t.kind == kind && (t.language matches Some(l) && exists|k: int|
                0 <= k < v@.len() && same_ignoring_case(#[trigger] v@[k]@, l@));
        assert(kind_present(tracks, kind));
        assert(kind_matched(tracks, kind, v@) <==> exists|j: int|
            0 <= j < tracks.len() && fits(#[trigger] tracks[j])) by {
            if kind_matched(tracks, kind, v@) {
                let j = choose|j: int|
                    0 <= j < tracks.len() && #[trigger] tracks[j].kind == kind && track_matches(
                        v@,
                        tracks[j].language,
                    );
                assert(fits(tracks[j]));
            }
            if exists|j: int| 0 <= j < tracks.len() && fits(#[trigger] tracks[j]) {
                let j = choose|j: int| 0 <= j < tracks.len() && fits(#[trigger] tracks[j]);
                assert(tracks[j].kind == kind && track_matches(v@, tracks[j].language));
            }
        }
        assert(track_matches(v@, tracks[i].language) == fits(tracks[i]));
    }
}

/// A title is flagged as too short exactly where nothing flagged it before and
/// it lasts less than the minimum; nothing else of it changes.
pub proof fn lemma_short_titles_are_flagged(title: Title, min: Duration)
    ensures
        ({
            let after = min_length_marked(title, min);
            let shorter = title.duration.secs < min.secs || (title.duration.secs == min.secs
                && title.duration.nanos < min.nanos);
            &&& title.skip_reason is None && shorter ==> after == (Title {
                skip_reason: Some(SkipReason::MinLength),
                ..title
            })
            &&& title.skip_reason is Some || !shorter ==> after == title
        }),
{
}

/// What a rip works on: titles shorter than the minimum are flagged where there
/// is one, then the selection is applied, title by title.
pub proof fn lemma_rip_is_prepared(
    before: Seq<Title>,
    after: Seq<Title>,
    sel: Selection,
    min_length: u64,
    i: int,
)
    requires
        is_prepared(before, after, sel, min_length),
        0 <= i < before.len(),
    ensures
        after.len() == before.len(),
        min_length == 0 ==> title_applied(sel, before[i], after[i]),
        min_length > 0 ==> title_applied(
            sel,
            min_length_marked(before[i], Duration { secs: min_length, nanos: 0 }),
            after[i],
        ),
{
    let j = i;
    assert(after[j] == after[i]);
}

/// The enabled tracks of a kind are those tracks, in their order; so are the
/// enabled tracks and titles.
pub proof fn lemma_enabled_are_kept_in_order(title: Title, kind: TrackKind, titles: Seq<Title>)
    ensures
        enabled_of_kind(title, kind) == title.tracks@.filter(
            |t: Track| t.enabled && t.kind == kind,
        ),
        enabled_tracks_of(title) == title.tracks@.filter(|t: Track| t.enabled),
        enabled_titles_of(titles) == titles.filter(|t: Title| t.enabled),
{
    lemma_same_filter(title.tracks@, kind);
}

proof fn lemma_same_filter(tracks: Seq<Track>, kind: TrackKind)
    ensures
        tracks.filter(|t: Track| t.kind == kind && t.enabled) == tracks.filter(
            |t: Track| t.enabled && t.kind == kind,
        ),
    decreases tracks.len(),
{
    reveal(Seq::filter);
    if tracks.len() > 0 {
        lemma_same_filter(tracks.drop_last(), kind);
    }
}

/// A rip keeps every video stream, the audio streams whose number is listed,
/// whatever their codec, and the subpictures whose number is listed.
pub proof fn lemma_rip_keeps_what_is_listed(job: RipJob, n: u8)
    ensures
        job_keeps(job, StreamKey::Video(n)),
        job_keeps(job, StreamKey::Ac3(n)) <==> job.audio@.contains(n as u32),
        job_keeps(job, StreamKey::Dts(n)) <==> job.audio@.contains(n as u32),
        job_keeps(job, StreamKey::Lpcm(n)) <==> job.audio@.contains(n as u32),
        n < 32 ==> (job_keeps(job, StreamKey::MpegAudio((0xC0 + n) as u8)) <==> job.audio@.contains(
            n as u32,
        )),
        job_keeps(job, StreamKey::Subpicture(n)) <==> job.subp@.contains(n as u32),
{
}

proof fn lemma_field_len(s: Seq<char>, n: int)
    requires
        0 <= n <= s.len(),
        forall|i: int| 0 <= i < n ==> #[trigger] s[i] != ',',
        n < s.len() ==> s[n] == ',',
    ensures
        first_field_len(s) == n,
    decreases n,
{
    if n > 0 {
        let t = s.skip(1);
        assert forall|i: int| 0 <= i < n - 1 implies #[trigger] t[i] != ',' by {
            assert(t[i] == s[i + 1]);
        }
        lemma_field_len(t, n - 1);
    }
}

/// Lists are taken apart at their commas, each entry trimmed and empty ones left
/// out: a field without a comma is one entry or none, and a comma joins the
/// entries before it to those behind it.
pub proof fn lemma_lists_split_at_commas(field: Seq<char>, rest: Seq<char>)
    requires
        forall|i: int| 0 <= i < field.len() ==> #[trigger] field[i] != ',',
    ensures
        trimmed(field).len() > 0 ==> tokens_of(field) == seq![trimmed(field)],
        trimmed(field).len() == 0 ==> tokens_of(field).len() == 0,
        tokens_of(field + seq![','] + rest) == tokens_of(field) + tokens_of(rest),
{
    let whole = field + seq![','] + rest;
    let n = field.len() as int;
    lemma_field_len(field, n);
    assert(field.take(n) =~= field);
    let none = Seq::<Seq<char>>::empty();
    let token = trimmed(field);
    if token.len() > 0 {
        assert(seq![token] + none =~= seq![token]);
    }
    assert(whole[n] == ',');
    assert forall|i: int| 0 <= i < n implies #[trigger] whole[i] != ',' by {
        assert(whole[i] == field[i]);
    }
    lemma_field_len(whole, n);
    assert(whole.take(n) =~= field);
    assert(whole.skip(n + 1) =~= rest);
    if token.len() == 0 {
        assert(none + tokens_of(rest) =~= tokens_of(rest));
        assert(tokens_of(field) =~= none);
    }
}

/// A list is one of numbers exactly where every entry is a number; each number
/// stands in the place of its entry. Otherwise the first entry that is none is
/// named.
pub proof fn lemma_number_lists(tokens: Seq<Seq<char>>)
    ensures
        match numbers_of(tokens) {
            Ok(v) => v.len() == tokens.len() && forall|i: int|
                0 <= i < v.len() ==> usize_of(#[trigger] tokens[i]) == Some(v[i]),
            Err(t) => exists|i: int|
                0 <= i < tokens.len() && #[trigger] tokens[i] == t && usize_of(tokens[i]) is None
                    && forall|j: int| 0 <= j < i ==> usize_of(#[trigger] tokens[j]) is Some,
        },
    decreases tokens.len(),
{
    if tokens.len() > 0 {
        let front = tokens.drop_last();
        lemma_number_lists(front);
        match numbers_of(front) {
            Err(t) => {
                let i = choose|i: int|
                    0 <= i < front.len() && #[trigger] front[i] == t && usize_of(front[i]) is None
                        && forall|j: int| 0 <= j < i ==> usize_of(#[trigger] front[j]) is Some;
                assert(tokens[i] == t);
                assert forall|j: int| 0 <= j < i implies usize_of(#[trigger] tokens[j]) is Some by {
                    assert(front[j] == tokens[j]);
                }
            },
            Ok(v) => {
                assert forall|j: int| 0 <= j < front.len() implies usize_of(#[trigger] tokens[j])
                    == Some(v[j]) by {
                    assert(front[j] == tokens[j]);
                }
                if usize_of(tokens.last()) is None {
                    assert(tokens[tokens.len() - 1] == tokens.last());
                }
            },
        }
    }
}

/// A track selector: `all` and `none` in any case, nothing for a list without
/// entries, indices for a list of numbers, and languages in lower case for any
/// other list.
pub proof fn lemma_track_selectors(s: Seq<char>, sel: TrackSelector)
    requires
        spells_track_selector(s, sel),
    ensures
        ({
            let all = same_ignoring_case(s, seq!['a', 'l', 'l']);
            let none = same_ignoring_case(s, seq!['n', 'o', 'n', 'e']);
            let list = tokens_of(s);
            let numbers = forall|i: int|
                0 <= i < list.len() ==> usize_of(#[trigger] list[i]) is Some;
            &&& sel is All <==> all
            &&& sel is Nothing <==> none || list.len() == 0
            &&& sel is Indices <==> !all && !none && list.len() > 0 && numbers
            &&& sel is Languages <==> !all && !none && !numbers
            &&& sel matches TrackSelector::Indices(v) ==> v@.len() == list.len() && forall|i: int|
                0 <= i < list.len() ==> usize_of(#[trigger] list[i]) == Some(v@[i])
            &&& sel matches TrackSelector::Languages(v) ==> v@.len() == list.len() && forall|i: int|
                0 <= i < list.len() ==> #[trigger] v@[i]@ == list[i].map_values(
                    |c: char| lower_char(c),
                )
        }),
{
    reveal_strlit("all");
    reveal_strlit("none");
    assert("all"@ =~= seq!['a', 'l', 'l']);
    assert("none"@ =~= seq!['n', 'o', 'n', 'e']);
    let list = tokens_of(s);
    lemma_number_lists(list);
    let all = same_ignoring_case(s, seq!['a', 'l', 'l']);
    let none = same_ignoring_case(s, seq!['n', 'o', 'n', 'e']);
    assert(!(all && none));
    if all {
        assert(s.len() == 3);
        lemma_word_is_an_entry(s);
    }
    if let TrackSelector::Languages(v) = sel {
        assert(texts(v@).len() == v@.len());
        assert forall|i: int| 0 <= i < list.len() implies #[trigger] v@[i]@ == list[i].map_values(
            |c: char| lower_char(c),
        ) by {
            assert(texts(v@)[i] == v@[i]@);
            assert(lower_text(list[i]) =~= list[i].map_values(|c: char| lower_char(c)));
        }
    }
}

/// `all` is an entry, not an empty list.
proof fn lemma_word_is_an_entry(s: Seq<char>)
    requires
        same_ignoring_case(s, seq!['a', 'l', 'l']),
    ensures
        tokens_of(s).len() > 0,
{
    let w = seq!['a', 'l', 'l'];
    assert(lower_char(s[0]) == lower_char(w[0]));
    assert(lower_char(s[1]) == lower_char(w[1]));
    assert(lower_char(s[2]) == lower_char(w[2]));
    assert(forall|i: int| 0 <= i < s.len() ==> #[trigger] s[i] != ',');
    lemma_lists_split_at_commas(s, Seq::empty());
    crate::laws::text::lemma_trimmed_is_the_middle(s);
    if trimmed(s).len() == 0 {
        assert(crate::text::is_space(s[0]));
    }
}

/// The arguments of a rip: the title list by itself, audio and subtitles by
/// their own arguments, and always all video.
pub proof fn lemma_rip_arguments(
    title: Seq<char>,
    audio: Seq<char>,
    subtitle: Seq<char>,
    sel: Selection,
)
    requires
        spells_selection(title, audio, subtitle, sel),
    ensures
        sel.video is All,
        spells_track_selector(audio, sel.audio),
        spells_track_selector(subtitle, sel.subtitle),
        sel.titles is All <==> same_ignoring_case(title, seq!['a', 'l', 'l']),
        sel.titles matches TitleSelector::Indices(v) ==> v@.len() == tokens_of(title).len()
            && forall|i: int|
            0 <= i < v@.len() ==> usize_of(#[trigger] tokens_of(title)[i]) == Some(v@[i]),
{
    reveal_strlit("all");
    assert("all"@ =~= seq!['a', 'l', 'l']);
    lemma_number_lists(tokens_of(title));
}

} // verus!
