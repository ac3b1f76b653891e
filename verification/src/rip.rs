//! The selector grammar of the `rip` command, and what a selected title asks
//! of the rip.
//!
//! `all` and `none` stand for themselves; otherwise a selector is a
//! comma-separated list of indices or of language codes.
use vstd::prelude::*;
use crate::demux::StreamKey;
use crate::model::{Duration, Title, TitleCollection, Track, TrackKind};
use crate::selection::{
    mark_min_length, min_length_marked, title_applied, Selection, TitleSelector, TrackSelector,
};
use crate::text::{
    eq_ignore_ascii_case, lower_text, parse_usize, quoted, quoted_text, same_ignoring_case,
    to_ascii_lowercase, trim_range, trimmed, usize_of,
};

verus! {

/// A list of indices holds something that is not a number.
#[derive(Debug)]
pub struct SelectorError {
    /// What is not a number.
    pub token: String,
}

impl SelectorError {
    /// One line that says what is wrong.
    pub fn message(&self) -> (s: String)
        ensures
            s@ == "not a number: "@ + quoted(self.token@),
    {
        let mut s = "not a number: ".to_owned();
        s.append(quoted_text(self.token.as_str()).as_str());
        s
    }
}

/// Length of `s` up to its first comma, or to its end.
pub open spec fn first_field_len(s: Seq<char>) -> nat
    decreases s.len(),
{
    if s.len() == 0 || s[0] == ',' {
        0
    } else {
        1 + first_field_len(s.skip(1))
    }
}

/// The fields between the commas of `s`, trimmed, without the empty ones.
pub open spec fn tokens_of(s: Seq<char>) -> Seq<Seq<char>>
    decreases s.len(),
{
    let n = first_field_len(s);
    let token = trimmed(s.take(n as int));
    let rest = if n < s.len() {
        tokens_of(s.skip(n as int + 1))
    } else {
        Seq::empty()
    };
    if token.len() > 0 {
        seq![token] + rest
    } else {
        rest
    }
}

proof fn lemma_first_field_len(s: Seq<char>, n: int)
    requires
        0 <= n <= s.len(),
        forall|i: int| 0 <= i < n ==> #[trigger] s[i] != ',',
        n < s.len() ==> s[n] == ',',
    ensures
        first_field_len(s) == n,
    decreases n,
{
    if n > 0 {
        let t = s.skip(1);
        assert forall|i: int| 0 <= i < n - 1 implies #[trigger] t[i] != ',' by {
            assert(t[i] == s[i + 1]);
        }
        lemma_first_field_len(t, n - 1);
    }
}

/// Texts by their characters.
pub open spec fn texts(v: Seq<String>) -> Seq<Seq<char>> {
    v.map_values(|s: String| s@)
}

fn split_tokens(s: &str) -> (r: Vec<String>)
    ensures
        texts(r@) == tokens_of(s@),
{
    let n: usize = s.unicode_len();
    let mut r: Vec<String> = Vec::new();
    let mut start: usize = 0;
    assert(s@.skip(0) =~= s@);
    assert(texts(r@) + tokens_of(s@) =~= tokens_of(s@));
    loop
        invariant
            start <= n,
            n == s@.len(),
            texts(r@) + tokens_of(s@.skip(start as int)) == tokens_of(s@),
        decreases n - start,
    {
        let mut end: usize = start;
        while end < n && s.get_char(end) != ','
            invariant
                start <= end <= n,
                n == s@.len(),
                forall|i: int| start <= i < end ==> #[trigger] s@[i] != ',',
            decreases n - end,
        {
            end = end + 1;
        }
        let ghost rest = s@.skip(start as int);
        let ghost before = texts(r@);
        let token = trim_range(s, start, end);
        proof {
            assert(rest.take(end - start) =~= s@.subrange(start as int, end as int));
            lemma_first_field_len(rest, end - start);
            if end < n {
                assert(rest.skip(end - start + 1) =~= s@.skip(end + 1));
            }
        }
        if token.unicode_len() > 0 {
            r.push(token.to_owned());
            assert(texts(r@) =~= before.push(token@));
        }
        if end == n {
            proof {
                let none = Seq::<Seq<char>>::empty();
                if token@.len() > 0 {
                    assert(before + (seq![token@] + none) =~= before.push(token@));
                } else {
                    assert(before + none =~= before);
                }
            }
            return r;
        }
        proof {
            let after = tokens_of(s@.skip(end + 1));
            if token@.len() > 0 {
                assert(before + (seq![token@] + after) =~= before.push(token@) + after);
            }
        }
        start = end + 1;
    }
}

/// The numbers that all tokens spell, or the first token that spells none.
pub open spec fn numbers_of(tokens: Seq<Seq<char>>) -> Result<Seq<usize>, Seq<char>>
    decreases tokens.len(),
{
    if tokens.len() == 0 {
        Ok(Seq::empty())
    } else {
        match numbers_of(tokens.drop_last()) {
            Err(t) => Err(t),
            Ok(front) => match usize_of(tokens.last()) {
                Some(n) => Ok(front.push(n)),
                None => Err(tokens.last()),
            },
        }
    }
}

proof fn lemma_numbers_err_stays(tokens: Seq<Seq<char>>, n: int)
    requires
        0 <= n <= tokens.len(),
        numbers_of(tokens.take(n)) is Err,
    ensures
        numbers_of(tokens) == numbers_of(tokens.take(n)),
    decreases tokens.len(),
{
    if n < tokens.len() {
        assert(tokens.drop_last().take(n) =~= tokens.take(n));
        lemma_numbers_err_stays(tokens.drop_last(), n);
    } else {
        assert(tokens.take(n) =~= tokens);
    }
}

fn numbers(tokens: &Vec<String>) -> (r: Result<Vec<usize>, SelectorError>)
    ensures
        match r {
            Ok(v) => numbers_of(texts(tokens@)) == Ok::<Seq<usize>, Seq<char>>(v@),
            Err(e) => numbers_of(texts(tokens@)) == Err::<Seq<usize>, Seq<char>>(e.token@),
        },
{
    let mut v: Vec<usize> = Vec::new();
    let mut i: usize = 0;
    let ghost all = texts(tokens@);
    assert(all.take(0) =~= Seq::<Seq<char>>::empty());
    assert(v@ =~= Seq::<usize>::empty());
    while i < tokens.len()
        invariant
            i <= tokens.len(),
            all == texts(tokens@),
            numbers_of(all.take(i as int)) == Ok::<Seq<usize>, Seq<char>>(v@),
        decreases tokens.len() - i,
    {
        assert(all.take(i + 1).drop_last() =~= all.take(i as int));
        assert(all.take(i + 1).last() == tokens[i as int]@);
        match parse_usize(tokens[i].as_str()) {
            Some(n) => {
                v.push(n);
            },
            None => {
                proof {
                    lemma_numbers_err_stays(all, i + 1);
                }
                return Err(SelectorError { token: tokens[i].clone() });
            },
        }
        i = i + 1;
    }
    assert(all.take(i as int) =~= all);
    Ok(v)
}

/// Reads a comma-separated list of indices.
pub fn parse_indices(s: &str) -> (r: Result<Vec<usize>, SelectorError>)
    ensures
        match r {
            Ok(v) => numbers_of(tokens_of(s@)) == Ok::<Seq<usize>, Seq<char>>(v@),
            Err(e) => numbers_of(tokens_of(s@)) == Err::<Seq<usize>, Seq<char>>(e.token@),
        },
{
    let tokens = split_tokens(s);
    numbers(&tokens)
}

/// Reads a title selector: `all`, or a list of indices.
pub fn parse_title_selector(s: &str) -> (r: Result<TitleSelector, SelectorError>)
    ensures
        match r {
            Ok(TitleSelector::All) => same_ignoring_case(s@, "all"@),
            Ok(TitleSelector::Indices(v)) => !same_ignoring_case(s@, "all"@) && numbers_of(
                tokens_of(s@),
            ) == Ok::<Seq<usize>, Seq<char>>(v@),
            Err(e) => !same_ignoring_case(s@, "all"@) && numbers_of(tokens_of(s@)) == Err::<
                Seq<usize>,
                Seq<char>,
            >(e.token@),
        },
{
    if eq_ignore_ascii_case(s, "all") {
        return Ok(TitleSelector::All);
    }
    match parse_indices(s) {
        Ok(v) => Ok(TitleSelector::Indices(v)),
        Err(e) => Err(e),
    }
}

/// `sel` is what the text `s` asks for: `all`; `none`, or a list without
/// entries; a list of indices where every entry is a number; else a list of
/// languages.
pub open spec fn spells_track_selector(s: Seq<char>, sel: TrackSelector) -> bool {
    let tokens = tokens_of(s);
    if same_ignoring_case(s, "all"@) {
        sel is All
    } else if same_ignoring_case(s, "none"@) || tokens.len() == 0 {
        sel is Nothing
    } else {
        match numbers_of(tokens) {
            Ok(numbers) => sel matches TrackSelector::Indices(v) && v@ == numbers,
            Err(_) => sel matches TrackSelector::Languages(v) && texts(v@) == tokens.map_values(
                |t: Seq<char>| lower_text(t),
            ),
        }
    }
}

/// Reads a track selector.
pub fn parse_track_selector(s: &str) -> (sel: TrackSelector)
    ensures
        spells_track_selector(s@, sel),
{
    if eq_ignore_ascii_case(s, "all") {
        return TrackSelector::All;
    }
    if eq_ignore_ascii_case(s, "none") {
        return TrackSelector::Nothing;
    }
    let tokens = split_tokens(s);
    assert(texts(tokens@).len() == tokens@.len());
    if tokens.len() == 0 {
        return TrackSelector::Nothing;
    }
    match numbers(&tokens) {
        Ok(v) => TrackSelector::Indices(v),
        Err(_) => {
            let mut langs: Vec<String> = Vec::new();
            let ghost want = tokens_of(s@).map_values(|t: Seq<char>| lower_text(t));
            let mut i: usize = 0;
            while i < tokens.len()
                invariant
                    i <= tokens.len(),
                    langs@.len() == i,
                    texts(tokens@) == tokens_of(s@),
                    want == tokens_of(s@).map_values(|t: Seq<char>| lower_text(t)),
                    forall|j: int| 0 <= j < i ==> #[trigger] langs@[j]@ == want[j],
                decreases tokens.len() - i,
            {
                assert(texts(tokens@)[i as int] == tokens[i as int]@);
                let low = to_ascii_lowercase(tokens[i].as_str());
                langs.push(low);
                i = i + 1;
            }
            assert(texts(langs@) =~= want) by {
                assert(texts(tokens@).len() == tokens@.len());
            }
            TrackSelector::Languages(langs)
        },
    }
}

/// The enabled tracks of a kind, in order.
pub open spec fn enabled_of_kind(title: Title, kind: TrackKind) -> Seq<Track> {
    title.tracks@.filter(|t: Track| t.kind == kind && t.enabled)
}

/// Number of enabled tracks of a kind.
pub fn count_enabled(title: &Title, kind: TrackKind) -> (n: usize)
    ensures
        n == enabled_of_kind(*title, kind).len(),
{
    enabled_stream_ids(title, kind).len()
}

/// The streams of the enabled tracks of a kind, in order.
pub fn enabled_stream_ids(title: &Title, kind: TrackKind) -> (ids: Vec<u32>)
    ensures
        ids@ == enabled_of_kind(*title, kind).map_values(|t: Track| t.backend_stream_id),
{
    let ghost pred = |t: Track| t.kind == kind && t.enabled;
    let ghost id = |t: Track| t.backend_stream_id;
    let mut ids: Vec<u32> = Vec::new();
    let mut i: usize = 0;
    assert(ids@ =~= title.tracks@.take(0).filter(pred).map_values(id)) by {
        reveal(Seq::filter);
    }
    while i < title.tracks.len()
        invariant
            i <= title.tracks.len(),
            pred == |t: Track| t.kind == kind && t.enabled,
            id == |t: Track| t.backend_stream_id,
            ids@ == title.tracks@.take(i as int).filter(pred).map_values(id),
        decreases title.tracks.len() - i,
    {
        let ghost before = title.tracks@.take(i as int).filter(pred);
        proof {
            reveal(Seq::filter);
            assert(title.tracks@.take(i + 1).drop_last() =~= title.tracks@.take(i as int));
        }
        if title.tracks[i].kind == kind && title.tracks[i].enabled {
            ids.push(title.tracks[i].backend_stream_id);
            assert(before.push(title.tracks@[i as int]).map_values(id) =~= ids@);
        }
        i = i + 1;
    }
    assert(title.tracks@.take(i as int) =~= title.tracks@);
    ids
}

/// `after` is `before` once a rip was prepared: titles below `min_length`
/// seconds are flagged, where that is not 0, and the selection is applied.
pub open spec fn is_prepared(
    before: Seq<Title>,
    after: Seq<Title>,
    sel: Selection,
    min_length: u64,
) -> bool {
    &&& after.len() == before.len()
    &&& forall|i: int|
        0 <= i < before.len() ==> title_applied(
            sel,
            if min_length > 0 {
                min_length_marked(before[i], Duration { secs: min_length, nanos: 0 })
            } else {
                before[i]
            },
            #[trigger] after[i],
        )
}

/// `sel` is what the three arguments ask for.
pub open spec fn spells_selection(
    title: Seq<char>,
    audio: Seq<char>,
    subtitle: Seq<char>,
    sel: Selection,
) -> bool {
    &&& match sel.titles {
        TitleSelector::All => same_ignoring_case(title, "all"@),
        TitleSelector::Indices(v) => !same_ignoring_case(title, "all"@) && numbers_of(
            tokens_of(title),
        ) == Ok::<Seq<usize>, Seq<char>>(v@),
    }
    &&& sel.video is All
    &&& spells_track_selector(audio, sel.audio)
    &&& spells_track_selector(subtitle, sel.subtitle)
}

/// Reads the arguments of a rip.
pub fn parse_selection(title: &str, audio: &str, subtitle: &str) -> (r: Result<
    Selection,
    SelectorError,
>)
    ensures
        match r {
            Ok(sel) => spells_selection(title@, audio@, subtitle@, sel),
            Err(e) => !same_ignoring_case(title@, "all"@) && numbers_of(tokens_of(title@)) == Err::<
                Seq<usize>,
                Seq<char>,
            >(e.token@),
        },
{
    match parse_title_selector(title) {
        Ok(titles) => Ok(
            Selection {
                titles,
                video: TrackSelector::All,
                audio: parse_track_selector(audio),
                subtitle: parse_track_selector(subtitle),
            },
        ),
        Err(e) => Err(e),
    }
}

/// Flags the titles that are too short, and applies a selection.
pub fn prepare(collection: &mut TitleCollection, sel: &Selection, min_length: u64)
    ensures
        is_prepared(old(collection).titles@, final(collection).titles@, *sel, min_length),
{
    if min_length > 0 {
        mark_min_length(collection, Duration::from_secs(min_length));
    }
    sel.apply(collection);
}

/// What the rip of one title needs: its number on the disc and the streams to
/// keep.
#[derive(Debug)]
pub struct RipJob {
    pub index: usize,
    pub title_id: u8,
    pub audio: Vec<u32>,
    pub subp: Vec<u32>,
}

/// Whether a rip keeps a stream: the video, and the audio and subpicture
/// streams whose index is selected.
pub open spec fn job_keeps(job: RipJob, key: StreamKey) -> bool {
    match key {
        StreamKey::Video(_) => true,
        StreamKey::MpegAudio(id) => id >= 0xC0 && job.audio@.contains((id - 0xC0) as u32),
        StreamKey::Ac3(n) => job.audio@.contains(n as u32),
        StreamKey::Dts(n) => job.audio@.contains(n as u32),
        StreamKey::Lpcm(n) => job.audio@.contains(n as u32),
        StreamKey::Subpicture(n) => job.subp@.contains(n as u32),
    }
}

fn contains_id(ids: &Vec<u32>, id: u32) -> (b: bool)
    ensures
        b == ids@.contains(id),
{
    let mut i: usize = 0;
    while i < ids.len()
        invariant
            i <= ids.len(),
            forall|j: int| 0 <= j < i ==> ids@[j] != id,
        decreases ids.len() - i,
    {
        if ids[i] == id {
            assert(ids@[i as int] == id);
            return true;
        }
        i = i + 1;
    }
    false
}

impl RipJob {
    /// Whether the rip keeps a stream.
    pub fn keeps(&self, key: StreamKey) -> (b: bool)
        ensures
            b == job_keeps(*self, key),
    {
        match key {
            StreamKey::Video(_) => true,
            StreamKey::MpegAudio(id) => id >= 0xC0 && contains_id(&self.audio, (id - 0xC0) as u32),
            StreamKey::Ac3(n) => contains_id(&self.audio, n as u32),
            StreamKey::Dts(n) => contains_id(&self.audio, n as u32),
            StreamKey::Lpcm(n) => contains_id(&self.audio, n as u32),
            StreamKey::Subpicture(n) => contains_id(&self.subp, n as u32),
        }
    }
}

/// The job of a title; its number as an error where it is out of range.
pub fn rip_job(title: &Title) -> (r: Result<RipJob, u32>)
    ensures
        match r {
            Ok(job) => {
                &&& job.index == title.index
                &&& job.title_id == title.backend_title_id
                &&& job.audio@ == enabled_of_kind(*title, TrackKind::Audio).map_values(
                    |t: Track| t.backend_stream_id,
                )
                &&& job.subp@ == enabled_of_kind(*title, TrackKind::Subtitle).map_values(
                    |t: Track| t.backend_stream_id,
                )
            },
            Err(id) => title.backend_title_id > 255 && id == title.backend_title_id,
        },
{
    if title.backend_title_id > 255 {
        return Err(title.backend_title_id);
    }
    Ok(
        RipJob {
            index: title.index,
            title_id: title.backend_title_id as u8,
            audio: enabled_stream_ids(title, TrackKind::Audio),
            subp: enabled_stream_ids(title, TrackKind::Subtitle),
        },
    )
}

} // verus!
