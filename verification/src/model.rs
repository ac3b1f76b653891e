//! The title and track tree of a disc, independent of its format.
//!
//! Every title and every track carries an `enabled` flag, which the selection
//! sets and the rip reads.
use vstd::prelude::*;

verus! {

/// A span of time: whole seconds and nanoseconds below one second.
#[derive(Debug, Clone, Copy, PartialEq, Eq, Structural)]
pub struct Duration {
    pub secs: u64,
    pub nanos: u32,
}

/// `a` is shorter than `b`.
pub open spec fn is_shorter(a: Duration, b: Duration) -> bool {
    a.secs < b.secs || (a.secs == b.secs && a.nanos < b.nanos)
}

impl Duration {
    /// A span of whole seconds.
    pub fn from_secs(secs: u64) -> (d: Self)
        ensures
            d == (Duration { secs, nanos: 0 }),
    {
        Duration { secs, nanos: 0 }
    }

    /// The whole seconds of a span.
    pub fn as_secs(&self) -> (s: u64)
        ensures
            s == self.secs,
    {
        self.secs
    }

    /// Whether this span is shorter than another.
    pub fn shorter_than(&self, other: &Duration) -> (b: bool)
        ensures
            b == is_shorter(*self, *other),
    {
        self.secs < other.secs || (self.secs == other.secs && self.nanos < other.nanos)
    }
}

/// The kind of a track within a title.
#[derive(Debug, Clone, Copy, PartialEq, Eq, Structural)]
pub enum TrackKind {
    Video,
    Audio,
    Subtitle,
}

/// The name of a kind.
pub open spec fn kind_name(kind: TrackKind) -> Seq<char> {
    match kind {
        TrackKind::Video => "video"@,
        TrackKind::Audio => "audio"@,
        TrackKind::Subtitle => "subtitle"@,
    }
}

impl TrackKind {
    /// Short lower-case name.
    pub fn as_str(self) -> (s: &'static str)
        ensures
            s@ == kind_name(self),
    {
        match self {
            TrackKind::Video => "video",
            TrackKind::Audio => "audio",
            TrackKind::Subtitle => "subtitle",
        }
    }
}

/// One elementary stream within a title.
#[derive(Debug, Clone)]
pub struct Track {
    pub kind: TrackKind,
    /// Track number within the title, from 1, video first.
    pub order: u32,
    /// Stream identifier of the backend; for DVD the index of the stream in
    /// the attribute table of its kind.
    pub backend_stream_id: u32,
    /// Short codec id, such as `ac3` or `vobsub`.
    pub codec: String,
    /// Three-letter language code; `None` for an untagged track.
    pub language: Option<String>,
    /// Channel count of an audio track; 0 for the others.
    pub channels: u8,
    /// Whether this track is selected for output.
    pub enabled: bool,
}

/// Why a title was left out of the default selection.
#[derive(Debug, Clone, Copy, PartialEq, Eq, Structural)]
pub enum SkipReason {
    /// Shorter than the minimum length.
    MinLength,
    /// The same content as another title, by index.
    DuplicateOf(usize),
    /// Nothing to deliver.
    Empty,
}

/// One playable title.
#[derive(Debug, Clone)]
pub struct Title {
    /// Position within the collection, from 0.
    pub index: usize,
    /// Title identifier of the backend; for DVD the title number, from 1.
    pub backend_title_id: u32,
    /// Total playback time.
    pub duration: Duration,
    pub chapter_count: usize,
    /// The tracks: video, then audio, then subtitles.
    pub tracks: Vec<Track>,
    /// Whether this title is selected for output.
    pub enabled: bool,
    /// Why a default filter left it out, if one did.
    pub skip_reason: Option<SkipReason>,
}

/// The titles of an opened disc.
#[derive(Debug, Clone)]
pub struct TitleCollection {
    pub titles: Vec<Title>,
}

impl Default for TitleCollection {
    fn default() -> (c: Self)
        ensures
            c.titles@ == Seq::<Title>::empty(),
    {
        TitleCollection { titles: Vec::new() }
    }
}

/// The tracks that are enabled, in order.
pub open spec fn enabled_tracks_of(title: Title) -> Seq<Track> {
    title.tracks@.filter(|t: Track| t.enabled)
}

/// The titles that are enabled, in order.
pub open spec fn enabled_titles_of(titles: Seq<Title>) -> Seq<Title> {
    titles.filter(|t: Title| t.enabled)
}

/// The values behind references.
pub open spec fn deref_all<T>(refs: Seq<&T>) -> Seq<T> {
    refs.map_values(|r: &T| *r)
}

impl Title {
    /// The tracks that are enabled, in order.
    pub fn enabled_tracks(&self) -> (r: Vec<&Track>)
        ensures
            deref_all(r@) == enabled_tracks_of(*self),
    {
        let mut r: Vec<&Track> = Vec::new();
        let mut i: usize = 0;
        let ghost pred = |t: Track| t.enabled;
        assert(deref_all(r@) =~= self.tracks@.take(0).filter(pred)) by {
            reveal(Seq::filter);
        }
        while i < self.tracks.len()
            invariant
                i <= self.tracks.len(),
                pred == |t: Track| t.enabled,
                deref_all(r@) == self.tracks@.take(i as int).filter(pred),
            decreases self.tracks.len() - i,
        {
            let ghost before = r@;
            if self.tracks[i].enabled {
                r.push(&self.tracks[i]);
                assert(deref_all(r@) =~= deref_all(before).push(self.tracks[i as int]));
            }
            proof {
                reveal(Seq::filter);
                assert(self.tracks@.take(i + 1).drop_last() =~= self.tracks@.take(i as int));
            }
            i = i + 1;
        }
        assert(self.tracks@.take(i as int) =~= self.tracks@);
        r
    }
}

impl TitleCollection {
    /// The titles that are enabled, in order.
    pub fn enabled_titles(&self) -> (r: Vec<&Title>)
        ensures
            deref_all(r@) == enabled_titles_of(self.titles@),
    {
        let mut r: Vec<&Title> = Vec::new();
        let mut i: usize = 0;
        let ghost pred = |t: Title| t.enabled;
        assert(deref_all(r@) =~= self.titles@.take(0).filter(pred)) by {
            reveal(Seq::filter);
        }
        while i < self.titles.len()
            invariant
                i <= self.titles.len(),
                pred == |t: Title| t.enabled,
                deref_all(r@) == self.titles@.take(i as int).filter(pred),
            decreases self.titles.len() - i,
        {
            let ghost before = r@;
            if self.titles[i].enabled {
                r.push(&self.titles[i]);
                assert(deref_all(r@) =~= deref_all(before).push(self.titles[i as int]));
            }
            proof {
                reveal(Seq::filter);
                assert(self.titles@.take(i + 1).drop_last() =~= self.titles@.take(i as int));
            }
            i = i + 1;
        }
        assert(self.titles@.take(i as int) =~= self.titles@);
        r
    }

    /// Number of titles, skipped ones counted.
    pub fn len(&self) -> (n: usize)
        ensures
            n == self.titles@.len(),
    {
        self.titles.len()
    }

    /// Whether there are no titles.
    pub fn is_empty(&self) -> (b: bool)
        ensures
            b == (self.titles@.len() == 0),
    {
        self.titles.len() == 0
    }
}

} // verus!
