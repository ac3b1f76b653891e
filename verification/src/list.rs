//! The title and track tree as text: the index map that the selectors use.
use vstd::prelude::*;
use crate::detect::{disc_type_name, DiscType};
use crate::model::{kind_name, Duration, SkipReason, Title, TitleCollection, Track, TrackKind};
use crate::selection::kind_count;
use crate::text::{dec, pad_left, pad_right, push_dec, push_dec_zeros, push_right_padded};

verus! {

/// `HH:MM:SS` of a duration.
pub open spec fn duration_text(d: Duration) -> Seq<char> {
    let s = d.secs as nat;
    pad_left(dec(s / 3600), 2, '0') + ":"@ + pad_left(dec(s % 3600 / 60), 2, '0') + ":"@
        + pad_left(dec(s % 60), 2, '0')
}

/// Formats a duration as `HH:MM:SS`.
pub fn fmt_duration(d: Duration) -> (t: String)
    ensures
        t@ == duration_text(d),
{
    let s: u64 = d.as_secs();
    let mut out = String::new();
    push_dec_zeros(&mut out, s / 3600, 2);
    out.append(":");
    push_dec_zeros(&mut out, s % 3600 / 60, 2);
    out.append(":");
    push_dec_zeros(&mut out, s % 60, 2);
    assert(out@ =~= duration_text(d));
    out
}

/// The name of a skip reason.
pub open spec fn skip_text(r: SkipReason) -> Seq<char> {
    match r {
        SkipReason::MinLength => "MinLength"@,
        SkipReason::DuplicateOf(i) => "DuplicateOf("@ + dec(i as nat) + ")"@,
        SkipReason::Empty => "Empty"@,
    }
}

/// `text` with the line of one track behind it: kind, position within the
/// kind, codec, language or a dash, and for audio the channels.
pub open spec fn with_track(text: Seq<char>, track: Track, position: nat) -> Seq<char> {
    let t = text + "    "@ + kind_name(track.kind) + " "@ + dec(position) + "  "@ + pad_right(
        track.codec@,
        6,
    ) + "  "@;
    let t = match track.language {
        Some(l) => t + l@,
        None => t + "—"@,
    };
    (if track.channels > 0 {
        t + "  "@ + dec(track.channels as nat) + "ch"@
    } else {
        t
    }) + "\n"@
}

fn push_track(out: &mut String, track: &Track, position: usize)
    ensures
        final(out)@ == with_track(old(out)@, *track, position as nat),
{
    out.append("    ");
    out.append(track.kind.as_str());
    out.append(" ");
    push_dec(out, position as u64);
    out.append("  ");
    push_right_padded(out, track.codec.as_str(), 6);
    out.append("  ");
    match &track.language {
        Some(l) => out.append(l.as_str()),
        None => out.append("—"),
    }
    if track.channels > 0 {
        out.append("  ");
        push_dec(out, track.channels as u64);
        out.append("ch");
    }
    out.append("\n");
}

/// `text` with the lines of the tracks of a kind among the first `n` behind it.
pub open spec fn with_kind(text: Seq<char>, tracks: Seq<Track>, kind: TrackKind, n: int) -> Seq<
    char,
>
    decreases n,
{
    if n <= 0 {
        text
    } else {
        let t = with_kind(text, tracks, kind, n - 1);
        if tracks[n - 1].kind == kind {
            with_track(t, tracks[n - 1], kind_count(tracks, kind, n - 1) as nat)
        } else {
            t
        }
    }
}

/// Appends the lines of the tracks of a kind.
pub fn print_kind(out: &mut String, title: &Title, kind: TrackKind)
    ensures
        final(out)@ == with_kind(
            old(out)@,
            title.tracks@,
            kind,
            title.tracks@.len() as int,
        ),
{
    let mut position: usize = 0;
    let mut i: usize = 0;
    while i < title.tracks.len()
        invariant
            i <= title.tracks.len(),
            position <= i,
            position == kind_count(title.tracks@, kind, i as int),
            out@ == with_kind(old(out)@, title.tracks@, kind, i as int),
        decreases title.tracks.len() - i,
    {
        if title.tracks[i].kind == kind {
            push_track(out, &title.tracks[i], position);
            position = position + 1;
        }
        i = i + 1;
    }
}

/// `text` with a title and its tracks behind it.
pub open spec fn with_title(text: Seq<char>, title: Title) -> Seq<char> {
    let t = text + "\ntitle #"@ + pad_left(dec(title.index as nat), 2, '0') + "  (id "@ + dec(
        title.backend_title_id as nat,
    ) + ")  "@ + duration_text(title.duration) + "  "@ + dec(title.chapter_count as nat)
        + " chapter(s)"@;
    let t = match title.skip_reason {
        Some(r) => t + "  [skipped: "@ + skip_text(r) + "]"@,
        None => t,
    };
    let n = title.tracks@.len() as int;
    let t = with_kind(t + "\n"@, title.tracks@, TrackKind::Video, n);
    let t = with_kind(t, title.tracks@, TrackKind::Audio, n);
    with_kind(t, title.tracks@, TrackKind::Subtitle, n)
}

fn skip_name(r: SkipReason) -> (s: String)
    ensures
        s@ == skip_text(r),
{
    match r {
        SkipReason::MinLength => "MinLength".to_owned(),
        SkipReason::DuplicateOf(i) => {
            let mut s = "DuplicateOf(".to_owned();
            push_dec(&mut s, i as u64);
            s.append(")");
            s
        },
        SkipReason::Empty => "Empty".to_owned(),
    }
}

fn push_title(out: &mut String, title: &Title)
    ensures
        final(out)@ == with_title(old(out)@, *title),
{
    out.append("\ntitle #");
    push_dec_zeros(out, title.index as u64, 2);
    out.append("  (id ");
    push_dec(out, title.backend_title_id as u64);
    out.append(")  ");
    out.append(fmt_duration(title.duration).as_str());
    out.append("  ");
    push_dec(out, title.chapter_count as u64);
    out.append(" chapter(s)");
    if let Some(r) = title.skip_reason {
        out.append("  [skipped: ");
        out.append(skip_name(r).as_str());
        out.append("]");
    }
    out.append("\n");
    print_kind(out, title, TrackKind::Video);
    print_kind(out, title, TrackKind::Audio);
    print_kind(out, title, TrackKind::Subtitle);
}

/// `text` with titles behind it.
pub open spec fn with_titles(text: Seq<char>, titles: Seq<Title>) -> Seq<char>
    decreases titles.len(),
{
    if titles.len() == 0 {
        text
    } else {
        with_title(with_titles(text, titles.drop_last()), titles.last())
    }
}

/// The whole listing.
pub open spec fn listing_of(disc_type: DiscType, titles: Seq<Title>) -> Seq<char> {
    with_titles(
        disc_type_name(disc_type) + " — "@ + dec(titles.len()) + " title(s)\n"@,
        titles,
    )
}

/// Renders the titles and tracks of a disc.
pub fn listing(disc_type: DiscType, collection: &TitleCollection) -> (s: String)
    ensures
        s@ == listing_of(disc_type, collection.titles@),
{
    let mut out = disc_type.as_str().to_owned();
    out.append(" — ");
    push_dec(&mut out, collection.len() as u64);
    out.append(" title(s)\n");
    let ghost head = out@;
    let mut i: usize = 0;
    assert(collection.titles@.take(0) =~= Seq::<Title>::empty());
    while i < collection.titles.len()
        invariant
            i <= collection.titles.len(),
            out@ == with_titles(head, collection.titles@.take(i as int)),
        decreases collection.titles.len() - i,
    {
        push_title(&mut out, &collection.titles[i]);
        i = i + 1;
        assert(collection.titles@.take(i as int).drop_last() =~= collection.titles@.take(i - 1));
    }
    assert(collection.titles@.take(i as int) =~= collection.titles@);
    out
}

} // verus!
