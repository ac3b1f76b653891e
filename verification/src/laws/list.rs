//! Laws of the listing of titles and tracks.
use vstd::prelude::*;
use crate::detect::{disc_type_name, DiscType};
use crate::list::{
    duration_text, listing_of, skip_text, with_kind, with_title, with_titles, with_track,
};
use crate::model::{kind_name, Duration, Title, Track, TrackKind};
use crate::selection::kind_count;
use crate::text::{dec, pad_left, pad_right};

verus! {

/// A listing names the disc and the number of its titles, and then has every
/// title, in order.
pub proof fn lemma_listing_has_every_title(t: DiscType, titles: Seq<Title>, text: Seq<char>, x: Title)
    ensures
        listing_of(t, titles) == with_titles(
            disc_type_name(t) + " — "@ + dec(titles.len()) + " title(s)\n"@,
            titles,
        ),
        with_titles(text, Seq::empty()) == text,
        with_titles(text, titles.push(x)) == with_title(with_titles(text, titles), x),
{
    assert(titles.push(x).drop_last() =~= titles);
}

/// The lines of a title: its index, its number on the disc, its duration and
/// chapters, why it is skipped if it is, then its video, audio and subtitle
/// tracks.
pub proof fn lemma_title_lines(text: Seq<char>, title: Title)
    ensures
        ({
            let line = text + "\ntitle #"@ + pad_left(dec(title.index as nat), 2, '0') + "  (id "@
                + dec(title.backend_title_id as nat) + ")  "@ + duration_text(title.duration)
                + "  "@ + dec(title.chapter_count as nat) + " chapter(s)"@;
            let line = if title.skip_reason is Some {
                line + "  [skipped: "@ + skip_text(title.skip_reason->0) + "]"@
            } else {
                line
            };
            let n = title.tracks@.len() as int;
            with_title(text, title) == with_kind(
                with_kind(
                    with_kind(line + "\n"@, title.tracks@, TrackKind::Video, n),
                    title.tracks@,
                    TrackKind::Audio,
                    n,
                ),
                title.tracks@,
                TrackKind::Subtitle,
                n,
            )
        }),
{
}

/// Every track of a kind has a line, in order, under its position among the
/// tracks of its kind, counted from zero; tracks of other kinds have none.
pub proof fn lemma_kind_lists_every_track(
    text: Seq<char>,
    tracks: Seq<Track>,
    kind: TrackKind,
    n: int,
)
    requires
        0 <= n < tracks.len(),
    ensures
        with_kind(text, tracks, kind, 0) == text,
        tracks[n].kind == kind ==> with_kind(text, tracks, kind, n + 1) == with_track(
            with_kind(text, tracks, kind, n),
            tracks[n],
            tracks.subrange(0, n).filter(|t: Track| t.kind == kind).len(),
        ),
        tracks[n].kind != kind ==> with_kind(text, tracks, kind, n + 1) == with_kind(
            text,
            tracks,
            kind,
            n,
        ),
{
    crate::laws::selection::lemma_position(tracks, kind, n);
}

/// The line of a track: its kind, position, codec, language or a dash, and its
/// channels where it has any.
pub proof fn lemma_track_line(text: Seq<char>, track: Track, position: nat)
    ensures
        ({
            let line = text + "    "@ + kind_name(track.kind) + " "@ + dec(position) + "  "@
                + pad_right(track.codec@, 6) + "  "@ + (if track.language is Some {
                track.language->0@
            } else {
                "—"@
            });
            &&& track.channels == 0 ==> with_track(text, track, position) == line + "\n"@
            &&& track.channels > 0 ==> with_track(text, track, position) == line + "  "@ + dec(
                track.channels as nat,
            ) + "ch"@ + "\n"@
        }),
{
}

/// A duration is written as the hours, minutes and seconds that it comes to.
pub proof fn lemma_duration_names_the_time(d: Duration, hours: nat, minutes: nat, seconds: nat)
    requires
        d.secs == (hours * 60 + minutes) * 60 + seconds,
        minutes < 60,
        seconds < 60,
    ensures
        duration_text(d) == pad_left(dec(hours), 2, '0') + ":"@ + pad_left(dec(minutes), 2, '0')
            + ":"@ + pad_left(dec(seconds), 2, '0'),
{
    lemma_parts(d.secs as nat, hours, minutes, seconds);
}

proof fn lemma_parts(secs: nat, hours: nat, minutes: nat, seconds: nat)
    requires
        secs == (hours * 60 + minutes) * 60 + seconds,
        minutes < 60,
        seconds < 60,
    ensures
        secs / 3600 == hours,
        secs % 3600 / 60 == minutes,
        secs % 60 == seconds,
{
    assert(secs == hours * 3600 + (minutes * 60 + seconds));
    assert(secs / 3600 == hours);
    assert(secs % 3600 == minutes * 60 + seconds);
}

} // verus!
