//! The DVD backend: lists the titles of a disc in the common model.
//!
//! A title has one video track, then the audio streams, then the subpicture
//! streams of its title set. A title that cannot be resolved is left out, the
//! others are still listed.
use vstd::prelude::*;
use crate::backend::DiscBackend;
use crate::cell::dvd_time_seconds;
use crate::decode::{is_ascii_letter, is_letter};
use crate::detect::DiscType;
use crate::error::{DiscError, DvdError};
use crate::ifo::{
    bits_at, chapters_of, index_of_number, pgcs_of, time_seconds, titles_of, AudioAttr, IfoHandle,
    IfoKind, Pgc, TitleInfo, VtsiMat,
};
use crate::model::{Duration, Title, TitleCollection, Track, TrackKind};
use crate::reader::{ifo_of, DiscIfos, DvdReader};
use crate::source::DvdSource;
use crate::text::lower_char;

verus! {

/// Number of channels of an audio stream.
pub open spec fn channels_of(attr: AudioAttr) -> int {
    bits_at(attr.bits, 8192, 8) + 1
}

/// Number of channels of an audio stream.
pub fn audio_channels(attr: &AudioAttr) -> (n: u8)
    ensures
        n == channels_of(*attr),
{
    attr.channels_minus_1() + 1
}

/// The codec id of each audio format.
pub open spec fn codec_of(fmt: u8) -> Seq<char> {
    match fmt {
        2 | 3 => "mp2"@,
        4 => "lpcm"@,
        6 => "dts"@,
        _ => "ac3"@,
    }
}

/// The codec id of an audio format.
pub fn audio_codec_str(fmt: u8) -> (s: &'static str)
    ensures
        s@ == codec_of(fmt),
{
    match fmt {
        0 => "ac3",
        2 | 3 => "mp2",
        4 => "lpcm",
        6 => "dts",
        _ => "ac3",
    }
}

/// The three-letter code of a two-letter language code, for common languages.
pub open spec fn three_letters(a: char, b: char) -> Option<Seq<char>> {
    match (a, b) {
        ('e', 'n') => Some("eng"@),
        ('f', 'r') => Some("fre"@),
        ('e', 's') => Some("spa"@),
        ('d', 'e') => Some("ger"@),
        ('i', 't') => Some("ita"@),
        ('j', 'a') => Some("jpn"@),
        ('z', 'h') => Some("chi"@),
        ('k', 'o') => Some("kor"@),
        ('p', 't') => Some("por"@),
        ('r', 'u') => Some("rus"@),
        ('n', 'l') => Some("dut"@),
        ('s', 'v') => Some("swe"@),
        ('f', 'i') => Some("fin"@),
        ('n', 'o') => Some("nor"@),
        ('d', 'a') => Some("dan"@),
        ('p', 'l') => Some("pol"@),
        ('c', 's') => Some("cze"@),
        ('a', 'r') => Some("ara"@),
        ('h', 'e') => Some("heb"@),
        ('h', 'i') => Some("hin"@),
        ('t', 'r') => Some("tur"@),
        ('e', 'l') => Some("gre"@),
        ('h', 'u') => Some("hun"@),
        _ => None,
    }
}

/// The language of a packed two-letter code: its three-letter code, or `und`
/// where there is none.
pub open spec fn language_of(raw: u16) -> Seq<char> {
    let hi = (raw / 256) as u8;
    let lo = (raw % 256) as u8;
    if is_letter(hi) && is_letter(lo) {
        let a = lower_char(hi as char);
        let b = lower_char(lo as char);
        match three_letters(a, b) {
            Some(code) => code,
            None => "und"@,
        }
    } else {
        "und"@
    }
}

fn three_letter_code(a: char, b: char) -> (r: Option<&'static str>)
    ensures
        match r {
            Some(s) => three_letters(a, b) == Some(s@),
            None => three_letters(a, b) is None,
        },
{
    match (a, b) {
        ('e', 'n') => Some("eng"),
        ('f', 'r') => Some("fre"),
        ('e', 's') => Some("spa"),
        ('d', 'e') => Some("ger"),
        ('i', 't') => Some("ita"),
        ('j', 'a') => Some("jpn"),
        ('z', 'h') => Some("chi"),
        ('k', 'o') => Some("kor"),
        ('p', 't') => Some("por"),
        ('r', 'u') => Some("rus"),
        ('n', 'l') => Some("dut"),
        ('s', 'v') => Some("swe"),
        ('f', 'i') => Some("fin"),
        ('n', 'o') => Some("nor"),
        ('d', 'a') => Some("dan"),
        ('p', 'l') => Some("pol"),
        ('c', 's') => Some("cze"),
        ('a', 'r') => Some("ara"),
        ('h', 'e') => Some("heb"),
        ('h', 'i') => Some("hin"),
        ('t', 'r') => Some("tur"),
        ('e', 'l') => Some("gre"),
        ('h', 'u') => Some("hun"),
        _ => None,
    }
}

fn lower_letter(b: u8) -> (c: char)
    requires
        is_letter(b),
    ensures
        c == lower_char(b as char),
{
    if b <= 0x5A {
        (b + 32) as char
    } else {
        b as char
    }
}

/// A lower-case letter.
pub open spec fn is_lower_letter(c: char) -> bool {
    'a' <= c <= 'z'
}

/// Three lower-case letters.
pub open spec fn is_three_letters(code: Seq<char>) -> bool {
    code.len() == 3 && is_lower_letter(code[0]) && is_lower_letter(code[1]) && is_lower_letter(
        code[2],
    )
}

proof fn lemma_table_has_three_letters(a: char, b: char)
    ensures
        three_letters(a, b) matches Some(code) ==> is_three_letters(code),
{
    reveal_strlit("eng");
    reveal_strlit("fre");
    reveal_strlit("spa");
    reveal_strlit("ger");
    reveal_strlit("ita");
    reveal_strlit("jpn");
    reveal_strlit("chi");
    reveal_strlit("kor");
    reveal_strlit("por");
    reveal_strlit("rus");
    reveal_strlit("dut");
    reveal_strlit("swe");
    reveal_strlit("fin");
    reveal_strlit("nor");
    reveal_strlit("dan");
    reveal_strlit("pol");
    reveal_strlit("cze");
    reveal_strlit("ara");
    reveal_strlit("heb");
    reveal_strlit("hin");
    reveal_strlit("tur");
    reveal_strlit("gre");
    reveal_strlit("hun");
}

/// A language is always three lower-case letters.
pub proof fn lemma_language_has_three_letters(raw: u16)
    ensures
        is_three_letters(language_of(raw)),
{
    reveal_strlit("und");
    lemma_table_has_three_letters(
        lower_char((raw / 256) as u8 as char),
        lower_char((raw % 256) as u8 as char),
    );
}

/// The case of the two letters makes no difference.
pub proof fn lemma_language_ignores_case(x: u16, y: u16)
    requires
        lower_char((x / 256) as u8 as char) == lower_char((y / 256) as u8 as char),
        lower_char((x % 256) as u8 as char) == lower_char((y % 256) as u8 as char),
    ensures
        language_of(x) == language_of(y),
{
}

/// Decodes a packed two-letter language code to a three-letter one.
pub fn iso639_3(raw: u16) -> (s: String)
    ensures
        s@ == language_of(raw),
        is_three_letters(s@),
{
    proof {
        lemma_language_has_three_letters(raw);
    }
    let hi: u8 = (raw / 256) as u8;
    let lo: u8 = (raw % 256) as u8;
    if !is_ascii_letter(hi) || !is_ascii_letter(lo) {
        return "und".to_owned();
    }
    let a: char = lower_letter(hi);
    let b: char = lower_letter(lo);
    match three_letter_code(a, b) {
        Some(code) => code.to_owned(),
        None => "und".to_owned(),
    }
}

/// Why a title cannot be resolved.
#[derive(Debug, Clone, Copy, PartialEq, Eq, Structural)]
pub enum TitleFault {
    /// The IFO of its title set could not be read.
    VtsUnreadable { title_set_nr: u8 },
    /// It has no chapters.
    NoChapters { vts_ttn: u8 },
    /// Its first chapter names a program chain that is not there.
    PgcOutOfRange { pgcn: u16, pgcs: usize },
    /// The slot of its program chain is empty.
    PgcMissing,
    /// Its title set has no management table.
    NoManagementTable,
}

/// The program chain that a title plays: that of its first chapter.
pub open spec fn title_pgc(vts: IfoHandle, t: TitleInfo) -> Result<Pgc, TitleFault> {
    let chapters = chapters_of(vts, t.vts_ttn);
    let pgcs = pgcs_of(vts);
    if chapters.len() == 0 {
        Err(TitleFault::NoChapters { vts_ttn: t.vts_ttn })
    } else {
        let pgcn = chapters[0].pgcn;
        let i = index_of_number(pgcn as int);
        if i >= pgcs.len() {
            Err(TitleFault::PgcOutOfRange { pgcn, pgcs: pgcs.len() as usize })
        } else {
            match pgcs[i].pgc {
                Some(pgc) => Ok(pgc),
                None => Err(TitleFault::PgcMissing),
            }
        }
    }
}

/// What keeps a title from being resolved, if anything does.
pub open spec fn title_fault(reader: DvdReader, t: TitleInfo) -> Option<TitleFault> {
    match ifo_of(reader, IfoKind::Vts(t.title_set_nr as u32)) {
        None => Some(TitleFault::VtsUnreadable { title_set_nr: t.title_set_nr }),
        Some(vts) => match title_pgc(vts, t) {
            Err(fault) => Some(fault),
            Ok(_) => if vts.vtsi_mat is None {
                Some(TitleFault::NoManagementTable)
            } else {
                None
            },
        },
    }
}

/// Number of streams of a table with `slots` slots.
pub open spec fn stream_count(nr: u8, slots: int) -> int {
    if nr < slots {
        nr as int
    } else {
        slots
    }
}

/// A track as the backend makes it: enabled, with these properties.
pub open spec fn track_is(
    track: Track,
    kind: TrackKind,
    order: int,
    stream: int,
    codec: Seq<char>,
    language: Seq<char>,
    channels: int,
) -> bool {
    &&& track.kind == kind
    &&& track.order == order
    &&& track.backend_stream_id == stream
    &&& track.codec@ == codec
    &&& track.language matches Some(l) && l@ == language
    &&& track.channels == channels
    &&& track.enabled
}

/// The track at `i` of a title set's streams: the video, then the audio
/// streams, then the subpictures.
pub open spec fn is_track_of(mat: VtsiMat, track: Track, i: int) -> bool {
    let audio = stream_count(mat.nr_of_vts_audio_streams, 8);
    if i == 0 {
        track_is(track, TrackKind::Video, 1, 0, "mpeg2"@, "und"@, 0)
    } else if i <= audio {
        let attr = mat.vts_audio_attr@[i - 1];
        track_is(
            track,
            TrackKind::Audio,
            i + 1,
            i - 1,
            codec_of(bits_at(attr.bits, 1, 8) as u8),
            language_of(attr.lang_code),
            channels_of(attr),
        )
    } else {
        let attr = mat.vts_subp_attr@[i - 1 - audio];
        track_is(
            track,
            TrackKind::Subtitle,
            i + 1,
            i - 1 - audio,
            "vobsub"@,
            language_of(attr.lang_code),
            0,
        )
    }
}

/// Number of tracks of a title set.
pub open spec fn track_count(mat: VtsiMat) -> int {
    1 + stream_count(mat.nr_of_vts_audio_streams, 8) + stream_count(
        mat.nr_of_vts_subp_streams,
        32,
    )
}

/// `title` is what the disc has as title `t`, number `number` from 1, listed at
/// `index`.
pub open spec fn is_title_of(
    reader: DvdReader,
    index: int,
    number: int,
    t: TitleInfo,
    title: Title,
) -> bool {
    let vts = ifo_of(reader, IfoKind::Vts(t.title_set_nr as u32))->0;
    let mat = vts.vtsi_mat->0;
    &&& title_fault(reader, t) is None
    &&& title.index == index
    &&& title.backend_title_id == (if number > u32::MAX {
        u32::MAX as int
    } else {
        number
    })
    &&& title.duration == (Duration {
        secs: time_seconds(title_pgc(vts, t)->Ok_0.playback_time) as u64,
        nanos: 0,
    })
    &&& title.chapter_count == chapters_of(vts, t.vts_ttn).len()
    &&& title.tracks@.len() == track_count(mat)
    &&& forall|i: int|
        0 <= i < title.tracks@.len() ==> is_track_of(mat, #[trigger] title.tracks@[i], i)
    &&& title.enabled
    &&& title.skip_reason is None
}

/// The program chain that a title plays.
pub fn resolve_pgc<'a>(vts: &'a IfoHandle, t: &TitleInfo) -> (r: Result<&'a Pgc, TitleFault>)
    ensures
        match r {
            Ok(pgc) => title_pgc(*vts, *t) == Ok::<Pgc, TitleFault>(*pgc),
            Err(fault) => title_pgc(*vts, *t) == Err::<Pgc, TitleFault>(fault),
        },
{
    let chapters = vts.chapters_for(t.vts_ttn);
    if chapters.len() == 0 {
        return Err(TitleFault::NoChapters { vts_ttn: t.vts_ttn });
    }
    let pgcn: u16 = chapters[0].pgcn;
    let pgcs = vts.pgcs();
    let i: usize = if pgcn == 0 {
        0
    } else {
        pgcn as usize - 1
    };
    if i >= pgcs.len() {
        return Err(TitleFault::PgcOutOfRange { pgcn, pgcs: pgcs.len() });
    }
    match &pgcs[i].pgc {
        Some(pgc) => Ok(pgc),
        None => Err(TitleFault::PgcMissing),
    }
}

fn tracks_of(mat: &VtsiMat) -> (tracks: Vec<Track>)
    ensures
        tracks@.len() == track_count(*mat),
        forall|i: int| 0 <= i < tracks@.len() ==> is_track_of(*mat, #[trigger] tracks@[i], i),
{
    let audio: usize = if mat.nr_of_vts_audio_streams < 8 {
        mat.nr_of_vts_audio_streams as usize
    } else {
        8
    };
    let subp: usize = if mat.nr_of_vts_subp_streams < 32 {
        mat.nr_of_vts_subp_streams as usize
    } else {
        32
    };
    let mut tracks: Vec<Track> = Vec::new();
    tracks.push(
        Track {
            kind: TrackKind::Video,
            order: 1,
            backend_stream_id: 0,
            codec: "mpeg2".to_owned(),
            language: Some("und".to_owned()),
            channels: 0,
            enabled: true,
        },
    );
    let mut i: usize = 0;
    while i < audio
        invariant
            i <= audio <= 8,
            audio == stream_count(mat.nr_of_vts_audio_streams, 8),
            tracks@.len() == 1 + i,
            forall|j: int| 0 <= j < tracks@.len() ==> is_track_of(*mat, #[trigger] tracks@[j], j),
        decreases audio - i,
    {
        let attr = mat.vts_audio_attr[i];
        tracks.push(
            Track {
                kind: TrackKind::Audio,
                order: i as u32 + 2,
                backend_stream_id: i as u32,
                codec: audio_codec_str(attr.audio_format()).to_owned(),
                language: Some(iso639_3(attr.lang_code)),
                channels: audio_channels(&attr),
                enabled: true,
            },
        );
        i = i + 1;
    }
    let mut k: usize = 0;
    while k < subp
        invariant
            k <= subp <= 32,
            audio <= 8,
            audio == stream_count(mat.nr_of_vts_audio_streams, 8),
            subp == stream_count(mat.nr_of_vts_subp_streams, 32),
            tracks@.len() == 1 + audio + k,
            forall|j: int| 0 <= j < tracks@.len() ==> is_track_of(*mat, #[trigger] tracks@[j], j),
        decreases subp - k,
    {
        let attr = mat.vts_subp_attr[k];
        tracks.push(
            Track {
                kind: TrackKind::Subtitle,
                order: (audio + k) as u32 + 2,
                backend_stream_id: k as u32,
                codec: "vobsub".to_owned(),
                language: Some(iso639_3(attr.lang_code)),
                channels: 0,
                enabled: true,
            },
        );
        k = k + 1;
    }
    tracks
}

/// Builds the title that the disc has as number `number`, to be listed at
/// `index`.
pub fn build_title(reader: &DvdReader, index: usize, number: usize, t: &TitleInfo) -> (r: Result<
    Title,
    TitleFault,
>)
    ensures
        match r {
            Ok(title) => is_title_of(*reader, index as int, number as int, *t, title),
            Err(fault) => title_fault(*reader, *t) == Some(fault),
        },
{
    let vts = match IfoHandle::open(reader, IfoKind::Vts(t.title_set_nr as u32)) {
        Ok(vts) => vts,
        Err(_) => return Err(TitleFault::VtsUnreadable { title_set_nr: t.title_set_nr }),
    };
    let pgc = match resolve_pgc(vts, t) {
        Ok(pgc) => pgc,
        Err(fault) => return Err(fault),
    };
    let mat = match &vts.vtsi_mat {
        Some(mat) => mat,
        None => return Err(TitleFault::NoManagementTable),
    };
    let backend_title_id: u32 = if number as u64 > 0xFFFF_FFFF {
        0xFFFF_FFFF
    } else {
        number as u32
    };
    Ok(
        Title {
            index,
            backend_title_id,
            duration: Duration::from_secs(dvd_time_seconds(&pgc.playback_time) as u64),
            chapter_count: vts.chapters_for(t.vts_ttn).len(),
            tracks: tracks_of(mat),
            enabled: true,
            skip_reason: None,
        },
    )
}

/// `out` lists the titles among `infos` that can be resolved, in order, each
/// under its position in the list.
pub open spec fn lists_titles(reader: DvdReader, infos: Seq<TitleInfo>, out: Seq<Title>) -> bool
    decreases infos.len(),
{
    if infos.len() == 0 {
        out.len() == 0
    } else if title_fault(reader, infos.last()) is None {
        &&& out.len() > 0
        &&& is_title_of(
            reader,
            out.len() - 1,
            infos.len() as int,
            infos.last(),
            out.last(),
        )
        &&& lists_titles(reader, infos.drop_last(), out.drop_last())
    } else {
        lists_titles(reader, infos.drop_last(), out)
    }
}

/// `r` is the outcome of listing a disc: its titles, or an error where the IFO
/// of the disc could not be read.
pub open spec fn lists_disc(reader: DvdReader, r: Result<TitleCollection, DiscError>) -> bool {
    match (reader.vmg, r) {
        (Some(vmg), Ok(c)) => lists_titles(reader, titles_of(vmg), c.titles@),
        (None, Err(e)) => e == (DiscError::Backend {
            source: DvdError::IfoOpenFailed { ifo_nr: 0 },
        }),
        _ => false,
    }
}

/// Lists the titles of a disc.
pub fn enumerate_titles(reader: &DvdReader) -> (r: Result<TitleCollection, DiscError>)
    ensures
        lists_disc(*reader, r),
{
    let vmg = match IfoHandle::open(reader, IfoKind::Vmg) {
        Ok(vmg) => vmg,
        Err(e) => return Err(DiscError::from(e)),
    };
    let infos = vmg.titles();
    let mut titles: Vec<Title> = Vec::new();
    let mut i: usize = 0;
    assert(infos@.take(0) =~= Seq::<TitleInfo>::empty());
    while i < infos.len()
        invariant
            i <= infos.len(),
            titles@.len() <= i,
            infos@ == titles_of(*vmg),
            reader.vmg == Some(*vmg),
            lists_titles(*reader, infos@.take(i as int), titles@),
        decreases infos.len() - i,
    {
        let ghost before = titles@;
        assert(infos@.take(i + 1).drop_last() =~= infos@.take(i as int));
        match build_title(reader, titles.len(), i + 1, &infos[i]) {
            Ok(title) => {
                titles.push(title);
                assert(titles@.drop_last() =~= before);
            },
            Err(_) => {},
        }
        i = i + 1;
    }
    assert(infos@.take(i as int) =~= infos@);
    Ok(TitleCollection { titles })
}

/// Every listed title stands at the place that its index names, is enabled,
/// and has all its tracks enabled.
pub proof fn lemma_listed_in_place(
    reader: DvdReader,
    infos: Seq<TitleInfo>,
    out: Seq<Title>,
    i: int,
)
    requires
        lists_titles(reader, infos, out),
        0 <= i < out.len(),
    ensures
        out[i].index == i,
        out[i].enabled,
        out[i].skip_reason is None,
        forall|k: int| 0 <= k < out[i].tracks@.len() ==> (#[trigger] out[i].tracks@[k]).enabled,
    decreases infos.len(),
{
    if infos.len() == 0 {
    } else if title_fault(reader, infos.last()) is None {
        if i < out.len() - 1 {
            lemma_listed_in_place(reader, infos.drop_last(), out.drop_last(), i);
            assert(out.drop_last()[i] == out[i]);
        } else {
            let vts = ifo_of(reader, IfoKind::Vts(infos.last().title_set_nr as u32))->0;
            let mat = vts.vtsi_mat->0;
            assert forall|k: int| 0 <= k < out[i].tracks@.len() implies (
            #[trigger] out[i].tracks@[k]).enabled by {
                assert(is_track_of(mat, out[i].tracks@[k], k));
            }
        }
    } else {
        lemma_listed_in_place(reader, infos.drop_last(), out, i);
    }
}

/// The DVD-Video backend over an open disc.
pub struct DvdBackend {
    pub source: DvdSource,
}

impl DvdBackend {
    /// Opens a DVD, given the contents of its IFO files, or `None` where the
    /// disc could not be opened.
    pub fn open(path: String, ifos: Option<DiscIfos>) -> (r: Result<Self, DvdError>)
        ensures
            match r {
                Ok(b) => !path@.contains('\0') && ifos == Some(
                    DiscIfos { vmg: b.source.reader.vmg, vts: b.source.reader.vts },
                ) && b.source.reader.path == path,
                Err(DvdError::InvalidPath) => path@.contains('\0'),
                Err(DvdError::OpenFailed { path: p, reason }) => {
                    &&& !path@.contains('\0')
                    &&& ifos is None
                    &&& p == path
                    &&& reason@ == "libdvdread DVDOpen() returned NULL"@
                },
                Err(_) => false,
            },
    {
        match DvdSource::open(path, ifos) {
            Ok(source) => Ok(DvdBackend { source }),
            Err(e) => Err(e),
        }
    }

    /// The reader of the disc.
    pub fn reader(&self) -> (r: &DvdReader)
        ensures
            *r == self.source.reader,
    {
        self.source.reader()
    }
}

impl DiscBackend for DvdBackend {
    open spec fn type_of_disc(&self) -> DiscType {
        DiscType::Dvd
    }

    open spec fn path_of_disc(&self) -> Seq<char> {
        self.source.reader.path@
    }

    open spec fn lists(&self, r: Result<TitleCollection, DiscError>) -> bool {
        lists_disc(self.source.reader, r)
    }

    fn disc_type(&self) -> (t: DiscType) {
        DiscType::Dvd
    }

    fn path(&self) -> (p: &str) {
        self.source.reader().path()
    }

    fn enumerate(&self) -> (r: Result<TitleCollection, DiscError>) {
        enumerate_titles(self.reader())
    }
}

} // verus!
