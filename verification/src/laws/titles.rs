//! Laws of titles: how they are resolved, listed and planned.
use vstd::prelude::*;
use crate::cell::{cells_of, CellInfo};
use crate::dump_title::{
    cells_blocks, chunk_end, chunk_of, durations_agree, is_plan_of, CellRead, DumpTitleError,
    TitlePlan,
};
use crate::dvd_backend::{
    channels_of, codec_of, is_title_of, is_track_of, language_of, lists_disc, lists_titles,
    title_fault, title_pgc, TitleFault,
};
use crate::error::{DiscError, DvdError};
use crate::ifo::{
    chapters_of, pgcs_of, time_seconds, titles_of, AudioAttr, IfoHandle, Pgc, TitleInfo, VtsiMat,
};
use crate::model::{Title, TitleCollection, TrackKind};
use crate::reader::DvdReader;

verus! {

/// The program chain of a title is the one that its first chapter names,
/// counted from one (zero counts as one), and nothing else is.
pub proof fn lemma_title_plays_its_first_chapter(vts: IfoHandle, t: TitleInfo)
    ensures
        ({
            let chapters = chapters_of(vts, t.vts_ttn);
            let pgcs = pgcs_of(vts);
            let n = if chapters[0].pgcn == 0 {
                1
            } else {
                chapters[0].pgcn as int
            };
            &&& chapters.len() == 0 ==> title_pgc(vts, t) == Err::<Pgc, TitleFault>(
                TitleFault::NoChapters { vts_ttn: t.vts_ttn },
            )
            &&& chapters.len() > 0 && n > pgcs.len() ==> title_pgc(vts, t) == Err::<
                Pgc,
                TitleFault,
            >(TitleFault::PgcOutOfRange { pgcn: chapters[0].pgcn, pgcs: pgcs.len() as usize })
            &&& chapters.len() > 0 && n <= pgcs.len() ==> match pgcs[n - 1].pgc {
                Some(pgc) => title_pgc(vts, t) == Ok::<Pgc, TitleFault>(pgc),
                None => title_pgc(vts, t) == Err::<Pgc, TitleFault>(TitleFault::PgcMissing),
            }
        }),
{
}

/// A title can be listed exactly where the IFO of its title set is there, names
/// a program chain for it and has a management table.
pub proof fn lemma_title_resolves(reader: DvdReader, t: TitleInfo)
    ensures
        ({
            let n = t.title_set_nr as int;
            let vts = if n == 0 {
                reader.vmg
            } else if n <= reader.vts@.len() {
                reader.vts@[n - 1]
            } else {
                None
            };
            &&& vts is None ==> title_fault(reader, t) == Some(
                TitleFault::VtsUnreadable { title_set_nr: t.title_set_nr },
            )
            &&& vts matches Some(v) ==> {
                &&& title_pgc(v, t) matches Err(fault) ==> title_fault(reader, t) == Some(fault)
                &&& title_pgc(v, t) is Ok && v.vtsi_mat is None ==> title_fault(reader, t) == Some(
                    TitleFault::NoManagementTable,
                )
                &&& title_pgc(v, t) is Ok && v.vtsi_mat is Some ==> title_fault(reader, t) is None
            }
        }),
{
}

/// A listed title has exactly one video track, one audio track for each of the
/// first eight audio streams and one subtitle track for each of the first
/// thirty-two subpictures, in this order, each under the number of its stream
/// and with the language of its own attributes.
pub proof fn lemma_title_has_all_its_tracks(
    reader: DvdReader,
    index: int,
    number: int,
    t: TitleInfo,
    title: Title,
    vts: IfoHandle,
    mat: VtsiMat,
)
    requires
        is_title_of(reader, index, number, t, title),
        t.title_set_nr >= 1,
        t.title_set_nr <= reader.vts@.len(),
        reader.vts@[t.title_set_nr - 1] == Some(vts),
        vts.vtsi_mat == Some(mat),
    ensures
        ({
            let tracks = title.tracks@;
            let audio = if mat.nr_of_vts_audio_streams <= 8 {
                mat.nr_of_vts_audio_streams as int
            } else {
                8
            };
            let subp = if mat.nr_of_vts_subp_streams <= 32 {
                mat.nr_of_vts_subp_streams as int
            } else {
                32
            };
            &&& tracks.len() == 1 + audio + subp
            &&& tracks[0].kind == TrackKind::Video && tracks[0].backend_stream_id == 0
                && tracks[0].codec@ == "mpeg2"@ && tracks[0].channels == 0
            &&& forall|k: int|
                #![trigger mat.vts_audio_attr@[k]]
                0 <= k < audio ==> {
                    let track = tracks[1 + k];
                    let attr = mat.vts_audio_attr@[k];
                    &&& track.kind == TrackKind::Audio
                    &&& track.backend_stream_id == k
                    &&& track.codec@ == codec_of((attr.bits % 8) as u8)
                    &&& track.language matches Some(l) && l@ == language_of(attr.lang_code)
                    &&& track.channels == attr.bits / 8192 + 1
                }
            &&& forall|k: int|
                #![trigger mat.vts_subp_attr@[k]]
                0 <= k < subp ==> {
                    let track = tracks[1 + audio + k];
                    &&& track.kind == TrackKind::Subtitle
                    &&& track.backend_stream_id == k
                    &&& track.codec@ == "vobsub"@
                    &&& track.language matches Some(l) && l@ == language_of(
                        mat.vts_subp_attr@[k].lang_code,
                    )
                    &&& track.channels == 0
                }
            &&& forall|i: int|
                0 <= i < tracks.len() ==> (#[trigger] tracks[i]).order == i + 1
                    && tracks[i].enabled
        }),
{
    let tracks = title.tracks@;
    let audio = if mat.nr_of_vts_audio_streams <= 8 {
        mat.nr_of_vts_audio_streams as int
    } else {
        8
    };
    let subp = if mat.nr_of_vts_subp_streams <= 32 {
        mat.nr_of_vts_subp_streams as int
    } else {
        32
    };
    assert(tracks.len() == 1 + audio + subp);
    assert(is_track_of(mat, tracks[0], 0));
    assert forall|k: int| #![trigger mat.vts_audio_attr@[k]] 0 <= k < audio implies {
        let track = tracks[1 + k];
        let attr = mat.vts_audio_attr@[k];
        &&& track.kind == TrackKind::Audio
        &&& track.backend_stream_id == k
        &&& track.codec@ == codec_of((attr.bits % 8) as u8)
        &&& track.language matches Some(l) && l@ == language_of(attr.lang_code)
        &&& track.channels == attr.bits / 8192 + 1
    } by {
        assert(is_track_of(mat, tracks[1 + k], 1 + k));
        let w = mat.vts_audio_attr@[k].bits as int;
        assert(w / 1 % 8 == w % 8);
        assert(w / 8192 % 8 == w / 8192);
    }
    assert forall|k: int| #![trigger mat.vts_subp_attr@[k]] 0 <= k < subp implies {
        let track = tracks[1 + audio + k];
        &&& track.kind == TrackKind::Subtitle
        &&& track.backend_stream_id == k
        &&& track.codec@ == "vobsub"@
        &&& track.language matches Some(l) && l@ == language_of(mat.vts_subp_attr@[k].lang_code)
        &&& track.channels == 0
    } by {
        assert(is_track_of(mat, tracks[1 + audio + k], 1 + audio + k));
    }
    assert forall|i: int| 0 <= i < tracks.len() implies (#[trigger] tracks[i]).order == i + 1
        && tracks[i].enabled by {
        assert(is_track_of(mat, tracks[i], i));
    }
}

/// A listed title has its place, its number on the disc, the whole seconds of
/// its program chain and its number of chapters.
pub proof fn lemma_title_says_what_the_disc_has(
    reader: DvdReader,
    index: int,
    number: int,
    t: TitleInfo,
    title: Title,
    vts: IfoHandle,
)
    requires
        is_title_of(reader, index, number, t, title),
        1 <= t.title_set_nr <= reader.vts@.len(),
        reader.vts@[t.title_set_nr - 1] == Some(vts),
        number <= u32::MAX,
    ensures
        title_fault(reader, t) is None,
        title.index == index,
        title.backend_title_id == number,
        title.chapter_count == chapters_of(vts, t.vts_ttn).len(),
        title_pgc(vts, t) matches Ok(pgc) && title.duration.secs == time_seconds(pgc.playback_time)
            && title.duration.nanos == 0,
        title.enabled && title.skip_reason is None,
{
}

/// Formats have their codecs: MPEG audio for 2 and 3, LPCM for 4, DTS for 6 and
/// AC-3 for every other.
pub proof fn lemma_codec_of_each_format(fmt: u8, attr: AudioAttr)
    ensures
        codec_of(fmt) == "mp2"@ <==> fmt == 2 || fmt == 3,
        codec_of(fmt) == "lpcm"@ <==> fmt == 4,
        codec_of(fmt) == "dts"@ <==> fmt == 6,
        codec_of(fmt) == "ac3"@ <==> fmt != 2 && fmt != 3 && fmt != 4 && fmt != 6,
        channels_of(attr) == attr.bits / 8192 + 1,
{
    reveal_strlit("mp2");
    reveal_strlit("lpcm");
    reveal_strlit("dts");
    reveal_strlit("ac3");
    assert("mp2"@[0] == 'm');
    assert("lpcm"@[0] == 'l');
    assert("dts"@[0] == 'd');
    assert("ac3"@[0] == 'a');
    let w = attr.bits as int;
    assert(w / 8192 % 8 == w / 8192);
}

/// A list goes through the titles of the disc in order: one that resolves is
/// appended, any other is left out.
pub proof fn lemma_list_goes_title_by_title(
    reader: DvdReader,
    infos: Seq<TitleInfo>,
    t: TitleInfo,
    out: Seq<Title>,
)
    ensures
        lists_titles(reader, Seq::empty(), out) <==> out.len() == 0,
        title_fault(reader, t) is Some ==> (lists_titles(reader, infos.push(t), out)
            <==> lists_titles(reader, infos, out)),
        title_fault(reader, t) is None ==> (lists_titles(reader, infos.push(t), out) <==> {
            &&& out.len() > 0
            &&& lists_titles(reader, infos, out.drop_last())
            &&& is_title_of(reader, out.len() - 1, infos.len() as int + 1, t, out.last())
        }),
{
    assert(infos.push(t).drop_last() =~= infos);
}

/// Every title that resolves is listed: as many titles come out as resolve.
pub proof fn lemma_list_is_complete(reader: DvdReader, infos: Seq<TitleInfo>, out: Seq<Title>)
    requires
        lists_titles(reader, infos, out),
    ensures
        out.len() == infos.filter(|t: TitleInfo| title_fault(reader, t) is None).len(),
    decreases infos.len(),
{
    reveal(Seq::filter);
    if infos.len() > 0 {
        if title_fault(reader, infos.last()) is None {
            lemma_list_is_complete(reader, infos.drop_last(), out.drop_last());
        } else {
            lemma_list_is_complete(reader, infos.drop_last(), out);
        }
    }
}

/// A disc is listed by its own titles, and cannot be where its IFO is missing.
pub proof fn lemma_disc_is_listed(reader: DvdReader, r: Result<TitleCollection, DiscError>)
    requires
        lists_disc(reader, r),
    ensures
        reader.vmg matches Some(vmg) ==> (r matches Ok(c) && lists_titles(
            reader,
            titles_of(vmg),
            c.titles@,
        )),
        reader.vmg is None ==> (r matches Err(DiscError::Backend { source })
            && source == (DvdError::IfoOpenFailed { ifo_nr: 0 })),
{
}

/// A plan reads the cells of the title's program chain, all of them in order,
/// from the title set that the disc names for it; titles count from one.
pub proof fn lemma_plan_has_every_cell(
    reader: DvdReader,
    title: u8,
    r: Result<TitlePlan, DumpTitleError>,
    vmg: IfoHandle,
)
    requires
        is_plan_of(reader, title, r),
        reader.vmg == Some(vmg),
    ensures
        title == 0 ==> r == Err::<TitlePlan, DumpTitleError>(DumpTitleError::TitleZero),
        title > titles_of(vmg).len() ==> r == Err::<TitlePlan, DumpTitleError>(
            DumpTitleError::TitleOutOfRange { title, titles: titles_of(vmg).len() as usize },
        ),
        1 <= title <= titles_of(vmg).len() ==> {
            let info = titles_of(vmg)[title - 1];
            let n = info.title_set_nr as int;
            let vts = if n == 0 {
                Some(vmg)
            } else if n <= reader.vts@.len() {
                reader.vts@[n - 1]
            } else {
                None
            };
            &&& vts is None ==> r is Err
            &&& vts matches Some(v) ==> match title_pgc(v, info) {
                Ok(pgc) => r matches Ok(plan) && plan.title_set_nr == info.title_set_nr
                    && plan.cells@ == cells_of(pgc) && plan.nr_of_cells == pgc.nr_of_cells
                    && plan.pgc_seconds == time_seconds(pgc.playback_time),
                Err(fault) => r == Err::<TitlePlan, DumpTitleError>(
                    DumpTitleError::Unresolved(fault),
                ),
            }
        },
{
}

/// A read takes all that is left of a cell, up to 512 blocks, and the next read
/// starts behind it.
pub proof fn lemma_reads_go_on(r: CellRead)
    ensures
        r.remaining <= 512 ==> chunk_of(r.remaining) == r.remaining,
        r.remaining > 512 ==> chunk_of(r.remaining) == 512,
        r.offset + r.remaining <= u32::MAX ==> chunk_end(r) == r.offset + chunk_of(r.remaining),
{
}

/// The blocks of a title are those of all its cells, and its cells agree with
/// its program chain within a second for each cell, two at least.
pub proof fn lemma_title_totals(cells: Seq<CellInfo>, n: int, sum: int, pgc: int, count: int)
    requires
        0 <= n <= cells.len(),
    ensures
        cells_blocks(cells, n) == cells.subrange(0, n).fold_left(
            0int,
            |total: int, c: CellInfo| total + c.block_count,
        ),
        durations_agree(sum, pgc, count) <==> {
            ||| -2 <= sum - pgc <= 2
            ||| -count <= sum - pgc <= count
        },
    decreases n,
{
    let f = |total: int, c: CellInfo| total + c.block_count;
    if n > 0 {
        lemma_title_totals(cells, n - 1, sum, pgc, count);
        assert(cells.subrange(0, n).drop_last() =~= cells.subrange(0, n - 1));
        assert(cells.subrange(0, n).last() == cells[n - 1]);
    } else {
        assert(cells.subrange(0, 0) =~= Seq::<CellInfo>::empty());
    }
}

} // verus!
