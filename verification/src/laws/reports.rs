//! Laws of the reports.
use vstd::prelude::*;
use crate::cell::raw_cells_of;
use crate::css::{CssProbe, ProbeMethod};
use crate::demux::{DemuxSummary, MagicCheck, StreamEntry};
use crate::demux_vob::{
    accounted_of, magic_name, with_accounting, with_bytes, with_number, with_stream, with_streams,
};
use crate::error::{dvd_error_text, DvdError};
use crate::ifo::{
    cell_adrs_of, chapters_of, pgcs_of, titles_of, tmaps_of, vobus_of, CellAdr, CellPlayback,
    IfoHandle, Pgc, PttInfo, TitleInfo, VtsTmap, VtsiMat,
};
use crate::info;
use crate::reader::DvdReader;
use crate::scan_streams::{with_tallies, with_tally, TallyEntry};
use crate::sha256::hex_of;
use crate::text::{dec, hex_lower, hex_upper, pad_left};

verus! {

/// Bytes in hexadecimal: two digits for each byte, in order.
pub proof fn lemma_hex_of_each_byte(bytes: Seq<u8>, i: int)
    ensures
        hex_of(bytes).len() == 2 * bytes.len(),
        0 <= i < bytes.len() ==> hex_of(bytes).subrange(2 * i, 2 * i + 2) == pad_left(
            hex_lower(bytes[i] as nat),
            2,
            '0',
        ),
    decreases bytes.len(),
{
    reveal_with_fuel(hex_lower, 3);
    if bytes.len() > 0 {
        let front = bytes.drop_last();
        lemma_hex_of_each_byte(front, i);
        let last = pad_left(hex_lower(bytes.last() as nat), 2, '0');
        assert(last.len() == 2);
        let all = hex_of(bytes);
        if 0 <= i < front.len() {
            assert(all.subrange(2 * i, 2 * i + 2) =~= hex_of(front).subrange(2 * i, 2 * i + 2));
            assert(front[i] == bytes[i]);
        } else if i == front.len() {
            assert(all.subrange(2 * i, 2 * i + 2) =~= last);
        }
    }
}

/// Bytes of a stream's beginning: two digits for each, a space between them.
pub proof fn lemma_bytes_are_listed(text: Seq<char>, bytes: Seq<u8>, b: u8)
    ensures
        with_bytes(text, Seq::empty()) == text,
        with_bytes(text, seq![b]) == text + pad_left(hex_upper(b as nat), 2, '0'),
        bytes.len() > 0 ==> with_bytes(text, bytes.push(b)) == with_bytes(text, bytes) + " "@
            + pad_left(hex_upper(b as nat), 2, '0'),
{
    assert(bytes.push(b).drop_last() =~= bytes);
    assert(seq![b].drop_last() =~= Seq::<u8>::empty());
    assert(with_bytes(text, Seq::<u8>::empty()) == text);
}

/// A table has a row for every stream, in order.
pub proof fn lemma_every_stream_has_a_row(
    text: Seq<char>,
    streams: Seq<StreamEntry>,
    e: StreamEntry,
    tallies: Seq<TallyEntry>,
    t: TallyEntry,
)
    ensures
        with_streams(text, Seq::empty()) == text,
        with_streams(text, streams.push(e)) == with_stream(with_streams(text, streams), e),
        with_tallies(text, Seq::empty()) == text,
        with_tallies(text, tallies.push(t)) == with_tally(with_tallies(text, tallies), t),
{
    assert(streams.push(e).drop_last() =~= streams);
    assert(tallies.push(t).drop_last() =~= tallies);
}

/// The accounting lists every share of the input, their sum, and whether it is
/// the input; where it is not, by how much it is off.
pub proof fn lemma_accounting_lines(text: Seq<char>, s: DemuxSummary)
    ensures
        ({
            let sum = s.pack_header_bytes + s.stripped_header_bytes + s.elementary_emitted_bytes
                + s.dropped_pes_bytes;
            let t = with_number(text, "  input bytes:             "@, s.input_bytes as nat);
            let t = with_number(t, "  pack header bytes:       "@, s.pack_header_bytes as nat);
            let t = with_number(t, "  PES/BD header bytes:     "@, s.stripped_header_bytes as nat);
            let t = with_number(t, "  elementary bytes out:    "@, s.elementary_emitted_bytes as nat);
            let t = with_number(t, "  dropped bytes (NV/pad/sys): "@, s.dropped_pes_bytes as nat);
            let t = with_number(t, "  accounted total:         "@, sum as nat);
            &&& accounted_of(s) == sum
            &&& sum == s.input_bytes ==> with_accounting(text, s) == t
                + "  byte accounting:         PASS\n"@
            &&& sum > s.input_bytes ==> with_accounting(text, s) == t
                + "  byte accounting:         FAIL ("@ + dec((sum - s.input_bytes) as nat)
                + " byte difference)\n"@
            &&& sum < s.input_bytes ==> with_accounting(text, s) == t
                + "  byte accounting:         FAIL ("@ + "-"@ + dec((s.input_bytes - sum) as nat)
                + " byte difference)\n"@
        }),
{
}

/// The names of the verdicts on first bytes.
pub proof fn lemma_verdicts_have_names(text: Seq<char>, name: Seq<char>, n: nat)
    ensures
        magic_name(MagicCheck::Pass) == "PASS"@,
        magic_name(MagicCheck::Fail) == "FAIL"@,
        magic_name(MagicCheck::Skipped) == "skipped"@,
        magic_name(MagicCheck::Pending) == "pending"@,
        with_number(text, name, n) == text + name + dec(n) + "\n"@,
{
}

/// The report on a disc has every title of it, in order, under its number
/// counted from one.
pub proof fn lemma_report_has_every_title(
    text: Seq<char>,
    reader: DvdReader,
    infos: Seq<TitleInfo>,
    n: int,
)
    requires
        0 <= n < infos.len(),
    ensures
        info::with_titles(text, reader, infos, 0) == text,
        info::with_titles(text, reader, infos, n + 1) == info::with_title(
            info::with_titles(text, reader, infos, n),
            reader,
            n + 1,
            infos[n],
        ),
{
}

/// The report on a title set has each of its first eight audio streams and each
/// of its first thirty-two subpictures, in order.
pub proof fn lemma_report_has_every_stream(text: Seq<char>, m: VtsiMat, n: int)
    requires
        0 <= n,
    ensures
        info::with_audio_attrs(text, m.vts_audio_attr@, 0) == text,
        info::with_audio_attrs(text, m.vts_audio_attr@, n + 1) == info::with_audio_attr(
            info::with_audio_attrs(text, m.vts_audio_attr@, n),
            n,
            m.vts_audio_attr@[n],
        ),
        info::with_subp_attrs(text, m.vts_subp_attr@, 0) == text,
        info::with_subp_attrs(text, m.vts_subp_attr@, n + 1) == info::with_subp_attr(
            info::with_subp_attrs(text, m.vts_subp_attr@, n),
            n,
            m.vts_subp_attr@[n],
        ),
        1 <= m.nr_of_vts_audio_streams <= 8 ==> info::with_audio_streams(text, m)
            == info::with_audio_attrs(
            text + "    vts_audio_attr ("@ + dec(m.nr_of_vts_audio_streams as nat)
                + " active streams of 8 slots):\n"@,
            m.vts_audio_attr@,
            m.nr_of_vts_audio_streams as int,
        ),
        1 <= m.nr_of_vts_subp_streams <= 32 ==> info::with_subp_streams(text, m)
            == info::with_subp_attrs(
            text + "    vts_subp_attr ("@ + dec(m.nr_of_vts_subp_streams as nat)
                + " active streams of 32 slots):\n"@,
            m.vts_subp_attr@,
            m.nr_of_vts_subp_streams as int,
        ),
        m.nr_of_vts_audio_streams > 8 ==> info::with_audio_streams(text, m)
            == info::with_audio_attrs(
            text + "    vts_audio_attr ("@ + dec(m.nr_of_vts_audio_streams as nat)
                + " active streams of 8 slots):\n"@,
            m.vts_audio_attr@,
            8,
        ),
        m.nr_of_vts_subp_streams > 32 ==> info::with_subp_streams(text, m) == info::with_subp_attrs(
            text + "    vts_subp_attr ("@ + dec(m.nr_of_vts_subp_streams as nat)
                + " active streams of 32 slots):\n"@,
            m.vts_subp_attr@,
            32,
        ),
{
}

/// The lists of a report go through their tables entry by entry; slots of a
/// program chain are listed where their highest bit is set.
pub proof fn lemma_report_lists_go_on(
    text: Seq<char>,
    chapters: Seq<PttInfo>,
    cells: Seq<CellPlayback>,
    rows: Seq<CellAdr>,
    tmaps: Seq<VtsTmap>,
    audio: Seq<u16>,
    subp: Seq<u32>,
    palette: Seq<u32>,
    m: VtsiMat,
    n: int,
)
    requires
        0 <= n,
    ensures
        info::with_chapters(text, chapters, 0) == text,
        info::with_chapters(text, chapters, n + 1) == info::with_chapter(
            info::with_chapters(text, chapters, n),
            n,
            chapters[n],
        ),
        info::with_cells(text, cells, 0) == text,
        info::with_cells(text, cells, n + 1) == info::with_cell(
            info::with_cells(text, cells, n),
            n,
            cells[n],
        ),
        info::with_cell_adrs(text, rows, 0) == text,
        info::with_cell_adrs(text, rows, n + 1) == info::with_cell_adr(
            info::with_cell_adrs(text, rows, n),
            rows[n],
        ),
        info::with_tmaps(text, tmaps, 0) == text,
        info::with_tmaps(text, tmaps, n + 1) == info::with_tmap(
            info::with_tmaps(text, tmaps, n),
            n,
            tmaps[n],
        ),
        info::with_audio_slots(text, audio, m, 0) == text,
        info::with_audio_slots(text, audio, m, n + 1) == (if audio[n] >= 0x8000 {
            info::with_audio_slot(info::with_audio_slots(text, audio, m, n), n, audio[n], m)
        } else {
            info::with_audio_slots(text, audio, m, n)
        }),
        info::with_subp_slots(text, subp, m, 0) == text,
        info::with_subp_slots(text, subp, m, n + 1) == (if subp[n] >= 0x8000_0000 {
            info::with_subp_slot(info::with_subp_slots(text, subp, m, n), n, subp[n], m)
        } else {
            info::with_subp_slots(text, subp, m, n)
        }),
        info::with_colours(text, palette, 0) == text,
        info::with_colours(text, palette, n + 1) == info::with_colours(text, palette, n) + " "@
            + pad_left(hex_lower((palette[n] % 0x100_0000) as nat), 6, '0'),
        info::audio_slots(audio, 0) == 0,
        info::audio_slots(audio, n + 1) == info::audio_slots(audio, n) + (if audio[n] >= 0x8000 {
            1int
        } else {
            0
        }),
        info::subp_slots(subp, 0) == 0,
        info::subp_slots(subp, n + 1) == info::subp_slots(subp, n) + (if subp[n] >= 0x8000_0000 {
            1int
        } else {
            0
        }),
        info::preview_of(n) == (if n <= 3 {
            n
        } else {
            3
        }),
{
}

/// The report on a disc: its protection, the tables of the whole disc, and all
/// its titles, each with the IFO of its title set or why there is none.
pub proof fn lemma_report_on_a_disc(
    text: Seq<char>,
    reader: DvdReader,
    vmg: IfoHandle,
    probe: Result<CssProbe, DvdError>,
    number: int,
    t: TitleInfo,
    vts: IfoHandle,
)
    ensures
        ({
            let head = info::with_vmg_extras(
                info::with_vmg_summary(info::with_css_probe(text, probe), vmg),
                vmg,
            );
            let n = titles_of(vmg).len();
            &&& n == 0 ==> info::with_disc(text, reader, vmg, probe) == head
                + "\n(no titles found in tt_srpt)\n"@
            &&& n > 0 ==> info::with_disc(text, reader, vmg, probe) == info::with_titles(
                head + "\ntitles ("@ + dec(n) + " entries in tt_srpt):\n"@,
                reader,
                titles_of(vmg),
                n as int,
            )
        }),
        1 <= t.title_set_nr <= reader.vts@.len() && reader.vts@[t.title_set_nr - 1] == Some(vts)
            ==> info::with_title(text, reader, number, t) == info::with_vts_detail(
            info::with_title_summary(text, number, t),
            vts,
            t.vts_ttn,
        ),
        1 <= t.title_set_nr && (t.title_set_nr > reader.vts@.len() || reader.vts@[t.title_set_nr
            - 1] is None) ==> info::with_title(text, reader, number, t) == info::with_title_summary(
            text,
            number,
            t,
        ) + "      (could not open VTS_"@ + pad_left(dec(t.title_set_nr as nat), 2, '0')
            + "_0.IFO: "@ + dvd_error_text(
            DvdError::IfoOpenFailed { ifo_nr: t.title_set_nr as u32 },
        ) + ")\n"@,
{
}

/// The report on a title set: its summary, video, audio streams, subpictures,
/// chapters, address tables and program chain, in this order.
pub proof fn lemma_report_on_a_title_set(text: Seq<char>, vts: IfoHandle, m: VtsiMat, n: u8, pgc: Pgc)
    ensures
        vts.vtsi_mat is None ==> info::with_vts_detail(text, vts, n) == text
            + "    (vtsi_mat NULL — VTS parse failure)\n"@,
        vts.vtsi_mat == Some(m) ==> info::with_vts_detail(text, vts, n) == info::with_pgc_detail(
            info::with_vts_address_tables(
                info::with_chapter_list(
                    info::with_subp_streams(
                        info::with_audio_streams(
                            info::with_video_attr(info::with_vtsi_summary(text, m), m),
                            m,
                        ),
                        m,
                    ),
                    vts,
                    n,
                ),
                vts,
            ),
            vts,
            m,
            n,
        ),
        info::with_pgc_summary(text, pgc, m) == info::with_pgc_cells(
            info::with_pgc_palette(
                info::with_pgc_subp_control(
                    info::with_pgc_audio_control(info::with_pgc_fields(text, pgc), pgc, m),
                    pgc,
                    m,
                ),
                pgc,
            ),
            pgc,
        ),
        ({
            let chapters = chapters_of(vts, n);
            let head = text + "    chapters for vts_ttn="@ + dec(n as nat) + " ("@ + dec(
                chapters.len(),
            ) + " entries):\n"@;
            &&& chapters.len() > 0 ==> info::with_chapter_list(text, vts, n) == info::with_chapters(
                head,
                chapters,
                chapters.len() as int,
            )
            &&& chapters.len() == 0 ==> info::with_chapter_list(text, vts, n) == head
                + "      (no chapter entries)\n"@
        }),
{
}

/// Long tables show their first three entries and how many more there are.
pub proof fn lemma_report_previews(text: Seq<char>, pgc: Pgc)
    ensures
        ({
            let cells = raw_cells_of(pgc);
            let n = cells.len() as int;
            let head = |shown: nat|
                text + "      cells (first "@ + dec(shown) + " of "@ + dec(cells.len()) + "):\n"@;
            &&& n == 0 ==> info::with_pgc_cells(text, pgc) == text
            &&& 1 <= n <= 3 ==> info::with_pgc_cells(text, pgc) == info::with_cells(
                head(n as nat),
                cells,
                n,
            )
            &&& n > 3 ==> info::with_pgc_cells(text, pgc) == info::with_cells(head(3), cells, 3)
                + "        ... ("@ + dec((n - 3) as nat) + " more cells)\n"@
        }),
{
}

/// The report on the protection tells clear from scrambled by the probe's own
/// verdict, and says where nothing could be told.
pub proof fn lemma_report_on_protection(text: Seq<char>, p: CssProbe, e: DvdError)
    ensures
        info::with_css_probe(text, Ok::<CssProbe, DvdError>(p)) == info::with_probe(
            text + "CSS protection:\n"@,
            p,
        ),
        info::with_css_probe(text, Err::<CssProbe, DvdError>(e)) == text + "CSS protection:\n"@
            + "  (libdvdcss could not open the path: "@ + dvd_error_text(e) + ")\n"@,
        p.method == ProbeMethod::Inconclusive && p.last_error is None ==> info::with_probe(text, p)
            == text + "  probe method:  inconclusive\n"@
            + "  is_scrambled:  UNKNOWN (could not sample a VOB sector)\n"@,
        p.method == ProbeMethod::LibdvdcssIoctl && p.last_error is None ==> info::with_probe(text, p)
            == text + "  probe method:  block device (libdvdcss DVD ioctls, authoritative)\n"@
            + "  is_scrambled:  "@ + (if p.is_scrambled {
            "true"@
        } else {
            "false"@
        }) + " -> "@ + info::verdict_of(p.method, p.is_scrambled) + "\n"@,
{
}

} // verus!
