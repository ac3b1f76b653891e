//! Laws of the IFO tables and of what is made of them.
use vstd::prelude::*;
use crate::cell::{cell_of, cell_walk_ok, cells_of, CellInfo};
use crate::ifo::{
    bcd_value, bits_at, cell_adr_entries, cell_adrs_of, chapters_of, entries_of, pgcs_of,
    time_seconds, time_text, titles_of, tmaps_of, ttus_of, vobu_entries, vobus_of, CellPlayback,
    DvdTime, IfoHandle, IfoKind, Pgc,
};
use crate::reader::{ifo_of, DvdReader};
use crate::text::{dec, pad_left};

verus! {

/// A table that is there has as many entries as it states, or as many as there
/// are where that is fewer, each in its place; a missing table has none.
pub proof fn lemma_table_entries<T>(array: Option<Vec<T>>, n: nat, i: int)
    ensures
        array is None ==> entries_of(array, n).len() == 0,
        array matches Some(v) ==> {
            &&& entries_of(array, n).len() == (if n < v@.len() {
                n
            } else {
                v@.len()
            })
            &&& 0 <= i < entries_of(array, n).len() ==> entries_of(array, n)[i] == v@[i]
        },
{
}

/// Each list of an IFO is the table of its name.
pub proof fn lemma_lists_are_their_tables(ifo: IfoHandle)
    ensures
        ifo.tt_srpt matches Some(t) ==> titles_of(ifo) == entries_of(t.title, t.nr_of_srpts as nat),
        ifo.tt_srpt is None ==> titles_of(ifo).len() == 0,
        ifo.vts_pgcit matches Some(t) ==> pgcs_of(ifo) == entries_of(
            t.pgci_srp,
            t.nr_of_pgci_srp as nat,
        ),
        ifo.vts_pgcit is None ==> pgcs_of(ifo).len() == 0,
        ifo.vts_ptt_srpt matches Some(t) ==> ttus_of(ifo) == entries_of(
            t.title,
            t.nr_of_srpts as nat,
        ),
        ifo.vts_ptt_srpt is None ==> ttus_of(ifo).len() == 0,
        ifo.vts_tmapt matches Some(t) ==> tmaps_of(ifo) == entries_of(t.tmap, t.nr_of_tmaps as nat),
        ifo.vts_tmapt is None ==> tmaps_of(ifo).len() == 0,
        ifo.vts_c_adt matches Some(t) ==> cell_adrs_of(ifo) == entries_of(
            t.cell_adr_table,
            cell_adr_entries(t.last_byte),
        ),
        ifo.vts_c_adt is None ==> cell_adrs_of(ifo).len() == 0,
        ifo.vts_vobu_admap matches Some(t) ==> vobus_of(ifo) == entries_of(
            t.vobu_start_sectors,
            vobu_entries(t.last_byte),
        ),
        ifo.vts_vobu_admap is None ==> vobus_of(ifo).len() == 0,
{
}

/// The chapters of title `n` of a title set, counted from one, are those that
/// its own entry lists.
pub proof fn lemma_chapters_of_a_title(ifo: IfoHandle, n: u8)
    ensures
        1 <= n <= ttus_of(ifo).len() ==> chapters_of(ifo, n) == entries_of(
            ttus_of(ifo)[n - 1].ptt,
            ttus_of(ifo)[n - 1].nr_of_ptts as nat,
        ),
        n > ttus_of(ifo).len() ==> chapters_of(ifo, n).len() == 0,
        chapters_of(ifo, 0) == chapters_of(ifo, 1),
{
}

/// A table of `n` entries of twelve bytes behind eight, or of four bytes behind
/// four, ends at the byte that says so.
pub proof fn lemma_table_sizes_follow(last_byte: u32, n: nat, rest: nat)
    ensures
        n >= 1 && rest < 12 && last_byte == 8 + 12 * n + rest - 1 ==> cell_adr_entries(last_byte)
            == n,
        last_byte < 8 + 12 - 1 ==> cell_adr_entries(last_byte) == 0,
        n >= 1 && rest < 4 && last_byte == 4 + 4 * n + rest - 1 ==> vobu_entries(last_byte) == n,
        last_byte < 4 + 4 - 1 ==> vobu_entries(last_byte) == 0,
{
}

/// The fields of an audio attribute word lie side by side and fill it.
pub proof fn lemma_audio_word_is_its_fields(word: u16)
    ensures
        bits_at(word, 1, 8) + 8 * bits_at(word, 8, 2) + 16 * bits_at(word, 16, 4) + 64 * bits_at(
            word,
            64,
            4,
        ) + 256 * bits_at(word, 256, 4) + 1024 * bits_at(word, 1024, 4) + 8192 * bits_at(
            word,
            8192,
            8,
        ) + 4096 * (word as int / 4096 % 2) == word,
{
    let w = word as int;
    assert(w / 16 == w / 8 / 2);
    assert(w / 64 == w / 16 / 4);
    assert(w / 256 == w / 64 / 4);
    assert(w / 1024 == w / 256 / 4);
    assert(w / 4096 == w / 1024 / 4);
    assert(w / 8192 == w / 4096 / 2);
}

/// A cell covers its sectors from the first to the last, both counted, and
/// carries the flags and the time of its entry.
pub proof fn lemma_cell_covers_its_sectors(idx: u8, raw: CellPlayback)
    ensures
        ({
            let c = cell_of(idx, raw);
            &&& c.idx == idx
            &&& c.first_sector == raw.first_sector && c.last_sector == raw.last_sector
            &&& raw.first_sector <= raw.last_sector && raw.last_sector - raw.first_sector
                < u32::MAX ==> c.first_sector + c.block_count == c.last_sector + 1
            &&& raw.first_sector > raw.last_sector ==> c.block_count == 1
            &&& c.playback_time == raw.playback_time
            &&& c.stc_discontinuity <==> raw.stc_discontinuity != 0
            &&& c.seamless_play <==> raw.seamless_play != 0
            &&& c.interleaved <==> raw.interleaved != 0
            &&& c.seamless_angle <==> raw.seamless_angle != 0
            &&& c.block_mode == raw.block_mode && c.block_type == raw.block_type
        }),
{
}

/// A program chain has one cell for each entry of its table, in its order.
pub proof fn lemma_cells_in_order(pgc: Pgc, i: int)
    ensures
        cells_of(pgc).len() == entries_of(pgc.cell_playback, pgc.nr_of_cells as nat).len(),
        0 <= i < cells_of(pgc).len() ==> cells_of(pgc)[i] == cell_of(
            i as u8,
            entries_of(pgc.cell_playback, pgc.nr_of_cells as nat)[i],
        ),
{
}

/// A walk is fine exactly where a cell is not inverted, ends within its file
/// and starts behind the cell before it.
pub proof fn lemma_walk_checks(cell: CellInfo, prev: Option<CellInfo>, blocks: u32)
    ensures
        cell.first_sector > cell.last_sector ==> !cell_walk_ok(cell, prev, blocks),
        cell.last_sector >= blocks ==> !cell_walk_ok(cell, prev, blocks),
        prev matches Some(p) ==> (cell.first_sector <= p.last_sector ==> !cell_walk_ok(
            cell,
            prev,
            blocks,
        )),
        cell.first_sector <= cell.last_sector < blocks && (prev is None
            || prev->0.last_sector < cell.first_sector) ==> cell_walk_ok(cell, prev, blocks),
{
}

/// Two decimal digits packed into a byte are worth tens and ones.
pub proof fn lemma_packed_digits(tens: u8, ones: u8)
    requires
        tens < 16,
        ones < 16,
    ensures
        bcd_value((tens * 16 + ones) as u8) == tens * 10 + ones,
{
}

/// A playback time of decimal digits: its whole seconds, and its text in two
/// digits each.
pub proof fn lemma_playback_time_digits(
    t: DvdTime,
    hours: int,
    minutes: int,
    seconds: int,
    frames: int,
    rate: int,
)
    requires
        0 <= hours < 100,
        0 <= minutes < 100,
        0 <= seconds < 100,
        0 <= frames < 40,
        0 <= rate < 4,
        t.hour as int == hours / 10 * 16 + hours % 10,
        t.minute as int == minutes / 10 * 16 + minutes % 10,
        t.second as int == seconds / 10 * 16 + seconds % 10,
        t.frame_u as int == rate * 64 + frames / 10 * 16 + frames % 10,
    ensures
        time_seconds(t) == (hours * 60 + minutes) * 60 + seconds,
        time_text(t) == pad_left(dec(hours as nat), 2, '0') + ":"@ + pad_left(
            dec(minutes as nat),
            2,
            '0',
        ) + ":"@ + pad_left(dec(seconds as nat), 2, '0') + "."@ + pad_left(
            dec(frames as nat),
            2,
            '0',
        ),
{
    let low = (t.frame_u % 64) as int;
    assert(low == frames / 10 * 16 + frames % 10);
    assert(bcd_value(t.hour) == hours);
    assert(bcd_value(t.minute) == minutes);
    assert(bcd_value(t.second) == seconds);
    assert(bcd_value((t.frame_u % 64) as u8) == frames);
}

/// IFOs go by their number: 0 is that of the disc, any other that of the title
/// set of that number.
pub proof fn lemma_ifo_goes_by_number(reader: DvdReader, n: u32)
    ensures
        ifo_of(reader, IfoKind::Vmg) == reader.vmg,
        ifo_of(reader, IfoKind::Vts(0)) == reader.vmg,
        1 <= n <= reader.vts@.len() ==> ifo_of(reader, IfoKind::Vts(n)) == reader.vts@[n - 1],
        n > reader.vts@.len() && n > 0 ==> ifo_of(reader, IfoKind::Vts(n)) is None,
{
}

} // verus!
