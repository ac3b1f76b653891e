//! Laws of playback and of the cell table.
use vstd::prelude::*;
use crate::cell::{cells_of, CellInfo};
use crate::demux_title_nav::reported_cell;
use crate::dump_title_nav::event_bytes;
use crate::ifo::{pgcs_of, IfoHandle, TitleInfo};
use crate::nav::{
    action_of, counted, event_total, is_event_of, no_events, still_length_of, CellChangeInfo,
    EventCounts, NavAction, NavEvent,
};
use crate::nav_cells::{
    disc_cell, key_code, listed_cell, listed_codes, table_cell, vts_of_title, CellKey, CellLookup,
};
use crate::reader::DvdReader;

verus! {

/// Events by the codes of libdvdnav; a code without a name is kept.
pub proof fn lemma_events_by_code(
    code: i32,
    buf: Seq<u8>,
    len: int,
    still: i32,
    cell: CellChangeInfo,
    e: NavEvent<'_>,
)
    requires
        is_event_of(code, buf, len, still, cell, e),
        0 <= len <= buf.len(),
    ensures
        e is Block <==> code == 0,
        e matches NavEvent::Block { sector } ==> sector@ == buf.subrange(0, len),
        e is Nop <==> code == 1,
        e is StillFrame <==> code == 2,
        e matches NavEvent::StillFrame { length } ==> (0 <= still <= 255 ==> length == still) && (
        still > 255 ==> length == 255) && (still < 0 ==> length == 0),
        e is SpuStreamChange <==> code == 3,
        e is AudioStreamChange <==> code == 4,
        e is VtsChange <==> code == 5,
        e is CellChange <==> code == 6,
        e matches NavEvent::CellChange {
            cell_nr,
            program_nr,
            cell_length_pts,
            program_length_pts,
            pgc_length_pts,
            cell_start_pts,
            program_start_pts,
        } ==> cell_nr == cell.cell_nr && program_nr == cell.program_nr && cell_length_pts
            == cell.cell_length_pts && program_length_pts == cell.program_length_pts
            && pgc_length_pts == cell.pgc_length_pts && cell_start_pts == cell.cell_start_pts
            && program_start_pts == cell.program_start_pts,
        e is NavPacket <==> code == 7,
        e is Stop <==> code == 8,
        e is Highlight <==> code == 9,
        e is SpuClutChange <==> code == 10,
        e is HopChannel <==> code == 12,
        e is Wait <==> code == 13,
        e matches NavEvent::Other(c) ==> c == code,
{
    assert(buf.take(len) =~= buf.subrange(0, len));
}

/// A rip takes every block, goes on behind every still and wait, looks up every
/// new cell, ends at a stop and only there, and does nothing about the rest.
pub proof fn lemma_actions(e: NavEvent<'_>)
    ensures
        action_of(e) is TakeSector <==> e is Block,
        action_of(e) is SkipStill <==> e is StillFrame,
        action_of(e) is SkipWait <==> e is Wait,
        action_of(e) is EnterCell <==> e is CellChange,
        action_of(e) matches NavAction::EnterCell { cell_nr } ==> (
        e matches NavEvent::CellChange { cell_nr: n, .. } && n == cell_nr),
        action_of(e) is End <==> e is Stop,
{
}

/// Each kind of event has its own count.
pub proof fn lemma_each_kind_has_its_count(c: EventCounts, e: NavEvent<'_>)
    requires
        event_total(c) < u64::MAX,
    ensures
        ({
            let n = counted(c, e);
            let one = |b: bool|
                if b {
                    1int
                } else {
                    0int
                };
            &&& n.blocks == c.blocks + one(e is Block)
            &&& n.nops == c.nops + one(e is Nop)
            &&& n.still_frames == c.still_frames + one(e is StillFrame)
            &&& n.spu_stream_changes == c.spu_stream_changes + one(e is SpuStreamChange)
            &&& n.audio_stream_changes == c.audio_stream_changes + one(e is AudioStreamChange)
            &&& n.vts_changes == c.vts_changes + one(e is VtsChange)
            &&& n.cell_changes == c.cell_changes + one(e is CellChange)
            &&& n.nav_packets == c.nav_packets + one(e is NavPacket)
            &&& n.highlights == c.highlights + one(e is Highlight)
            &&& n.spu_clut_changes == c.spu_clut_changes + one(e is SpuClutChange)
            &&& n.hop_channels == c.hop_channels + one(e is HopChannel)
            &&& n.waits == c.waits + one(e is Wait)
            &&& n.others == c.others + one(e is Other)
            &&& n.unresolved_cells == c.unresolved_cells
        }),
        event_total(no_events()) == 0,
        no_events().unresolved_cells == 0,
{
}

/// Only a block carries bytes, and those are its sector.
pub proof fn lemma_blocks_carry_their_sector(e: NavEvent<'_>)
    ensures
        e matches NavEvent::Block { sector } ==> event_bytes(e) == sector@,
        !(e is Block) ==> event_bytes(e).len() == 0,
{
}

/// The disc has a cell at an address exactly where the title set has a program
/// chain of that number, counted from one, and that one a cell of that number.
pub proof fn lemma_disc_cells_by_address(reader: DvdReader, key: CellKey, vts: IfoHandle)
    requires
        1 <= key.title_set_nr <= reader.vts@.len(),
        reader.vts@[key.title_set_nr - 1] == Some(vts),
    ensures
        ({
            let pgcs = pgcs_of(vts);
            let pgc = pgcs[key.pgcn - 1].pgc;
            let there = 1 <= key.pgcn <= pgcs.len() && pgc is Some && 1 <= key.cell_nr
                <= cells_of(pgc->0).len();
            &&& there ==> disc_cell(reader, key) == Some(cells_of(pgc->0)[key.cell_nr - 1])
            &&& !there ==> disc_cell(reader, key) is None
        }),
{
}

/// The cells of a title set are listed where some title lives in it.
pub proof fn lemma_cells_of_used_sets_are_listed(
    reader: DvdReader,
    infos: Seq<TitleInfo>,
    key: CellKey,
    i: int,
)
    ensures
        key.title_set_nr > 0 && 0 <= i < infos.len() && infos[i].title_set_nr == key.title_set_nr
            ==> listed_cell(reader, infos, key) == disc_cell(reader, key),
        key.title_set_nr == 0 ==> listed_cell(reader, infos, key) is None,
        (forall|j: int|
            0 <= j < infos.len() ==> (#[trigger] infos[j]).title_set_nr != key.title_set_nr)
            ==> listed_cell(reader, infos, key) is None,
        listed_cell(reader, infos, key) is Some ==> listed_codes(reader, infos).contains(
            key_code(key),
        ),
{
    if listed_cell(reader, infos, key) is Some {
        assert(key_code(key) == key_code(key));
    }
}

/// A key is one number, made of its parts side by side; a table answers by it.
pub proof fn lemma_keys_are_numbers(key: CellKey, m: Map<u64, CellInfo>)
    ensures
        key_code(key) as int == (key.title_set_nr as int * 65536 + key.pgcn as int) * 256
            + key.cell_nr as int,
        m.contains_key(key_code(key)) ==> table_cell(m, key) == Some(m[key_code(key)]),
        !m.contains_key(key_code(key)) ==> table_cell(m, key) is None,
{
}

/// Titles count from one; the title set of each is the one listed for it.
pub proof fn lemma_title_sets_count_from_one(sets: Seq<u8>, title: u32)
    ensures
        title == 0 || title > sets.len() ==> vts_of_title(sets, title) is None,
        1 <= title <= sets.len() ==> vts_of_title(sets, title) == Some(sets[title - 1]),
{
}

/// The cell that playback reports is looked up under its title's set, its
/// program chain and its number, as they are.
pub proof fn lemma_reported_cell_is_looked_up(
    lookup: CellLookup,
    title: i32,
    pgcn: i32,
    cell_nr: i32,
)
    requires
        0 <= pgcn <= 0xFFFF,
        0 <= cell_nr <= 255,
    ensures
        1 <= title <= lookup.title_to_vts@.len() ==> reported_cell(lookup, title, pgcn, cell_nr)
            == table_cell(
            lookup.cells@,
            CellKey {
                title_set_nr: lookup.title_to_vts@[title - 1],
                pgcn: pgcn as u16,
                cell_nr: cell_nr as u8,
            },
        ),
        title <= 0 || title > lookup.title_to_vts@.len() ==> reported_cell(
            lookup,
            title,
            pgcn,
            cell_nr,
        ) is None,
{
}

} // verus!
