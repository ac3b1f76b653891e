//! Cells of a program chain.
//!
//! A program chain lists the cells, ranges of sectors, that make up a title.
//! Reading them in order gives the title's program stream.
use vstd::prelude::*;
use crate::ifo::{bcd_to_u8, entries_of, time_seconds, CellPlayback, DvdTime, Pgc};

verus! {

/// One cell of a program chain.
#[derive(Debug, Clone, Copy, PartialEq, Eq, Structural)]
pub struct CellInfo {
    /// Index of the cell within its program chain, from 0.
    pub idx: u8,
    /// First sector of the cell.
    pub first_sector: u32,
    /// Last sector of the cell.
    pub last_sector: u32,
    /// Number of blocks to read.
    pub block_count: u32,
    pub playback_time: DvdTime,
    pub block_mode: u8,
    pub block_type: u8,
    pub seamless_play: bool,
    pub interleaved: bool,
    /// The cell starts a new time reference.
    pub stc_discontinuity: bool,
    pub seamless_angle: bool,
}

/// Blocks from `first` to `last`, both counted; one where the range is
/// inverted. The count is held within 32 bits.
pub open spec fn blocks_between(first: u32, last: u32) -> int {
    let n = if last > first {
        last - first + 1
    } else {
        1
    };
    if n > u32::MAX {
        u32::MAX as int
    } else {
        n
    }
}

/// The cell that an IFO entry stands for.
pub open spec fn cell_of(idx: u8, raw: CellPlayback) -> CellInfo {
    CellInfo {
        idx,
        first_sector: raw.first_sector,
        last_sector: raw.last_sector,
        block_count: blocks_between(raw.first_sector, raw.last_sector) as u32,
        playback_time: raw.playback_time,
        block_mode: raw.block_mode,
        block_type: raw.block_type,
        seamless_play: raw.seamless_play != 0,
        interleaved: raw.interleaved != 0,
        stc_discontinuity: raw.stc_discontinuity != 0,
        seamless_angle: raw.seamless_angle != 0,
    }
}

impl CellInfo {
    /// The cell that an IFO entry stands for.
    pub fn from_raw(idx: u8, raw: &CellPlayback) -> (c: Self)
        ensures
            c == cell_of(idx, *raw),
    {
        let block_count: u32 = raw.last_sector.saturating_sub(raw.first_sector).saturating_add(1);
        CellInfo {
            idx,
            first_sector: raw.first_sector,
            last_sector: raw.last_sector,
            block_count,
            playback_time: raw.playback_time,
            block_mode: raw.block_mode,
            block_type: raw.block_type,
            seamless_play: raw.seamless_play != 0,
            interleaved: raw.interleaved != 0,
            stc_discontinuity: raw.stc_discontinuity != 0,
            seamless_angle: raw.seamless_angle != 0,
        }
    }

    /// Whole seconds of the cell's playback time.
    pub fn playback_seconds(&self) -> (s: u32)
        ensures
            s == time_seconds(self.playback_time),
    {
        dvd_time_seconds(&self.playback_time)
    }
}

/// Whole seconds of a playback time.
pub fn dvd_time_seconds(t: &DvdTime) -> (s: u32)
    ensures
        s == time_seconds(*t),
{
    bcd_to_u8(t.hour) as u32 * 3600 + bcd_to_u8(t.minute) as u32 * 60 + bcd_to_u8(t.second) as u32
}

/// The IFO entries of a program chain's cells.
pub open spec fn raw_cells_of(pgc: Pgc) -> Seq<CellPlayback> {
    entries_of(pgc.cell_playback, pgc.nr_of_cells as nat)
}

/// The cells of a program chain.
pub open spec fn cells_of(pgc: Pgc) -> Seq<CellInfo> {
    raw_cells_of(pgc).map(|i: int, raw: CellPlayback| cell_of(i as u8, raw))
}

/// The cells of a program chain in the order of its IFO; none where the table
/// is missing.
pub fn cells_in_pgc(pgc: &Pgc) -> (cells: Vec<CellInfo>)
    ensures
        cells@ == cells_of(*pgc),
{
    let mut cells: Vec<CellInfo> = Vec::new();
    match &pgc.cell_playback {
        Some(v) => {
            let mut i: usize = 0;
            while i < v.len() && i < pgc.nr_of_cells as usize
                invariant
                    i <= v.len(),
                    i <= pgc.nr_of_cells,
                    pgc.cell_playback == Some(*v),
                    cells.len() == i,
                    forall|j: int|
                        0 <= j < i ==> #[trigger] cells[j] == cell_of(j as u8, v@[j]),
                decreases v.len() - i,
            {
                cells.push(CellInfo::from_raw(i as u8, &v[i]));
                i = i + 1;
            }
        },
        None => {},
    }
    assert(cells@ =~= cells_of(*pgc));
    cells
}

/// A cell is a range of sectors, lies within a file of `file_block_count`
/// blocks, and starts behind the cell before it.
pub open spec fn cell_walk_ok(
    cell: CellInfo,
    prev: Option<CellInfo>,
    file_block_count: u32,
) -> bool {
    &&& cell.first_sector <= cell.last_sector
    &&& cell.last_sector < file_block_count
    &&& prev matches Some(p) ==> cell.first_sector > p.last_sector
}

/// Checks a cell against its file and against the cell before it. A cell that
/// does not start behind the one before it hints at a title that branches.
pub fn check_cell_walk(cell: &CellInfo, prev: Option<&CellInfo>, file_block_count: u32) -> (ok:
    bool)
    ensures
        ok == cell_walk_ok(
            *cell,
            match prev {
                Some(p) => Some(*p),
                None => None,
            },
            file_block_count,
        ),
{
    let follows = match prev {
        Some(p) => cell.first_sector > p.last_sector,
        None => true,
    };
    cell.first_sector <= cell.last_sector && cell.last_sector < file_block_count && follows
}

/// The cell at `k` passes its checks within a walk.
pub open spec fn walk_ok_at(cells: Seq<CellInfo>, k: int, file_block_count: u32) -> bool {
    cell_walk_ok(
        cells[k],
        if k == 0 {
            None
        } else {
            Some(cells[k - 1])
        },
        file_block_count,
    )
}

/// A walk over cells that all pass their checks reads every sector at most
/// once: the ranges do not overlap, and together they fit into the file.
pub proof fn lemma_walk_is_linear(cells: Seq<CellInfo>, file_block_count: u32, i: int, j: int)
    requires
        0 <= i < j < cells.len(),
        forall|k: int|
            0 <= k < cells.len() ==> #[trigger] walk_ok_at(cells, k, file_block_count),
    ensures
        cells[i].last_sector < cells[j].first_sector,
        cells[j].last_sector < file_block_count,
    decreases j - i,
{
    assert(walk_ok_at(cells, j, file_block_count));
    if i < j - 1 {
        assert(walk_ok_at(cells, j - 1, file_block_count));
        lemma_walk_is_linear(cells, file_block_count, i, j - 1);
    }
}

} // verus!
