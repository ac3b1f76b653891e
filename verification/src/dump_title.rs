//! Dump of a title: its cells, read in the order of the IFO, end to end.
use vstd::prelude::*;
use crate::cell::{cells_in_pgc, cells_of, dvd_time_seconds, CellInfo};
use crate::dvd_backend::{resolve_pgc, title_pgc, TitleFault};
use crate::error::DvdError;
use crate::ifo::{time_seconds, titles_of, IfoHandle, IfoKind, TitleInfo};
use crate::reader::{ifo_of, DvdReader};
use crate::sha256::{
    finish_hex, hashed_bytes, hex_of, sha256_digest, sha256_new, sha256_update, RunningHash,
};
use crate::text::{dec, push_dec};

verus! {

/// Most blocks of one read, 1 MiB.
pub const READ_CHUNK_BLOCKS: u32 = 512;

/// Which title to dump, from 1, and where to.
#[derive(Debug)]
pub struct Params {
    pub title: u8,
    pub out: String,
}

/// What was dumped.
#[derive(Debug)]
pub struct Report {
    pub cells: usize,
    pub total_bytes: u64,
    pub total_blocks: u64,
    pub sha256: String,
}

/// Why a title cannot be dumped.
#[derive(Debug)]
pub enum DumpTitleError {
    /// Titles count from 1.
    TitleZero,
    TitleOutOfRange { title: u8, titles: usize },
    /// An IFO could not be read.
    Ifo(DvdError),
    /// The title's program chain could not be found.
    Unresolved(TitleFault),
    /// The title's program chain has no cells.
    NoCells { nr_of_cells: u8 },
}

/// What is read for a title.
#[derive(Debug)]
pub struct TitlePlan {
    /// The title set whose title video is read.
    pub title_set_nr: u8,
    /// The cells, in order.
    pub cells: Vec<CellInfo>,
    /// Cells that the program chain states.
    pub nr_of_cells: u8,
    /// Whole seconds that the program chain states.
    pub pgc_seconds: u32,
}

/// `r` is the outcome of planning title `title`.
pub open spec fn is_plan_of(
    reader: DvdReader,
    title: u8,
    r: Result<TitlePlan, DumpTitleError>,
) -> bool {
    match reader.vmg {
        _ if title == 0 => r == Err::<TitlePlan, DumpTitleError>(DumpTitleError::TitleZero),
        None => r == Err::<TitlePlan, DumpTitleError>(
            DumpTitleError::Ifo(DvdError::IfoOpenFailed { ifo_nr: 0 }),
        ),
        Some(vmg) => {
            let infos = titles_of(vmg);
            if title > infos.len() {
                r == Err::<TitlePlan, DumpTitleError>(
                    DumpTitleError::TitleOutOfRange { title, titles: infos.len() as usize },
                )
            } else {
                is_plan_of_info(reader, infos[title - 1], r)
            }
        },
    }
}

/// `r` is the outcome of planning a title that the disc has.
pub open spec fn is_plan_of_info(
    reader: DvdReader,
    info: TitleInfo,
    r: Result<TitlePlan, DumpTitleError>,
) -> bool {
    match ifo_of(reader, IfoKind::Vts(info.title_set_nr as u32)) {
        None => r == Err::<TitlePlan, DumpTitleError>(
            DumpTitleError::Ifo(DvdError::IfoOpenFailed { ifo_nr: info.title_set_nr as u32 }),
        ),
        Some(vts) => match title_pgc(vts, info) {
            Err(fault) => r == Err::<TitlePlan, DumpTitleError>(DumpTitleError::Unresolved(fault)),
            Ok(pgc) => r matches Ok(plan) && {
                &&& plan.title_set_nr == info.title_set_nr
                &&& plan.cells@ == cells_of(pgc)
                &&& plan.nr_of_cells == pgc.nr_of_cells
                &&& plan.pgc_seconds == time_seconds(pgc.playback_time)
            },
        },
    }
}

/// Finds the cells of a title: the title names a title set and a title in it,
/// that title's first chapter a program chain, and the chain its cells.
pub fn plan_title(reader: &DvdReader, title: u8) -> (r: Result<TitlePlan, DumpTitleError>)
    ensures
        is_plan_of(*reader, title, r),
{
    if title == 0 {
        return Err(DumpTitleError::TitleZero);
    }
    let vmg = match IfoHandle::open(reader, IfoKind::Vmg) {
        Ok(vmg) => vmg,
        Err(e) => return Err(DumpTitleError::Ifo(e)),
    };
    let infos = vmg.titles();
    if title as usize > infos.len() {
        return Err(DumpTitleError::TitleOutOfRange { title, titles: infos.len() });
    }
    let info = infos[title as usize - 1];
    let vts = match IfoHandle::open(reader, IfoKind::Vts(info.title_set_nr as u32)) {
        Ok(vts) => vts,
        Err(e) => return Err(DumpTitleError::Ifo(e)),
    };
    let pgc = match resolve_pgc(vts, &info) {
        Ok(pgc) => pgc,
        Err(fault) => return Err(DumpTitleError::Unresolved(fault)),
    };
    Ok(
        TitlePlan {
            title_set_nr: info.title_set_nr,
            cells: cells_in_pgc(pgc),
            nr_of_cells: pgc.nr_of_cells,
            pgc_seconds: dvd_time_seconds(&pgc.playback_time),
        },
    )
}

impl TitlePlan {
    /// Whether there is anything to read, once the title's video is open.
    pub fn check_cells(&self) -> (r: Result<(), DumpTitleError>)
        ensures
            match r {
                Ok(()) => self.cells@.len() > 0,
                Err(e) => self.cells@.len() == 0 && e == (DumpTitleError::NoCells {
                    nr_of_cells: self.nr_of_cells,
                }),
            },
    {
        if self.cells.len() == 0 {
            return Err(DumpTitleError::NoCells { nr_of_cells: self.nr_of_cells });
        }
        Ok(())
    }
}

/// The rest of a cell that is still to be read.
#[derive(Debug, Clone, Copy, PartialEq, Eq, Structural)]
pub struct CellRead {
    pub offset: u32,
    pub remaining: u32,
}

/// Blocks of the next read.
pub open spec fn chunk_of(remaining: u32) -> u32 {
    if remaining < READ_CHUNK_BLOCKS {
        remaining
    } else {
        READ_CHUNK_BLOCKS
    }
}

/// Where the read behind the next one starts.
pub open spec fn chunk_end(r: CellRead) -> int {
    if r.offset + chunk_of(r.remaining) > u32::MAX {
        u32::MAX as int
    } else {
        r.offset + chunk_of(r.remaining)
    }
}

impl CellRead {
    /// A cell of which nothing was read.
    pub fn of(cell: &CellInfo) -> (r: Self)
        ensures
            r == (CellRead { offset: cell.first_sector, remaining: cell.block_count }),
    {
        CellRead { offset: cell.first_sector, remaining: cell.block_count }
    }

    /// Offset and number of blocks of the next read; `None` at the end of the
    /// cell.
    pub fn next_chunk(&mut self) -> (c: Option<(u32, u32)>)
        ensures
            match c {
                Some((offset, count)) => {
                    &&& old(self).remaining > 0
                    &&& offset == old(self).offset
                    &&& count == chunk_of(old(self).remaining)
                    &&& final(self).offset == chunk_end(*old(self))
                    &&& final(self).remaining == old(self).remaining - count
                },
                None => old(self).remaining == 0 && *final(self) == *old(self),
            },
    {
        if self.remaining == 0 {
            return None;
        }
        let count: u32 = if self.remaining < READ_CHUNK_BLOCKS {
            self.remaining
        } else {
            READ_CHUNK_BLOCKS
        };
        let offset: u32 = self.offset;
        self.offset = offset.saturating_add(count);
        self.remaining = self.remaining - count;
        Some((offset, count))
    }
}

/// The reads of a cell, in order.
pub open spec fn chunks_of(r: CellRead) -> Seq<(u32, u32)>
    decreases r.remaining,
{
    if r.remaining == 0 {
        Seq::empty()
    } else {
        let count = chunk_of(r.remaining);
        let rest = CellRead {
            offset: chunk_end(r) as u32,
            remaining: (r.remaining - count) as u32,
        };
        seq![(r.offset, count)] + chunks_of(rest)
    }
}

/// Blocks of a run of reads.
pub open spec fn chunks_total(chunks: Seq<(u32, u32)>) -> int
    decreases chunks.len(),
{
    if chunks.len() == 0 {
        0
    } else {
        chunks_total(chunks.drop_last()) + chunks.last().1
    }
}

proof fn lemma_chunks_total_prepend(c: (u32, u32), rest: Seq<(u32, u32)>)
    ensures
        chunks_total(seq![c] + rest) == c.1 + chunks_total(rest),
    decreases rest.len(),
{
    let all = seq![c] + rest;
    if rest.len() == 0 {
        assert(all.drop_last() =~= Seq::<(u32, u32)>::empty());
        assert(chunks_total(all.drop_last()) == 0);
        assert(chunks_total(rest) == 0);
    } else {
        assert(all.drop_last() =~= seq![c] + rest.drop_last());
        lemma_chunks_total_prepend(c, rest.drop_last());
    }
}

/// The reads of a cell cover exactly its blocks, one behind the other, and none
/// is larger than the limit.
pub proof fn lemma_chunks_cover_cell(r: CellRead)
    requires
        r.offset + r.remaining <= u32::MAX,
    ensures
        chunks_total(chunks_of(r)) == r.remaining,
        forall|i: int|
            0 <= i < chunks_of(r).len() ==> {
                &&& (#[trigger] chunks_of(r)[i]).0 == r.offset + chunks_total(chunks_of(r).take(i))
                &&& 1 <= chunks_of(r)[i].1 <= READ_CHUNK_BLOCKS
            },
    decreases r.remaining,
{
    if r.remaining > 0 {
        let count = chunk_of(r.remaining);
        let rest = CellRead {
            offset: chunk_end(r) as u32,
            remaining: (r.remaining - count) as u32,
        };
        lemma_chunks_cover_cell(rest);
        let tail = chunks_of(rest);
        let all = chunks_of(r);
        let first = (r.offset, count);
        lemma_chunks_total_prepend(first, tail);
        assert forall|i: int| 0 <= i < all.len() implies {
            &&& (#[trigger] all[i]).0 == r.offset + chunks_total(all.take(i))
            &&& 1 <= all[i].1 <= READ_CHUNK_BLOCKS
        } by {
            if i == 0 {
                assert(all.take(0) =~= Seq::<(u32, u32)>::empty());
            } else {
                assert(all[i] == tail[i - 1]);
                assert(all.take(i) =~= seq![first] + tail.take(i - 1));
                lemma_chunks_total_prepend(first, tail.take(i - 1));
            }
        }
    }
}

/// The running totals of a dump.
pub struct TitleDump {
    pub hash: RunningHash,
    pub total_bytes: u64,
    pub total_blocks: u64,
    /// Bytes of the current cell.
    pub cell_bytes: u64,
    /// Whole seconds of the cells that were read.
    pub sum_cell_seconds: u32,
}

/// Checks on a dump; each says whether it passed.
#[derive(Debug, Clone, Copy, PartialEq, Eq, Structural)]
pub struct DumpChecks {
    /// As many blocks as the cells have.
    pub all_blocks: bool,
    /// Every block was read in full.
    pub full_blocks: bool,
    /// The times of the cells add up to that of the program chain, but for
    /// what is lost to rounding.
    pub duration: bool,
}

/// Blocks of the first `n` cells.
pub open spec fn cells_blocks(cells: Seq<CellInfo>, n: int) -> int
    decreases n,
{
    if n <= 0 {
        0
    } else {
        cells_blocks(cells, n - 1) + cells[n - 1].block_count
    }
}

/// Two times agree within one second for each cell, and at least two.
pub open spec fn durations_agree(sum: int, pgc: int, cells: int) -> bool {
    let diff = if sum < pgc {
        pgc - sum
    } else {
        sum - pgc
    };
    diff <= cells || diff <= 2
}

impl TitleDump {
    /// Nothing dumped yet.
    pub fn new() -> (d: Self)
        ensures
            hashed_bytes(d.hash) == Seq::<u8>::empty(),
            d.total_bytes == 0,
            d.total_blocks == 0,
            d.cell_bytes == 0,
            d.sum_cell_seconds == 0,
    {
        TitleDump {
            hash: sha256_new(),
            total_bytes: 0,
            total_blocks: 0,
            cell_bytes: 0,
            sum_cell_seconds: 0,
        }
    }

    /// Takes the bytes of one read of `count` blocks in.
    pub fn add_chunk(&mut self, buf: &[u8], count: u32)
        requires
            old(self).total_bytes + buf.len() <= u64::MAX,
            old(self).cell_bytes + buf.len() <= u64::MAX,
            old(self).total_blocks + count <= u64::MAX,
        ensures
            hashed_bytes(final(self).hash) == hashed_bytes(old(self).hash) + buf@,
            final(self).total_bytes == old(self).total_bytes + buf@.len(),
            final(self).cell_bytes == old(self).cell_bytes + buf@.len(),
            final(self).total_blocks == old(self).total_blocks + count,
            final(self).sum_cell_seconds == old(self).sum_cell_seconds,
    {
        sha256_update(&mut self.hash, buf);
        self.total_bytes = self.total_bytes + buf.len() as u64;
        self.cell_bytes = self.cell_bytes + buf.len() as u64;
        self.total_blocks = self.total_blocks + count as u64;
    }

    /// Ends a cell: whether its bytes are as many as its blocks have.
    pub fn end_cell(&mut self, cell: &CellInfo) -> (complete: bool)
        ensures
            complete == (old(self).cell_bytes == cell.block_count * 2048),
            final(self).hash == old(self).hash,
            final(self).total_bytes == old(self).total_bytes,
            final(self).total_blocks == old(self).total_blocks,
            final(self).cell_bytes == 0,
            final(self).sum_cell_seconds == (if old(self).sum_cell_seconds + time_seconds(
                cell.playback_time,
            ) > u32::MAX {
                u32::MAX as int
            } else {
                old(self).sum_cell_seconds + time_seconds(cell.playback_time)
            }),
    {
        let complete = self.cell_bytes == cell.block_count as u64 * 2048;
        self.sum_cell_seconds = self.sum_cell_seconds.saturating_add(cell.playback_seconds());
        self.cell_bytes = 0;
        complete
    }

    /// The report and the final checks.
    pub fn finish(self, plan: &TitlePlan) -> (r: (Report, DumpChecks))
        ensures
            r.0.cells == plan.cells@.len(),
            r.0.total_bytes == self.total_bytes,
            r.0.total_blocks == self.total_blocks,
            r.0.sha256@ == hex_of(sha256_digest(hashed_bytes(self.hash))),
            r.1.all_blocks == (self.total_blocks == cells_blocks(
                plan.cells@,
                plan.cells@.len() as int,
            )),
            r.1.full_blocks == (self.total_bytes == self.total_blocks * 2048),
            r.1.duration == durations_agree(
                self.sum_cell_seconds as int,
                plan.pgc_seconds as int,
                plan.cells@.len() as int,
            ),
    {
        let mut expected: u128 = 0;
        let mut i: usize = 0;
        while i < plan.cells.len()
            invariant
                i <= plan.cells.len(),
                expected == cells_blocks(plan.cells@, i as int),
                expected <= i * 0xFFFF_FFFF,
            decreases plan.cells.len() - i,
        {
            expected = expected + plan.cells[i].block_count as u128;
            i = i + 1;
        }
        let sum: u32 = self.sum_cell_seconds;
        let pgc: u32 = plan.pgc_seconds;
        let diff: u32 = if sum < pgc {
            pgc - sum
        } else {
            sum - pgc
        };
        let checks = DumpChecks {
            all_blocks: self.total_blocks as u128 == expected,
            full_blocks: self.total_bytes as u128 == self.total_blocks as u128 * 2048,
            duration: diff as u64 <= plan.cells.len() as u64 || diff <= 2,
        };
        let report = Report {
            cells: plan.cells.len(),
            total_bytes: self.total_bytes,
            total_blocks: self.total_blocks,
            sha256: finish_hex(self.hash),
        };
        (report, checks)
    }
}

/// The two lines that a dump prints.
pub open spec fn report_text_of(title: u8, out: Seq<char>, r: Report) -> Seq<char> {
    "title "@ + dec(title as nat) + ": "@ + dec(r.cells as nat) + " cells, "@ + dec(
        r.total_bytes as nat,
    ) + " bytes ("@ + dec(r.total_blocks as nat) + " blocks) -> "@ + out + "\n"@ + "sha256: "@
        + r.sha256@ + "\n"@
}

/// Renders a report.
pub fn report_text(title: u8, out: &str, r: &Report) -> (s: String)
    ensures
        s@ == report_text_of(title, out@, *r),
{
    let mut t = "title ".to_owned();
    push_dec(&mut t, title as u64);
    t.append(": ");
    push_dec(&mut t, r.cells as u64);
    t.append(" cells, ");
    push_dec(&mut t, r.total_bytes);
    t.append(" bytes (");
    push_dec(&mut t, r.total_blocks);
    t.append(" blocks) -> ");
    t.append(out);
    t.append("\n");
    t.append("sha256: ");
    t.append(r.sha256.as_str());
    t.append("\n");
    t
}

} // verus!
