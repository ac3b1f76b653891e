//! Demultiplexing of a title as playback delivers it.
//!
//! Playback says which cell it enters; the cell table says whether that cell
//! resets the clock, and the demuxer is told.
use vstd::prelude::*;
use crate::cell::CellInfo;
use crate::demux::{
    after_begin_cell, after_sector, chunk_views, emissions, DemuxError, DemuxSummary, Demuxer,
    streams_emitted, StreamChunk,
};
use crate::demux_vob::{
    push_accounting, push_stream_table, with_accounting, with_number,
    with_stream_table,
};
use crate::mpegps::{sector_of, MpegPsFault, Sector};
use crate::nav::{
    action_of, counted, event_total, no_events, push_events, with_events, EventCounts, NavAction,
    NavEvent,
};
use crate::nav_cells::{table_cell, vts_of_title, CellKey, CellLookup};
use crate::text::{dec, push_dec, push_signed, signed_dec};

verus! {

/// Which title to demultiplex, where to, and after how many events to give up.
#[derive(Debug)]
pub struct Params {
    pub title: i32,
    pub out_dir: String,
    pub max_events: u64,
}

/// What was demultiplexed.
#[derive(Debug)]
pub struct Report {
    pub summary: DemuxSummary,
    pub events: EventCounts,
}

/// A demuxer that is driven by playback.
pub struct NavDemux {
    pub demuxer: Demuxer,
    pub events: EventCounts,
}

/// `n` where it fits into `0..=max`, else 0.
pub open spec fn number_or_zero(n: i32, max: int) -> int {
    if 0 <= n <= max {
        n as int
    } else {
        0
    }
}

/// The cell that playback reports, if the table has it.
pub open spec fn reported_cell(lookup: CellLookup, title: i32, pgcn: i32, cell_nr: i32) -> Option<
    CellInfo,
> {
    match vts_of_title(
        lookup.title_to_vts@,
        number_or_zero(title, i32::MAX as int) as u32,
    ) {
        Some(v) => table_cell(
            lookup.cells@,
            CellKey {
                title_set_nr: v,
                pgcn: number_or_zero(pgcn, 0xFFFF) as u16,
                cell_nr: number_or_zero(cell_nr, 255) as u8,
            },
        ),
        None => None,
    }
}

impl NavDemux {
    /// Nothing demultiplexed yet.
    pub fn new() -> (d: Self)
        ensures
            d.demuxer.wf(),
            d.demuxer@ == crate::demux::start_demux(),
            d.events == no_events(),
    {
        NavDemux { demuxer: Demuxer::new(), events: EventCounts::default() }
    }

    /// Counts an event, and says what to do about it.
    pub fn take(&mut self, e: &NavEvent<'_>) -> (a: NavAction)
        requires
            event_total(old(self).events) < u64::MAX,
        ensures
            a == action_of(*e),
            final(self).events == counted(old(self).events, *e),
            final(self).demuxer == old(self).demuxer,
    {
        self.events.take(e)
    }

    /// Demultiplexes the sector of a block.
    pub fn take_sector<'a>(&mut self, sector: &'a [u8], label: &str) -> (r: Result<
        Vec<StreamChunk<'a>>,
        DemuxError,
    >)
        requires
            old(self).demuxer.wf(),
            old(self).demuxer.pes_total + 341 <= u64::MAX,
            old(self).demuxer.load() + 2048 <= u64::MAX,
            old(self).demuxer.sectors_processed < u64::MAX,
        ensures
            final(self).demuxer.wf(),
            final(self).events == old(self).events,
            final(self).demuxer.pes_total <= old(self).demuxer.pes_total + 341,
            final(self).demuxer.load() <= old(self).demuxer.load() + 2048,
            final(self).demuxer.discontinuity_boundaries
                == old(self).demuxer.discontinuity_boundaries,
            match r {
                Ok(chunks) => {
                    &&& sector_of(sector@) is Ok
                    &&& final(self).demuxer@ == after_sector(old(self).demuxer@, sector@)
                    &&& chunk_views(chunks@) == emissions(
                        old(self).demuxer@,
                        sector_of(sector@)->Ok_0.pes_packets,
                    )
                },
                Err(DemuxError::Parse(e)) => {
                    &&& sector_of(sector@) == Err::<Sector, MpegPsFault>(e@)
                    &&& final(self).demuxer == old(self).demuxer
                },
            },
    {
        self.demuxer.process_sector(sector, label)
    }

    /// Enters the cell that playback reports. A cell that the table does not
    /// have is taken to go on without a discontinuity, and counted.
    pub fn enter_cell(&mut self, lookup: &CellLookup, title: i32, pgcn: i32, cell_nr: i32)
        requires
            old(self).demuxer.wf(),
            old(self).demuxer.discontinuity_boundaries < u64::MAX,
            old(self).events.unresolved_cells < u64::MAX,
        ensures
            final(self).demuxer.wf(),
            final(self).demuxer.load() == old(self).demuxer.load(),
            match reported_cell(*lookup, title, pgcn, cell_nr) {
                Some(cell) => {
                    &&& final(self).demuxer@ == after_begin_cell(
                        old(self).demuxer@,
                        cell.stc_discontinuity,
                    )
                    &&& final(self).events == old(self).events
                },
                None => {
                    &&& final(self).demuxer@ == old(self).demuxer@
                    &&& final(self).events == (EventCounts {
                        unresolved_cells: (old(self).events.unresolved_cells + 1) as u64,
                        ..old(self).events
                    })
                },
            },
    {
        let title_u: u32 = if title >= 0 {
            title as u32
        } else {
            0
        };
        let pgcn_u: u16 = if 0 <= pgcn && pgcn <= 0xFFFF {
            pgcn as u16
        } else {
            0
        };
        let cell_u: u8 = if 0 <= cell_nr && cell_nr <= 255 {
            cell_nr as u8
        } else {
            0
        };
        match lookup.get(title_u, pgcn_u, cell_u) {
            Some(cell) => {
                self.demuxer.begin_cell(cell.stc_discontinuity);
            },
            None => {
                self.events.unresolved_cells = self.events.unresolved_cells + 1;
                self.demuxer.begin_cell(false);
            },
        }
    }

    /// The report.
    pub fn finish(self) -> (r: Report)
        requires
            self.demuxer.sectors_processed * 2048 <= u64::MAX,
        ensures
            r.events == self.events,
            r.summary.sectors_processed == self.demuxer.sectors_processed,
            r.summary.pes_total == self.demuxer.pes_total,
            r.summary.input_bytes == self.demuxer.sectors_processed * 2048,
            r.summary.elementary_emitted_bytes == self.demuxer.elementary_emitted_bytes,
            r.summary.dropped_pes_bytes == self.demuxer.dropped_pes_bytes,
            r.summary.stripped_header_bytes == self.demuxer.stripped_header_bytes,
            r.summary.pack_header_bytes == self.demuxer.sectors_processed * 14,
            r.summary.discontinuity_boundaries == self.demuxer.discontinuity_boundaries,
            r.summary.fap_resyncs_applied == self.demuxer.fap_resyncs_applied,
            r.summary.fap_bytes_skipped == self.demuxer.fap_bytes_skipped,
            r.summary.streams == self.demuxer.streams,
            self.demuxer.wf() ==> r.summary.elementary_emitted_bytes == streams_emitted(
                r.summary.streams@,
            ),
    {
        Report { summary: self.demuxer.finish(), events: self.events }
    }
}

/// What a run prints.
pub open spec fn report_text_of(title: i32, out_dir: Seq<char>, r: Report) -> Seq<char> {
    let t = "\ndemux-title-nav summary (title "@ + signed_dec(title as int)
        + ", libdvdnav driven -> "@ + out_dir + "):\n"@;
    let t = with_number(t, "  sectors processed:       "@, r.summary.sectors_processed as nat);
    let t = with_accounting(t, r.summary);
    let t = t + "  cell changes:            "@ + dec(r.events.cell_changes as nat)
        + " (stc_discontinuity: "@ + dec(r.summary.discontinuity_boundaries as nat)
        + ", unresolved: "@ + dec(r.events.unresolved_cells as nat) + ")\n\n"@;
    let t = with_events(t, r.events) + "\n"@;
    let t = with_stream_table(t, r.summary.streams@);
    t + "\nwrote "@ + dec(r.summary.streams@.len()) + " per-stream files to "@ + out_dir + "\n"@
}

/// Renders a report.
pub fn report_text(title: i32, out_dir: &str, r: &Report) -> (s: String)
    ensures
        s@ == report_text_of(title, out_dir@, *r),
{
    let mut t = "\ndemux-title-nav summary (title ".to_owned();
    push_signed(&mut t, title as i64);
    t.append(", libdvdnav driven -> ");
    t.append(out_dir);
    t.append("):\n");
    t.append("  sectors processed:       ");
    push_dec(&mut t, r.summary.sectors_processed);
    t.append("\n");
    push_accounting(&mut t, &r.summary);
    t.append("  cell changes:            ");
    push_dec(&mut t, r.events.cell_changes);
    t.append(" (stc_discontinuity: ");
    push_dec(&mut t, r.summary.discontinuity_boundaries);
    t.append(", unresolved: ");
    push_dec(&mut t, r.events.unresolved_cells);
    t.append(")\n\n");
    push_events(&mut t, &r.events);
    t.append("\n");
    push_stream_table(&mut t, &r.summary.streams);
    t.append("\nwrote ");
    push_dec(&mut t, r.summary.streams.len() as u64);
    t.append(" per-stream files to ");
    t.append(out_dir);
    t.append("\n");
    t
}

} // verus!
