//! Demultiplexing of a title by a walk over its cells.
//!
//! Each cell is announced to the demuxer with its discontinuity flag, then its
//! sectors are read and routed.
use vstd::prelude::*;
use crate::demux::DemuxSummary;
use crate::demux_vob::{
    push_accounting, push_number, push_stream_table, with_accounting, with_number,
    with_stream_table,
};
use crate::text::{dec, push_dec};

verus! {

/// Which title to demultiplex, from 1, and where to.
#[derive(Debug)]
pub struct Params {
    pub title: u8,
    pub out_dir: String,
}

/// What was demultiplexed.
#[derive(Debug)]
pub struct Report {
    pub summary: DemuxSummary,
    pub cells: usize,
}

/// What a run prints.
pub open spec fn report_text_of(title: u8, out_dir: Seq<char>, r: Report) -> Seq<char> {
    let t = "\ndemux-title summary (title "@ + dec(title as nat) + ", "@ + dec(r.cells as nat)
        + " cells -> "@ + out_dir + "):\n"@;
    let t = with_number(t, "  sectors processed:       "@, r.summary.sectors_processed as nat);
    let t = with_accounting(t, r.summary);
    let t = with_number(
        t,
        "  stc_discontinuity cells: "@,
        r.summary.discontinuity_boundaries as nat,
    );
    let t = with_stream_table(t + "\n"@, r.summary.streams@);
    t + "\nwrote "@ + dec(r.summary.streams@.len()) + " per-stream files to "@ + out_dir + "\n"@
}

/// Renders a report.
pub fn report_text(title: u8, out_dir: &str, r: &Report) -> (s: String)
    ensures
        s@ == report_text_of(title, out_dir@, *r),
{
    let mut t = "\ndemux-title summary (title ".to_owned();
    push_dec(&mut t, title as u64);
    t.append(", ");
    push_dec(&mut t, r.cells as u64);
    t.append(" cells -> ");
    t.append(out_dir);
    t.append("):\n");
    push_number(&mut t, "  sectors processed:       ", r.summary.sectors_processed);
    push_accounting(&mut t, &r.summary);
    push_number(&mut t, "  stc_discontinuity cells: ", r.summary.discontinuity_boundaries);
    t.append("\n");
    push_stream_table(&mut t, &r.summary.streams);
    t.append("\nwrote ");
    push_dec(&mut t, r.summary.streams.len() as u64);
    t.append(" per-stream files to ");
    t.append(out_dir);
    t.append("\n");
    t
}

} // verus!
