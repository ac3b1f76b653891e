//! Navigation events and what a rip does about each.
//!
//! Playback of a title is a stream of events. A rip takes the blocks, counts
//! everything, never waits at a still, and ends when playback stops or leaves
//! the title.
use vstd::prelude::*;
use vstd::slice::slice_subrange;
use crate::error::DvdError;
use crate::text::{dec, pad_left, push_dec_spaces, push_signed, signed_dec};

verus! {

/// One event of the navigation.
#[derive(Debug)]
pub enum NavEvent<'b> {
    /// A sector of the program stream.
    Block { sector: &'b [u8] },
    /// Nothing to do.
    Nop,
    /// A still of that many seconds; 255 means without end.
    StillFrame { length: u8 },
    SpuStreamChange,
    AudioStreamChange,
    /// Playback went on in another title set.
    VtsChange,
    /// Playback went on in another cell.
    CellChange {
        cell_nr: i32,
        program_nr: i32,
        cell_length_pts: i64,
        program_length_pts: i64,
        pgc_length_pts: i64,
        cell_start_pts: i64,
        program_start_pts: i64,
    },
    /// A navigation pack was read.
    NavPacket,
    /// The end of the disc or of the title.
    Stop,
    Highlight,
    SpuClutChange,
    /// Playback jumped.
    HopChannel,
    /// Playback waits to be told to go on.
    Wait,
    /// An event without a name, by its code.
    Other(i32),
}

/// A still length held within a byte.
pub open spec fn still_length_of(raw: i32) -> int {
    if raw < 0 {
        0
    } else if raw > 255 {
        255
    } else {
        raw as int
    }
}

/// The length of a still as an event carries it.
pub fn still_length(raw: i32) -> (n: u8)
    ensures
        n == still_length_of(raw),
{
    if raw < 0 {
        0
    } else if raw > 255 {
        255
    } else {
        raw as u8
    }
}

/// Codes under which libdvdnav delivers events.
pub const DVDNAV_BLOCK_OK: i32 = 0;

pub const DVDNAV_NOP: i32 = 1;

pub const DVDNAV_STILL_FRAME: i32 = 2;

pub const DVDNAV_SPU_STREAM_CHANGE: i32 = 3;

pub const DVDNAV_AUDIO_STREAM_CHANGE: i32 = 4;

pub const DVDNAV_VTS_CHANGE: i32 = 5;

pub const DVDNAV_CELL_CHANGE: i32 = 6;

pub const DVDNAV_NAV_PACKET: i32 = 7;

pub const DVDNAV_STOP: i32 = 8;

pub const DVDNAV_HIGHLIGHT: i32 = 9;

pub const DVDNAV_SPU_CLUT_CHANGE: i32 = 10;

pub const DVDNAV_HOP_CHANNEL: i32 = 12;

pub const DVDNAV_WAIT: i32 = 13;

/// What libdvdnav says about a new cell.
#[derive(Debug, Clone, Copy, PartialEq, Eq, Structural)]
pub struct CellChangeInfo {
    pub cell_nr: i32,
    pub program_nr: i32,
    pub cell_length_pts: i64,
    pub program_length_pts: i64,
    pub pgc_length_pts: i64,
    pub cell_start_pts: i64,
    pub program_start_pts: i64,
}

/// `e` is the event of a code. A block carries the first `len` bytes of the
/// buffer, a still its length, a cell change the new cell.
pub open spec fn is_event_of(
    code: i32,
    buf: Seq<u8>,
    len: int,
    still: i32,
    cell: CellChangeInfo,
    e: NavEvent<'_>,
) -> bool {
    if code == DVDNAV_BLOCK_OK {
        e matches NavEvent::Block { sector } && sector@ == buf.take(len)
    } else if code == DVDNAV_NOP {
        e is Nop
    } else if code == DVDNAV_STILL_FRAME {
        e matches NavEvent::StillFrame { length } && length == still_length_of(still)
    } else if code == DVDNAV_SPU_STREAM_CHANGE {
        e is SpuStreamChange
    } else if code == DVDNAV_AUDIO_STREAM_CHANGE {
        e is AudioStreamChange
    } else if code == DVDNAV_VTS_CHANGE {
        e is VtsChange
    } else if code == DVDNAV_CELL_CHANGE {
        e == (NavEvent::CellChange {
            cell_nr: cell.cell_nr,
            program_nr: cell.program_nr,
            cell_length_pts: cell.cell_length_pts,
            program_length_pts: cell.program_length_pts,
            pgc_length_pts: cell.pgc_length_pts,
            cell_start_pts: cell.cell_start_pts,
            program_start_pts: cell.program_start_pts,
        })
    } else if code == DVDNAV_NAV_PACKET {
        e is NavPacket
    } else if code == DVDNAV_STOP {
        e is Stop
    } else if code == DVDNAV_HIGHLIGHT {
        e is Highlight
    } else if code == DVDNAV_SPU_CLUT_CHANGE {
        e is SpuClutChange
    } else if code == DVDNAV_HOP_CHANNEL {
        e is HopChannel
    } else if code == DVDNAV_WAIT {
        e is Wait
    } else {
        e == NavEvent::Other(code)
    }
}

/// The event of a code that libdvdnav delivered with `len` bytes in `buf`;
/// `still` and `cell` are its payload, as far as the code has one.
pub fn nav_event<'b>(
    code: i32,
    buf: &'b [u8],
    len: usize,
    still: i32,
    cell: &CellChangeInfo,
) -> (e: NavEvent<'b>)
    requires
        code == DVDNAV_BLOCK_OK ==> len <= buf.len(),
    ensures
        is_event_of(code, buf@, len as int, still, *cell, e),
{
    if code == DVDNAV_BLOCK_OK {
        let sector = slice_subrange(buf, 0, len);
        assert(sector@ =~= buf@.take(len as int));
        NavEvent::Block { sector }
    } else if code == DVDNAV_NOP {
        NavEvent::Nop
    } else if code == DVDNAV_STILL_FRAME {
        NavEvent::StillFrame { length: still_length(still) }
    } else if code == DVDNAV_SPU_STREAM_CHANGE {
        NavEvent::SpuStreamChange
    } else if code == DVDNAV_AUDIO_STREAM_CHANGE {
        NavEvent::AudioStreamChange
    } else if code == DVDNAV_VTS_CHANGE {
        NavEvent::VtsChange
    } else if code == DVDNAV_CELL_CHANGE {
        NavEvent::CellChange {
            cell_nr: cell.cell_nr,
            program_nr: cell.program_nr,
            cell_length_pts: cell.cell_length_pts,
            program_length_pts: cell.program_length_pts,
            pgc_length_pts: cell.pgc_length_pts,
            cell_start_pts: cell.cell_start_pts,
            program_start_pts: cell.program_start_pts,
        }
    } else if code == DVDNAV_NAV_PACKET {
        NavEvent::NavPacket
    } else if code == DVDNAV_STOP {
        NavEvent::Stop
    } else if code == DVDNAV_HIGHLIGHT {
        NavEvent::Highlight
    } else if code == DVDNAV_SPU_CLUT_CHANGE {
        NavEvent::SpuClutChange
    } else if code == DVDNAV_HOP_CHANNEL {
        NavEvent::HopChannel
    } else if code == DVDNAV_WAIT {
        NavEvent::Wait
    } else {
        NavEvent::Other(code)
    }
}

/// How often each event came.
#[derive(Debug, Clone, Copy, PartialEq, Eq, Structural)]
pub struct EventCounts {
    pub blocks: u64,
    pub nops: u64,
    pub still_frames: u64,
    pub spu_stream_changes: u64,
    pub audio_stream_changes: u64,
    pub vts_changes: u64,
    pub cell_changes: u64,
    pub nav_packets: u64,
    pub highlights: u64,
    pub spu_clut_changes: u64,
    pub hop_channels: u64,
    pub waits: u64,
    pub others: u64,
    /// Cell changes to a cell that the cell table does not have.
    pub unresolved_cells: u64,
}

impl Default for EventCounts {
    fn default() -> (c: Self)
        ensures
            c == no_events(),
    {
        EventCounts {
            blocks: 0,
            nops: 0,
            still_frames: 0,
            spu_stream_changes: 0,
            audio_stream_changes: 0,
            vts_changes: 0,
            cell_changes: 0,
            nav_packets: 0,
            highlights: 0,
            spu_clut_changes: 0,
            hop_channels: 0,
            waits: 0,
            others: 0,
            unresolved_cells: 0,
        }
    }
}

/// No event came yet.
pub open spec fn no_events() -> EventCounts {
    EventCounts {
        blocks: 0,
        nops: 0,
        still_frames: 0,
        spu_stream_changes: 0,
        audio_stream_changes: 0,
        vts_changes: 0,
        cell_changes: 0,
        nav_packets: 0,
        highlights: 0,
        spu_clut_changes: 0,
        hop_channels: 0,
        waits: 0,
        others: 0,
        unresolved_cells: 0,
    }
}

/// The counts once an event came. A stop is not counted.
pub open spec fn counted(c: EventCounts, e: NavEvent<'_>) -> EventCounts {
    match e {
        NavEvent::Block { .. } => EventCounts { blocks: (c.blocks + 1) as u64, ..c },
        NavEvent::Nop => EventCounts { nops: (c.nops + 1) as u64, ..c },
        NavEvent::StillFrame { .. } => EventCounts { still_frames: (c.still_frames + 1) as u64, ..c },
        NavEvent::SpuStreamChange => EventCounts { spu_stream_changes: (c.spu_stream_changes + 1) as u64, ..c },
        NavEvent::AudioStreamChange => EventCounts { audio_stream_changes: (c.audio_stream_changes + 1) as u64, ..c },
        NavEvent::VtsChange => EventCounts { vts_changes: (c.vts_changes + 1) as u64, ..c },
        NavEvent::CellChange { .. } => EventCounts { cell_changes: (c.cell_changes + 1) as u64, ..c },
        NavEvent::NavPacket => EventCounts { nav_packets: (c.nav_packets + 1) as u64, ..c },
        NavEvent::Highlight => EventCounts { highlights: (c.highlights + 1) as u64, ..c },
        NavEvent::SpuClutChange => EventCounts { spu_clut_changes: (c.spu_clut_changes + 1) as u64, ..c },
        NavEvent::HopChannel => EventCounts { hop_channels: (c.hop_channels + 1) as u64, ..c },
        NavEvent::Wait => EventCounts { waits: (c.waits + 1) as u64, ..c },
        NavEvent::Other(_) => EventCounts { others: (c.others + 1) as u64, ..c },
        NavEvent::Stop => c,
    }
}

/// All counts together.
pub open spec fn event_total(c: EventCounts) -> int {
    c.blocks + c.nops + c.still_frames + c.spu_stream_changes + c.audio_stream_changes
        + c.vts_changes + c.cell_changes + c.nav_packets + c.highlights + c.spu_clut_changes
        + c.hop_channels + c.waits + c.others
}

/// What a rip does about an event.
#[derive(Debug, Clone, Copy, PartialEq, Eq, Structural)]
pub enum NavAction {
    /// Take the sector of the event.
    TakeSector,
    /// Tell playback to go on behind the still.
    SkipStill,
    /// Tell playback to go on.
    SkipWait,
    /// Look the new cell up.
    EnterCell { cell_nr: i32 },
    /// Leave the loop.
    End,
    /// Nothing.
    Ignore,
}

/// What a rip does about an event.
pub open spec fn action_of(e: NavEvent<'_>) -> NavAction {
    match e {
        NavEvent::Block { .. } => NavAction::TakeSector,
        NavEvent::StillFrame { .. } => NavAction::SkipStill,
        NavEvent::Wait => NavAction::SkipWait,
        NavEvent::CellChange { cell_nr, .. } => NavAction::EnterCell { cell_nr },
        NavEvent::Stop => NavAction::End,
        _ => NavAction::Ignore,
    }
}

impl EventCounts {
    /// Counts an event, and says what a rip does about it.
    pub fn take(&mut self, e: &NavEvent<'_>) -> (a: NavAction)
        requires
            event_total(*old(self)) < u64::MAX,
        ensures
            *final(self) == counted(*old(self), *e),
            a == action_of(*e),
            event_total(*final(self)) <= event_total(*old(self)) + 1,
    {
        match e {
            NavEvent::Block { .. } => {
                self.blocks = self.blocks + 1;
                NavAction::TakeSector
            },
            NavEvent::Nop => {
                self.nops = self.nops + 1;
                NavAction::Ignore
            },
            NavEvent::StillFrame { .. } => {
                self.still_frames = self.still_frames + 1;
                NavAction::SkipStill
            },
            NavEvent::SpuStreamChange => {
                self.spu_stream_changes = self.spu_stream_changes + 1;
                NavAction::Ignore
            },
            NavEvent::AudioStreamChange => {
                self.audio_stream_changes = self.audio_stream_changes + 1;
                NavAction::Ignore
            },
            NavEvent::VtsChange => {
                self.vts_changes = self.vts_changes + 1;
                NavAction::Ignore
            },
            NavEvent::CellChange { cell_nr, .. } => {
                self.cell_changes = self.cell_changes + 1;
                NavAction::EnterCell { cell_nr: *cell_nr }
            },
            NavEvent::NavPacket => {
                self.nav_packets = self.nav_packets + 1;
                NavAction::Ignore
            },
            NavEvent::Highlight => {
                self.highlights = self.highlights + 1;
                NavAction::Ignore
            },
            NavEvent::SpuClutChange => {
                self.spu_clut_changes = self.spu_clut_changes + 1;
                NavAction::Ignore
            },
            NavEvent::HopChannel => {
                self.hop_channels = self.hop_channels + 1;
                NavAction::Ignore
            },
            NavEvent::Wait => {
                self.waits = self.waits + 1;
                NavAction::SkipWait
            },
            NavEvent::Other(_) => {
                self.others = self.others + 1;
                NavAction::Ignore
            },
            NavEvent::Stop => NavAction::End,
        }
    }
}

/// A stop changes nothing; every other event adds one to the counts, whichever
/// it is.
pub proof fn lemma_every_event_counts_once(c: EventCounts, e: NavEvent<'_>)
    requires
        event_total(c) < u64::MAX,
    ensures
        event_total(counted(c, e)) == event_total(c) + (if e is Stop {
            0int
        } else {
            1
        }),
        counted(c, e).unresolved_cells == c.unresolved_cells,
{
}

/// Whether playback is given up after so many events. A cap of 0 takes none.
pub fn cap_reached(max_events: u64, events: u64) -> (b: bool)
    ensures
        b == (events >= max_events),
{
    events >= max_events
}

/// Whether playback has left a title: it reports another one. A report that
/// could not be had changes nothing.
pub fn has_left_title(current: Option<i32>, title: i32) -> (b: bool)
    ensures
        b == (current matches Some(t) && t != title),
{
    match current {
        Some(t) => t != title,
        None => false,
    }
}

/// Why a title cannot be played.
#[derive(Debug, Clone, Copy, PartialEq, Eq, Structural)]
pub enum TitleRangeError {
    /// Titles count from 1.
    BelowOne,
    /// The disc has fewer titles.
    OutOfRange { title: i32, titles: i32 },
}

/// Whether a disc with `titles` titles has one of this number.
pub fn check_title(title: i32, titles: i32) -> (r: Result<(), TitleRangeError>)
    ensures
        match r {
            Ok(()) => 1 <= title <= titles,
            Err(TitleRangeError::BelowOne) => title < 1,
            Err(e) => title >= 1 && title > titles && e == (TitleRangeError::OutOfRange {
                title,
                titles,
            }),
        },
{
    if title < 1 {
        return Err(TitleRangeError::BelowOne);
    }
    if title > titles {
        return Err(TitleRangeError::OutOfRange { title, titles });
    }
    Ok(())
}

/// The outcome of opening a disc for playback.
pub fn nav_open(ok: bool, path: &str, status: i32) -> (r: Result<(), DvdError>)
    ensures
        match r {
            Ok(()) => ok,
            Err(DvdError::OpenFailed { path: p, reason }) => !ok && p@ == path@ && reason@
                == "libdvdnav dvdnav_open() returned status="@ + signed_dec(status as int),
            Err(_) => false,
        },
{
    if ok {
        return Ok(());
    }
    let mut reason = "libdvdnav dvdnav_open() returned status=".to_owned();
    push_signed(&mut reason, status as i64);
    Err(DvdError::OpenFailed { path: path.to_owned(), reason })
}

/// The outcome of a navigation call: an error that names the call and its
/// status where it failed.
pub fn nav_call(ok: bool, call: &str, status: i32) -> (r: Result<(), DvdError>)
    ensures
        match r {
            Ok(()) => ok,
            Err(DvdError::OpenFailed { path, reason }) => !ok && path@ == Seq::<char>::empty()
                && reason@ == call@ + " returned "@ + signed_dec(status as int),
            Err(_) => false,
        },
{
    if ok {
        return Ok(());
    }
    let mut reason = call.to_owned();
    reason.append(" returned ");
    push_signed(&mut reason, status as i64);
    Err(DvdError::OpenFailed { path: String::new(), reason })
}

/// The outcome of a step of the playback that reads `count` blocks: an error
/// with its status where it failed.
pub fn nav_step(ok: bool, count: u32, status: i32) -> (r: Result<(), DvdError>)
    ensures
        match r {
            Ok(()) => ok,
            Err(e) => !ok && e == (DvdError::ReadFailed { offset: 0, count, ret: status }),
        },
{
    if ok {
        Ok(())
    } else {
        Err(DvdError::ReadFailed { offset: 0, count, ret: status })
    }
}

/// `text` with a line behind it: a name of 22 characters and a count at the
/// right of ten.
pub open spec fn with_count(text: Seq<char>, name: Seq<char>, n: u64) -> Seq<char> {
    text + "  "@ + name + pad_left(dec(n as nat), 10, ' ') + "\n"@
}

fn push_count(out: &mut String, name: &str, n: u64)
    ensures
        final(out)@ == with_count(old(out)@, name@, n),
{
    out.append("  ");
    out.append(name);
    push_dec_spaces(out, n, 10);
    out.append("\n");
}

/// `text` with the table of event counts behind it.
pub open spec fn with_events(text: Seq<char>, c: EventCounts) -> Seq<char> {
    let t = text + "nav event counts:\n"@;
    let t = with_count(t, "BLOCK_OK              "@, c.blocks);
    let t = with_count(t, "NOP                   "@, c.nops);
    let t = with_count(t, "STILL_FRAME           "@, c.still_frames);
    let t = with_count(t, "SPU_STREAM_CHANGE     "@, c.spu_stream_changes);
    let t = with_count(t, "AUDIO_STREAM_CHANGE   "@, c.audio_stream_changes);
    let t = with_count(t, "VTS_CHANGE            "@, c.vts_changes);
    let t = with_count(t, "CELL_CHANGE           "@, c.cell_changes);
    let t = with_count(t, "NAV_PACKET            "@, c.nav_packets);
    let t = with_count(t, "HIGHLIGHT             "@, c.highlights);
    let t = with_count(t, "SPU_CLUT_CHANGE       "@, c.spu_clut_changes);
    let t = with_count(t, "HOP_CHANNEL           "@, c.hop_channels);
    let t = with_count(t, "WAIT                  "@, c.waits);
    let t = with_count(t, "(unknown)             "@, c.others);
    t
}

/// Appends the table of event counts.
pub fn push_events(out: &mut String, c: &EventCounts)
    ensures
        final(out)@ == with_events(old(out)@, *c),
{
    out.append("nav event counts:\n");
    push_count(out, "BLOCK_OK              ", c.blocks);
    push_count(out, "NOP                   ", c.nops);
    push_count(out, "STILL_FRAME           ", c.still_frames);
    push_count(out, "SPU_STREAM_CHANGE     ", c.spu_stream_changes);
    push_count(out, "AUDIO_STREAM_CHANGE   ", c.audio_stream_changes);
    push_count(out, "VTS_CHANGE            ", c.vts_changes);
    push_count(out, "CELL_CHANGE           ", c.cell_changes);
    push_count(out, "NAV_PACKET            ", c.nav_packets);
    push_count(out, "HIGHLIGHT             ", c.highlights);
    push_count(out, "SPU_CLUT_CHANGE       ", c.spu_clut_changes);
    push_count(out, "HOP_CHANNEL           ", c.hop_channels);
    push_count(out, "WAIT                  ", c.waits);
    push_count(out, "(unknown)             ", c.others);
}

} // verus!
