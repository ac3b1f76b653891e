//! Laws of the messages and summaries.
use vstd::prelude::*;
use crate::demux_title;
use crate::demux_title_nav;
use crate::demux_vob::{self, with_accounting, with_streams};
use crate::demux::DemuxSummary;
use crate::dump_sectors::{self, count_error_text, CountError};
use crate::dump_title;
use crate::dump_title_nav::{self, dumped_blocks, dumped_bytes};
use crate::error::{disc_error_text, dvd_error_text, DiscError, DvdError};
use crate::file::{domain_name, ReadDomain};
use crate::nav::{with_events, EventCounts, NavEvent};
use crate::scan_streams::{self, with_tallies};
use crate::text::{dec, pad_left, signed_dec};

verus! {

/// A line of the table of events.
pub open spec fn event_line(name: Seq<char>, n: u64) -> Seq<char> {
    "  "@ + name + pad_left(dec(n as nat), 10, ' ') + "\n"@
}

/// The table of events has a line for each kind, with the count of that kind.
pub proof fn lemma_every_kind_has_a_line(text: Seq<char>, c: EventCounts)
    ensures
        with_events(text, c) == text + "nav event counts:\n"@ + event_line(
            "BLOCK_OK              "@,
            c.blocks,
        ) + event_line("NOP                   "@, c.nops) + event_line(
            "STILL_FRAME           "@,
            c.still_frames,
        ) + event_line("SPU_STREAM_CHANGE     "@, c.spu_stream_changes) + event_line(
            "AUDIO_STREAM_CHANGE   "@,
            c.audio_stream_changes,
        ) + event_line("VTS_CHANGE            "@, c.vts_changes) + event_line(
            "CELL_CHANGE           "@,
            c.cell_changes,
        ) + event_line("NAV_PACKET            "@, c.nav_packets) + event_line(
            "HIGHLIGHT             "@,
            c.highlights,
        ) + event_line("SPU_CLUT_CHANGE       "@, c.spu_clut_changes) + event_line(
            "HOP_CHANNEL           "@,
            c.hop_channels,
        ) + event_line("WAIT                  "@, c.waits) + event_line(
            "(unknown)             "@,
            c.others,
        ),
{
    assert forall|t: Seq<char>, name: Seq<char>, n: u64|
        #[trigger] crate::nav::with_count(t, name, n) == t + event_line(name, n) by {
        assert(crate::nav::with_count(t, name, n) =~= t + event_line(name, n));
    }
}

/// What a dump writes is the bytes of all blocks in the order in which they
/// came, and nothing of the other events.
pub proof fn lemma_dump_is_its_blocks(events: Seq<NavEvent<'_>>)
    ensures
        dumped_blocks(events) == events.filter(|e: NavEvent<'_>| e is Block).len(),
        dumped_bytes(events) == events.map_values(
            |e: NavEvent<'_>|
                match e {
                    NavEvent::Block { sector } => sector@,
                    _ => Seq::<u8>::empty(),
                },
        ).flatten(),
    decreases events.len(),
{
    reveal(Seq::filter);
    let f = |e: NavEvent<'_>|
        match e {
            NavEvent::Block { sector } => sector@,
            _ => Seq::<u8>::empty(),
        };
    if events.len() == 0 {
        assert(events.map_values(f) =~= Seq::<Seq<u8>>::empty());
    } else {
        let front = events.drop_last();
        lemma_dump_is_its_blocks(front);
        assert(events.map_values(f) =~= front.map_values(f).push(f(events.last())));
        front.map_values(f).lemma_flatten_push(f(events.last()));
    }
}

/// The message of each failure of the backend names what the failure holds.
pub proof fn lemma_backend_messages(e: DvdError)
    ensures
        e matches DvdError::OpenFailed { path, reason } ==> dvd_error_text(e)
            == "could not open disc at "@ + path@ + ": "@ + reason@,
        e is InvalidPath ==> dvd_error_text(e) == "invalid path: contains interior NUL byte"@,
        e matches DvdError::IfoOpenFailed { ifo_nr } ==> dvd_error_text(e) == "IFO "@ + dec(
            ifo_nr as nat,
        ) + " could not be opened (libdvdread returned NULL)"@,
        e matches DvdError::FileOpenFailed { vts_nr, domain, reason } ==> dvd_error_text(e)
            == "could not open file: vts="@ + dec(vts_nr as nat) + " domain="@ + domain@ + " ("@
            + reason@ + ")"@,
        e matches DvdError::ReadOutOfRange { offset, count, total } ==> dvd_error_text(e)
            == "sector read out of range: offset="@ + dec(offset as nat) + " count="@ + dec(
            count as nat,
        ) + " total_blocks="@ + dec(total as nat),
        e matches DvdError::ReadFailed { offset, count, ret } ==> dvd_error_text(e)
            == "sector read failed: offset="@ + dec(offset as nat) + " count="@ + dec(count as nat)
            + " (libdvdread returned "@ + signed_dec(ret as int) + ")"@,
        e matches DvdError::Io(what) ==> dvd_error_text(e) == "I/O error: "@ + what@,
{
}

/// The message of each failure at the common boundary; that of a backend is
/// passed on.
pub proof fn lemma_boundary_messages(e: DiscError)
    ensures
        e matches DiscError::PathNotFound(path) ==> disc_error_text(e) == "path does not exist: "@
            + path@,
        e matches DiscError::UnknownDiscType(path) ==> disc_error_text(e) == "disc type at "@ + path@
            + " is not recognized (no VIDEO_TS/, BDMV/, or recognized image found)"@,
        e matches DiscError::Unsupported(what) ==> disc_error_text(e)
            == "requested feature not yet implemented: "@ + what@,
        e matches DiscError::Backend { source } ==> disc_error_text(e) == "backend error: "@
            + dvd_error_text(source),
        e matches DiscError::Io(what) ==> disc_error_text(e) == "I/O error: "@ + what@,
{
}

/// The names of the domains, and what is wrong with a count of blocks.
pub proof fn lemma_names_of_domains_and_counts(count: u32)
    ensures
        domain_name(ReadDomain::InfoFile) == "INFO_FILE"@,
        domain_name(ReadDomain::InfoBackup) == "INFO_BACKUP"@,
        domain_name(ReadDomain::MenuVobs) == "MENU_VOBS"@,
        domain_name(ReadDomain::TitleVobs) == "TITLE_VOBS"@,
        count_error_text(CountError::Zero) == "--count must be > 0"@,
        count_error_text(CountError::TooLarge { count }) == "--count "@ + dec(count as nat)
            + " exceeds MAX_BLOCKS_PER_CALL="@ + dec(65536) + " (128 MiB)"@,
{
}

/// A number under its name, on a line.
pub open spec fn line(name: Seq<char>, n: nat) -> Seq<char> {
    name + dec(n) + "\n"@
}

/// The head of the table of streams.
pub open spec fn table_head() -> Seq<char> {
    "stream                               packets       PES bytes   emitted bytes  magic check   first bytes\n"@
        + "--------------------------------  ----------  --------------  --------------  ------------  ------------------------\n"@
}

/// The summaries of a demux: the sectors, the accounting, the table of all
/// streams, and how many files were written where.
pub proof fn lemma_demux_summaries(
    title: u8,
    nav_title: i32,
    path: Seq<char>,
    dir: Seq<char>,
    s: DemuxSummary,
    a: demux_title::Report,
    b: demux_title_nav::Report,
)
    ensures
        demux_vob::report_text_of(path, dir, s) == with_streams(
            with_accounting(
                "\ndemux-vob summary for "@ + path + ":\n"@ + line(
                    "  sectors processed:       "@,
                    s.sectors_processed as nat,
                ) + line("  PES packets seen:        "@, s.pes_total as nat),
                s,
            ) + "\n"@ + table_head(),
            s.streams@,
        ) + "\nwrote "@ + dec(s.streams@.len()) + " per-stream files to "@ + dir + "\n"@,
        demux_title::report_text_of(title, dir, a) == with_streams(
            with_accounting(
                "\ndemux-title summary (title "@ + dec(title as nat) + ", "@ + dec(a.cells as nat)
                    + " cells -> "@ + dir + "):\n"@ + line(
                    "  sectors processed:       "@,
                    a.summary.sectors_processed as nat,
                ),
                a.summary,
            ) + line(
                "  stc_discontinuity cells: "@,
                a.summary.discontinuity_boundaries as nat,
            ) + "\n"@ + table_head(),
            a.summary.streams@,
        ) + "\nwrote "@ + dec(a.summary.streams@.len()) + " per-stream files to "@ + dir + "\n"@,
        demux_title_nav::report_text_of(nav_title, dir, b) == with_streams(
            with_events(
                with_accounting(
                    "\ndemux-title-nav summary (title "@ + signed_dec(nav_title as int)
                        + ", libdvdnav driven -> "@ + dir + "):\n"@ + line(
                        "  sectors processed:       "@,
                        b.summary.sectors_processed as nat,
                    ),
                    b.summary,
                ) + "  cell changes:            "@ + dec(b.events.cell_changes as nat)
                    + " (stc_discontinuity: "@ + dec(b.summary.discontinuity_boundaries as nat)
                    + ", unresolved: "@ + dec(b.events.unresolved_cells as nat) + ")\n\n"@,
                b.events,
            ) + "\n"@ + table_head(),
            b.summary.streams@,
        ) + "\nwrote "@ + dec(b.summary.streams@.len()) + " per-stream files to "@ + dir + "\n"@,
{
    assert forall|t: Seq<char>, name: Seq<char>, n: nat|
        #[trigger] demux_vob::with_number(t, name, n) == t + line(name, n) by {
        assert(demux_vob::with_number(t, name, n) =~= t + line(name, n));
    }
    assert forall|t: Seq<char>, v: Seq<crate::demux::StreamEntry>|
        #[trigger] demux_vob::with_stream_table(t, v) == with_streams(t + table_head(), v) by {
        let one =
            "stream                               packets       PES bytes   emitted bytes  magic check   first bytes\n"@;
        let two =
            "--------------------------------  ----------  --------------  --------------  ------------  ------------------------\n"@;
        assert(t + one + two =~= t + (one + two));
    }
}

/// The summaries of a dump: how much was written, where, and its digest.
pub proof fn lemma_dump_summaries(
    title: u8,
    out: Seq<char>,
    a: dump_sectors::Report,
    b: dump_title::Report,
    c: dump_title_nav::Report,
)
    ensures
        dump_sectors::report_text_of(a) == "wrote "@ + dec(a.bytes_written as nat) + " bytes to "@
            + a.out@ + "\n"@ + "sha256: "@ + a.sha256@ + "\n"@,
        dump_title::report_text_of(title, out, b) == "title "@ + dec(title as nat) + ": "@ + dec(
            b.cells as nat,
        ) + " cells, "@ + dec(b.total_bytes as nat) + " bytes ("@ + dec(b.total_blocks as nat)
            + " blocks) -> "@ + out + "\n"@ + "sha256: "@ + b.sha256@ + "\n"@,
        dump_title_nav::report_text_of(c) == with_events(
            "\ndump-title-nav (title "@ + signed_dec(c.title as int) + ", libdvdnav driven):\n"@
                + "  sectors written:         "@ + dec(c.total_blocks as nat) + "\n"@
                + "  bytes written:           "@ + dec(c.total_bytes as nat) + "\n"@
                + "  output:                  "@ + c.out@ + "\n"@ + "  sha256:                  "@
                + c.sha256@ + "\n\n"@,
            c.events,
        ),
{
}

/// The summary of a scan has every class of bytes; that of unknown bytes only
/// where there are any.
pub proof fn lemma_scan_summary(path: Seq<char>, r: scan_streams::Report)
    ensures
        scan_streams::report_text_of(path, r) == with_tallies(
            "\nscan-streams summary for "@ + path + ":\n"@ + line(
                "  sectors scanned:        "@,
                r.sectors_scanned as nat,
            ) + line("  total PES packets:      "@, r.packets_total as nat) + line(
                "  bytes in elementary:    "@,
                r.bytes_in_elementary as nat,
            ) + line("  bytes in NV_PCK:        "@, r.bytes_in_nav as nat) + line(
                "  bytes in padding:       "@,
                r.bytes_in_padding as nat,
            ) + line("  bytes in system_header: "@, r.bytes_in_system_header as nat) + (if
            r.bytes_in_unknown == 0 {
                Seq::empty()
            } else {
                "  bytes in unknown:       "@ + dec(r.bytes_in_unknown as nat) + "  ⚠\n"@
            })
                + "\nstream                               packets   payload bytes    packet bytes\n"@
                + "--------------------------------  ----------  --------------  --------------\n"@,
            r.streams@,
        ),
{
    assert forall|t: Seq<char>, name: Seq<char>, n: nat|
        #[trigger] demux_vob::with_number(t, name, n) == t + line(name, n) by {
        assert(demux_vob::with_number(t, name, n) =~= t + line(name, n));
    }
    let none = Seq::<char>::empty();
    assert forall|t: Seq<char>| #[trigger] (t + none) == t by {
        assert(t + none =~= t);
    }
    assert forall|t: Seq<char>, a: Seq<char>, b: Seq<char>, c: Seq<char>|
        #[trigger] (t + a + b + c) == t + (a + b + c) by {
        assert(t + a + b + c =~= t + (a + b + c));
    }
}

} // verus!
