//! Laws of the stream tally.
use vstd::prelude::*;
use crate::mpegps::{kind_label, kind_of, Pes, Sector, StreamKind};
use crate::scan_streams::{
    after_all, after_packet, after_scan, bytes_counted, tally_of, ScanState, StreamTally,
};

verus! {

/// A packet counts once, for the stream of its label: one packet, its payload
/// and its whole size more there, and no other stream changes.
pub proof fn lemma_packet_counts_for_its_label(m: ScanState, p: Pes, other: Seq<char>)
    requires
        p.total_size >= 0,
        ({
            let t = m.streams[kind_label(kind_of(p.stream_id, p.substream_id))];
            t.packets < u64::MAX && t.payload_bytes + p.payload.len() <= u64::MAX && t.packet_bytes
                + p.total_size <= u64::MAX
        }),
        p.payload.len() <= u64::MAX,
        p.total_size <= u64::MAX,
        other != kind_label(kind_of(p.stream_id, p.substream_id)),
    ensures
        ({
            let label = kind_label(kind_of(p.stream_id, p.substream_id));
            let n = after_packet(m, p);
            let seen = m.streams.contains_key(label);
            let old = m.streams[label];
            &&& n.streams.dom() == m.streams.dom().insert(label)
            &&& m.streams.contains_key(other) ==> n.streams[other] == m.streams[other]
            &&& n.streams[label].packets == (if seen {
                old.packets as int
            } else {
                0
            }) + 1
            &&& n.streams[label].payload_bytes == (if seen {
                old.payload_bytes as int
            } else {
                0
            }) + p.payload.len()
            &&& n.streams[label].packet_bytes == (if seen {
                old.packet_bytes as int
            } else {
                0
            }) + p.total_size
            &&& n.packets_total == m.packets_total + 1
            &&& n.sectors_scanned == m.sectors_scanned
        }),
{
    let label = kind_label(kind_of(p.stream_id, p.substream_id));
    assert(after_packet(m, p).streams.dom() =~= m.streams.dom().insert(label));
}

/// The bytes of a packet go to one class, by its stream id: padding, navigation,
/// system headers; elementary for video, MPEG audio and the known substreams;
/// unknown for all others.
pub proof fn lemma_packet_goes_to_its_class(m: ScanState, p: Pes)
    requires
        p.total_size >= 0,
    ensures
        ({
            let n = after_packet(m, p);
            let elementary = 0xC0 <= p.stream_id <= 0xEF || (p.stream_id == 0xBD && (
            p.substream_id matches Some(s) && (0x20 <= s <= 0x3F || 0x80 <= s <= 0x8F || 0xA0 <= s
                <= 0xA7)));
            let filler = p.stream_id == 0xBB || p.stream_id == 0xBE || p.stream_id == 0xBF;
            let size = |b: bool|
                if b {
                    p.total_size
                } else {
                    0int
                };
            &&& n.bytes_in_padding == m.bytes_in_padding + size(p.stream_id == 0xBE)
            &&& n.bytes_in_nav == m.bytes_in_nav + size(p.stream_id == 0xBF)
            &&& n.bytes_in_system_header == m.bytes_in_system_header + size(p.stream_id == 0xBB)
            &&& n.bytes_in_elementary == m.bytes_in_elementary + size(elementary)
            &&& n.bytes_in_unknown == m.bytes_in_unknown + size(!elementary && !filler)
        }),
{
}

/// A sector is counted packet by packet, in order, and once as a sector.
pub proof fn lemma_sector_counts_its_packets(m: ScanState, packets: Seq<Pes>, p: Pes, c: Sector)
    ensures
        after_all(m, Seq::empty()) == m,
        after_all(m, packets.push(p)) == after_packet(after_all(m, packets), p),
        after_scan(m, c) == (ScanState {
            sectors_scanned: after_all(m, c.pes_packets).sectors_scanned + 1,
            ..after_all(m, c.pes_packets)
        }),
        bytes_counted(m) == m.bytes_in_elementary + m.bytes_in_nav + m.bytes_in_padding
            + m.bytes_in_system_header + m.bytes_in_unknown,
{
    assert(packets.push(p).drop_last() =~= packets);
}

} // verus!
