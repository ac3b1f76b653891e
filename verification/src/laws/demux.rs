//! Laws of the demultiplexer.
use vstd::prelude::*;
use crate::demux::{
    after_begin_cell, after_packets, after_pes, after_sector, emissions, entries_map,
    entries_sorted, entry_at, key_filename, key_of_kind, key_prefix, key_rank, kind_of_key,
    lemma_output_is_concatenation, magic_of, no_resync_pending, pes_emission, record_of,
    start_demux, streams_emitted, DemuxState, MagicCheck, StreamEntry, StreamKey,
};
use crate::mpegps::{hex_byte, sector_of, Pes, StreamKind};
use crate::text::dec;

verus! {

/// A packet of stream `key`, by its ids, with `framing` bytes before its
/// elementary bytes: none for video, MPEG audio and subpictures, three for AC-3
/// and DTS, six for LPCM.
pub open spec fn packet_is_of(p: Pes, key: StreamKey, framing: int) -> bool {
    match key {
        StreamKey::Video(id) => p.stream_id == id && 0xE0 <= id <= 0xEF && framing == 0,
        StreamKey::MpegAudio(id) => p.stream_id == id && 0xC0 <= id <= 0xDF && framing == 0,
        StreamKey::Ac3(n) => p.stream_id == 0xBD && n < 8 && p.substream_id == Some(
            (0x80 + n) as u8,
        ) && framing == 3,
        StreamKey::Dts(n) => p.stream_id == 0xBD && n < 8 && p.substream_id == Some(
            (0x88 + n) as u8,
        ) && framing == 3,
        StreamKey::Lpcm(n) => p.stream_id == 0xBD && n < 8 && p.substream_id == Some(
            (0xA0 + n) as u8,
        ) && framing == 6,
        StreamKey::Subpicture(n) => p.stream_id == 0xBD && n < 32 && p.substream_id == Some(
            (0x20 + n) as u8,
        ) && framing == 0,
    }
}

/// An AC-3 packet with more than its three framing bytes sends out all that
/// follows them, to its stream.
pub proof fn lemma_ac3_is_emitted(m: DemuxState, p: Pes, n: u8)
    requires
        n < 8,
        p.stream_id == 0xBD,
        p.substream_id == Some((0x80 + n) as u8),
        !(m.streams.contains_key(StreamKey::Ac3(n)) && m.streams[StreamKey::Ac3(n)].resync_pending),
    ensures
        p.payload.len() > 3 ==> pes_emission(m, p) == Some(
            (StreamKey::Ac3(n), p.payload.subrange(3, p.payload.len() as int)),
        ),
        p.payload.len() <= 3 ==> pes_emission(m, p) is None,
{
}

/// A DTS packet with more than its three framing bytes sends out all that
/// follows them, to its stream.
pub proof fn lemma_dts_is_emitted(m: DemuxState, p: Pes, n: u8)
    requires
        n < 8,
        p.stream_id == 0xBD,
        p.substream_id == Some((0x88 + n) as u8),
        !(m.streams.contains_key(StreamKey::Dts(n)) && m.streams[StreamKey::Dts(n)].resync_pending),
    ensures
        p.payload.len() > 3 ==> pes_emission(m, p) == Some(
            (StreamKey::Dts(n), p.payload.subrange(3, p.payload.len() as int)),
        ),
        p.payload.len() <= 3 ==> pes_emission(m, p) is None,
{
}

/// An LPCM packet with more than its six framing bytes sends out all that
/// follows them, to its stream.
pub proof fn lemma_lpcm_is_emitted(m: DemuxState, p: Pes, n: u8)
    requires
        n < 8,
        p.stream_id == 0xBD,
        p.substream_id == Some((0xA0 + n) as u8),
        !(m.streams.contains_key(StreamKey::Lpcm(n))
            && m.streams[StreamKey::Lpcm(n)].resync_pending),
    ensures
        p.payload.len() > 6 ==> pes_emission(m, p) == Some(
            (StreamKey::Lpcm(n), p.payload.subrange(6, p.payload.len() as int)),
        ),
        p.payload.len() <= 6 ==> pes_emission(m, p) is None,
{
}

/// Video, MPEG audio and subpicture packets send out their whole payload.
pub proof fn lemma_plain_streams_are_emitted(m: DemuxState, p: Pes, key: StreamKey)
    requires
        match key {
            StreamKey::Video(id) => p.stream_id == id && 0xE0 <= id <= 0xEF,
            StreamKey::MpegAudio(id) => p.stream_id == id && 0xC0 <= id <= 0xDF,
            StreamKey::Subpicture(n) => p.stream_id == 0xBD && n < 32 && p.substream_id == Some(
                (0x20 + n) as u8,
            ),
            _ => false,
        },
        !(m.streams.contains_key(key) && m.streams[key].resync_pending),
    ensures
        p.payload.len() > 0 ==> pes_emission(m, p) == Some((key, p.payload)),
        p.payload.len() == 0 ==> pes_emission(m, p) is None,
{
    assert(p.payload.skip(0) =~= p.payload);
}

/// Navigation packs, padding, system headers and packets with any other ids go
/// nowhere: only the counts of packets and of dropped bytes change, the latter
/// by the whole packet.
pub proof fn lemma_other_packets_are_dropped(m: DemuxState, p: Pes)
    requires
        p.total_size >= 0,
        p.stream_id < 0xC0 || p.stream_id > 0xEF,
        p.stream_id == 0xBD ==> (match p.substream_id {
            Some(s) => s < 0x20 || (0x3F < s && s < 0x80) || (0x8F < s && s < 0xA0) || 0xA7 < s,
            None => true,
        }),
    ensures
        pes_emission(m, p) is None,
        after_pes(m, p) == (DemuxState {
            pes_total: m.pes_total + 1,
            dropped_pes_bytes: (m.dropped_pes_bytes + p.total_size) as nat,
            ..m
        }),
{
}

/// A stream that waits for a resync is entered at the first whole frame that
/// the packet's pointer names, counted from behind the three framing bytes; a
/// pointer past the end takes the whole packet. Either way it waits no longer,
/// and what was skipped is counted.
pub proof fn lemma_resync_enters_at_pointer(m: DemuxState, p: Pes, key: StreamKey)
    requires
        match key {
            StreamKey::Ac3(n) => n < 8 && p.substream_id == Some((0x80 + n) as u8),
            StreamKey::Dts(n) => n < 8 && p.substream_id == Some((0x88 + n) as u8),
            _ => false,
        },
        p.stream_id == 0xBD,
        p.payload.len() > 3,
        m.streams.contains_key(key) && m.streams[key].resync_pending,
    ensures
        ({
            let start = 3 + p.payload[1] as int * 256 + p.payload[2] as int;
            let len = p.payload.len() as int;
            let after = after_pes(m, p);
            &&& start < len ==> pes_emission(m, p) == Some((key, p.payload.subrange(start, len)))
                && after.fap_bytes_skipped == m.fap_bytes_skipped + start - 3
            &&& start >= len ==> pes_emission(m, p) is None && after.fap_bytes_skipped
                == m.fap_bytes_skipped + len - 3
            &&& after.fap_resyncs_applied == m.fap_resyncs_applied + (if start > 3 {
                1int
            } else {
                0
            })
            &&& after.streams.contains_key(key) && !after.streams[key].resync_pending
        }),
{
}

/// A packet of an elementary stream changes its own stream and no other: one
/// packet more, its size more, what it sent out more. What it did not send out
/// is stripped. A stream that does not wait loses nothing to a resync.
pub proof fn lemma_packet_counts_for_its_stream(
    m: DemuxState,
    p: Pes,
    key: StreamKey,
    other: StreamKey,
)
    requires
        packet_is_of(p, key, 0) || packet_is_of(p, key, 3) || packet_is_of(p, key, 6),
        p.header_size >= 0,
        p.total_size >= 0,
        other != key,
    ensures
        ({
            let after = after_pes(m, p);
            let sent = match pes_emission(m, p) {
                Some(e) => e.1.len(),
                None => 0,
            };
            let seen = m.streams.contains_key(key);
            let old = m.streams[key];
            let new = after.streams[key];
            &&& pes_emission(m, p) matches Some(e) ==> e.0 == key
            &&& after.streams.dom() == m.streams.dom().insert(key)
            &&& m.streams.contains_key(other) ==> after.streams[other] == m.streams[other]
            &&& new.pes_count == (if seen {
                old.pes_count
            } else {
                0
            }) + 1
            &&& new.pes_bytes == (if seen {
                old.pes_bytes as int
            } else {
                0
            }) + p.total_size
            &&& new.emitted_bytes == (if seen {
                old.emitted_bytes
            } else {
                0
            }) + sent
            &&& after.pes_total == m.pes_total + 1
            &&& after.elementary_emitted_bytes == m.elementary_emitted_bytes + sent
            &&& after.stripped_header_bytes == m.stripped_header_bytes + p.header_size
                + p.payload.len() - sent
            &&& after.dropped_pes_bytes == m.dropped_pes_bytes
            &&& after.sectors_processed == m.sectors_processed
            &&& after.discontinuity_boundaries == m.discontinuity_boundaries
            &&& !(seen && old.resync_pending) ==> after.fap_bytes_skipped == m.fap_bytes_skipped
                && after.fap_resyncs_applied == m.fap_resyncs_applied && !new.resync_pending
        }),
{
    let after = after_pes(m, p);
    assert(after.streams.dom() =~= m.streams.dom().insert(key));
}

/// The first bytes of a stream are those of the first packet that sent
/// anything out, up to eight, filled with zeros; later packets leave them and
/// the verdict on them alone.
pub proof fn lemma_first_bytes_are_kept(m: DemuxState, p: Pes, key: StreamKey)
    requires
        packet_is_of(p, key, 0) || packet_is_of(p, key, 3) || packet_is_of(p, key, 6),
    ensures
        ({
            let new = after_pes(m, p).streams[key];
            let old = m.streams[key];
            let set = m.streams.contains_key(key) && old.first_bytes_set;
            &&& set ==> new.first_bytes == old.first_bytes && new.magic_check == old.magic_check
                && new.first_bytes_set
            &&& !set && pes_emission(m, p) is None ==> !new.first_bytes_set
            &&& !set ==> (pes_emission(m, p) matches Some(e) ==> {
                &&& new.first_bytes_set
                &&& new.first_bytes.len() == 8
                &&& forall|i: int|
                    0 <= i < 8 ==> #[trigger] new.first_bytes[i] == (if i < e.1.len() {
                        e.1[i]
                    } else {
                        0u8
                    })
                &&& new.magic_check == magic_of(
                    key,
                    if e.1.len() < 8 {
                        e.1
                    } else {
                        e.1.subrange(0, 8)
                    },
                )
            })
        }),
{
    if let Some(e) = pes_emission(m, p) {
        if e.1.len() >= 8 {
            assert(e.1.subrange(0, 8) =~= e.1.take(8));
        }
    }
}

/// The verdict on first bytes: a sequence header code for video, the syncwords
/// of AC-3 and DTS, eleven set bits for MPEG audio, none for the others.
pub proof fn lemma_magic_is_the_syncword(key: StreamKey, b: Seq<u8>)
    ensures
        key is Lpcm || key is Subpicture <==> magic_of(key, b) == MagicCheck::Skipped,
        magic_of(key, b) != MagicCheck::Pending,
        key is Video ==> (magic_of(key, b) == MagicCheck::Pass <==> b.len() >= 4 && b[0] == 0
            && b[1] == 0 && b[2] == 1 && b[3] == 0xB3),
        key is Ac3 ==> (magic_of(key, b) == MagicCheck::Pass <==> b.len() >= 2 && b[0] == 0x0B
            && b[1] == 0x77),
        key is Dts ==> (magic_of(key, b) == MagicCheck::Pass <==> b.len() >= 4 && b[0] == 0x7F
            && b[1] == 0xFE && b[2] == 0x80 && b[3] == 0x01),
        key is MpegAudio ==> (magic_of(key, b) == MagicCheck::Pass <==> b.len() >= 2 && b[0]
            == 0xFF && b[1] / 32 == 7),
{
    if b.len() >= 4 {
        assert(b.take(4) =~= seq![b[0], b[1], b[2], b[3]]);
        let video = seq![0x00u8, 0x00u8, 0x01u8, 0xB3u8];
        let dts = seq![0x7Fu8, 0xFEu8, 0x80u8, 0x01u8];
        assert(b.take(4) == video <==> b[0] == 0 && b[1] == 0 && b[2] == 1 && b[3] == 0xB3) by {
            assert(video[0] == 0 && video[1] == 0 && video[2] == 1 && video[3] == 0xB3);
            if b[0] == 0 && b[1] == 0 && b[2] == 1 && b[3] == 0xB3 {
                assert(b.take(4) =~= video);
            }
        }
        assert(b.take(4) == dts <==> b[0] == 0x7F && b[1] == 0xFE && b[2] == 0x80 && b[3]
            == 0x01) by {
            assert(dts[0] == 0x7F && dts[1] == 0xFE && dts[2] == 0x80 && dts[3] == 0x01);
            if b[0] == 0x7F && b[1] == 0xFE && b[2] == 0x80 && b[3] == 0x01 {
                assert(b.take(4) =~= dts);
            }
        }
    }
    if b.len() >= 2 {
        let ac3 = seq![0x0Bu8, 0x77u8];
        assert(b.take(2) == ac3 <==> b[0] == 0x0B && b[1] == 0x77) by {
            assert(ac3[0] == 0x0B && ac3[1] == 0x77);
            assert(b.take(2)[0] == b[0] && b.take(2)[1] == b[1]);
            if b[0] == 0x0B && b[1] == 0x77 {
                assert(b.take(2) =~= ac3);
            }
        }
    }
}

/// A cell that resets the clock makes exactly the AC-3 and DTS streams seen so
/// far wait, and changes nothing else of any stream; any other cell changes
/// nothing at all.
pub proof fn lemma_cell_marks_frame_streams(m: DemuxState, key: StreamKey)
    ensures
        after_begin_cell(m, false) == m,
        after_begin_cell(m, true) == (DemuxState {
            discontinuity_boundaries: m.discontinuity_boundaries + 1,
            streams: after_begin_cell(m, true).streams,
            ..m
        }),
        after_begin_cell(m, true).streams.dom() == m.streams.dom(),
        m.streams.contains_key(key) ==> {
            let old = m.streams[key];
            let new = after_begin_cell(m, true).streams[key];
            &&& key is Ac3 || key is Dts ==> new.resync_pending
            &&& !(key is Ac3 || key is Dts) ==> new.resync_pending == old.resync_pending
            &&& new.pes_count == old.pes_count && new.pes_bytes == old.pes_bytes
            &&& new.emitted_bytes == old.emitted_bytes && new.magic_check == old.magic_check
            &&& new.first_bytes == old.first_bytes && new.first_bytes_set == old.first_bytes_set
        },
{
    assert(after_begin_cell(m, true).streams.dom() =~= m.streams.dom());
}

/// Framing in front of the elementary bytes: three bytes for AC-3 and DTS, six
/// for LPCM, none for the others.
pub proof fn lemma_framing(key: StreamKey)
    ensures
        key_prefix(key) == 3 <==> key is Ac3 || key is Dts,
        key_prefix(key) == 6 <==> key is Lpcm,
        key_prefix(key) == 0 <==> key is Video || key is MpegAudio || key is Subpicture,
{
}

/// Exactly the elementary kinds have a key, each its own, with its own number.
pub proof fn lemma_keys_and_kinds(kind: StreamKind, key: StreamKey)
    ensures
        key_of_kind(kind_of_key(key)) == Some(key),
        key_of_kind(kind) matches Some(k) ==> kind_of_key(k) == kind,
        key_of_kind(kind) is None <==> kind is SystemHeader || kind is Padding || kind is NavPack
            || kind is Unknown,
        kind_of_key(key) is Video <==> key is Video,
        kind_of_key(key) is MpegAudio <==> key is MpegAudio,
        kind_of_key(key) is Ac3 <==> key is Ac3,
        kind_of_key(key) is Dts <==> key is Dts,
        kind_of_key(key) is Lpcm <==> key is Lpcm,
        kind_of_key(key) is Subpicture <==> key is Subpicture,
{
}

/// Each stream's file is named after its codec and its number.
pub proof fn lemma_file_names(n: u8)
    ensures
        key_filename(StreamKey::Video(n)) == "video."@ + hex_byte(n) + ".m2v"@,
        key_filename(StreamKey::MpegAudio(n)) == "audio.mpeg."@ + hex_byte(n) + ".mp2"@,
        key_filename(StreamKey::Ac3(n)) == "audio.ac3."@ + dec(n as nat) + ".ac3"@,
        key_filename(StreamKey::Dts(n)) == "audio.dts."@ + dec(n as nat) + ".dts"@,
        key_filename(StreamKey::Lpcm(n)) == "audio.lpcm."@ + dec(n as nat) + ".lpcm"@,
        key_filename(StreamKey::Subpicture(n)) == "subpicture."@ + dec(n as nat) + ".sup"@,
{
}

/// Streams are listed by kind, video first, then MPEG audio, AC-3, DTS, LPCM and
/// subpictures, and by number within a kind.
pub proof fn lemma_order_of_streams(a: u8, b: u8)
    ensures
        a < b ==> key_rank(StreamKey::Video(a)) < key_rank(StreamKey::Video(b)),
        a < b ==> key_rank(StreamKey::MpegAudio(a)) < key_rank(StreamKey::MpegAudio(b)),
        a < b ==> key_rank(StreamKey::Ac3(a)) < key_rank(StreamKey::Ac3(b)),
        a < b ==> key_rank(StreamKey::Dts(a)) < key_rank(StreamKey::Dts(b)),
        a < b ==> key_rank(StreamKey::Lpcm(a)) < key_rank(StreamKey::Lpcm(b)),
        a < b ==> key_rank(StreamKey::Subpicture(a)) < key_rank(StreamKey::Subpicture(b)),
        key_rank(StreamKey::Video(a)) < key_rank(StreamKey::MpegAudio(b)),
        key_rank(StreamKey::MpegAudio(a)) < key_rank(StreamKey::Ac3(b)),
        key_rank(StreamKey::Ac3(a)) < key_rank(StreamKey::Dts(b)),
        key_rank(StreamKey::Dts(a)) < key_rank(StreamKey::Lpcm(b)),
        key_rank(StreamKey::Lpcm(a)) < key_rank(StreamKey::Subpicture(b)),
{
}

/// A new demuxer has counted nothing and knows no stream; of a stream that was
/// not seen nothing is counted and nothing waits.
pub proof fn lemma_new_demuxer_knows_nothing(m: DemuxState, key: StreamKey)
    ensures
        start_demux().streams.dom() == Set::<StreamKey>::empty(),
        start_demux().sectors_processed == 0 && start_demux().pes_total == 0,
        start_demux().elementary_emitted_bytes == 0 && start_demux().dropped_pes_bytes == 0,
        start_demux().stripped_header_bytes == 0 && start_demux().discontinuity_boundaries == 0,
        start_demux().fap_resyncs_applied == 0 && start_demux().fap_bytes_skipped == 0,
        m.streams.contains_key(key) ==> record_of(m, key) == m.streams[key],
        !m.streams.contains_key(key) ==> {
            let r = record_of(m, key);
            &&& r.pes_count == 0 && r.pes_bytes == 0 && r.emitted_bytes == 0
            &&& !r.resync_pending && !r.first_bytes_set
            &&& r.magic_check == MagicCheck::Pending
        },
{
    assert(start_demux().streams.dom() =~= Set::<StreamKey>::empty());
}

/// The streams of a demuxer by their keys are its entries, each with its own
/// counts; what they emitted together is the sum over them.
pub proof fn lemma_entries_are_the_streams(v: Seq<StreamEntry>, i: int)
    requires
        entries_sorted(v),
    ensures
        0 <= i < v.len() ==> {
            let r = entries_map(v)[v[i].key];
            &&& entries_map(v).contains_key(v[i].key)
            &&& r.pes_count == v[i].stats.pes_count && r.pes_bytes == v[i].stats.pes_bytes
            &&& r.emitted_bytes == v[i].stats.emitted_bytes
            &&& r.magic_check == v[i].stats.magic_check
            &&& r.first_bytes == v[i].stats.first_bytes@
            &&& r.first_bytes_set == v[i].stats.first_bytes_set
            &&& r.resync_pending == v[i].resync_pending
        },
        streams_emitted(v) == v.fold_left(
            0int,
            |sum: int, e: StreamEntry| sum + e.stats.emitted_bytes,
        ),
    decreases v.len(),
{
    if 0 <= i < v.len() {
        let key = v[i].key;
        assert(entry_at(v, key, i));
        let j = choose|j: int| entry_at(v, key, j);
        assert(entry_at(v, key, j));
        assert(i == j) by {
            if i < j {
                assert(key_rank(v[i].key) < key_rank(v[j].key));
            } else if j < i {
                assert(key_rank(v[j].key) < key_rank(v[i].key));
            }
        }
    }
    if v.len() > 0 {
        let front = v.drop_last();
        assert(entries_sorted(front)) by {
            assert forall|a: int, b: int| 0 <= a < b < front.len() implies key_rank(
                #[trigger] front[a].key,
            ) < key_rank(#[trigger] front[b].key) by {
                assert(front[a] == v[a] && front[b] == v[b]);
            }
        }
        lemma_entries_are_the_streams(front, i);
    }
}

/// A run of packets is worked off one by one, in order: each is emitted from
/// the state that those before it left.
pub proof fn lemma_packets_in_order(m: DemuxState, packets: Seq<Pes>, p: Pes)
    ensures
        after_packets(m, Seq::empty()) == m,
        emissions(m, Seq::empty()).len() == 0,
        after_packets(m, packets.push(p)) == after_pes(after_packets(m, packets), p),
        emissions(m, packets.push(p)) == emissions(m, packets) + (match pes_emission(
            after_packets(m, packets),
            p,
        ) {
            Some(e) => seq![e],
            None => Seq::empty(),
        }),
{
    assert(packets.push(p).drop_last() =~= packets);
    let before = emissions(m, packets);
    if let Some(e) = pes_emission(after_packets(m, packets), p) {
        assert(before.push(e) =~= before + seq![e]);
    } else {
        assert(before + Seq::empty() =~= before);
    }
}

/// A sector is worked off packet by packet, and counts as one; a sector that
/// does not parse changes nothing.
pub proof fn lemma_sector_is_its_packets(m: DemuxState, sector: Seq<u8>)
    ensures
        match sector_of(sector) {
            Ok(c) => after_sector(m, sector) == (DemuxState {
                sectors_processed: after_packets(m, c.pes_packets).sectors_processed + 1,
                ..after_packets(m, c.pes_packets)
            }),
            Err(_) => after_sector(m, sector) == m,
        },
{
}

/// Where no stream waits for a resync, what a stream received, end to end, is
/// the payload of each of its packets behind the framing, end to end.
pub proof fn lemma_stream_is_its_payloads(
    m: DemuxState,
    packets: Seq<Pes>,
    key: StreamKey,
    framing: int,
)
    requires
        match key {
            StreamKey::Video(_) | StreamKey::MpegAudio(_) | StreamKey::Subpicture(_) => framing
                == 0,
            StreamKey::Ac3(_) | StreamKey::Dts(_) => framing == 3,
            StreamKey::Lpcm(_) => framing == 6,
        },
        forall|k: StreamKey| m.streams.contains_key(k) ==> !(#[trigger] m.streams[k]).resync_pending,
    ensures
        emissions(m, packets).map_values(
            |e: (StreamKey, Seq<u8>)|
                if e.0 == key {
                    e.1
                } else {
                    Seq::empty()
                },
        ).flatten() == packets.map_values(
            |p: Pes|
                if packet_is_of(p, key, framing) {
                    p.payload.skip(
                        if p.payload.len() < framing {
                            p.payload.len() as int
                        } else {
                            framing
                        },
                    )
                } else {
                    Seq::empty()
                },
        ).flatten(),
    decreases packets.len(),
{
    let f = |e: (StreamKey, Seq<u8>)|
        if e.0 == key {
            e.1
        } else {
            Seq::empty()
        };
    let g = |p: Pes|
        if packet_is_of(p, key, framing) {
            p.payload.skip(
                if p.payload.len() < framing {
                    p.payload.len() as int
                } else {
                    framing
                },
            )
        } else {
            Seq::empty()
        };
    let sent = emissions(m, packets);
    if packets.len() == 0 {
        assert(sent.map_values(f) =~= Seq::<Seq<u8>>::empty());
        assert(packets.map_values(g) =~= Seq::<Seq<u8>>::empty());
    } else {
        let front = packets.drop_last();
        let p = packets.last();
        let now = after_packets(m, front);
        let before = emissions(m, front);
        lemma_stream_is_its_payloads(m, front, key, framing);
        assert(no_resync_pending(m)) by {
            assert forall|k: StreamKey| #[trigger] record_of(m, k).resync_pending == false by {
                if m.streams.contains_key(k) {
                    assert(!m.streams[k].resync_pending);
                }
            }
        }
        lemma_output_is_concatenation(m, front, key);
        assert(record_of(now, key).resync_pending == false);
        assert forall|k: StreamKey| now.streams.contains_key(k) implies !(
        #[trigger] now.streams[k]).resync_pending by {
            assert(record_of(now, k).resync_pending == false);
        }
        assert(packets.map_values(g) =~= front.map_values(g).push(g(p)));
        front.map_values(g).lemma_flatten_push(g(p));
        let whole = before.map_values(f).flatten();
        assert(g(p) == (match pes_emission(now, p) {
            Some(e) if e.0 == key => e.1,
            _ => Seq::empty(),
        })) by {
            if packet_is_of(p, key, framing) {
                match key {
                    StreamKey::Ac3(n) => lemma_ac3_is_emitted(now, p, n),
                    StreamKey::Dts(n) => lemma_dts_is_emitted(now, p, n),
                    StreamKey::Lpcm(n) => lemma_lpcm_is_emitted(now, p, n),
                    _ => lemma_plain_streams_are_emitted(now, p, key),
                }
                let len = p.payload.len() as int;
                if len > framing {
                    assert(p.payload.skip(framing) =~= p.payload.subrange(framing, len));
                    if framing == 0 {
                        assert(p.payload.skip(0) =~= p.payload);
                    }
                } else {
                    assert(g(p) =~= Seq::<u8>::empty());
                }
            }
        }
        match pes_emission(now, p) {
            Some(e) => {
                assert(sent == before.push(e));
                assert(sent.map_values(f) =~= before.map_values(f).push(f(e)));
                before.map_values(f).lemma_flatten_push(f(e));
            },
            None => {
                assert(whole + Seq::<u8>::empty() =~= whole);
            },
        }
        if g(p).len() == 0 {
            assert(whole + g(p) =~= whole);
        }
    }
}

} // verus!
