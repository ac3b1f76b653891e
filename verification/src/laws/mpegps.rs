//! Laws of the pack and packet parser.
use vstd::prelude::*;
use crate::mpegps::{
    fault_message, has_pack_start, has_pes_start, hex_byte, hex_items, hex_list, kind_is_elementary,
    kind_label, kind_of, pack_header_of, pack_size, pes_at, pes_walk, sector_of, MpegPsFault,
    PackHeader, Pes, StreamKind,
};
use crate::text::{dec, hex_upper, pad_left};

verus! {

/// The kind of a packet goes by its ids: each elementary kind has its range,
/// numbers count from the start of the range, and whatever has no range is
/// unknown under its own ids.
pub proof fn lemma_kinds_have_their_ranges(id: u8, sub: Option<u8>)
    ensures
        kind_of(id, sub) matches StreamKind::Video(n) ==> n == id,
        kind_of(id, sub) is Video <==> 0xE0 <= id <= 0xEF,
        kind_of(id, sub) matches StreamKind::MpegAudio(n) ==> n == id,
        kind_of(id, sub) is MpegAudio <==> 0xC0 <= id <= 0xDF,
        kind_of(id, sub) is SystemHeader <==> id == 0xBB,
        kind_of(id, sub) is Padding <==> id == 0xBE,
        kind_of(id, sub) is NavPack <==> id == 0xBF,
        forall|n: u8| n < 8 ==> #[trigger] kind_of(0xBD, Some((0x80 + n) as u8)) == StreamKind::Ac3(n),
        forall|n: u8| n < 8 ==> #[trigger] kind_of(0xBD, Some((0x88 + n) as u8)) == StreamKind::Dts(n),
        forall|n: u8|
            n < 8 ==> #[trigger] kind_of(0xBD, Some((0xA0 + n) as u8)) == StreamKind::Lpcm(n),
        forall|n: u8|
            n < 32 ==> #[trigger] kind_of(0xBD, Some((0x20 + n) as u8)) == StreamKind::Subpicture(
                n,
            ),
        kind_of(id, sub) is Ac3 ==> id == 0xBD && (sub matches Some(s) && 0x80 <= s <= 0x87),
        kind_of(id, sub) is Dts ==> id == 0xBD && (sub matches Some(s) && 0x88 <= s <= 0x8F),
        kind_of(id, sub) is Lpcm ==> id == 0xBD && (sub matches Some(s) && 0xA0 <= s <= 0xA7),
        kind_of(id, sub) is Subpicture ==> id == 0xBD && (sub matches Some(s) && 0x20 <= s <= 0x3F),
        kind_of(id, sub) matches StreamKind::Unknown { stream_id, substream_id } ==> stream_id == id
            && substream_id == sub,
{
}

/// The kinds that carry an elementary stream are all but system headers,
/// padding, navigation and unknown ones.
pub proof fn lemma_elementary_kinds(k: StreamKind)
    ensures
        !kind_is_elementary(k) <==> k is SystemHeader || k is Padding || k is NavPack
            || k is Unknown,
{
}

/// Labels name the kind and its number.
pub proof fn lemma_labels(n: u8, sub: u8, b: u8)
    ensures
        kind_label(StreamKind::Video(n)) == "video MPEG-2 stream "@ + hex_byte(n),
        kind_label(StreamKind::MpegAudio(n)) == "MPEG audio stream "@ + hex_byte(n),
        kind_label(StreamKind::Ac3(n)) == "AC-3 audio stream "@ + dec(n as nat),
        kind_label(StreamKind::Dts(n)) == "DTS audio stream "@ + dec(n as nat),
        kind_label(StreamKind::Lpcm(n)) == "LPCM audio stream "@ + dec(n as nat),
        kind_label(StreamKind::Subpicture(n)) == "subpicture stream "@ + dec(n as nat),
        kind_label(StreamKind::SystemHeader) == "system header"@,
        kind_label(StreamKind::Padding) == "padding"@,
        kind_label(StreamKind::NavPack) == "NV_PCK (navigation)"@,
        kind_label(StreamKind::Unknown { stream_id: n, substream_id: Some(sub) })
            == "unknown stream "@ + hex_byte(n) + "/"@ + hex_byte(sub),
        kind_label(StreamKind::Unknown { stream_id: n, substream_id: None }) == "unknown stream "@
            + hex_byte(n),
        hex_byte(b) == "0x"@ + pad_left(hex_upper(b as nat), 2, '0'),
{
}

/// Faults are told with all that they carry; bytes are listed in order.
pub proof fn lemma_fault_texts(
    what: Seq<char>,
    a: nat,
    b: nat,
    at: nat,
    bytes: Seq<u8>,
    x: u8,
    start: Seq<u8>,
)
    ensures
        fault_message(MpegPsFault::TooShort { what, need: a as int, have: b as int })
            == "buffer too short for "@ + what + ": need "@ + dec(a) + " bytes, have "@ + dec(b),
        fault_message(MpegPsFault::BadPackStart { actual: bytes })
            == "expected pack-start code 00 00 01 BA, got "@ + hex_list(bytes),
        fault_message(MpegPsFault::BadPesStart { actual: bytes, offset: at as int })
            == "expected PES start code 00 00 01, got "@ + hex_list(bytes) + " at offset "@ + dec(
            at,
        ),
        fault_message(
            MpegPsFault::OversizePes { length: a as int, remaining: b as int, offset: at as int },
        ) == "PES packet length "@ + dec(a) + " exceeds sector remaining "@ + dec(b)
            + " at offset "@ + dec(at),
        hex_list(bytes) == "["@ + hex_items(bytes) + "]"@,
        hex_items(seq![x]) == pad_left(hex_upper(x as nat), 2, '0'),
        bytes.len() > 0 ==> hex_items(bytes.push(x)) == hex_items(bytes) + ", "@ + pad_left(
            hex_upper(x as nat),
            2,
            '0',
        ),
        start.len() >= 4 ==> (has_pack_start(start) <==> start[0] == 0 && start[1] == 0 && start[2]
            == 1 && start[3] == 0xBA),
{
    assert(bytes.push(x).drop_last() =~= bytes);
    assert(seq![x].drop_last() =~= Seq::<u8>::empty());
    let one = pad_left(hex_upper(x as nat), 2, '0');
    assert(hex_items(seq![x]) =~= one) by {
        assert(hex_items(Seq::<u8>::empty()) =~= Seq::<char>::empty());
    }
}

/// Reading a pack header gives back every field that was written into it,
/// whatever follows: the clock in groups of 3, 2, 8, 5, 2, 8 and 5 bits, its
/// extension in 2 and 7 bits, the rate in 22 bits, with markers between them.
pub proof fn lemma_pack_header_reads_back(
    b: Seq<u8>,
    scr: int,
    ext: int,
    rate: int,
    stuffing: int,
)
    requires
        b.len() >= 14,
        b[0] == 0 && b[1] == 0 && b[2] == 1 && b[3] == 0xBA,
        b[4] as int == 0x44 + scr / 0x4000_0000 * 8 + scr / 0x1000_0000 % 4,
        b[5] as int == scr / 0x10_0000 % 256,
        b[6] as int == scr / 0x8000 % 32 * 8 + 4 + scr / 0x2000 % 4,
        b[7] as int == scr / 0x20 % 256,
        b[8] as int == scr % 32 * 8 + 4 + ext / 128,
        b[9] as int == ext % 128 * 2 + 1,
        b[10] as int == rate / 0x4000,
        b[11] as int == rate / 0x40 % 256,
        b[12] as int == rate % 64 * 4 + 3,
        b[13] as int == 0xF8 + stuffing,
        0 <= scr < 0x2_0000_0000,
        0 <= ext < 512,
        0 <= rate < 0x40_0000,
        0 <= stuffing < 8,
    ensures
        pack_header_of(b) matches Ok(p) && {
            &&& p.scr_base == scr
            &&& p.scr_ext == ext
            &&& p.program_mux_rate == rate
            &&& p.stuffing_length == stuffing
            &&& p.markers_ok
        },
{
    lemma_scr_groups(scr);
    lemma_bits(0x44, scr / 0x4000_0000, scr / 0x1000_0000 % 4);
    lemma_bits(4, scr / 0x8000 % 32, scr / 0x2000 % 4);
    lemma_bits(4, scr % 32, ext / 128);
    assert(rate / 0x4000 == rate / 0x40 / 256);
    assert((ext % 128 * 2 + 1) / 2 == ext % 128);
    assert((ext % 128 * 2 + 1) % 2 == 1);
    assert((rate % 64 * 4 + 3) / 4 == rate % 64);
    assert((rate % 64 * 4 + 3) / 2 % 2 == 1);
    assert((rate % 64 * 4 + 3) % 2 == 1);
    assert((0xF8 + stuffing) % 8 == stuffing);
    assert(pack_header_of(b) is Ok);
    let p = pack_header_of(b)->Ok_0;
    assert(p.scr_base == scr);
    assert(p.scr_ext == ext);
    assert(p.program_mux_rate == rate);
}

proof fn lemma_scr_groups(v: int)
    requires
        0 <= v < 0x2_0000_0000,
    ensures
        v == v / 0x4000_0000 * 0x4000_0000 + v / 0x1000_0000 % 4 * 0x1000_0000 + v / 0x10_0000 % 256
            * 0x10_0000 + v / 0x8000 % 32 * 0x8000 + v / 0x2000 % 4 * 0x2000 + v / 0x20 % 256 * 0x20
            + v % 32,
        v / 0x4000_0000 < 8,
{
    assert(v / 0x2000 == v / 0x20 / 256);
    assert(v / 0x8000 == v / 0x2000 / 4);
    assert(v / 0x10_0000 == v / 0x8000 / 32);
    assert(v / 0x1000_0000 == v / 0x10_0000 / 256);
    assert(v / 0x4000_0000 == v / 0x1000_0000 / 4);
}

proof fn lemma_bits(base: int, high: int, low: int)
    requires
        base == 4 || base == 0x44,
        0 <= low < 4,
        0 <= high < 32,
        base == 0x44 ==> high < 8,
    ensures
        0 <= base + high * 8 + low < 256,
        (base + high * 8 + low) % 4 == low,
        (base + high * 8 + low) / 4 % 2 == 1,
        base == 4 ==> (base + high * 8 + low) / 8 == high,
        base == 0x44 ==> (base + high * 8 + low) / 8 % 8 == high,
{
}

/// A pack header is accepted exactly where fourteen bytes begin with
/// `00 00 01 BA`; the markers are fine exactly where all six bits are set, and
/// the low three bits of the last byte are the stuffing.
pub proof fn lemma_pack_header_accepted(b: Seq<u8>)
    ensures
        pack_header_of(b) is Ok <==> b.len() >= 14 && b[0] == 0 && b[1] == 0 && b[2] == 1 && b[3]
            == 0xBA,
        b.len() < 14 ==> (pack_header_of(b) matches Err(MpegPsFault::TooShort { need, have, .. })
            && need == 14 && have == b.len()),
        b.len() >= 14 && pack_header_of(b) is Err ==> pack_header_of(b) == Err::<
            PackHeader,
            MpegPsFault,
        >(MpegPsFault::BadPackStart { actual: b.subrange(0, 4) }),
        pack_header_of(b) matches Ok(p) ==> {
            &&& p.markers_ok <==> b[4] / 4 % 2 == 1 && b[6] / 4 % 2 == 1 && b[8] / 4 % 2 == 1
                && b[9] % 2 == 1 && b[12] % 4 == 3
            &&& p.stuffing_length == b[13] % 8
            &&& pack_size(p) == 14 + b[13] % 8
        },
{
    if b.len() >= 14 {
        assert(b.subrange(0, 4) =~= b.take(4));
        let x = b[12];
        assert(x as int % 4 == 3 <==> x as int / 2 % 2 == 1 && x as int % 2 == 1);
    }
}

/// A packet reads back wherever it stands: its ids, its size, and the whole
/// body as payload, less the substream byte on the two private streams.
pub proof fn lemma_packet_reads_back(
    front: Seq<u8>,
    id: u8,
    flags: (u8, u8),
    data: Seq<u8>,
    body: Seq<u8>,
    packet: Seq<u8>,
    rest: Seq<u8>,
)
    requires
        id != 0xBB && id != 0xBC && id != 0xBE,
        packet == ({
            let length = 3 + data.len() + body.len();
            seq![
                0u8,
                0u8,
                1u8,
                id,
                (length / 256) as u8,
                (length % 256) as u8,
                flags.0,
                flags.1,
                data.len() as u8,
            ] + data + body
        }),
        data.len() < 256,
        3 + data.len() + body.len() < 0x1_0000,
    ensures
        pes_at(front + packet + rest, front.len() as int) matches Ok(p) && {
            &&& p.stream_id == id
            &&& p.sector_offset == front.len()
            &&& p.total_size == 9 + data.len() + body.len()
            &&& p.raw == packet
            &&& (id == 0xBD || id == 0xBF) && body.len() > 0 ==> {
                &&& p.substream_id == Some(body[0])
                &&& p.payload == body.skip(1)
                &&& p.header_size == 10 + data.len()
            }
            &&& !((id == 0xBD || id == 0xBF) && body.len() > 0) ==> {
                &&& p.substream_id is None
                &&& p.payload == body
                &&& p.header_size == 9 + data.len()
            }
        },
{
    let buf = front + packet + rest;
    let at = front.len() as int;
    let length = 3 + data.len() + body.len();
    assert(buf[at] == packet[0] && buf[at + 1] == packet[1] && buf[at + 2] == packet[2]);
    assert(buf[at + 3] == id && buf[at + 4] == packet[4] && buf[at + 5] == packet[5]);
    assert(packet[4] * 256 + packet[5] == length);
    assert(buf.subrange(at, at + 6 + length) =~= packet);
    assert(packet[8] == data.len());
    let p = pes_at(buf, at)->Ok_0;
    assert(pes_at(buf, at) is Ok);
    if (id == 0xBD || id == 0xBF) && body.len() > 0 {
        assert(packet[9 + data.len() as int] == body[0]);
        assert(packet.skip(10 + data.len() as int) =~= body.skip(1));
    } else {
        assert(packet.skip(9 + data.len() as int) =~= body);
    }
}

/// System headers, stream maps and padding have no payload, whatever stands
/// in them.
pub proof fn lemma_filler_has_no_payload(front: Seq<u8>, id: u8, body: Seq<u8>, rest: Seq<u8>)
    requires
        id == 0xBB || id == 0xBC || id == 0xBE,
        body.len() < 0x1_0000,
    ensures
        ({
            let packet = seq![
                0u8,
                0u8,
                1u8,
                id,
                (body.len() / 256) as u8,
                (body.len() % 256) as u8,
            ] + body;
            pes_at(front + packet + rest, front.len() as int) matches Ok(p) && p.stream_id == id
                && p.payload.len() == 0 && p.substream_id is None && p.total_size == 6 + body.len()
                && p.header_size == 6 + body.len() && p.raw == packet
        }),
{
    let packet = seq![
        0u8,
        0u8,
        1u8,
        id,
        (body.len() / 256) as u8,
        (body.len() % 256) as u8,
    ] + body;
    let buf = front + packet + rest;
    let at = front.len() as int;
    assert(buf[at] == packet[0] && buf[at + 1] == packet[1] && buf[at + 2] == packet[2]);
    assert(buf[at + 3] == id && buf[at + 4] == packet[4] && buf[at + 5] == packet[5]);
    assert(buf.subrange(at, at + 6 + body.len()) =~= packet);
}

/// A packet is refused exactly where its six first bytes are not there, do not
/// begin with `00 00 01`, announce more than is left, or announce less than the
/// rest of a plain header.
pub proof fn lemma_packet_refused(b: Seq<u8>, at: int)
    requires
        0 <= at <= b.len(),
    ensures
        pes_at(b, at) is Ok <==> {
            let length = b[at + 4] * 256 + b[at + 5];
            &&& b.len() - at >= 6
            &&& b[at] == 0 && b[at + 1] == 0 && b[at + 2] == 1
            &&& length <= b.len() - at - 6
            &&& b[at + 3] == 0xBB || b[at + 3] == 0xBC || b[at + 3] == 0xBE || length >= 3
        },
        b.len() - at < 6 ==> (pes_at(b, at) matches Err(MpegPsFault::TooShort { need, have, .. })
            && need == 6 && have == b.len() - at),
        b.len() - at >= 6 && !(b[at] == 0 && b[at + 1] == 0 && b[at + 2] == 1) ==> (pes_at(
            b,
            at,
        ) matches Err(MpegPsFault::BadPesStart { offset, actual }) && offset == at && actual
            == b.subrange(at, at + 3)),
        b.len() - at >= 6 && b[at] == 0 && b[at + 1] == 0 && b[at + 2] == 1 && b[at + 4] * 256 + b[at
            + 5] > b.len() - at - 6 ==> pes_at(b, at) == Err::<Pes, MpegPsFault>(
            MpegPsFault::OversizePes {
                length: b[at + 4] * 256 + b[at + 5],
                remaining: b.len() - at,
                offset: at,
            },
        ),
{
}

proof fn lemma_walk(b: Seq<u8>, at: int)
    requires
        0 <= at <= b.len(),
    ensures
        pes_walk(b, at) matches Ok((packets, end)) ==> {
            &&& at <= end <= b.len()
            &&& b.len() - end < 6 || !(b[end] == 0 && b[end + 1] == 0 && b[end + 2] == 1)
            &&& packets.len() == 0 ==> end == at
            &&& packets.len() > 0 ==> packets[0].sector_offset == at && packets.last().sector_offset
                + packets.last().total_size == end
            &&& forall|i: int|
                0 <= i < packets.len() ==> pes_at(b, #[trigger] packets[i].sector_offset) == Ok::<
                    Pes,
                    MpegPsFault,
                >(packets[i])
            &&& forall|i: int|
                #![trigger packets[i]]
                0 <= i < packets.len() - 1 ==> packets[i + 1].sector_offset
                    == packets[i].sector_offset + packets[i].total_size
        },
        pes_walk(b, at) matches Err(e) ==> exists|q: int|
            at <= q < b.len() && #[trigger] pes_at(b, q) == Err::<Pes, MpegPsFault>(e),
    decreases b.len() - at,
{
    if at + 6 > b.len() || !has_pes_start(b, at) {
    } else if let Ok(p) = pes_at(b, at) {
        assert(p.sector_offset == at);
        lemma_walk(b, at + p.total_size);
        if let Ok((rest, end)) = pes_walk(b, at + p.total_size) {
            let packets = seq![p] + rest;
            assert(pes_walk(b, at) == Ok::<(Seq<Pes>, int), MpegPsFault>((packets, end)));
            assert forall|i: int| 0 <= i < packets.len() implies pes_at(
                b,
                #[trigger] packets[i].sector_offset,
            ) == Ok::<Pes, MpegPsFault>(packets[i]) by {
                if i > 0 {
                    assert(packets[i] == rest[i - 1]);
                }
            }
            assert forall|i: int|
                #![trigger packets[i]]
                0 <= i < packets.len() - 1 implies packets[i + 1].sector_offset
                == packets[i].sector_offset + packets[i].total_size by {
                assert(packets[i + 1] == rest[i]);
                if i > 0 {
                    assert(packets[i] == rest[i - 1]);
                }
            }
            if rest.len() > 0 {
                assert(packets.last() == rest.last());
            }
        }
    }
}

/// A scanned sector lists every packet: the first stands behind the pack
/// header with its stuffing, each next one where the one before it ends, each
/// is what stands at its place, and behind the last no start code stands, or
/// fewer than six bytes are left. Only the first 2048 bytes count.
pub proof fn lemma_sector_lists_every_packet(sector: Seq<u8>)
    ensures
        sector.len() < 2048 ==> (sector_of(sector) matches Err(
            MpegPsFault::TooShort { need, have, .. },
        ) && need == 2048 && have == sector.len()),
        sector.len() >= 2048 ==> sector_of(sector) == sector_of(sector.take(2048)),
        sector_of(sector) matches Ok(c) ==> {
            let b = sector.take(2048);
            let packets = c.pes_packets;
            let end = 2048 - c.trailing_unknown_bytes;
            &&& pack_header_of(b) == Ok::<PackHeader, MpegPsFault>(c.pack_header)
            &&& 14 + b[13] % 8 <= end <= 2048
            &&& 2048 - end < 6 || !(b[end] == 0 && b[end + 1] == 0 && b[end + 2] == 1)
            &&& packets.len() == 0 ==> end == 14 + b[13] % 8
            &&& packets.len() > 0 ==> packets[0].sector_offset == 14 + b[13] % 8
                && packets.last().sector_offset + packets.last().total_size == end
            &&& forall|i: int|
                0 <= i < packets.len() ==> pes_at(b, #[trigger] packets[i].sector_offset) == Ok::<
                    Pes,
                    MpegPsFault,
                >(packets[i])
            &&& forall|i: int|
                #![trigger packets[i]]
                0 <= i < packets.len() - 1 ==> packets[i + 1].sector_offset
                    == packets[i].sector_offset + packets[i].total_size
        },
        sector.len() >= 2048 && pack_header_of(sector) is Ok ==> (sector_of(sector) matches Err(e)
            ==> exists|q: int|
            14 <= q < 2048 && #[trigger] pes_at(sector.take(2048), q) == Err::<Pes, MpegPsFault>(
                e,
            )),
{
    if sector.len() >= 2048 {
        let b = sector.take(2048);
        assert(b.take(2048) =~= b);
        assert(b.take(4) =~= sector.take(4));
        if let Ok(pack) = pack_header_of(b) {
            lemma_walk(b, pack_size(pack));
        }
    }
}

} // verus!
