//! Laws of the subtitle files.
use vstd::prelude::*;
use crate::mpegps::pack_header_of;
use crate::text::{dec, hex_lower, pad_left};
use crate::vobsub::{
    idx_line, idx_lines, idx_preamble, idx_text, lemma_pack_header_round_trip,
    lemma_pts_round_trip, lemma_sector_shape, pack_header_with, padding, palette_item, palette_items, pts_bytes,
    pts_field, pts_value, rgb_of, spu_capacity, spu_packet, spu_packet_lead, sub_error_message,
    sub_sector, VobSubEntry, CLOCK_SPAN, MAX_SPU_NO_PTS, MAX_SPU_WITH_PTS,
};

verus! {

/// One more subtitle is exactly one more line at the end of the index.
pub proof fn lemma_index_grows_by_a_line(
    palette: Seq<u32>,
    lang: Seq<char>,
    width: u32,
    height: u32,
    entries: Seq<VobSubEntry>,
    e: VobSubEntry,
)
    ensures
        idx_text(palette, lang, width, height, entries.push(e)) == idx_text(
            palette,
            lang,
            width,
            height,
            entries,
        ) + idx_line(e),
{
    assert(entries.push(e).drop_last() =~= entries);
    let head = idx_preamble(width, height) + "palette: "@ + palette_items(palette) + "\n"@ + "# \n"@
        + "# end\n"@ + "\n"@ + "id: "@ + lang + ", index: 0\n"@;
    assert(head + (idx_lines(entries) + idx_line(e)) =~= (head + idx_lines(entries)) + idx_line(e));
}

/// The index is its head, which no subtitle changes, and the lines of all
/// subtitles in order, one for each.
pub proof fn lemma_index_has_every_subtitle(
    palette: Seq<u32>,
    lang: Seq<char>,
    width: u32,
    height: u32,
    entries: Seq<VobSubEntry>,
)
    ensures
        idx_text(palette, lang, width, height, entries) == idx_text(
            palette,
            lang,
            width,
            height,
            Seq::empty(),
        ) + entries.map_values(|e: VobSubEntry| idx_line(e)).flatten(),
    decreases entries.len(),
{
    let f = |e: VobSubEntry| idx_line(e);
    let head = idx_text(palette, lang, width, height, Seq::empty());
    if entries.len() == 0 {
        assert(entries =~= Seq::empty());
        assert(entries.map_values(f) =~= Seq::<Seq<char>>::empty());
        assert(head + Seq::<char>::empty() =~= head);
    } else {
        let front = entries.drop_last();
        let e = entries.last();
        lemma_index_has_every_subtitle(palette, lang, width, height, front);
        assert(front.push(e) =~= entries);
        lemma_index_grows_by_a_line(palette, lang, width, height, front, e);
        assert(entries.map_values(f) =~= front.map_values(f).push(f(e)));
        front.map_values(f).lemma_flatten_push(f(e));
        assert(head + (front.map_values(f).flatten() + f(e)) =~= (head + front.map_values(
            f,
        ).flatten()) + f(e));
    }
}

/// The head of the index: the size of the picture, the palette and the language
/// among lines that are always the same.
pub proof fn lemma_index_head(palette: Seq<u32>, lang: Seq<char>, width: u32, height: u32)
    ensures
        ({
            let fixed = "org: 0, 0\n"@ + "alpha: 100%\n"@ + "smooth: OFF\n"@
                + "fadein/out: 50, 50\n"@ + "align: OFF at LEFT TOP\n"@ + "time offset: 0\n"@
                + "forced subs: OFF\n"@ + "langidx: 0\n"@;
            idx_text(palette, lang, width, height, Seq::empty())
                =~= "# VobSub index file, v7 (do not modify this line!)\n"@ + "# \n"@
                + "# This index block was generated by disc-remuxer\n"@ + "# \n"@ + "size: "@ + dec(
                width as nat,
            ) + "x"@ + dec(height as nat) + "\n"@ + fixed + "palette: "@ + palette_items(palette)
                + "\n"@ + "# \n"@ + "# end\n"@ + "\n"@ + "id: "@ + lang + ", index: 0\n"@
        }),
{
    let size = "# VobSub index file, v7 (do not modify this line!)\n"@ + "# \n"@
        + "# This index block was generated by disc-remuxer\n"@ + "# \n"@ + "size: "@ + dec(
        width as nat,
    ) + "x"@ + dec(height as nat) + "\n"@;
    let fixed = "org: 0, 0\n"@ + "alpha: 100%\n"@ + "smooth: OFF\n"@ + "fadein/out: 50, 50\n"@
        + "align: OFF at LEFT TOP\n"@ + "time offset: 0\n"@ + "forced subs: OFF\n"@
        + "langidx: 0\n"@;
    assert(idx_preamble(width, height) =~= size + fixed);
    let head = idx_preamble(width, height) + "palette: "@ + palette_items(palette) + "\n"@ + "# \n"@
        + "# end\n"@ + "\n"@ + "id: "@ + lang + ", index: 0\n"@;
    assert(head + Seq::<char>::empty() =~= head);
}

/// The line of a subtitle names the hours, minutes, seconds and milliseconds
/// that its 90 kHz clock comes to, and its place in hexadecimal.
pub proof fn lemma_index_line_names_time_and_place(
    e: VobSubEntry,
    hours: nat,
    minutes: nat,
    seconds: nat,
    millis: nat,
    ticks: nat,
)
    requires
        e.pts_90khz == (((hours * 60 + minutes) * 60 + seconds) * 1000 + millis) * 90 + ticks,
        minutes < 60,
        seconds < 60,
        millis < 1000,
        ticks < 90,
    ensures
        idx_line(e) == "timestamp: "@ + pad_left(dec(hours), 2, '0') + ":"@ + pad_left(
            dec(minutes),
            2,
            '0',
        ) + ":"@ + pad_left(dec(seconds), 2, '0') + ":"@ + pad_left(dec(millis), 3, '0')
            + ", filepos: "@ + pad_left(hex_lower(e.filepos as nat), 9, '0') + "\n"@,
{
    lemma_clock_parts(e.pts_90khz as nat, hours, minutes, seconds, millis, ticks);
}

proof fn lemma_clock_parts(pts: nat, hours: nat, minutes: nat, seconds: nat, millis: nat, ticks: nat)
    requires
        pts == (((hours * 60 + minutes) * 60 + seconds) * 1000 + millis) * 90 + ticks,
        minutes < 60,
        seconds < 60,
        millis < 1000,
        ticks < 90,
    ensures
        pts / 90 / 3_600_000 == hours,
        pts / 90 / 60_000 % 60 == minutes,
        pts / 90 / 1_000 % 60 == seconds,
        pts / 90 % 1_000 == millis,
{
    let ms = pts / 90;
    let total = (hours * 60 + minutes) * 60 + seconds;
    assert(ms == total * 1000 + millis);
    assert(ms / 1000 == total);
    assert(total / 60 == hours * 60 + minutes);
    assert(ms / 60_000 == total / 60);
    assert(ms / 3_600_000 == total / 60 / 60);
}

/// The palette has one entry of six characters for each colour, with a comma
/// and a space between them.
pub proof fn lemma_palette_lists_every_colour(palette: Seq<u32>, entry: u32)
    ensures
        palette_items(Seq::empty()).len() == 0,
        palette_items(seq![entry]) == palette_item(entry),
        palette.len() > 0 ==> palette_items(palette.push(entry)) == palette_items(palette) + ", "@
            + palette_item(entry),
        palette_item(entry).len() == 6,
        palette_item(entry).subrange(0, 2) == pad_left(hex_lower(rgb_of(entry).0 as nat), 2, '0'),
        palette_item(entry).subrange(2, 4) == pad_left(hex_lower(rgb_of(entry).1 as nat), 2, '0'),
        palette_item(entry).subrange(4, 6) == pad_left(hex_lower(rgb_of(entry).2 as nat), 2, '0'),
{
    reveal(palette_item);
    let one = seq![entry];
    assert(one.drop_last() =~= Seq::<u32>::empty());
    assert(palette_items(one) =~= palette_item(entry)) by {
        assert(palette_items(Seq::<u32>::empty()) =~= Seq::<char>::empty());
    }
    assert(palette.push(entry).drop_last() =~= palette);
    let (r, g, b) = rgb_of(entry);
    lemma_two_digits(r);
    lemma_two_digits(g);
    lemma_two_digits(b);
    assert(palette_item(entry).subrange(0, 2) =~= pad_left(hex_lower(r as nat), 2, '0'));
    assert(palette_item(entry).subrange(2, 4) =~= pad_left(hex_lower(g as nat), 2, '0'));
    assert(palette_item(entry).subrange(4, 6) =~= pad_left(hex_lower(b as nat), 2, '0'));
}

proof fn lemma_two_digits(b: u8)
    ensures
        pad_left(hex_lower(b as nat), 2, '0').len() == 2,
{
    reveal_with_fuel(hex_lower, 3);
}

/// Each channel of a palette colour is the byte nearest to what the BT.601
/// matrix gives, held within a byte: red from `Y + 1.402 (Cr - 128)`, green from
/// `Y - 0.344136 (Cb - 128) - 0.714136 (Cr - 128)`, blue from
/// `Y + 1.772 (Cb - 128)`.
pub proof fn lemma_colour_is_nearest(y: u8, cr: u8, cb: u8)
    ensures
        ({
            let (r, g, b) = rgb_of((y as u32 * 65536 + cr as u32 * 256 + cb as u32) as u32);
            let red = 1000 * y + 1402 * (cr - 128);
            let green = 1_000_000 * y - 344_136 * (cb - 128) - 714_136 * (cr - 128);
            let blue = 1000 * y + 1772 * (cb - 128);
            &&& 0 <= red <= 255_000 ==> -500 <= 1000 * r - red <= 500
            &&& red < 0 ==> r == 0
            &&& red > 255_000 ==> r == 255
            &&& 0 <= green <= 255_000_000 ==> -500_000 <= 1_000_000 * g - green <= 500_000
            &&& green < 0 ==> g == 0
            &&& green > 255_000_000 ==> g == 255
            &&& 0 <= blue <= 255_000 ==> -500 <= 1000 * b - blue <= 500
            &&& blue < 0 ==> b == 0
            &&& blue > 255_000 ==> b == 255
        }),
{
    let x = y as int * 65536 + cr as int * 256 + cb as int;
    assert(x / 65536 % 256 == y as int);
    assert(x / 256 % 256 == cr as int);
    assert(x % 256 == cb as int);
}

/// A sector takes as many subpicture bytes as 2048 bytes leave beside the pack
/// header of 14 bytes and a packet header of 15 with a time stamp, 10 without.
pub proof fn lemma_sector_capacity()
    ensures
        MAX_SPU_WITH_PTS == 2048 - 14 - 15,
        MAX_SPU_NO_PTS == 2048 - 14 - 10,
        forall|p: u64| #[trigger] spu_capacity(Some(p)) == 2019,
        spu_capacity(None) == 2024,
{
}

/// What a sector with a time stamp holds, byte by byte: the pack header with
/// the clock, a private stream packet with its length, the time stamp, the
/// substream id and the subpicture bytes, and filler to the end.
pub proof fn lemma_subtitle_sector_bytes(id: u8, scr: u64, pts: u64, spu: Seq<u8>)
    requires
        spu.len() <= 2019,
    ensures
        ({
            let b = sub_sector(id, scr, Some(pts), spu);
            let end = 29 + spu.len() as int;
            &&& b.len() == 2048
            &&& b[0] == 0 && b[1] == 0 && b[2] == 1 && b[3] == 0xBA
            &&& pack_header_of(b) matches Ok(h) && h.scr_base == scr as int % 0x2_0000_0000
                && h.stuffing_length == 0 && h.markers_ok && h.scr_ext == 0
            &&& b[14] == 0 && b[15] == 0 && b[16] == 1 && b[17] == 0xBD
            &&& b[18] as int * 256 + b[19] as int == 9 + spu.len()
            &&& b[20] == 0x81 && b[21] == 0x80 && b[22] == 5
            &&& b[23] as int / 16 == 2 && b[23] % 2 == 1 && b[25] % 2 == 1 && b[27] % 2 == 1
            &&& (b[23] as int / 2 % 8) * 0x4000_0000 + b[24] * 0x40_0000 + (b[25] as int / 2)
                * 0x8000 + b[26] * 0x80 + b[27] as int / 2 == pts as int % 0x2_0000_0000
            &&& b[28] == id
            &&& b.subrange(29, end) == spu
            &&& end <= 2042 ==> {
                &&& b[end] == 0 && b[end + 1] == 0 && b[end + 2] == 1 && b[end + 3] == 0xBE
                &&& b[end + 4] as int * 256 + b[end + 5] as int == 2048 - end - 6
                &&& forall|i: int| end + 6 <= i < 2048 ==> #[trigger] b[i] == 0xFF
            }
            &&& end > 2042 ==> forall|i: int| end <= i < 2048 ==> #[trigger] b[i] == 0
        }),
{
    let b = sub_sector(id, scr, Some(pts), spu);
    let end = 29 + spu.len() as int;
    lemma_sector_layout(id, scr, Some(pts), spu);
    let packet = b.subrange(14, end);
    assert(forall|i: int| 0 <= i < packet.len() ==> #[trigger] packet[i] == b[14 + i]);
    lemma_stamped_packet_bytes(id, pts, spu);
    lemma_filler(b, end);
    assert(b.subrange(29, end) =~= packet.subrange(15, packet.len() as int));
    assert(packet[0] == b[14] && packet[1] == b[15] && packet[2] == b[16] && packet[3] == b[17]);
    assert(packet[4] == b[18] && packet[5] == b[19] && packet[6] == b[20] && packet[7] == b[21]);
    assert(packet[8] == b[22] && packet[9] == b[23] && packet[10] == b[24] && packet[11] == b[25]);
    assert(packet[12] == b[26] && packet[13] == b[27] && packet[14] == b[28]);
}

/// A sector is its pack header, its packet and its filler.
proof fn lemma_sector_layout(id: u8, scr: u64, pts: Option<u64>, spu: Seq<u8>)
    requires
        spu.len() <= spu_capacity(pts),
    ensures
        ({
            let b = sub_sector(id, scr, pts, spu);
            let end = 14 + spu_packet(id, pts, spu).len() as int;
            &&& b.len() == 2048
            &&& end <= 2048
            &&& b[0] == 0 && b[1] == 0 && b[2] == 1 && b[3] == 0xBA
            &&& b.subrange(14, end) == spu_packet(id, pts, spu)
            &&& b.subrange(end, 2048) == padding(2048 - end)
            &&& pack_header_of(b) matches Ok(h) && h.scr_base == scr as int % 0x2_0000_0000
                && h.stuffing_length == 0 && h.markers_ok && h.scr_ext == 0
        }),
{
    let b = sub_sector(id, scr, pts, spu);
    let packet = spu_packet(id, pts, spu);
    let end = 14 + packet.len() as int;
    lemma_sector_shape(id, scr, pts, spu);
    lemma_header_len(scr);
    assert(b.subrange(14, end) =~= packet);
    assert(b.subrange(end, 2048) =~= padding(2048 - end));
    assert(pack_header_with(scr as int) + b.skip(14) =~= b);
    lemma_pack_header_round_trip(scr as int, b.skip(14));
}

proof fn lemma_header_len(scr: u64)
    ensures
        pack_header_with(scr as int).len() == 14,
{
    reveal(pack_header_with);
}

proof fn lemma_stamped_packet_bytes(id: u8, pts: u64, spu: Seq<u8>)
    requires
        spu.len() <= 2019,
    ensures
        ({
            let p = spu_packet(id, Some(pts), spu);
            &&& p.len() == 15 + spu.len()
            &&& p[0] == 0 && p[1] == 0 && p[2] == 1 && p[3] == 0xBD
            &&& p[4] as int * 256 + p[5] as int == 9 + spu.len()
            &&& p[6] == 0x81 && p[7] == 0x80 && p[8] == 5
            &&& p[9] as int / 16 == 2 && p[9] % 2 == 1 && p[11] % 2 == 1 && p[13] % 2 == 1
            &&& (p[9] as int / 2 % 8) * 0x4000_0000 + p[10] * 0x40_0000 + (p[11] as int / 2)
                * 0x8000 + p[12] * 0x80 + p[13] as int / 2 == pts as int % 0x2_0000_0000
            &&& p[14] == id
            &&& p.subrange(15, p.len() as int) == spu
        }),
{
    let p = spu_packet(id, Some(pts), spu);
    let lead = spu_packet_lead(Some(pts), spu.len() as int);
    let stamp = pts_field(2, pts as int);
    assert(pts_bytes(Some(pts)) == stamp);
    assert(lead.len() == 9 && stamp.len() == 5);
    assert(p[0] == lead[0] && p[1] == lead[1] && p[2] == lead[2] && p[3] == lead[3]);
    assert(p[4] == lead[4] && p[5] == lead[5] && p[6] == lead[6] && p[7] == lead[7]);
    assert(p[8] == lead[8]);
    assert(p[9] == stamp[0] && p[10] == stamp[1] && p[11] == stamp[2]);
    assert(p[12] == stamp[3] && p[13] == stamp[4]);
    lemma_pts_round_trip(2, pts as int);
    lemma_stamp_bits(pts as int % 0x2_0000_0000);
    assert(p.subrange(15, p.len() as int) =~= spu);
}

/// What a sector without a time stamp holds, byte by byte.
pub proof fn lemma_continuation_sector_bytes(id: u8, scr: u64, spu: Seq<u8>)
    requires
        spu.len() <= 2024,
    ensures
        ({
            let b = sub_sector(id, scr, None, spu);
            let end = 24 + spu.len() as int;
            &&& b.len() == 2048
            &&& pack_header_of(b) matches Ok(h) && h.scr_base == scr as int % 0x2_0000_0000
                && h.stuffing_length == 0 && h.markers_ok && h.scr_ext == 0
            &&& b[14] == 0 && b[15] == 0 && b[16] == 1 && b[17] == 0xBD
            &&& b[18] as int * 256 + b[19] as int == 4 + spu.len()
            &&& b[20] == 0x81 && b[21] == 0 && b[22] == 0
            &&& b[23] == id
            &&& b.subrange(24, end) == spu
            &&& end <= 2042 ==> {
                &&& b[end] == 0 && b[end + 1] == 0 && b[end + 2] == 1 && b[end + 3] == 0xBE
                &&& b[end + 4] as int * 256 + b[end + 5] as int == 2048 - end - 6
                &&& forall|i: int| end + 6 <= i < 2048 ==> #[trigger] b[i] == 0xFF
            }
            &&& end > 2042 ==> forall|i: int| end <= i < 2048 ==> #[trigger] b[i] == 0
        }),
{
    let b = sub_sector(id, scr, None, spu);
    let end = 24 + spu.len() as int;
    lemma_sector_layout(id, scr, None, spu);
    let packet = b.subrange(14, end);
    lemma_plain_packet_bytes(id, spu);
    assert(forall|i: int| 0 <= i < packet.len() ==> #[trigger] packet[i] == b[14 + i]);
    assert(packet[0] == b[14] && packet[1] == b[15] && packet[2] == b[16] && packet[3] == b[17]);
    assert(packet[4] == b[18] && packet[5] == b[19] && packet[6] == b[20] && packet[7] == b[21]);
    assert(packet[8] == b[22] && packet[9] == b[23]);
    assert(b.subrange(24, end) =~= packet.subrange(10, packet.len() as int));
    lemma_filler(b, end);
}

proof fn lemma_plain_packet_bytes(id: u8, spu: Seq<u8>)
    requires
        spu.len() <= 2024,
    ensures
        ({
            let p = spu_packet(id, None, spu);
            &&& p.len() == 10 + spu.len()
            &&& p[0] == 0 && p[1] == 0 && p[2] == 1 && p[3] == 0xBD
            &&& p[4] as int * 256 + p[5] as int == 4 + spu.len()
            &&& p[6] == 0x81 && p[7] == 0 && p[8] == 0
            &&& p[9] == id
            &&& p.subrange(10, p.len() as int) == spu
        }),
{
    let p = spu_packet(id, None, spu);
    let lead = spu_packet_lead(None, spu.len() as int);
    assert(pts_bytes(None).len() == 0);
    assert(p[0] == lead[0] && p[1] == lead[1] && p[2] == lead[2] && p[3] == lead[3]);
    assert(p[4] == lead[4] && p[5] == lead[5] && p[6] == lead[6] && p[7] == lead[7]);
    assert(p[8] == lead[8]);
    assert(p[9] == id);
    assert(p.subrange(10, p.len() as int) =~= spu);
}

proof fn lemma_stamp_bits(v: int)
    requires
        0 <= v < 0x2_0000_0000,
    ensures
        0 <= 32 + v / 0x4000_0000 * 2 + 1 < 256,
        (32 + v / 0x4000_0000 * 2 + 1) / 16 == 2,
        (32 + v / 0x4000_0000 * 2 + 1) % 2 == 1,
        0 <= v / 0x8000 % 128 * 2 + 1 < 256,
        (v / 0x8000 % 128 * 2 + 1) % 2 == 1,
        0 <= v % 128 * 2 + 1 < 256,
        (v % 128 * 2 + 1) % 2 == 1,
{
}

proof fn lemma_filler(b: Seq<u8>, end: int)
    requires
        b.len() == 2048,
        0 <= end <= 2048,
    ensures
        b.subrange(end, 2048) == padding(2048 - end) ==> {
            &&& end <= 2042 ==> {
                &&& b[end] == 0 && b[end + 1] == 0 && b[end + 2] == 1 && b[end + 3] == 0xBE
                &&& b[end + 4] as int * 256 + b[end + 5] as int == 2048 - end - 6
                &&& forall|i: int| end + 6 <= i < 2048 ==> #[trigger] b[i] == 0xFF
            }
            &&& end > 2042 ==> forall|i: int| end <= i < 2048 ==> #[trigger] b[i] == 0
        },
{
    if b.subrange(end, 2048) == padding(2048 - end) {
        let tail = b.subrange(end, 2048);
        assert forall|i: int| end <= i < 2048 implies #[trigger] b[i] == tail[i - end] by {}
        if end <= 2042 {
            assert(tail[0] == b[end] && tail[1] == b[end + 1] && tail[2] == b[end + 2]);
            assert(tail[3] == b[end + 3] && tail[4] == b[end + 4] && tail[5] == b[end + 5]);
        }
    }
}

} // verus!
