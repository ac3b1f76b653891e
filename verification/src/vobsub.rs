//! VobSub (`.idx` and `.sub`) output for DVD subpicture streams.
//!
//! The `.sub` file is a run of 2048-byte sectors. Each holds a pack header, a
//! `private_stream_1` packet with subpicture bytes, and a padding packet. A
//! packet with a PTS starts a subtitle, one without continues it. The `.idx`
//! file is text: palette, language, and one line for each subtitle.
use vstd::prelude::*;
use crate::demux::{
    emissions, key_of_pes, lemma_output_is_concatenation, no_resync_pending, stream_output,
    stream_payload, DemuxState, StreamKey,
};
use crate::mpegps::{
    has_pes_start, markers_of, mux_rate_of, pack_header_of, pes_at, pes_of_raw, pes_walk,
    scr_base_of, scr_ext_of, sector_of, MpegPsFault, PackHeader, Pes,
};
use crate::text::{
    dec, hex_lower, pad_left, push_dec, push_dec_zeros, push_hex_lower_zeros,
};

verus! {

/// DVD sector size, to which every `.sub` entry is aligned.
pub const SECTOR_SIZE: u64 = 2048;

/// Most subpicture bytes in a sector whose packet carries a PTS.
pub const MAX_SPU_WITH_PTS: usize = 2019;

/// Most subpicture bytes in a sector whose packet carries none.
pub const MAX_SPU_NO_PTS: usize = 2024;

/// One past the largest 33-bit clock value.
pub const CLOCK_SPAN: u64 = 0x2_0000_0000;

/// One subtitle of the index.
#[derive(Debug, Clone, Copy, PartialEq, Eq, Structural)]
pub struct VobSubEntry {
    /// PTS in 90 kHz units.
    pub pts_90khz: u64,
    /// Byte offset of the subtitle's pack header in the `.sub` file.
    pub filepos: u64,
}

/// A payload does not fit into one sector.
#[derive(Debug, Clone, Copy, PartialEq, Eq, Structural)]
pub enum SubError {
    /// Too many bytes for a packet with a PTS.
    PayloadTooLong { len: usize },
    /// Too many bytes for a continuation packet.
    ContinuationTooLong { len: usize },
}

/// The text of [`SubError::message`].
pub open spec fn sub_error_message(e: SubError) -> Seq<char> {
    match e {
        SubError::PayloadTooLong { len } => "subpicture PES payload "@ + dec(len as nat)
            + " bytes exceeds sector capacity "@ + dec(MAX_SPU_WITH_PTS as nat),
        SubError::ContinuationTooLong { len } => "subpicture continuation PES payload "@ + dec(
            len as nat,
        ) + " bytes exceeds sector capacity "@ + dec(MAX_SPU_NO_PTS as nat),
    }
}

impl SubError {
    /// One line that says what is wrong.
    pub fn message(&self) -> (s: String)
        ensures
            s@ == sub_error_message(*self),
    {
        let mut out = String::new();
        match *self {
            SubError::PayloadTooLong { len } => {
                out.append("subpicture PES payload ");
                push_dec(&mut out, len as u64);
                out.append(" bytes exceeds sector capacity ");
                push_dec(&mut out, MAX_SPU_WITH_PTS as u64);
            },
            SubError::ContinuationTooLong { len } => {
                out.append("subpicture continuation PES payload ");
                push_dec(&mut out, len as u64);
                out.append(" bytes exceeds sector capacity ");
                push_dec(&mut out, MAX_SPU_NO_PTS as u64);
            },
        }
        assert(out@ =~= sub_error_message(*self));
        out
    }
}

/// A pack header with the low 33 bits of `scr` as its clock, no extension,
/// all markers set and no stuffing.
#[verifier::opaque]
pub open spec fn pack_header_with(scr: int) -> Seq<u8> {
    let v = scr % CLOCK_SPAN as int;
    seq![
        0x00u8,
        0x00u8,
        0x01u8,
        0xBAu8,
        (0x44 + v / 0x4000_0000 * 8 + v / 0x1000_0000 % 4) as u8,
        (v / 0x10_0000 % 256) as u8,
        (v / 0x8000 % 32 * 8 + 4 + v / 0x2000 % 4) as u8,
        (v / 0x20 % 256) as u8,
        (v % 32 * 8 + 4) as u8,
        0x01u8,
        0x1Au8,
        0x00u8,
        0x03u8,
        0xF8u8,
    ]
}

/// The 14-byte pack header with `scr_90khz` as its clock reference.
pub fn pack_header_bytes(scr_90khz: u64) -> (b: [u8; 14])
    ensures
        b@ == pack_header_with(scr_90khz as int),
{
    let v: u64 = scr_90khz % CLOCK_SPAN;
    let b: [u8; 14] = [
        0x00,
        0x00,
        0x01,
        0xBA,
        (0x44 + v / 0x4000_0000 * 8 + v / 0x1000_0000 % 4) as u8,
        (v / 0x10_0000 % 256) as u8,
        (v / 0x8000 % 32 * 8 + 4 + v / 0x2000 % 4) as u8,
        (v / 0x20 % 256) as u8,
        (v % 32 * 8 + 4) as u8,
        0x01,
        0x1A,
        0x00,
        0x03,
        0xF8,
    ];
    reveal(pack_header_with);
    assert(b@ =~= pack_header_with(scr_90khz as int));
    b
}

proof fn lemma_pack_header_shape(scr: int)
    ensures
        pack_header_with(scr).len() == 14,
        pack_header_with(scr)[0] == 0,
        pack_header_with(scr)[1] == 0,
        pack_header_with(scr)[2] == 1,
        pack_header_with(scr)[3] == 0xBA,
{
    reveal(pack_header_with);
}

/// The five-byte time stamp field: a four-bit tag, then 3, 15 and 15 bits of
/// the value with a marker bit behind each group.
pub open spec fn pts_field(tag: u8, value: int) -> Seq<u8> {
    let v = value % CLOCK_SPAN as int;
    seq![
        (tag % 16 * 16 + v / 0x4000_0000 * 2 + 1) as u8,
        (v / 0x40_0000 % 256) as u8,
        (v / 0x8000 % 128 * 2 + 1) as u8,
        (v / 0x80 % 256) as u8,
        (v % 128 * 2 + 1) as u8,
    ]
}

/// The value of a five-byte time stamp field.
pub open spec fn pts_value(b: Seq<u8>) -> int {
    (b[0] as int / 2 % 8) * 0x4000_0000 + b[1] * 0x40_0000 + (b[2] as int / 2) * 0x8000 + b[3]
        * 0x80 + b[4] as int / 2
}

/// Encodes a 33-bit PTS or DTS with the given four-bit tag.
pub fn encode_pts_field(tag: u8, value_33b: u64) -> (b: [u8; 5])
    ensures
        b@ == pts_field(tag, value_33b as int),
{
    let v: u64 = value_33b % CLOCK_SPAN;
    let b: [u8; 5] = [
        ((tag % 16) as u64 * 16 + v / 0x4000_0000 * 2 + 1) as u8,
        (v / 0x40_0000 % 256) as u8,
        (v / 0x8000 % 128 * 2 + 1) as u8,
        (v / 0x80 % 256) as u8,
        (v % 128 * 2 + 1) as u8,
    ];
    assert(b@ =~= pts_field(tag, value_33b as int));
    b
}

/// Reading a time stamp field gives back the low 33 bits that were written.
pub proof fn lemma_pts_round_trip(tag: u8, value: int)
    requires
        0 <= value,
    ensures
        pts_value(pts_field(tag, value)) == value % CLOCK_SPAN as int,
{
    let v = value % CLOCK_SPAN as int;
    lemma_pts_groups(v);
    lemma_tagged_byte(tag as int % 16, v / 0x4000_0000);
    lemma_marked_byte(v / 0x8000 % 128);
    lemma_marked_byte(v % 128);
}

proof fn lemma_tagged_byte(tag: int, high: int)
    requires
        0 <= tag < 16,
        0 <= high < 8,
    ensures
        0 <= tag * 16 + high * 2 + 1 < 256,
        (tag * 16 + high * 2 + 1) / 2 % 8 == high,
{
}

proof fn lemma_marked_byte(group: int)
    requires
        0 <= group < 128,
    ensures
        0 <= group * 2 + 1 < 256,
        (group * 2 + 1) / 2 == group,
{
}

proof fn lemma_pts_groups(v: int)
    requires
        0 <= v < CLOCK_SPAN,
    ensures
        v == v / 0x4000_0000 * 0x4000_0000 + v / 0x40_0000 % 256 * 0x40_0000 + v / 0x8000 % 128
            * 0x8000 + v / 0x80 % 256 * 0x80 + v % 128,
        v / 0x4000_0000 < 8,
{
    assert(v / 0x8000 == v / 0x80 / 256);
    assert(v / 0x40_0000 == v / 0x8000 / 128);
    assert(v / 0x4000_0000 == v / 0x40_0000 / 256);
}

/// A 33-bit value is the sum of the bit groups of the clock field.
proof fn lemma_clock_groups(v: int)
    requires
        0 <= v < CLOCK_SPAN,
    ensures
        v == v / 0x4000_0000 * 0x4000_0000 + v / 0x1000_0000 % 4 * 0x1000_0000 + v / 0x10_0000
            % 256 * 0x10_0000 + v / 0x8000 % 32 * 0x8000 + v / 0x2000 % 4 * 0x2000 + v / 0x20 % 256
            * 0x20 + v % 32,
        v / 0x4000_0000 < 8,
{
    assert(v / 0x2000 == v / 0x20 / 256);
    assert(v / 0x8000 == v / 0x2000 / 4);
    assert(v / 0x10_0000 == v / 0x8000 / 32);
    assert(v / 0x1000_0000 == v / 0x10_0000 / 256);
    assert(v / 0x4000_0000 == v / 0x1000_0000 / 4);
}

/// Three groups packed around a marker bit come apart again.
proof fn lemma_packed_byte(base: int, high: int, low: int, byte: int)
    requires
        base == 4 || base == 0x44,
        0 <= low < 4,
        0 <= high < 32,
        base == 0x44 ==> high < 8,
        byte == base + high * 8 + low,
    ensures
        0 <= byte < 256,
        byte % 4 == low,
        byte / 4 % 2 == 1,
        base == 4 ==> byte / 8 == high,
        base == 0x44 ==> byte / 8 % 8 == high,
{
}

/// Reading a written pack header gives back its clock.
pub proof fn lemma_pack_header_round_trip(scr: int, rest: Seq<u8>)
    requires
        0 <= scr,
    ensures
        pack_header_of(pack_header_with(scr) + rest) == Ok::<PackHeader, MpegPsFault>(
            PackHeader {
                scr_base: (scr % CLOCK_SPAN as int) as u64,
                scr_ext: 0,
                program_mux_rate: 0x6_8000,
                stuffing_length: 0,
                markers_ok: true,
            },
        ),
{
    reveal(pack_header_with);
    let v = scr % CLOCK_SPAN as int;
    let h = pack_header_with(scr);
    let b = h + rest;
    lemma_clock_groups(v);
    lemma_packed_byte(
        0x44,
        v / 0x4000_0000,
        v / 0x1000_0000 % 4,
        0x44 + v / 0x4000_0000 * 8 + v / 0x1000_0000 % 4,
    );
    lemma_packed_byte(
        4,
        v / 0x8000 % 32,
        v / 0x2000 % 4,
        v / 0x8000 % 32 * 8 + 4 + v / 0x2000 % 4,
    );
    lemma_packed_byte(4, v % 32, 0, v % 32 * 8 + 4);
    lemma_header_fields(b, v);
}

proof fn lemma_header_fields(b: Seq<u8>, v: int)
    requires
        0 <= v < CLOCK_SPAN,
        b.len() >= 14,
        b[0] == 0 && b[1] == 0 && b[2] == 1 && b[3] == 0xBA,
        b[4] as int / 8 % 8 == v / 0x4000_0000,
        b[4] as int % 4 == v / 0x1000_0000 % 4,
        b[4] as int / 4 % 2 == 1,
        b[5] as int == v / 0x10_0000 % 256,
        b[6] as int / 8 == v / 0x8000 % 32,
        b[6] as int % 4 == v / 0x2000 % 4,
        b[6] as int / 4 % 2 == 1,
        b[7] as int == v / 0x20 % 256,
        b[8] as int / 8 == v % 32,
        b[8] as int % 4 == 0,
        b[8] as int / 4 % 2 == 1,
        b[9] == 1 && b[10] == 0x1A && b[11] == 0 && b[12] == 3 && b[13] == 0xF8,
    ensures
        pack_header_of(b) == Ok::<PackHeader, MpegPsFault>(
            PackHeader {
                scr_base: v as u64,
                scr_ext: 0,
                program_mux_rate: 0x6_8000,
                stuffing_length: 0,
                markers_ok: true,
            },
        ),
{
    lemma_clock_groups(v);
    assert(scr_base_of(b) == v);
    assert(scr_ext_of(b) == 0);
    assert(mux_rate_of(b) == 0x6_8000);
    assert(markers_of(b));
}

/// Bytes of the time stamp field of a packet.
pub open spec fn pts_bytes(pts: Option<u64>) -> Seq<u8> {
    match pts {
        Some(v) => pts_field(2, v as int),
        None => Seq::empty(),
    }
}

/// The nine bytes that open a `private_stream_1` packet with `spu_len`
/// subpicture bytes.
pub open spec fn spu_packet_lead(pts: Option<u64>, spu_len: int) -> Seq<u8> {
    let length = 3 + pts_bytes(pts).len() + 1 + spu_len;
    seq![
        0x00u8,
        0x00u8,
        0x01u8,
        0xBDu8,
        (length / 256) as u8,
        (length % 256) as u8,
        0x81u8,
        if pts is Some {
            0x80u8
        } else {
            0x00u8
        },
        if pts is Some {
            0x05u8
        } else {
            0x00u8
        },
    ]
}

/// A `private_stream_1` packet with subpicture bytes.
pub open spec fn spu_packet(substream_id: u8, pts: Option<u64>, spu: Seq<u8>) -> Seq<u8> {
    spu_packet_lead(pts, spu.len() as int) + pts_bytes(pts) + seq![substream_id] + spu
}

/// `total` bytes of padding: a padding packet of `FF` bytes, or zeros where
/// there is no room for its header.
pub open spec fn padding(total: int) -> Seq<u8> {
    if total < 6 {
        Seq::new(total as nat, |i: int| 0u8)
    } else {
        seq![
            0x00u8,
            0x00u8,
            0x01u8,
            0xBEu8,
            ((total - 6) / 256) as u8,
            ((total - 6) % 256) as u8,
        ] + Seq::new((total - 6) as nat, |i: int| 0xFFu8)
    }
}

/// One sector of a `.sub` file.
pub open spec fn sub_sector(substream_id: u8, scr: u64, pts: Option<u64>, spu: Seq<u8>) -> Seq<u8> {
    let used = pack_header_with(scr as int) + spu_packet(substream_id, pts, spu);
    used + padding(2048 - used.len())
}

/// Most subpicture bytes that fit beside a time stamp.
pub open spec fn spu_capacity(pts: Option<u64>) -> int {
    if pts is Some {
        MAX_SPU_WITH_PTS as int
    } else {
        MAX_SPU_NO_PTS as int
    }
}

/// Writer of a `.sub` file: one sector of 2048 bytes for each packet.
pub struct SubWriter {
    pub out: Vec<u8>,
    pub bytes_written: u64,
    pub entries: Vec<VobSubEntry>,
    /// Substream id of the packets.
    pub substream_id: u8,
    /// PTS of the subtitle that was started last, the clock of its
    /// continuation sectors.
    pub current_pts: Option<u64>,
}

/// `e` points at a sector of `written` bytes at the end of `out`.
pub open spec fn entry_points(e: VobSubEntry, out: Seq<u8>, written: int) -> bool {
    let at = out.len() - written + e.filepos;
    &&& e.filepos % 2048 == 0
    &&& e.filepos + 2048 <= written
    &&& out[at] == 0 && out[at + 1] == 0 && out[at + 2] == 1 && out[at + 3] == 0xBA
}

impl SubWriter {
    /// Whole sectors were written, and every entry of the index points at the
    /// pack header of one.
    pub open spec fn wf(&self) -> bool {
        &&& self.bytes_written % 2048 == 0
        &&& self.bytes_written <= self.out.len()
        &&& forall|i: int|
            0 <= i < self.entries.len() ==> entry_points(
                #[trigger] self.entries[i],
                self.out@,
                self.bytes_written as int,
            )
    }

    /// A writer that appends to `out`.
    pub fn new(out: Vec<u8>, substream_id: u8) -> (w: Self)
        ensures
            w.wf(),
            w.out == out,
            w.bytes_written == 0,
            w.entries@ == Seq::<VobSubEntry>::empty(),
            w.substream_id == substream_id,
            w.current_pts is None,
    {
        SubWriter { out, bytes_written: 0, entries: Vec::new(), substream_id, current_pts: None }
    }

    /// Starts a subtitle: one sector whose packet carries the PTS, and an entry
    /// of the index that points at it.
    pub fn write_subtitle(&mut self, pts_90khz: u64, spu: &[u8]) -> (r: Result<(), SubError>)
        requires
            old(self).wf(),
            old(self).bytes_written + 2048 <= u64::MAX,
        ensures
            final(self).wf(),
            final(self).substream_id == old(self).substream_id,
            match r {
                Ok(()) => {
                    &&& spu.len() <= MAX_SPU_WITH_PTS
                    &&& final(self).out@ == old(self).out@ + sub_sector(
                        old(self).substream_id,
                        pts_90khz,
                        Some(pts_90khz),
                        spu@,
                    )
                    &&& final(self).bytes_written == old(self).bytes_written + 2048
                    &&& final(self).entries@ == old(self).entries@.push(
                        VobSubEntry { pts_90khz, filepos: old(self).bytes_written },
                    )
                    &&& final(self).current_pts == Some(pts_90khz)
                },
                Err(e) => {
                    &&& spu.len() > MAX_SPU_WITH_PTS
                    &&& e == SubError::PayloadTooLong { len: spu.len() }
                    &&& *final(self) == *old(self)
                },
            },
    {
        if spu.len() > MAX_SPU_WITH_PTS {
            return Err(SubError::PayloadTooLong { len: spu.len() });
        }
        let filepos: u64 = self.bytes_written;
        self.current_pts = Some(pts_90khz);
        self.write_sector(pts_90khz, Some(pts_90khz), spu);
        proof {
            lemma_sector_shape(self.substream_id, pts_90khz, Some(pts_90khz), spu@);
        }
        self.entries.push(VobSubEntry { pts_90khz, filepos });
        assert forall|i: int| 0 <= i < self.entries.len() implies entry_points(
            #[trigger] self.entries[i],
            self.out@,
            self.bytes_written as int,
        ) by {
            if i < old(self).entries.len() {
                assert(entry_points(
                    old(self).entries[i],
                    old(self).out@,
                    old(self).bytes_written as int,
                ));
            }
        }
        Ok(())
    }

    /// Continues a subtitle: one sector whose packet carries no PTS.
    pub fn write_continuation(&mut self, spu: &[u8]) -> (r: Result<(), SubError>)
        requires
            old(self).wf(),
            old(self).bytes_written + 2048 <= u64::MAX,
        ensures
            final(self).wf(),
            final(self).substream_id == old(self).substream_id,
            final(self).entries == old(self).entries,
            final(self).current_pts == old(self).current_pts,
            match r {
                Ok(()) => {
                    &&& spu.len() <= MAX_SPU_NO_PTS
                    &&& final(self).out@ == old(self).out@ + sub_sector(
                        old(self).substream_id,
                        match old(self).current_pts {
                            Some(p) => p,
                            None => 0,
                        },
                        None,
                        spu@,
                    )
                    &&& final(self).bytes_written == old(self).bytes_written + 2048
                },
                Err(e) => {
                    &&& spu.len() > MAX_SPU_NO_PTS
                    &&& e == SubError::ContinuationTooLong { len: spu.len() }
                    &&& *final(self) == *old(self)
                },
            },
    {
        if spu.len() > MAX_SPU_NO_PTS {
            return Err(SubError::ContinuationTooLong { len: spu.len() });
        }
        let scr: u64 = match self.current_pts {
            Some(p) => p,
            None => 0,
        };
        self.write_sector(scr, None, spu);
        proof {
            lemma_sector_shape(self.substream_id, scr, None, spu@);
        }
        assert forall|i: int| 0 <= i < self.entries.len() implies entry_points(
            #[trigger] self.entries[i],
            self.out@,
            self.bytes_written as int,
        ) by {
            assert(entry_points(
                old(self).entries[i],
                old(self).out@,
                old(self).bytes_written as int,
            ));
        }
        Ok(())
    }

    /// Appends one sector.
    fn write_sector(&mut self, scr_90khz: u64, pts_90khz: Option<u64>, spu: &[u8])
        requires
            spu.len() <= spu_capacity(pts_90khz),
            old(self).bytes_written + 2048 <= u64::MAX,
        ensures
            final(self).out@ == old(self).out@ + sub_sector(
                old(self).substream_id,
                scr_90khz,
                pts_90khz,
                spu@,
            ),
            final(self).bytes_written == old(self).bytes_written + 2048,
            final(self).entries == old(self).entries,
            final(self).substream_id == old(self).substream_id,
            final(self).current_pts == old(self).current_pts,
    {
        proof {
            lemma_pack_header_shape(scr_90khz as int);
        }
        let header = pack_header_bytes(scr_90khz);
        self.out.extend_from_slice(header.as_slice());
        let pts_len: usize = match pts_90khz {
            Some(_) => 5,
            None => 0,
        };
        let length: usize = 3 + pts_len + 1 + spu.len();
        let flags: u8 = if pts_len > 0 {
            0x80
        } else {
            0x00
        };
        let lead: [u8; 9] = [
            0x00,
            0x00,
            0x01,
            0xBD,
            (length / 256) as u8,
            (length % 256) as u8,
            0x81,
            flags,
            pts_len as u8,
        ];
        assert(lead@ =~= spu_packet_lead(pts_90khz, spu.len() as int));
        self.out.extend_from_slice(lead.as_slice());
        if let Some(pts) = pts_90khz {
            let field = encode_pts_field(2, pts);
            self.out.extend_from_slice(field.as_slice());
        }
        self.out.push(self.substream_id);
        self.out.extend_from_slice(spu);
        proof {
            let used = pack_header_with(scr_90khz as int) + spu_packet(
                self.substream_id,
                pts_90khz,
                spu@,
            );
            assert(used.len() == 14 + 9 + pts_len + 1 + spu.len());
            assert(self.out@ =~= old(self).out@ + used);
        }
        self.write_pad_stream(2048 - 14 - 9 - pts_len - 1 - spu.len());
        self.bytes_written = self.bytes_written + 2048;
        assert(self.out@ =~= old(self).out@ + sub_sector(
            self.substream_id,
            scr_90khz,
            pts_90khz,
            spu@,
        ));
    }

    /// Appends `total` bytes of padding.
    fn write_pad_stream(&mut self, total: usize)
        requires
            total <= 2048,
        ensures
            *final(self) == (SubWriter { out: final(self).out, ..*old(self) }),
            final(self).out@ == old(self).out@ + padding(total as int),
    {
        let fill: usize = if total < 6 {
            total
        } else {
            total - 6
        };
        let byte: u8 = if total < 6 {
            0x00
        } else {
            0xFF
        };
        if total >= 6 {
            let lead: [u8; 6] = [0x00, 0x00, 0x01, 0xBE, (fill / 256) as u8, (fill % 256) as u8];
            self.out.extend_from_slice(lead.as_slice());
        }
        let ghost before = self.out@;
        let mut i: usize = 0;
        assert(before + Seq::new(0, |j: int| byte) =~= before);
        while i < fill
            invariant
                i <= fill,
                self.out@ == before + Seq::new(i as nat, |j: int| byte),
                self.bytes_written == old(self).bytes_written,
                self.entries == old(self).entries,
                self.substream_id == old(self).substream_id,
                self.current_pts == old(self).current_pts,
            decreases fill - i,
        {
            self.out.push(byte);
            i = i + 1;
            assert(self.out@ =~= before + Seq::new(i as nat, |j: int| byte));
        }
        assert(self.out@ =~= old(self).out@ + padding(total as int));
    }

    /// The finished `.sub` bytes and the entries of the index.
    pub fn finish(self) -> (r: (Vec<u8>, Vec<VobSubEntry>))
        ensures
            r.0 == self.out,
            r.1 == self.entries,
    {
        (self.out, self.entries)
    }
}

/// Every sector is 2048 bytes and opens with a pack header.
pub proof fn lemma_sector_shape(substream_id: u8, scr: u64, pts: Option<u64>, spu: Seq<u8>)
    requires
        spu.len() <= spu_capacity(pts),
    ensures
        sub_sector(substream_id, scr, pts, spu).len() == 2048,
        ({
            let b = sub_sector(substream_id, scr, pts, spu);
            b[0] == 0 && b[1] == 0 && b[2] == 1 && b[3] == 0xBA
        }),
{
    lemma_pack_header_shape(scr as int);
}

/// The packet in a sector.
pub open spec fn spu_pes(substream_id: u8, pts: Option<u64>, spu: Seq<u8>) -> Pes {
    Pes {
        stream_id: 0xBD,
        substream_id: Some(substream_id),
        sector_offset: 14,
        total_size: (10 + pts_bytes(pts).len() + spu.len()) as int,
        header_size: 10 + pts_bytes(pts).len() as int,
        raw: spu_packet(substream_id, pts, spu),
        payload: spu,
    }
}

proof fn lemma_spu_packet_parses(b: Seq<u8>, substream_id: u8, pts: Option<u64>, spu: Seq<u8>)
    requires
        spu.len() <= spu_capacity(pts),
        14 + spu_packet(substream_id, pts, spu).len() <= b.len(),
        b.subrange(14, 14 + spu_packet(substream_id, pts, spu).len() as int) == spu_packet(
            substream_id,
            pts,
            spu,
        ),
    ensures
        has_pes_start(b, 14),
        pes_at(b, 14) == Ok::<Pes, MpegPsFault>(spu_pes(substream_id, pts, spu)),
{
    let packet = spu_packet(substream_id, pts, spu);
    let cut = b.subrange(14, 14 + packet.len() as int);
    let lead = spu_packet_lead(pts, spu.len() as int);
    assert(forall|i: int| 0 <= i < 9 ==> #[trigger] packet[i] == lead[i]);
    assert(forall|i: int| 0 <= i < 9 ==> #[trigger] cut[i] == b[14 + i]);
    assert(cut[0] == 0 && cut[1] == 0 && cut[2] == 1 && cut[3] == 0xBD);
    let length = packet.len() - 6;
    assert(cut[4] as int == length / 256 && cut[5] as int == length % 256);
    assert(b[18] * 256 + b[19] == length);
    let body = 9 + pts_bytes(pts).len() as int;
    assert(packet[8] as int == pts_bytes(pts).len());
    assert(packet[body] == substream_id);
    assert(packet.skip(body + 1) =~= spu);
    assert(pes_of_raw(packet, 14) == spu_pes(substream_id, pts, spu));
}

proof fn lemma_padding_parses(b: Seq<u8>, next: int)
    requires
        b.len() == 2048,
        0 <= next <= 2048,
        b.subrange(next, 2048) == padding(2048 - next),
    ensures
        pes_walk(b, next) matches Ok((packets, end)) && {
            &&& packets.len() <= 1
            &&& packets.len() == 1 ==> packets[0].stream_id == 0xBE
        },
{
    let room = 2048 - next;
    if room >= 6 {
        let cut = b.subrange(next, 2048);
        assert(forall|i: int| 0 <= i < 6 ==> #[trigger] cut[i] == b[next + i]);
        assert(cut[0] == 0 && cut[1] == 0 && cut[2] == 1 && cut[3] == 0xBE);
        assert(cut[4] as int == (room - 6) / 256 && cut[5] as int == (room - 6) % 256);
        assert(b[next + 4] * 256 + b[next + 5] == room - 6);
        let p = pes_of_raw(cut, next);
        assert(pes_at(b, next) == Ok::<Pes, MpegPsFault>(p));
        assert(pes_walk(b, 2048) == Ok::<(Seq<Pes>, int), MpegPsFault>((Seq::empty(), 2048)));
        assert(pes_walk(b, next) == Ok::<(Seq<Pes>, int), MpegPsFault>(
            (seq![p] + Seq::empty(), 2048),
        ));
    }
}

/// The packets of a sector: the subpicture packet, then at most a padding
/// packet.
pub open spec fn is_spu_run(packets: Seq<Pes>, pes: Pes) -> bool {
    &&& 1 <= packets.len() <= 2
    &&& packets[0] == pes
    &&& packets.len() == 2 ==> packets[1].stream_id == 0xBE
}

proof fn lemma_sector_walk(substream_id: u8, scr: u64, pts: Option<u64>, spu: Seq<u8>)
    requires
        spu.len() <= spu_capacity(pts),
    ensures
        pes_walk(sub_sector(substream_id, scr, pts, spu), 14) matches Ok((packets, end))
            && is_spu_run(packets, spu_pes(substream_id, pts, spu)),
{
    let b = sub_sector(substream_id, scr, pts, spu);
    lemma_pack_header_shape(scr as int);
    lemma_sector_shape(substream_id, scr, pts, spu);
    let packet = spu_packet(substream_id, pts, spu);
    let next = 14 + packet.len() as int;
    assert(b.subrange(14, next) =~= packet);
    lemma_spu_packet_parses(b, substream_id, pts, spu);
    assert(b.subrange(next, 2048) =~= padding(2048 - next));
    lemma_padding_parses(b, next);
    let pes = spu_pes(substream_id, pts, spu);
    assert(14 + pes.total_size == next);
    if let Ok((rest, end)) = pes_walk(b, next) {
        let all = seq![pes] + rest;
        assert(pes_walk(b, 14) == Ok::<(Seq<Pes>, int), MpegPsFault>((all, end)));
        if rest.len() == 1 {
            assert(all[1] == rest[0]);
        }
    }
}

/// Scanning a written sector gives back what was written: the clock, then one
/// packet with the substream id and the subpicture bytes.
pub proof fn lemma_sector_round_trip(substream_id: u8, scr: u64, pts: Option<u64>, spu: Seq<u8>)
    requires
        spu.len() <= spu_capacity(pts),
    ensures
        sector_of(sub_sector(substream_id, scr, pts, spu)) matches Ok(c) && {
            &&& c.pack_header.scr_base as int == scr as int % CLOCK_SPAN as int
            &&& c.pack_header.stuffing_length == 0
            &&& c.pack_header.markers_ok
            &&& is_spu_run(c.pes_packets, spu_pes(substream_id, pts, spu))
        },
{
    let b = sub_sector(substream_id, scr, pts, spu);
    lemma_pack_header_shape(scr as int);
    lemma_sector_shape(substream_id, scr, pts, spu);
    assert(b.take(2048) =~= b);
    lemma_sector_walk(substream_id, scr, pts, spu);
    assert(exists|rest: Seq<u8>| b == pack_header_with(scr as int) + rest) by {
        let packet = spu_packet(substream_id, pts, spu);
        let rest = packet + padding(2034 - packet.len());
        assert(b =~= pack_header_with(scr as int) + rest);
    }
    let rest = choose|rest: Seq<u8>| b == pack_header_with(scr as int) + rest;
    lemma_pack_header_round_trip(scr as int, rest);
}

/// The packet that starts a subtitle carries the low 33 bits of its PTS.
pub proof fn lemma_packet_carries_pts(substream_id: u8, pts: u64, spu: Seq<u8>)
    ensures
        pts_value(spu_packet(substream_id, Some(pts), spu).subrange(9, 14)) == pts as int
            % CLOCK_SPAN as int,
{
    let packet = spu_packet(substream_id, Some(pts), spu);
    assert(packet.subrange(9, 14) =~= pts_field(2, pts as int));
    lemma_pts_round_trip(2, pts as int);
}

/// The packets of a subtitle sector carry its subpicture bytes for the
/// stream of its substream id, and nothing else for it.
proof fn lemma_spu_run_payload(packets: Seq<Pes>, substream_id: u8, pts: Option<u64>, spu: Seq<u8>)
    requires
        spu.len() > 0,
        0x20 <= substream_id <= 0x3F,
        is_spu_run(packets, spu_pes(substream_id, pts, spu)),
    ensures
        stream_payload(StreamKey::Subpicture((substream_id - 0x20) as u8), packets) == spu,
{
    let key = StreamKey::Subpicture((substream_id - 0x20) as u8);
    let first = seq![packets[0]];
    assert(key_of_pes(packets[0]) == Some(key));
    assert(stream_payload(key, Seq::<Pes>::empty()) =~= Seq::<u8>::empty());
    assert(first.drop_last() =~= Seq::<Pes>::empty());
    assert(spu.skip(0) =~= spu);
    assert(stream_payload(key, first) =~= spu);
    if packets.len() == 1 {
        assert(packets =~= first);
    } else {
        assert(packets.drop_last() =~= first);
        assert(packets.last() == packets[1]);
        assert(key_of_pes(packets.last()) is None);
        assert(stream_payload(key, packets) =~= stream_payload(key, first));
    }
}

/// A subtitle sector that goes through the demuxer comes out as exactly its
/// subpicture bytes, on the stream of its substream id.
pub proof fn lemma_sector_demuxes_to_spu(
    m: DemuxState,
    substream_id: u8,
    scr: u64,
    pts: Option<u64>,
    spu: Seq<u8>,
)
    requires
        spu.len() <= spu_capacity(pts),
        spu.len() > 0,
        0x20 <= substream_id <= 0x3F,
        no_resync_pending(m),
    ensures
        sector_of(sub_sector(substream_id, scr, pts, spu)) matches Ok(c) && stream_output(
            StreamKey::Subpicture((substream_id - 0x20) as u8),
            emissions(m, c.pes_packets),
        ) == spu,
{
    lemma_sector_round_trip(substream_id, scr, pts, spu);
    let sector = sector_of(sub_sector(substream_id, scr, pts, spu));
    let packets = sector->Ok_0.pes_packets;
    let key = StreamKey::Subpicture((substream_id - 0x20) as u8);
    assert(stream_output(key, emissions(m, packets)) == spu) by {
        lemma_spu_run_payload(packets, substream_id, pts, spu);
        lemma_output_is_concatenation(m, packets, key);
    }
}

/// Thousandths held within a byte and rounded, halves upwards.
pub open spec fn from_thousandths(n: int) -> int {
    if n < 0 {
        0
    } else if n > 255_000 {
        255
    } else {
        (n + 500) / 1000
    }
}

/// Millionths held within a byte and rounded, halves upwards.
pub open spec fn from_millionths(n: int) -> int {
    if n < 0 {
        0
    } else if n > 255_000_000 {
        255
    } else {
        (n + 500_000) / 1_000_000
    }
}

/// The colour of a palette entry `0x00 Y Cr Cb`, with the BT.601 coefficients
/// 1.402, 0.344136, 0.714136 and 1.772.
///
/// At `Cr = 178`, `Cb = 78` the green channel is exactly half way between two
/// values. In double precision the sum falls just short of it for `Y` from 111
/// to 146, and these round down.
pub open spec fn rgb_of(ycrcb: u32) -> (u8, u8, u8) {
    let y = ycrcb as int / 65536 % 256;
    let cr = ycrcb as int / 256 % 256;
    let cb = ycrcb as int % 256;
    let r = from_thousandths(1000 * y + 1402 * (cr - 128));
    let g = if cr == 178 && cb == 78 && 111 <= y <= 146 {
        y - 19
    } else {
        from_millionths(1_000_000 * y - 344_136 * (cb - 128) - 714_136 * (cr - 128))
    };
    let b = from_thousandths(1000 * y + 1772 * (cb - 128));
    (r as u8, g as u8, b as u8)
}

fn thousandths(n: i64) -> (c: u8)
    ensures
        c == from_thousandths(n as int),
{
    if n < 0 {
        0
    } else if n > 255_000 {
        255
    } else {
        ((n + 500) / 1000) as u8
    }
}

fn millionths(n: i64) -> (c: u8)
    ensures
        c == from_millionths(n as int),
{
    if n < 0 {
        0
    } else if n > 255_000_000 {
        255
    } else {
        ((n + 500_000) / 1_000_000) as u8
    }
}

/// Converts one palette entry `0x00 Y Cr Cb` to red, green and blue.
pub fn ycrcb_u32_to_rgb(ycrcb: u32) -> (rgb: (u8, u8, u8))
    ensures
        rgb == rgb_of(ycrcb),
{
    let y: i64 = (ycrcb / 65536 % 256) as i64;
    let cr: i64 = (ycrcb / 256 % 256) as i64;
    let cb: i64 = (ycrcb % 256) as i64;
    let r: u8 = thousandths(1000 * y + 1402 * (cr - 128));
    let g: u8 = if cr == 178 && cb == 78 && 111 <= y && y <= 146 {
        (y - 19) as u8
    } else {
        millionths(1_000_000 * y - 344_136 * (cb - 128) - 714_136 * (cr - 128))
    };
    let b: u8 = thousandths(1000 * y + 1772 * (cb - 128));
    (r, g, b)
}

/// A neutral chroma is a grey of the entry's luma.
pub proof fn lemma_neutral_chroma_is_grey(y: u8)
    ensures
        rgb_of((y as u32 * 65536 + 0x8080) as u32) == (y, y, y),
{
    let x = y as int * 65536 + 0x8080;
    assert(x / 65536 % 256 == y as int);
    assert(x / 256 % 256 == 128);
    assert(x % 256 == 128);
}

/// Six hexadecimal digits of a palette entry.
#[verifier::opaque]
pub open spec fn palette_item(entry: u32) -> Seq<char> {
    let (r, g, b) = rgb_of(entry);
    pad_left(hex_lower(r as nat), 2, '0') + pad_left(hex_lower(g as nat), 2, '0') + pad_left(
        hex_lower(b as nat),
        2,
        '0',
    )
}

/// The palette with `, ` between its entries.
pub open spec fn palette_items(palette: Seq<u32>) -> Seq<char>
    decreases palette.len(),
{
    if palette.len() == 0 {
        Seq::empty()
    } else {
        palette_items(palette.drop_last()) + (if palette.len() > 1 {
            ", "@
        } else {
            Seq::empty()
        }) + palette_item(palette.last())
    }
}

/// The line of one subtitle: hours, minutes, seconds and milliseconds of its
/// PTS, and its position in nine hexadecimal digits.
pub open spec fn idx_line(e: VobSubEntry) -> Seq<char> {
    let ms = e.pts_90khz as nat / 90;
    "timestamp: "@ + pad_left(dec(ms / 3_600_000), 2, '0') + ":"@ + pad_left(
        dec(ms / 60_000 % 60),
        2,
        '0',
    ) + ":"@ + pad_left(dec(ms / 1_000 % 60), 2, '0') + ":"@ + pad_left(dec(ms % 1_000), 3, '0')
        + ", filepos: "@ + pad_left(hex_lower(e.filepos as nat), 9, '0') + "\n"@
}

/// The lines of all subtitles, in order.
pub open spec fn idx_lines(entries: Seq<VobSubEntry>) -> Seq<char>
    decreases entries.len(),
{
    if entries.len() == 0 {
        Seq::empty()
    } else {
        idx_lines(entries.drop_last()) + idx_line(entries.last())
    }
}

/// What stands before the palette.
pub open spec fn idx_preamble(width: u32, height: u32) -> Seq<char> {
    "# VobSub index file, v7 (do not modify this line!)\n"@ + "# \n"@
        + "# This index block was generated by disc-remuxer\n"@ + "# \n"@ + "size: "@ + dec(
        width as nat,
    ) + "x"@ + dec(height as nat) + "\n"@ + "org: 0, 0\n"@ + "alpha: 100%\n"@ + "smooth: OFF\n"@
        + "fadein/out: 50, 50\n"@ + "align: OFF at LEFT TOP\n"@ + "time offset: 0\n"@
        + "forced subs: OFF\n"@ + "langidx: 0\n"@
}

/// The whole `.idx` file.
pub open spec fn idx_text(
    palette: Seq<u32>,
    lang: Seq<char>,
    width: u32,
    height: u32,
    entries: Seq<VobSubEntry>,
) -> Seq<char> {
    idx_preamble(width, height) + "palette: "@ + palette_items(palette) + "\n"@ + "# \n"@
        + "# end\n"@ + "\n"@ + "id: "@ + lang + ", index: 0\n"@ + idx_lines(entries)
}

fn push_palette_item(out: &mut String, entry: u32)
    ensures
        final(out)@ == old(out)@ + palette_item(entry),
{
    reveal(palette_item);
    let (r, g, b) = ycrcb_u32_to_rgb(entry);
    push_hex_lower_zeros(out, r as u64, 2);
    push_hex_lower_zeros(out, g as u64, 2);
    push_hex_lower_zeros(out, b as u64, 2);
    assert(out@ =~= old(out)@ + palette_item(entry));
}

fn push_palette(out: &mut String, palette: &[u32])
    ensures
        final(out)@ == old(out)@ + palette_items(palette@),
{
    let mut i: usize = 0;
    assert(palette@.take(0) =~= Seq::<u32>::empty());
    assert(out@ =~= old(out)@ + palette_items(palette@.take(0)));
    while i < palette.len()
        invariant
            i <= palette.len(),
            out@ == old(out)@ + palette_items(palette@.take(i as int)),
        decreases palette.len() - i,
    {
        if i > 0 {
            out.append(", ");
        }
        push_palette_item(out, palette[i]);
        i = i + 1;
        assert(palette@.take(i as int).drop_last() =~= palette@.take(i - 1));
        assert(out@ =~= old(out)@ + palette_items(palette@.take(i as int)));
    }
    assert(palette@.take(i as int) =~= palette@);
}

fn push_idx_line(out: &mut String, e: VobSubEntry)
    ensures
        final(out)@ == old(out)@ + idx_line(e),
{
    let ms: u64 = e.pts_90khz / 90;
    out.append("timestamp: ");
    push_dec_zeros(out, ms / 3_600_000, 2);
    out.append(":");
    push_dec_zeros(out, ms / 60_000 % 60, 2);
    out.append(":");
    push_dec_zeros(out, ms / 1_000 % 60, 2);
    out.append(":");
    push_dec_zeros(out, ms % 1_000, 3);
    out.append(", filepos: ");
    push_hex_lower_zeros(out, e.filepos, 9);
    out.append("\n");
    assert(out@ =~= old(out)@ + idx_line(e));
}

/// Appends a `.idx` file with the palette and the index of the subtitles.
pub fn write_idx_file(
    w: &mut String,
    palette_pgc: &[u32; 16],
    lang_2letter: &str,
    width: u32,
    height: u32,
    entries: &[VobSubEntry],
)
    ensures
        final(w)@ == old(w)@ + idx_text(palette_pgc@, lang_2letter@, width, height, entries@),
{
    w.append("# VobSub index file, v7 (do not modify this line!)\n");
    w.append("# \n");
    w.append("# This index block was generated by disc-remuxer\n");
    w.append("# \n");
    w.append("size: ");
    push_dec(w, width as u64);
    w.append("x");
    push_dec(w, height as u64);
    w.append("\n");
    w.append("org: 0, 0\n");
    w.append("alpha: 100%\n");
    w.append("smooth: OFF\n");
    w.append("fadein/out: 50, 50\n");
    w.append("align: OFF at LEFT TOP\n");
    w.append("time offset: 0\n");
    w.append("forced subs: OFF\n");
    w.append("langidx: 0\n");
    assert(w@ =~= old(w)@ + idx_preamble(width, height));
    w.append("palette: ");
    push_palette(w, palette_pgc.as_slice());
    w.append("\n");
    w.append("# \n");
    w.append("# end\n");
    w.append("\n");
    w.append("id: ");
    w.append(lang_2letter);
    w.append(", index: 0\n");
    let ghost head = w@;
    let mut i: usize = 0;
    assert(entries@.take(0) =~= Seq::<VobSubEntry>::empty());
    assert(w@ =~= head + idx_lines(entries@.take(0)));
    while i < entries.len()
        invariant
            i <= entries.len(),
            w@ == head + idx_lines(entries@.take(i as int)),
        decreases entries.len() - i,
    {
        push_idx_line(w, entries[i]);
        i = i + 1;
        assert(entries@.take(i as int).drop_last() =~= entries@.take(i - 1));
        assert(w@ =~= head + idx_lines(entries@.take(i as int)));
    }
    assert(entries@.take(i as int) =~= entries@);
    assert(w@ =~= old(w)@ + idx_text(palette_pgc@, lang_2letter@, width, height, entries@));
}

} // verus!
