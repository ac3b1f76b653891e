//! MPEG-2 Program Stream pack and PES parser, scoped to DVD-Video.
//!
//! A DVD VOB is a sequence of 2048-byte sectors, each holding exactly one
//! MPEG-PS pack: a 14-byte pack header with up to seven stuffing bytes, an
//! optional system header, PES packets, and padding.
use vstd::prelude::*;
use vstd::slice::slice_subrange;
use crate::text::{dec, hex_upper, pad_left, push_dec, push_hex_upper_zeros};

verus! {

/// Size of one DVD sector, which is also the size of one MPEG-PS pack on DVD.
pub const SECTOR_SIZE: usize = 2048;

/// Size of the pack header before any stuffing bytes.
pub const PACK_HEADER_BASE_SIZE: usize = 14;

pub const STREAM_ID_PACK_HEADER: u8 = 0xBA;

pub const STREAM_ID_SYSTEM_HEADER: u8 = 0xBB;

pub const STREAM_ID_PROGRAM_STREAM_MAP: u8 = 0xBC;

pub const STREAM_ID_PRIVATE_1: u8 = 0xBD;

pub const STREAM_ID_PADDING: u8 = 0xBE;

pub const STREAM_ID_PRIVATE_2: u8 = 0xBF;

/// The only video stream id that DVD-Video permits.
pub const STREAM_ID_VIDEO_E0: u8 = 0xE0;

/// Why a sector or a header could not be parsed.
#[derive(Debug)]
#[allow(inconsistent_fields)]
pub enum MpegPsError {
    /// The buffer is too short for `what`.
    TooShort { what: &'static str, need: usize, have: usize },
    /// The pack-start code `00 00 01 BA` is missing.
    BadPackStart { actual: [u8; 4] },
    /// The PES start code `00 00 01` is missing.
    BadPesStart { actual: [u8; 3], offset: usize },
    /// A PES packet declares more bytes than the sector has left.
    OversizePes { length: usize, remaining: usize, offset: usize },
}

/// [`MpegPsError`] over mathematical values.
pub enum MpegPsFault {
    TooShort { what: Seq<char>, need: int, have: int },
    BadPackStart { actual: Seq<u8> },
    BadPesStart { actual: Seq<u8>, offset: int },
    OversizePes { length: int, remaining: int, offset: int },
}

impl View for MpegPsError {
    type V = MpegPsFault;

    open spec fn view(&self) -> MpegPsFault {
        match *self {
            MpegPsError::TooShort { what, need, have } => MpegPsFault::TooShort {
                what: what@,
                need: need as int,
                have: have as int,
            },
            MpegPsError::BadPackStart { actual } => MpegPsFault::BadPackStart { actual: actual@ },
            MpegPsError::BadPesStart { actual, offset } => MpegPsFault::BadPesStart {
                actual: actual@,
                offset: offset as int,
            },
            MpegPsError::OversizePes { length, remaining, offset } => MpegPsFault::OversizePes {
                length: length as int,
                remaining: remaining as int,
                offset: offset as int,
            },
        }
    }
}

/// Decoded MPEG-2 pack header.
///
/// `scr_base` is in 90 kHz units, `scr_ext` in 27 MHz / 300 units, and
/// `program_mux_rate` in units of 50 bytes per second.
#[derive(Debug, Clone, Copy)]
pub struct PackHeader {
    pub scr_base: u64,
    pub scr_ext: u16,
    pub program_mux_rate: u32,
    pub stuffing_length: u8,
    /// All four SCR marker bits and both mux-rate marker bits were 1.
    pub markers_ok: bool,
}

/// The 33-bit system clock reference: bits 32..30 and 29..28 in byte 4,
/// 27..20 in byte 5, 19..15 and 14..13 in byte 6, 12..5 in byte 7, 4..0 in
/// byte 8, with marker bits between the groups.
pub open spec fn scr_base_of(b: Seq<u8>) -> int {
    (b[4] as int / 8 % 8) * 0x4000_0000 + (b[4] as int % 4) * 0x1000_0000 + b[5] as int
        * 0x10_0000 + (b[6] as int / 8) * 0x8000 + (b[6] as int % 4) * 0x2000 + b[7] as int * 0x20
        + b[8] as int / 8
}

/// The nine-bit clock extension: bits 8..7 in byte 8, 6..0 in byte 9.
pub open spec fn scr_ext_of(b: Seq<u8>) -> int {
    (b[8] as int % 4) * 128 + b[9] as int / 2
}

/// The 22-bit mux rate in bytes 10 to 12.
pub open spec fn mux_rate_of(b: Seq<u8>) -> int {
    b[10] as int * 0x4000 + b[11] as int * 0x40 + b[12] as int / 4
}

/// The bit of that weight is set in a byte.
pub open spec fn bit_set(b: u8, weight: int) -> bool {
    b as int / weight % 2 == 1
}

/// All six marker bits of the pack header are 1.
pub open spec fn markers_of(b: Seq<u8>) -> bool {
    bit_set(b[4], 4) && bit_set(b[6], 4) && bit_set(b[8], 4) && bit_set(b[9], 1) && bit_set(
        b[12],
        2,
    ) && bit_set(b[12], 1)
}

/// `buf` begins with `00 00 01 BA`.
pub open spec fn has_pack_start(buf: Seq<u8>) -> bool {
    buf[0] == 0 && buf[1] == 0 && buf[2] == 1 && buf[3] == STREAM_ID_PACK_HEADER
}

/// Whether a buffer begins with the pack-start code.
pub fn starts_with_pack(buf: &[u8]) -> (b: bool)
    ensures
        b == (buf@.len() >= 4 && has_pack_start(buf@)),
{
    buf.len() >= 4 && buf[0] == 0 && buf[1] == 0 && buf[2] == 1 && buf[3] == STREAM_ID_PACK_HEADER
}

/// What [`PackHeader::parse`] returns on `buf`.
pub open spec fn pack_header_of(buf: Seq<u8>) -> Result<PackHeader, MpegPsFault> {
    if buf.len() < PACK_HEADER_BASE_SIZE {
        Err(
            MpegPsFault::TooShort {
                what: "pack header"@,
                need: PACK_HEADER_BASE_SIZE as int,
                have: buf.len() as int,
            },
        )
    } else if !has_pack_start(buf) {
        Err(MpegPsFault::BadPackStart { actual: buf.take(4) })
    } else {
        Ok(
            PackHeader {
                scr_base: scr_base_of(buf) as u64,
                scr_ext: scr_ext_of(buf) as u16,
                program_mux_rate: mux_rate_of(buf) as u32,
                stuffing_length: (buf[13] % 8) as u8,
                markers_ok: markers_of(buf),
            },
        )
    }
}

/// Size of a pack header with its stuffing.
pub open spec fn pack_size(p: PackHeader) -> int {
    PACK_HEADER_BASE_SIZE + p.stuffing_length
}

impl PackHeader {
    /// Parses the pack header at the start of `buf`.
    pub fn parse(buf: &[u8]) -> (r: Result<Self, MpegPsError>)
        ensures
            match r {
                Ok(p) => pack_header_of(buf@) == Ok::<PackHeader, MpegPsFault>(p),
                Err(e) => pack_header_of(buf@) == Err::<PackHeader, MpegPsFault>(e@),
            },
    {
        if buf.len() < PACK_HEADER_BASE_SIZE {
            return Err(
                MpegPsError::TooShort {
                    what: "pack header",
                    need: PACK_HEADER_BASE_SIZE,
                    have: buf.len(),
                },
            );
        }
        if buf[0] != 0 || buf[1] != 0 || buf[2] != 1 || buf[3] != STREAM_ID_PACK_HEADER {
            let actual: [u8; 4] = [buf[0], buf[1], buf[2], buf[3]];
            assert(actual@ =~= buf@.take(4));
            return Err(MpegPsError::BadPackStart { actual });
        }
        let b4: u64 = buf[4] as u64;
        let b5: u64 = buf[5] as u64;
        let b6: u64 = buf[6] as u64;
        let b7: u64 = buf[7] as u64;
        let b8: u64 = buf[8] as u64;
        let b9: u64 = buf[9] as u64;
        let scr_base: u64 = (b4 / 8 % 8) * 0x4000_0000 + (b4 % 4) * 0x1000_0000 + b5 * 0x10_0000
            + (b6 / 8) * 0x8000 + (b6 % 4) * 0x2000 + b7 * 0x20 + b8 / 8;
        let scr_ext: u64 = (b8 % 4) * 128 + b9 / 2;
        let b10: u32 = buf[10] as u32;
        let b11: u32 = buf[11] as u32;
        let b12: u32 = buf[12] as u32;
        let program_mux_rate: u32 = b10 * 0x4000 + b11 * 0x40 + b12 / 4;
        let markers_ok = b4 / 4 % 2 == 1 && b6 / 4 % 2 == 1 && b8 / 4 % 2 == 1 && b9 % 2 == 1
            && b12 / 2 % 2 == 1 && b12 % 2 == 1;
        Ok(
            PackHeader {
                scr_base,
                scr_ext: scr_ext as u16,
                program_mux_rate,
                stuffing_length: buf[13] % 8,
                markers_ok,
            },
        )
    }

    /// Size of this pack header in the stream, stuffing counted.
    pub fn total_size(self) -> (size: usize)
        ensures
            size == pack_size(self),
    {
        PACK_HEADER_BASE_SIZE + self.stuffing_length as usize
    }

    /// The 27 MHz system clock reference.
    pub fn scr_27mhz(self) -> (scr: u64)
        requires
            self.scr_base * 300 + self.scr_ext <= u64::MAX,
        ensures
            scr == self.scr_base * 300 + self.scr_ext,
    {
        self.scr_base * 300 + self.scr_ext as u64
    }
}

/// Every header that [`PackHeader::parse`] accepts has fields within their bit
/// widths, so its 27 MHz clock reference can always be computed.
pub proof fn lemma_pack_header_bounds(buf: Seq<u8>)
    ensures
        pack_header_of(buf) matches Ok(p) ==> {
            &&& p.scr_base < 0x2_0000_0000
            &&& p.scr_ext < 512
            &&& p.program_mux_rate < 0x40_0000
            &&& p.stuffing_length < 8
            &&& p.scr_base * 300 + p.scr_ext <= u64::MAX
        },
{
}

/// One PES packet inside a pack. `raw` covers the packet from `00 00 01`
/// to the end of its declared length; `payload` is what follows its header.
#[derive(Debug, Clone, Copy)]
pub struct PesPacket<'a> {
    pub stream_id: u8,
    /// First byte of the PES payload for private streams 1 and 2; `None` for
    /// any other stream id.
    pub substream_id: Option<u8>,
    /// Byte offset of `00 00 01` within the sector.
    pub sector_offset: usize,
    /// Size of the whole packet.
    pub total_size: usize,
    /// Bytes of `raw` taken by the header, the substream byte counted.
    pub header_size: usize,
    pub raw: &'a [u8],
    pub payload: &'a [u8],
}

/// [`PesPacket`] over mathematical values.
pub struct Pes {
    pub stream_id: u8,
    pub substream_id: Option<u8>,
    pub sector_offset: int,
    pub total_size: int,
    pub header_size: int,
    pub raw: Seq<u8>,
    pub payload: Seq<u8>,
}

impl<'a> View for PesPacket<'a> {
    type V = Pes;

    open spec fn view(&self) -> Pes {
        Pes {
            stream_id: self.stream_id,
            substream_id: self.substream_id,
            sector_offset: self.sector_offset as int,
            total_size: self.total_size as int,
            header_size: self.header_size as int,
            raw: self.raw@,
            payload: self.payload@,
        }
    }
}

/// Classification of a stream id and substream id pair into the elementary
/// stream categories of DVD-Video.
#[derive(Debug, Clone, Copy, PartialEq, Eq, Structural, Hash)]
pub enum StreamKind {
    /// `0xE0..=0xEF` MPEG-2 video; DVD permits only `0xE0`.
    Video(u8),
    /// `0xC0..=0xDF` MPEG-1/2 audio.
    MpegAudio(u8),
    /// `0xBD` / `0x80..=0x87` AC-3 audio, by stream number.
    Ac3(u8),
    /// `0xBD` / `0x88..=0x8F` DTS audio, by stream number.
    Dts(u8),
    /// `0xBD` / `0xA0..=0xA7` LPCM audio, by stream number.
    Lpcm(u8),
    /// `0xBD` / `0x20..=0x3F` subpicture, by stream number.
    Subpicture(u8),
    /// `0xBB` system header.
    SystemHeader,
    /// `0xBE` padding stream.
    Padding,
    /// `0xBF` private stream 2, the navigation pack.
    NavPack,
    /// Anything else, with both ids kept.
    Unknown { stream_id: u8, substream_id: Option<u8> },
}

/// Two upper-case hexadecimal digits behind `0x`.
pub open spec fn hex_byte(b: u8) -> Seq<char> {
    "0x"@ + pad_left(hex_upper(b as nat), 2, '0')
}

/// The text of [`StreamKind::label`].
pub open spec fn kind_label(k: StreamKind) -> Seq<char> {
    match k {
        StreamKind::Video(id) => "video MPEG-2 stream "@ + hex_byte(id),
        StreamKind::MpegAudio(id) => "MPEG audio stream "@ + hex_byte(id),
        StreamKind::Ac3(n) => "AC-3 audio stream "@ + dec(n as nat),
        StreamKind::Dts(n) => "DTS audio stream "@ + dec(n as nat),
        StreamKind::Lpcm(n) => "LPCM audio stream "@ + dec(n as nat),
        StreamKind::Subpicture(n) => "subpicture stream "@ + dec(n as nat),
        StreamKind::SystemHeader => "system header"@,
        StreamKind::Padding => "padding"@,
        StreamKind::NavPack => "NV_PCK (navigation)"@,
        StreamKind::Unknown { stream_id, substream_id: Some(sub) } => "unknown stream "@
            + hex_byte(stream_id) + "/"@ + hex_byte(sub),
        StreamKind::Unknown { stream_id, substream_id: None } => "unknown stream "@ + hex_byte(
            stream_id,
        ),
    }
}

/// The kinds whose bytes belong to an elementary stream.
pub open spec fn kind_is_elementary(k: StreamKind) -> bool {
    k is Video || k is MpegAudio || k is Ac3 || k is Dts || k is Lpcm || k is Subpicture
}

/// The kind of a PES packet by its ids.
pub open spec fn kind_of(stream_id: u8, substream_id: Option<u8>) -> StreamKind {
    if stream_id == STREAM_ID_SYSTEM_HEADER {
        StreamKind::SystemHeader
    } else if stream_id == STREAM_ID_PADDING {
        StreamKind::Padding
    } else if stream_id == STREAM_ID_PRIVATE_2 {
        StreamKind::NavPack
    } else if stream_id == STREAM_ID_PRIVATE_1 {
        match substream_id {
            Some(s) if 0x20 <= s <= 0x3F => StreamKind::Subpicture((s - 0x20) as u8),
            Some(s) if 0x80 <= s <= 0x87 => StreamKind::Ac3((s - 0x80) as u8),
            Some(s) if 0x88 <= s <= 0x8F => StreamKind::Dts((s - 0x88) as u8),
            Some(s) if 0xA0 <= s <= 0xA7 => StreamKind::Lpcm((s - 0xA0) as u8),
            _ => StreamKind::Unknown { stream_id, substream_id },
        }
    } else if 0xC0 <= stream_id <= 0xDF {
        StreamKind::MpegAudio(stream_id)
    } else if 0xE0 <= stream_id <= 0xEF {
        StreamKind::Video(stream_id)
    } else {
        StreamKind::Unknown { stream_id, substream_id }
    }
}

pub fn push_hex_byte(out: &mut String, b: u8)
    ensures
        final(out)@ == old(out)@ + hex_byte(b),
{
    out.append("0x");
    push_hex_upper_zeros(out, b as u64, 2);
    assert(out@ =~= old(out)@ + hex_byte(b));
}

impl StreamKind {
    /// Human-readable label for reports.
    pub fn label(self) -> (s: String)
        ensures
            s@ == kind_label(self),
    {
        let mut out = String::new();
        match self {
            StreamKind::Video(id) => {
                out.append("video MPEG-2 stream ");
                push_hex_byte(&mut out, id);
            },
            StreamKind::MpegAudio(id) => {
                out.append("MPEG audio stream ");
                push_hex_byte(&mut out, id);
            },
            StreamKind::Ac3(n) => {
                out.append("AC-3 audio stream ");
                push_dec(&mut out, n as u64);
            },
            StreamKind::Dts(n) => {
                out.append("DTS audio stream ");
                push_dec(&mut out, n as u64);
            },
            StreamKind::Lpcm(n) => {
                out.append("LPCM audio stream ");
                push_dec(&mut out, n as u64);
            },
            StreamKind::Subpicture(n) => {
                out.append("subpicture stream ");
                push_dec(&mut out, n as u64);
            },
            StreamKind::SystemHeader => out.append("system header"),
            StreamKind::Padding => out.append("padding"),
            StreamKind::NavPack => out.append("NV_PCK (navigation)"),
            StreamKind::Unknown { stream_id, substream_id } => {
                out.append("unknown stream ");
                push_hex_byte(&mut out, stream_id);
                if let Some(sub) = substream_id {
                    out.append("/");
                    push_hex_byte(&mut out, sub);
                }
            },
        }
        assert(out@ =~= kind_label(self));
        out
    }

    /// True if this kind carries elementary-stream bytes that the demuxer
    /// routes to an output file.
    pub fn is_elementary_data(self) -> (b: bool)
        ensures
            b == kind_is_elementary(self),
    {
        matches!(
            self,
            StreamKind::Video(_)
                | StreamKind::MpegAudio(_)
                | StreamKind::Ac3(_)
                | StreamKind::Dts(_)
                | StreamKind::Lpcm(_)
                | StreamKind::Subpicture(_)
        )
    }
}

/// Classifies a PES stream id and substream id pair.
pub fn stream_kind(stream_id: u8, substream_id: Option<u8>) -> (k: StreamKind)
    ensures
        k == kind_of(stream_id, substream_id),
{
    if stream_id == STREAM_ID_SYSTEM_HEADER {
        return StreamKind::SystemHeader;
    }
    if stream_id == STREAM_ID_PADDING {
        return StreamKind::Padding;
    }
    if stream_id == STREAM_ID_PRIVATE_2 {
        return StreamKind::NavPack;
    }
    if stream_id == STREAM_ID_PRIVATE_1 {
        if let Some(s) = substream_id {
            if 0x20 <= s && s <= 0x3F {
                return StreamKind::Subpicture(s - 0x20);
            }
            if 0x80 <= s && s <= 0x87 {
                return StreamKind::Ac3(s - 0x80);
            }
            if 0x88 <= s && s <= 0x8F {
                return StreamKind::Dts(s - 0x88);
            }
            if 0xA0 <= s && s <= 0xA7 {
                return StreamKind::Lpcm(s - 0xA0);
            }
        }
        return StreamKind::Unknown { stream_id, substream_id };
    }
    if 0xC0 <= stream_id && stream_id <= 0xDF {
        return StreamKind::MpegAudio(stream_id);
    }
    if 0xE0 <= stream_id && stream_id <= 0xEF {
        return StreamKind::Video(stream_id);
    }
    StreamKind::Unknown { stream_id, substream_id }
}

/// `00 00 01` stands at `offset`.
pub open spec fn has_pes_start(buf: Seq<u8>, offset: int) -> bool {
    buf[offset] == 0 && buf[offset + 1] == 0 && buf[offset + 2] == 1
}

/// Packets whose whole length counts as header.
pub open spec fn is_opaque_packet(stream_id: u8) -> bool {
    stream_id == STREAM_ID_SYSTEM_HEADER || stream_id == STREAM_ID_PADDING || stream_id
        == STREAM_ID_PROGRAM_STREAM_MAP
}

/// Packets whose payload starts with a substream id.
pub open spec fn is_private_stream(stream_id: u8) -> bool {
    stream_id == STREAM_ID_PRIVATE_1 || stream_id == STREAM_ID_PRIVATE_2
}

/// The packet that `raw` spells out, found at `offset`. A plain header is nine
/// bytes and the optional fields that the ninth byte counts; on the private
/// streams the substream byte belongs to the header too.
pub open spec fn pes_of_raw(raw: Seq<u8>, offset: int) -> Pes {
    let stream_id = raw[3];
    let body = 9 + raw[8];
    let tagged = is_private_stream(stream_id) && body < raw.len();
    let header_size = if is_opaque_packet(stream_id) {
        raw.len() as int
    } else if tagged {
        body + 1
    } else if body < raw.len() {
        body
    } else {
        raw.len() as int
    };
    Pes {
        stream_id,
        substream_id: if !is_opaque_packet(stream_id) && tagged {
            Some(raw[body])
        } else {
            None
        },
        sector_offset: offset,
        total_size: raw.len() as int,
        header_size,
        raw,
        payload: raw.skip(header_size),
    }
}

/// The packet at `offset`, or why there is none.
pub open spec fn pes_at(buf: Seq<u8>, offset: int) -> Result<Pes, MpegPsFault> {
    let length = buf[offset + 4] * 256 + buf[offset + 5];
    let remaining = buf.len() - offset;
    if remaining < 6 {
        Err(MpegPsFault::TooShort { what: "PES header (6 bytes)"@, need: 6, have: remaining })
    } else if !has_pes_start(buf, offset) {
        Err(MpegPsFault::BadPesStart { actual: buf.subrange(offset, offset + 3), offset })
    } else if 6 + length > remaining {
        Err(MpegPsFault::OversizePes { length, remaining, offset })
    } else if !is_opaque_packet(buf[offset + 3]) && length < 3 {
        Err(MpegPsFault::TooShort { what: "extended PES header"@, need: 9, have: 6 + length })
    } else {
        Ok(pes_of_raw(buf.subrange(offset, offset + 6 + length), offset))
    }
}

/// Parses the PES packet that starts at `buf[offset]`.
pub fn parse_pes<'a>(buf: &'a [u8], offset: usize) -> (r: Result<PesPacket<'a>, MpegPsError>)
    requires
        offset <= buf.len(),
    ensures
        match r {
            Ok(p) => pes_at(buf@, offset as int) == Ok::<Pes, MpegPsFault>(p@),
            Err(e) => pes_at(buf@, offset as int) == Err::<Pes, MpegPsFault>(e@),
        },
{
    let remaining: usize = buf.len() - offset;
    if remaining < 6 {
        return Err(MpegPsError::TooShort { what: "PES header (6 bytes)", need: 6, have: remaining });
    }
    if buf[offset] != 0 || buf[offset + 1] != 0 || buf[offset + 2] != 1 {
        let actual: [u8; 3] = [buf[offset], buf[offset + 1], buf[offset + 2]];
        assert(actual@ =~= buf@.subrange(offset as int, offset + 3));
        return Err(MpegPsError::BadPesStart { actual, offset });
    }
    let stream_id: u8 = buf[offset + 3];
    let packet_length: usize = buf[offset + 4] as usize * 256 + buf[offset + 5] as usize;
    let total_size: usize = 6 + packet_length;
    if total_size > remaining {
        return Err(MpegPsError::OversizePes { length: packet_length, remaining, offset });
    }
    let raw = slice_subrange(buf, offset, offset + total_size);
    let mut header_size: usize = total_size;
    let mut substream_id: Option<u8> = None;
    if stream_id != STREAM_ID_SYSTEM_HEADER && stream_id != STREAM_ID_PADDING && stream_id
        != STREAM_ID_PROGRAM_STREAM_MAP {
        if raw.len() < 9 {
            return Err(
                MpegPsError::TooShort { what: "extended PES header", need: 9, have: raw.len() },
            );
        }
        let body: usize = 9 + raw[8] as usize;
        if body < raw.len() {
            header_size = body;
            if stream_id == STREAM_ID_PRIVATE_1 || stream_id == STREAM_ID_PRIVATE_2 {
                substream_id = Some(raw[body]);
                header_size = body + 1;
            }
        }
    }
    let payload = slice_subrange(raw, header_size, raw.len());
    assert(payload@ =~= raw@.skip(header_size as int));
    Ok(
        PesPacket {
            stream_id,
            substream_id,
            sector_offset: offset,
            total_size,
            header_size,
            raw,
            payload,
        },
    )
}

/// What one sector holds.
#[derive(Debug)]
pub struct SectorContents<'a> {
    pub pack_header: PackHeader,
    pub pes_packets: Vec<PesPacket<'a>>,
    /// Bytes behind the last packet. Normally 0: slack is a padding packet.
    pub trailing_unknown_bytes: usize,
}

/// [`SectorContents`] over mathematical values.
pub struct Sector {
    pub pack_header: PackHeader,
    pub pes_packets: Seq<Pes>,
    pub trailing_unknown_bytes: int,
}

/// The packets of a vector, by their views.
pub open spec fn pes_views(packets: Seq<PesPacket<'_>>) -> Seq<Pes> {
    packets.map_values(|p: PesPacket<'_>| p@)
}

impl<'a> View for SectorContents<'a> {
    type V = Sector;

    open spec fn view(&self) -> Sector {
        Sector {
            pack_header: self.pack_header,
            pes_packets: pes_views(self.pes_packets@),
            trailing_unknown_bytes: self.trailing_unknown_bytes as int,
        }
    }
}

/// The packets from `offset` on and the offset behind the last of them. The
/// walk ends where no start code stands or fewer than six bytes are left.
pub open spec fn pes_walk(buf: Seq<u8>, offset: int) -> Result<(Seq<Pes>, int), MpegPsFault>
    decreases buf.len() - offset,
    when 0 <= offset
{
    if offset + 6 > buf.len() || !has_pes_start(buf, offset) {
        Ok((Seq::empty(), offset))
    } else {
        match pes_at(buf, offset) {
            Err(e) => Err(e),
            Ok(p) => match pes_walk(buf, offset + p.total_size) {
                Err(e) => Err(e),
                Ok((rest, end)) => Ok((seq![p] + rest, end)),
            },
        }
    }
}

/// What [`scan_sector`] returns on `sector`. Only the first 2048 bytes count.
pub open spec fn sector_of(sector: Seq<u8>) -> Result<Sector, MpegPsFault> {
    if sector.len() < SECTOR_SIZE {
        Err(
            MpegPsFault::TooShort {
                what: "DVD sector"@,
                need: SECTOR_SIZE as int,
                have: sector.len() as int,
            },
        )
    } else {
        let buf = sector.take(SECTOR_SIZE as int);
        match pack_header_of(buf) {
            Err(e) => Err(e),
            Ok(pack) => match pes_walk(buf, pack_size(pack)) {
                Err(e) => Err(e),
                Ok((packets, end)) => Ok(
                    Sector {
                        pack_header: pack,
                        pes_packets: packets,
                        trailing_unknown_bytes: SECTOR_SIZE - end,
                    },
                ),
            },
        }
    }
}

/// Parses one 2048-byte DVD sector: the pack header, then the PES packets.
///
/// `_sector_label` names the sector for the caller's own diagnostics.
pub fn scan_sector<'a>(sector: &'a [u8], _sector_label: &str) -> (r: Result<
    SectorContents<'a>,
    MpegPsError,
>)
    ensures
        match r {
            Ok(c) => sector_of(sector@) == Ok::<Sector, MpegPsFault>(c@),
            Err(e) => sector_of(sector@) == Err::<Sector, MpegPsFault>(e@),
        },
{
    if sector.len() < SECTOR_SIZE {
        return Err(
            MpegPsError::TooShort { what: "DVD sector", need: SECTOR_SIZE, have: sector.len() },
        );
    }
    let buf = slice_subrange(sector, 0, SECTOR_SIZE);
    assert(buf@ =~= sector@.take(SECTOR_SIZE as int));
    let pack = match PackHeader::parse(buf) {
        Ok(p) => p,
        Err(e) => return Err(e),
    };
    let mut offset: usize = pack.total_size();
    let mut pes_packets: Vec<PesPacket<'a>> = Vec::new();
    let ghost whole = pes_walk(buf@, offset as int);
    assert(pes_views(pes_packets@) =~= Seq::<Pes>::empty());
    proof {
        lemma_prepend_nothing(whole);
    }
    while offset + 6 <= SECTOR_SIZE && buf[offset] == 0 && buf[offset + 1] == 0 && buf[offset + 2]
        == 1
        invariant
            buf.len() == SECTOR_SIZE,
            offset <= SECTOR_SIZE,
            whole == prepend(pes_views(pes_packets@), pes_walk(buf@, offset as int)),
            sector.len() >= SECTOR_SIZE,
            buf@ == sector@.take(SECTOR_SIZE as int),
            pack_header_of(buf@) == Ok::<PackHeader, MpegPsFault>(pack),
            whole == pes_walk(buf@, pack_size(pack)),
        decreases SECTOR_SIZE - offset,
    {
        let ghost before = pes_views(pes_packets@);
        match parse_pes(buf, offset) {
            Err(e) => {
                assert(whole == Err::<(Seq<Pes>, int), MpegPsFault>(e@));
                return Err(e);
            },
            Ok(pes) => {
                offset = offset + pes.total_size;
                pes_packets.push(pes);
                proof {
                    assert(pes_views(pes_packets@) =~= before.push(pes@));
                    lemma_prepend_step(before, pes@, pes_walk(buf@, offset as int));
                }
            },
        }
    }
    let ghost done = pes_views(pes_packets@);
    assert(done + Seq::<Pes>::empty() =~= done);
    Ok(SectorContents { pack_header: pack, pes_packets, trailing_unknown_bytes: SECTOR_SIZE - offset })
}

/// A walk that comes after `done`.
spec fn prepend(done: Seq<Pes>, walk: Result<(Seq<Pes>, int), MpegPsFault>) -> Result<
    (Seq<Pes>, int),
    MpegPsFault,
> {
    match walk {
        Err(e) => Err(e),
        Ok((rest, end)) => Ok((done + rest, end)),
    }
}

proof fn lemma_prepend_nothing(walk: Result<(Seq<Pes>, int), MpegPsFault>)
    ensures
        prepend(Seq::empty(), walk) == walk,
{
    if let Ok((rest, end)) = walk {
        assert(Seq::<Pes>::empty() + rest =~= rest);
    }
}

proof fn lemma_prepend_step(done: Seq<Pes>, p: Pes, walk: Result<(Seq<Pes>, int), MpegPsFault>)
    ensures
        prepend(done.push(p), walk) == prepend(done, prepend(seq![p], walk)),
{
    if let Ok((rest, end)) = walk {
        assert(done.push(p) + rest =~= done + (seq![p] + rest));
    }
}

/// Bytes of a run of packets.
pub open spec fn packets_size(packets: Seq<Pes>) -> int
    decreases packets.len(),
{
    if packets.len() == 0 {
        0
    } else {
        packets_size(packets.drop_last()) + packets.last().total_size
    }
}

pub proof fn lemma_packets_size_prepend(p: Pes, rest: Seq<Pes>)
    ensures
        packets_size(seq![p] + rest) == p.total_size + packets_size(rest),
    decreases rest.len(),
{
    let all = seq![p] + rest;
    if rest.len() == 0 {
        assert(all.drop_last() =~= Seq::<Pes>::empty());
        assert(packets_size(all.drop_last()) == 0);
        assert(packets_size(rest) == 0);
    } else {
        assert(all.drop_last() =~= seq![p] + rest.drop_last());
        lemma_packets_size_prepend(p, rest.drop_last());
    }
}

/// `p` is cut out of `buf` at its own offset, and its header and payload make
/// up the whole packet.
pub open spec fn pes_sits_in(buf: Seq<u8>, p: Pes) -> bool {
    &&& 6 <= p.total_size
    &&& 0 <= p.sector_offset
    &&& p.sector_offset + p.total_size <= buf.len()
    &&& p.raw == buf.subrange(p.sector_offset, p.sector_offset + p.total_size)
    &&& has_pes_start(p.raw, 0)
    &&& p.stream_id == p.raw[3]
    &&& 6 <= p.header_size <= p.total_size
    &&& p.payload == p.raw.skip(p.header_size)
    &&& p.substream_id is Some ==> p.header_size >= 10 && p.substream_id == Some(
        p.raw[p.header_size - 1],
    )
    &&& p.substream_id is Some ==> is_private_stream(p.stream_id)
}

proof fn lemma_walk_tiles(buf: Seq<u8>, offset: int)
    requires
        0 <= offset <= buf.len(),
    ensures
        pes_walk(buf, offset) matches Ok((packets, end)) ==> {
            &&& end == offset + packets_size(packets)
            &&& end <= buf.len()
            &&& forall|i: int| 0 <= i < packets.len() ==> pes_sits_in(buf, #[trigger] packets[i])
            &&& forall|i: int|
                0 <= i < packets.len() ==> (#[trigger] packets[i]).sector_offset == offset
                    + packets_size(packets.take(i))
        },
    decreases buf.len() - offset,
{
    if offset + 6 > buf.len() || !has_pes_start(buf, offset) {
    } else if let Ok(p) = pes_at(buf, offset) {
        assert(pes_sits_in(buf, p));
        lemma_walk_tiles(buf, offset + p.total_size);
        if let Ok((rest, end)) = pes_walk(buf, offset + p.total_size) {
            let packets = seq![p] + rest;
            lemma_packets_size_prepend(p, rest);
            assert forall|i: int| 0 <= i < packets.len() implies pes_sits_in(
                buf,
                #[trigger] packets[i],
            ) by {
                if i > 0 {
                    assert(packets[i] == rest[i - 1]);
                }
            }
            assert forall|i: int| 0 <= i < packets.len() implies (
            #[trigger] packets[i]).sector_offset == offset + packets_size(packets.take(i)) by {
                if i > 0 {
                    assert(packets[i] == rest[i - 1]);
                    assert(packets.take(i) =~= seq![p] + rest.take(i - 1));
                    lemma_packets_size_prepend(p, rest.take(i - 1));
                } else {
                    assert(packets.take(0) =~= Seq::<Pes>::empty());
                }
            }
        }
    }
}

/// A scanned sector is accounted for to the byte: pack header, packets and
/// trailing bytes add up to 2048, each packet starts where the one before it
/// ends, and each is a piece of the sector.
pub proof fn lemma_sector_accounted(sector: Seq<u8>)
    ensures
        sector_of(sector) matches Ok(c) ==> {
            &&& pack_size(c.pack_header) + packets_size(c.pes_packets) + c.trailing_unknown_bytes
                == SECTOR_SIZE
            &&& c.trailing_unknown_bytes >= 0
            &&& forall|i: int|
                0 <= i < c.pes_packets.len() ==> pes_sits_in(sector, #[trigger] c.pes_packets[i])
            &&& forall|i: int|
                0 <= i < c.pes_packets.len() ==> (#[trigger] c.pes_packets[i]).sector_offset
                    == pack_size(c.pack_header) + packets_size(c.pes_packets.take(i))
        },
{
    if sector.len() >= SECTOR_SIZE {
        let buf = sector.take(SECTOR_SIZE as int);
        if let Ok(pack) = pack_header_of(buf) {
            lemma_walk_tiles(buf, pack_size(pack));
            if let Ok((packets, end)) = pes_walk(buf, pack_size(pack)) {
                assert forall|i: int| 0 <= i < packets.len() implies pes_sits_in(
                    sector,
                    #[trigger] packets[i],
                ) by {
                    let p = packets[i];
                    assert(pes_sits_in(buf, p));
                    assert(buf.subrange(p.sector_offset, p.sector_offset + p.total_size)
                        =~= sector.subrange(p.sector_offset, p.sector_offset + p.total_size));
                }
            }
        }
    }
}

/// Packets of a sector: each has at least six bytes, and a part of them is not
/// longer than all.
pub proof fn lemma_prefix_size(sector: Seq<u8>, packets: Seq<Pes>, n: int)
    requires
        0 <= n <= packets.len(),
        forall|j: int| 0 <= j < packets.len() ==> pes_sits_in(sector, #[trigger] packets[j]),
    ensures
        6 * n <= packets_size(packets.take(n)) <= packets_size(packets),
    decreases n, packets.len(),
{
    if n > 0 {
        lemma_prefix_size(sector, packets, n - 1);
        assert(packets.take(n).drop_last() =~= packets.take(n - 1));
        assert(pes_sits_in(sector, packets[n - 1]));
    }
    if n < packets.len() {
        let rest = packets.drop_last();
        assert forall|j: int| 0 <= j < rest.len() implies pes_sits_in(
            sector,
            #[trigger] rest[j],
        ) by {
            assert(rest[j] == packets[j]);
        }
        lemma_prefix_size(sector, rest, n);
        assert(rest.take(n) =~= packets.take(n));
        assert(pes_sits_in(sector, packets.last()));
    } else {
        assert(packets.take(n) =~= packets);
    }
}

/// The text of [`MpegPsError::message`].
pub open spec fn fault_message(e: MpegPsFault) -> Seq<char> {
    match e {
        MpegPsFault::TooShort { what, need, have } => "buffer too short for "@ + what + ": need "@
            + dec(need as nat) + " bytes, have "@ + dec(have as nat),
        MpegPsFault::BadPackStart { actual } => "expected pack-start code 00 00 01 BA, got "@
            + hex_list(actual),
        MpegPsFault::BadPesStart { actual, offset } => "expected PES start code 00 00 01, got "@
            + hex_list(actual) + " at offset "@ + dec(offset as nat),
        MpegPsFault::OversizePes { length, remaining, offset } => "PES packet length "@ + dec(
            length as nat,
        ) + " exceeds sector remaining "@ + dec(remaining as nat) + " at offset "@ + dec(
            offset as nat,
        ),
    }
}

/// Bytes as `[00, 00, 01]`.
pub open spec fn hex_list(bytes: Seq<u8>) -> Seq<char> {
    "["@ + hex_items(bytes) + "]"@
}

/// Two upper-case digits for each byte, with `, ` between them.
pub open spec fn hex_items(bytes: Seq<u8>) -> Seq<char>
    decreases bytes.len(),
{
    if bytes.len() == 0 {
        Seq::empty()
    } else {
        hex_items(bytes.drop_last()) + (if bytes.len() > 1 {
            ", "@
        } else {
            Seq::empty()
        }) + pad_left(hex_upper(bytes.last() as nat), 2, '0')
    }
}

fn push_hex_list(out: &mut String, bytes: &[u8])
    ensures
        final(out)@ == old(out)@ + hex_list(bytes@),
{
    out.append("[");
    let mut i: usize = 0;
    assert(bytes@.take(0) =~= Seq::<u8>::empty());
    assert(out@ =~= old(out)@ + "["@ + hex_items(bytes@.take(0)));
    while i < bytes.len()
        invariant
            i <= bytes.len(),
            out@ == old(out)@ + "["@ + hex_items(bytes@.take(i as int)),
        decreases bytes.len() - i,
    {
        if i > 0 {
            out.append(", ");
        }
        push_hex_upper_zeros(out, bytes[i] as u64, 2);
        i = i + 1;
        assert(bytes@.take(i as int).drop_last() =~= bytes@.take(i - 1));
        assert(out@ =~= old(out)@ + "["@ + hex_items(bytes@.take(i as int)));
    }
    assert(bytes@.take(i as int) =~= bytes@);
    out.append("]");
    assert(out@ =~= old(out)@ + hex_list(bytes@));
}

impl MpegPsError {
    /// One line that says what is wrong.
    pub fn message(&self) -> (s: String)
        ensures
            s@ == fault_message(self@),
    {
        let mut out = String::new();
        match self {
            MpegPsError::TooShort { what, need, have } => {
                out.append("buffer too short for ");
                out.append(what);
                out.append(": need ");
                push_dec(&mut out, *need as u64);
                out.append(" bytes, have ");
                push_dec(&mut out, *have as u64);
            },
            MpegPsError::BadPackStart { actual } => {
                out.append("expected pack-start code 00 00 01 BA, got ");
                push_hex_list(&mut out, actual.as_slice());
            },
            MpegPsError::BadPesStart { actual, offset } => {
                out.append("expected PES start code 00 00 01, got ");
                push_hex_list(&mut out, actual.as_slice());
                out.append(" at offset ");
                push_dec(&mut out, *offset as u64);
            },
            MpegPsError::OversizePes { length, remaining, offset } => {
                out.append("PES packet length ");
                push_dec(&mut out, *length as u64);
                out.append(" exceeds sector remaining ");
                push_dec(&mut out, *remaining as u64);
                out.append(" at offset ");
                push_dec(&mut out, *offset as u64);
            },
        }
        assert(out@ =~= fault_message(self@));
        out
    }
}

} // verus!
