//! Plain values of the DVD information files (IFO).
//!
//! An IFO holds tables of a count and an array. The array can be missing,
//! which stands as `None` here; a table never has more entries than its count
//! says.
use vstd::prelude::*;
use vstd::slice::slice_subrange;
use crate::text::{dec, pad_left, push_dec_zeros};

verus! {

/// A playback time: hours, minutes and seconds in packed BCD, and a frame
/// number with the frame rate in its top two bits.
#[derive(Debug, Clone, Copy, PartialEq, Eq, Structural)]
pub struct DvdTime {
    pub hour: u8,
    pub minute: u8,
    pub second: u8,
    pub frame_u: u8,
}

/// One cell of a program chain, as the IFO stores it.
#[derive(Debug, Clone, Copy, PartialEq, Eq, Structural)]
pub struct CellPlayback {
    pub first_sector: u32,
    pub last_sector: u32,
    pub playback_time: DvdTime,
    pub block_mode: u8,
    pub block_type: u8,
    pub seamless_play: u8,
    pub interleaved: u8,
    pub stc_discontinuity: u8,
    pub seamless_angle: u8,
}

/// Chapter entry: program chain and program number.
#[derive(Debug, Clone, Copy, PartialEq, Eq, Structural)]
pub struct PttInfo {
    pub pgcn: u16,
    pub pgn: u16,
}

/// The chapters of one title of a title set.
#[derive(Debug)]
pub struct Ttu {
    pub nr_of_ptts: u16,
    pub ptt: Option<Vec<PttInfo>>,
}

/// One title of the disc.
#[derive(Debug, Clone, Copy, PartialEq, Eq, Structural)]
pub struct TitleInfo {
    pub nr_of_angles: u8,
    pub nr_of_ptts: u16,
    pub parental_id: u16,
    pub title_set_nr: u8,
    pub vts_ttn: u8,
    pub title_set_sector: u32,
}

/// The titles of the disc.
#[derive(Debug)]
pub struct TtSrpt {
    pub nr_of_srpts: u16,
    pub title: Option<Vec<TitleInfo>>,
}

/// The titles of one title set.
#[derive(Debug)]
pub struct VtsPttSrpt {
    pub nr_of_srpts: u16,
    pub title: Option<Vec<Ttu>>,
}

/// A program chain.
#[derive(Debug)]
pub struct Pgc {
    pub nr_of_programs: u8,
    pub nr_of_cells: u8,
    pub playback_time: DvdTime,
    pub still_time: u8,
    pub audio_control: [u16; 8],
    pub subp_control: [u32; 32],
    /// Colours as `0x00 Y Cr Cb`.
    pub palette: [u32; 16],
    /// First cell of each program.
    pub program_map: Option<Vec<u8>>,
    pub cell_playback: Option<Vec<CellPlayback>>,
}

/// Slot of a program chain.
#[derive(Debug)]
pub struct PgciSrp {
    pub pgc: Option<Pgc>,
}

/// The program chains of a title set.
#[derive(Debug)]
pub struct Pgcit {
    pub nr_of_pgci_srp: u16,
    pub pgci_srp: Option<Vec<PgciSrp>>,
}

/// Sector range of one cell on the disc.
#[derive(Debug, Clone, Copy, PartialEq, Eq, Structural)]
pub struct CellAdr {
    pub vob_id: u16,
    pub cell_id: u8,
    pub start_sector: u32,
    pub last_sector: u32,
}

/// The cell address table. Its number of entries follows from `last_byte`.
#[derive(Debug)]
pub struct CAdt {
    pub nr_of_vobs: u16,
    pub last_byte: u32,
    pub cell_adr_table: Option<Vec<CellAdr>>,
}

/// The map of VOBU addresses. Its number of entries follows from `last_byte`.
#[derive(Debug)]
pub struct VobuAdmap {
    pub last_byte: u32,
    pub vobu_start_sectors: Option<Vec<u32>>,
}

/// Time map of one program chain.
#[derive(Debug, Clone, Copy, PartialEq, Eq, Structural)]
pub struct VtsTmap {
    pub tmu: u8,
    pub nr_of_entries: u16,
}

/// The time maps of a title set.
#[derive(Debug)]
pub struct VtsTmapt {
    pub nr_of_tmaps: u16,
    pub tmap: Option<Vec<VtsTmap>>,
}

/// Attributes of a video stream.
#[derive(Debug, Clone, Copy, PartialEq, Eq, Structural)]
pub struct VideoAttr {
    pub mpeg_version: u8,
    pub video_format: u8,
    pub display_aspect_ratio: u8,
    pub permitted_df: u8,
    pub line21_cc_1: u8,
    pub line21_cc_2: u8,
    pub bit_rate: u8,
    pub picture_size: u8,
    pub letterboxed: u8,
    pub film_mode: u8,
}

/// Attributes of an audio stream. `bits` packs, from the lowest bit on:
/// format (3), multichannel extension (1), language type (2), application mode
/// (2), quantization (2), sample frequency (2), one unused bit, and the number
/// of channels less one (3).
#[derive(Debug, Clone, Copy, PartialEq, Eq, Structural)]
pub struct AudioAttr {
    pub bits: u16,
    pub lang_code: u16,
    pub lang_extension: u8,
    pub code_extension: u8,
}

/// Attributes of a subpicture stream.
#[derive(Debug, Clone, Copy, PartialEq, Eq, Structural)]
pub struct SubpAttr {
    pub code_mode: u8,
    pub type_: u8,
    pub lang_code: u16,
    pub lang_extension: u8,
    pub code_extension: u8,
}

/// The management table of the disc.
#[derive(Debug)]
pub struct VmgiMat {
    pub vmg_identifier: [u8; 12],
    pub specification_version: u8,
    pub vmg_category: u32,
    pub vmg_nr_of_volumes: u16,
    pub vmg_this_volume_nr: u16,
    pub disc_side: u8,
    pub vmg_nr_of_title_sets: u16,
    pub provider_identifier: [u8; 32],
    pub vmg_last_sector: u32,
    pub vmgi_last_sector: u32,
    pub vmgi_last_byte: u32,
    pub nr_of_vmgm_audio_streams: u8,
    pub nr_of_vmgm_subp_streams: u8,
}

/// The management table of a title set.
#[derive(Debug)]
pub struct VtsiMat {
    pub vts_category: u32,
    pub specification_version: u8,
    pub vts_last_sector: u32,
    pub vtsi_last_sector: u32,
    pub vtsi_last_byte: u32,
    pub vts_video_attr: VideoAttr,
    pub nr_of_vts_audio_streams: u8,
    pub vts_audio_attr: [AudioAttr; 8],
    pub nr_of_vts_subp_streams: u8,
    pub vts_subp_attr: [SubpAttr; 32],
}

/// Sizes of the parental management table.
#[derive(Debug, Clone, Copy, PartialEq, Eq, Structural)]
pub struct PtlMait {
    pub nr_of_countries: u16,
    pub nr_of_vtss: u16,
}

/// Size of the table of title set attributes.
#[derive(Debug, Clone, Copy, PartialEq, Eq, Structural)]
pub struct VtsAtrt {
    pub nr_of_vtss: u16,
}

/// Which IFO file to open.
#[derive(Debug, Clone, Copy, PartialEq, Eq, Structural)]
pub enum IfoKind {
    /// `VIDEO_TS.IFO`, the file of the whole disc.
    Vmg,
    /// `VTS_<nn>_0.IFO`, the file of one title set, from 1 to 99.
    Vts(u32),
}

/// Number under which an IFO is opened.
pub open spec fn ifo_number(kind: IfoKind) -> u32 {
    match kind {
        IfoKind::Vmg => 0,
        IfoKind::Vts(n) => n,
    }
}

impl IfoKind {
    /// Number under which the IFO is opened: 0 for the disc, else that of the
    /// title set.
    pub fn as_ifo_nr(self) -> (n: u32)
        ensures
            n == ifo_number(self),
    {
        match self {
            IfoKind::Vmg => 0,
            IfoKind::Vts(n) => n,
        }
    }
}

/// The contents of one IFO: the tables of the disc, or those of a title set.
#[derive(Debug)]
pub struct IfoHandle {
    pub kind: IfoKind,
    pub vmgi_mat: Option<VmgiMat>,
    pub tt_srpt: Option<TtSrpt>,
    pub first_play_pgc: Option<Pgc>,
    pub ptl_mait: Option<PtlMait>,
    pub vts_atrt: Option<VtsAtrt>,
    pub vtsi_mat: Option<VtsiMat>,
    pub vts_ptt_srpt: Option<VtsPttSrpt>,
    pub vts_pgcit: Option<Pgcit>,
    pub vts_c_adt: Option<CAdt>,
    pub vts_vobu_admap: Option<VobuAdmap>,
    pub vts_tmapt: Option<VtsTmapt>,
}

/// The first `n` entries of an array, or all where it has fewer; nothing where
/// it is missing.
pub open spec fn entries_of<T>(array: Option<Vec<T>>, n: nat) -> Seq<T> {
    match array {
        Some(v) => if n < v@.len() {
            v@.take(n as int)
        } else {
            v@
        },
        None => Seq::empty(),
    }
}

fn first_entries<'a, T>(array: &'a Option<Vec<T>>, n: usize) -> (r: &'a [T])
    ensures
        r@ == entries_of(*array, n as nat),
{
    match array {
        Some(v) => {
            if n < v.len() {
                slice_subrange(v.as_slice(), 0, n)
            } else {
                v.as_slice()
            }
        },
        None => &[],
    }
}

/// The field of a packed word whose lowest bit weighs `low` and which takes
/// `span` values.
pub open spec fn bits_at(word: u16, low: int, span: int) -> int {
    word as int / low % span
}

impl AudioAttr {
    /// Coding format.
    pub fn audio_format(&self) -> (v: u8)
        ensures
            v as int == bits_at(self.bits, 1, 8),
    {
        (self.bits % 8) as u8
    }

    /// Whether a multichannel extension is there.
    pub fn multichannel_extension(&self) -> (v: u8)
        ensures
            v as int == bits_at(self.bits, 8, 2),
    {
        (self.bits / 8 % 2) as u8
    }

    /// Whether a language code is there.
    pub fn lang_type(&self) -> (v: u8)
        ensures
            v as int == bits_at(self.bits, 16, 4),
    {
        (self.bits / 16 % 4) as u8
    }

    /// Application mode.
    pub fn application_mode(&self) -> (v: u8)
        ensures
            v as int == bits_at(self.bits, 64, 4),
    {
        (self.bits / 64 % 4) as u8
    }

    /// Quantization, or dynamic range control for MPEG audio.
    pub fn quantization(&self) -> (v: u8)
        ensures
            v as int == bits_at(self.bits, 256, 4),
    {
        (self.bits / 256 % 4) as u8
    }

    /// Sample frequency.
    pub fn sample_frequency(&self) -> (v: u8)
        ensures
            v as int == bits_at(self.bits, 1024, 4),
    {
        (self.bits / 1024 % 4) as u8
    }

    /// Number of channels less one.
    pub fn channels_minus_1(&self) -> (v: u8)
        ensures
            v as int == bits_at(self.bits, 8192, 8),
    {
        (self.bits / 8192 % 8) as u8
    }
}

/// The titles of an IFO.
pub open spec fn titles_of(ifo: IfoHandle) -> Seq<TitleInfo> {
    match ifo.tt_srpt {
        Some(t) => entries_of(t.title, t.nr_of_srpts as nat),
        None => Seq::empty(),
    }
}

/// The program chains of an IFO.
pub open spec fn pgcs_of(ifo: IfoHandle) -> Seq<PgciSrp> {
    match ifo.vts_pgcit {
        Some(t) => entries_of(t.pgci_srp, t.nr_of_pgci_srp as nat),
        None => Seq::empty(),
    }
}

/// The titles of a title set.
pub open spec fn ttus_of(ifo: IfoHandle) -> Seq<Ttu> {
    match ifo.vts_ptt_srpt {
        Some(t) => entries_of(t.title, t.nr_of_srpts as nat),
        None => Seq::empty(),
    }
}

/// Index of a number that counts from one; zero counts as one.
pub open spec fn index_of_number(n: int) -> int {
    if n == 0 {
        0
    } else {
        n - 1
    }
}

/// The chapters of title `vts_ttn` of a title set.
pub open spec fn chapters_of(ifo: IfoHandle, vts_ttn: u8) -> Seq<PttInfo> {
    let ttus = ttus_of(ifo);
    let i = index_of_number(vts_ttn as int);
    if i < ttus.len() {
        entries_of(ttus[i].ptt, ttus[i].nr_of_ptts as nat)
    } else {
        Seq::empty()
    }
}

/// Entries of a cell address table that ends at `last_byte`: twelve bytes each
/// behind an eight-byte header.
pub open spec fn cell_adr_entries(last_byte: u32) -> nat {
    if last_byte + 1 < 20 {
        0
    } else {
        ((last_byte + 1 - 8) / 12) as nat
    }
}

/// Entries of a VOBU address map that ends at `last_byte`: four bytes each
/// behind a four-byte header.
pub open spec fn vobu_entries(last_byte: u32) -> nat {
    if last_byte + 1 < 8 {
        0
    } else {
        ((last_byte + 1 - 4) / 4) as nat
    }
}

/// Number of entries of a cell address table.
pub fn cell_adr_count(last_byte: u32) -> (n: usize)
    ensures
        n == cell_adr_entries(last_byte),
{
    let bytes: u64 = last_byte as u64 + 1;
    if bytes < 20 {
        0
    } else {
        ((bytes - 8) / 12) as usize
    }
}

/// Number of entries of a VOBU address map.
pub fn vobu_count(last_byte: u32) -> (n: usize)
    ensures
        n == vobu_entries(last_byte),
{
    let bytes: u64 = last_byte as u64 + 1;
    if bytes < 8 {
        0
    } else {
        ((bytes - 4) / 4) as usize
    }
}

/// The cell address table of an IFO.
pub open spec fn cell_adrs_of(ifo: IfoHandle) -> Seq<CellAdr> {
    match ifo.vts_c_adt {
        Some(t) => entries_of(t.cell_adr_table, cell_adr_entries(t.last_byte)),
        None => Seq::empty(),
    }
}

/// The VOBU starts of an IFO.
pub open spec fn vobus_of(ifo: IfoHandle) -> Seq<u32> {
    match ifo.vts_vobu_admap {
        Some(t) => entries_of(t.vobu_start_sectors, vobu_entries(t.last_byte)),
        None => Seq::empty(),
    }
}

/// The time maps of an IFO.
pub open spec fn tmaps_of(ifo: IfoHandle) -> Seq<VtsTmap> {
    match ifo.vts_tmapt {
        Some(t) => entries_of(t.tmap, t.nr_of_tmaps as nat),
        None => Seq::empty(),
    }
}

impl IfoHandle {
    /// Which IFO this is.
    pub fn kind(&self) -> (k: IfoKind)
        ensures
            k == self.kind,
    {
        self.kind
    }

    /// The management table of the disc.
    pub fn vmgi_mat(&self) -> (r: Option<&VmgiMat>)
        ensures
            match r {
                Some(t) => self.vmgi_mat == Some(*t),
                None => self.vmgi_mat is None,
            },
    {
        self.vmgi_mat.as_ref()
    }

    /// The title table of the disc.
    pub fn tt_srpt(&self) -> (r: Option<&TtSrpt>)
        ensures
            match r {
                Some(t) => self.tt_srpt == Some(*t),
                None => self.tt_srpt is None,
            },
    {
        self.tt_srpt.as_ref()
    }

    /// The program chain that runs when the disc is inserted.
    pub fn first_play_pgc(&self) -> (r: Option<&Pgc>)
        ensures
            match r {
                Some(t) => self.first_play_pgc == Some(*t),
                None => self.first_play_pgc is None,
            },
    {
        self.first_play_pgc.as_ref()
    }

    /// The parental management table.
    pub fn ptl_mait(&self) -> (r: Option<&PtlMait>)
        ensures
            match r {
                Some(t) => self.ptl_mait == Some(*t),
                None => self.ptl_mait is None,
            },
    {
        self.ptl_mait.as_ref()
    }

    /// The table of title set attributes.
    pub fn vts_atrt(&self) -> (r: Option<&VtsAtrt>)
        ensures
            match r {
                Some(t) => self.vts_atrt == Some(*t),
                None => self.vts_atrt is None,
            },
    {
        self.vts_atrt.as_ref()
    }

    /// The management table of the title set.
    pub fn vtsi_mat(&self) -> (r: Option<&VtsiMat>)
        ensures
            match r {
                Some(t) => self.vtsi_mat == Some(*t),
                None => self.vtsi_mat is None,
            },
    {
        self.vtsi_mat.as_ref()
    }

    /// The chapter table of the title set.
    pub fn vts_ptt_srpt(&self) -> (r: Option<&VtsPttSrpt>)
        ensures
            match r {
                Some(t) => self.vts_ptt_srpt == Some(*t),
                None => self.vts_ptt_srpt is None,
            },
    {
        self.vts_ptt_srpt.as_ref()
    }

    /// The program chain table of the title set.
    pub fn vts_pgcit(&self) -> (r: Option<&Pgcit>)
        ensures
            match r {
                Some(t) => self.vts_pgcit == Some(*t),
                None => self.vts_pgcit is None,
            },
    {
        self.vts_pgcit.as_ref()
    }

    /// The cell address table.
    pub fn vts_c_adt(&self) -> (r: Option<&CAdt>)
        ensures
            match r {
                Some(t) => self.vts_c_adt == Some(*t),
                None => self.vts_c_adt is None,
            },
    {
        self.vts_c_adt.as_ref()
    }

    /// The map of VOBU addresses.
    pub fn vts_vobu_admap(&self) -> (r: Option<&VobuAdmap>)
        ensures
            match r {
                Some(t) => self.vts_vobu_admap == Some(*t),
                None => self.vts_vobu_admap is None,
            },
    {
        self.vts_vobu_admap.as_ref()
    }

    /// The time map table.
    pub fn vts_tmapt(&self) -> (r: Option<&VtsTmapt>)
        ensures
            match r {
                Some(t) => self.vts_tmapt == Some(*t),
                None => self.vts_tmapt is None,
            },
    {
        self.vts_tmapt.as_ref()
    }

    /// The titles of the disc; none where this is the IFO of a title set.
    pub fn titles(&self) -> (r: &[TitleInfo])
        ensures
            r@ == titles_of(*self),
    {
        match &self.tt_srpt {
            Some(t) => first_entries(&t.title, t.nr_of_srpts as usize),
            None => &[],
        }
    }

    /// The program chains of the title set.
    pub fn pgcs(&self) -> (r: &[PgciSrp])
        ensures
            r@ == pgcs_of(*self),
    {
        match &self.vts_pgcit {
            Some(t) => first_entries(&t.pgci_srp, t.nr_of_pgci_srp as usize),
            None => &[],
        }
    }

    /// The titles of the title set with their chapters.
    pub fn ttus(&self) -> (r: &[Ttu])
        ensures
            r@ == ttus_of(*self),
    {
        match &self.vts_ptt_srpt {
            Some(t) => first_entries(&t.title, t.nr_of_srpts as usize),
            None => &[],
        }
    }

    /// The chapters of the title that has number `vts_ttn`, from one, within
    /// the title set; none where there is no such title.
    pub fn chapters_for(&self, vts_ttn: u8) -> (r: &[PttInfo])
        ensures
            r@ == chapters_of(*self, vts_ttn),
    {
        let ttus = self.ttus();
        let i: usize = if vts_ttn == 0 {
            0
        } else {
            vts_ttn as usize - 1
        };
        if i < ttus.len() {
            first_entries(&ttus[i].ptt, ttus[i].nr_of_ptts as usize)
        } else {
            &[]
        }
    }

    /// The entries of the cell address table.
    pub fn cell_adr_table(&self) -> (r: &[CellAdr])
        ensures
            r@ == cell_adrs_of(*self),
    {
        match &self.vts_c_adt {
            Some(t) => first_entries(&t.cell_adr_table, cell_adr_count(t.last_byte)),
            None => &[],
        }
    }

    /// The first sectors of the VOBUs.
    pub fn vobu_start_sectors(&self) -> (r: &[u32])
        ensures
            r@ == vobus_of(*self),
    {
        match &self.vts_vobu_admap {
            Some(t) => first_entries(&t.vobu_start_sectors, vobu_count(t.last_byte)),
            None => &[],
        }
    }

    /// The time maps.
    pub fn tmaps(&self) -> (r: &[VtsTmap])
        ensures
            r@ == tmaps_of(*self),
    {
        match &self.vts_tmapt {
            Some(t) => first_entries(&t.tmap, t.nr_of_tmaps as usize),
            None => &[],
        }
    }
}

impl Pgc {
    /// The cells of the program chain.
    pub fn cells(&self) -> (r: &[CellPlayback])
        ensures
            r@ == entries_of(self.cell_playback, self.nr_of_cells as nat),
    {
        first_entries(&self.cell_playback, self.nr_of_cells as usize)
    }
}

/// The number that a packed BCD byte stands for.
pub open spec fn bcd_value(bcd: u8) -> int {
    bcd as int / 16 * 10 + bcd as int % 16
}

/// Converts a packed BCD byte.
pub fn bcd_to_u8(bcd: u8) -> (v: u8)
    ensures
        v as int == bcd_value(bcd),
{
    bcd / 16 * 10 + bcd % 16
}

/// A packed BCD byte stands for the number that was packed.
pub proof fn lemma_bcd_round_trip(n: u8)
    requires
        n < 100,
    ensures
        bcd_value((n / 10 * 16 + n % 10) as u8) == n as int,
{
}

/// Whole seconds of a playback time.
pub open spec fn time_seconds(t: DvdTime) -> int {
    bcd_value(t.hour) * 3600 + bcd_value(t.minute) * 60 + bcd_value(t.second)
}

/// `HH:MM:SS.FF` of a playback time.
pub open spec fn time_text(t: DvdTime) -> Seq<char> {
    pad_left(dec(bcd_value(t.hour) as nat), 2, '0') + ":"@ + pad_left(
        dec(bcd_value(t.minute) as nat),
        2,
        '0',
    ) + ":"@ + pad_left(dec(bcd_value(t.second) as nat), 2, '0') + "."@ + pad_left(
        dec(bcd_value((t.frame_u % 64) as u8) as nat),
        2,
        '0',
    )
}

/// Formats a playback time as `HH:MM:SS.FF`.
pub fn format_dvd_time(t: &DvdTime) -> (s: String)
    ensures
        s@ == time_text(*t),
{
    let mut out = String::new();
    push_dec_zeros(&mut out, bcd_to_u8(t.hour) as u64, 2);
    out.append(":");
    push_dec_zeros(&mut out, bcd_to_u8(t.minute) as u64, 2);
    out.append(":");
    push_dec_zeros(&mut out, bcd_to_u8(t.second) as u64, 2);
    out.append(".");
    push_dec_zeros(&mut out, bcd_to_u8(t.frame_u % 64) as u64, 2);
    assert(out@ =~= time_text(*t));
    out
}

} // verus!
