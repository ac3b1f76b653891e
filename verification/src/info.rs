//! Everything that the IFO files of a disc say, as text. Every line carries the
//! name of the field that it shows.
use vstd::prelude::*;
use crate::cell::raw_cells_of;
use crate::css::{CssProbe, ProbeMethod};
use crate::decode::{
    audio_application_mode, audio_application_mode_text, audio_format, audio_format_text, audio_ids,
    audio_lang_extension, audio_lang_extension_text, audio_lpcm_quantization,
    audio_lpcm_quantization_text, audio_mpeg_drc, audio_mpeg_drc_text, audio_sample_frequency,
    audio_sample_frequency_text, audio_stream_id, lang_code, lang_letters,
    pgc_audio_control_available, pgc_audio_control_stream_number, pgc_subp_control_available,
    pgc_subp_control_stream_4_3, pgc_subp_control_stream_letterbox,
    pgc_subp_control_stream_pan_scan, pgc_subp_control_stream_wide, picture_size_of,
    subp_lang_extension, subp_lang_extension_text, subp_stream_id, video_aspect_ratio,
    video_aspect_ratio_text, video_format, video_format_text, video_mpeg_version,
    video_mpeg_version_text, video_permitted_df, video_permitted_df_text, video_picture_size,
};
use crate::error::{dvd_error_text, DvdError};
use crate::ifo::{
    bits_at, cell_adrs_of, chapters_of, format_dvd_time, index_of_number, pgcs_of, time_text,
    titles_of, tmaps_of, vobus_of, AudioAttr, CellAdr, CellPlayback, IfoHandle, IfoKind, Pgc,
    PttInfo, SubpAttr, TitleInfo, VmgiMat, VtsTmap, VtsiMat,
};
use crate::reader::{ifo_of, DvdReader};
use crate::text::{
    dec, hex_lower, hex_upper, lossy_text, pad_left, pad_right, push_dec, push_dec_spaces,
    push_dec_zeros, push_hex_lower_zeros, push_hex_upper_zeros, push_right_padded, quoted,
    quoted_text, text_from_utf8_lossy,
};

verus! {

/// `true` or `false`.
pub open spec fn bool_name(b: bool) -> Seq<char> {
    if b {
        "true"@
    } else {
        "false"@
    }
}

fn bool_text(b: bool) -> (s: &'static str)
    ensures
        s@ == bool_name(b),
{
    if b {
        "true"
    } else {
        "false"
    }
}

/// What the verdict means, by the method that gave it.
pub open spec fn verdict_of(method: ProbeMethod, scrambled: bool) -> Seq<char> {
    match method {
        ProbeMethod::LibdvdcssIoctl => if scrambled {
            "SCRAMBLED  (libdvdcss will decrypt sectors transparently)"@
        } else {
            "not scrambled  (sectors readable as plaintext)"@
        },
        ProbeMethod::IsoUdfSector => if scrambled {
            "SCRAMBLED  (raw VOB sector does not start with MPEG-PS pack)"@
        } else {
            "not scrambled  (raw VOB sector starts with MPEG-PS pack 00 00 01 ba)"@
        },
        _ => if scrambled {
            "SCRAMBLED  (VOB sector does not start with MPEG-PS pack — unusual for a directory rip)"@
        } else {
            "not scrambled  (VOB sector starts with MPEG-PS pack 00 00 01 ba)"@
        },
    }
}

fn verdict_text(method: ProbeMethod, scrambled: bool) -> (s: &'static str)
    ensures
        s@ == verdict_of(method, scrambled),
{
    match method {
        ProbeMethod::LibdvdcssIoctl => {
            if scrambled {
                "SCRAMBLED  (libdvdcss will decrypt sectors transparently)"
            } else {
                "not scrambled  (sectors readable as plaintext)"
            }
        },
        ProbeMethod::IsoUdfSector => {
            if scrambled {
                "SCRAMBLED  (raw VOB sector does not start with MPEG-PS pack)"
            } else {
                "not scrambled  (raw VOB sector starts with MPEG-PS pack 00 00 01 ba)"
            }
        },
        _ => {
            if scrambled {
                "SCRAMBLED  (VOB sector does not start with MPEG-PS pack — unusual for a directory rip)"
            } else {
                "not scrambled  (VOB sector starts with MPEG-PS pack 00 00 01 ba)"
            }
        },
    }
}

/// `text` with the line of the verdict behind it.
pub open spec fn with_verdict(text: Seq<char>, p: CssProbe) -> Seq<char> {
    text + "  is_scrambled:  "@ + bool_name(p.is_scrambled) + " -> "@ + verdict_of(
        p.method,
        p.is_scrambled,
    ) + "\n"@
}

/// `text` with a sample and where it was taken behind it.
pub open spec fn with_sample(text: Seq<char>, name: Seq<char>, p: CssProbe) -> Seq<char> {
    let t = match p.probed_location {
        Some(l) => text + name + l@ + "\n"@,
        None => text,
    };
    t + "  first 4 bytes: "@ + pad_left(hex_lower(p.first_bytes@[0] as nat), 2, '0') + " "@
        + pad_left(hex_lower(p.first_bytes@[1] as nat), 2, '0') + " "@ + pad_left(
        hex_lower(p.first_bytes@[2] as nat),
        2,
        '0',
    ) + " "@ + pad_left(hex_lower(p.first_bytes@[3] as nat), 2, '0') + "\n"@
}

/// `text` with a probe behind it.
pub open spec fn with_probe(text: Seq<char>, p: CssProbe) -> Seq<char> {
    let t = match p.method {
        ProbeMethod::LibdvdcssIoctl => with_verdict(
            text + "  probe method:  block device (libdvdcss DVD ioctls, authoritative)\n"@,
            p,
        ),
        ProbeMethod::IsoUdfSector => with_verdict(
            with_sample(
                text + "  probe method:  ISO file (libdvdread UDFFindFile -> raw block read)\n"@,
                "  probed at:     "@,
                p,
            ),
            p,
        ),
        ProbeMethod::VobFile => with_verdict(
            with_sample(
                text + "  probe method:  directory rip (VOB file MPEG-PS magic check)\n"@,
                "  probed VOB:    "@,
                p,
            ),
            p,
        ),
        ProbeMethod::Inconclusive => text + "  probe method:  inconclusive\n"@
            + "  is_scrambled:  UNKNOWN (could not sample a VOB sector)\n"@,
    };
    match p.last_error {
        Some(e) => t + "  libdvdcss last_error: "@ + quoted(e@) + "\n"@,
        None => t,
    }
}

/// `text` with the outcome of the probe behind it.
pub open spec fn with_css_probe(text: Seq<char>, probe: Result<CssProbe, DvdError>) -> Seq<char> {
    let t = text + "CSS protection:\n"@;
    match probe {
        Ok(p) => with_probe(t, p),
        Err(e) => t + "  (libdvdcss could not open the path: "@ + dvd_error_text(e) + ")\n"@,
    }
}

fn print_verdict(w: &mut String, p: &CssProbe)
    ensures
        final(w)@ == with_verdict(old(w)@, *p),
{
    w.append("  is_scrambled:  ");
    w.append(bool_text(p.is_scrambled));
    w.append(" -> ");
    w.append(verdict_text(p.method, p.is_scrambled));
    w.append("\n");
}

fn print_sample(w: &mut String, name: &str, p: &CssProbe)
    ensures
        final(w)@ == with_sample(old(w)@, name@, *p),
{
    if let Some(l) = &p.probed_location {
        w.append(name);
        w.append(l.as_str());
        w.append("\n");
    }
    w.append("  first 4 bytes: ");
    push_hex_lower_zeros(w, p.first_bytes[0] as u64, 2);
    w.append(" ");
    push_hex_lower_zeros(w, p.first_bytes[1] as u64, 2);
    w.append(" ");
    push_hex_lower_zeros(w, p.first_bytes[2] as u64, 2);
    w.append(" ");
    push_hex_lower_zeros(w, p.first_bytes[3] as u64, 2);
    w.append("\n");
}

fn print_probe(w: &mut String, p: &CssProbe)
    ensures
        final(w)@ == with_probe(old(w)@, *p),
{
    match p.method {
        ProbeMethod::LibdvdcssIoctl => {
            w.append("  probe method:  block device (libdvdcss DVD ioctls, authoritative)\n");
            print_verdict(w, p);
        },
        ProbeMethod::IsoUdfSector => {
            w.append("  probe method:  ISO file (libdvdread UDFFindFile -> raw block read)\n");
            print_sample(w, "  probed at:     ", p);
            print_verdict(w, p);
        },
        ProbeMethod::VobFile => {
            w.append("  probe method:  directory rip (VOB file MPEG-PS magic check)\n");
            print_sample(w, "  probed VOB:    ", p);
            print_verdict(w, p);
        },
        ProbeMethod::Inconclusive => {
            w.append("  probe method:  inconclusive\n");
            w.append("  is_scrambled:  UNKNOWN (could not sample a VOB sector)\n");
        },
    }
    if let Some(e) = &p.last_error {
        w.append("  libdvdcss last_error: ");
        w.append(quoted_text(e.as_str()).as_str());
        w.append("\n");
    }
}

fn print_css_probe(w: &mut String, probe: &Result<CssProbe, DvdError>)
    ensures
        final(w)@ == with_css_probe(old(w)@, *probe),
{
    w.append("CSS protection:\n");
    match probe {
        Ok(p) => print_probe(w, p),
        Err(e) => {
            w.append("  (libdvdcss could not open the path: ");
            w.append(e.message().as_str());
            w.append(")\n");
        },
    }
}

/// A text without the NUL characters and spaces at its end.
pub open spec fn without_fill(s: Seq<char>) -> Seq<char>
    decreases s.len(),
{
    if s.len() > 0 && (s.last() == '\0' || s.last() == ' ') {
        without_fill(s.drop_last())
    } else {
        s
    }
}

fn trim_fill<'a>(s: &'a str) -> (r: &'a str)
    ensures
        r@ == without_fill(s@),
{
    let n: usize = s.unicode_len();
    let mut end: usize = n;
    assert(s@.take(n as int) =~= s@);
    while end > 0 && (s.get_char(end - 1) == '\0' || s.get_char(end - 1) == ' ')
        invariant
            end <= n,
            n == s@.len(),
            without_fill(s@) == without_fill(s@.take(end as int)),
        decreases end,
    {
        assert(s@.take(end as int).drop_last() =~= s@.take(end - 1));
        end = end - 1;
    }
    assert(s@.take(end as int) =~= s@.subrange(0, end as int));
    s.substring_char(0, end)
}

/// `text` with the management table of the disc behind it.
pub open spec fn with_vmgi_mat(text: Seq<char>, m: VmgiMat) -> Seq<char> {
    text
        + "VMG (VIDEO_TS.IFO):\n"@
        + "  vmg_identifier:           "@
        + quoted(lossy_text(m.vmg_identifier@))
        + "\n"@
        + "  specification_version:    0x"@
        + pad_left(hex_lower(m.specification_version as nat), 2, '0')
        + "\n"@
        + "  vmg_category:             0x"@
        + pad_left(hex_lower(m.vmg_category as nat), 8, '0')
        + "\n"@
        + "  vmg_nr_of_volumes:        "@
        + dec(m.vmg_nr_of_volumes as nat)
        + "\n"@
        + "  vmg_this_volume_nr:       "@
        + dec(m.vmg_this_volume_nr as nat)
        + "\n"@
        + "  disc_side:                "@
        + dec(m.disc_side as nat)
        + "\n"@
        + "  vmg_nr_of_title_sets:     "@
        + dec(m.vmg_nr_of_title_sets as nat)
        + "\n"@
        + "  vmg_last_sector:          "@
        + dec(m.vmg_last_sector as nat)
        + "\n"@
        + "  vmgi_last_sector:         "@
        + dec(m.vmgi_last_sector as nat)
        + "\n"@
        + "  vmgi_last_byte:           "@
        + dec(m.vmgi_last_byte as nat)
        + "\n"@
        + "  nr_of_vmgm_audio_streams: "@
        + dec(m.nr_of_vmgm_audio_streams as nat)
        + "\n"@
        + "  nr_of_vmgm_subp_streams:  "@
        + dec(m.nr_of_vmgm_subp_streams as nat)
        + "\n"@
        + "  provider_identifier:      "@
        + quoted(without_fill(lossy_text(m.provider_identifier@)))
        + "\n"@
}

fn print_vmgi_mat(w: &mut String, m: &VmgiMat)
    ensures
        final(w)@ == with_vmgi_mat(old(w)@, *m),
{
    w.append("VMG (VIDEO_TS.IFO):\n");
    w.append("  vmg_identifier:           ");
    w.append(quoted_text(text_from_utf8_lossy(m.vmg_identifier.as_slice()).as_str()).as_str());
    w.append("\n");
    w.append("  specification_version:    0x");
    push_hex_lower_zeros(w, m.specification_version as u64, 2);
    w.append("\n");
    w.append("  vmg_category:             0x");
    push_hex_lower_zeros(w, m.vmg_category as u64, 8);
    w.append("\n");
    w.append("  vmg_nr_of_volumes:        ");
    push_dec(w, m.vmg_nr_of_volumes as u64);
    w.append("\n");
    w.append("  vmg_this_volume_nr:       ");
    push_dec(w, m.vmg_this_volume_nr as u64);
    w.append("\n");
    w.append("  disc_side:                ");
    push_dec(w, m.disc_side as u64);
    w.append("\n");
    w.append("  vmg_nr_of_title_sets:     ");
    push_dec(w, m.vmg_nr_of_title_sets as u64);
    w.append("\n");
    w.append("  vmg_last_sector:          ");
    push_dec(w, m.vmg_last_sector as u64);
    w.append("\n");
    w.append("  vmgi_last_sector:         ");
    push_dec(w, m.vmgi_last_sector as u64);
    w.append("\n");
    w.append("  vmgi_last_byte:           ");
    push_dec(w, m.vmgi_last_byte as u64);
    w.append("\n");
    w.append("  nr_of_vmgm_audio_streams: ");
    push_dec(w, m.nr_of_vmgm_audio_streams as u64);
    w.append("\n");
    w.append("  nr_of_vmgm_subp_streams:  ");
    push_dec(w, m.nr_of_vmgm_subp_streams as u64);
    w.append("\n");
    w.append("  provider_identifier:      ");
    w.append(quoted_text(trim_fill(text_from_utf8_lossy(m.provider_identifier.as_slice()).as_str())).as_str());
    w.append("\n");
}

/// `text` with the summary of the disc behind it.
pub open spec fn with_vmg_summary(text: Seq<char>, vmg: IfoHandle) -> Seq<char> {
    match vmg.vmgi_mat {
        Some(m) => with_vmgi_mat(text, m),
        None => text + "VMG IFO opened but vmgi_mat was NULL (parse failure?)\n"@,
    }
}

fn print_vmg_summary(w: &mut String, vmg: &IfoHandle)
    ensures
        final(w)@ == with_vmg_summary(old(w)@, *vmg),
{
    match &vmg.vmgi_mat {
        Some(m) => print_vmgi_mat(w, m),
        None => w.append("VMG IFO opened but vmgi_mat was NULL (parse failure?)\n"),
    }
}

/// `text` with the other tables of the disc behind it.
pub open spec fn with_vmg_extras(text: Seq<char>, vmg: IfoHandle) -> Seq<char> {
    let t = text + "\nVMG ancillary tables:\n"@;
    let t = match vmg.first_play_pgc {
        Some(p) => t + "  first_play_pgc:          present (nr_of_programs="@ + dec(
            p.nr_of_programs as nat,
        ) + " nr_of_cells="@ + dec(p.nr_of_cells as nat) + " playback_time="@ + time_text(
            p.playback_time,
        ) + ")\n"@,
        None => t + "  first_play_pgc:          (none)\n"@,
    };
    let t = match vmg.ptl_mait {
        Some(p) => t + "  ptl_mait:                nr_of_countries="@ + dec(
            p.nr_of_countries as nat,
        ) + " nr_of_vtss="@ + dec(p.nr_of_vtss as nat) + "\n"@,
        None => t + "  ptl_mait:                (no parental management table)\n"@,
    };
    match vmg.vts_atrt {
        Some(a) => t + "  vts_atrt:                nr_of_vtss="@ + dec(a.nr_of_vtss as nat)
            + "\n"@,
        None => t + "  vts_atrt:                (no VTS attribute table)\n"@,
    }
}

fn print_vmg_extras(w: &mut String, vmg: &IfoHandle)
    ensures
        final(w)@ == with_vmg_extras(old(w)@, *vmg),
{
    w.append("\nVMG ancillary tables:\n");
    match &vmg.first_play_pgc {
        Some(p) => {
            w.append("  first_play_pgc:          present (nr_of_programs=");
            push_dec(w, p.nr_of_programs as u64);
            w.append(" nr_of_cells=");
            push_dec(w, p.nr_of_cells as u64);
            w.append(" playback_time=");
            w.append(format_dvd_time(&p.playback_time).as_str());
            w.append(")\n");
        },
        None => w.append("  first_play_pgc:          (none)\n"),
    }
    match &vmg.ptl_mait {
        Some(p) => {
            w.append("  ptl_mait:                nr_of_countries=");
            push_dec(w, p.nr_of_countries as u64);
            w.append(" nr_of_vtss=");
            push_dec(w, p.nr_of_vtss as u64);
            w.append("\n");
        },
        None => w.append("  ptl_mait:                (no parental management table)\n"),
    }
    match &vmg.vts_atrt {
        Some(a) => {
            w.append("  vts_atrt:                nr_of_vtss=");
            push_dec(w, a.nr_of_vtss as u64);
            w.append("\n");
        },
        None => w.append("  vts_atrt:                (no VTS attribute table)\n"),
    }
}

/// `text` with a title of the disc behind it.
pub open spec fn with_title_summary(text: Seq<char>, number: int, t: TitleInfo) -> Seq<char> {
    text
        + "\n  Title "@
        + dec(number as nat)
        + " (tt_srpt["@
        + dec((number - 1) as nat)
        + "]):\n"@
        + "    title_set_nr:       "@
        + dec(t.title_set_nr as nat)
        + "  (VTS that owns this title)\n"@
        + "    vts_ttn:            "@
        + dec(t.vts_ttn as nat)
        + "  (title number within VTS)\n"@
        + "    nr_of_ptts:         "@
        + dec(t.nr_of_ptts as nat)
        + "  (chapter count)\n"@
        + "    nr_of_angles:       "@
        + dec(t.nr_of_angles as nat)
        + "  (angle count)\n"@
        + "    parental_id:        0x"@
        + pad_left(hex_lower(t.parental_id as nat), 4, '0')
        + "\n"@
        + "    title_set_sector:   "@
        + dec(t.title_set_sector as nat)
        + "  (where the VTS starts on disc)\n"@
}

fn print_title_summary(w: &mut String, number: usize, t: &TitleInfo)
    requires
        number >= 1,
    ensures
        final(w)@ == with_title_summary(old(w)@, number as int, *t),
{
    w.append("\n  Title ");
    push_dec(w, number as u64);
    w.append(" (tt_srpt[");
    push_dec(w, (number - 1) as u64);
    w.append("]):\n");
    w.append("    title_set_nr:       ");
    push_dec(w, t.title_set_nr as u64);
    w.append("  (VTS that owns this title)\n");
    w.append("    vts_ttn:            ");
    push_dec(w, t.vts_ttn as u64);
    w.append("  (title number within VTS)\n");
    w.append("    nr_of_ptts:         ");
    push_dec(w, t.nr_of_ptts as u64);
    w.append("  (chapter count)\n");
    w.append("    nr_of_angles:       ");
    push_dec(w, t.nr_of_angles as u64);
    w.append("  (angle count)\n");
    w.append("    parental_id:        0x");
    push_hex_lower_zeros(w, t.parental_id as u64, 4);
    w.append("\n");
    w.append("    title_set_sector:   ");
    push_dec(w, t.title_set_sector as u64);
    w.append("  (where the VTS starts on disc)\n");
}

/// `text` with the management table of a title set behind it.
pub open spec fn with_vtsi_summary(text: Seq<char>, m: VtsiMat) -> Seq<char> {
    text
        + "    vtsi_mat:\n"@
        + "      vts_category:             0x"@
        + pad_left(hex_lower(m.vts_category as nat), 8, '0')
        + "\n"@
        + "      specification_version:    0x"@
        + pad_left(hex_lower(m.specification_version as nat), 2, '0')
        + "\n"@
        + "      vts_last_sector:          "@
        + dec(m.vts_last_sector as nat)
        + "\n"@
        + "      vtsi_last_sector:         "@
        + dec(m.vtsi_last_sector as nat)
        + "\n"@
        + "      vtsi_last_byte:           "@
        + dec(m.vtsi_last_byte as nat)
        + "\n"@
}

fn print_vtsi_summary(w: &mut String, m: &VtsiMat)
    ensures
        final(w)@ == with_vtsi_summary(old(w)@, *m),
{
    w.append("    vtsi_mat:\n");
    w.append("      vts_category:             0x");
    push_hex_lower_zeros(w, m.vts_category as u64, 8);
    w.append("\n");
    w.append("      specification_version:    0x");
    push_hex_lower_zeros(w, m.specification_version as u64, 2);
    w.append("\n");
    w.append("      vts_last_sector:          ");
    push_dec(w, m.vts_last_sector as u64);
    w.append("\n");
    w.append("      vtsi_last_sector:         ");
    push_dec(w, m.vtsi_last_sector as u64);
    w.append("\n");
    w.append("      vtsi_last_byte:           ");
    push_dec(w, m.vtsi_last_byte as u64);
    w.append("\n");
}

/// `text` with the video attributes of a title set behind it.
pub open spec fn with_video_attr(text: Seq<char>, m: VtsiMat) -> Seq<char> {
    text
        + "    vts_video_attr:\n"@
        + "      mpeg_version:          "@
        + dec(m.vts_video_attr.mpeg_version as nat)
        + " ("@
        + video_mpeg_version_text(m.vts_video_attr.mpeg_version)
        + ")\n"@
        + "      video_format:          "@
        + dec(m.vts_video_attr.video_format as nat)
        + " ("@
        + video_format_text(m.vts_video_attr.video_format)
        + ")\n"@
        + "      display_aspect_ratio:  "@
        + dec(m.vts_video_attr.display_aspect_ratio as nat)
        + " ("@
        + video_aspect_ratio_text(m.vts_video_attr.display_aspect_ratio)
        + ")\n"@
        + "      permitted_df:          "@
        + dec(m.vts_video_attr.permitted_df as nat)
        + " ("@
        + video_permitted_df_text(m.vts_video_attr.permitted_df)
        + ")\n"@
        + "      picture_size:          "@
        + dec(m.vts_video_attr.picture_size as nat)
        + " => "@
        + dec(picture_size_of(m.vts_video_attr.picture_size, m.vts_video_attr.video_format).0 as nat)
        + "x"@
        + dec(picture_size_of(m.vts_video_attr.picture_size, m.vts_video_attr.video_format).1 as nat)
        + "\n"@
        + "      letterboxed:           "@
        + dec(m.vts_video_attr.letterboxed as nat)
        + "\n"@
        + "      film_mode:             "@
        + dec(m.vts_video_attr.film_mode as nat)
        + "  (0=video, 1=film/telecine)\n"@
        + "      line21_cc_1:           "@
        + dec(m.vts_video_attr.line21_cc_1 as nat)
        + "  (NTSC line-21 Closed Captions field 1)\n"@
        + "      line21_cc_2:           "@
        + dec(m.vts_video_attr.line21_cc_2 as nat)
        + "  (NTSC line-21 Closed Captions field 2)\n"@
        + "      bit_rate:              "@
        + dec(m.vts_video_attr.bit_rate as nat)
        + "  (0=variable, 1=constant)\n"@
}

fn print_video_attr(w: &mut String, m: &VtsiMat)
    ensures
        final(w)@ == with_video_attr(old(w)@, *m),
{
    let size: (u16, u16) = video_picture_size(
        m.vts_video_attr.picture_size,
        m.vts_video_attr.video_format,
    );
    w.append("    vts_video_attr:\n");
    w.append("      mpeg_version:          ");
    push_dec(w, m.vts_video_attr.mpeg_version as u64);
    w.append(" (");
    w.append(video_mpeg_version(m.vts_video_attr.mpeg_version));
    w.append(")\n");
    w.append("      video_format:          ");
    push_dec(w, m.vts_video_attr.video_format as u64);
    w.append(" (");
    w.append(video_format(m.vts_video_attr.video_format));
    w.append(")\n");
    w.append("      display_aspect_ratio:  ");
    push_dec(w, m.vts_video_attr.display_aspect_ratio as u64);
    w.append(" (");
    w.append(video_aspect_ratio(m.vts_video_attr.display_aspect_ratio));
    w.append(")\n");
    w.append("      permitted_df:          ");
    push_dec(w, m.vts_video_attr.permitted_df as u64);
    w.append(" (");
    w.append(video_permitted_df(m.vts_video_attr.permitted_df));
    w.append(")\n");
    w.append("      picture_size:          ");
    push_dec(w, m.vts_video_attr.picture_size as u64);
    w.append(" => ");
    push_dec(w, size.0 as u64);
    w.append("x");
    push_dec(w, size.1 as u64);
    w.append("\n");
    w.append("      letterboxed:           ");
    push_dec(w, m.vts_video_attr.letterboxed as u64);
    w.append("\n");
    w.append("      film_mode:             ");
    push_dec(w, m.vts_video_attr.film_mode as u64);
    w.append("  (0=video, 1=film/telecine)\n");
    w.append("      line21_cc_1:           ");
    push_dec(w, m.vts_video_attr.line21_cc_1 as u64);
    w.append("  (NTSC line-21 Closed Captions field 1)\n");
    w.append("      line21_cc_2:           ");
    push_dec(w, m.vts_video_attr.line21_cc_2 as u64);
    w.append("  (NTSC line-21 Closed Captions field 2)\n");
    w.append("      bit_rate:              ");
    push_dec(w, m.vts_video_attr.bit_rate as u64);
    w.append("  (0=variable, 1=constant)\n");
}

/// The letters of a packed language code, or the code itself where it has none.
pub open spec fn language_text(raw: u16) -> Seq<char> {
    match lang_letters(raw) {
        Some(s) => s,
        None => "0x"@ + pad_left(hex_lower(raw as nat), 4, '0') + " (invalid)"@,
    }
}

fn language(raw: u16) -> (s: String)
    ensures
        s@ == language_text(raw),
{
    match lang_code(raw) {
        Some(s) => s,
        None => {
            let mut s = "0x".to_owned();
            push_hex_lower_zeros(&mut s, raw as u64, 4);
            s.append(" (invalid)");
            s
        },
    }
}

/// What the quantization of an audio stream means, by its format.
pub open spec fn quantization_text(format: u8, quant: u8) -> Seq<char> {
    match format {
        4 => audio_lpcm_quantization_text(quant),
        2 | 3 => audio_mpeg_drc_text(quant),
        _ => "n/a for this format"@,
    }
}

fn quantization(format: u8, quant: u8) -> (s: &'static str)
    ensures
        s@ == quantization_text(format, quant),
{
    match format {
        4 => audio_lpcm_quantization(quant),
        2 | 3 => audio_mpeg_drc(quant),
        _ => "n/a for this format",
    }
}

/// `text` with the ids of an audio stream behind it.
pub open spec fn with_audio_ids(text: Seq<char>, ids: Option<(u8, Option<u8>)>) -> Seq<char> {
    match ids {
        Some((main, Some(sub))) => text + "          PS stream id:           0x"@ + pad_left(
            hex_upper(main as nat),
            2,
            '0',
        ) + " substream 0x"@ + pad_left(hex_upper(sub as nat), 2, '0') + "\n"@,
        Some((main, None)) => text + "          PS stream id:           0x"@ + pad_left(
            hex_upper(main as nat),
            2,
            '0',
        ) + "\n"@,
        None => text + "          PS stream id:           (unknown format)\n"@,
    }
}

fn print_audio_ids(w: &mut String, ids: Option<(u8, Option<u8>)>)
    ensures
        final(w)@ == with_audio_ids(old(w)@, ids),
{
    match ids {
        Some((main, Some(sub))) => {
            w.append("          PS stream id:           0x");
            push_hex_upper_zeros(w, main as u64, 2);
            w.append(" substream 0x");
            push_hex_upper_zeros(w, sub as u64, 2);
            w.append("\n");
        },
        Some((main, None)) => {
            w.append("          PS stream id:           0x");
            push_hex_upper_zeros(w, main as u64, 2);
            w.append("\n");
        },
        None => w.append("          PS stream id:           (unknown format)\n"),
    }
}

/// `text` with the attributes of an audio stream behind it.
pub open spec fn with_audio_fields(text: Seq<char>, index: int, a: AudioAttr) -> Seq<char> {
    text
        + "      ["@
        + dec(index as nat)
        + "] audio_format="@
        + dec(bits_at(a.bits, 1, 8) as nat)
        + " ("@
        + audio_format_text(bits_at(a.bits, 1, 8) as u8)
        + ")\n"@
        + "          channels="@
        + dec(bits_at(a.bits, 8192, 8) as nat)
        + " ("@
        + dec((bits_at(a.bits, 8192, 8) + 1) as nat)
        + "ch)\n"@
        + "          sample_frequency="@
        + dec(bits_at(a.bits, 1024, 4) as nat)
        + " ("@
        + audio_sample_frequency_text(bits_at(a.bits, 1024, 4) as u8)
        + ")\n"@
        + "          quantization="@
        + dec(bits_at(a.bits, 256, 4) as nat)
        + " ("@
        + quantization_text(bits_at(a.bits, 1, 8) as u8, bits_at(a.bits, 256, 4) as u8)
        + ")\n"@
        + "          multichannel_extension="@
        + dec(bits_at(a.bits, 8, 2) as nat)
        + "\n"@
        + "          application_mode="@
        + dec(bits_at(a.bits, 64, 4) as nat)
        + " ("@
        + audio_application_mode_text(bits_at(a.bits, 64, 4) as u8)
        + ")\n"@
        + "          lang_type="@
        + dec(bits_at(a.bits, 16, 4) as nat)
        + " (1 = language code present)\n"@
        + "          lang_code=0x"@
        + pad_left(hex_lower(a.lang_code as nat), 4, '0')
        + " ("@
        + language_text(a.lang_code)
        + ")\n"@
        + "          lang_extension="@
        + dec(a.lang_extension as nat)
        + " ("@
        + audio_lang_extension_text(a.lang_extension)
        + ")\n"@
        + "          code_extension="@
        + dec(a.code_extension as nat)
        + "\n"@
}

fn print_audio_fields(w: &mut String, index: usize, a: &AudioAttr)
    ensures
        final(w)@ == with_audio_fields(old(w)@, index as int, *a),
{
    let format: u8 = a.audio_format();
    let channels: u8 = a.channels_minus_1();
    let freq: u8 = a.sample_frequency();
    let quant: u8 = a.quantization();
    let mode: u8 = a.application_mode();
    w.append("      [");
    push_dec(w, index as u64);
    w.append("] audio_format=");
    push_dec(w, format as u64);
    w.append(" (");
    w.append(audio_format(format));
    w.append(")\n");
    w.append("          channels=");
    push_dec(w, channels as u64);
    w.append(" (");
    push_dec(w, (channels + 1) as u64);
    w.append("ch)\n");
    w.append("          sample_frequency=");
    push_dec(w, freq as u64);
    w.append(" (");
    w.append(audio_sample_frequency(freq));
    w.append(")\n");
    w.append("          quantization=");
    push_dec(w, quant as u64);
    w.append(" (");
    w.append(quantization(format, quant));
    w.append(")\n");
    w.append("          multichannel_extension=");
    push_dec(w, a.multichannel_extension() as u64);
    w.append("\n");
    w.append("          application_mode=");
    push_dec(w, mode as u64);
    w.append(" (");
    w.append(audio_application_mode(mode));
    w.append(")\n");
    w.append("          lang_type=");
    push_dec(w, a.lang_type() as u64);
    w.append(" (1 = language code present)\n");
    w.append("          lang_code=0x");
    push_hex_lower_zeros(w, a.lang_code as u64, 4);
    w.append(" (");
    w.append(language(a.lang_code).as_str());
    w.append(")\n");
    w.append("          lang_extension=");
    push_dec(w, a.lang_extension as u64);
    w.append(" (");
    w.append(audio_lang_extension(a.lang_extension));
    w.append(")\n");
    w.append("          code_extension=");
    push_dec(w, a.code_extension as u64);
    w.append("\n");
}

/// `text` with an audio stream behind it.
pub open spec fn with_audio_attr(text: Seq<char>, index: int, a: AudioAttr) -> Seq<char> {
    with_audio_ids(
        with_audio_fields(text, index, a),
        audio_ids(bits_at(a.bits, 1, 8) as u8, index as u8),
    )
}

fn print_audio_attr(w: &mut String, index: usize, a: &AudioAttr)
    requires
        index < 8,
    ensures
        final(w)@ == with_audio_attr(old(w)@, index as int, *a),
{
    print_audio_fields(w, index, a);
    print_audio_ids(w, audio_stream_id(a.audio_format(), index as u8));
}

/// `text` with the first `n` audio streams behind it.
pub open spec fn with_audio_attrs(text: Seq<char>, attrs: Seq<AudioAttr>, n: int) -> Seq<char>
    decreases n,
{
    if n <= 0 {
        text
    } else {
        with_audio_attr(with_audio_attrs(text, attrs, n - 1), n - 1, attrs[n - 1])
    }
}

/// `n`, but not more than the slots of a table.
pub open spec fn within_slots(n: u8, slots: int) -> int {
    if n < slots {
        n as int
    } else {
        slots
    }
}

/// `text` with the audio streams of a title set behind it.
pub open spec fn with_audio_streams(text: Seq<char>, m: VtsiMat) -> Seq<char> {
    let n = m.nr_of_vts_audio_streams;
    let t = text + "    vts_audio_attr ("@ + dec(n as nat) + " active streams of 8 slots):\n"@;
    if n == 0 {
        t + "      (no audio streams)\n"@
    } else {
        with_audio_attrs(t, m.vts_audio_attr@, within_slots(n, 8))
    }
}

fn print_audio_streams(w: &mut String, m: &VtsiMat)
    ensures
        final(w)@ == with_audio_streams(old(w)@, *m),
{
    w.append("    vts_audio_attr (");
    push_dec(w, m.nr_of_vts_audio_streams as u64);
    w.append(" active streams of 8 slots):\n");
    if m.nr_of_vts_audio_streams == 0 {
        w.append("      (no audio streams)\n");
        return;
    }
    let ghost head = w@;
    let n: usize = if m.nr_of_vts_audio_streams < 8 {
        m.nr_of_vts_audio_streams as usize
    } else {
        8
    };
    let mut i: usize = 0;
    while i < n
        invariant
            i <= n <= 8,
            w@ == with_audio_attrs(head, m.vts_audio_attr@, i as int),
        decreases n - i,
    {
        print_audio_attr(w, i, &m.vts_audio_attr[i]);
        i = i + 1;
    }
}

/// `text` with a subpicture stream behind it.
pub open spec fn with_subp_attr(text: Seq<char>, index: int, a: SubpAttr) -> Seq<char> {
    text
        + "      ["@
        + dec(index as nat)
        + "] code_mode="@
        + dec(a.code_mode as nat)
        + "  type=0x"@
        + pad_left(hex_lower(a.type_ as nat), 2, '0')
        + "\n"@
        + "          lang_code=0x"@
        + pad_left(hex_lower(a.lang_code as nat), 4, '0')
        + " ("@
        + language_text(a.lang_code)
        + ")\n"@
        + "          lang_extension="@
        + dec(a.lang_extension as nat)
        + " ("@
        + subp_lang_extension_text(a.lang_extension)
        + ")\n"@
        + "          code_extension="@
        + dec(a.code_extension as nat)
        + "\n"@
        + "          PS stream id:           0x"@
        + pad_left(hex_upper(0xBDu8 as nat), 2, '0')
        + " substream 0x"@
        + pad_left(hex_upper((0x20 + index) as nat), 2, '0')
        + "\n"@
}

fn print_subp_attr(w: &mut String, index: usize, a: &SubpAttr)
    requires
        index < 32,
    ensures
        final(w)@ == with_subp_attr(old(w)@, index as int, *a),
{
    let ids: (u8, u8) = subp_stream_id(index as u8);
    w.append("      [");
    push_dec(w, index as u64);
    w.append("] code_mode=");
    push_dec(w, a.code_mode as u64);
    w.append("  type=0x");
    push_hex_lower_zeros(w, a.type_ as u64, 2);
    w.append("\n");
    w.append("          lang_code=0x");
    push_hex_lower_zeros(w, a.lang_code as u64, 4);
    w.append(" (");
    w.append(language(a.lang_code).as_str());
    w.append(")\n");
    w.append("          lang_extension=");
    push_dec(w, a.lang_extension as u64);
    w.append(" (");
    w.append(subp_lang_extension(a.lang_extension));
    w.append(")\n");
    w.append("          code_extension=");
    push_dec(w, a.code_extension as u64);
    w.append("\n");
    w.append("          PS stream id:           0x");
    push_hex_upper_zeros(w, ids.0 as u64, 2);
    w.append(" substream 0x");
    push_hex_upper_zeros(w, ids.1 as u64, 2);
    w.append("\n");
}

/// `text` with the first `n` subpicture streams behind it.
pub open spec fn with_subp_attrs(text: Seq<char>, attrs: Seq<SubpAttr>, n: int) -> Seq<char>
    decreases n,
{
    if n <= 0 {
        text
    } else {
        with_subp_attr(with_subp_attrs(text, attrs, n - 1), n - 1, attrs[n - 1])
    }
}

/// `text` with the subpicture streams of a title set behind it.
pub open spec fn with_subp_streams(text: Seq<char>, m: VtsiMat) -> Seq<char> {
    let n = m.nr_of_vts_subp_streams;
    let t = text + "    vts_subp_attr ("@ + dec(n as nat) + " active streams of 32 slots):\n"@;
    if n == 0 {
        t + "      (no subpicture streams)\n"@
    } else {
        with_subp_attrs(t, m.vts_subp_attr@, within_slots(n, 32))
    }
}

fn print_subp_streams(w: &mut String, m: &VtsiMat)
    ensures
        final(w)@ == with_subp_streams(old(w)@, *m),
{
    w.append("    vts_subp_attr (");
    push_dec(w, m.nr_of_vts_subp_streams as u64);
    w.append(" active streams of 32 slots):\n");
    if m.nr_of_vts_subp_streams == 0 {
        w.append("      (no subpicture streams)\n");
        return;
    }
    let ghost head = w@;
    let n: usize = if m.nr_of_vts_subp_streams < 32 {
        m.nr_of_vts_subp_streams as usize
    } else {
        32
    };
    let mut i: usize = 0;
    while i < n
        invariant
            i <= n <= 32,
            w@ == with_subp_attrs(head, m.vts_subp_attr@, i as int),
        decreases n - i,
    {
        print_subp_attr(w, i, &m.vts_subp_attr[i]);
        i = i + 1;
    }
}

/// `text` with an entry of the cell address table behind it.
pub open spec fn with_cell_adr(text: Seq<char>, e: CellAdr) -> Seq<char> {
    text
        + "      vob_id="@
        + pad_left(dec(e.vob_id as nat), 3, ' ')
        + " cell_id="@
        + pad_left(dec(e.cell_id as nat), 3, ' ')
        + " start="@
        + dec(e.start_sector as nat)
        + " last="@
        + dec(e.last_sector as nat)
        + "\n"@
}

fn print_cell_adr(w: &mut String, e: &CellAdr)
    ensures
        final(w)@ == with_cell_adr(old(w)@, *e),
{
    w.append("      vob_id=");
    push_dec_spaces(w, e.vob_id as u64, 3);
    w.append(" cell_id=");
    push_dec_spaces(w, e.cell_id as u64, 3);
    w.append(" start=");
    push_dec(w, e.start_sector as u64);
    w.append(" last=");
    push_dec(w, e.last_sector as u64);
    w.append("\n");
}

/// `text` with a time map behind it.
pub open spec fn with_tmap(text: Seq<char>, index: int, t: VtsTmap) -> Seq<char> {
    text
        + "      tmap["@
        + dec(index as nat)
        + "]: tmu="@
        + dec(t.tmu as nat)
        + "s nr_of_entries="@
        + dec(t.nr_of_entries as nat)
        + "\n"@
}

fn print_tmap(w: &mut String, index: usize, t: &VtsTmap)
    ensures
        final(w)@ == with_tmap(old(w)@, index as int, *t),
{
    w.append("      tmap[");
    push_dec(w, index as u64);
    w.append("]: tmu=");
    push_dec(w, t.tmu as u64);
    w.append("s nr_of_entries=");
    push_dec(w, t.nr_of_entries as u64);
    w.append("\n");
}

/// `text` with a chapter behind it.
pub open spec fn with_chapter(text: Seq<char>, index: int, p: PttInfo) -> Seq<char> {
    text
        + "      ch "@
        + pad_left(dec((index + 1) as nat), 2, ' ')
        + ": pgcn="@
        + pad_left(dec(p.pgcn as nat), 3, ' ')
        + "  pgn="@
        + pad_left(dec(p.pgn as nat), 3, ' ')
        + "\n"@
}

fn print_chapter(w: &mut String, index: usize, p: &PttInfo)
    requires
        index < usize::MAX,
    ensures
        final(w)@ == with_chapter(old(w)@, index as int, *p),
{
    w.append("      ch ");
    push_dec_spaces(w, (index as u64 + 1) as u64, 2);
    w.append(": pgcn=");
    push_dec_spaces(w, p.pgcn as u64, 3);
    w.append("  pgn=");
    push_dec_spaces(w, p.pgn as u64, 3);
    w.append("\n");
}

/// `text` with the first `n` entries of the cell address table behind it.
pub open spec fn with_cell_adrs(text: Seq<char>, rows: Seq<CellAdr>, n: int) -> Seq<char>
    decreases n,
{
    if n <= 0 {
        text
    } else {
        with_cell_adr(with_cell_adrs(text, rows, n - 1), rows[n - 1])
    }
}

/// `n`, but not more than three.
pub open spec fn preview_of(n: int) -> int {
    if n < 3 {
        n
    } else {
        3
    }
}

/// `text` with the cell address table behind it, as far as its third entry.
pub open spec fn with_c_adt(text: Seq<char>, vts: IfoHandle) -> Seq<char> {
    let rows = cell_adrs_of(vts);
    let vobs = match vts.vts_c_adt {
        Some(c) => c.nr_of_vobs,
        None => 0,
    };
    let t = text + "    vts_c_adt:        nr_of_vobs="@ + dec(vobs as nat)
        + "  cell_adr_table_entries="@ + dec(rows.len()) + "\n"@;
    let t = with_cell_adrs(t, rows, preview_of(rows.len() as int));
    if rows.len() > 3 {
        t + "      ... ("@ + dec((rows.len() - 3) as nat) + " more)\n"@
    } else {
        t
    }
}

fn print_c_adt(w: &mut String, vts: &IfoHandle)
    ensures
        final(w)@ == with_c_adt(old(w)@, *vts),
{
    let rows = vts.cell_adr_table();
    let vobs: u16 = match &vts.vts_c_adt {
        Some(c) => c.nr_of_vobs,
        None => 0,
    };
    w.append("    vts_c_adt:        nr_of_vobs=");
    push_dec(w, vobs as u64);
    w.append("  cell_adr_table_entries=");
    push_dec(w, rows.len() as u64);
    w.append("\n");
    let ghost head = w@;
    let n: usize = if rows.len() < 3 {
        rows.len()
    } else {
        3
    };
    let mut i: usize = 0;
    while i < n
        invariant
            i <= n <= rows.len(),
            w@ == with_cell_adrs(head, rows@, i as int),
        decreases n - i,
    {
        print_cell_adr(w, &rows[i]);
        i = i + 1;
    }
    if rows.len() > 3 {
        w.append("      ... (");
        push_dec(w, (rows.len() - 3) as u64);
        w.append(" more)\n");
    }
}

/// `text` with the VOBU address map behind it: its size, first and last entry.
pub open spec fn with_vobu_admap(text: Seq<char>, vobus: Seq<u32>) -> Seq<char> {
    let t = text + "    vts_vobu_admap:   vobu_start_sectors_entries="@ + dec(vobus.len());
    if vobus.len() == 0 {
        t + "\n"@
    } else {
        t + "  (first/last VOBU starts logged below)"@ + "\n"@
            + "      first VOBU start sector: "@ + dec(vobus.first() as nat) + "\n"@
            + "      last  VOBU start sector: "@ + dec(vobus.last() as nat) + "\n"@
    }
}

fn print_vobu_admap(w: &mut String, vobus: &[u32])
    ensures
        final(w)@ == with_vobu_admap(old(w)@, vobus@),
{
    w.append("    vts_vobu_admap:   vobu_start_sectors_entries=");
    push_dec(w, vobus.len() as u64);
    if vobus.len() == 0 {
        w.append("\n");
        return;
    }
    w.append("  (first/last VOBU starts logged below)");
    w.append("\n");
    w.append("      first VOBU start sector: ");
    push_dec(w, vobus[0] as u64);
    w.append("\n");
    w.append("      last  VOBU start sector: ");
    push_dec(w, vobus[vobus.len() - 1] as u64);
    w.append("\n");
}

/// `text` with the first `n` time maps behind it.
pub open spec fn with_tmaps(text: Seq<char>, tmaps: Seq<VtsTmap>, n: int) -> Seq<char>
    decreases n,
{
    if n <= 0 {
        text
    } else {
        with_tmap(with_tmaps(text, tmaps, n - 1), n - 1, tmaps[n - 1])
    }
}

/// `text` with the address tables of a title set behind it.
pub open spec fn with_vts_address_tables(text: Seq<char>, vts: IfoHandle) -> Seq<char> {
    let tmaps = tmaps_of(vts);
    let t = with_vobu_admap(with_c_adt(text, vts), vobus_of(vts))
        + "    vts_tmapt:        nr_of_tmaps="@ + dec(tmaps.len()) + "\n"@;
    with_tmaps(t, tmaps, tmaps.len() as int)
}

fn print_vts_address_tables(w: &mut String, vts: &IfoHandle)
    ensures
        final(w)@ == with_vts_address_tables(old(w)@, *vts),
{
    print_c_adt(w, vts);
    print_vobu_admap(w, vts.vobu_start_sectors());
    let tmaps = vts.tmaps();
    w.append("    vts_tmapt:        nr_of_tmaps=");
    push_dec(w, tmaps.len() as u64);
    w.append("\n");
    let ghost head = w@;
    let mut i: usize = 0;
    while i < tmaps.len()
        invariant
            i <= tmaps.len(),
            w@ == with_tmaps(head, tmaps@, i as int),
        decreases tmaps.len() - i,
    {
        print_tmap(w, i, &tmaps[i]);
        i = i + 1;
    }
}

/// `text` with the first `n` chapters behind it.
pub open spec fn with_chapters(text: Seq<char>, chapters: Seq<PttInfo>, n: int) -> Seq<char>
    decreases n,
{
    if n <= 0 {
        text
    } else {
        with_chapter(with_chapters(text, chapters, n - 1), n - 1, chapters[n - 1])
    }
}

/// `text` with the chapters of a title behind it.
pub open spec fn with_chapter_list(text: Seq<char>, vts: IfoHandle, vts_ttn: u8) -> Seq<char> {
    let chapters = chapters_of(vts, vts_ttn);
    let t = text + "    chapters for vts_ttn="@ + dec(vts_ttn as nat) + " ("@ + dec(chapters.len())
        + " entries):\n"@;
    if chapters.len() == 0 {
        t + "      (no chapter entries)\n"@
    } else {
        with_chapters(t, chapters, chapters.len() as int)
    }
}

fn print_chapter_list(w: &mut String, vts: &IfoHandle, vts_ttn: u8)
    ensures
        final(w)@ == with_chapter_list(old(w)@, *vts, vts_ttn),
{
    let chapters = vts.chapters_for(vts_ttn);
    w.append("    chapters for vts_ttn=");
    push_dec(w, vts_ttn as u64);
    w.append(" (");
    push_dec(w, chapters.len() as u64);
    w.append(" entries):\n");
    if chapters.len() == 0 {
        w.append("      (no chapter entries)\n");
        return;
    }
    let ghost head = w@;
    let mut i: usize = 0;
    while i < chapters.len()
        invariant
            i <= chapters.len(),
            w@ == with_chapters(head, chapters@, i as int),
        decreases chapters.len() - i,
    {
        print_chapter(w, i, &chapters[i]);
        i = i + 1;
    }
}

/// Slots among the first `n` that are in use.
pub open spec fn audio_slots(ctrl: Seq<u16>, n: int) -> int
    decreases n,
{
    if n <= 0 {
        0
    } else {
        audio_slots(ctrl, n - 1) + (if ctrl[n - 1] >= 0x8000 {
            1int
        } else {
            0
        })
    }
}

/// The letters of a packed language code; nothing where it has none.
pub open spec fn letters_or_nothing(raw: u16) -> Seq<char> {
    match lang_letters(raw) {
        Some(s) => s,
        None => Seq::empty(),
    }
}

fn letters(raw: u16) -> (s: String)
    ensures
        s@ == letters_or_nothing(raw),
{
    match lang_code(raw) {
        Some(s) => s,
        None => String::new(),
    }
}

/// `text` with the ids of an audio stream behind it, in short.
pub open spec fn with_short_ids(text: Seq<char>, ids: Option<(u8, Option<u8>)>) -> Seq<char> {
    match ids {
        Some((main, Some(sub))) => text + "PS 0x"@ + pad_left(hex_upper(main as nat), 2, '0')
            + "/sub 0x"@ + pad_left(hex_upper(sub as nat), 2, '0'),
        Some((main, None)) => text + "PS 0x"@ + pad_left(hex_upper(main as nat), 2, '0'),
        None => text + "PS unknown"@,
    }
}

fn print_short_ids(w: &mut String, ids: Option<(u8, Option<u8>)>)
    ensures
        final(w)@ == with_short_ids(old(w)@, ids),
{
    match ids {
        Some((main, Some(sub))) => {
            w.append("PS 0x");
            push_hex_upper_zeros(w, main as u64, 2);
            w.append("/sub 0x");
            push_hex_upper_zeros(w, sub as u64, 2);
        },
        Some((main, None)) => {
            w.append("PS 0x");
            push_hex_upper_zeros(w, main as u64, 2);
        },
        None => w.append("PS unknown"),
    }
}

/// `text` with an audio slot in use behind it.
pub open spec fn with_audio_slot(text: Seq<char>, slot: int, ctrl: u16, m: VtsiMat) -> Seq<char> {
    let stream = ctrl as int / 256 % 8;
    let attr = m.vts_audio_attr@[stream];
    let format = bits_at(attr.bits, 1, 8) as u8;
    let t = text + "        slot "@ + dec(slot as nat) + " -> stream_num="@ + dec(stream as nat)
        + "  ctrl=0x"@ + pad_left(hex_lower(ctrl as nat), 4, '0') + "  "@ + audio_format_text(
        format,
    ) + "  "@ + pad_right(letters_or_nothing(attr.lang_code), 2) + "  "@;
    let t = with_short_ids(t, audio_ids(format, stream as u8));
    if stream < m.nr_of_vts_audio_streams {
        t + "\n"@
    } else {
        t + "  WARN: stream_num >= nr_of_vts_audio_streams"@ + "\n"@
    }
}

fn print_audio_slot(w: &mut String, slot: usize, ctrl: u16, m: &VtsiMat)
    ensures
        final(w)@ == with_audio_slot(old(w)@, slot as int, ctrl, *m),
{
    let stream: u8 = pgc_audio_control_stream_number(ctrl);
    let attr = m.vts_audio_attr[stream as usize];
    let format: u8 = attr.audio_format();
    w.append("        slot ");
    push_dec(w, slot as u64);
    w.append(" -> stream_num=");
    push_dec(w, stream as u64);
    w.append("  ctrl=0x");
    push_hex_lower_zeros(w, ctrl as u64, 4);
    w.append("  ");
    w.append(audio_format(format));
    w.append("  ");
    push_right_padded(w, letters(attr.lang_code).as_str(), 2);
    w.append("  ");
    print_short_ids(w, audio_stream_id(format, stream));
    if stream >= m.nr_of_vts_audio_streams {
        w.append("  WARN: stream_num >= nr_of_vts_audio_streams");
    }
    w.append("\n");
}

/// `text` with the slots in use among the first `n` behind it.
pub open spec fn with_audio_slots(text: Seq<char>, ctrl: Seq<u16>, m: VtsiMat, n: int) -> Seq<char>
    decreases n,
{
    if n <= 0 {
        text
    } else {
        let t = with_audio_slots(text, ctrl, m, n - 1);
        if ctrl[n - 1] >= 0x8000 {
            with_audio_slot(t, n - 1, ctrl[n - 1], m)
        } else {
            t
        }
    }
}

/// `text` with the audio control of a program chain behind it.
pub open spec fn with_pgc_audio_control(text: Seq<char>, pgc: Pgc, m: VtsiMat) -> Seq<char> {
    let ctrl = pgc.audio_control@;
    let t = text + "      audio_control (active in PGC: "@ + dec(audio_slots(ctrl, 8) as nat)
        + "):\n"@;
    if audio_slots(ctrl, 8) == 0 {
        t + "        (no audio streams enabled in this PGC)\n"@
    } else {
        with_audio_slots(t, ctrl, m, 8)
    }
}

fn print_pgc_audio_control(w: &mut String, pgc: &Pgc, m: &VtsiMat)
    ensures
        final(w)@ == with_pgc_audio_control(old(w)@, *pgc, *m),
{
    let mut active: usize = 0;
    let mut i: usize = 0;
    while i < 8
        invariant
            i <= 8,
            active <= i,
            active == audio_slots(pgc.audio_control@, i as int),
        decreases 8 - i,
    {
        if pgc_audio_control_available(pgc.audio_control[i]) {
            active = active + 1;
        }
        i = i + 1;
    }
    w.append("      audio_control (active in PGC: ");
    push_dec(w, active as u64);
    w.append("):\n");
    if active == 0 {
        w.append("        (no audio streams enabled in this PGC)\n");
        return;
    }
    let ghost head = w@;
    let mut slot: usize = 0;
    while slot < 8
        invariant
            slot <= 8,
            w@ == with_audio_slots(head, pgc.audio_control@, *m, slot as int),
        decreases 8 - slot,
    {
        let ctrl: u16 = pgc.audio_control[slot];
        if pgc_audio_control_available(ctrl) {
            print_audio_slot(w, slot, ctrl, m);
        }
        slot = slot + 1;
    }
}

/// Slots among the first `n` that are in use.
pub open spec fn subp_slots(ctrl: Seq<u32>, n: int) -> int
    decreases n,
{
    if n <= 0 {
        0
    } else {
        subp_slots(ctrl, n - 1) + (if ctrl[n - 1] >= 0x8000_0000 {
            1int
        } else {
            0
        })
    }
}

/// `text` with a subpicture slot in use behind it.
pub open spec fn with_subp_slot(text: Seq<char>, slot: int, ctrl: u32, m: VtsiMat) -> Seq<char> {
    let s43 = ctrl as int / 0x100_0000 % 32;
    let t = text + "        slot "@ + dec(slot as nat) + " -> ctrl=0x"@ + pad_left(
        hex_lower(ctrl as nat),
        8,
        '0',
    ) + "  streams[4:3="@ + dec(s43 as nat) + " wide="@ + dec((ctrl as int / 0x1_0000 % 32) as nat)
        + " letterbox="@ + dec((ctrl as int / 0x100 % 32) as nat) + " pan&scan="@ + dec(
        (ctrl as int % 32) as nat,
    ) + "]  "@ + pad_right(letters_or_nothing(m.vts_subp_attr@[s43].lang_code), 2) + "  PS 0x"@
        + pad_left(hex_upper(0xBDu8 as nat), 2, '0') + "/sub 0x"@ + pad_left(
        hex_upper((0x20 + s43) as nat),
        2,
        '0',
    );
    if s43 < m.nr_of_vts_subp_streams {
        t + "\n"@
    } else {
        t + "  WARN: stream_num >= nr_of_vts_subp_streams"@ + "\n"@
    }
}

fn print_subp_slot(w: &mut String, slot: usize, ctrl: u32, m: &VtsiMat)
    ensures
        final(w)@ == with_subp_slot(old(w)@, slot as int, ctrl, *m),
{
    let s43: u8 = pgc_subp_control_stream_4_3(ctrl);
    let attr = m.vts_subp_attr[s43 as usize];
    let (main, sub) = subp_stream_id(s43);
    w.append("        slot ");
    push_dec(w, slot as u64);
    w.append(" -> ctrl=0x");
    push_hex_lower_zeros(w, ctrl as u64, 8);
    w.append("  streams[4:3=");
    push_dec(w, s43 as u64);
    w.append(" wide=");
    push_dec(w, pgc_subp_control_stream_wide(ctrl) as u64);
    w.append(" letterbox=");
    push_dec(w, pgc_subp_control_stream_letterbox(ctrl) as u64);
    w.append(" pan&scan=");
    push_dec(w, pgc_subp_control_stream_pan_scan(ctrl) as u64);
    w.append("]  ");
    push_right_padded(w, letters(attr.lang_code).as_str(), 2);
    w.append("  PS 0x");
    push_hex_upper_zeros(w, main as u64, 2);
    w.append("/sub 0x");
    push_hex_upper_zeros(w, sub as u64, 2);
    if s43 >= m.nr_of_vts_subp_streams {
        w.append("  WARN: stream_num >= nr_of_vts_subp_streams");
    }
    w.append("\n");
}

/// `text` with the slots in use among the first `n` behind it.
pub open spec fn with_subp_slots(text: Seq<char>, ctrl: Seq<u32>, m: VtsiMat, n: int) -> Seq<char>
    decreases n,
{
    if n <= 0 {
        text
    } else {
        let t = with_subp_slots(text, ctrl, m, n - 1);
        if ctrl[n - 1] >= 0x8000_0000 {
            with_subp_slot(t, n - 1, ctrl[n - 1], m)
        } else {
            t
        }
    }
}

/// `text` with the subpicture control of a program chain behind it.
pub open spec fn with_pgc_subp_control(text: Seq<char>, pgc: Pgc, m: VtsiMat) -> Seq<char> {
    let ctrl = pgc.subp_control@;
    let t = text + "      subp_control (active in PGC: "@ + dec(subp_slots(ctrl, 32) as nat)
        + "):\n"@;
    if subp_slots(ctrl, 32) == 0 {
        t + "        (no subpicture streams enabled in this PGC)\n"@
    } else {
        with_subp_slots(t, ctrl, m, 32)
    }
}

fn print_pgc_subp_control(w: &mut String, pgc: &Pgc, m: &VtsiMat)
    ensures
        final(w)@ == with_pgc_subp_control(old(w)@, *pgc, *m),
{
    let mut active: usize = 0;
    let mut i: usize = 0;
    while i < 32
        invariant
            i <= 32,
            active <= i,
            active == subp_slots(pgc.subp_control@, i as int),
        decreases 32 - i,
    {
        if pgc_subp_control_available(pgc.subp_control[i]) {
            active = active + 1;
        }
        i = i + 1;
    }
    w.append("      subp_control (active in PGC: ");
    push_dec(w, active as u64);
    w.append("):\n");
    if active == 0 {
        w.append("        (no subpicture streams enabled in this PGC)\n");
        return;
    }
    let ghost head = w@;
    let mut slot: usize = 0;
    while slot < 32
        invariant
            slot <= 32,
            w@ == with_subp_slots(head, pgc.subp_control@, *m, slot as int),
        decreases 32 - slot,
    {
        let ctrl: u32 = pgc.subp_control[slot];
        if pgc_subp_control_available(ctrl) {
            print_subp_slot(w, slot, ctrl, m);
        }
        slot = slot + 1;
    }
}

/// `text` with the first `n` colours behind it, without their top byte.
pub open spec fn with_colours(text: Seq<char>, palette: Seq<u32>, n: int) -> Seq<char>
    decreases n,
{
    if n <= 0 {
        text
    } else {
        with_colours(text, palette, n - 1) + " "@ + pad_left(
            hex_lower((palette[n - 1] as int % 0x100_0000) as nat),
            6,
            '0',
        )
    }
}

/// `text` with the palette of a program chain behind it.
pub open spec fn with_pgc_palette(text: Seq<char>, pgc: Pgc) -> Seq<char> {
    with_colours(text + "      palette (YCrCb x16):"@, pgc.palette@, 16) + "\n"@
}

fn print_pgc_palette(w: &mut String, pgc: &Pgc)
    ensures
        final(w)@ == with_pgc_palette(old(w)@, *pgc),
{
    w.append("      palette (YCrCb x16):");
    let ghost head = w@;
    let mut i: usize = 0;
    while i < 16
        invariant
            i <= 16,
            w@ == with_colours(head, pgc.palette@, i as int),
        decreases 16 - i,
    {
        w.append(" ");
        push_hex_lower_zeros(w, (pgc.palette[i] % 0x100_0000) as u64, 6);
        i = i + 1;
    }
    w.append("\n");
}

/// `text` with a cell behind it.
pub open spec fn with_cell(text: Seq<char>, index: int, c: CellPlayback) -> Seq<char> {
    let sectors = if c.last_sector > c.first_sector {
        c.last_sector - c.first_sector
    } else {
        0
    };
    text + "        ["@ + dec(index as nat) + "] sectors "@ + dec(c.first_sector as nat) + ".."@
        + dec(c.last_sector as nat) + " ("@ + pad_left(dec(sectors as nat), 7, ' ')
        + " blocks), playback_time="@ + time_text(c.playback_time) + "\n"@
}

fn print_cell(w: &mut String, index: usize, c: &CellPlayback)
    ensures
        final(w)@ == with_cell(old(w)@, index as int, *c),
{
    let sectors: u32 = c.last_sector.saturating_sub(c.first_sector);
    w.append("        [");
    push_dec(w, index as u64);
    w.append("] sectors ");
    push_dec(w, c.first_sector as u64);
    w.append("..");
    push_dec(w, c.last_sector as u64);
    w.append(" (");
    push_dec_spaces(w, sectors as u64, 7);
    w.append(" blocks), playback_time=");
    w.append(format_dvd_time(&c.playback_time).as_str());
    w.append("\n");
}

/// `text` with the first `n` cells behind it.
pub open spec fn with_cells(text: Seq<char>, cells: Seq<CellPlayback>, n: int) -> Seq<char>
    decreases n,
{
    if n <= 0 {
        text
    } else {
        with_cell(with_cells(text, cells, n - 1), n - 1, cells[n - 1])
    }
}

/// `text` with the cells of a program chain behind it, as far as the third.
pub open spec fn with_pgc_cells(text: Seq<char>, pgc: Pgc) -> Seq<char> {
    let cells = raw_cells_of(pgc);
    let n = preview_of(cells.len() as int);
    if cells.len() == 0 {
        text
    } else {
        let t = text + "      cells (first "@ + dec(n as nat) + " of "@ + dec(cells.len())
            + "):\n"@;
        let t = with_cells(t, cells, n);
        if cells.len() > 3 {
            t + "        ... ("@ + dec((cells.len() - 3) as nat) + " more cells)\n"@
        } else {
            t
        }
    }
}

fn print_pgc_cells(w: &mut String, pgc: &Pgc)
    ensures
        final(w)@ == with_pgc_cells(old(w)@, *pgc),
{
    let cells = pgc.cells();
    if cells.len() == 0 {
        return;
    }
    let n: usize = if cells.len() < 3 {
        cells.len()
    } else {
        3
    };
    w.append("      cells (first ");
    push_dec(w, n as u64);
    w.append(" of ");
    push_dec(w, cells.len() as u64);
    w.append("):\n");
    let ghost head = w@;
    let mut i: usize = 0;
    while i < n
        invariant
            i <= n <= cells.len(),
            w@ == with_cells(head, cells@, i as int),
        decreases n - i,
    {
        print_cell(w, i, &cells[i]);
        i = i + 1;
    }
    if cells.len() > 3 {
        w.append("        ... (");
        push_dec(w, (cells.len() - 3) as u64);
        w.append(" more cells)\n");
    }
}

/// `text` with the properties of a program chain behind it.
pub open spec fn with_pgc_fields(text: Seq<char>, pgc: Pgc) -> Seq<char> {
    text
        + "    pgc (this title's playback chain):\n"@
        + "      nr_of_programs:   "@
        + dec(pgc.nr_of_programs as nat)
        + "  (chapter count from PGC side)\n"@
        + "      nr_of_cells:      "@
        + dec(pgc.nr_of_cells as nat)
        + "\n"@
        + "      playback_time:    "@
        + time_text(pgc.playback_time)
        + "  (HH:MM:SS.FF, BCD-encoded)\n"@
        + "      still_time:       "@
        + dec(pgc.still_time as nat)
        + "  (seconds; 0xff = infinite)\n"@
}

fn print_pgc_fields(w: &mut String, pgc: &Pgc)
    ensures
        final(w)@ == with_pgc_fields(old(w)@, *pgc),
{
    w.append("    pgc (this title's playback chain):\n");
    w.append("      nr_of_programs:   ");
    push_dec(w, pgc.nr_of_programs as u64);
    w.append("  (chapter count from PGC side)\n");
    w.append("      nr_of_cells:      ");
    push_dec(w, pgc.nr_of_cells as u64);
    w.append("\n");
    w.append("      playback_time:    ");
    w.append(format_dvd_time(&pgc.playback_time).as_str());
    w.append("  (HH:MM:SS.FF, BCD-encoded)\n");
    w.append("      still_time:       ");
    push_dec(w, pgc.still_time as u64);
    w.append("  (seconds; 0xff = infinite)\n");
}

/// `text` with a program chain behind it.
pub open spec fn with_pgc_summary(text: Seq<char>, pgc: Pgc, m: VtsiMat) -> Seq<char> {
    let t = with_pgc_fields(text, pgc);
    let t = with_pgc_audio_control(t, pgc, m);
    let t = with_pgc_subp_control(t, pgc, m);
    with_pgc_cells(with_pgc_palette(t, pgc), pgc)
}

fn print_pgc_summary(w: &mut String, pgc: &Pgc, m: &VtsiMat)
    ensures
        final(w)@ == with_pgc_summary(old(w)@, *pgc, *m),
{
    print_pgc_fields(w, pgc);
    print_pgc_audio_control(w, pgc, m);
    print_pgc_subp_control(w, pgc, m);
    print_pgc_palette(w, pgc);
    print_pgc_cells(w, pgc);
}

/// `text` with the program chains of a title set behind it: how many there
/// are, and the one at the place of title `vts_ttn`.
pub open spec fn with_pgc_detail(
    text: Seq<char>,
    vts: IfoHandle,
    m: VtsiMat,
    vts_ttn: u8,
) -> Seq<char> {
    let pgcs = pgcs_of(vts);
    let count = match vts.vts_pgcit {
        Some(p) => p.nr_of_pgci_srp,
        None => 0,
    };
    let i = index_of_number(vts_ttn as int);
    let t = text + "    vts_pgcit:\n"@ + "      nr_of_pgci_srp:   "@ + dec(count as nat) + "  ("@
        + dec(pgcs.len()) + " PGCs in this VTS)\n"@;
    if i < pgcs.len() {
        match pgcs[i].pgc {
            Some(pgc) => with_pgc_summary(t, pgc, m),
            None => t + "    (pgc pointer for vts_ttn="@ + dec(vts_ttn as nat) + " was NULL)\n"@,
        }
    } else {
        t
    }
}

fn print_pgc_detail(w: &mut String, vts: &IfoHandle, m: &VtsiMat, vts_ttn: u8)
    ensures
        final(w)@ == with_pgc_detail(old(w)@, *vts, *m, vts_ttn),
{
    let pgcs = vts.pgcs();
    let count: u16 = match &vts.vts_pgcit {
        Some(p) => p.nr_of_pgci_srp,
        None => 0,
    };
    w.append("    vts_pgcit:\n");
    w.append("      nr_of_pgci_srp:   ");
    push_dec(w, count as u64);
    w.append("  (");
    push_dec(w, pgcs.len() as u64);
    w.append(" PGCs in this VTS)\n");
    let i: usize = if vts_ttn == 0 {
        0
    } else {
        vts_ttn as usize - 1
    };
    if i < pgcs.len() {
        match &pgcs[i].pgc {
            Some(pgc) => print_pgc_summary(w, pgc, m),
            None => {
                w.append("    (pgc pointer for vts_ttn=");
                push_dec(w, vts_ttn as u64);
                w.append(" was NULL)\n");
            },
        }
    }
}

/// `text` with all of a title set behind it, for its title `vts_ttn`.
pub open spec fn with_vts_detail(text: Seq<char>, vts: IfoHandle, vts_ttn: u8) -> Seq<char> {
    match vts.vtsi_mat {
        None => text + "    (vtsi_mat NULL — VTS parse failure)\n"@,
        Some(m) => {
            let t = with_video_attr(with_vtsi_summary(text, m), m);
            let t = with_subp_streams(with_audio_streams(t, m), m);
            let t = with_vts_address_tables(with_chapter_list(t, vts, vts_ttn), vts);
            with_pgc_detail(t, vts, m, vts_ttn)
        },
    }
}

fn print_vts_detail(w: &mut String, vts: &IfoHandle, vts_ttn: u8)
    ensures
        final(w)@ == with_vts_detail(old(w)@, *vts, vts_ttn),
{
    match &vts.vtsi_mat {
        None => w.append("    (vtsi_mat NULL — VTS parse failure)\n"),
        Some(m) => {
            print_vtsi_summary(w, m);
            print_video_attr(w, m);
            print_audio_streams(w, m);
            print_subp_streams(w, m);
            print_chapter_list(w, vts, vts_ttn);
            print_vts_address_tables(w, vts);
            print_pgc_detail(w, vts, m, vts_ttn);
        },
    }
}

/// `text` with a title of the disc behind it.
pub open spec fn with_title(text: Seq<char>, reader: DvdReader, number: int, t: TitleInfo) -> Seq<
    char,
> {
    let summary = with_title_summary(text, number, t);
    match ifo_of(reader, IfoKind::Vts(t.title_set_nr as u32)) {
        Some(vts) => with_vts_detail(summary, vts, t.vts_ttn),
        None => summary + "      (could not open VTS_"@ + pad_left(
            dec(t.title_set_nr as nat),
            2,
            '0',
        ) + "_0.IFO: "@ + dvd_error_text(
            DvdError::IfoOpenFailed { ifo_nr: t.title_set_nr as u32 },
        ) + ")\n"@,
    }
}

fn print_title(w: &mut String, reader: &DvdReader, number: usize, t: &TitleInfo)
    requires
        number >= 1,
    ensures
        final(w)@ == with_title(old(w)@, *reader, number as int, *t),
{
    print_title_summary(w, number, t);
    match IfoHandle::open(reader, IfoKind::Vts(t.title_set_nr as u32)) {
        Ok(vts) => print_vts_detail(w, vts, t.vts_ttn),
        Err(e) => {
            w.append("      (could not open VTS_");
            push_dec_zeros(w, t.title_set_nr as u64, 2);
            w.append("_0.IFO: ");
            w.append(e.message().as_str());
            w.append(")\n");
        },
    }
}

/// `text` with the first `n` titles of the disc behind it.
pub open spec fn with_titles(
    text: Seq<char>,
    reader: DvdReader,
    infos: Seq<TitleInfo>,
    n: int,
) -> Seq<char>
    decreases n,
{
    if n <= 0 {
        text
    } else {
        with_title(with_titles(text, reader, infos, n - 1), reader, n, infos[n - 1])
    }
}

/// `text` with everything about a disc behind it.
pub open spec fn with_disc(
    text: Seq<char>,
    reader: DvdReader,
    vmg: IfoHandle,
    probe: Result<CssProbe, DvdError>,
) -> Seq<char> {
    let t = with_css_probe(text, probe);
    let t = with_vmg_extras(with_vmg_summary(t, vmg), vmg);
    let infos = titles_of(vmg);
    if infos.len() == 0 {
        t + "\n(no titles found in tt_srpt)\n"@
    } else {
        with_titles(
            t + "\ntitles ("@ + dec(infos.len()) + " entries in tt_srpt):\n"@,
            reader,
            infos,
            infos.len() as int,
        )
    }
}

/// Appends everything about a disc: the outcome of the CSS probe, the tables
/// of the disc, and each title with its title set. Where the IFO of the disc
/// cannot be read, only the probe is appended.
pub fn run(
    reader: &DvdReader,
    probe: &Result<CssProbe, DvdError>,
    w: &mut String,
) -> (r: Result<(), DvdError>)
    ensures
        match reader.vmg {
            Some(vmg) => r is Ok && final(w)@ == with_disc(old(w)@, *reader, vmg, *probe),
            None => r == Err::<(), DvdError>(DvdError::IfoOpenFailed { ifo_nr: 0 }) && final(w)@
                == with_css_probe(old(w)@, *probe),
        },
{
    print_css_probe(w, probe);
    let vmg = match IfoHandle::open(reader, IfoKind::Vmg) {
        Ok(vmg) => vmg,
        Err(e) => return Err(e),
    };
    print_vmg_summary(w, vmg);
    print_vmg_extras(w, vmg);
    let infos = vmg.titles();
    if infos.len() == 0 {
        w.append("\n(no titles found in tt_srpt)\n");
        return Ok(());
    }
    w.append("\ntitles (");
    push_dec(w, infos.len() as u64);
    w.append(" entries in tt_srpt):\n");
    let ghost head = w@;
    let mut i: usize = 0;
    while i < infos.len()
        invariant
            i <= infos.len(),
            w@ == with_titles(head, *reader, infos@, i as int),
        decreases infos.len() - i,
    {
        print_title(w, reader, i + 1, &infos[i]);
        i = i + 1;
    }
    Ok(())
}

} // verus!
