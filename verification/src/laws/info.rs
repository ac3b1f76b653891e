//! Laws of the records in the report on a disc.
use vstd::prelude::*;
use crate::css::{CssProbe, ProbeMethod};
use crate::decode::{
    audio_application_mode_text, audio_format_text, audio_ids, audio_lang_extension_text,
    audio_lpcm_quantization_text, audio_mpeg_drc_text, audio_sample_frequency_text, lang_letters,
    picture_size_of, subp_lang_extension_text, video_aspect_ratio_text, video_format_text,
    video_mpeg_version_text, video_permitted_df_text,
};
use crate::ifo::{
    bits_at, cell_adrs_of, pgcs_of, time_text, tmaps_of, vobus_of, AudioAttr, CellAdr, CellPlayback,
    IfoHandle, Pgc, PttInfo, SubpAttr, TitleInfo, VmgiMat, VtsTmap, VtsiMat,
};
use crate::info::{
    audio_slots, language_text, quantization_text, subp_slots, verdict_of, with_audio_fields,
    with_audio_ids, with_audio_slot, with_audio_slots, with_c_adt, with_cell, with_cell_adr, with_cell_adrs,
    with_chapter, with_pgc_audio_control, with_pgc_detail, with_pgc_fields, with_pgc_subp_control,
    with_pgc_summary, with_probe, with_subp_attr, with_subp_slot, with_subp_slots, with_title_summary, with_tmap,
    with_tmaps, with_video_attr, with_vmg_extras, with_vmgi_mat, with_vobu_admap,
    with_vts_address_tables, with_vtsi_summary, without_fill,
};
use crate::text::{dec, hex_lower, hex_upper, lossy_text, pad_left, pad_right, quoted};

verus! {

/// A value between its name and what follows it on the line.
pub open spec fn field(name: Seq<char>, value: Seq<char>, note: Seq<char>) -> Seq<char> {
    name + value + note
}

/// A number in at least `width` digits of base sixteen.
pub open spec fn hex(n: nat, width: nat) -> Seq<char> {
    pad_left(hex_lower(n), width, '0')
}

/// What a provider's name loses is fill at its end, all of it.
pub proof fn lemma_only_fill_is_cut(s: Seq<char>, i: int)
    ensures
        without_fill(s).len() <= s.len(),
        without_fill(s) == s.subrange(0, without_fill(s).len() as int),
        without_fill(s).len() > 0 ==> without_fill(s).last() != '\0' && without_fill(s).last()
            != ' ',
        without_fill(s).len() <= i < s.len() ==> s[i] == '\0' || s[i] == ' ',
    decreases s.len(),
{
    if s.len() > 0 && (s.last() == '\0' || s.last() == ' ') {
        lemma_only_fill_is_cut(s.drop_last(), i);
    }
}

/// A language is its letters, or its code where it has none; what a
/// quantization code means depends on the format.
pub proof fn lemma_codes_by_format(raw: u16, format: u8, quant: u8)
    ensures
        lang_letters(raw) is Some ==> Some(language_text(raw)) == lang_letters(raw),
        lang_letters(raw) is None ==> language_text(raw) == "0x"@ + hex(raw as nat, 4)
            + " (invalid)"@,
        format == 4 ==> quantization_text(format, quant) == audio_lpcm_quantization_text(quant),
        format == 2 || format == 3 ==> quantization_text(format, quant) == audio_mpeg_drc_text(
            quant,
        ),
        format < 2 || format > 4 ==> quantization_text(format, quant) == "n/a for this format"@,
{
}

/// The verdicts name what was looked at.
pub proof fn lemma_verdicts_by_method()
    ensures
        verdict_of(ProbeMethod::LibdvdcssIoctl, true)
            == "SCRAMBLED  (libdvdcss will decrypt sectors transparently)"@,
        verdict_of(ProbeMethod::LibdvdcssIoctl, false)
            == "not scrambled  (sectors readable as plaintext)"@,
        verdict_of(ProbeMethod::IsoUdfSector, true)
            == "SCRAMBLED  (raw VOB sector does not start with MPEG-PS pack)"@,
        verdict_of(ProbeMethod::IsoUdfSector, false)
            == "not scrambled  (raw VOB sector starts with MPEG-PS pack 00 00 01 ba)"@,
        verdict_of(ProbeMethod::VobFile, true)
            == "SCRAMBLED  (VOB sector does not start with MPEG-PS pack — unusual for a directory rip)"@,
        verdict_of(ProbeMethod::VobFile, false)
            == "not scrambled  (VOB sector starts with MPEG-PS pack 00 00 01 ba)"@,
{
}

/// The part of the report on a sampled sector: where it was read, its first
/// four bytes, and the verdict.
pub proof fn lemma_sampled_sector_is_shown(text: Seq<char>, p: CssProbe, place: String)
    requires
        p.probed_location == Some(place),
        p.last_error is None,
    ensures
        ({
            let b = p.first_bytes@;
            let said = if p.is_scrambled {
                "true"@
            } else {
                "false"@
            };
            let behind = |head: Seq<char>|
                head + field(place@, "\n"@, "  first 4 bytes: "@) + field(
                    hex(b[0] as nat, 2),
                    " "@,
                    hex(b[1] as nat, 2),
                ) + field(" "@, hex(b[2] as nat, 2), " "@) + field(
                    hex(b[3] as nat, 2),
                    "\n"@,
                    "  is_scrambled:  "@,
                ) + field(said, " -> "@, verdict_of(p.method, p.is_scrambled)) + "\n"@;
            &&& p.method == ProbeMethod::VobFile ==> with_probe(text, p) == behind(
                text + "  probe method:  directory rip (VOB file MPEG-PS magic check)\n"@
                    + "  probed VOB:    "@,
            )
            &&& p.method == ProbeMethod::IsoUdfSector ==> with_probe(text, p) == behind(
                text + "  probe method:  ISO file (libdvdread UDFFindFile -> raw block read)\n"@
                    + "  probed at:     "@,
            )
        }),
{
    lemma_fields_append();
}

/// The record of the whole disc.
pub proof fn lemma_disc_record(text: Seq<char>, m: VmgiMat)
    ensures
        with_vmgi_mat(text, m) == text + "VMG (VIDEO_TS.IFO):\n"@ + field(
            "  vmg_identifier:           "@,
            quoted(lossy_text(m.vmg_identifier@)),
            "\n"@,
        ) + field(
            "  specification_version:    0x"@,
            hex(m.specification_version as nat, 2),
            "\n"@,
        ) + field("  vmg_category:             0x"@, hex(m.vmg_category as nat, 8), "\n"@) + field(
            "  vmg_nr_of_volumes:        "@,
            dec(m.vmg_nr_of_volumes as nat),
            "\n"@,
        ) + field("  vmg_this_volume_nr:       "@, dec(m.vmg_this_volume_nr as nat), "\n"@) + field(
            "  disc_side:                "@,
            dec(m.disc_side as nat),
            "\n"@,
        ) + field("  vmg_nr_of_title_sets:     "@, dec(m.vmg_nr_of_title_sets as nat), "\n"@)
            + field("  vmg_last_sector:          "@, dec(m.vmg_last_sector as nat), "\n"@) + field(
            "  vmgi_last_sector:         "@,
            dec(m.vmgi_last_sector as nat),
            "\n"@,
        ) + field("  vmgi_last_byte:           "@, dec(m.vmgi_last_byte as nat), "\n"@) + field(
            "  nr_of_vmgm_audio_streams: "@,
            dec(m.nr_of_vmgm_audio_streams as nat),
            "\n"@,
        ) + field(
            "  nr_of_vmgm_subp_streams:  "@,
            dec(m.nr_of_vmgm_subp_streams as nat),
            "\n"@,
        ) + field(
            "  provider_identifier:      "@,
            quoted(without_fill(lossy_text(m.provider_identifier@))),
            "\n"@,
        ),
{
    lemma_fields_append();
}

/// A title is shown under its number, counted from one, with the fields of its
/// record.
pub proof fn lemma_title_record(text: Seq<char>, number: int, t: TitleInfo)
    ensures
        with_title_summary(text, number, t) == text + field(
            "\n  Title "@,
            dec(number as nat),
            " (tt_srpt["@,
        ) + dec((number - 1) as nat) + "]):\n"@ + field(
            "    title_set_nr:       "@,
            dec(t.title_set_nr as nat),
            "  (VTS that owns this title)\n"@,
        ) + field(
            "    vts_ttn:            "@,
            dec(t.vts_ttn as nat),
            "  (title number within VTS)\n"@,
        ) + field("    nr_of_ptts:         "@, dec(t.nr_of_ptts as nat), "  (chapter count)\n"@)
            + field("    nr_of_angles:       "@, dec(t.nr_of_angles as nat), "  (angle count)\n"@)
            + field("    parental_id:        0x"@, hex(t.parental_id as nat, 4), "\n"@) + field(
            "    title_set_sector:   "@,
            dec(t.title_set_sector as nat),
            "  (where the VTS starts on disc)\n"@,
        ),
{
    lemma_fields_append();
}

proof fn lemma_fields_append()
    ensures
        forall|t: Seq<char>, a: Seq<char>, b: Seq<char>, c: Seq<char>|
            #[trigger] (t + field(a, b, c)) == t + a + b + c,
{
    assert forall|t: Seq<char>, a: Seq<char>, b: Seq<char>, c: Seq<char>|
        #[trigger] (t + field(a, b, c)) == t + a + b + c by {
        assert(t + field(a, b, c) =~= t + a + b + c);
    }
}

/// The record of a title set, and that of its video.
pub proof fn lemma_title_set_record(text: Seq<char>, m: VtsiMat)
    ensures
        with_vtsi_summary(text, m) == text + "    vtsi_mat:\n"@ + field(
            "      vts_category:             0x"@,
            hex(m.vts_category as nat, 8),
            "\n"@,
        ) + field(
            "      specification_version:    0x"@,
            hex(m.specification_version as nat, 2),
            "\n"@,
        ) + field("      vts_last_sector:          "@, dec(m.vts_last_sector as nat), "\n"@)
            + field("      vtsi_last_sector:         "@, dec(m.vtsi_last_sector as nat), "\n"@)
            + field("      vtsi_last_byte:           "@, dec(m.vtsi_last_byte as nat), "\n"@),
        ({
            let v = m.vts_video_attr;
            let size = picture_size_of(v.picture_size, v.video_format);
            with_video_attr(text, m) == text + "    vts_video_attr:\n"@ + field(
                "      mpeg_version:          "@,
                dec(v.mpeg_version as nat),
                " ("@,
            ) + field(video_mpeg_version_text(v.mpeg_version), ")\n"@, "      video_format:          "@)
                + field(dec(v.video_format as nat), " ("@, video_format_text(v.video_format)) + field(
                ")\n"@,
                "      display_aspect_ratio:  "@,
                dec(v.display_aspect_ratio as nat),
            ) + field(" ("@, video_aspect_ratio_text(v.display_aspect_ratio), ")\n"@) + field(
                "      permitted_df:          "@,
                dec(v.permitted_df as nat),
                " ("@,
            ) + field(video_permitted_df_text(v.permitted_df), ")\n"@, "      picture_size:          "@)
                + field(dec(v.picture_size as nat), " => "@, dec(size.0 as nat)) + field(
                "x"@,
                dec(size.1 as nat),
                "\n"@,
            ) + field("      letterboxed:           "@, dec(v.letterboxed as nat), "\n"@) + field(
                "      film_mode:             "@,
                dec(v.film_mode as nat),
                "  (0=video, 1=film/telecine)\n"@,
            ) + field(
                "      line21_cc_1:           "@,
                dec(v.line21_cc_1 as nat),
                "  (NTSC line-21 Closed Captions field 1)\n"@,
            ) + field(
                "      line21_cc_2:           "@,
                dec(v.line21_cc_2 as nat),
                "  (NTSC line-21 Closed Captions field 2)\n"@,
            ) + field(
                "      bit_rate:              "@,
                dec(v.bit_rate as nat),
                "  (0=variable, 1=constant)\n"@,
            )
        }),
{
    lemma_fields_append();
}

/// The records of a subpicture stream, a cell address, a time map, a chapter and
/// a program chain.
pub proof fn lemma_small_records(
    text: Seq<char>,
    i: int,
    a: SubpAttr,
    e: CellAdr,
    t: VtsTmap,
    p: PttInfo,
    pgc: Pgc,
)
    ensures
        with_subp_attr(text, i, a) == text + field("      ["@, dec(i as nat), "] code_mode="@)
            + field(dec(a.code_mode as nat), "  type=0x"@, hex(a.type_ as nat, 2)) + field(
            "\n"@,
            "          lang_code=0x"@,
            hex(a.lang_code as nat, 4),
        ) + field(" ("@, language_text(a.lang_code), ")\n"@) + field(
            "          lang_extension="@,
            dec(a.lang_extension as nat),
            " ("@,
        ) + field(
            subp_lang_extension_text(a.lang_extension),
            ")\n"@,
            "          code_extension="@,
        ) + field(dec(a.code_extension as nat), "\n"@, "          PS stream id:           0x"@)
            + field(
            pad_left(hex_upper(189), 2, '0'),
            " substream 0x"@,
            pad_left(hex_upper((32 + i) as nat), 2, '0'),
        ) + "\n"@,
        with_cell_adr(text, e) == text + field(
            "      vob_id="@,
            pad_left(dec(e.vob_id as nat), 3, ' '),
            " cell_id="@,
        ) + field(pad_left(dec(e.cell_id as nat), 3, ' '), " start="@, dec(e.start_sector as nat))
            + field(" last="@, dec(e.last_sector as nat), "\n"@),
        with_tmap(text, i, t) == text + field("      tmap["@, dec(i as nat), "]: tmu="@) + field(
            dec(t.tmu as nat),
            "s nr_of_entries="@,
            dec(t.nr_of_entries as nat),
        ) + "\n"@,
        with_chapter(text, i, p) == text + field(
            "      ch "@,
            pad_left(dec((i + 1) as nat), 2, ' '),
            ": pgcn="@,
        ) + field(pad_left(dec(p.pgcn as nat), 3, ' '), "  pgn="@, pad_left(dec(p.pgn as nat), 3, ' '))
            + "\n"@,
        with_pgc_fields(text, pgc) == text + "    pgc (this title's playback chain):\n"@ + field(
            "      nr_of_programs:   "@,
            dec(pgc.nr_of_programs as nat),
            "  (chapter count from PGC side)\n"@,
        ) + field("      nr_of_cells:      "@, dec(pgc.nr_of_cells as nat), "\n"@) + field(
            "      playback_time:    "@,
            time_text(pgc.playback_time),
            "  (HH:MM:SS.FF, BCD-encoded)\n"@,
        ) + field(
            "      still_time:       "@,
            dec(pgc.still_time as nat),
            "  (seconds; 0xff = infinite)\n"@,
        ),
{
    lemma_fields_append();
}

/// The record of an audio stream shows the fields of its attribute word, the
/// channels counted from one.
pub proof fn lemma_audio_record(text: Seq<char>, i: int, a: AudioAttr)
    ensures
        ({
            let format = bits_at(a.bits, 1, 8);
            let channels = bits_at(a.bits, 8192, 8);
            let rate = bits_at(a.bits, 1024, 4);
            let quant = bits_at(a.bits, 256, 4);
            let mode = bits_at(a.bits, 64, 4);
            with_audio_fields(text, i, a) == text + field(
                "      ["@,
                dec(i as nat),
                "] audio_format="@,
            ) + field(dec(format as nat), " ("@, audio_format_text(format as u8)) + field(
                ")\n"@,
                "          channels="@,
                dec(channels as nat),
            ) + field(" ("@, dec((channels + 1) as nat), "ch)\n"@) + field(
                "          sample_frequency="@,
                dec(rate as nat),
                " ("@,
            ) + field(
                audio_sample_frequency_text(rate as u8),
                ")\n"@,
                "          quantization="@,
            ) + field(dec(quant as nat), " ("@, quantization_text(format as u8, quant as u8)) + field(
                ")\n"@,
                "          multichannel_extension="@,
                dec(bits_at(a.bits, 8, 2) as nat),
            ) + field("\n"@, "          application_mode="@, dec(mode as nat)) + field(
                " ("@,
                audio_application_mode_text(mode as u8),
                ")\n"@,
            ) + field(
                "          lang_type="@,
                dec(bits_at(a.bits, 16, 4) as nat),
                " (1 = language code present)\n"@,
            ) + field("          lang_code=0x"@, hex(a.lang_code as nat, 4), " ("@) + field(
                language_text(a.lang_code),
                ")\n"@,
                "          lang_extension="@,
            ) + field(
                dec(a.lang_extension as nat),
                " ("@,
                audio_lang_extension_text(a.lang_extension),
            ) + field(")\n"@, "          code_extension="@, dec(a.code_extension as nat)) + "\n"@
        }),
{
    lemma_fields_append();
}

/// The identifiers of an audio stream: its own, and that of the substream where
/// it has one.
pub proof fn lemma_audio_identifiers(text: Seq<char>, id: u8, sub: u8)
    ensures
        with_audio_ids(text, Some((id, Some(sub)))) == text + field(
            "          PS stream id:           0x"@,
            pad_left(hex_upper(id as nat), 2, '0'),
            " substream 0x"@,
        ) + pad_left(hex_upper(sub as nat), 2, '0') + "\n"@,
        with_audio_ids(text, Some((id, None::<u8>))) == text + field(
            "          PS stream id:           0x"@,
            pad_left(hex_upper(id as nat), 2, '0'),
            "\n"@,
        ),
        with_audio_ids(text, None::<(u8, Option<u8>)>) == text
            + "          PS stream id:           (unknown format)\n"@,
{
    lemma_fields_append();
}

/// The slots of a program chain that are counted are those whose top bit is set.
pub proof fn lemma_active_slots(audio: Seq<u16>, subp: Seq<u32>)
    ensures
        audio_slots(audio, audio.len() as int) == audio.filter(|c: u16| c >= 32768).len(),
        subp_slots(subp, subp.len() as int) == subp.filter(|c: u32| c >= 2147483648).len(),
{
    lemma_audio_slots(audio, audio.len() as int);
    lemma_subp_slots(subp, subp.len() as int);
    assert(audio.subrange(0, audio.len() as int) =~= audio);
    assert(subp.subrange(0, subp.len() as int) =~= subp);
}

proof fn lemma_audio_slots(v: Seq<u16>, n: int)
    requires
        0 <= n <= v.len(),
    ensures
        audio_slots(v, n) == v.subrange(0, n).filter(|c: u16| c >= 32768).len(),
    decreases n,
{
    reveal(Seq::filter);
    if n > 0 {
        lemma_audio_slots(v, n - 1);
        assert(v.subrange(0, n).drop_last() =~= v.subrange(0, n - 1));
        assert(v.subrange(0, n).last() == v[n - 1]);
    }
}

proof fn lemma_subp_slots(v: Seq<u32>, n: int)
    requires
        0 <= n <= v.len(),
    ensures
        subp_slots(v, n) == v.subrange(0, n).filter(|c: u32| c >= 2147483648).len(),
    decreases n,
{
    reveal(Seq::filter);
    if n > 0 {
        lemma_subp_slots(v, n - 1);
        assert(v.subrange(0, n).drop_last() =~= v.subrange(0, n - 1));
        assert(v.subrange(0, n).last() == v[n - 1]);
    }
}

/// The controls of a program chain: how many slots are active, and each of them;
/// all eight slots for audio and all thirty-two for subpictures are looked at.
pub proof fn lemma_controls_are_listed(text: Seq<char>, pgc: Pgc, m: VtsiMat)
    requires
        pgc.audio_control@.len() == 8,
        pgc.subp_control@.len() == 32,
    ensures
        ({
            let n = pgc.audio_control@.filter(|c: u16| c >= 32768).len();
            let head = text + field("      audio_control (active in PGC: "@, dec(n), "):\n"@);
            &&& n == 0 ==> with_pgc_audio_control(text, pgc, m) == head
                + "        (no audio streams enabled in this PGC)\n"@
            &&& n > 0 ==> with_pgc_audio_control(text, pgc, m) == with_audio_slots(
                head,
                pgc.audio_control@,
                m,
                8,
            )
        }),
        ({
            let n = pgc.subp_control@.filter(|c: u32| c >= 2147483648).len();
            let head = text + field("      subp_control (active in PGC: "@, dec(n), "):\n"@);
            &&& n == 0 ==> with_pgc_subp_control(text, pgc, m) == head
                + "        (no subpicture streams enabled in this PGC)\n"@
            &&& n > 0 ==> with_pgc_subp_control(text, pgc, m) == with_subp_slots(
                head,
                pgc.subp_control@,
                m,
                32,
            )
        }),
{
    lemma_fields_append();
    lemma_active_slots(pgc.audio_control@, pgc.subp_control@);
}

/// A slot that points past the streams of the title set is marked; the others
/// are not.
pub proof fn lemma_slots_out_of_range_are_marked(
    text: Seq<char>,
    slot: int,
    audio: u16,
    subp: u32,
    m: VtsiMat,
    more: VtsiMat,
)
    requires
        more.vts_audio_attr == m.vts_audio_attr,
        more.vts_subp_attr == m.vts_subp_attr,
        more.nr_of_vts_audio_streams >= 8,
        more.nr_of_vts_subp_streams >= 32,
    ensures
        ({
            let marked = with_audio_slot(text, slot, audio, m);
            let plain = with_audio_slot(text, slot, audio, more);
            &&& audio as int / 256 % 8 < m.nr_of_vts_audio_streams ==> marked == plain
            &&& audio as int / 256 % 8 >= m.nr_of_vts_audio_streams ==> marked == plain.drop_last()
                + "  WARN: stream_num >= nr_of_vts_audio_streams"@ + "\n"@
        }),
        ({
            let marked = with_subp_slot(text, slot, subp, m);
            let plain = with_subp_slot(text, slot, subp, more);
            &&& subp as int / 16777216 % 32 < m.nr_of_vts_subp_streams ==> marked == plain
            &&& subp as int / 16777216 % 32 >= m.nr_of_vts_subp_streams ==> marked
                == plain.drop_last() + "  WARN: stream_num >= nr_of_vts_subp_streams"@ + "\n"@
        }),
{
    reveal_strlit("\n");
    assert forall|t: Seq<char>| #[trigger] (t + "\n"@).drop_last() == t by {
        assert((t + "\n"@).drop_last() =~= t);
    }
}

/// A slot is shown with the stream it points to, and the format, language and
/// identifiers of that stream.
pub proof fn lemma_slot_records(
    text: Seq<char>,
    slot: int,
    audio: u16,
    subp: u32,
    m: VtsiMat,
    letters: Seq<char>,
    id: u8,
    sub: u8,
)
    ensures
        ({
            let stream = audio as int / 256 % 8;
            let a = m.vts_audio_attr@[stream];
            let format = bits_at(a.bits, 1, 8) as u8;
            &&& stream < m.nr_of_vts_audio_streams && lang_letters(a.lang_code) == Some(letters)
                && audio_ids(format, stream as u8) == Some((id, Some(sub))) ==> with_audio_slot(
                text,
                slot,
                audio,
                m,
            ) == text + field("        slot "@, dec(slot as nat), " -> stream_num="@) + field(
                dec(stream as nat),
                "  ctrl=0x"@,
                hex(audio as nat, 4),
            ) + field("  "@, audio_format_text(format), "  "@) + field(
                pad_right(letters, 2),
                "  "@,
                "PS 0x"@,
            ) + field(
                pad_left(hex_upper(id as nat), 2, '0'),
                "/sub 0x"@,
                pad_left(hex_upper(sub as nat), 2, '0'),
            ) + "\n"@
        }),
        ({
            let normal = subp as int / 16777216 % 32;
            &&& normal < m.nr_of_vts_subp_streams && lang_letters(
                m.vts_subp_attr@[normal].lang_code,
            ) == Some(letters) ==> with_subp_slot(text, slot, subp, m) == text + field(
                "        slot "@,
                dec(slot as nat),
                " -> ctrl=0x"@,
            ) + field(hex(subp as nat, 8), "  streams[4:3="@, dec(normal as nat)) + field(
                " wide="@,
                dec((subp as int / 65536 % 32) as nat),
                " letterbox="@,
            ) + field(
                dec((subp as int / 256 % 32) as nat),
                " pan&scan="@,
                dec((subp as int % 32) as nat),
            ) + field("]  "@, pad_right(letters, 2), "  PS 0x"@) + field(
                pad_left(hex_upper(189), 2, '0'),
                "/sub 0x"@,
                pad_left(hex_upper((32 + normal) as nat), 2, '0'),
            ) + "\n"@
        }),
{
    lemma_fields_append();
}

/// A cell is shown with its first and last sector and how far they are apart.
pub proof fn lemma_cell_record(text: Seq<char>, i: int, c: CellPlayback, apart: nat)
    requires
        c.last_sector >= c.first_sector ==> c.last_sector == c.first_sector + apart,
        c.last_sector < c.first_sector ==> apart == 0,
    ensures
        with_cell(text, i, c) == text + field("        ["@, dec(i as nat), "] sectors "@) + field(
            dec(c.first_sector as nat),
            ".."@,
            dec(c.last_sector as nat),
        ) + field(" ("@, pad_left(dec(apart), 7, ' '), " blocks), playback_time="@) + time_text(
            c.playback_time,
        ) + "\n"@,
{
    lemma_fields_append();
}

/// The address tables: the first three cell addresses and how many more there
/// are, the first and last VOBU, and every time map.
pub proof fn lemma_address_tables(text: Seq<char>, vts: IfoHandle, vobus: Seq<u32>)
    ensures
        with_vts_address_tables(text, vts) == with_tmaps(
            with_vobu_admap(with_c_adt(text, vts), vobus_of(vts)) + field(
                "    vts_tmapt:        nr_of_tmaps="@,
                dec(tmaps_of(vts).len()),
                "\n"@,
            ),
            tmaps_of(vts),
            tmaps_of(vts).len() as int,
        ),
        ({
            let rows = cell_adrs_of(vts);
            let n = rows.len() as int;
            let vobs = match vts.vts_c_adt {
                Some(c) => c.nr_of_vobs as nat,
                None => 0,
            };
            let head = text + field(
                "    vts_c_adt:        nr_of_vobs="@,
                dec(vobs),
                "  cell_adr_table_entries="@,
            ) + dec(rows.len()) + "\n"@;
            &&& n <= 3 ==> with_c_adt(text, vts) == with_cell_adrs(head, rows, n)
            &&& n > 3 ==> with_c_adt(text, vts) == with_cell_adrs(head, rows, 3) + field(
                "      ... ("@,
                dec((n - 3) as nat),
                " more)\n"@,
            )
        }),
        vobus.len() == 0 ==> with_vobu_admap(text, vobus) == text + field(
            "    vts_vobu_admap:   vobu_start_sectors_entries="@,
            dec(0),
            "\n"@,
        ),
        vobus.len() > 0 ==> with_vobu_admap(text, vobus) == text + field(
            "    vts_vobu_admap:   vobu_start_sectors_entries="@,
            dec(vobus.len()),
            "  (first/last VOBU starts logged below)"@,
        ) + field("\n"@, "      first VOBU start sector: "@, dec(vobus[0] as nat)) + field(
            "\n"@,
            "      last  VOBU start sector: "@,
            dec(vobus[vobus.len() - 1] as nat),
        ) + "\n"@,
{
    lemma_fields_append();
}

/// The program chain of a title is the one with the title's number in its title
/// set, counted from one.
pub proof fn lemma_program_chain_of_a_title(
    text: Seq<char>,
    vts: IfoHandle,
    m: VtsiMat,
    n: u8,
    pgc: Pgc,
)
    ensures
        ({
            let pgcs = pgcs_of(vts);
            let listed = match vts.vts_pgcit {
                Some(p) => p.nr_of_pgci_srp as nat,
                None => 0,
            };
            let head = text + "    vts_pgcit:\n"@ + field(
                "      nr_of_pgci_srp:   "@,
                dec(listed),
                "  ("@,
            ) + dec(pgcs.len()) + " PGCs in this VTS)\n"@;
            &&& 1 <= n <= pgcs.len() && pgcs[n - 1].pgc == Some(pgc) ==> with_pgc_detail(
                text,
                vts,
                m,
                n,
            ) == with_pgc_summary(head, pgc, m)
            &&& 1 <= n <= pgcs.len() && pgcs[n - 1].pgc is None ==> with_pgc_detail(text, vts, m, n)
                == head + field("    (pgc pointer for vts_ttn="@, dec(n as nat), " was NULL)\n"@)
            &&& n > pgcs.len() && n >= 1 ==> with_pgc_detail(text, vts, m, n) == head
        }),
{
    lemma_fields_append();
}

/// The tables of the whole disc, each with its counts or as absent.
pub proof fn lemma_disc_tables(text: Seq<char>, vmg: IfoHandle)
    ensures
        ({
            let first = match vmg.first_play_pgc {
                Some(p) => "  first_play_pgc:          present (nr_of_programs="@ + dec(
                    p.nr_of_programs as nat,
                ) + " nr_of_cells="@ + dec(p.nr_of_cells as nat) + " playback_time="@ + time_text(
                    p.playback_time,
                ) + ")\n"@,
                None => "  first_play_pgc:          (none)\n"@,
            };
            let parental = match vmg.ptl_mait {
                Some(p) => "  ptl_mait:                nr_of_countries="@ + dec(
                    p.nr_of_countries as nat,
                ) + " nr_of_vtss="@ + dec(p.nr_of_vtss as nat) + "\n"@,
                None => "  ptl_mait:                (no parental management table)\n"@,
            };
            let attributes = match vmg.vts_atrt {
                Some(a) => "  vts_atrt:                nr_of_vtss="@ + dec(a.nr_of_vtss as nat)
                    + "\n"@,
                None => "  vts_atrt:                (no VTS attribute table)\n"@,
            };
            with_vmg_extras(text, vmg) =~= text + "\nVMG ancillary tables:\n"@ + first + parental
                + attributes
        }),
{
}

} // verus!
