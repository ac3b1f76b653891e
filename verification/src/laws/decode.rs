//! Laws of codes and their meaning.
use vstd::prelude::*;
use crate::decode::{
    audio_application_mode_text, audio_format_text, audio_ids, audio_lang_extension_text,
    audio_lpcm_quantization_text, audio_mpeg_drc_text, audio_sample_frequency_text, is_letter,
    lang_letters, picture_size_of, subp_lang_extension_text, video_aspect_ratio_text,
    video_format_text, video_mpeg_version_text, video_permitted_df_text,
};
use crate::dvd_backend::language_of;
use crate::text::lower_char;

verus! {

/// What the codes of the video attributes stand for; every other code is
/// reserved.
pub proof fn lemma_video_codes(code: u8)
    ensures
        code == 0 ==> video_mpeg_version_text(code) == "mpeg1"@,
        code == 1 ==> video_mpeg_version_text(code) == "mpeg2"@,
        code > 1 ==> video_mpeg_version_text(code) == "reserved"@,
        code == 0 ==> video_format_text(code) == "NTSC"@,
        code == 1 ==> video_format_text(code) == "PAL"@,
        code > 1 ==> video_format_text(code) == "reserved"@,
        code == 0 ==> video_aspect_ratio_text(code) == "4:3"@,
        code == 3 ==> video_aspect_ratio_text(code) == "16:9"@,
        code != 0 && code != 3 ==> video_aspect_ratio_text(code) == "reserved"@,
        code == 0 ==> video_permitted_df_text(code) == "pan&scan + letterboxed"@,
        code == 1 ==> video_permitted_df_text(code) == "pan&scan only"@,
        code == 2 ==> video_permitted_df_text(code) == "letterboxed only"@,
        code == 3 ==> video_permitted_df_text(code) == "not specified"@,
        code > 3 ==> video_permitted_df_text(code) == "reserved"@,
{
}

/// What the codes of the audio attributes stand for; every other code is
/// reserved.
pub proof fn lemma_audio_codes(code: u8)
    ensures
        code == 0 ==> audio_format_text(code) == "ac3"@,
        code == 2 ==> audio_format_text(code) == "mpeg1"@,
        code == 3 ==> audio_format_text(code) == "mpeg2ext"@,
        code == 4 ==> audio_format_text(code) == "lpcm"@,
        code == 6 ==> audio_format_text(code) == "dts"@,
        code == 1 || code == 5 || code > 6 ==> audio_format_text(code) == "reserved"@,
        code == 0 ==> audio_sample_frequency_text(code) == "48 kHz"@,
        code == 1 ==> audio_sample_frequency_text(code) == "96 kHz"@,
        code > 1 ==> audio_sample_frequency_text(code) == "reserved"@,
        code == 0 ==> audio_lpcm_quantization_text(code) == "16-bit"@,
        code == 1 ==> audio_lpcm_quantization_text(code) == "20-bit"@,
        code == 2 ==> audio_lpcm_quantization_text(code) == "24-bit"@,
        code > 2 ==> audio_lpcm_quantization_text(code) == "reserved"@,
        code == 0 ==> audio_mpeg_drc_text(code) == "no drc"@,
        code == 1 ==> audio_mpeg_drc_text(code) == "drc"@,
        code > 1 ==> audio_mpeg_drc_text(code) == "reserved"@,
        code == 0 ==> audio_application_mode_text(code) == "unspecified"@,
        code == 1 ==> audio_application_mode_text(code) == "karaoke"@,
        code == 2 ==> audio_application_mode_text(code) == "surround"@,
        code > 2 ==> audio_application_mode_text(code) == "reserved"@,
{
}

/// What the codes of the language extensions stand for; every other code is
/// reserved.
pub proof fn lemma_extension_codes(code: u8)
    ensures
        code == 0 ==> audio_lang_extension_text(code) == "not specified"@,
        code == 1 ==> audio_lang_extension_text(code) == "normal"@,
        code == 2 ==> audio_lang_extension_text(code) == "visually-impaired"@,
        code == 3 ==> audio_lang_extension_text(code) == "director's comments 1"@,
        code == 4 ==> audio_lang_extension_text(code) == "director's comments 2"@,
        code > 4 ==> audio_lang_extension_text(code) == "reserved"@,
        code == 0 ==> subp_lang_extension_text(code) == "not specified"@,
        code == 1 ==> subp_lang_extension_text(code) == "caption (normal size)"@,
        code == 2 ==> subp_lang_extension_text(code) == "caption (bigger size)"@,
        code == 3 ==> subp_lang_extension_text(code) == "caption (children)"@,
        code == 5 ==> subp_lang_extension_text(code) == "closed captions (normal)"@,
        code == 6 ==> subp_lang_extension_text(code) == "closed captions (bigger)"@,
        code == 7 ==> subp_lang_extension_text(code) == "closed captions (children)"@,
        code == 9 ==> subp_lang_extension_text(code) == "forced caption"@,
        code == 13 ==> subp_lang_extension_text(code) == "director's comments (normal)"@,
        code == 14 ==> subp_lang_extension_text(code) == "director's comments (bigger)"@,
        code == 15 ==> subp_lang_extension_text(code) == "director's comments (children)"@,
        code == 4 || code == 8 || 10 <= code <= 12 || code > 15 ==> subp_lang_extension_text(code)
            == "reserved"@,
{
}

/// Pictures have 480 lines in NTSC and 576 otherwise, half of that in the
/// smallest size; widths are 720, 704 and 352, and other sizes are none.
pub proof fn lemma_picture_sizes(size: u8, format: u8)
    ensures
        ({
            let (w, h) = picture_size_of(size, format);
            let lines = if format == 0 {
                480int
            } else {
                576
            };
            &&& size == 0 ==> w == 720
            &&& size == 1 ==> w == 704
            &&& size == 2 || size == 3 ==> w == 352
            &&& size <= 2 ==> h == lines
            &&& size == 3 ==> 2 * h == lines
            &&& size > 3 ==> w == 0 && h == 0
        }),
{
}

/// A language code is its two letters, high byte first; without two letters it
/// is none.
pub proof fn lemma_language_letters(hi: u8, lo: u8)
    ensures
        ({
            let code = (hi as u16 * 256 + lo as u16) as u16;
            let letter = |b: u8| (0x41 <= b && b <= 0x5A) || (0x61 <= b && b <= 0x7A);
            &&& letter(hi) && letter(lo) ==> lang_letters(code) == Some(
                seq![hi as char, lo as char],
            )
            &&& !(letter(hi) && letter(lo)) ==> lang_letters(code) is None
        }),
{
    let code = hi as int * 256 + lo as int;
    assert(code / 256 == hi as int);
    assert(code % 256 == lo as int);
}

/// An audio stream of a format has its ids by its number: AC-3 from 0x80, DTS
/// from 0x88 and LPCM from 0xA0 on private stream 1, MPEG audio from 0xC0 on its
/// own; other formats have none.
pub proof fn lemma_audio_stream_ids(format: u8, n: u8)
    requires
        n < 8,
    ensures
        format == 0 ==> audio_ids(format, n) == Some((0xBDu8, Some((0x80 + n) as u8))),
        format == 6 ==> audio_ids(format, n) == Some((0xBDu8, Some((0x88 + n) as u8))),
        format == 4 ==> audio_ids(format, n) == Some((0xBDu8, Some((0xA0 + n) as u8))),
        format == 2 || format == 3 ==> audio_ids(format, n) == Some(((0xC0 + n) as u8, None::<u8>)),
        format == 1 || format == 5 || format > 6 ==> audio_ids(format, n) is None,
{
}

/// Each common language has its three letters, in whatever case its two letters
/// are given.
pub proof fn lemma_languages(hi: u8, lo: u8, a: char, b: char)
    requires
        lower_char(hi as char) == a,
        lower_char(lo as char) == b,
        'a' <= a <= 'z',
        'a' <= b <= 'z',
    ensures
        ({
            let code = language_of((hi as u16 * 256 + lo as u16) as u16);
            &&& a == 'e' && b == 'n' ==> code == "eng"@
            &&& a == 'f' && b == 'r' ==> code == "fre"@
            &&& a == 'e' && b == 's' ==> code == "spa"@
            &&& a == 'd' && b == 'e' ==> code == "ger"@
            &&& a == 'i' && b == 't' ==> code == "ita"@
            &&& a == 'j' && b == 'a' ==> code == "jpn"@
            &&& a == 'z' && b == 'h' ==> code == "chi"@
            &&& a == 'k' && b == 'o' ==> code == "kor"@
            &&& a == 'p' && b == 't' ==> code == "por"@
            &&& a == 'r' && b == 'u' ==> code == "rus"@
            &&& a == 'n' && b == 'l' ==> code == "dut"@
            &&& a == 's' && b == 'v' ==> code == "swe"@
            &&& a == 'f' && b == 'i' ==> code == "fin"@
            &&& a == 'n' && b == 'o' ==> code == "nor"@
            &&& a == 'd' && b == 'a' ==> code == "dan"@
            &&& a == 'p' && b == 'l' ==> code == "pol"@
            &&& a == 'c' && b == 's' ==> code == "cze"@
            &&& a == 'a' && b == 'r' ==> code == "ara"@
            &&& a == 'h' && b == 'e' ==> code == "heb"@
            &&& a == 'h' && b == 'i' ==> code == "hin"@
            &&& a == 't' && b == 'r' ==> code == "tur"@
            &&& a == 'e' && b == 'l' ==> code == "gre"@
            &&& a == 'h' && b == 'u' ==> code == "hun"@
        }),
{
    let code = hi as int * 256 + lo as int;
    assert(code / 256 == hi as int);
    assert(code % 256 == lo as int);
    assert(is_letter(hi));
    assert(is_letter(lo));
}

/// A code without two letters is no language.
pub proof fn lemma_no_letters_no_language(hi: u8, lo: u8)
    requires
        !(0x41 <= hi <= 0x5A || 0x61 <= hi <= 0x7A) || !(0x41 <= lo <= 0x5A || 0x61 <= lo <= 0x7A),
    ensures
        language_of((hi as u16 * 256 + lo as u16) as u16) == "und"@,
{
    let code = hi as int * 256 + lo as int;
    assert(code / 256 == hi as int);
    assert(code % 256 == lo as int);
}

} // verus!
