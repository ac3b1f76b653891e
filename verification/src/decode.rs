//! Human-readable decoders for the packed fields of stream attributes and of
//! the stream controls of a program chain.
use vstd::prelude::*;
use crate::mpegps::{kind_of, StreamKind};
use crate::text::push_char;

verus! {

/// The meaning of each code, in words.
pub open spec fn video_mpeg_version_text(code: u8) -> Seq<char> {
    match code {
        0 => "mpeg1"@,
        1 => "mpeg2"@,
        _ => "reserved"@,
    }
}

/// Decodes the coding version of a video stream.
pub fn video_mpeg_version(code: u8) -> (s: &'static str)
    ensures
        s@ == video_mpeg_version_text(code),
{
    match code {
        0 => "mpeg1",
        1 => "mpeg2",
        _ => "reserved",
    }
}

/// The meaning of each code, in words.
pub open spec fn video_format_text(code: u8) -> Seq<char> {
    match code {
        0 => "NTSC"@,
        1 => "PAL"@,
        _ => "reserved"@,
    }
}

/// Decodes the television standard of a video stream.
pub fn video_format(code: u8) -> (s: &'static str)
    ensures
        s@ == video_format_text(code),
{
    match code {
        0 => "NTSC",
        1 => "PAL",
        _ => "reserved",
    }
}

/// The meaning of each code, in words.
pub open spec fn video_aspect_ratio_text(code: u8) -> Seq<char> {
    match code {
        0 => "4:3"@,
        3 => "16:9"@,
        _ => "reserved"@,
    }
}

/// Decodes the display aspect ratio of a video stream.
pub fn video_aspect_ratio(code: u8) -> (s: &'static str)
    ensures
        s@ == video_aspect_ratio_text(code),
{
    match code {
        0 => "4:3",
        3 => "16:9",
        _ => "reserved",
    }
}

/// The meaning of each code, in words.
pub open spec fn video_permitted_df_text(code: u8) -> Seq<char> {
    match code {
        0 => "pan&scan + letterboxed"@,
        1 => "pan&scan only"@,
        2 => "letterboxed only"@,
        3 => "not specified"@,
        _ => "reserved"@,
    }
}

/// Decodes which display formats the disc allows for 16:9 content on a 4:3
/// display.
pub fn video_permitted_df(code: u8) -> (s: &'static str)
    ensures
        s@ == video_permitted_df_text(code),
{
    match code {
        0 => "pan&scan + letterboxed",
        1 => "pan&scan only",
        2 => "letterboxed only",
        3 => "not specified",
        _ => "reserved",
    }
}

/// The meaning of each code, in words.
pub open spec fn audio_format_text(code: u8) -> Seq<char> {
    match code {
        0 => "ac3"@,
        2 => "mpeg1"@,
        3 => "mpeg2ext"@,
        4 => "lpcm"@,
        6 => "dts"@,
        _ => "reserved"@,
    }
}

/// Decodes the coding format of an audio stream.
pub fn audio_format(code: u8) -> (s: &'static str)
    ensures
        s@ == audio_format_text(code),
{
    match code {
        0 => "ac3",
        2 => "mpeg1",
        3 => "mpeg2ext",
        4 => "lpcm",
        6 => "dts",
        _ => "reserved",
    }
}

/// The meaning of each code, in words.
pub open spec fn audio_sample_frequency_text(code: u8) -> Seq<char> {
    match code {
        0 => "48 kHz"@,
        1 => "96 kHz"@,
        _ => "reserved"@,
    }
}

/// Decodes the sample frequency of an audio stream.
pub fn audio_sample_frequency(code: u8) -> (s: &'static str)
    ensures
        s@ == audio_sample_frequency_text(code),
{
    match code {
        0 => "48 kHz",
        1 => "96 kHz",
        _ => "reserved",
    }
}

/// The meaning of each code, in words.
pub open spec fn audio_lpcm_quantization_text(code: u8) -> Seq<char> {
    match code {
        0 => "16-bit"@,
        1 => "20-bit"@,
        2 => "24-bit"@,
        _ => "reserved"@,
    }
}

/// Decodes the quantization of an LPCM stream.
pub fn audio_lpcm_quantization(code: u8) -> (s: &'static str)
    ensures
        s@ == audio_lpcm_quantization_text(code),
{
    match code {
        0 => "16-bit",
        1 => "20-bit",
        2 => "24-bit",
        _ => "reserved",
    }
}

/// The meaning of each code, in words.
pub open spec fn audio_mpeg_drc_text(code: u8) -> Seq<char> {
    match code {
        0 => "no drc"@,
        1 => "drc"@,
        _ => "reserved"@,
    }
}

/// Decodes the quantization of an MPEG audio stream, which carries its dynamic
/// range control.
pub fn audio_mpeg_drc(code: u8) -> (s: &'static str)
    ensures
        s@ == audio_mpeg_drc_text(code),
{
    match code {
        0 => "no drc",
        1 => "drc",
        _ => "reserved",
    }
}

/// The meaning of each code, in words.
pub open spec fn audio_application_mode_text(code: u8) -> Seq<char> {
    match code {
        0 => "unspecified"@,
        1 => "karaoke"@,
        2 => "surround"@,
        _ => "reserved"@,
    }
}

/// Decodes the application mode of an audio stream.
pub fn audio_application_mode(code: u8) -> (s: &'static str)
    ensures
        s@ == audio_application_mode_text(code),
{
    match code {
        0 => "unspecified",
        1 => "karaoke",
        2 => "surround",
        _ => "reserved",
    }
}

/// The meaning of each code, in words.
pub open spec fn audio_lang_extension_text(code: u8) -> Seq<char> {
    match code {
        0 => "not specified"@,
        1 => "normal"@,
        2 => "visually-impaired"@,
        3 => "director's comments 1"@,
        4 => "director's comments 2"@,
        _ => "reserved"@,
    }
}

/// Decodes the role of an audio stream.
pub fn audio_lang_extension(code: u8) -> (s: &'static str)
    ensures
        s@ == audio_lang_extension_text(code),
{
    match code {
        0 => "not specified",
        1 => "normal",
        2 => "visually-impaired",
        3 => "director's comments 1",
        4 => "director's comments 2",
        _ => "reserved",
    }
}

/// The meaning of each code, in words.
pub open spec fn subp_lang_extension_text(code: u8) -> Seq<char> {
    match code {
        0 => "not specified"@,
        1 => "caption (normal size)"@,
        2 => "caption (bigger size)"@,
        3 => "caption (children)"@,
        5 => "closed captions (normal)"@,
        6 => "closed captions (bigger)"@,
        7 => "closed captions (children)"@,
        9 => "forced caption"@,
        13 => "director's comments (normal)"@,
        14 => "director's comments (bigger)"@,
        15 => "director's comments (children)"@,
        _ => "reserved"@,
    }
}

/// Decodes the role of a subpicture stream.
pub fn subp_lang_extension(code: u8) -> (s: &'static str)
    ensures
        s@ == subp_lang_extension_text(code),
{
    match code {
        0 => "not specified",
        1 => "caption (normal size)",
        2 => "caption (bigger size)",
        3 => "caption (children)",
        5 => "closed captions (normal)",
        6 => "closed captions (bigger)",
        7 => "closed captions (children)",
        9 => "forced caption",
        13 => "director's comments (normal)",
        14 => "director's comments (bigger)",
        15 => "director's comments (children)",
        _ => "reserved",
    }
}

/// Width and height of each picture size. Heights have 480 lines for NTSC and
/// 576 otherwise; reserved sizes are 0 by 0.
pub open spec fn picture_size_of(picture_size: u8, video_format: u8) -> (u16, u16) {
    let height: u16 = if video_format == 0 {
        480
    } else {
        576
    };
    match picture_size {
        0 => (720, height),
        1 => (704, height),
        2 => (352, height),
        3 => (352, (height / 2) as u16),
        _ => (0, 0),
    }
}

/// Decodes a picture size to its width and height in pixels.
pub fn video_picture_size(picture_size: u8, video_format: u8) -> (size: (u16, u16))
    ensures
        size == picture_size_of(picture_size, video_format),
{
    let height: u16 = if video_format == 0 {
        480
    } else {
        576
    };
    match picture_size {
        0 => (720, height),
        1 => (704, height),
        2 => (352, height),
        3 => (352, height / 2),
        _ => (0, 0),
    }
}

/// An ASCII letter.
pub open spec fn is_letter(b: u8) -> bool {
    0x41 <= b <= 0x5A || 0x61 <= b <= 0x7A
}

/// Whether a byte is an ASCII letter.
pub fn is_ascii_letter(b: u8) -> (r: bool)
    ensures
        r == is_letter(b),
{
    (0x41 <= b && b <= 0x5A) || (0x61 <= b && b <= 0x7A)
}

/// The two letters of a packed language code.
pub open spec fn lang_letters(code: u16) -> Option<Seq<char>> {
    let hi = (code / 256) as u8;
    let lo = (code % 256) as u8;
    if is_letter(hi) && is_letter(lo) {
        Some(seq![hi as char, lo as char])
    } else {
        None
    }
}

/// Decodes a packed two-letter language code; `None` where either byte is not
/// an ASCII letter.
pub fn lang_code(code: u16) -> (r: Option<String>)
    ensures
        match r {
            Some(s) => lang_letters(code) == Some(s@),
            None => lang_letters(code) is None,
        },
{
    let hi: u8 = (code / 256) as u8;
    let lo: u8 = (code % 256) as u8;
    if is_ascii_letter(hi) && is_ascii_letter(lo) {
        let mut s = String::new();
        push_char(&mut s, hi as char);
        push_char(&mut s, lo as char);
        assert(s@ =~= seq![hi as char, lo as char]);
        Some(s)
    } else {
        None
    }
}

/// Stream id, and where it has one the substream id, of an audio stream:
/// MPEG audio has stream ids of its own, the others share private stream 1.
pub open spec fn audio_ids(audio_format: u8, index: u8) -> Option<(u8, Option<u8>)> {
    match audio_format {
        0 => Some((0xBD, Some((0x80 + index) as u8))),
        2 | 3 => Some(((0xC0 + index) as u8, None)),
        4 => Some((0xBD, Some((0xA0 + index) as u8))),
        6 => Some((0xBD, Some((0x88 + index) as u8))),
        _ => None,
    }
}

/// Lowest id of the audio streams of a format.
pub open spec fn audio_id_base(audio_format: u8) -> int {
    match audio_format {
        0 => 0x80,
        2 | 3 => 0xC0,
        4 => 0xA0,
        6 => 0x88,
        _ => 0,
    }
}

/// The program stream ids that carry an audio stream; `None` for reserved
/// formats.
pub fn audio_stream_id(audio_format: u8, index: u8) -> (r: Option<(u8, Option<u8>)>)
    requires
        audio_id_base(audio_format) + index <= 255,
    ensures
        r == audio_ids(audio_format, index),
{
    match audio_format {
        0 => Some((0xBD, Some(0x80 + index))),
        2 | 3 => Some((0xC0 + index, None)),
        4 => Some((0xBD, Some(0xA0 + index))),
        6 => Some((0xBD, Some(0x88 + index))),
        _ => None,
    }
}

/// The program stream ids that carry a subpicture stream.
pub fn subp_stream_id(index: u8) -> (r: (u8, u8))
    requires
        0x20 + index <= 255,
    ensures
        r == (0xBDu8, (0x20 + index) as u8),
{
    (0xBD, 0x20 + index)
}

/// An audio stream of a disc is found again by its ids: classifying them gives
/// the stream's format and index.
pub proof fn lemma_audio_ids_classify(index: u8)
    requires
        index < 8,
    ensures
        ({
            let (id, sub) = audio_ids(0, index)->0;
            kind_of(id, sub) == StreamKind::Ac3(index)
        }),
        ({
            let (id, sub) = audio_ids(6, index)->0;
            kind_of(id, sub) == StreamKind::Dts(index)
        }),
        ({
            let (id, sub) = audio_ids(4, index)->0;
            kind_of(id, sub) == StreamKind::Lpcm(index)
        }),
        ({
            let (id, sub) = audio_ids(2, index)->0;
            kind_of(id, sub) == StreamKind::MpegAudio(id)
        }),
{
}

/// A subpicture stream is found again by its ids.
pub proof fn lemma_subp_ids_classify(index: u8)
    requires
        index < 32,
    ensures
        kind_of(0xBD, Some((0x20 + index) as u8)) == StreamKind::Subpicture(index),
{
}

/// Whether an audio stream slot is used by the program chain: the top bit.
pub fn pgc_audio_control_available(control: u16) -> (r: bool)
    ensures
        r == (control >= 0x8000),
{
    control >= 0x8000
}

/// Stream number of an audio stream slot: the low three bits of the high byte.
pub fn pgc_audio_control_stream_number(control: u16) -> (n: u8)
    ensures
        n as int == control as int / 256 % 8,
{
    (control / 256 % 8) as u8
}

/// Whether a subpicture stream slot is used by the program chain: the top bit.
pub fn pgc_subp_control_available(control: u32) -> (r: bool)
    ensures
        r == (control >= 0x8000_0000),
{
    control >= 0x8000_0000
}

/// Stream number of a subpicture slot on a 4:3 display: the low five bits of the first byte.
pub fn pgc_subp_control_stream_4_3(control: u32) -> (n: u8)
    ensures
        n as int == control as int / 0x1000000 % 32,
{
    (control / 0x1000000 % 32) as u8
}

/// Stream number of a subpicture slot on a wide display: the low five bits of the second byte.
pub fn pgc_subp_control_stream_wide(control: u32) -> (n: u8)
    ensures
        n as int == control as int / 0x10000 % 32,
{
    (control / 0x10000 % 32) as u8
}

/// Stream number of a subpicture slot in letterbox mode: the low five bits of the third byte.
pub fn pgc_subp_control_stream_letterbox(control: u32) -> (n: u8)
    ensures
        n as int == control as int / 0x100 % 32,
{
    (control / 0x100 % 32) as u8
}

/// Stream number of a subpicture slot in pan and scan mode: the low five bits of the last byte.
pub fn pgc_subp_control_stream_pan_scan(control: u32) -> (n: u8)
    ensures
        n as int == control as int % 32,
{
    (control % 32) as u8
}

} // verus!
