//! Laws of chapter times and chapter XML.
use vstd::prelude::*;
use crate::cell::raw_cells_of;
use crate::chapters::{
    cells_nanos, chapter_start, lemma_factor_undone, mix, start_cell_of, time_nanos,
    timecode_text, total_nanos, uid_of, uid_seed, with_chapter, with_chapters, with_xml,
    with_xml_preamble,
};
use crate::ifo::{CellPlayback, DvdTime, Pgc, PttInfo};
use crate::text::{dec, pad_left};

verus! {

/// A playback time of two decimal digits for hours, minutes, seconds and
/// frames: at 25 frames per second a frame is 40 milliseconds, at 30000/1001 it
/// is 1001/30000 seconds, and with no frame rate frames count for nothing.
pub proof fn lemma_playback_time_is_decimal(
    t: DvdTime,
    hours: int,
    minutes: int,
    seconds: int,
    frames: int,
    rate: int,
)
    requires
        0 <= hours < 100,
        0 <= minutes < 100,
        0 <= seconds < 100,
        0 <= frames < 40,
        0 <= rate < 4,
        t.hour as int == hours / 10 * 16 + hours % 10,
        t.minute as int == minutes / 10 * 16 + minutes % 10,
        t.second as int == seconds / 10 * 16 + seconds % 10,
        t.frame_u as int == rate * 64 + frames / 10 * 16 + frames % 10,
    ensures
        ({
            let whole = (hours * 3600 + minutes * 60 + seconds) * 1_000_000_000;
            &&& rate == 1 ==> time_nanos(t) == whole + frames * 40_000_000
            &&& rate == 3 ==> 30_000 * (time_nanos(t) - whole) <= frames * 1001 * 1_000_000_000
                < 30_000 * (time_nanos(t) - whole + 1)
            &&& rate == 0 || rate == 2 ==> time_nanos(t) == whole
        }),
{
    let low = (t.frame_u % 64) as int;
    assert(low == frames / 10 * 16 + frames % 10);
    assert(t.frame_u as int / 64 == rate);
}

/// The time up to a cell is the sum of the playback times of the cells before
/// it, and the whole is the sum of all.
pub proof fn lemma_cell_times_add_up(cells: Seq<CellPlayback>, n: int)
    requires
        0 <= n <= cells.len(),
    ensures
        cells_nanos(cells, n) == cells.subrange(0, n).fold_left(
            0int,
            |sum: int, c: CellPlayback| sum + time_nanos(c.playback_time),
        ),
    decreases n,
{
    let f = |sum: int, c: CellPlayback| sum + time_nanos(c.playback_time);
    if n > 0 {
        lemma_cell_times_add_up(cells, n - 1);
        assert(cells.subrange(0, n).drop_last() =~= cells.subrange(0, n - 1));
        assert(cells.subrange(0, n).last() == cells[n - 1]);
    } else {
        assert(cells.subrange(0, 0) =~= Seq::<CellPlayback>::empty());
    }
}

/// A chapter starts with the cell that the program map gives for its program:
/// at the sum of the times of all cells before that one. Without such a program
/// or cell it starts at 0. The whole is the sum over all cells.
pub proof fn lemma_chapter_starts_behind_earlier_cells(pgc: Pgc, chapter: PttInfo)
    ensures
        ({
            let n = if raw_cells_of(pgc).len() == 0 {
                0
            } else {
                raw_cells_of(pgc).len() as int
            };
            let known = pgc.program_map matches Some(map) && 1 <= chapter.pgn <= map@.len()
                && chapter.pgn <= pgc.nr_of_programs;
            let cell = pgc.program_map->0@[chapter.pgn - 1] as int;
            &&& known && 1 <= cell <= n + 1 ==> chapter_start(pgc, chapter) == cells_nanos(
                raw_cells_of(pgc),
                cell - 1,
            )
            &&& !known ==> chapter_start(pgc, chapter) == 0 && start_cell_of(
                pgc,
                chapter.pgn,
            ) is None
            &&& known ==> start_cell_of(pgc, chapter.pgn) == Some(cell as u8)
            &&& known && (cell == 0 || cell > n + 1) ==> chapter_start(pgc, chapter) == 0
            &&& total_nanos(pgc) == cells_nanos(raw_cells_of(pgc), n)
        }),
{
}

/// The cells of a program chain are its table, as far as both the table and
/// the stated number of cells reach.
pub proof fn lemma_cells_are_the_table(pgc: Pgc, i: int)
    ensures
        pgc.cell_playback is None ==> raw_cells_of(pgc).len() == 0,
        pgc.cell_playback matches Some(v) ==> {
            &&& raw_cells_of(pgc).len() == (if v@.len() < pgc.nr_of_cells {
                v@.len() as int
            } else {
                pgc.nr_of_cells as int
            })
            &&& 0 <= i < raw_cells_of(pgc).len() ==> raw_cells_of(pgc)[i] == v@[i]
        },
{
}

/// Chapters tile the title: each is written with its own start, and with the
/// start of the next one as its end; the last ends with the title.
pub proof fn lemma_chapters_tile_the_title(
    text: Seq<char>,
    pgc: Pgc,
    chapters: Seq<PttInfo>,
    title: u32,
    lang: Seq<char>,
    i: int,
)
    requires
        0 <= i < chapters.len(),
    ensures
        with_chapters(text, pgc, chapters, title, lang, 0) == text,
        i + 1 < chapters.len() ==> with_chapters(text, pgc, chapters, title, lang, i + 1)
            == with_chapter(
            with_chapters(text, pgc, chapters, title, lang, i),
            i,
            chapter_start(pgc, chapters[i]) as u64,
            chapter_start(pgc, chapters[i + 1]) as u64,
            title,
            lang,
        ),
        i + 1 == chapters.len() ==> with_chapters(text, pgc, chapters, title, lang, i + 1)
            == with_chapter(
            with_chapters(text, pgc, chapters, title, lang, i),
            i,
            chapter_start(pgc, chapters[i]) as u64,
            total_nanos(pgc) as u64,
            title,
            lang,
        ),
{
}

/// The XML is a preamble, one element for every chapter, and two closing tags.
pub proof fn lemma_xml_has_every_chapter(
    text: Seq<char>,
    pgc: Pgc,
    chapters: Seq<PttInfo>,
    title: u32,
    lang: Seq<char>,
)
    ensures
        with_xml(text, pgc, chapters, title, lang) == with_chapters(
            with_xml_preamble(text, title),
            pgc,
            chapters,
            title,
            lang,
            chapters.len() as int,
        ) + "  </EditionEntry>\n"@ + "</Chapters>\n"@,
{
}

/// What stands before the first chapter: a byte order mark, the head of the XML,
/// and the identifier of the edition.
pub proof fn lemma_xml_preamble(text: Seq<char>, title: u32)
    ensures
        with_xml_preamble(text, title) == text + "\u{FEFF}"@ + "<?xml version=\"1.0\"?>\n"@
            + "<!-- <!DOCTYPE Chapters SYSTEM \"matroskachapters.dtd\"> -->\n"@ + "<Chapters>\n"@
            + "  <EditionEntry>\n"@ + "    <EditionFlagHidden>0</EditionFlagHidden>\n"@
            + "    <EditionFlagDefault>1</EditionFlagDefault>\n"@ + "    <EditionUID>"@ + dec(
            uid_of((title * 65536) as u64) as nat,
        ) + "</EditionUID>\n"@,
{
}

/// What the element of a chapter says: its identifier, start and end, its number
/// from 1 in at least two digits, and its language.
pub proof fn lemma_chapter_element(
    text: Seq<char>,
    i: int,
    start: u64,
    end: u64,
    title: u32,
    lang: Seq<char>,
)
    requires
        0 <= i,
    ensures
        with_chapter(text, i, start, end, title, lang) == text
            + "    <ChapterAtom>\n"@ + "      <ChapterUID>"@ + dec(
            uid_of((title * 65536 + i + 1) as u64) as nat,
        ) + "</ChapterUID>\n"@ + "      <ChapterTimeStart>"@ + timecode_text(start)
            + "</ChapterTimeStart>\n"@ + "      <ChapterFlagHidden>0</ChapterFlagHidden>\n"@
            + "      <ChapterFlagEnabled>1</ChapterFlagEnabled>\n"@ + "      <ChapterTimeEnd>"@
            + timecode_text(end) + "</ChapterTimeEnd>\n"@ + "      <ChapterDisplay>\n"@
            + "        <ChapterString>Chapter "@ + pad_left(dec((i + 1) as nat), 2, '0')
            + "</ChapterString>\n"@ + "        <ChapterLanguage>"@ + lang
            + "</ChapterLanguage>\n"@ + "      </ChapterDisplay>\n"@ + "    </ChapterAtom>\n"@,
{
}

/// A timecode names the hours, minutes, seconds and nanoseconds that a time
/// comes to.
pub proof fn lemma_timecode_names_the_time(
    nanos: u64,
    hours: nat,
    minutes: nat,
    seconds: nat,
    rest: nat,
)
    requires
        nanos == ((hours * 60 + minutes) * 60 + seconds) * 1_000_000_000 + rest,
        minutes < 60,
        seconds < 60,
        rest < 1_000_000_000,
    ensures
        timecode_text(nanos) == pad_left(dec(hours), 2, '0') + ":"@ + pad_left(
            dec(minutes),
            2,
            '0',
        ) + ":"@ + pad_left(dec(seconds), 2, '0') + "."@ + pad_left(dec(rest), 9, '0'),
{
    lemma_time_parts(nanos as nat, hours, minutes, seconds, rest);
}

proof fn lemma_time_parts(nanos: nat, hours: nat, minutes: nat, seconds: nat, rest: nat)
    requires
        nanos == ((hours * 60 + minutes) * 60 + seconds) * 1_000_000_000 + rest,
        minutes < 60,
        seconds < 60,
        rest < 1_000_000_000,
    ensures
        nanos / 1_000_000_000 / 3600 == hours,
        nanos / 1_000_000_000 % 3600 / 60 == minutes,
        nanos / 1_000_000_000 % 60 == seconds,
        nanos % 1_000_000_000 == rest,
{
    let total = (hours * 60 + minutes) * 60 + seconds;
    assert(nanos / 1_000_000_000 == total);
    assert(total == hours * 3600 + (minutes * 60 + seconds));
    assert(total / 3600 == hours);
    assert(total % 3600 == minutes * 60 + seconds);
}

/// An identifier gives its seed back: undo the three folds and the two
/// multiplications of splitmix64, and take its increment off.
pub proof fn lemma_uid_can_be_undone(seed: u64)
    ensures
        ({
            let u = uid_of(seed);
            let c = u ^ (u >> 31) ^ (u >> 62);
            let b = c.wrapping_mul(0x3196_42B2_D24D_8EC3);
            let b = b ^ (b >> 27) ^ (b >> 54);
            let a = b.wrapping_mul(0x96DE_1B17_3F11_9089);
            let a = a ^ (a >> 30) ^ (a >> 60);
            a.wrapping_sub(0x9E37_79B9_7F4A_7C15) == seed
        }),
{
    let a0 = seed.wrapping_add(0x9E37_79B9_7F4A_7C15);
    let a1 = a0 ^ (a0 >> 30);
    let b0 = mix(a0, 30, 0xBF58_476D_1CE4_E5B9);
    let b1 = b0 ^ (b0 >> 27);
    let c0 = mix(b0, 27, 0x94D0_49BB_1331_11EB);
    let u = c0 ^ (c0 >> 31);
    assert(u ^ (u >> 31) ^ (u >> 62) == c0) by (bit_vector)
        requires
            u == c0 ^ (c0 >> 31),
    ;
    assert(0x94D0_49BB_1331_11EBu64 * 0x3196_42B2_D24D_8EC3u64 == 1 + 2077064247507883091int
        * 0x1_0000_0000_0000_0000);
    lemma_factor_undone(b1, 0x94D0_49BB_1331_11EB, 0x3196_42B2_D24D_8EC3, 2077064247507883091);
    assert(c0.wrapping_mul(0x3196_42B2_D24D_8EC3) == b1);
    assert(b1 ^ (b1 >> 27) ^ (b1 >> 54) == b0) by (bit_vector)
        requires
            b1 == b0 ^ (b0 >> 27),
    ;
    assert(0xBF58_476D_1CE4_E5B9u64 * 0x96DE_1B17_3F11_9089u64 == 1 + 8125545580553827436int
        * 0x1_0000_0000_0000_0000);
    lemma_factor_undone(a1, 0xBF58_476D_1CE4_E5B9, 0x96DE_1B17_3F11_9089, 8125545580553827436);
    assert(b0.wrapping_mul(0x96DE_1B17_3F11_9089) == a1);
    assert(a1 ^ (a1 >> 30) ^ (a1 >> 60) == a0) by (bit_vector)
        requires
            a1 == a0 ^ (a0 >> 30),
    ;
}

} // verus!
