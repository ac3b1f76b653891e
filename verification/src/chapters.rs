//! Chapter times and chapter XML.
//!
//! A chapter names a program of a program chain, and the chain says with which
//! cell a program starts. A chapter starts when the cells before that one have
//! been played.
use vstd::prelude::*;
use crate::cell::raw_cells_of;
use crate::ifo::{bcd_to_u8, bcd_value, entries_of, CellPlayback, DvdTime, Pgc, PttInfo};
use crate::text::{dec, pad_left, push_dec, push_dec_zeros};

verus! {

/// Nanoseconds of the frames of a playback time, by its frame rate: 25 frames
/// per second, 30000/1001, or none. The frames are two BCD digits below the two
/// bits of the rate.
pub open spec fn frame_nanos(frame_u: u8) -> int {
    let frames = bcd_value((frame_u % 64) as u8);
    let rate = frame_u as int / 64;
    if rate == 1 {
        frames * 40_000_000
    } else if rate == 3 {
        frames * 1001 * 1_000_000_000 / 30000
    } else {
        0
    }
}

/// Nanoseconds of a playback time.
pub open spec fn time_nanos(t: DvdTime) -> int {
    (bcd_value(t.hour) * 3600 + bcd_value(t.minute) * 60 + bcd_value(t.second)) * 1_000_000_000
        + frame_nanos(t.frame_u)
}

/// Converts a playback time to nanoseconds.
pub fn dvd_time_to_nanos(t: &DvdTime) -> (n: u64)
    ensures
        n == time_nanos(*t),
        n <= 700_000_000_000_000,
{
    let h: u64 = bcd_to_u8(t.hour) as u64;
    let m: u64 = bcd_to_u8(t.minute) as u64;
    let s: u64 = bcd_to_u8(t.second) as u64;
    let frames: u64 = bcd_to_u8(t.frame_u % 64) as u64;
    let rate: u8 = t.frame_u / 64;
    let nanos: u64 = if rate == 1 {
        frames * 40_000_000
    } else if rate == 3 {
        frames * 1001 * 1_000_000_000 / 30000
    } else {
        0
    };
    (h * 3600 + m * 60 + s) * 1_000_000_000 + nanos
}

/// Nanoseconds of the first `n` cells.
pub open spec fn cells_nanos(cells: Seq<CellPlayback>, n: int) -> int
    decreases n,
{
    if n <= 0 {
        0
    } else {
        cells_nanos(cells, n - 1) + time_nanos(cells[n - 1].playback_time)
    }
}

/// The end of each cell, in nanoseconds from the start of the program chain.
pub fn cumulative_cell_end_nanos(pgc: &Pgc) -> (ends: Vec<u64>)
    ensures
        ends@.len() == raw_cells_of(*pgc).len(),
        forall|i: int|
            0 <= i < ends@.len() ==> #[trigger] ends@[i] == cells_nanos(raw_cells_of(*pgc), i + 1),
{
    let mut ends: Vec<u64> = Vec::new();
    if let Some(v) = &pgc.cell_playback {
        let ghost cells = raw_cells_of(*pgc);
        let mut acc: u64 = 0;
        let mut i: usize = 0;
        while i < v.len() && i < pgc.nr_of_cells as usize
            invariant
                i <= v.len(),
                i <= pgc.nr_of_cells,
                pgc.cell_playback == Some(*v),
                cells == raw_cells_of(*pgc),
                ends.len() == i,
                acc == cells_nanos(cells, i as int),
                acc <= i * 700_000_000_000_000,
                forall|j: int| 0 <= j < i ==> #[trigger] ends@[j] == cells_nanos(cells, j + 1),
            decreases v.len() - i,
        {
            let t = v[i].playback_time;
            assert(cells[i as int] == v[i as int]);
            acc = acc + dvd_time_to_nanos(&t);
            ends.push(acc);
            i = i + 1;
        }
    }
    ends
}

/// The cell, from 1, with which program `pgn`, from 1, starts.
pub open spec fn start_cell_of(pgc: Pgc, pgn: u16) -> Option<u8> {
    let map = entries_of(pgc.program_map, pgc.nr_of_programs as nat);
    if 1 <= pgn <= map.len() {
        Some(map[pgn - 1])
    } else {
        None
    }
}

/// The cell with which a program starts; `None` where there is no such
/// program.
pub fn program_start_cell(pgc: &Pgc, pgn: u16) -> (r: Option<u8>)
    ensures
        r == start_cell_of(*pgc, pgn),
{
    if pgn == 0 || pgn > pgc.nr_of_programs as u16 {
        return None;
    }
    match &pgc.program_map {
        Some(map) => {
            let i: usize = pgn as usize - 1;
            if i < map.len() {
                Some(map[i])
            } else {
                None
            }
        },
        None => None,
    }
}

/// When a chapter starts: once the cells before its program's first cell have
/// been played. A chapter without a program, or whose cell lies past the end,
/// starts at 0.
pub open spec fn chapter_start(pgc: Pgc, chapter: PttInfo) -> int {
    let cells = raw_cells_of(pgc);
    match start_cell_of(pgc, chapter.pgn) {
        Some(cell) if 1 <= cell <= cells.len() + 1 => cells_nanos(cells, cell - 1),
        _ => 0,
    }
}

/// The start of each chapter in nanoseconds.
pub fn chapter_start_nanos(pgc: &Pgc, chapters: &[PttInfo]) -> (starts: Vec<u64>)
    ensures
        starts@.len() == chapters@.len(),
        forall|i: int|
            0 <= i < starts@.len() ==> #[trigger] starts@[i] == chapter_start(*pgc, chapters@[i]),
{
    let ends = cumulative_cell_end_nanos(pgc);
    let mut starts: Vec<u64> = Vec::new();
    let mut i: usize = 0;
    while i < chapters.len()
        invariant
            i <= chapters.len(),
            starts.len() == i,
            ends@.len() == raw_cells_of(*pgc).len(),
            forall|j: int|
                0 <= j < ends@.len() ==> #[trigger] ends@[j] == cells_nanos(
                    raw_cells_of(*pgc),
                    j + 1,
                ),
            forall|j: int|
                0 <= j < i ==> #[trigger] starts@[j] == chapter_start(*pgc, chapters@[j]),
        decreases chapters.len() - i,
    {
        let start: u64 = match program_start_cell(pgc, chapters[i].pgn) {
            Some(cell) if cell >= 2 && (cell as usize - 2) < ends.len() => ends[cell as usize - 2],
            _ => 0,
        };
        starts.push(start);
        i = i + 1;
    }
    starts
}

/// Total time of a program chain.
pub open spec fn total_nanos(pgc: Pgc) -> int {
    cells_nanos(raw_cells_of(pgc), raw_cells_of(pgc).len() as int)
}

proof fn lemma_nanos_grow(cells: Seq<CellPlayback>, i: int, j: int)
    requires
        0 <= i <= j <= cells.len(),
    ensures
        0 <= cells_nanos(cells, i) <= cells_nanos(cells, j),
    decreases j,
{
    if i < j {
        lemma_nanos_grow(cells, i, j - 1);
    } else if i > 0 {
        lemma_nanos_grow(cells, i - 1, i - 1);
    }
}

/// Every chapter starts within the program chain, and of two chapters the one
/// whose program starts with the later cell does not start earlier.
pub proof fn lemma_chapters_in_order(pgc: Pgc, a: PttInfo, b: PttInfo)
    requires
        start_cell_of(pgc, a.pgn) matches Some(m) && start_cell_of(pgc, b.pgn) matches Some(n)
            && 1 <= m <= n <= raw_cells_of(pgc).len() + 1,
    ensures
        0 <= chapter_start(pgc, a) <= chapter_start(pgc, b) <= total_nanos(pgc),
{
    let cells = raw_cells_of(pgc);
    let m = start_cell_of(pgc, a.pgn)->0;
    let n = start_cell_of(pgc, b.pgn)->0;
    lemma_nanos_grow(cells, m - 1, n - 1);
    lemma_nanos_grow(cells, n - 1, cells.len() as int);
}

/// A chapter whose program starts with the first cell starts at 0.
pub proof fn lemma_first_cell_starts_at_zero(pgc: Pgc, chapter: PttInfo)
    requires
        start_cell_of(pgc, chapter.pgn) == Some(1u8),
    ensures
        chapter_start(pgc, chapter) == 0,
{
}

/// `HH:MM:SS.NNNNNNNNN`.
pub open spec fn timecode_text(nanos: u64) -> Seq<char> {
    let total = nanos as nat / 1_000_000_000;
    pad_left(dec(total / 3600), 2, '0') + ":"@ + pad_left(dec(total % 3600 / 60), 2, '0') + ":"@
        + pad_left(dec(total % 60), 2, '0') + "."@ + pad_left(
        dec(nanos as nat % 1_000_000_000),
        9,
        '0',
    )
}

/// Formats nanoseconds as `HH:MM:SS.NNNNNNNNN`.
pub fn format_timecode(nanos: u64) -> (s: String)
    ensures
        s@ == timecode_text(nanos),
{
    let total: u64 = nanos / 1_000_000_000;
    let mut out = String::new();
    push_dec_zeros(&mut out, total / 3600, 2);
    out.append(":");
    push_dec_zeros(&mut out, total % 3600 / 60, 2);
    out.append(":");
    push_dec_zeros(&mut out, total % 60, 2);
    out.append(".");
    push_dec_zeros(&mut out, nanos % 1_000_000_000, 9);
    assert(out@ =~= timecode_text(nanos));
    out
}

/// A round of mixing: fold the high bits in, then multiply.
pub open spec fn mix(z: u64, shift: u64, factor: u64) -> u64 {
    (z ^ (z >> shift)).wrapping_mul(factor)
}

/// The splitmix64 hash of a seed.
pub open spec fn uid_of(seed: u64) -> u64 {
    let a = seed.wrapping_add(0x9E37_79B9_7F4A_7C15);
    let b = mix(a, 30, 0xBF58_476D_1CE4_E5B9);
    let c = mix(b, 27, 0x94D0_49BB_1331_11EB);
    c ^ (c >> 31)
}

/// Deterministic 64-bit identifier of a seed.
pub fn stable_uid(seed: u64) -> (uid: u64)
    ensures
        uid == uid_of(seed),
{
    let a: u64 = seed.wrapping_add(0x9E37_79B9_7F4A_7C15);
    let b: u64 = (a ^ (a >> 30)).wrapping_mul(0xBF58_476D_1CE4_E5B9);
    let c: u64 = (b ^ (b >> 27)).wrapping_mul(0x94D0_49BB_1331_11EB);
    c ^ (c >> 31)
}

/// Multiplying by an odd factor within 64 bits can be undone: `inverse` is the
/// number with `factor * inverse == 1 + carry * 2^64`.
proof fn lemma_factor_injective(a: u64, b: u64, factor: u64, inverse: u64, carry: int)
    requires
        factor * inverse == 1 + carry * 0x1_0000_0000_0000_0000,
        a.wrapping_mul(factor) == b.wrapping_mul(factor),
    ensures
        a == b,
{
    lemma_factor_undone(a, factor, inverse, carry);
    lemma_factor_undone(b, factor, inverse, carry);
}

pub proof fn lemma_factor_undone(a: u64, factor: u64, inverse: u64, carry: int)
    requires
        factor * inverse == 1 + carry * 0x1_0000_0000_0000_0000,
    ensures
        (a.wrapping_mul(factor) * inverse) % 0x1_0000_0000_0000_0000 == a,
{
    let m = 0x1_0000_0000_0000_0000int;
    let product = a as int * factor as int;
    let low = a.wrapping_mul(factor) as int;
    assert(low == product % m);
    vstd::arithmetic::div_mod::lemma_fundamental_div_mod(product, m);
    let q = product / m;
    assert(low * inverse as int == a as int + m * (a as int * carry - q * inverse as int))
        by (nonlinear_arith)
        requires
            product == m * q + low,
            product == a as int * factor as int,
            factor as int * inverse as int == 1 + carry * m,
    ;
    vstd::arithmetic::div_mod::lemma_mod_multiples_vanish(
        a as int * carry - q * inverse as int,
        a as int,
        m,
    );
    vstd::arithmetic::div_mod::lemma_small_mod(a as nat, m as nat);
}

/// Different seeds have different identifiers.
pub proof fn lemma_uid_injective(a: u64, b: u64)
    requires
        uid_of(a) == uid_of(b),
    ensures
        a == b,
{
    let a0 = a.wrapping_add(0x9E37_79B9_7F4A_7C15);
    let b0 = b.wrapping_add(0x9E37_79B9_7F4A_7C15);
    let a1 = a0 ^ (a0 >> 30);
    let b1 = b0 ^ (b0 >> 30);
    let a2 = mix(a0, 30, 0xBF58_476D_1CE4_E5B9);
    let b2 = mix(b0, 30, 0xBF58_476D_1CE4_E5B9);
    let a3 = a2 ^ (a2 >> 27);
    let b3 = b2 ^ (b2 >> 27);
    let a4 = mix(a2, 27, 0x94D0_49BB_1331_11EB);
    let b4 = mix(b2, 27, 0x94D0_49BB_1331_11EB);
    assert(a4 == b4) by (bit_vector)
        requires
            a4 ^ (a4 >> 31) == b4 ^ (b4 >> 31),
    ;
    assert(0x94D0_49BB_1331_11EBu64 * 0x3196_42B2_D24D_8EC3u64 == 1 + 2077064247507883091int
        * 0x1_0000_0000_0000_0000);
    lemma_factor_injective(
        a3,
        b3,
        0x94D0_49BB_1331_11EB,
        0x3196_42B2_D24D_8EC3,
        2077064247507883091,
    );
    assert(a2 == b2) by (bit_vector)
        requires
            a2 ^ (a2 >> 27) == b2 ^ (b2 >> 27),
    ;
    assert(0xBF58_476D_1CE4_E5B9u64 * 0x96DE_1B17_3F11_9089u64 == 1 + 8125545580553827436int
        * 0x1_0000_0000_0000_0000);
    lemma_factor_injective(
        a1,
        b1,
        0xBF58_476D_1CE4_E5B9,
        0x96DE_1B17_3F11_9089,
        8125545580553827436,
    );
    assert(a0 == b0) by (bit_vector)
        requires
            a0 ^ (a0 >> 30) == b0 ^ (b0 >> 30),
    ;
}

/// Seed of the identifier of chapter `k`, from 1, of a title; of the title's
/// edition where `k` is 0.
pub open spec fn uid_seed(title_number: u32, k: int) -> u64 {
    (title_number * 0x1_0000 + k) as u64
}

/// The identifiers of a title's edition and of its chapters are all different,
/// and different from those of every other title.
pub proof fn lemma_uids_distinct(t: u32, k: int, u: u32, l: int)
    requires
        0 <= k < 0x1_0000,
        0 <= l < 0x1_0000,
        uid_of(uid_seed(t, k)) == uid_of(uid_seed(u, l)),
    ensures
        t == u,
        k == l,
{
    lemma_uid_injective(uid_seed(t, k), uid_seed(u, l));
}

/// `text` with the element of chapter `i`, from 0, behind it.
pub open spec fn with_chapter(
    text: Seq<char>,
    i: int,
    start: u64,
    end: u64,
    title_number: u32,
    language: Seq<char>,
) -> Seq<char> {
    text + "    <ChapterAtom>\n"@ + "      <ChapterUID>"@ + dec(
        uid_of(uid_seed(title_number, i + 1)) as nat,
    ) + "</ChapterUID>\n"@ + "      <ChapterTimeStart>"@ + timecode_text(start)
        + "</ChapterTimeStart>\n"@ + "      <ChapterFlagHidden>0</ChapterFlagHidden>\n"@
        + "      <ChapterFlagEnabled>1</ChapterFlagEnabled>\n"@ + "      <ChapterTimeEnd>"@
        + timecode_text(end) + "</ChapterTimeEnd>\n"@ + "      <ChapterDisplay>\n"@
        + "        <ChapterString>Chapter "@ + pad_left(dec((i + 1) as nat), 2, '0')
        + "</ChapterString>\n"@ + "        <ChapterLanguage>"@ + language
        + "</ChapterLanguage>\n"@ + "      </ChapterDisplay>\n"@ + "    </ChapterAtom>\n"@
}

/// When chapter `i` ends: when the next one starts, or with the program chain.
pub open spec fn chapter_end(pgc: Pgc, chapters: Seq<PttInfo>, i: int) -> int {
    if i + 1 < chapters.len() {
        chapter_start(pgc, chapters[i + 1])
    } else {
        total_nanos(pgc)
    }
}

/// `text` with the elements of the first `n` chapters behind it.
pub open spec fn with_chapters(
    text: Seq<char>,
    pgc: Pgc,
    chapters: Seq<PttInfo>,
    title_number: u32,
    language: Seq<char>,
    n: int,
) -> Seq<char>
    decreases n,
{
    if n <= 0 {
        text
    } else {
        with_chapter(
            with_chapters(text, pgc, chapters, title_number, language, n - 1),
            n - 1,
            chapter_start(pgc, chapters[n - 1]) as u64,
            chapter_end(pgc, chapters, n - 1) as u64,
            title_number,
            language,
        )
    }
}

/// `text` with the lines before the first chapter behind it, led by a byte
/// order mark.
pub open spec fn with_xml_preamble(text: Seq<char>, title_number: u32) -> Seq<char> {
    text + "\u{FEFF}"@ + "<?xml version=\"1.0\"?>\n"@
        + "<!-- <!DOCTYPE Chapters SYSTEM \"matroskachapters.dtd\"> -->\n"@ + "<Chapters>\n"@
        + "  <EditionEntry>\n"@ + "    <EditionFlagHidden>0</EditionFlagHidden>\n"@
        + "    <EditionFlagDefault>1</EditionFlagDefault>\n"@ + "    <EditionUID>"@ + dec(
        uid_of(uid_seed(title_number, 0)) as nat,
    ) + "</EditionUID>\n"@
}

/// `text` with the chapter XML of a title behind it.
pub open spec fn with_xml(
    text: Seq<char>,
    pgc: Pgc,
    chapters: Seq<PttInfo>,
    title_number: u32,
    language: Seq<char>,
) -> Seq<char> {
    with_chapters(
        with_xml_preamble(text, title_number),
        pgc,
        chapters,
        title_number,
        language,
        chapters.len() as int,
    ) + "  </EditionEntry>\n"@ + "</Chapters>\n"@
}

fn push_chapter(
    w: &mut String,
    i: usize,
    start: u64,
    end: u64,
    title_number: u32,
    language: &str,
)
    requires
        title_number * 0x1_0000 + i + 1 <= u64::MAX,
        i < usize::MAX,
    ensures
        final(w)@ == with_chapter(old(w)@, i as int, start, end, title_number, language@),
{
    w.append("    <ChapterAtom>\n");
    w.append("      <ChapterUID>");
    push_dec(w, stable_uid(title_number as u64 * 0x1_0000 + i as u64 + 1));
    w.append("</ChapterUID>\n");
    w.append("      <ChapterTimeStart>");
    w.append(format_timecode(start).as_str());
    w.append("</ChapterTimeStart>\n");
    w.append("      <ChapterFlagHidden>0</ChapterFlagHidden>\n");
    w.append("      <ChapterFlagEnabled>1</ChapterFlagEnabled>\n");
    w.append("      <ChapterTimeEnd>");
    w.append(format_timecode(end).as_str());
    w.append("</ChapterTimeEnd>\n");
    w.append("      <ChapterDisplay>\n");
    w.append("        <ChapterString>Chapter ");
    push_dec_zeros(w, i as u64 + 1, 2);
    w.append("</ChapterString>\n");
    w.append("        <ChapterLanguage>");
    w.append(language);
    w.append("</ChapterLanguage>\n");
    w.append("      </ChapterDisplay>\n");
    w.append("    </ChapterAtom>\n");
}

/// Appends the chapter XML of a title. `title_number` seeds the identifiers,
/// so that two runs give the same text.
pub fn write_chapters_xml(
    w: &mut String,
    pgc: &Pgc,
    chapters: &[PttInfo],
    title_number: u32,
    language: &str,
)
    requires
        title_number * 0x1_0000 + chapters.len() <= u64::MAX,
    ensures
        final(w)@ == with_xml(old(w)@, *pgc, chapters@, title_number, language@),
{
    let starts = chapter_start_nanos(pgc, chapters);
    let ends = cumulative_cell_end_nanos(pgc);
    let total: u64 = if ends.len() > 0 {
        ends[ends.len() - 1]
    } else {
        0
    };
    assert(total == total_nanos(*pgc));
    w.append("\u{FEFF}");
    w.append("<?xml version=\"1.0\"?>\n");
    w.append("<!-- <!DOCTYPE Chapters SYSTEM \"matroskachapters.dtd\"> -->\n");
    w.append("<Chapters>\n");
    w.append("  <EditionEntry>\n");
    w.append("    <EditionFlagHidden>0</EditionFlagHidden>\n");
    w.append("    <EditionFlagDefault>1</EditionFlagDefault>\n");
    w.append("    <EditionUID>");
    push_dec(w, stable_uid(title_number as u64 * 0x1_0000));
    w.append("</EditionUID>\n");
    let ghost head = w@;
    let mut i: usize = 0;
    while i < starts.len()
        invariant
            i <= starts.len(),
            starts@.len() == chapters@.len(),
            title_number * 0x1_0000 + chapters.len() <= u64::MAX,
            total == total_nanos(*pgc),
            forall|j: int|
                0 <= j < starts@.len() ==> #[trigger] starts@[j] == chapter_start(
                    *pgc,
                    chapters@[j],
                ),
            w@ == with_chapters(head, *pgc, chapters@, title_number, language@, i as int),
        decreases starts.len() - i,
    {
        let start: u64 = starts[i];
        let end: u64 = if i + 1 < starts.len() {
            starts[i + 1]
        } else {
            total
        };
        assert(end == chapter_end(*pgc, chapters@, i as int));
        push_chapter(w, i, start, end, title_number, language);
        i = i + 1;
    }
    w.append("  </EditionEntry>\n");
    w.append("</Chapters>\n");
}

} // verus!
