//! Laws of paths, probes and block reads.
use vstd::prelude::*;
use crate::css::{
    is_last_error, is_probe_of, is_title_vob, names_sorted, path_kind_of, to_underscore, usable_vob,
    CssAnswer, CssProbe, FileFacts, PathKind, ProbeMethod,
};
use crate::detect::{disc_type_of, DiscType, PathFacts};
use crate::file::{blocks_of_size, read_end, MAX_PLAUSIBLE_BLOCKS};
use crate::laws::text::lemma_first_difference_decides;
use crate::text::{
    all_digits, dec, digits_value, is_digit, number_of, same_ignoring_case, text_before, unsigned,
};

verus! {

/// A directory with the IFO of a DVD is a DVD, whatever else is in it; one with
/// a Blu-ray folder only is a Blu-ray.
pub proof fn lemma_directories_are_told_by_contents(facts: PathFacts)
    requires
        facts.is_dir,
        !facts.is_file,
        !facts.is_device,
    ensures
        facts.vmg_in_subdir || facts.vmg_at_root ==> disc_type_of(facts) == Some(DiscType::Dvd),
        !(facts.vmg_in_subdir || facts.vmg_at_root) && facts.has_bdmv ==> disc_type_of(facts)
            == Some(DiscType::Bluray),
        !(facts.vmg_in_subdir || facts.vmg_at_root || facts.has_bdmv) ==> disc_type_of(
            facts,
        ) is None,
{
}

/// A file is a DVD where its extension is that of an image, in any case; a
/// device always is.
pub proof fn lemma_files_are_told_by_extension(facts: PathFacts)
    requires
        !facts.is_dir,
    ensures
        facts.is_device ==> disc_type_of(facts) == Some(DiscType::Dvd),
        facts.is_file && !facts.is_device ==> (disc_type_of(facts) == Some(DiscType::Dvd)
            <==> (facts.extension matches Some(e) && (same_ignoring_case(e@, seq!['i', 's', 'o'])
            || same_ignoring_case(e@, seq!['i', 'm', 'g'])))),
        disc_type_of(facts) is None || disc_type_of(facts) == Some(DiscType::Dvd),
        !facts.is_file && !facts.is_device ==> disc_type_of(facts) is None,
{
    reveal_strlit("iso");
    reveal_strlit("img");
    assert("iso"@ =~= seq!['i', 's', 'o']);
    assert("img"@ =~= seq!['i', 'm', 'g']);
}

/// A device is probed as one, even where it could be something else; then a
/// directory, then a file.
pub proof fn lemma_probe_goes_by_path(f: FileFacts)
    ensures
        path_kind_of(None) == PathKind::Other,
        f.is_device <==> path_kind_of(Some(f)) == PathKind::BlockDevice,
        !f.is_device && f.is_dir <==> path_kind_of(Some(f)) == PathKind::Directory,
        !f.is_device && !f.is_dir && f.is_file <==> path_kind_of(Some(f)) == PathKind::IsoFile,
{
}

/// A sample decides: what begins with `00 00 01 BA` is clear, anything else is
/// scrambled. A device is what libdvdcss says of it. Without a sample the
/// verdict is inconclusive and assumes the worst.
pub proof fn lemma_sample_decides(
    kind: PathKind,
    css: CssAnswer,
    iso: Option<(u32, [u8; 4])>,
    vob: Option<(String, [u8; 4])>,
    path: Seq<char>,
    p: CssProbe,
)
    requires
        is_probe_of(kind, css, iso, vob, path, p),
    ensures
        kind == PathKind::BlockDevice ==> p.is_scrambled == css.scrambled && p.method
            == ProbeMethod::LibdvdcssIoctl,
        kind == PathKind::IsoFile ==> (iso matches Some((sector, b)) ==> (sector != 0 ==> {
            &&& p.is_scrambled <==> !(b@[0] == 0 && b@[1] == 0 && b@[2] == 1 && b@[3] == 0xBA)
            &&& p.method == ProbeMethod::IsoUdfSector
            &&& p.first_bytes == b
        })),
        kind == PathKind::Directory ==> (vob matches Some((file, b)) ==> {
            &&& p.is_scrambled <==> !(b@[0] == 0 && b@[1] == 0 && b@[2] == 1 && b@[3] == 0xBA)
            &&& p.method == ProbeMethod::VobFile
            &&& p.first_bytes == b
            &&& p.probed_location == Some(file)
        }),
        kind == PathKind::Other || (kind == PathKind::IsoFile && (match iso {
            Some((sector, _)) => sector == 0,
            None => true,
        })) || (kind == PathKind::Directory && vob is None) ==> p.is_scrambled && p.method
            == ProbeMethod::Inconclusive && p.probed_location is None,
{
}

/// Only a text that says something else than that there was no error is an
/// error, and it is kept as it is.
pub proof fn lemma_errors_are_kept(raw: Option<String>, last: Option<String>)
    requires
        is_last_error(raw, last),
    ensures
        last matches Some(s) ==> raw == Some(s) && s@.len() > 0 && s@ != "no error"@,
        last is None ==> (raw matches Some(s) ==> s@.len() == 0 || s@ == "no error"@),
{
}

proof fn lemma_underscore(s: Seq<char>, n: int)
    requires
        0 <= n <= s.len(),
        forall|i: int| 0 <= i < n ==> #[trigger] s[i] != '_',
        n < s.len() ==> s[n] == '_',
    ensures
        to_underscore(s) == n,
    decreases n,
{
    if n > 0 {
        let t = s.skip(1);
        assert forall|i: int| 0 <= i < n - 1 implies #[trigger] t[i] != '_' by {
            assert(t[i] == s[i + 1]);
        }
        lemma_underscore(t, n - 1);
    }
}

/// `VTS_<digits>_<number>.VOB` is a title VOB exactly where the number is one
/// from 1 to 255: 0 is the menu.
pub proof fn lemma_title_vob_names(set: Seq<char>, number: nat)
    requires
        set.len() > 0,
        forall|i: int| 0 <= i < set.len() ==> '0' <= #[trigger] set[i] <= '9',
    ensures
        is_title_vob(
            seq!['V', 'T', 'S', '_'] + set + seq!['_'] + dec(number) + seq!['.', 'V', 'O', 'B'],
        ) <==> 1 <= number <= 255,
{
    reveal_strlit("VTS_");
    reveal_strlit(".VOB");
    let head = seq!['V', 'T', 'S', '_'];
    let tail = seq!['.', 'V', 'O', 'B'];
    let name = head + set + seq!['_'] + dec(number) + tail;
    let stem = set + seq!['_'] + dec(number);
    let k = set.len() as int;
    crate::laws::text::lemma_decimal_reads_back(number);
    assert(name.subrange(4, name.len() - 4) =~= stem);
    assert(name.take(4) =~= "VTS_"@);
    assert(name.skip(name.len() - 4) =~= ".VOB"@);
    assert(stem[k] == '_');
    assert forall|i: int| 0 <= i < k implies #[trigger] stem[i] != '_' by {
        assert(stem[i] == set[i]);
    }
    lemma_underscore(stem, k);
    assert(stem.take(k) =~= set);
    assert(all_digits(set));
    assert(stem.skip(k + 1) =~= dec(number));
    lemma_spelled(number);
}

proof fn lemma_spelled(n: nat)
    ensures
        number_of(dec(n)) == Some(n),
{
    crate::laws::text::lemma_decimal_reads_back(n);
    crate::laws::text::lemma_digits_value_is_dec(n);
    assert(dec(n)[0] != '+');
    assert(unsigned(dec(n)) == dec(n));
}

/// A name that does not begin with `VTS_`, or does not end in `.VOB`, is no
/// title VOB.
pub proof fn lemma_other_names(name: Seq<char>)
    requires
        name.len() < 8 || name.subrange(0, 4) != seq!['V', 'T', 'S', '_'] || name.subrange(
            name.len() - 4,
            name.len() as int,
        ) != seq!['.', 'V', 'O', 'B'],
    ensures
        !is_title_vob(name),
{
    reveal_strlit("VTS_");
    reveal_strlit(".VOB");
    if name.len() >= 8 {
        assert("VTS_"@ =~= seq!['V', 'T', 'S', '_']);
        assert(".VOB"@ =~= seq!['.', 'V', 'O', 'B']);
        assert(name.take(4) =~= name.subrange(0, 4));
        assert(name.skip(name.len() - 4) =~= name.subrange(name.len() - 4, name.len() as int));
    }
}

/// A file in an image can be sampled exactly where it has a place and fills a
/// sector.
pub proof fn lemma_samples_need_a_sector(sector: u32, size: u32)
    ensures
        usable_vob((sector, size)) <==> sector > 0 && size > 2047,
{
}

/// Sizes and ends are exact as long as 32 bits hold them, and stay at the limit
/// beyond.
pub proof fn lemma_block_numbers_saturate(size: i64, offset: u32, count: u32)
    ensures
        0 <= size <= 0xFFFF_FFFF ==> blocks_of_size(size) == size,
        size > 0xFFFF_FFFF ==> blocks_of_size(size) == 0xFFFF_FFFF,
        offset + count <= 0xFFFF_FFFF ==> read_end(offset, count) == offset + count,
        offset + count > 0xFFFF_FFFF ==> read_end(offset, count) == 0xFFFF_FFFF,
        MAX_PLAUSIBLE_BLOCKS == 10_000_000,
{
}

/// The VOBs of a title are tried from the least name on: of two names, the one
/// that is smaller where they first differ, or that the other goes on from, is
/// earlier.
pub proof fn lemma_least_name_comes_first(names: Seq<String>, i: int, j: int, k: int)
    requires
        names_sorted(names),
        0 <= i < names.len(),
        0 <= j < names.len(),
        0 <= k <= names[i]@.len(),
        k < names[j]@.len(),
        forall|q: int| 0 <= q < k ==> names[i]@[q] == names[j]@[q],
        k < names[i]@.len() ==> names[i]@[k] < names[j]@[k],
    ensures
        i < j,
{
    lemma_first_difference_decides(names[i]@, names[j]@, k);
    if i > j {
        assert(!text_before(names[i]@, names[j]@));
    }
}

} // verus!
