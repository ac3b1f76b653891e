//! CSS-protection probe.
//!
//! The caller asks the disc libraries and reads samples; this module decides
//! which answer counts. A block device answers for itself. In an image or a
//! directory, a title VOB that does not start with a pack header is taken for
//! scrambled.
use vstd::prelude::*;
use crate::error::DvdError;
use crate::reader::is_valid_path;
use crate::text::{
    all_digits, dec, is_digit, is_text_before, lemma_text_before_irreflexive,
    lemma_text_before_trans, number_of, parse_usize, push_dec, text_before,
};

verus! {

/// Which mechanism gave the verdict.
#[derive(Debug, Clone, Copy, PartialEq, Eq, Structural)]
pub enum ProbeMethod {
    /// A block device, asked by libdvdcss.
    LibdvdcssIoctl,
    /// The first sector of a title VOB within an image.
    IsoUdfSector,
    /// The first bytes of a title VOB file.
    VobFile,
    /// No sample could be had.
    Inconclusive,
}

/// The verdict on a path.
#[derive(Debug, Clone)]
pub struct CssProbe {
    /// Whether the disc is scrambled; without meaning where the probe was
    /// inconclusive.
    pub is_scrambled: bool,
    pub method: ProbeMethod,
    /// The last error of libdvdcss, if it reported one.
    pub last_error: Option<String>,
    /// Where the sample was taken.
    pub probed_location: Option<String>,
    /// The sample; zeros where none was taken.
    pub first_bytes: [u8; 4],
    pub path: String,
}

/// What kind of thing a path is.
#[derive(Debug, Clone, Copy, PartialEq, Eq, Structural)]
pub enum PathKind {
    BlockDevice,
    IsoFile,
    Directory,
    Other,
}

/// What the file system says about a path that exists.
#[derive(Debug, Clone, Copy, PartialEq, Eq, Structural)]
pub struct FileFacts {
    pub is_device: bool,
    pub is_dir: bool,
    pub is_file: bool,
}

/// The kind of a path; a path that does not exist is of no kind.
pub open spec fn path_kind_of(facts: Option<FileFacts>) -> PathKind {
    match facts {
        None => PathKind::Other,
        Some(f) => if f.is_device {
            PathKind::BlockDevice
        } else if f.is_dir {
            PathKind::Directory
        } else if f.is_file {
            PathKind::IsoFile
        } else {
            PathKind::Other
        },
    }
}

/// The kind of a path.
pub fn classify_path(facts: Option<FileFacts>) -> (k: PathKind)
    ensures
        k == path_kind_of(facts),
{
    match facts {
        None => PathKind::Other,
        Some(f) => {
            if f.is_device {
                PathKind::BlockDevice
            } else if f.is_dir {
                PathKind::Directory
            } else if f.is_file {
                PathKind::IsoFile
            } else {
                PathKind::Other
            }
        },
    }
}

/// What libdvdcss said about a path it could open.
#[derive(Debug)]
pub struct CssAnswer {
    pub scrambled: bool,
    /// Its error text, if it had one.
    pub error: Option<String>,
}

/// An error text that reports an error.
pub open spec fn is_real_error(text: Seq<char>) -> bool {
    text.len() > 0 && text != "no error"@
}

/// `last` is the error of an answer; an empty text and `no error` are none.
pub open spec fn is_last_error(raw: Option<String>, last: Option<String>) -> bool {
    match raw {
        Some(s) if is_real_error(s@) => last == Some(s),
        _ => last is None,
    }
}

fn last_error(raw: Option<String>) -> (last: Option<String>)
    ensures
        is_last_error(raw, last),
{
    match raw {
        Some(s) => {
            if s.as_str().unicode_len() == 0 || s == "no error".to_owned() {
                None
            } else {
                Some(s)
            }
        },
        None => None,
    }
}

/// The bytes of a cleartext VOB sector begin with a pack header.
pub open spec fn is_pack_start(b: Seq<u8>) -> bool {
    b.len() == 4 && b[0] == 0 && b[1] == 0 && b[2] == 1 && b[3] == 0xBA
}

fn is_pack(b: &[u8; 4]) -> (r: bool)
    ensures
        r == is_pack_start(b@),
{
    b[0] == 0 && b[1] == 0 && b[2] == 1 && b[3] == 0xBA
}

/// A probe without a sample, which assumes the worst.
pub open spec fn is_inconclusive(p: CssProbe) -> bool {
    &&& p.is_scrambled
    &&& p.method is Inconclusive
    &&& p.probed_location is None
    &&& p.first_bytes@ == seq![0u8, 0u8, 0u8, 0u8]
}

/// The probe that the facts ask for. `iso` is the sector of a title VOB in an
/// image and its first bytes, `vob` a title VOB file and its first bytes.
pub open spec fn is_probe_of(
    kind: PathKind,
    css: CssAnswer,
    iso: Option<(u32, [u8; 4])>,
    vob: Option<(String, [u8; 4])>,
    path: Seq<char>,
    p: CssProbe,
) -> bool {
    match kind {
        PathKind::BlockDevice => {
            &&& p.is_scrambled == css.scrambled
            &&& p.method is LibdvdcssIoctl
            &&& p.probed_location is None
            &&& p.first_bytes@ == seq![0u8, 0u8, 0u8, 0u8]
        },
        PathKind::IsoFile => match iso {
            Some((sector, first)) if sector != 0 => {
                &&& p.is_scrambled == !is_pack_start(first@)
                &&& p.method is IsoUdfSector
                &&& p.probed_location matches Some(l) && l@ == path + "@sector="@ + dec(
                    sector as nat,
                )
                &&& p.first_bytes == first
            },
            _ => is_inconclusive(p),
        },
        PathKind::Directory => match vob {
            Some((file, first)) => {
                &&& p.is_scrambled == !is_pack_start(first@)
                &&& p.method is VobFile
                &&& p.probed_location == Some(file)
                &&& p.first_bytes == first
            },
            None => is_inconclusive(p),
        },
        PathKind::Other => is_inconclusive(p),
    }
}

fn inconclusive(path: &str, last_error: Option<String>) -> (p: CssProbe)
    ensures
        is_inconclusive(p),
        p.last_error == last_error,
        p.path@ == path@,
{
    let p = CssProbe {
        is_scrambled: true,
        method: ProbeMethod::Inconclusive,
        last_error,
        probed_location: None,
        first_bytes: [0u8, 0u8, 0u8, 0u8],
        path: path.to_owned(),
    };
    assert(p.first_bytes@ =~= seq![0u8, 0u8, 0u8, 0u8]);
    p
}

impl CssProbe {
    /// The verdict on a path, given what libdvdcss said of it, or `None` where
    /// it could not open the path, and the samples that were taken.
    pub fn open(
        path: &str,
        kind: PathKind,
        css: Option<CssAnswer>,
        iso: Option<(u32, [u8; 4])>,
        vob: Option<(String, [u8; 4])>,
    ) -> (r: Result<Self, DvdError>)
        ensures
            match r {
                Ok(p) => {
                    &&& !path@.contains('\0')
                    &&& css matches Some(answer) && is_probe_of(kind, answer, iso, vob, path@, p)
                        && is_last_error(answer.error, p.last_error)
                    &&& p.path@ == path@
                },
                Err(DvdError::InvalidPath) => path@.contains('\0'),
                Err(DvdError::OpenFailed { path: q, reason }) => {
                    &&& !path@.contains('\0')
                    &&& css is None
                    &&& q@ == path@
                    &&& reason@ == "libdvdcss dvdcss_open() returned NULL"@
                },
                Err(_) => false,
            },
    {
        if !is_valid_path(path) {
            return Err(DvdError::InvalidPath);
        }
        let answer = match css {
            Some(answer) => answer,
            None => {
                return Err(
                    DvdError::OpenFailed {
                        path: path.to_owned(),
                        reason: "libdvdcss dvdcss_open() returned NULL".to_owned(),
                    },
                );
            },
        };
        let scrambled = answer.scrambled;
        let error = last_error(answer.error);
        let p = match kind {
            PathKind::BlockDevice => {
                let p = CssProbe {
                    is_scrambled: scrambled,
                    method: ProbeMethod::LibdvdcssIoctl,
                    last_error: error,
                    probed_location: None,
                    first_bytes: [0u8, 0u8, 0u8, 0u8],
                    path: path.to_owned(),
                };
                assert(p.first_bytes@ =~= seq![0u8, 0u8, 0u8, 0u8]);
                p
            },
            PathKind::IsoFile => match iso {
                Some((sector, first_bytes)) if sector != 0 => {
                    let mut location = path.to_owned();
                    location.append("@sector=");
                    push_dec(&mut location, sector as u64);
                    CssProbe {
                        is_scrambled: !is_pack(&first_bytes),
                        method: ProbeMethod::IsoUdfSector,
                        last_error: error,
                        probed_location: Some(location),
                        first_bytes,
                        path: path.to_owned(),
                    }
                },
                _ => inconclusive(path, error),
            },
            PathKind::Directory => match vob {
                Some((file, first_bytes)) => CssProbe {
                    is_scrambled: !is_pack(&first_bytes),
                    method: ProbeMethod::VobFile,
                    last_error: error,
                    probed_location: Some(file),
                    first_bytes,
                    path: path.to_owned(),
                },
                None => inconclusive(path, error),
            },
            PathKind::Other => inconclusive(path, error),
        };
        Ok(p)
    }
}

/// Paths within an image under which its first title VOB is looked for, in
/// this order.
pub fn vob_candidates() -> (v: [&'static str; 4])
    ensures
        v@[0]@ == "/VIDEO_TS/VTS_01_1.VOB"@,
        v@[1]@ == "/VIDEO_TS/VTS_02_1.VOB"@,
        v@[2]@ == "/VIDEO_TS/VTS_03_1.VOB"@,
        v@[3]@ == "/VIDEO_TS/VTS_04_1.VOB"@,
{
    [
        "/VIDEO_TS/VTS_01_1.VOB",
        "/VIDEO_TS/VTS_02_1.VOB",
        "/VIDEO_TS/VTS_03_1.VOB",
        "/VIDEO_TS/VTS_04_1.VOB",
    ]
}

/// A file that is there and fills at least one sector.
pub open spec fn usable_vob(hit: (u32, u32)) -> bool {
    hit.0 != 0 && hit.1 >= 2048
}

/// The start sector of the first file that is there and fills at least one
/// sector, given the start sector and the size of each candidate.
pub fn first_vob_sector(hits: &[(u32, u32)]) -> (r: Option<u32>)
    ensures
        match r {
            Some(s) => exists|i: int|
                0 <= i < hits@.len() && #[trigger] hits@[i].0 == s && usable_vob(hits@[i])
                    && forall|j: int| 0 <= j < i ==> !usable_vob(#[trigger] hits@[j]),
            None => forall|i: int| 0 <= i < hits@.len() ==> !usable_vob(#[trigger] hits@[i]),
        },
{
    let mut i: usize = 0;
    while i < hits.len()
        invariant
            i <= hits.len(),
            forall|j: int| 0 <= j < i ==> !usable_vob(#[trigger] hits@[j]),
        decreases hits.len() - i,
    {
        let (lba, size) = hits[i];
        if lba != 0 && size >= 2048 {
            assert(hits@[i as int].0 == lba);
            return Some(lba);
        }
        i = i + 1;
    }
    None
}

/// Length of `s` up to its first underscore, or to its end.
pub open spec fn to_underscore(s: Seq<char>) -> nat
    decreases s.len(),
{
    if s.len() == 0 || s[0] == '_' {
        0
    } else {
        1 + to_underscore(s.skip(1))
    }
}

/// A name of the form `VTS_<NN>_<M>.VOB` with `M` from 1 to 255. `M` 0 is the
/// menu.
pub open spec fn is_title_vob(name: Seq<char>) -> bool {
    let stem = name.subrange(4, name.len() - 4);
    let k = to_underscore(stem) as int;
    &&& name.len() >= 8
    &&& name.take(4) == "VTS_"@
    &&& name.skip(name.len() - 4) == ".VOB"@
    &&& k < stem.len()
    &&& all_digits(stem.take(k))
    &&& number_of(stem.skip(k + 1)) matches Some(m) && 1 <= m <= 255
}

proof fn lemma_to_underscore(s: Seq<char>, n: int)
    requires
        0 <= n <= s.len(),
        forall|i: int| 0 <= i < n ==> #[trigger] s[i] != '_',
        n < s.len() ==> s[n] == '_',
    ensures
        to_underscore(s) == n,
    decreases n,
{
    if n > 0 {
        let t = s.skip(1);
        assert forall|i: int| 0 <= i < n - 1 implies #[trigger] t[i] != '_' by {
            assert(t[i] == s[i + 1]);
        }
        lemma_to_underscore(t, n - 1);
    }
}

/// Whether a file name is that of a title VOB.
pub fn is_title_vob_filename(name: &str) -> (b: bool)
    ensures
        b == is_title_vob(name@),
{
    let n: usize = name.unicode_len();
    if n < 8 {
        return false;
    }
    proof {
        reveal_strlit("VTS_");
        reveal_strlit(".VOB");
    }
    let prefix_ok = name.get_char(0) == 'V' && name.get_char(1) == 'T' && name.get_char(2) == 'S'
        && name.get_char(3) == '_';
    let suffix_ok = name.get_char(n - 4) == '.' && name.get_char(n - 3) == 'V' && name.get_char(
        n - 2,
    ) == 'O' && name.get_char(n - 1) == 'B';
    proof {
        let head = name@.take(4);
        let tail = name@.skip(n - 4);
        assert(head[0] == name@[0] && head[1] == name@[1] && head[2] == name@[2] && head[3]
            == name@[3]);
        assert(tail[0] == name@[n - 4] && tail[1] == name@[n - 3] && tail[2] == name@[n - 2]
            && tail[3] == name@[n - 1]);
        if prefix_ok {
            assert(head =~= "VTS_"@);
        }
        if suffix_ok {
            assert(tail =~= ".VOB"@);
        }
    }
    if !prefix_ok || !suffix_ok {
        return false;
    }
    let end: usize = n - 4;
    let ghost stem = name@.subrange(4, n - 4);
    let mut k: usize = 4;
    let mut digits = true;
    while k < end && name.get_char(k) != '_'
        invariant
            4 <= k <= end,
            end == n - 4,
            n == name@.len(),
            stem == name@.subrange(4, n - 4),
            forall|i: int| 0 <= i < k - 4 ==> #[trigger] stem[i] != '_',
            digits == forall|i: int| 0 <= i < k - 4 ==> is_digit(#[trigger] stem[i]),
        decreases end - k,
    {
        let c: char = name.get_char(k);
        assert(c == stem[k - 4]);
        if !('0' <= c && c <= '9') {
            digits = false;
        }
        k = k + 1;
    }
    proof {
        if k < end {
            assert(stem[k - 4] == name@[k as int]);
        }
        lemma_to_underscore(stem, k - 4);
    }
    if k == end {
        return false;
    }
    let ghost field = stem.take(k - 4);
    proof {
        assert(digits == forall|i: int| 0 <= i < field.len() ==> is_digit(#[trigger] field[i])) by {
            assert forall|i: int| 0 <= i < field.len() implies #[trigger] field[i] == stem[i] by {}
            if digits {
                assert forall|i: int| 0 <= i < field.len() implies is_digit(
                    #[trigger] field[i],
                ) by {
                    assert(is_digit(stem[i]));
                }
            } else {
                let i = choose|i: int| 0 <= i < k - 4 && !is_digit(#[trigger] stem[i]);
                assert(!is_digit(field[i]));
            }
        }
    }
    if k == 4 || !digits {
        return false;
    }
    let m = name.substring_char(k + 1, end);
    assert(m@ =~= stem.skip(k - 4 + 1));
    match parse_usize(m) {
        Some(v) => 1 <= v && v <= 255,
        None => false,
    }
}

/// Names in the order of their characters.
pub open spec fn names_sorted(v: Seq<String>) -> bool {
    forall|i: int, j: int|
        0 <= i < j < v.len() ==> !text_before((#[trigger] v[j])@, (#[trigger] v[i])@)
}

fn insert_sorted(v: &mut Vec<String>, name: String)
    requires
        names_sorted(old(v)@),
    ensures
        names_sorted(final(v)@),
        final(v)@.to_multiset() == old(v)@.to_multiset().insert(name),
{
    broadcast use vstd::seq_lib::group_to_multiset_ensures;

    let mut p: usize = 0;
    while p < v.len() && !is_text_before(name.as_str(), v[p].as_str())
        invariant
            p <= v.len(),
            v@ == old(v)@,
            forall|i: int| 0 <= i < p ==> !text_before(name@, (#[trigger] v@[i])@),
        decreases v.len() - p,
    {
        p = p + 1;
    }
    let ghost before = v@;
    let ghost x = name;
    v.insert(p, name);
    proof {
        let after = v@;
        assert forall|i: int, j: int| 0 <= i < j < after.len() implies !text_before(
            (#[trigger] after[j])@,
            (#[trigger] after[i])@,
        ) by {
            let bi = if i < p {
                i
            } else {
                i - 1
            };
            let bj = if j < p {
                j
            } else {
                j - 1
            };
            if i != p {
                assert(after[i] == before[bi]);
            }
            if j != p {
                assert(after[j] == before[bj]);
            }
            if i == p && text_before(after[j]@, x@) {
                lemma_text_before_trans(after[j]@, x@, before[p as int]@);
                if bj == p {
                    lemma_text_before_irreflexive(before[p as int]@);
                } else {
                    assert(!text_before(before[bj]@, before[p as int]@));
                }
            }
            if i != p && j != p {
                assert(!text_before(before[bj]@, before[bi]@));
            }
        }
        vstd::seq_lib::to_multiset_insert(before, p as int, x);
    }
}

/// The title VOBs among the names of a directory, in the order in which they
/// are to be tried.
pub fn title_vobs(names: &Vec<String>) -> (r: Vec<String>)
    ensures
        names_sorted(r@),
        r@.to_multiset() == names@.filter(|s: String| is_title_vob(s@)).to_multiset(),
{
    broadcast use vstd::seq_lib::group_to_multiset_ensures;

    let ghost pred = |s: String| is_title_vob(s@);
    let mut r: Vec<String> = Vec::new();
    let mut i: usize = 0;
    assert(r@ =~= names@.take(0).filter(pred)) by {
        reveal(Seq::filter);
    }
    while i < names.len()
        invariant
            i <= names.len(),
            pred == |s: String| is_title_vob(s@),
            names_sorted(r@),
            r@.to_multiset() == names@.take(i as int).filter(pred).to_multiset(),
        decreases names.len() - i,
    {
        proof {
            broadcast use vstd::seq_lib::group_to_multiset_ensures;

            reveal(Seq::filter);
            assert(names@.take(i + 1).drop_last() =~= names@.take(i as int));
        }
        if is_title_vob_filename(names[i].as_str()) {
            insert_sorted(&mut r, names[i].clone());
        }
        i = i + 1;
    }
    assert(names@.take(i as int) =~= names@);
    r
}

} // verus!
