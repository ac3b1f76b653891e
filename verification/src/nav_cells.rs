//! Lookup of cells by title, program chain and cell number.
//!
//! Playback tells which cell it is in, but not whether that cell resets the
//! clock. The table is built once from the IFO files and answers that.
use std::collections::HashMap;
use vstd::prelude::*;
use crate::cell::{cells_in_pgc, cells_of, CellInfo};
use crate::error::DvdError;
use crate::ifo::{pgcs_of, titles_of, IfoHandle, IfoKind, TitleInfo};
use crate::reader::{ifo_of, DvdReader};

verus! {

/// Address of a cell; all three numbers count from 1.
#[derive(Debug, Clone, Copy, PartialEq, Eq, Structural, Hash)]
pub struct CellKey {
    /// Title set.
    pub title_set_nr: u8,
    /// Program chain within the title set.
    pub pgcn: u16,
    /// Cell within the program chain.
    pub cell_nr: u8,
}

/// A key as one number.
pub open spec fn key_code(key: CellKey) -> u64 {
    (key.title_set_nr * 0x100_0000 + key.pgcn * 0x100 + key.cell_nr) as u64
}

impl CellKey {
    /// The key as one number, in the order of its parts.
    pub fn code(&self) -> (c: u64)
        ensures
            c == key_code(*self),
    {
        self.title_set_nr as u64 * 0x100_0000 + self.pgcn as u64 * 0x100 + self.cell_nr as u64
    }
}

/// Different keys have different codes.
pub proof fn lemma_code_injective(a: CellKey, b: CellKey)
    requires
        key_code(a) == key_code(b),
    ensures
        a == b,
{
}

/// The cell that the disc has at an address.
pub open spec fn disc_cell(reader: DvdReader, key: CellKey) -> Option<CellInfo> {
    match ifo_of(reader, IfoKind::Vts(key.title_set_nr as u32)) {
        Some(vts) => {
            let pgcs = pgcs_of(vts);
            if 1 <= key.pgcn <= pgcs.len() {
                match pgcs[key.pgcn - 1].pgc {
                    Some(pgc) => if 1 <= key.cell_nr <= cells_of(pgc).len() {
                        Some(cells_of(pgc)[key.cell_nr - 1])
                    } else {
                        None
                    },
                    None => None,
                }
            } else {
                None
            }
        },
        None => None,
    }
}

/// Some title lives in title set `vts`.
pub open spec fn vts_used(infos: Seq<TitleInfo>, vts: u8) -> bool {
    exists|i: int| 0 <= i < infos.len() && #[trigger] infos[i].title_set_nr == vts
}

/// The cell at an address, if its title set belongs to some title.
pub open spec fn listed_cell(
    reader: DvdReader,
    infos: Seq<TitleInfo>,
    key: CellKey,
) -> Option<CellInfo> {
    if key.title_set_nr > 0 && vts_used(infos, key.title_set_nr) {
        disc_cell(reader, key)
    } else {
        None
    }
}

/// What a table holds at an address.
pub open spec fn table_cell(m: Map<u64, CellInfo>, key: CellKey) -> Option<CellInfo> {
    if m.contains_key(key_code(key)) {
        Some(m[key_code(key)])
    } else {
        None
    }
}

/// The codes of all cells that belong to some title.
pub open spec fn listed_codes(reader: DvdReader, infos: Seq<TitleInfo>) -> Set<u64> {
    Set::new(
        |code: u64|
            exists|key: CellKey| #[trigger]
                key_code(key) == code && listed_cell(reader, infos, key) is Some,
    )
}

/// Every cell of the titles of a disc, and the title set of each title.
pub struct CellLookup {
    /// Title set of each title; the first is that of title 1.
    pub title_to_vts: Vec<u8>,
    /// The cells by the codes of their keys.
    pub cells: HashMap<u64, CellInfo>,
}

/// The title set of a title that counts from 1.
pub open spec fn vts_of_title(title_to_vts: Seq<u8>, title: u32) -> Option<u8> {
    if 1 <= title <= title_to_vts.len() {
        Some(title_to_vts[title - 1])
    } else {
        None
    }
}

/// The table is complete for the title sets below `vts`, and for title set
/// `vts` up to program chain `pgcn` and its first `cells` cells.
spec fn reached(key: CellKey, vts: int, pgcn: int, cells: int) -> bool {
    key.title_set_nr < vts || (key.title_set_nr == vts && (key.pgcn < pgcn || (key.pgcn == pgcn
        && key.cell_nr <= cells)))
}

#[verifier::opaque]
spec fn built_to(
    m: Map<u64, CellInfo>,
    reader: DvdReader,
    infos: Seq<TitleInfo>,
    vts: int,
    pgcn: int,
    cells: int,
) -> bool {
    &&& forall|key: CellKey| #[trigger]
        table_cell(m, key) == (if reached(key, vts, pgcn, cells) {
            listed_cell(reader, infos, key)
        } else {
            None
        })
    &&& forall|code: u64| #[trigger]
        m.contains_key(code) ==> exists|key: CellKey| #[trigger] key_code(key) == code
}

/// Stretches without cells need no work.
proof fn lemma_built_skip(
    m: Map<u64, CellInfo>,
    reader: DvdReader,
    infos: Seq<TitleInfo>,
    vts: int,
    pgcn: int,
    cells: int,
    vts2: int,
    pgcn2: int,
    cells2: int,
)
    requires
        built_to(m, reader, infos, vts, pgcn, cells),
        forall|key: CellKey| #[trigger]
            reached(key, vts, pgcn, cells) ==> reached(key, vts2, pgcn2, cells2),
        forall|key: CellKey| #[trigger]
            reached(key, vts2, pgcn2, cells2) && !reached(key, vts, pgcn, cells) ==> listed_cell(
                reader,
                infos,
                key,
            ) is None,
    ensures
        built_to(m, reader, infos, vts2, pgcn2, cells2),
{
    reveal(built_to);
    assert forall|key: CellKey| #[trigger] table_cell(m, key) == (if reached(
        key,
        vts2,
        pgcn2,
        cells2,
    ) {
        listed_cell(reader, infos, key)
    } else {
        None
    }) by {
        assert(reached(key, vts, pgcn, cells) ==> reached(key, vts2, pgcn2, cells2));
    }
}

proof fn lemma_built_insert(
    m: Map<u64, CellInfo>,
    reader: DvdReader,
    infos: Seq<TitleInfo>,
    key: CellKey,
    cell: CellInfo,
)
    requires
        built_to(
            m,
            reader,
            infos,
            key.title_set_nr as int,
            key.pgcn as int,
            key.cell_nr - 1,
        ),
        listed_cell(reader, infos, key) == Some(cell),
    ensures
        built_to(
            m.insert(key_code(key), cell),
            reader,
            infos,
            key.title_set_nr as int,
            key.pgcn as int,
            key.cell_nr as int,
        ),
{
    reveal(built_to);
    let n = m.insert(key_code(key), cell);
    assert forall|k: CellKey| #[trigger] table_cell(n, k) == (if reached(
        k,
        key.title_set_nr as int,
        key.pgcn as int,
        key.cell_nr as int,
    ) {
        listed_cell(reader, infos, k)
    } else {
        None
    }) by {
        if key_code(k) == key_code(key) {
            lemma_code_injective(k, key);
        } else {
            assert(table_cell(n, k) == table_cell(m, k));
            assert(k != key);
        }
    }
    assert forall|code: u64| #[trigger] n.contains_key(code) implies exists|k: CellKey| #[trigger]
        key_code(k) == code by {
        if code != key_code(key) {
            assert(m.contains_key(code));
        }
    }
}

fn is_vts_used(infos: &[TitleInfo], vts: u8) -> (b: bool)
    ensures
        b == vts_used(infos@, vts),
{
    let mut i: usize = 0;
    while i < infos.len()
        invariant
            i <= infos.len(),
            forall|j: int| 0 <= j < i ==> #[trigger] infos@[j].title_set_nr != vts,
        decreases infos.len() - i,
    {
        if infos[i].title_set_nr == vts {
            assert(infos@[i as int].title_set_nr == vts);
            return true;
        }
        i = i + 1;
    }
    false
}

/// Adds the cells of one title set.
fn add_title_set(
    cells: &mut HashMap<u64, CellInfo>,
    reader: &DvdReader,
    infos: &[TitleInfo],
    vts_nr: u8,
)
    requires
        vts_nr > 0,
        built_to(old(cells)@, *reader, infos@, vts_nr as int, 0, 255),
    ensures
        built_to(final(cells)@, *reader, infos@, vts_nr + 1, 0, 255),
{
    broadcast use vstd::std_specs::hash::group_hash_axioms;

    if !is_vts_used(infos, vts_nr) {
        proof {
            lemma_built_skip(
                cells@,
                *reader,
                infos@,
                vts_nr as int,
                0,
                255,
                vts_nr + 1,
                0,
                255,
            );
        }
        return;
    }
    let vts = match IfoHandle::open(reader, IfoKind::Vts(vts_nr as u32)) {
        Ok(vts) => vts,
        Err(_) => {
            proof {
                lemma_built_skip(
                    cells@,
                    *reader,
                    infos@,
                    vts_nr as int,
                    0,
                    255,
                    vts_nr + 1,
                    0,
                    255,
                );
            }
            return;
        },
    };
    let pgcs = vts.pgcs();
    let mut p: usize = 0;
    while p < pgcs.len() && p < 65535
        invariant
            p <= pgcs.len(),
            p <= 65535,
            vts_nr > 0,
            vts_used(infos@, vts_nr),
            ifo_of(*reader, IfoKind::Vts(vts_nr as u32)) == Some(*vts),
            pgcs@ == pgcs_of(*vts),
            built_to(cells@, *reader, infos@, vts_nr as int, p as int, 255),
        decreases pgcs.len() - p,
    {
        let pgcn: u16 = (p + 1) as u16;
        match &pgcs[p].pgc {
            Some(pgc) => {
                let list = cells_in_pgc(pgc);
                let mut c: usize = 0;
                proof {
                    lemma_built_skip(
                        cells@,
                        *reader,
                        infos@,
                        vts_nr as int,
                        p as int,
                        255,
                        vts_nr as int,
                        p + 1,
                        0,
                    );
                }
                while c < list.len() && c < 255
                    invariant
                        c <= list.len(),
                        c <= 255,
                        p < pgcs.len(),
                        p < 65535,
                        pgcn == p + 1,
                        vts_nr > 0,
                        vts_used(infos@, vts_nr),
                        ifo_of(*reader, IfoKind::Vts(vts_nr as u32)) == Some(*vts),
                        pgcs@ == pgcs_of(*vts),
                        pgcs@[p as int].pgc == Some(*pgc),
                        list@ == cells_of(*pgc),
                        built_to(cells@, *reader, infos@, vts_nr as int, p + 1, c as int),
                    decreases list.len() - c,
                {
                    let key = CellKey { title_set_nr: vts_nr, pgcn, cell_nr: (c + 1) as u8 };
                    proof {
                        lemma_built_insert(cells@, *reader, infos@, key, list@[c as int]);
                    }
                    cells.insert(key.code(), list[c]);
                    c = c + 1;
                }
                proof {
                    lemma_built_skip(
                        cells@,
                        *reader,
                        infos@,
                        vts_nr as int,
                        p + 1,
                        c as int,
                        vts_nr as int,
                        p + 1,
                        255,
                    );
                }
            },
            None => {
                proof {
                    lemma_built_skip(
                        cells@,
                        *reader,
                        infos@,
                        vts_nr as int,
                        p as int,
                        255,
                        vts_nr as int,
                        p + 1,
                        255,
                    );
                }
            },
        }
        p = p + 1;
    }
    proof {
        lemma_built_skip(
            cells@,
            *reader,
            infos@,
            vts_nr as int,
            p as int,
            255,
            vts_nr + 1,
            0,
            255,
        );
    }
}

impl CellLookup {
    /// Builds the table from the IFO files of a disc. A title set whose IFO
    /// could not be read is left out.
    pub fn build(reader: &DvdReader) -> (r: Result<Self, DvdError>)
        ensures
            match r {
                Ok(l) => reader.vmg matches Some(vmg) && {
                    &&& l.title_to_vts@ == titles_of(vmg).map_values(|t: TitleInfo| t.title_set_nr)
                    &&& forall|key: CellKey| #[trigger]
                        table_cell(l.cells@, key) == listed_cell(*reader, titles_of(vmg), key)
                    &&& l.cells@.dom() == listed_codes(*reader, titles_of(vmg))
                },
                Err(e) => reader.vmg is None && e == (DvdError::IfoOpenFailed { ifo_nr: 0 }),
            },
    {
        broadcast use vstd::std_specs::hash::group_hash_axioms;

        let vmg = match IfoHandle::open(reader, IfoKind::Vmg) {
            Ok(vmg) => vmg,
            Err(e) => return Err(e),
        };
        let infos = vmg.titles();
        let mut title_to_vts: Vec<u8> = Vec::new();
        let mut i: usize = 0;
        while i < infos.len()
            invariant
                i <= infos.len(),
                title_to_vts.len() == i,
                forall|j: int| 0 <= j < i ==> title_to_vts@[j] == infos@[j].title_set_nr,
            decreases infos.len() - i,
        {
            title_to_vts.push(infos[i].title_set_nr);
            i = i + 1;
        }
        let mut cells: HashMap<u64, CellInfo> = HashMap::new();
        proof {
            reveal(built_to);
        }
        assert(built_to(cells@, *reader, infos@, 1, 0, 255));
        let mut vts_nr: u8 = 1;
        while vts_nr < 255
            invariant
                1 <= vts_nr <= 255,
                built_to(cells@, *reader, infos@, vts_nr as int, 0, 255),
            decreases 255 - vts_nr,
        {
            add_title_set(&mut cells, reader, infos, vts_nr);
            vts_nr = vts_nr + 1;
        }
        add_title_set(&mut cells, reader, infos, 255);
        assert(title_to_vts@ =~= titles_of(*vmg).map_values(|t: TitleInfo| t.title_set_nr));
        assert forall|key: CellKey| #[trigger] table_cell(cells@, key) == listed_cell(
            *reader,
            titles_of(*vmg),
            key,
        ) by {
            reveal(built_to);
            assert(reached(key, 256, 0, 255));
        }
        assert(cells@.dom() =~= listed_codes(*reader, titles_of(*vmg))) by {
            reveal(built_to);
            assert forall|code: u64| cells@.contains_key(code) <==> listed_codes(
                *reader,
                titles_of(*vmg),
            ).contains(code) by {
                if cells@.contains_key(code) {
                    let key = choose|key: CellKey| #[trigger] key_code(key) == code;
                    assert(table_cell(cells@, key) is Some);
                }
                if listed_codes(*reader, titles_of(*vmg)).contains(code) {
                    let key = choose|key: CellKey| #[trigger]
                        key_code(key) == code && listed_cell(*reader, titles_of(*vmg), key) is Some;
                    assert(table_cell(cells@, key) is Some);
                }
            }
        }
        Ok(CellLookup { title_to_vts, cells })
    }

    /// Number of cells in the table.
    pub fn len(&self) -> (n: usize)
        ensures
            n == self.cells@.len(),
    {
        broadcast use vstd::std_specs::hash::group_hash_axioms;

        self.cells.len()
    }

    /// Whether the table has no cells.
    pub fn is_empty(&self) -> (b: bool)
        ensures
            b == self.cells@.is_empty(),
    {
        broadcast use vstd::std_specs::hash::group_hash_axioms;

        self.cells.is_empty()
    }

    /// The title set of a title that counts from 1; `None` where there is no
    /// such title.
    pub fn vts_for_title(&self, title: u32) -> (r: Option<u8>)
        ensures
            r == vts_of_title(self.title_to_vts@, title),
    {
        if title == 0 || title as u64 > self.title_to_vts.len() as u64 {
            return None;
        }
        Some(self.title_to_vts[title as usize - 1])
    }

    /// The cell of a title by program chain and cell number, all counted from
    /// 1; `None` where the table has none.
    pub fn get(&self, title: u32, pgcn: u16, cell_nr: u8) -> (r: Option<&CellInfo>)
        ensures
            match vts_of_title(self.title_to_vts@, title) {
                Some(v) => {
                    let found = table_cell(
                        self.cells@,
                        CellKey { title_set_nr: v, pgcn, cell_nr },
                    );
                    match r {
                        Some(c) => found == Some(*c),
                        None => found is None,
                    }
                },
                None => r is None,
            },
    {
        broadcast use vstd::std_specs::hash::group_hash_axioms;

        match self.vts_for_title(title) {
            Some(v) => {
                let key = CellKey { title_set_nr: v, pgcn, cell_nr };
                self.cells.get(&key.code())
            },
            None => None,
        }
    }
}

/// A table built from a disc answers for every title of it what the disc
/// itself has: the cell at that address, or nothing.
pub proof fn lemma_lookup_is_the_disc(
    reader: DvdReader,
    infos: Seq<TitleInfo>,
    l: CellLookup,
    title: u32,
    pgcn: u16,
    cell_nr: u8,
)
    requires
        l.title_to_vts@ == infos.map_values(|t: TitleInfo| t.title_set_nr),
        forall|key: CellKey| #[trigger]
            table_cell(l.cells@, key) == listed_cell(reader, infos, key),
        1 <= title <= infos.len(),
        infos[title - 1].title_set_nr > 0,
    ensures
        vts_of_title(l.title_to_vts@, title) matches Some(v) && table_cell(
            l.cells@,
            CellKey { title_set_nr: v, pgcn, cell_nr },
        ) == disc_cell(
            reader,
            CellKey { title_set_nr: infos[title - 1].title_set_nr, pgcn, cell_nr },
        ),
{
    let v = infos[title - 1].title_set_nr;
    assert(vts_used(infos, v));
    assert(table_cell(l.cells@, CellKey { title_set_nr: v, pgcn, cell_nr }) == listed_cell(
        reader,
        infos,
        CellKey { title_set_nr: v, pgcn, cell_nr },
    ));
}

} // verus!
