//! An opened DVD: its path and the contents of its IFO files.
use vstd::prelude::*;
use crate::error::DvdError;
use crate::ifo::{ifo_number, IfoHandle, IfoKind};

verus! {

/// An opened DVD. `vts[n - 1]` is the IFO of title set `n`; an IFO that could
/// not be read is `None`.
pub struct DvdReader {
    pub path: String,
    pub vmg: Option<IfoHandle>,
    pub vts: Vec<Option<IfoHandle>>,
}

/// The IFO files of a disc, as far as they could be read.
pub struct DiscIfos {
    pub vmg: Option<IfoHandle>,
    pub vts: Vec<Option<IfoHandle>>,
}

/// The IFO of a kind. IFOs go by their number, and number 0 is the disc-wide
/// one, whichever way it is asked for.
pub open spec fn ifo_of(reader: DvdReader, kind: IfoKind) -> Option<IfoHandle> {
    let n = ifo_number(kind);
    if n == 0 {
        reader.vmg
    } else if n <= reader.vts@.len() {
        reader.vts@[n - 1]
    } else {
        None
    }
}

fn has_nul(path: &str) -> (b: bool)
    ensures
        b == path@.contains('\0'),
{
    let n: usize = path.unicode_len();
    let mut i: usize = 0;
    while i < n
        invariant
            i <= n,
            n == path@.len(),
            forall|j: int| 0 <= j < i ==> path@[j] != '\0',
        decreases n - i,
    {
        if path.get_char(i) == '\0' {
            assert(path@[i as int] == '\0');
            return true;
        }
        i = i + 1;
    }
    false
}

/// Whether a path can be handed to the disc libraries: it holds no NUL.
pub fn is_valid_path(path: &str) -> (b: bool)
    ensures
        b == !path@.contains('\0'),
{
    !has_nul(path)
}

impl DvdReader {
    /// Opens a DVD, given the contents of its IFO files, or `None` where the
    /// disc could not be opened.
    pub fn open(path: String, ifos: Option<DiscIfos>) -> (r: Result<Self, DvdError>)
        ensures
            match r {
                Ok(reader) => !path@.contains('\0') && ifos == Some(
                    DiscIfos { vmg: reader.vmg, vts: reader.vts },
                ) && reader.path == path,
                Err(DvdError::InvalidPath) => path@.contains('\0'),
                Err(DvdError::OpenFailed { path: p, reason }) => {
                    &&& !path@.contains('\0')
                    &&& ifos is None
                    &&& p == path
                    &&& reason@ == "libdvdread DVDOpen() returned NULL"@
                },
                Err(_) => false,
            },
    {
        if has_nul(path.as_str()) {
            return Err(DvdError::InvalidPath);
        }
        match ifos {
            Some(i) => Ok(DvdReader { path, vmg: i.vmg, vts: i.vts }),
            None => Err(
                DvdError::OpenFailed {
                    path,
                    reason: "libdvdread DVDOpen() returned NULL".to_owned(),
                },
            ),
        }
    }

    /// The path that the reader was opened from.
    pub fn path(&self) -> (p: &str)
        ensures
            p@ == self.path@,
    {
        self.path.as_str()
    }
}

impl IfoHandle {
    /// The IFO of a kind, if it could be read.
    pub fn open(reader: &DvdReader, kind: IfoKind) -> (r: Result<&IfoHandle, DvdError>)
        ensures
            match r {
                Ok(ifo) => ifo_of(*reader, kind) == Some(*ifo),
                Err(e) => ifo_of(*reader, kind) is None && e == (DvdError::IfoOpenFailed {
                    ifo_nr: ifo_number(kind),
                }),
            },
    {
        let n: u32 = kind.as_ifo_nr();
        let slot = if n == 0 {
            &reader.vmg
        } else if n as usize <= reader.vts.len() {
            &reader.vts[n as usize - 1]
        } else {
            return Err(DvdError::IfoOpenFailed { ifo_nr: n });
        };
        match slot {
            Some(ifo) => Ok(ifo),
            None => Err(DvdError::IfoOpenFailed { ifo_nr: n }),
        }
    }
}

} // verus!
