//! The disc-source trait, and its implementation for DVD-Video.
use vstd::prelude::*;
use crate::detect::DiscType;
use crate::error::DvdError;
use crate::reader::{DiscIfos, DvdReader};

verus! {

/// A handle to an open disc, whatever its format.
pub trait DiscSource {
    /// The type that [`DiscSource::disc_type`] reports.
    spec fn source_type(&self) -> DiscType;

    /// The path that [`DiscSource::path`] reports.
    spec fn source_path(&self) -> Seq<char>;

    /// The kind of disc.
    fn disc_type(&self) -> (t: DiscType)
        ensures
            t == self.source_type(),
    ;

    /// The path that the source was opened from.
    fn path(&self) -> (p: &str)
        ensures
            p@ == self.source_path(),
    ;
}

/// An open DVD-Video disc.
pub struct DvdSource {
    pub reader: DvdReader,
}

impl DvdSource {
    /// Opens a DVD-Video source, given the contents of its IFO files, or `None`
    /// where the disc could not be opened.
    pub fn open(path: String, ifos: Option<DiscIfos>) -> (r: Result<Self, DvdError>)
        ensures
            match r {
                Ok(s) => !path@.contains('\0') && ifos == Some(
                    DiscIfos { vmg: s.reader.vmg, vts: s.reader.vts },
                ) && s.reader.path == path,
                Err(DvdError::InvalidPath) => path@.contains('\0'),
                Err(DvdError::OpenFailed { path: p, reason }) => {
                    &&& !path@.contains('\0')
                    &&& ifos is None
                    &&& p == path
                    &&& reason@ == "libdvdread DVDOpen() returned NULL"@
                },
                Err(_) => false,
            },
    {
        match DvdReader::open(path, ifos) {
            Ok(reader) => Ok(DvdSource { reader }),
            Err(e) => Err(e),
        }
    }

    /// The reader of the disc.
    pub fn reader(&self) -> (r: &DvdReader)
        ensures
            *r == self.reader,
    {
        &self.reader
    }
}

impl DiscSource for DvdSource {
    open spec fn source_type(&self) -> DiscType {
        DiscType::Dvd
    }

    open spec fn source_path(&self) -> Seq<char> {
        self.reader.path@
    }

    fn disc_type(&self) -> (t: DiscType) {
        DiscType::Dvd
    }

    fn path(&self) -> (p: &str) {
        self.reader.path()
    }
}

} // verus!
