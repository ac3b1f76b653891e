//! Errors of the library: those of the DVD backend, and those that every
//! caller sees.
use vstd::prelude::*;
use crate::text::{dec, push_dec, push_signed, signed_dec};

verus! {

/// Failures of the DVD backend.
#[derive(Debug)]
pub enum DvdError {
    /// The disc could not be opened.
    OpenFailed { path: String, reason: String },
    /// The path holds a NUL character.
    InvalidPath,
    /// An IFO could not be opened.
    IfoOpenFailed { ifo_nr: u32 },
    /// A file of the disc could not be opened.
    FileOpenFailed { vts_nr: u32, domain: &'static str, reason: String },
    /// A read reaches past the end of the file.
    ReadOutOfRange { offset: u32, count: u32, total: u32 },
    /// A read failed.
    ReadFailed { offset: u32, count: u32, ret: i32 },
    /// An operation of the file system failed.
    Io(String),
}

/// Failures at the boundary that is common to all formats.
#[derive(Debug)]
pub enum DiscError {
    PathNotFound(String),
    UnknownDiscType(String),
    Unsupported(&'static str),
    /// A failure of a backend.
    Backend { source: DvdError },
    /// An operation of the file system failed.
    Io(String),
}

/// The text of [`DvdError::message`].
pub open spec fn dvd_error_text(e: DvdError) -> Seq<char> {
    match e {
        DvdError::OpenFailed { path, reason } => "could not open disc at "@ + path@ + ": "@
            + reason@,
        DvdError::InvalidPath => "invalid path: contains interior NUL byte"@,
        DvdError::IfoOpenFailed { ifo_nr } => "IFO "@ + dec(ifo_nr as nat)
            + " could not be opened (libdvdread returned NULL)"@,
        DvdError::FileOpenFailed { vts_nr, domain, reason } => "could not open file: vts="@ + dec(
            vts_nr as nat,
        ) + " domain="@ + domain@ + " ("@ + reason@ + ")"@,
        DvdError::ReadOutOfRange { offset, count, total } => "sector read out of range: offset="@
            + dec(offset as nat) + " count="@ + dec(count as nat) + " total_blocks="@ + dec(
            total as nat,
        ),
        DvdError::ReadFailed { offset, count, ret } => "sector read failed: offset="@ + dec(
            offset as nat,
        ) + " count="@ + dec(count as nat) + " (libdvdread returned "@ + signed_dec(ret as int)
            + ")"@,
        DvdError::Io(what) => "I/O error: "@ + what@,
    }
}

/// The text of [`DiscError::message`].
pub open spec fn disc_error_text(e: DiscError) -> Seq<char> {
    match e {
        DiscError::PathNotFound(path) => "path does not exist: "@ + path@,
        DiscError::UnknownDiscType(path) => "disc type at "@ + path@
            + " is not recognized (no VIDEO_TS/, BDMV/, or recognized image found)"@,
        DiscError::Unsupported(what) => "requested feature not yet implemented: "@ + what@,
        DiscError::Backend { source } => "backend error: "@ + dvd_error_text(source),
        DiscError::Io(what) => "I/O error: "@ + what@,
    }
}

impl DvdError {
    /// One line that says what is wrong.
    pub fn message(&self) -> (s: String)
        ensures
            s@ == dvd_error_text(*self),
    {
        let mut out = String::new();
        match self {
            DvdError::OpenFailed { path, reason } => {
                out.append("could not open disc at ");
                out.append(path.as_str());
                out.append(": ");
                out.append(reason.as_str());
            },
            DvdError::InvalidPath => out.append("invalid path: contains interior NUL byte"),
            DvdError::IfoOpenFailed { ifo_nr } => {
                out.append("IFO ");
                push_dec(&mut out, *ifo_nr as u64);
                out.append(" could not be opened (libdvdread returned NULL)");
            },
            DvdError::FileOpenFailed { vts_nr, domain, reason } => {
                out.append("could not open file: vts=");
                push_dec(&mut out, *vts_nr as u64);
                out.append(" domain=");
                out.append(domain);
                out.append(" (");
                out.append(reason.as_str());
                out.append(")");
            },
            DvdError::ReadOutOfRange { offset, count, total } => {
                out.append("sector read out of range: offset=");
                push_dec(&mut out, *offset as u64);
                out.append(" count=");
                push_dec(&mut out, *count as u64);
                out.append(" total_blocks=");
                push_dec(&mut out, *total as u64);
            },
            DvdError::ReadFailed { offset, count, ret } => {
                out.append("sector read failed: offset=");
                push_dec(&mut out, *offset as u64);
                out.append(" count=");
                push_dec(&mut out, *count as u64);
                out.append(" (libdvdread returned ");
                push_signed(&mut out, *ret as i64);
                out.append(")");
            },
            DvdError::Io(what) => {
                out.append("I/O error: ");
                out.append(what.as_str());
            },
        }
        assert(out@ =~= dvd_error_text(*self));
        out
    }
}

impl DiscError {
    /// One line that says what is wrong.
    pub fn message(&self) -> (s: String)
        ensures
            s@ == disc_error_text(*self),
    {
        let mut out = String::new();
        match self {
            DiscError::PathNotFound(path) => {
                out.append("path does not exist: ");
                out.append(path.as_str());
            },
            DiscError::UnknownDiscType(path) => {
                out.append("disc type at ");
                out.append(path.as_str());
                out.append(" is not recognized (no VIDEO_TS/, BDMV/, or recognized image found)");
            },
            DiscError::Unsupported(what) => {
                out.append("requested feature not yet implemented: ");
                out.append(what);
            },
            DiscError::Backend { source } => {
                out.append("backend error: ");
                out.append(source.message().as_str());
            },
            DiscError::Io(what) => {
                out.append("I/O error: ");
                out.append(what.as_str());
            },
        }
        assert(out@ =~= disc_error_text(*self));
        out
    }
}

impl From<DvdError> for DiscError {
    fn from(e: DvdError) -> (r: DiscError) {
        DiscError::Backend { source: e }
    }
}

impl vstd::std_specs::convert::FromSpecImpl<DvdError> for DiscError {
    open spec fn obeys_from_spec() -> bool {
        true
    }

    open spec fn from_spec(e: DvdError) -> DiscError {
        DiscError::Backend { source: e }
    }
}

} // verus!
