//! Dump of a raw range of sectors.
use vstd::prelude::*;
use crate::file::{DvdFile, ReadDomain};
use crate::mpegps::{has_pack_start, starts_with_pack};
use crate::sha256::{hex_of, sha256_digest, sha256_hex};
use crate::text::{dec, push_dec};

verus! {

/// Most blocks of one dump, 128 MiB.
pub const MAX_BLOCKS_PER_CALL: u32 = 65_536;

/// What to dump, and where to.
#[derive(Debug)]
pub struct Params {
    pub vts: u32,
    pub domain: ReadDomain,
    pub offset: u32,
    pub count: u32,
    pub out: String,
}

/// What was dumped.
#[derive(Debug)]
pub struct Report {
    pub vts_nr: u32,
    pub domain: ReadDomain,
    pub block_count: u32,
    pub byte_size: u64,
    pub bytes_written: u64,
    pub sha256: String,
    pub out: String,
}

/// A block count that is refused.
#[derive(Debug, Clone, Copy, PartialEq, Eq, Structural)]
pub enum CountError {
    Zero,
    TooLarge { count: u32 },
}

/// The text of [`CountError::message`].
pub open spec fn count_error_text(e: CountError) -> Seq<char> {
    match e {
        CountError::Zero => "--count must be > 0"@,
        CountError::TooLarge { count } => "--count "@ + dec(count as nat)
            + " exceeds MAX_BLOCKS_PER_CALL="@ + dec(MAX_BLOCKS_PER_CALL as nat) + " (128 MiB)"@,
    }
}

impl CountError {
    /// One line that says what is wrong.
    pub fn message(&self) -> (s: String)
        ensures
            s@ == count_error_text(*self),
    {
        let mut out = String::new();
        match *self {
            CountError::Zero => out.append("--count must be > 0"),
            CountError::TooLarge { count } => {
                out.append("--count ");
                push_dec(&mut out, count as u64);
                out.append(" exceeds MAX_BLOCKS_PER_CALL=");
                push_dec(&mut out, MAX_BLOCKS_PER_CALL as u64);
                out.append(" (128 MiB)");
            },
        }
        assert(out@ =~= count_error_text(*self));
        out
    }
}

/// Whether a dump of `count` blocks is allowed.
pub fn check_count(count: u32) -> (r: Result<(), CountError>)
    ensures
        match r {
            Ok(()) => 1 <= count <= MAX_BLOCKS_PER_CALL,
            Err(CountError::Zero) => count == 0,
            Err(CountError::TooLarge { count: c }) => count > MAX_BLOCKS_PER_CALL && c == count,
        },
{
    if count == 0 {
        return Err(CountError::Zero);
    }
    if count > MAX_BLOCKS_PER_CALL {
        return Err(CountError::TooLarge { count });
    }
    Ok(())
}

/// Checks on a dump; each says whether it passed.
#[derive(Debug, Clone, Copy, PartialEq, Eq, Structural)]
pub struct DumpChecks {
    /// As many bytes came as were asked for.
    pub complete: bool,
    /// The first sector of the file starts with a pack header; `None` where
    /// the dump does not start there.
    pub pack_start: Option<bool>,
}

/// Checks a dump. The pack header is looked for only at the start of the file.
pub fn check_dump(params: &Params, buf: &[u8]) -> (c: DumpChecks)
    ensures
        c.complete == (buf@.len() == params.count * 2048),
        c.pack_start == (if params.offset == 0 && buf@.len() >= 4 {
            Some(has_pack_start(buf@))
        } else {
            None
        }),
{
    let pack_start = if params.offset == 0 && buf.len() >= 4 {
        Some(starts_with_pack(buf))
    } else {
        None
    };
    DumpChecks {
        complete: buf.len() as u64 == params.count as u64 * 2048,
        pack_start,
    }
}

/// The report on the bytes that were dumped.
pub fn report(params: Params, file: &DvdFile, buf: &[u8]) -> (r: Report)
    ensures
        r.vts_nr == file.vts_nr,
        r.domain == file.domain,
        r.block_count == file.block_count,
        r.byte_size == file.block_count * 2048,
        r.bytes_written == buf@.len(),
        r.sha256@ == hex_of(sha256_digest(buf@)),
        r.out == params.out,
{
    Report {
        vts_nr: file.vts_nr(),
        domain: file.domain(),
        block_count: file.block_count(),
        byte_size: file.byte_size(),
        bytes_written: buf.len() as u64,
        sha256: sha256_hex(buf),
        out: params.out,
    }
}

/// The two lines that a dump prints.
pub open spec fn report_text_of(r: Report) -> Seq<char> {
    "wrote "@ + dec(r.bytes_written as nat) + " bytes to "@ + r.out@ + "\n"@ + "sha256: "@
        + r.sha256@ + "\n"@
}

/// Renders a report.
pub fn report_text(r: &Report) -> (s: String)
    ensures
        s@ == report_text_of(*r),
{
    let mut out = "wrote ".to_owned();
    push_dec(&mut out, r.bytes_written);
    out.append(" bytes to ");
    out.append(r.out.as_str());
    out.append("\n");
    out.append("sha256: ");
    out.append(r.sha256.as_str());
    out.append("\n");
    out
}

} // verus!
