//! Block reads from the files of a disc.
//!
//! The caller makes the reads; this module decides which are allowed and what
//! their outcomes mean.
use vstd::prelude::*;
use crate::error::DvdError;
use crate::text::{push_signed, signed_dec};

verus! {

/// Size of a DVD block in bytes.
pub const BLOCK_SIZE: u32 = 2048;

/// The kinds of files of a disc or of a title set.
#[derive(Debug, Clone, Copy, PartialEq, Eq, Structural)]
pub enum ReadDomain {
    /// The IFO file.
    InfoFile,
    /// The backup of the IFO file.
    InfoBackup,
    /// Menu video.
    MenuVobs,
    /// Title video, all parts as one stream of blocks.
    TitleVobs,
}

/// The name of a domain.
pub open spec fn domain_name(d: ReadDomain) -> Seq<char> {
    match d {
        ReadDomain::InfoFile => "INFO_FILE"@,
        ReadDomain::InfoBackup => "INFO_BACKUP"@,
        ReadDomain::MenuVobs => "MENU_VOBS"@,
        ReadDomain::TitleVobs => "TITLE_VOBS"@,
    }
}

impl ReadDomain {
    /// The name of the domain.
    pub fn as_str(self) -> (s: &'static str)
        ensures
            s@ == domain_name(self),
    {
        match self {
            ReadDomain::InfoFile => "INFO_FILE",
            ReadDomain::InfoBackup => "INFO_BACKUP",
            ReadDomain::MenuVobs => "MENU_VOBS",
            ReadDomain::TitleVobs => "TITLE_VOBS",
        }
    }
}

/// An opened file of a disc.
#[derive(Debug, Clone, Copy, PartialEq, Eq, Structural)]
pub struct DvdFile {
    /// Title set, or 0 for the files of the whole disc.
    pub vts_nr: u32,
    pub domain: ReadDomain,
    /// Size in blocks.
    pub block_count: u32,
}

/// More blocks than any disc holds; a dual-layer one has some 4.3 million.
pub const MAX_PLAUSIBLE_BLOCKS: u32 = 10_000_000;

/// Blocks of a file whose reported size is not negative.
pub open spec fn blocks_of_size(raw_size: i64) -> int {
    if raw_size > u32::MAX {
        u32::MAX as int
    } else {
        raw_size as int
    }
}

/// The last block that a read reaches, held within 32 bits.
pub open spec fn read_end(offset: u32, count: u32) -> int {
    if offset + count > u32::MAX {
        u32::MAX as int
    } else {
        offset + count
    }
}

impl DvdFile {
    /// Opens a file, given the size in blocks that was reported for it, or
    /// `None` where it could not be opened.
    pub fn open(vts_nr: u32, domain: ReadDomain, raw_size: Option<i64>) -> (r: Result<
        Self,
        DvdError,
    >)
        ensures
            match r {
                Ok(f) => raw_size matches Some(n) && n >= 0 && f == (DvdFile {
                    vts_nr,
                    domain,
                    block_count: blocks_of_size(n) as u32,
                }),
                Err(DvdError::FileOpenFailed { vts_nr: v, domain: d, reason }) => {
                    &&& v == vts_nr
                    &&& d@ == domain_name(domain)
                    &&& match raw_size {
                        None => reason@ == "libdvdread DVDOpenFile() returned NULL"@,
                        Some(n) => n < 0 && reason@ == "DVDFileSize returned "@ + signed_dec(
                            n as int,
                        ),
                    }
                },
                Err(_) => false,
            },
    {
        match raw_size {
            None => Err(
                DvdError::FileOpenFailed {
                    vts_nr,
                    domain: domain.as_str(),
                    reason: "libdvdread DVDOpenFile() returned NULL".to_owned(),
                },
            ),
            Some(n) => {
                if n < 0 {
                    let mut reason = String::new();
                    reason.append("DVDFileSize returned ");
                    push_signed(&mut reason, n);
                    assert(reason@ =~= "DVDFileSize returned "@ + signed_dec(n as int));
                    return Err(
                        DvdError::FileOpenFailed { vts_nr, domain: domain.as_str(), reason },
                    );
                }
                let block_count: u32 = if n > 0xFFFF_FFFF {
                    0xFFFF_FFFF
                } else {
                    n as u32
                };
                Ok(DvdFile { vts_nr, domain, block_count })
            },
        }
    }

    /// Title set of the file.
    pub fn vts_nr(&self) -> (n: u32)
        ensures
            n == self.vts_nr,
    {
        self.vts_nr
    }

    /// Domain of the file.
    pub fn domain(&self) -> (d: ReadDomain)
        ensures
            d == self.domain,
    {
        self.domain
    }

    /// Size in blocks.
    pub fn block_count(&self) -> (n: u32)
        ensures
            n == self.block_count,
    {
        self.block_count
    }

    /// Size in bytes.
    pub fn byte_size(&self) -> (n: u64)
        ensures
            n == self.block_count * 2048,
    {
        self.block_count as u64 * 2048
    }

    /// Whether the size is one that a disc can have.
    pub fn is_plausible(&self) -> (b: bool)
        ensures
            b == (self.block_count <= MAX_PLAUSIBLE_BLOCKS),
    {
        self.block_count <= MAX_PLAUSIBLE_BLOCKS
    }

    /// Whether `count` blocks at `offset` lie within the file: `Ok` with the
    /// size of the buffer that the read needs.
    pub fn check_range(&self, offset: u32, count: u32) -> (r: Result<u64, DvdError>)
        ensures
            match r {
                Ok(bytes) => read_end(offset, count) <= self.block_count && bytes == count * 2048,
                Err(e) => read_end(offset, count) > self.block_count && e
                    == (DvdError::ReadOutOfRange { offset, count, total: self.block_count }),
            },
    {
        let end: u32 = offset.saturating_add(count);
        if end > self.block_count {
            return Err(DvdError::ReadOutOfRange { offset, count, total: self.block_count });
        }
        Ok(count as u64 * 2048)
    }

    /// What a read of `count` blocks at `offset` gives, once the blocks were
    /// read into `buf` and `ret` blocks, or an error, were reported. A short
    /// read gives the blocks that came.
    pub fn read_blocks(&self, offset: u32, count: u32, ret: i64, buf: Vec<u8>) -> (r: Result<
        Vec<u8>,
        DvdError,
    >)
        requires
            ret <= count,
            read_end(offset, count) <= self.block_count ==> buf.len() == count * 2048,
        ensures
            match r {
                Ok(bytes) => {
                    &&& read_end(offset, count) <= self.block_count
                    &&& ret >= 0
                    &&& bytes@ == buf@.take(ret as int * 2048)
                },
                Err(DvdError::ReadOutOfRange { offset: o, count: c, total }) => {
                    &&& read_end(offset, count) > self.block_count
                    &&& o == offset && c == count && total == self.block_count
                },
                Err(DvdError::ReadFailed { offset: o, count: c, ret: n }) => {
                    &&& read_end(offset, count) <= self.block_count
                    &&& ret < 0
                    &&& o == offset && c == count
                    &&& n == (if ret < i32::MIN {
                        i32::MIN as int
                    } else {
                        ret as int
                    })
                },
                Err(_) => false,
            },
    {
        match self.check_range(offset, count) {
            Err(e) => return Err(e),
            Ok(_) => {},
        }
        if ret < 0 {
            let ret32: i32 = if ret < -0x8000_0000 {
                -0x8000_0000
            } else {
                ret as i32
            };
            return Err(DvdError::ReadFailed { offset, count, ret: ret32 });
        }
        let mut bytes = buf;
        let got: u32 = ret as u32;
        if got < count {
            bytes.truncate(got as usize * 2048);
        }
        assert(bytes@ =~= buf@.take(ret as int * 2048));
        Ok(bytes)
    }
}

} // verus!
