//! Disc-type detection by file system layout.
use vstd::prelude::*;
use crate::error::DiscError;
use crate::text::{eq_ignore_ascii_case, same_ignoring_case};

verus! {

/// What kind of disc a path refers to.
#[derive(Debug, Clone, Copy, PartialEq, Eq, Structural, Hash)]
pub enum DiscType {
    /// DVD-Video.
    Dvd,
    /// Blu-ray.
    Bluray,
    /// UHD Blu-ray.
    UltraHd,
}

/// The name of a disc type.
pub open spec fn disc_type_name(t: DiscType) -> Seq<char> {
    match t {
        DiscType::Dvd => "DVD"@,
        DiscType::Bluray => "Blu-ray"@,
        DiscType::UltraHd => "UHD Blu-ray"@,
    }
}

impl DiscType {
    /// Short human-readable name.
    pub fn as_str(self) -> (s: &'static str)
        ensures
            s@ == disc_type_name(self),
    {
        match self {
            DiscType::Dvd => "DVD",
            DiscType::Bluray => "Blu-ray",
            DiscType::UltraHd => "UHD Blu-ray",
        }
    }
}

/// What the file system shows at a path.
#[derive(Debug)]
pub struct PathFacts {
    pub exists: bool,
    pub is_dir: bool,
    pub is_file: bool,
    /// `VIDEO_TS/VIDEO_TS.IFO` is a file below the path.
    pub vmg_in_subdir: bool,
    /// `VIDEO_TS.IFO` is a file in the path.
    pub vmg_at_root: bool,
    /// `BDMV` is a directory below the path.
    pub has_bdmv: bool,
    /// The extension of the file name, if it is text.
    pub extension: Option<String>,
    /// The path is a block or a character device.
    pub is_device: bool,
}

/// The extension of a disc image.
pub open spec fn is_image_extension(extension: Option<String>) -> bool {
    extension matches Some(e) && (same_ignoring_case(e@, "iso"@) || same_ignoring_case(
        e@,
        "img"@,
    ))
}

/// The disc type that the facts show, if they show one. A directory with a
/// `VIDEO_TS.IFO` is a DVD, one with `BDMV` a Blu-ray; an image file and a
/// device are taken for a DVD.
pub open spec fn disc_type_of(facts: PathFacts) -> Option<DiscType> {
    if facts.is_dir && (facts.vmg_in_subdir || facts.vmg_at_root) {
        Some(DiscType::Dvd)
    } else if facts.is_dir && facts.has_bdmv {
        Some(DiscType::Bluray)
    } else if facts.is_file && is_image_extension(facts.extension) {
        Some(DiscType::Dvd)
    } else if facts.is_device {
        Some(DiscType::Dvd)
    } else {
        None
    }
}

/// Decides which backend handles a path.
pub fn detect_disc_type(path: &str, facts: &PathFacts) -> (r: Result<DiscType, DiscError>)
    ensures
        match r {
            Ok(t) => facts.exists && disc_type_of(*facts) == Some(t),
            Err(DiscError::PathNotFound(p)) => !facts.exists && p@ == path@,
            Err(DiscError::UnknownDiscType(p)) => {
                facts.exists && disc_type_of(*facts) is None && p@ == path@
            },
            Err(_) => false,
        },
{
    if !facts.exists {
        return Err(DiscError::PathNotFound(path.to_owned()));
    }
    if facts.is_dir {
        if facts.vmg_in_subdir || facts.vmg_at_root {
            return Ok(DiscType::Dvd);
        }
        if facts.has_bdmv {
            return Ok(DiscType::Bluray);
        }
    }
    if facts.is_file {
        if let Some(e) = &facts.extension {
            if eq_ignore_ascii_case(e.as_str(), "iso") || eq_ignore_ascii_case(e.as_str(), "img") {
                return Ok(DiscType::Dvd);
            }
        }
    }
    if facts.is_device {
        return Ok(DiscType::Dvd);
    }
    Err(DiscError::UnknownDiscType(path.to_owned()))
}

} // verus!
