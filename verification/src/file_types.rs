//! File-type discernment from the container's magic bytes.

use vstd::prelude::*;

verus! {

/// Byte order declared by the two magic bytes at the start of the file:
/// `II` is little-endian, `MM` big-endian.
#[derive(Debug, Clone, Copy, PartialEq, Eq, Structural)]
pub enum Endian {
    Little,
    Big,
}

/// A file whose magic bytes parse: the finer distinction (siff with photon
/// data, a FLIM-aware tiff, a plain tiff) is not decided by the header
/// alone, so a freshly discerned file is `Undetermined`.
#[derive(Debug, Clone, Copy, PartialEq, Eq, Structural)]
pub enum ValidType {
    Siff(Endian),
    FlimTiff(Endian),
    Tiff(Endian),
    Undetermined(Endian),
}

/// The kind of file the magic bytes describe.
#[derive(Debug, Clone, Copy, PartialEq, Eq, Structural)]
pub enum FileType {
    Valid(ValidType),
    Other,
}

/// The endianness encoded in the first two bytes, if they are a valid
/// TIFF-family magic.
pub open spec fn spec_endian(data: Seq<u8>) -> Option<Endian> {
    if data.len() < 2 {
        None
    } else if data[0] == 0x49 && data[1] == 0x49 {
        Some(Endian::Little)
    } else if data[0] == 0x4D && data[1] == 0x4D {
        Some(Endian::Big)
    } else {
        None
    }
}

impl FileType {
    /// Checks the first two bytes of the file: `II` is little-endian, `MM`
    /// is big-endian, anything else is not a TIFF-family file.
    pub fn get_endian(data: &Vec<u8>) -> (r: Option<Endian>)
        ensures
            r == spec_endian(data@),
    {
        if data.len() < 2 {
            return None;
        }
        if data[0] == 0x49 && data[1] == 0x49 {
            Some(Endian::Little)
        } else if data[0] == 0x4D && data[1] == 0x4D {
            Some(Endian::Big)
        } else {
            None
        }
    }

    /// Checks a file's opening bytes against all the criteria to determine
    /// the kind of file: a valid magic gives a valid file of undetermined
    /// flavour, anything else is `Other`.
    pub fn discern_filetype(data: &Vec<u8>) -> (r: FileType)
        ensures
            r == (match spec_endian(data@) {
                Some(e) => FileType::Valid(ValidType::Undetermined(e)),
                None => FileType::Other,
            }),
    {
        match FileType::get_endian(data) {
            Some(e) => FileType::Valid(ValidType::Undetermined(e)),
            None => FileType::Other,
        }
    }
}

} // verus!
