//! The 32-byte file header: signature, format revision, kind of cache and
//! the place where the list of records starts.

use vstd::prelude::*;
use crate::codec::{le_u32, read_u32_at};
use crate::types::{CacheType, WindowsVersion};

verus! {

/// Length of the file header in bytes.
pub const HEADER_LEN: usize = 32;

/// Length of the signature in bytes.
pub const SIGNATURE_LEN: usize = 4;

/// The offset that `first_entry_offset` is counted from.
pub const ENTRY_LIST_BASE: u64 = 24;

/// The signature `CMMM`, which opens the file and every record.
pub open spec fn magic() -> Seq<u8> {
    seq![0x43u8, 0x4Du8, 0x4Du8, 0x4Du8]
}

/// The release family that a format revision stands for, if it is a known one.
pub open spec fn version_of(format_revision: u32) -> Option<WindowsVersion> {
    if format_revision == 20 {
        Some(WindowsVersion::WinVista)
    } else if format_revision == 21 {
        Some(WindowsVersion::Win7)
    } else if format_revision == 30 {
        Some(WindowsVersion::Win8)
    } else if format_revision == 31 {
        Some(WindowsVersion::Win81)
    } else if format_revision == 32 {
        Some(WindowsVersion::Win10)
    } else {
        None
    }
}

/// The type codes of Windows Vista and 7, in order.
pub open spec fn kinds_vista() -> Seq<CacheType> {
    seq![CacheType::Res32, CacheType::Res96, CacheType::Res256, CacheType::Res1024, CacheType::SR]
}

/// The type codes of Windows 8, in order.
pub open spec fn kinds_win8() -> Seq<CacheType> {
    seq![
        CacheType::Res16,
        CacheType::Res32,
        CacheType::Res48,
        CacheType::Res96,
        CacheType::Res256,
        CacheType::Res1024,
        CacheType::SR,
        CacheType::Wide,
        CacheType::EXIF,
    ]
}

/// The type codes of Windows 8.1, in order.
pub open spec fn kinds_win81() -> Seq<CacheType> {
    seq![
        CacheType::Res16,
        CacheType::Res32,
        CacheType::Res48,
        CacheType::Res96,
        CacheType::Res256,
        CacheType::Res1024,
        CacheType::Res1600,
        CacheType::SR,
        CacheType::Wide,
        CacheType::EXIF,
        CacheType::WideAlternate,
    ]
}

/// The type codes of Windows 10, in order.
pub open spec fn kinds_win10() -> Seq<CacheType> {
    seq![
        CacheType::Res16,
        CacheType::Res32,
        CacheType::Res48,
        CacheType::Res96,
        CacheType::Res256,
        CacheType::Res768,
        CacheType::Res1280,
        CacheType::Res1920,
        CacheType::Res2560,
        CacheType::SR,
        CacheType::Wide,
        CacheType::EXIF,
        CacheType::WideAlternate,
        CacheType::CustomStream,
    ]
}

/// The kinds of cache that a release family knows; a type code is an index
/// into this list.
pub open spec fn kinds_of(version: WindowsVersion) -> Seq<CacheType> {
    match version {
        WindowsVersion::WinVista => kinds_vista(),
        WindowsVersion::Win7 => kinds_vista(),
        WindowsVersion::Win8 => kinds_win8(),
        WindowsVersion::Win81 => kinds_win81(),
        WindowsVersion::Win10 => kinds_win10(),
    }
}

/// The kind of cache that a type code stands for under a release family, if
/// the family knows the code.
pub open spec fn cache_type_of(version: WindowsVersion, type_code: u32) -> Option<CacheType> {
    if type_code < kinds_of(version).len() {
        Some(kinds_of(version)[type_code as int])
    } else {
        None
    }
}

/// Resolves a format revision into a release family.
pub fn resolve_version(format_revision: u32) -> (version: Option<WindowsVersion>)
    ensures
        version == version_of(format_revision),
{
    match format_revision {
        20 => Some(WindowsVersion::WinVista),
        21 => Some(WindowsVersion::Win7),
        30 => Some(WindowsVersion::Win8),
        31 => Some(WindowsVersion::Win81),
        32 => Some(WindowsVersion::Win10),
        _ => None,
    }
}

/// Resolves a type code into a kind of cache, under the release family that
/// wrote the file.
pub fn resolve_cache_type(version: WindowsVersion, type_code: u32) -> (kind: Option<CacheType>)
    ensures
        kind == cache_type_of(version, type_code),
{
    match version {
        WindowsVersion::WinVista | WindowsVersion::Win7 => match type_code {
            0 => Some(CacheType::Res32),
            1 => Some(CacheType::Res96),
            2 => Some(CacheType::Res256),
            3 => Some(CacheType::Res1024),
            4 => Some(CacheType::SR),
            _ => None,
        },
        WindowsVersion::Win8 => match type_code {
            0 => Some(CacheType::Res16),
            1 => Some(CacheType::Res32),
            2 => Some(CacheType::Res48),
            3 => Some(CacheType::Res96),
            4 => Some(CacheType::Res256),
            5 => Some(CacheType::Res1024),
            6 => Some(CacheType::SR),
            7 => Some(CacheType::Wide),
            8 => Some(CacheType::EXIF),
            _ => None,
        },
        WindowsVersion::Win81 => match type_code {
            0 => Some(CacheType::Res16),
            1 => Some(CacheType::Res32),
            2 => Some(CacheType::Res48),
            3 => Some(CacheType::Res96),
            4 => Some(CacheType::Res256),
            5 => Some(CacheType::Res1024),
            6 => Some(CacheType::Res1600),
            7 => Some(CacheType::SR),
            8 => Some(CacheType::Wide),
            9 => Some(CacheType::EXIF),
            10 => Some(CacheType::WideAlternate),
            _ => None,
        },
        WindowsVersion::Win10 => match type_code {
            0 => Some(CacheType::Res16),
            1 => Some(CacheType::Res32),
            2 => Some(CacheType::Res48),
            3 => Some(CacheType::Res96),
            4 => Some(CacheType::Res256),
            5 => Some(CacheType::Res768),
            6 => Some(CacheType::Res1280),
            7 => Some(CacheType::Res1920),
            8 => Some(CacheType::Res2560),
            9 => Some(CacheType::SR),
            10 => Some(CacheType::Wide),
            11 => Some(CacheType::EXIF),
            12 => Some(CacheType::WideAlternate),
            13 => Some(CacheType::CustomStream),
            _ => None,
        },
    }
}

/// The 32-bit field that starts at offset `at` of a header.
pub open spec fn field_u32(header: Seq<u8>, at: int) -> u32 {
    le_u32(header.subrange(at, at + 4))
}

/// Whether a header opens with the signature.
pub open spec fn has_magic(header: Seq<u8>) -> bool {
    header.len() >= 4 && header.subrange(0, 4) == magic()
}

/// Tells whether a header opens with the signature.
pub fn starts_with_magic(header: &[u8]) -> (found: bool)
    ensures
        found == has_magic(header@),
{
    if header.len() < 4 {
        return false;
    }
    let found: bool = header[0] == 0x43 && header[1] == 0x4D && header[2] == 0x4D && header[3]
        == 0x4D;
    proof {
        let head = header@.subrange(0, 4);
        if found {
            assert(head =~= magic());
        } else {
            assert(head[0] == header@[0] && head[1] == header@[1] && head[2] == header@[2]
                && head[3] == header@[3]);
            assert(magic()[0] == 0x43 && magic()[1] == 0x4D && magic()[2] == 0x4D && magic()[3]
                == 0x4D);
        }
    }
    found
}

/// What the fixed fields of a file header say.
#[derive(Clone, Copy, Debug, PartialEq, Eq, Structural)]
pub struct FileHeader {
    /// The format revision, which names the release family.
    pub format_revision: u32,
    /// The type code, which names the kind of cache.
    pub type_code: u32,
    /// Where the list of records starts, counted from offset 24.
    pub first_entry_offset: u32,
}

/// The fields that a file header holds behind its signature. `fields` is
/// the header without its first four bytes, so the format revision, the
/// type code and the offset of the first record, which stand at bytes 4, 8
/// and 12 of the header, are its first three words.
pub open spec fn file_header_of(fields: Seq<u8>) -> FileHeader {
    FileHeader {
        format_revision: field_u32(fields, 0),
        type_code: field_u32(fields, 4),
        first_entry_offset: field_u32(fields, 8),
    }
}

/// Reads the fixed fields of a file header from the 28 bytes that follow
/// its signature.
pub fn parse_file_header(fields: &[u8]) -> (header: FileHeader)
    requires
        fields@.len() == HEADER_LEN - SIGNATURE_LEN,
    ensures
        header == file_header_of(fields@),
{
    FileHeader {
        format_revision: read_u32_at(fields, 0),
        type_code: read_u32_at(fields, 4),
        first_entry_offset: read_u32_at(fields, 8),
    }
}

} // verus!
