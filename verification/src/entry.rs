//! One record of the list: its fixed 56-byte header under the two layouts,
//! and the step that reads a whole record off a cursor.

use vstd::prelude::*;
use vstd::slice::slice_subrange;
use crate::codec::{decode_utf16_lossy, le_u64, read_u32_at, read_u64_at, utf16_lossy, utf16_units};
use crate::cursor::{advance, remaining_at, ByteCursor};
use crate::header::{field_u32, has_magic, starts_with_magic};
use crate::types::{CacheEntry, CacheEntryView, WindowsVersion};

verus! {

/// Length of the fixed header of a record in bytes.
pub const ENTRY_HEADER_LEN: usize = 56;

/// How the fixed header of a record is laid out.
#[derive(Clone, Copy, Debug, PartialEq, Eq, Structural)]
pub enum Layout {
    /// Windows Vista: the header carries a file extension.
    Vista,
    /// Windows 7 and later: no file extension, the length fields come earlier.
    Modern,
}

/// The layout that a release family writes.
pub open spec fn layout_of(version: WindowsVersion) -> Layout {
    match version {
        WindowsVersion::WinVista => Layout::Vista,
        _ => Layout::Modern,
    }
}

/// Offset of the three length fields: identifier, padding and data follow
/// each other, four bytes each.
pub open spec fn lengths_at(layout: Layout) -> int {
    match layout {
        Layout::Vista => 24,
        Layout::Modern => 16,
    }
}

/// Offset of the two checksums: data, then header, eight bytes each.
pub open spec fn checksums_at(layout: Layout) -> int {
    match layout {
        Layout::Vista => 40,
        Layout::Modern => 32,
    }
}

impl Layout {
    /// Selects the layout for a release family.
    pub fn of(version: WindowsVersion) -> (layout: Layout)
        ensures
            layout == layout_of(version),
    {
        match version {
            WindowsVersion::WinVista => Layout::Vista,
            _ => Layout::Modern,
        }
    }

    /// Offset of the three length fields.
    pub fn lengths_offset(self) -> (at: usize)
        ensures
            at == lengths_at(self),
    {
        match self {
            Layout::Vista => 24,
            Layout::Modern => 16,
        }
    }

    /// Offset of the two checksums.
    pub fn checksums_offset(self) -> (at: usize)
        ensures
            at == checksums_at(self),
    {
        match self {
            Layout::Vista => 40,
            Layout::Modern => 32,
        }
    }
}

/// What the fixed header of a record says.
#[derive(Clone, Debug, PartialEq, Eq)]
pub struct EntryHeader {
    pub size: u32,
    pub file_extension: Option<String>,
    pub identifier_len: u32,
    pub padding_len: u32,
    pub data_len: u32,
    pub data_checksum: u64,
    pub header_checksum: u64,
}

/// Mathematical model of an [`EntryHeader`].
pub struct EntryHeaderView {
    pub size: u32,
    pub file_extension: Option<Seq<char>>,
    pub identifier_len: u32,
    pub padding_len: u32,
    pub data_len: u32,
    pub data_checksum: u64,
    pub header_checksum: u64,
}

impl View for EntryHeader {
    type V = EntryHeaderView;

    open spec fn view(&self) -> EntryHeaderView {
        EntryHeaderView {
            size: self.size,
            file_extension: match self.file_extension {
                Some(s) => Some(s@),
                None => None,
            },
            identifier_len: self.identifier_len,
            padding_len: self.padding_len,
            data_len: self.data_len,
            data_checksum: self.data_checksum,
            header_checksum: self.header_checksum,
        }
    }
}

/// The fields that the 56 bytes of a record header hold under a layout.
pub open spec fn entry_header_of(header: Seq<u8>, layout: Layout) -> EntryHeaderView {
    EntryHeaderView {
        size: field_u32(header, 4),
        file_extension: match layout {
            Layout::Vista => Some(utf16_lossy(utf16_units(header.subrange(16, 24)))),
            Layout::Modern => None,
        },
        identifier_len: field_u32(header, lengths_at(layout)),
        padding_len: field_u32(header, lengths_at(layout) + 4),
        data_len: field_u32(header, lengths_at(layout) + 8),
        data_checksum: le_u64(header.subrange(checksums_at(layout), checksums_at(layout) + 8)),
        header_checksum: le_u64(
            header.subrange(checksums_at(layout) + 8, checksums_at(layout) + 16),
        ),
    }
}

/// Reads the fields of a record header under a layout.
pub fn parse_entry_header(header: &[u8], layout: Layout) -> (fields: EntryHeader)
    requires
        header@.len() == ENTRY_HEADER_LEN,
    ensures
        fields@ == entry_header_of(header@, layout),
{
    let lengths: usize = layout.lengths_offset();
    let checksums: usize = layout.checksums_offset();
    let file_extension: Option<String> = match layout {
        Layout::Vista => Some(decode_utf16_lossy(slice_subrange(header, 16, 24))),
        Layout::Modern => None,
    };
    EntryHeader {
        size: read_u32_at(header, 4),
        file_extension,
        identifier_len: read_u32_at(header, lengths),
        padding_len: read_u32_at(header, lengths + 4),
        data_len: read_u32_at(header, lengths + 8),
        data_checksum: read_u64_at(header, checksums),
        header_checksum: read_u64_at(header, checksums + 8),
    }
}

/// Whether a record is sound in itself: the size it declares covers its
/// header and its three sections, and its payload has the length declared.
pub open spec fn well_formed(entry: CacheEntryView) -> bool {
    &&& entry.size >= ENTRY_HEADER_LEN + entry.data_size + entry.identifier_string_size
        + entry.padding_size
    &&& entry.data.len() == entry.data_size
}

/// How one step of the scan ends.
pub enum StepKind {
    /// Fewer than 56 bytes were left: the list is over.
    EndOfBuffer,
    /// The record lacks the signature, or declares a size smaller than its
    /// own sections: the list is taken to end here.
    Corrupt,
    /// The identifier or the payload runs past the end of the buffer.
    ShortRead,
    /// A whole record.
    Record(CacheEntryView),
}

/// How one step of the scan ends, and where it leaves the cursor.
pub struct StepSpec {
    pub kind: StepKind,
    pub position: nat,
}

/// The step that the scan takes with the cursor at `position`.
///
/// The identifier follows the fixed header at once, then the padding, then
/// the payload; whatever the declared size holds beyond these is skipped.
pub open spec fn step_at(bytes: Seq<u8>, position: nat, layout: Layout) -> StepSpec {
    if remaining_at(bytes, position) < ENTRY_HEADER_LEN {
        StepSpec { kind: StepKind::EndOfBuffer, position: bytes.len() }
    } else {
        let header = bytes.subrange(position as int, position + ENTRY_HEADER_LEN);
        let identifier_start: nat = position + ENTRY_HEADER_LEN as nat;
        if !has_magic(header) {
            StepSpec { kind: StepKind::Corrupt, position: identifier_start }
        } else {
            let fields = entry_header_of(header, layout);
            if fields.identifier_len > remaining_at(bytes, identifier_start) {
                StepSpec { kind: StepKind::ShortRead, position: bytes.len() }
            } else {
                let padding_start: nat = identifier_start + fields.identifier_len as nat;
                let data_start = advance(bytes, padding_start, fields.padding_len as nat);
                if fields.data_len > remaining_at(bytes, data_start) {
                    StepSpec { kind: StepKind::ShortRead, position: bytes.len() }
                } else {
                    let data_end: nat = data_start + fields.data_len as nat;
                    let known = ENTRY_HEADER_LEN + fields.data_len + fields.identifier_len
                        + fields.padding_len;
                    if fields.size < known {
                        StepSpec { kind: StepKind::Corrupt, position: data_end }
                    } else {
                        StepSpec {
                            kind: StepKind::Record(
                                CacheEntryView {
                                    size: fields.size,
                                    file_extension: fields.file_extension,
                                    identifier_string_size: fields.identifier_len,
                                    padding_size: fields.padding_len,
                                    data_size: fields.data_len,
                                    data_checksum: fields.data_checksum,
                                    header_checksum: fields.header_checksum,
                                    identifier_string: utf16_lossy(
                                        utf16_units(
                                            bytes.subrange(
                                                identifier_start as int,
                                                padding_start as int,
                                            ),
                                        ),
                                    ),
                                    data: bytes.subrange(data_start as int, data_end as int),
                                },
                            ),
                            position: advance(bytes, data_end, (fields.size - known) as nat),
                        }
                    }
                }
            }
        }
    }
}

/// What one step of the scan found.
#[derive(Clone, Debug, PartialEq, Eq)]
pub enum Step {
    /// Fewer than 56 bytes were left: the list is over.
    EndOfBuffer,
    /// The record lacks the signature, or declares a size smaller than its
    /// own sections: the list is taken to end here.
    Corrupt,
    /// The identifier or the payload runs past the end of the buffer.
    ShortRead,
    /// A whole record.
    Record(CacheEntry),
}

impl View for Step {
    type V = StepKind;

    open spec fn view(&self) -> StepKind {
        match self {
            Step::EndOfBuffer => StepKind::EndOfBuffer,
            Step::Corrupt => StepKind::Corrupt,
            Step::ShortRead => StepKind::ShortRead,
            Step::Record(e) => StepKind::Record(e@),
        }
    }
}

/// Reads one record at the cursor.
///
/// The declared size of the record, not the sum of the sections that were
/// read, decides where the next record starts.
pub fn read_entry(cursor: &mut ByteCursor, layout: Layout) -> (step: Step)
    ensures
        final(cursor).bytes() == old(cursor).bytes(),
        step@ == step_at(old(cursor).bytes(), old(cursor).position(), layout).kind,
        final(cursor).position() == step_at(
            old(cursor).bytes(),
            old(cursor).position(),
            layout,
        ).position,
        final(cursor).position() <= old(cursor).bytes().len(),
        step is Record ==> well_formed(step->Record_0@) && final(cursor).position() >= old(
            cursor,
        ).position() + ENTRY_HEADER_LEN,
{
    let header: Vec<u8> = match cursor.read_exact(ENTRY_HEADER_LEN) {
        Some(header) => header,
        None => {
            return Step::EndOfBuffer;
        },
    };
    if !starts_with_magic(header.as_slice()) {
        return Step::Corrupt;
    }
    let fields: EntryHeader = parse_entry_header(header.as_slice(), layout);
    let identifier: Vec<u8> = match cursor.read_exact(fields.identifier_len as usize) {
        Some(identifier) => identifier,
        None => {
            return Step::ShortRead;
        },
    };
    cursor.skip(fields.padding_len as usize);
    let data: Vec<u8> = match cursor.read_exact(fields.data_len as usize) {
        Some(data) => data,
        None => {
            return Step::ShortRead;
        },
    };
    let known: u64 = ENTRY_HEADER_LEN as u64 + fields.data_len as u64 + fields.identifier_len as u64
        + fields.padding_len as u64;
    if (fields.size as u64) < known {
        return Step::Corrupt;
    }
    let trailing: u64 = fields.size as u64 - known;
    cursor.skip(trailing as usize);
    let identifier_string: String = decode_utf16_lossy(identifier.as_slice());
    Step::Record(
        CacheEntry {
            size: fields.size,
            file_extension: fields.file_extension,
            identifier_string_size: fields.identifier_len,
            padding_size: fields.padding_len,
            data_size: fields.data_len,
            data_checksum: fields.data_checksum,
            header_checksum: fields.header_checksum,
            identifier_string,
            data,
        },
    )
}

/// What a scan of the list gives: the records in file order, where the
/// cursor ends, and whether the scan ended on a read past the buffer.
pub struct ScanSpec {
    pub entries: Seq<CacheEntryView>,
    pub position: nat,
    pub short_read: bool,
}

/// The scan of the list from `position` on: it takes step after step and
/// collects the records until a step finds none.
pub open spec fn scan(bytes: Seq<u8>, position: nat, layout: Layout) -> ScanSpec
    decreases bytes.len() - position,
{
    let step = step_at(bytes, position, layout);
    match step.kind {
        StepKind::Record(entry) => {
            let rest = scan(bytes, step.position, layout);
            ScanSpec {
                entries: seq![entry] + rest.entries,
                position: rest.position,
                short_read: rest.short_read,
            }
        },
        StepKind::ShortRead => ScanSpec {
            entries: Seq::empty(),
            position: step.position,
            short_read: true,
        },
        _ => ScanSpec { entries: Seq::empty(), position: step.position, short_read: false },
    }
}

} // verus!
