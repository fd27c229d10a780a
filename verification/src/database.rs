//! The database: a buffer, the cursor that walks it, and what has been
//! decoded from it so far.

use vstd::prelude::*;
use vstd::utf8::{decode_utf8, valid_utf8};
use crate::codec::decode_utf8_text;
use crate::cursor::{advance, remaining_at, ByteCursor};
use crate::entry::{layout_of, read_entry, scan, Layout, Step};
use crate::header::{
    cache_type_of, file_header_of, magic, parse_file_header, resolve_cache_type, resolve_version,
    starts_with_magic, version_of, FileHeader, ENTRY_LIST_BASE, HEADER_LEN, SIGNATURE_LEN,
};
use crate::types::{
    entries_view, lemma_entries_view_push, CacheEntry, CacheEntryView, CacheType, IoFailure, ThumbsError, WindowsVersion,
};

verus! {

/// A thumbnail cache database held in memory.
///
/// The release family and the kind of cache stay `None` until `read` has
/// resolved them from the file header.
#[derive(Clone, Debug)]
pub struct Thumbscache {
    /// The buffer and the place in it where the next decode starts.
    pub stream: ByteCursor,
    /// The release family that wrote the file.
    pub windows_version: Option<WindowsVersion>,
    /// The records decoded so far, in file order.
    pub cache_entires: Vec<CacheEntry>,
    /// The kind of cache that the file stores.
    pub cache_type: Option<CacheType>,
}

/// Mathematical model of a [`Thumbscache`].
pub struct ThumbscacheView {
    pub bytes: Seq<u8>,
    pub position: nat,
    pub windows_version: Option<WindowsVersion>,
    pub cache_type: Option<CacheType>,
    pub entries: Seq<CacheEntryView>,
}

/// How a decode ends.
pub enum Outcome {
    /// The scan came to the end of the list, having added this many records.
    Decoded(nat),
    /// The file header, an identifier or a payload runs past the buffer.
    ShortRead,
    /// The signature of the file is text, but not `CMMM`.
    UnexpectedText(Seq<char>),
    /// The signature of the file is not text.
    NotText,
}

/// A decode: the database as it is left, and how the decode ended.
pub struct Decode {
    pub state: ThumbscacheView,
    pub outcome: Outcome,
}

/// The release family after a header with this revision was read: a
/// revision that is not known leaves it as it was.
pub open spec fn version_after(
    before: Option<WindowsVersion>,
    fields: FileHeader,
) -> Option<WindowsVersion> {
    match version_of(fields.format_revision) {
        Some(version) => Some(version),
        None => before,
    }
}

/// The kind of cache after a header with these fields was read: it changes
/// only where both the revision and the type code are known.
pub open spec fn cache_type_after(before: Option<CacheType>, fields: FileHeader) -> Option<
    CacheType,
> {
    match version_of(fields.format_revision) {
        Some(version) => match cache_type_of(version, fields.type_code) {
            Some(kind) => Some(kind),
            None => before,
        },
        None => before,
    }
}

/// Where the list of records starts: 24 bytes and the header's offset into
/// the buffer, or at its end if that lies beyond.
pub open spec fn entry_list_start(bytes: Seq<u8>, fields: FileHeader) -> nat {
    advance(bytes, 0, (ENTRY_LIST_BASE + fields.first_entry_offset) as nat)
}

/// The four bytes at the cursor, where the signature of the file belongs.
pub open spec fn signature_at(database: ThumbscacheView) -> Seq<u8> {
    database.bytes.subrange(database.position as int, database.position + SIGNATURE_LEN)
}

/// The 28 bytes behind the signature, where the fields of the file header
/// belong.
pub open spec fn header_fields_at(database: ThumbscacheView) -> Seq<u8> {
    database.bytes.subrange(
        database.position + SIGNATURE_LEN,
        database.position + HEADER_LEN,
    )
}

/// What decoding does to a database.
///
/// The file header is the 32 bytes at the cursor, and its first four bytes
/// are the signature. A signature that is no text fails, and so does one
/// that is text other than `CMMM`, which is handed back. A buffer too short
/// for the signature, or for the header behind a sound signature, is a
/// short read. Otherwise the header resolves the release family and the kind
/// of cache, and the records are scanned from the start of the list under
/// the family's layout. With no family resolved no record is read. The
/// records found are appended to those already held, also where the scan
/// ends on a short read.
pub open spec fn decode(before: ThumbscacheView) -> Decode {
    let after_signature: nat = before.position + SIGNATURE_LEN as nat;
    if remaining_at(before.bytes, before.position) < SIGNATURE_LEN {
        Decode {
            state: ThumbscacheView { position: before.bytes.len(), ..before },
            outcome: Outcome::ShortRead,
        }
    } else if !valid_utf8(signature_at(before)) {
        Decode {
            state: ThumbscacheView { position: after_signature, ..before },
            outcome: Outcome::NotText,
        }
    } else if signature_at(before) != magic() {
        Decode {
            state: ThumbscacheView { position: after_signature, ..before },
            outcome: Outcome::UnexpectedText(decode_utf8(signature_at(before))),
        }
    } else if remaining_at(before.bytes, before.position) < HEADER_LEN {
        Decode {
            state: ThumbscacheView { position: before.bytes.len(), ..before },
            outcome: Outcome::ShortRead,
        }
    } else {
        let fields = file_header_of(header_fields_at(before));
        let windows_version = version_after(before.windows_version, fields);
        let cache_type = cache_type_after(before.cache_type, fields);
        let start = entry_list_start(before.bytes, fields);
        match windows_version {
            None => Decode {
                state: ThumbscacheView { position: start, windows_version, cache_type, ..before },
                outcome: Outcome::Decoded(0),
            },
            Some(version) => {
                let found = scan(before.bytes, start, layout_of(version));
                Decode {
                    state: ThumbscacheView {
                        bytes: before.bytes,
                        position: found.position,
                        windows_version,
                        cache_type,
                        entries: before.entries + found.entries,
                    },
                    outcome: if found.short_read {
                        Outcome::ShortRead
                    } else {
                        Outcome::Decoded(found.entries.len())
                    },
                }
            },
        }
    }
}

/// A count as a 32-bit number: one too large for it counts as the largest.
pub open spec fn saturated(count: nat) -> u32 {
    if count <= u32::MAX {
        count as u32
    } else {
        u32::MAX
    }
}

/// Whether a result reports this outcome.
pub open spec fn reports(result: Result<u32, ThumbsError>, outcome: Outcome) -> bool {
    match outcome {
        Outcome::Decoded(added) => result == Ok::<u32, ThumbsError>(saturated(added)),
        Outcome::ShortRead => result == Err::<u32, ThumbsError>(
            ThumbsError::IoError(IoFailure::UnexpectedEof),
        ),
        Outcome::UnexpectedText(text) => match result {
            Err(ThumbsError::UnexpectedString(found)) => found@ == text,
            _ => false,
        },
        Outcome::NotText => result == Err::<u32, ThumbsError>(ThumbsError::InvalidCheckString),
    }
}

impl Thumbscache {
    /// A database over `bytes`, with nothing decoded yet.
    pub fn new(bytes: Vec<u8>) -> (database: Self)
        ensures
            database@ == (ThumbscacheView {
                bytes: bytes@,
                position: 0,
                windows_version: None,
                cache_type: None,
                entries: Seq::empty(),
            }),
    {
        let database = Thumbscache {
            stream: ByteCursor::new(bytes),
            windows_version: None,
            cache_entires: Vec::new(),
            cache_type: None,
        };
        assert(database@.entries =~= Seq::empty());
        database
    }

    /// Resolves the release family and the kind of cache from the file
    /// header, then reads the records and appends them to `cache_entires`.
    /// Returns the number of records added; a number beyond 32 bits is given
    /// as the largest that 32 bits hold.
    ///
    /// A record without the signature, or one that declares a size smaller
    /// than its own sections, ends the list without an error. A section that
    /// runs past the buffer is an error; the records read before it stay.
    pub fn read(&mut self) -> (result: Result<u32, ThumbsError>)
        ensures
            final(self)@ == decode(old(self)@).state,
            reports(result, decode(old(self)@).outcome),
            remaining_at(old(self)@.bytes, old(self)@.position) >= SIGNATURE_LEN && !valid_utf8(
                signature_at(old(self)@),
            ) ==> result == Err::<u32, ThumbsError>(ThumbsError::InvalidCheckString),
            remaining_at(old(self)@.bytes, old(self)@.position) >= SIGNATURE_LEN && valid_utf8(
                signature_at(old(self)@),
            ) && signature_at(old(self)@) != magic() ==> (match result {
                Err(ThumbsError::UnexpectedString(text)) => text@ == decode_utf8(
                    signature_at(old(self)@),
                ),
                _ => false,
            }),
    {
        let ghost before = self@;
        let signature: Vec<u8> = match self.stream.read_exact(SIGNATURE_LEN) {
            Some(signature) => signature,
            None => {
                return Err(ThumbsError::IoError(IoFailure::UnexpectedEof));
            },
        };
        let text: String = match decode_utf8_text(signature.as_slice()) {
            Some(text) => text,
            None => {
                return Err(ThumbsError::InvalidCheckString);
            },
        };
        assert(signature@.subrange(0, 4) =~= signature@);
        if !starts_with_magic(signature.as_slice()) {
            return Err(ThumbsError::UnexpectedString(text));
        }
        let header: Vec<u8> = match self.stream.read_exact(HEADER_LEN - SIGNATURE_LEN) {
            Some(header) => header,
            None => {
                return Err(ThumbsError::IoError(IoFailure::UnexpectedEof));
            },
        };
        let fields: FileHeader = parse_file_header(header.as_slice());
        if let Some(version) = resolve_version(fields.format_revision) {
            self.windows_version = Some(version);
            if let Some(kind) = resolve_cache_type(version, fields.type_code) {
                self.cache_type = Some(kind);
            }
        }
        self.stream.seek(ENTRY_LIST_BASE + fields.first_entry_offset as u64);
        let layout: Layout = match self.windows_version {
            Some(version) => Layout::of(version),
            None => {
                return Ok(0);
            },
        };
        let ghost start = self.stream.position();
        let ghost found = scan(before.bytes, start, layout);
        let ghost mut added: Seq<CacheEntryView> = Seq::empty();
        let mut added_entries: u32 = 0;
        loop
            invariant
                before == old(self)@,
                decode(before).state.bytes == before.bytes,
                decode(before).state.position == found.position,
                decode(before).state.entries == before.entries + found.entries,
                decode(before).outcome == (if found.short_read {
                    Outcome::ShortRead
                } else {
                    Outcome::Decoded(found.entries.len())
                }),
                self.stream.bytes() == before.bytes,
                self.windows_version == decode(before).state.windows_version,
                self.cache_type == decode(before).state.cache_type,
                entries_view(self.cache_entires@) == before.entries + added,
                found.entries == added + scan(before.bytes, self.stream.position(), layout).entries,
                found.position == scan(before.bytes, self.stream.position(), layout).position,
                found.short_read == scan(
                    before.bytes,
                    self.stream.position(),
                    layout,
                ).short_read,
                added_entries == saturated(added.len()),
                self.stream.position() <= before.bytes.len(),
            decreases before.bytes.len() - self.stream.position(),
        {
            let ghost held = self.cache_entires@;
            let step: Step = read_entry(&mut self.stream, layout);
            match step {
                Step::Record(entry) => {
                    proof {
                        let earlier = added;
                        added = earlier.push(entry@);
                        assert(found.entries =~= added + scan(
                            before.bytes,
                            self.stream.position(),
                            layout,
                        ).entries);
                        lemma_entries_view_push(held, entry);
                        assert((before.entries + earlier).push(entry@) =~= before.entries + added);
                    }
                    self.cache_entires.push(entry);
                    if added_entries < u32::MAX {
                        added_entries = added_entries + 1;
                    }
                },
                Step::ShortRead => {
                    proof {
                        assert(found.entries =~= added);
                    }
                    return Err(ThumbsError::IoError(IoFailure::UnexpectedEof));
                },
                _ => {
                    proof {
                        assert(found.entries =~= added);
                    }
                    return Ok(added_entries);
                },
            }
        }
    }
}

impl View for Thumbscache {
    type V = ThumbscacheView;

    open spec fn view(&self) -> ThumbscacheView {
        ThumbscacheView {
            bytes: self.stream.bytes(),
            position: self.stream.position(),
            windows_version: self.windows_version,
            cache_type: self.cache_type,
            entries: entries_view(self.cache_entires@),
        }
    }
}

} // verus!
