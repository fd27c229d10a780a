//! The data that a decoded database is made of.

use vstd::prelude::*;
use vstd::string::StringExecFns;

verus! {

/// The Windows release family that wrote a thumbnail cache.
///
/// `Win10` also stands for Windows 11, which kept the format.
#[derive(Clone, Copy, Debug, PartialEq, Eq, Structural)]
pub enum WindowsVersion {
    WinVista,
    Win7,
    Win8,
    Win81,
    Win10,
}

/// What a cache file stores: thumbnails of one resolution, or one of the
/// special categories.
#[derive(Clone, Copy, Debug, PartialEq, Eq, Structural)]
pub enum CacheType {
    Res16,
    Res32,
    Res48,
    Res96,
    Res256,
    Res768,
    Res1024,
    Res1280,
    Res1600,
    Res1920,
    Res2560,
    SR,
    Wide,
    EXIF,
    WideAlternate,
    CustomStream,
}

/// Why a read or a write could not be completed.
#[derive(Clone, Copy, Debug, PartialEq, Eq, Structural)]
pub enum IoFailure {
    /// The buffer ended before the bytes that a field declares.
    UnexpectedEof,
    /// The destination could not be opened.
    InvalidInput,
    /// The payload could not be written out.
    InvalidData,
    /// Any other failure of the underlying medium.
    Other,
}

/// The ways in which opening or decoding a database fails.
#[derive(Clone, Debug, PartialEq, Eq)]
pub enum ThumbsError {
    /// The file could not be opened for reading.
    InvalidFile,
    /// The signature is text, but not `CMMM`; the text found is carried along.
    UnexpectedString(String),
    /// The signature is not text at all.
    InvalidCheckString,
    /// A read ran past the end of the buffer, or a write failed.
    IoError(IoFailure),
}

/// One cached thumbnail: its metadata and the image payload as stored.
#[derive(Clone, Debug, PartialEq, Eq)]
pub struct CacheEntry {
    /// Length of the whole record as the file declares it.
    pub size: u32,
    /// The file extension, which only the Vista layout stores.
    pub file_extension: Option<String>,
    /// Length in bytes of the identifier section.
    pub identifier_string_size: u32,
    /// Length in bytes of the alignment filler.
    pub padding_size: u32,
    /// Length in bytes of the payload.
    pub data_size: u32,
    /// Checksum of the payload as stored; not verified.
    pub data_checksum: u64,
    /// Checksum of the record header as stored; not verified.
    pub header_checksum: u64,
    /// The cache key of the thumbnail, decoded from UTF-16.
    pub identifier_string: String,
    /// The image payload, byte for byte.
    pub data: Vec<u8>,
}

/// Mathematical model of a [`CacheEntry`].
pub struct CacheEntryView {
    pub size: u32,
    pub file_extension: Option<Seq<char>>,
    pub identifier_string_size: u32,
    pub padding_size: u32,
    pub data_size: u32,
    pub data_checksum: u64,
    pub header_checksum: u64,
    pub identifier_string: Seq<char>,
    pub data: Seq<u8>,
}

impl View for CacheEntry {
    type V = CacheEntryView;

    open spec fn view(&self) -> CacheEntryView {
        CacheEntryView {
            size: self.size,
            file_extension: match self.file_extension {
                Some(s) => Some(s@),
                None => None,
            },
            identifier_string_size: self.identifier_string_size,
            padding_size: self.padding_size,
            data_size: self.data_size,
            data_checksum: self.data_checksum,
            header_checksum: self.header_checksum,
            identifier_string: self.identifier_string@,
            data: self.data@,
        }
    }
}

impl CacheEntry {
    /// The name of the file that the payload is written to where no
    /// destination is given: the identifier, in the current directory, with
    /// `.bmp` behind it whatever the payload holds.
    pub fn default_file_name(&self) -> (name: String)
        ensures
            name@ == "./"@ + self.identifier_string@ + ".bmp"@,
    {
        let mut name: String = "./".to_owned();
        name.append(self.identifier_string.as_str());
        name.append(".bmp");
        name
    }
}

/// The models of a list of entries, in the list's order.
pub open spec fn entries_view(entries: Seq<CacheEntry>) -> Seq<CacheEntryView> {
    Seq::new(entries.len(), |i: int| entries[i]@)
}

/// The model of a list with one entry more is the model of the list with
/// the model of that entry more.
pub proof fn lemma_entries_view_push(entries: Seq<CacheEntry>, entry: CacheEntry)
    ensures
        entries_view(entries.push(entry)) == entries_view(entries).push(entry@),
{
    let longer = entries.push(entry);
    assert forall|i: int| 0 <= i < longer.len() implies #[trigger] entries_view(longer)[i]
        == entries_view(entries).push(entry@)[i] by {
        if i < entries.len() {
            assert(longer[i] == entries[i]);
        } else {
            assert(longer[i] == entry);
        }
    }
    assert(entries_view(longer) =~= entries_view(entries).push(entry@));
}

} // verus!
