use thumbscache::codec::{
    clone_into_array, decode_utf16_lossy, decode_utf8_text, read_u32_at, read_u64_at, u16_from_le,
    u32_from_le, u64_from_le, utf16_units_of,
};
use thumbscache::cursor::ByteCursor;
use thumbscache::entry::{parse_entry_header, read_entry, Layout, Step};
use thumbscache::header::{
    parse_file_header, resolve_cache_type, resolve_version, starts_with_magic,
};
use thumbscache::{CacheType, IoFailure, ThumbsError, Thumbscache, WindowsVersion};

fn utf16_bytes(text: &str) -> Vec<u8> {
    let mut out = Vec::new();
    for unit in text.encode_utf16() {
        out.extend_from_slice(&unit.to_le_bytes());
    }
    out
}

/// The first 24 bytes of a file; with `first_entry_offset` 0 the list of
/// records starts right behind them.
fn file_header(magic: &[u8; 4], revision: u32, type_code: u32, first_entry_offset: u32) -> Vec<u8> {
    let mut out = Vec::new();
    out.extend_from_slice(magic);
    out.extend_from_slice(&revision.to_le_bytes());
    out.extend_from_slice(&type_code.to_le_bytes());
    out.extend_from_slice(&first_entry_offset.to_le_bytes());
    out.extend_from_slice(&0u32.to_le_bytes());
    out.extend_from_slice(&[0u8; 4]);
    out
}

fn modern_header(size: u32, id_len: u32, pad_len: u32, data_len: u32, sums: (u64, u64)) -> Vec<u8> {
    let mut out = Vec::new();
    out.extend_from_slice(b"CMMM");
    out.extend_from_slice(&size.to_le_bytes());
    out.extend_from_slice(&[0xEE; 8]);
    out.extend_from_slice(&id_len.to_le_bytes());
    out.extend_from_slice(&pad_len.to_le_bytes());
    out.extend_from_slice(&data_len.to_le_bytes());
    out.extend_from_slice(&[0xEE; 4]);
    out.extend_from_slice(&sums.0.to_le_bytes());
    out.extend_from_slice(&sums.1.to_le_bytes());
    out.extend_from_slice(&[0xEE; 8]);
    assert_eq!(out.len(), 56);
    out
}

fn vista_header(
    size: u32,
    extension: &str,
    id_len: u32,
    pad_len: u32,
    data_len: u32,
    sums: (u64, u64),
) -> Vec<u8> {
    let mut out = Vec::new();
    out.extend_from_slice(b"CMMM");
    out.extend_from_slice(&size.to_le_bytes());
    out.extend_from_slice(&[0xEE; 8]);
    let mut ext = utf16_bytes(extension);
    ext.resize(8, 0);
    out.extend_from_slice(&ext);
    out.extend_from_slice(&id_len.to_le_bytes());
    out.extend_from_slice(&pad_len.to_le_bytes());
    out.extend_from_slice(&data_len.to_le_bytes());
    out.extend_from_slice(&[0xEE; 4]);
    out.extend_from_slice(&sums.0.to_le_bytes());
    out.extend_from_slice(&sums.1.to_le_bytes());
    assert_eq!(out.len(), 56);
    out
}

/// A modern record whose declared size is the sum of its parts and of
/// `trailing` more bytes.
fn modern_entry(identifier: &str, padding: usize, data: &[u8], trailing: usize) -> Vec<u8> {
    let id = utf16_bytes(identifier);
    let size = 56 + id.len() + padding + data.len() + trailing;
    let mut out = modern_header(
        size as u32,
        id.len() as u32,
        padding as u32,
        data.len() as u32,
        (0x1122334455667788, 0x99AABBCCDDEEFF00),
    );
    out.extend_from_slice(&id);
    out.extend_from_slice(&vec![0xAA; padding]);
    out.extend_from_slice(data);
    out.extend_from_slice(&vec![0xBB; trailing]);
    out
}

fn database(parts: &[Vec<u8>]) -> Thumbscache {
    let mut bytes = Vec::new();
    for part in parts {
        bytes.extend_from_slice(part);
    }
    Thumbscache::new(bytes)
}

#[test]
fn new_database_has_nothing_decoded() {
    let db = Thumbscache::new(vec![1, 2, 3]);
    assert_eq!(db.windows_version, None);
    assert_eq!(db.cache_type, None);
    assert!(db.cache_entires.is_empty());
    assert_eq!(db.stream.offset(), 0);
    assert_eq!(db.stream.len(), 3);
}

#[test]
fn end_to_end_single_modern_entry() {
    let mut entry = modern_header(62, 2, 0, 4, (0, 0));
    entry.extend_from_slice(&[0x61, 0x00]);
    entry.extend_from_slice(&[1, 2, 3, 4]);
    let mut db = database(&[file_header(b"CMMM", 21, 0, 0), entry]);
    assert_eq!(db.read(), Ok(1));
    assert_eq!(db.cache_entires.len(), 1);
    assert_eq!(db.cache_entires[0].identifier_string, "a");
    assert_eq!(db.cache_entires[0].data, vec![1, 2, 3, 4]);
    assert_eq!(db.cache_entires[0].size, 62);
    assert_eq!(db.cache_entires[0].identifier_string_size, 2);
    assert_eq!(db.cache_entires[0].padding_size, 0);
    assert_eq!(db.cache_entires[0].data_size, 4);
    assert_eq!(db.cache_entires[0].file_extension, None);
    assert_eq!(db.windows_version, Some(WindowsVersion::Win7));
    assert_eq!(db.cache_type, Some(CacheType::Res32));
    assert_eq!(db.stream.offset(), 86);
}

#[test]
fn default_file_name_appends_bmp() {
    let mut db = database(&[file_header(b"CMMM", 21, 0, 0), modern_entry("0a1b2c", 0, &[1], 0)]);
    assert_eq!(db.read(), Ok(1));
    assert_eq!(db.cache_entires[0].default_file_name(), "./0a1b2c.bmp");
}

#[test]
fn unexpected_magic_carries_the_text_found() {
    let mut db = database(&[file_header(b"IMMM", 21, 0, 0), vec![0; 8]]);
    assert_eq!(db.read(), Err(ThumbsError::UnexpectedString(String::from("IMMM"))));
    assert!(db.cache_entires.is_empty());
    assert_eq!(db.windows_version, None);
    assert_eq!(db.cache_type, None);
}

#[test]
fn unexpected_magic_of_zero_bytes_is_text() {
    let mut db = Thumbscache::new(vec![0u8; 32]);
    assert_eq!(db.read(), Err(ThumbsError::UnexpectedString(String::from("\0\0\0\0"))));
}

#[test]
fn magic_that_is_not_text_is_rejected() {
    let mut db = database(&[file_header(&[0xFF, 0xFE, 0x43, 0x4D], 21, 0, 0), vec![0; 8]]);
    assert_eq!(db.read(), Err(ThumbsError::InvalidCheckString));
    assert!(db.cache_entires.is_empty());
}

#[test]
fn truncated_multibyte_magic_is_not_text() {
    let mut db = database(&[file_header(&[0x43, 0x4D, 0x4D, 0xC3], 21, 0, 0), vec![0; 8]]);
    assert_eq!(db.read(), Err(ThumbsError::InvalidCheckString));
}

#[test]
fn short_file_header_is_a_short_read() {
    let mut db = database(&[file_header(b"CMMM", 21, 0, 0)]);
    assert_eq!(db.read(), Err(ThumbsError::IoError(IoFailure::UnexpectedEof)));
    assert_eq!(db.stream.offset(), 24);
    let mut empty = Thumbscache::new(Vec::new());
    assert_eq!(empty.read(), Err(ThumbsError::IoError(IoFailure::UnexpectedEof)));
}

#[test]
fn signature_is_judged_before_the_rest_of_the_header() {
    let mut text = Thumbscache::new(b"ABCD".to_vec());
    assert_eq!(text.read(), Err(ThumbsError::UnexpectedString(String::from("ABCD"))));
    assert_eq!(text.stream.offset(), 4);
    let mut wide = Thumbscache::new("é€x".as_bytes()[..4].to_vec());
    assert_eq!(wide.read(), Err(ThumbsError::InvalidCheckString));
    let mut two_letters = Thumbscache::new("éé and more".as_bytes().to_vec());
    assert_eq!(two_letters.read(), Err(ThumbsError::UnexpectedString(String::from("éé"))));
    let mut no_text = Thumbscache::new(vec![0xFF, 0xFF, 0xFF, 0xFF, 0]);
    assert_eq!(no_text.read(), Err(ThumbsError::InvalidCheckString));
    let mut three = Thumbscache::new(b"CMM".to_vec());
    assert_eq!(three.read(), Err(ThumbsError::IoError(IoFailure::UnexpectedEof)));
    assert_eq!(three.stream.offset(), 3);
    let mut bare = Thumbscache::new(b"CMMM".to_vec());
    assert_eq!(bare.read(), Err(ThumbsError::IoError(IoFailure::UnexpectedEof)));
    assert_eq!(bare.stream.offset(), 4);
}

#[test]
fn decoded_entries_are_sound_in_themselves() {
    let mut db = database(&[
        file_header(b"CMMM", 32, 0, 0),
        modern_entry("first", 6, &[1, 2, 3], 10),
        modern_entry("second", 0, &[], 0),
        modern_entry("third", 1, &[4; 40], 5),
    ]);
    assert_eq!(db.read(), Ok(3));
    for entry in &db.cache_entires {
        let known = 56
            + entry.data_size as u64
            + entry.identifier_string_size as u64
            + entry.padding_size as u64;
        assert!(entry.size as u64 >= known);
        assert_eq!(entry.data.len(), entry.data_size as usize);
    }
}

#[test]
fn revision_32_code_4_is_win10_res256() {
    let mut db = database(&[file_header(b"CMMM", 32, 4, 8), vec![0; 8]]);
    assert_eq!(db.read(), Ok(0));
    assert_eq!(db.windows_version, Some(WindowsVersion::Win10));
    assert_eq!(db.cache_type, Some(CacheType::Res256));
    assert_eq!(resolve_version(32), Some(WindowsVersion::Win10));
    assert_eq!(resolve_cache_type(WindowsVersion::Win10, 4), Some(CacheType::Res256));
}

#[test]
fn version_table() {
    assert_eq!(resolve_version(20), Some(WindowsVersion::WinVista));
    assert_eq!(resolve_version(21), Some(WindowsVersion::Win7));
    assert_eq!(resolve_version(30), Some(WindowsVersion::Win8));
    assert_eq!(resolve_version(31), Some(WindowsVersion::Win81));
    assert_eq!(resolve_version(32), Some(WindowsVersion::Win10));
    assert_eq!(resolve_version(0), None);
    assert_eq!(resolve_version(22), None);
    assert_eq!(resolve_version(33), None);
    assert_eq!(resolve_version(u32::MAX), None);
}

#[test]
fn cache_type_table() {
    let old = [
        CacheType::Res32,
        CacheType::Res96,
        CacheType::Res256,
        CacheType::Res1024,
        CacheType::SR,
    ];
    let win8 = [
        CacheType::Res16,
        CacheType::Res32,
        CacheType::Res48,
        CacheType::Res96,
        CacheType::Res256,
        CacheType::Res1024,
        CacheType::SR,
        CacheType::Wide,
        CacheType::EXIF,
    ];
    let win81 = [
        CacheType::Res16,
        CacheType::Res32,
        CacheType::Res48,
        CacheType::Res96,
        CacheType::Res256,
        CacheType::Res1024,
        CacheType::Res1600,
        CacheType::SR,
        CacheType::Wide,
        CacheType::EXIF,
        CacheType::WideAlternate,
    ];
    let win10 = [
        CacheType::Res16,
        CacheType::Res32,
        CacheType::Res48,
        CacheType::Res96,
        CacheType::Res256,
        CacheType::Res768,
        CacheType::Res1280,
        CacheType::Res1920,
        CacheType::Res2560,
        CacheType::SR,
        CacheType::Wide,
        CacheType::EXIF,
        CacheType::WideAlternate,
        CacheType::CustomStream,
    ];
    let tables: [(WindowsVersion, &[CacheType]); 5] = [
        (WindowsVersion::WinVista, &old),
        (WindowsVersion::Win7, &old),
        (WindowsVersion::Win8, &win8),
        (WindowsVersion::Win81, &win81),
        (WindowsVersion::Win10, &win10),
    ];
    for (version, kinds) in tables {
        for (code, kind) in kinds.iter().enumerate() {
            assert_eq!(resolve_cache_type(version, code as u32), Some(*kind));
        }
        assert_eq!(resolve_cache_type(version, kinds.len() as u32), None);
        assert_eq!(resolve_cache_type(version, u32::MAX), None);
    }
}

#[test]
fn unknown_revision_reads_no_entry() {
    let mut db = database(&[file_header(b"CMMM", 99, 0, 0), modern_entry("a", 0, &[1], 0)]);
    assert_eq!(db.read(), Ok(0));
    assert_eq!(db.windows_version, None);
    assert_eq!(db.cache_type, None);
    assert!(db.cache_entires.is_empty());
    assert_eq!(db.stream.offset(), 24);
}

#[test]
fn unknown_type_code_is_no_error() {
    let mut db = database(&[file_header(b"CMMM", 21, 5, 0), modern_entry("a", 0, &[1], 0)]);
    assert_eq!(db.read(), Ok(1));
    assert_eq!(db.windows_version, Some(WindowsVersion::Win7));
    assert_eq!(db.cache_type, None);
}

#[test]
fn back_to_back_entries_come_out_in_file_order() {
    for revision in [21u32, 30, 31, 32] {
        let payloads: Vec<Vec<u8>> = (0u8..7).map(|i| vec![i; 3 * i as usize]).collect();
        let mut parts = vec![file_header(b"CMMM", revision, 1, 0)];
        for (i, payload) in payloads.iter().enumerate() {
            parts.push(modern_entry(&format!("id{}", i), 0, payload, 0));
        }
        let mut db = database(&parts);
        assert_eq!(db.read(), Ok(7));
        assert_eq!(db.cache_entires.len(), 7);
        for (i, payload) in payloads.iter().enumerate() {
            assert_eq!(&db.cache_entires[i].data, payload);
            assert_eq!(db.cache_entires[i].data_size as usize, payload.len());
            assert_eq!(db.cache_entires[i].identifier_string, format!("id{}", i));
            assert_eq!(db.cache_entires[i].data_checksum, 0x1122334455667788);
            assert_eq!(db.cache_entires[i].header_checksum, 0x99AABBCCDDEEFF00);
            assert_eq!(db.cache_entires[i].file_extension, None);
        }
        assert_eq!(db.stream.offset(), db.stream.len());
    }
}

#[test]
fn no_entries_after_the_header() {
    let mut db = database(&[file_header(b"CMMM", 30, 7, 8), vec![0; 8]]);
    assert_eq!(db.read(), Ok(0));
    assert_eq!(db.cache_type, Some(CacheType::Wide));
    assert!(db.cache_entires.is_empty());
}

#[test]
fn first_entry_offset_is_counted_from_24() {
    let mut db = database(&[
        file_header(b"CMMM", 31, 6, 8),
        vec![0x55; 8],
        modern_entry("k", 0, &[9, 8], 0),
    ]);
    assert_eq!(db.read(), Ok(1));
    assert_eq!(db.cache_type, Some(CacheType::Res1600));
    assert_eq!(db.cache_entires[0].data, vec![9, 8]);
}

#[test]
fn first_entry_offset_beyond_the_buffer_ends_the_list() {
    let mut db = database(&[file_header(b"CMMM", 21, 0, u32::MAX), vec![0; 8]]);
    assert_eq!(db.read(), Ok(0));
    assert_eq!(db.stream.offset(), 32);
}

#[test]
fn padding_and_trailing_bytes_are_skipped() {
    let mut db = database(&[
        file_header(b"CMMM", 32, 13, 0),
        modern_entry("first", 6, &[1, 2, 3], 10),
        modern_entry("second", 2, &[4, 5], 0),
    ]);
    assert_eq!(db.read(), Ok(2));
    assert_eq!(db.cache_type, Some(CacheType::CustomStream));
    assert_eq!(db.cache_entires[0].identifier_string, "first");
    assert_eq!(db.cache_entires[0].data, vec![1, 2, 3]);
    assert_eq!(db.cache_entires[0].padding_size, 6);
    assert_eq!(db.cache_entires[0].size, 56 + 10 + 6 + 3 + 10);
    assert_eq!(db.cache_entires[1].identifier_string, "second");
    assert_eq!(db.cache_entires[1].data, vec![4, 5]);
}

#[test]
fn decoding_twice_gives_equal_lists() {
    let parts = [
        file_header(b"CMMM", 21, 2, 0),
        modern_entry("x", 4, &[7; 9], 3),
        modern_entry("y", 0, &[], 0),
        vec![0; 60],
    ];
    let mut first = database(&parts);
    let mut second = database(&parts);
    assert_eq!(first.read(), Ok(2));
    assert_eq!(second.read(), Ok(2));
    assert_eq!(first.cache_entires, second.cache_entires);
    assert_eq!(first.windows_version, second.windows_version);
    assert_eq!(first.cache_type, second.cache_type);
}

#[test]
fn second_read_starts_where_the_first_ended() {
    let mut db = database(&[file_header(b"CMMM", 21, 0, 0), modern_entry("a", 0, &[1], 0)]);
    assert_eq!(db.read(), Ok(1));
    assert_eq!(db.read(), Err(ThumbsError::IoError(IoFailure::UnexpectedEof)));
    assert_eq!(db.cache_entires.len(), 1);
    assert_eq!(db.windows_version, Some(WindowsVersion::Win7));
}

#[test]
fn corrupt_entry_magic_ends_the_list() {
    let mut bad = modern_entry("bad", 0, &[1, 2], 0);
    bad[1] = b'X';
    let mut db = database(&[
        file_header(b"CMMM", 21, 0, 0),
        modern_entry("one", 0, &[1], 0),
        modern_entry("two", 0, &[2], 0),
        bad,
        modern_entry("three", 0, &[3], 0),
    ]);
    assert_eq!(db.read(), Ok(2));
    assert_eq!(db.cache_entires.len(), 2);
    assert_eq!(db.cache_entires[0].identifier_string, "one");
    assert_eq!(db.cache_entires[1].identifier_string, "two");
}

#[test]
fn entry_magic_that_is_not_text_ends_the_list() {
    let mut bad = modern_entry("bad", 0, &[1, 2], 0);
    bad[0] = 0xFF;
    let mut db = database(&[file_header(b"CMMM", 21, 0, 0), modern_entry("one", 0, &[1], 0), bad]);
    assert_eq!(db.read(), Ok(1));
    assert_eq!(db.cache_entires.len(), 1);
}

#[test]
fn undersized_entry_ends_the_list() {
    let mut bad = modern_header(61, 2, 0, 4, (0, 0));
    bad.extend_from_slice(&[0x61, 0x00, 1, 2, 3, 4]);
    let mut db = database(&[
        file_header(b"CMMM", 21, 0, 0),
        modern_entry("one", 0, &[1], 0),
        bad,
        modern_entry("three", 0, &[3], 0),
    ]);
    assert_eq!(db.read(), Ok(1));
    assert_eq!(db.cache_entires.len(), 1);
    assert_eq!(db.cache_entires[0].identifier_string, "one");
}

#[test]
fn entry_of_size_zero_ends_the_list() {
    let mut db = database(&[
        file_header(b"CMMM", 32, 0, 0),
        modern_header(0, 0, 0, 0, (0, 0)),
        modern_entry("after", 0, &[3], 0),
    ]);
    assert_eq!(db.read(), Ok(0));
    assert!(db.cache_entires.is_empty());
}

#[test]
fn lengths_that_overflow_32_bits_end_the_list() {
    let mut bad = modern_header(100, 0, u32::MAX, 0, (0, 0));
    bad.extend_from_slice(&[0; 100]);
    let mut db = database(&[file_header(b"CMMM", 21, 0, 0), modern_entry("one", 0, &[1], 0), bad]);
    assert_eq!(db.read(), Ok(1));
    assert_eq!(db.cache_entires.len(), 1);
}

#[test]
fn short_payload_is_an_error_and_keeps_earlier_entries() {
    let mut cut = modern_entry("cut", 0, &[1, 2, 3, 4], 0);
    cut.truncate(56 + 6 + 2);
    let mut db = database(&[file_header(b"CMMM", 21, 0, 0), modern_entry("one", 0, &[1], 0), cut]);
    assert_eq!(db.read(), Err(ThumbsError::IoError(IoFailure::UnexpectedEof)));
    assert_eq!(db.cache_entires.len(), 1);
    assert_eq!(db.cache_entires[0].identifier_string, "one");
    assert_eq!(db.stream.offset(), db.stream.len());
}

#[test]
fn short_identifier_is_an_error() {
    let mut cut = modern_entry("identifier", 0, &[], 0);
    cut.truncate(56 + 5);
    let mut db = database(&[file_header(b"CMMM", 30, 0, 0), cut]);
    assert_eq!(db.read(), Err(ThumbsError::IoError(IoFailure::UnexpectedEof)));
    assert!(db.cache_entires.is_empty());
}

#[test]
fn fewer_than_56_bytes_left_end_the_list() {
    let mut db = database(&[
        file_header(b"CMMM", 21, 0, 0),
        modern_entry("one", 0, &[1], 0),
        b"CMMM".to_vec(),
        vec![0; 51],
    ]);
    assert_eq!(db.read(), Ok(1));
    assert_eq!(db.stream.offset(), db.stream.len());
}

#[test]
fn vista_entry_carries_an_extension() {
    let id = utf16_bytes("cafe");
    let mut first = vista_header(56 + 8 + 4 + 3, ".jpg", 8, 4, 3, (5, 6));
    first.extend_from_slice(&id);
    first.extend_from_slice(&[0xAA; 4]);
    first.extend_from_slice(&[10, 20, 30]);
    let mut second = vista_header(56 + 2 + 1, "bmp", 2, 0, 1, (7, 8));
    second.extend_from_slice(&utf16_bytes("z"));
    second.push(99);
    let mut db = database(&[file_header(b"CMMM", 20, 3, 0), first, second]);
    assert_eq!(db.read(), Ok(2));
    assert_eq!(db.windows_version, Some(WindowsVersion::WinVista));
    assert_eq!(db.cache_type, Some(CacheType::Res1024));
    assert_eq!(db.cache_entires[0].file_extension, Some(String::from(".jpg")));
    assert_eq!(db.cache_entires[0].identifier_string, "cafe");
    assert_eq!(db.cache_entires[0].data, vec![10, 20, 30]);
    assert_eq!(db.cache_entires[0].data_checksum, 5);
    assert_eq!(db.cache_entires[0].header_checksum, 6);
    assert_eq!(db.cache_entires[1].file_extension, Some(String::from("bmp\0")));
    assert_eq!(db.cache_entires[1].identifier_string, "z");
    assert_eq!(db.cache_entires[1].data, vec![99]);
}

#[test]
fn entry_header_fields_by_layout() {
    let modern = modern_header(1000, 10, 20, 30, (0x0102030405060708, 0x1112131415161718));
    let fields = parse_entry_header(&modern, Layout::Modern);
    assert_eq!(fields.size, 1000);
    assert_eq!(fields.file_extension, None);
    assert_eq!(fields.identifier_len, 10);
    assert_eq!(fields.padding_len, 20);
    assert_eq!(fields.data_len, 30);
    assert_eq!(fields.data_checksum, 0x0102030405060708);
    assert_eq!(fields.header_checksum, 0x1112131415161718);
    let vista = vista_header(2000, ".png", 11, 21, 31, (0x2122232425262728, 0x3132333435363738));
    let fields = parse_entry_header(&vista, Layout::Vista);
    assert_eq!(fields.size, 2000);
    assert_eq!(fields.file_extension, Some(String::from(".png")));
    assert_eq!(fields.identifier_len, 11);
    assert_eq!(fields.padding_len, 21);
    assert_eq!(fields.data_len, 31);
    assert_eq!(fields.data_checksum, 0x2122232425262728);
    assert_eq!(fields.header_checksum, 0x3132333435363738);
}

#[test]
fn layout_of_each_version() {
    assert_eq!(Layout::of(WindowsVersion::WinVista), Layout::Vista);
    assert_eq!(Layout::of(WindowsVersion::Win7), Layout::Modern);
    assert_eq!(Layout::of(WindowsVersion::Win8), Layout::Modern);
    assert_eq!(Layout::of(WindowsVersion::Win81), Layout::Modern);
    assert_eq!(Layout::of(WindowsVersion::Win10), Layout::Modern);
    assert_eq!(Layout::Vista.lengths_offset(), 24);
    assert_eq!(Layout::Modern.lengths_offset(), 16);
    assert_eq!(Layout::Vista.checksums_offset(), 40);
    assert_eq!(Layout::Modern.checksums_offset(), 32);
}

#[test]
fn read_entry_steps() {
    let mut bytes = modern_entry("q", 1, &[5, 6], 2);
    bytes.extend_from_slice(&[0; 10]);
    let mut cursor = ByteCursor::new(bytes);
    match read_entry(&mut cursor, Layout::Modern) {
        Step::Record(entry) => {
            assert_eq!(entry.identifier_string, "q");
            assert_eq!(entry.data, vec![5, 6]);
            assert_eq!(entry.size, 63);
        },
        other => panic!("{:?}", other),
    }
    assert_eq!(cursor.offset(), 63);
    assert_eq!(read_entry(&mut cursor, Layout::Modern), Step::EndOfBuffer);
    assert_eq!(cursor.offset(), 73);
    let mut garbage = ByteCursor::new(vec![0; 60]);
    assert_eq!(read_entry(&mut garbage, Layout::Modern), Step::Corrupt);
    assert_eq!(garbage.offset(), 56);
    let mut short = ByteCursor::new(modern_header(70, 4, 0, 10, (0, 0)));
    assert_eq!(read_entry(&mut short, Layout::Modern), Step::ShortRead);
    assert_eq!(short.offset(), 56);
}

#[test]
fn file_header_fields() {
    let mut header = file_header(b"CMMM", 0x01020304, 0x0A0B0C0D, 0xF0E0D0C0);
    header.extend_from_slice(&[0; 8]);
    let fields = parse_file_header(&header[4..]);
    assert_eq!(fields.format_revision, 0x01020304);
    assert_eq!(fields.type_code, 0x0A0B0C0D);
    assert_eq!(fields.first_entry_offset, 0xF0E0D0C0);
    assert!(starts_with_magic(&header));
    assert!(!starts_with_magic(b"CMM"));
    assert!(!starts_with_magic(b"CMMX and more"));
    assert!(starts_with_magic(b"CMMM"));
}

#[test]
fn little_endian_integers() {
    assert_eq!(u16_from_le([0x34, 0x12]), 0x1234);
    assert_eq!(u32_from_le([0x78, 0x56, 0x34, 0x12]), 0x12345678);
    assert_eq!(u32_from_le([0xFF; 4]), u32::MAX);
    assert_eq!(u64_from_le([8, 7, 6, 5, 4, 3, 2, 1]), 0x0102030405060708);
    assert_eq!(u64_from_le([0xFF; 8]), u64::MAX);
    assert_eq!(read_u32_at(&[9, 1, 0, 0, 0, 9], 1), 1);
    assert_eq!(read_u64_at(&[9, 0, 1, 0, 0, 0, 0, 0, 0], 1), 256);
}

#[test]
fn clone_into_array_copies_the_slice() {
    let a: [u8; 4] = clone_into_array(&[1, 2, 3, 4]);
    assert_eq!(a, [1, 2, 3, 4]);
    let b: [u8; 0] = clone_into_array(&[]);
    assert_eq!(b, []);
}

#[test]
fn utf16_text() {
    assert_eq!(utf16_units_of(&[0x61, 0x00, 0x3D, 0xD8, 0x7F]), vec![0x0061, 0xD83D]);
    assert_eq!(utf16_units_of(&[]), Vec::<u16>::new());
    assert_eq!(decode_utf16_lossy(&utf16_bytes("héllo")), "héllo");
    assert_eq!(decode_utf16_lossy(&utf16_bytes("\u{1F600}")), "\u{1F600}");
    assert_eq!(decode_utf16_lossy(&[0x61, 0x00, 0x3D, 0xD8, 0x62, 0x00]), "a\u{FFFD}b");
    assert_eq!(decode_utf16_lossy(&[0x61, 0x00, 0x62]), "a");
    assert_eq!(decode_utf16_lossy(&[]), "");
}

#[test]
fn utf8_text() {
    assert_eq!(decode_utf8_text(b"CMMM"), Some(String::from("CMMM")));
    assert_eq!(decode_utf8_text("é€".as_bytes()), Some(String::from("é€")));
    assert_eq!(decode_utf8_text(&[0xC0, 0x80]), None);
    assert_eq!(decode_utf8_text(&[0xED, 0xA0, 0x80]), None);
    assert_eq!(decode_utf8_text(&[]), Some(String::new()));
}

#[test]
fn cursor_reads_and_skips() {
    let mut cursor = ByteCursor::new(vec![1, 2, 3, 4, 5]);
    assert_eq!(cursor.len(), 5);
    assert_eq!(cursor.remaining(), 5);
    assert_eq!(cursor.read_exact(2), Some(vec![1, 2]));
    assert_eq!(cursor.offset(), 2);
    assert_eq!(cursor.read_exact(0), Some(vec![]));
    cursor.skip(1);
    assert_eq!(cursor.remaining(), 2);
    assert_eq!(cursor.read_exact(3), None);
    assert_eq!(cursor.offset(), 5);
    assert_eq!(cursor.read_exact(0), Some(vec![]));
    cursor.seek(1);
    assert_eq!(cursor.read_exact(4), Some(vec![2, 3, 4, 5]));
    cursor.seek(0);
    cursor.skip(usize::MAX);
    assert_eq!(cursor.offset(), 5);
    cursor.seek(u64::MAX);
    assert_eq!(cursor.offset(), 5);
    cursor.seek(3);
    let copy = cursor.clone();
    assert_eq!(copy.offset(), 3);
    assert_eq!(copy.len(), 5);
}
