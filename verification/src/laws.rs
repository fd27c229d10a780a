//! What holds of every decode, stated over the model of the database.

use vstd::prelude::*;
use vstd::utf8::{
    decode_utf8, decode_utf8_encode_utf8, encode_utf8, encode_utf8_decode_utf8,
    encode_utf8_valid_utf8, is_ascii_chars, is_ascii_chars_encode_utf8, valid_utf8,
};
use crate::cursor::{advance, remaining_at};
use crate::database::{
    decode, entry_list_start, header_fields_at, reports, signature_at, Outcome, ThumbscacheView,
};
use crate::entry::{
    entry_header_of, layout_of, scan, step_at, well_formed, Layout, StepKind, ENTRY_HEADER_LEN,
};
use crate::header::{field_u32, file_header_of, has_magic, magic, version_of, HEADER_LEN};
use crate::types::{CacheEntryView, ThumbsError, WindowsVersion};

verus! {

/// The signature is well-formed text: the four letters `CMMM`.
pub proof fn lemma_magic_is_text()
    ensures
        valid_utf8(magic()),
        decode_utf8(magic()) == seq!['C', 'M', 'M', 'M'],
{
    let letters = seq!['C', 'M', 'M', 'M'];
    assert(is_ascii_chars(letters));
    is_ascii_chars_encode_utf8(letters);
    assert(letters[0] as u8 == 0x43u8 && letters[1] as u8 == 0x4Du8);
    assert(letters[2] as u8 == 0x4Du8 && letters[3] as u8 == 0x4Du8);
    assert(encode_utf8(letters) =~= magic());
    encode_utf8_valid_utf8(letters);
    encode_utf8_decode_utf8(letters);
}

/// Bytes are the text `CMMM` exactly if they are the four bytes of the
/// signature, so that comparing bytes with the signature is comparing the
/// text they hold with `CMMM`.
pub proof fn lemma_text_is_magic_iff_bytes_are(bytes: Seq<u8>)
    ensures
        (valid_utf8(bytes) && decode_utf8(bytes) == seq!['C', 'M', 'M', 'M']) <==> bytes == magic(),
{
    lemma_magic_is_text();
    if valid_utf8(bytes) && decode_utf8(bytes) == seq!['C', 'M', 'M', 'M'] {
        decode_utf8_encode_utf8(bytes);
        decode_utf8_encode_utf8(magic());
    }
}

/// Whether the file header at the cursor carries the signature and the
/// revision of this release family.
pub open spec fn resolves_to(before: ThumbscacheView, version: WindowsVersion) -> bool {
    &&& remaining_at(before.bytes, before.position) >= HEADER_LEN
    &&& signature_at(before) == magic()
    &&& version_of(file_header_of(header_fields_at(before)).format_revision) == Some(version)
}

/// Where the file header at the cursor says that the list of records starts.
pub open spec fn list_start(before: ThumbscacheView) -> nat {
    entry_list_start(before.bytes, file_header_of(header_fields_at(before)))
}

/// Under a header with the signature and a known revision, a decode is the
/// scan of the list under the layout of that release family.
pub proof fn lemma_decode_scans(before: ThumbscacheView, version: WindowsVersion)
    requires
        resolves_to(before, version),
    ensures
        decode(before).state.windows_version == Some(version),
        decode(before).state.entries == before.entries + scan(
            before.bytes,
            list_start(before),
            layout_of(version),
        ).entries,
        decode(before).outcome == (if scan(
            before.bytes,
            list_start(before),
            layout_of(version),
        ).short_read {
            Outcome::ShortRead
        } else {
            Outcome::Decoded(
                scan(before.bytes, list_start(before), layout_of(version)).entries.len(),
            )
        }),
{
    lemma_magic_is_text();
}

/// Decoding is a function of the buffer, the cursor and the release family
/// held: two decodes that agree on these add the same records, leave the
/// cursor at the same place and report the same outcome. In particular, two
/// databases made from the same buffer decode to equal lists.
pub proof fn lemma_decode_is_determined(
    first: ThumbscacheView,
    first_result: Result<u32, ThumbsError>,
    second: ThumbscacheView,
    second_result: Result<u32, ThumbsError>,
)
    requires
        first.bytes == second.bytes,
        first.position == second.position,
        first.windows_version == second.windows_version,
        reports(first_result, decode(first).outcome),
        reports(second_result, decode(second).outcome),
    ensures
        decode(first).outcome == decode(second).outcome,
        decode(first).state.position == decode(second).state.position,
        decode(first).state.windows_version == decode(second).state.windows_version,
        decode(first).state.entries.skip(first.entries.len() as int) == decode(
            second,
        ).state.entries.skip(second.entries.len() as int),
        first.entries == second.entries ==> decode(first).state.entries == decode(
            second,
        ).state.entries,
        first_result is Ok <==> second_result is Ok,
        first_result is Ok ==> first_result->Ok_0 == second_result->Ok_0,
{
    assert(header_fields_at(first) == header_fields_at(second));
    assert(signature_at(first) == signature_at(second));
    let added_first = decode(first).state.entries.skip(first.entries.len() as int);
    let added_second = decode(second).state.entries.skip(second.entries.len() as int);
    if remaining_at(first.bytes, first.position) >= HEADER_LEN && valid_utf8(signature_at(first))
        && signature_at(first) == magic() {
        let fields = file_header_of(header_fields_at(first));
        let start = entry_list_start(first.bytes, fields);
        match decode(first).state.windows_version {
            Some(version) => {
                let found = scan(first.bytes, start, layout_of(version));
                assert(added_first =~= found.entries);
                assert(added_second =~= found.entries);
            },
            None => {
                assert(added_first =~= Seq::empty());
                assert(added_second =~= Seq::empty());
            },
        }
    } else {
        assert(added_first =~= Seq::empty());
        assert(added_second =~= Seq::empty());
    }
}

/// Where the scan stands after `count` records, if it finds that many.
pub open spec fn position_after(bytes: Seq<u8>, start: nat, layout: Layout, count: nat) -> Option<
    nat,
>
    decreases count,
{
    if count == 0 {
        Some(start)
    } else {
        let step = step_at(bytes, start, layout);
        match step.kind {
            StepKind::Record(_) => position_after(bytes, step.position, layout, (count - 1) as nat),
            _ => None,
        }
    }
}

/// The first `count` records that the scan finds from `start` on, or as
/// many as it finds if they are fewer.
pub open spec fn first_records(bytes: Seq<u8>, start: nat, layout: Layout, count: nat) -> Seq<
    CacheEntryView,
>
    decreases count,
{
    if count == 0 {
        Seq::empty()
    } else {
        let step = step_at(bytes, start, layout);
        match step.kind {
            StepKind::Record(entry) => seq![entry] + first_records(
                bytes,
                step.position,
                layout,
                (count - 1) as nat,
            ),
            _ => Seq::empty(),
        }
    }
}

/// A scan that starts on a record is that record, followed by the scan from
/// where the record ends.
pub proof fn lemma_scan_takes_record(bytes: Seq<u8>, start: nat, layout: Layout)
    requires
        step_at(bytes, start, layout).kind is Record,
    ensures
        scan(bytes, start, layout).entries == seq![step_at(bytes, start, layout).kind->Record_0]
            + scan(bytes, step_at(bytes, start, layout).position, layout).entries,
        scan(bytes, start, layout).position == scan(
            bytes,
            step_at(bytes, start, layout).position,
            layout,
        ).position,
        scan(bytes, start, layout).short_read == scan(
            bytes,
            step_at(bytes, start, layout).position,
            layout,
        ).short_read,
{
}

/// Splitting a sequence behind its first `count` items splits its tail
/// behind one item fewer.
pub proof fn lemma_split_behind_head<A>(head: A, tail: Seq<A>, count: nat)
    requires
        1 <= count <= tail.len() + 1,
    ensures
        (seq![head] + tail).skip(count as int) == tail.skip(count - 1),
        (seq![head] + tail).take(count as int) == seq![head] + tail.take(count - 1),
{
    assert((seq![head] + tail).skip(count as int) =~= tail.skip(count - 1));
    assert((seq![head] + tail).take(count as int) =~= seq![head] + tail.take(count - 1));
}

/// Every record that a scan finds is sound in itself: its declared size
/// covers its header and sections, and its payload has the declared length.
pub proof fn lemma_scanned_records_well_formed(bytes: Seq<u8>, start: nat, layout: Layout)
    ensures
        forall|i: int|
            0 <= i < scan(bytes, start, layout).entries.len() ==> well_formed(
                #[trigger] scan(bytes, start, layout).entries[i],
            ),
    decreases bytes.len() - start,
{
    let step = step_at(bytes, start, layout);
    if step.kind is Record {
        let whole = scan(bytes, start, layout);
        let rest = scan(bytes, step.position, layout);
        assert(well_formed(step.kind->Record_0));
        lemma_scanned_records_well_formed(bytes, step.position, layout);
        lemma_scan_takes_record(bytes, start, layout);
        assert forall|i: int| 0 <= i < whole.entries.len() implies well_formed(
            #[trigger] whole.entries[i],
        ) by {
            if i > 0 {
                assert(whole.entries[i] == rest.entries[i - 1]);
            }
        }
    }
}

/// A decode keeps the list of records sound: where every record held
/// before is sound in itself, so is every record held after.
pub proof fn lemma_decoded_entries_well_formed(before: ThumbscacheView)
    requires
        forall|i: int| 0 <= i < before.entries.len() ==> well_formed(#[trigger] before.entries[i]),
    ensures
        forall|i: int|
            0 <= i < decode(before).state.entries.len() ==> well_formed(
                #[trigger] decode(before).state.entries[i],
            ),
{
    let after = decode(before).state;
    if after.entries != before.entries {
        let version = after.windows_version->Some_0;
        let found = scan(before.bytes, list_start(before), layout_of(version));
        lemma_scanned_records_well_formed(before.bytes, list_start(before), layout_of(version));
        assert(after.entries == before.entries + found.entries);
        assert forall|i: int| 0 <= i < after.entries.len() implies well_formed(
            #[trigger] after.entries[i],
        ) by {
            if i >= before.entries.len() {
                assert(after.entries[i] == found.entries[i - before.entries.len()]);
            }
        }
    }
}

/// The scan from `start` is the first `count` records, followed by the scan
/// from where they end.
pub proof fn lemma_scan_resumes(bytes: Seq<u8>, start: nat, layout: Layout, count: nat)
    requires
        position_after(bytes, start, layout, count) is Some,
    ensures
        ({
            let whole = scan(bytes, start, layout);
            let rest = scan(bytes, position_after(bytes, start, layout, count)->Some_0, layout);
            &&& whole.entries.len() == count + rest.entries.len()
            &&& whole.entries.take(count as int) == first_records(bytes, start, layout, count)
            &&& whole.entries.skip(count as int) == rest.entries
            &&& whole.position == rest.position
            &&& whole.short_read == rest.short_read
        }),
    decreases count,
{
    let whole = scan(bytes, start, layout);
    if count == 0 {
        assert(whole.entries.skip(0) =~= whole.entries);
        assert(whole.entries.take(0) =~= Seq::empty());
    } else {
        let step = step_at(bytes, start, layout);
        let after = scan(bytes, step.position, layout);
        assert(step.kind is Record);
        assert(position_after(bytes, start, layout, count) == position_after(
            bytes,
            step.position,
            layout,
            (count - 1) as nat,
        ));
        lemma_scan_resumes(bytes, step.position, layout, (count - 1) as nat);
        lemma_scan_takes_record(bytes, start, layout);
        lemma_split_behind_head(step.kind->Record_0, after.entries, count);
    }
}

/// A record whose signature is damaged ends the list: the decode succeeds
/// and adds exactly the records that come before it.
pub proof fn lemma_bad_record_signature_ends_list(
    before: ThumbscacheView,
    version: WindowsVersion,
    count: nat,
)
    requires
        resolves_to(before, version),
        position_after(before.bytes, list_start(before), layout_of(version), count) is Some,
        ({
            let at = position_after(
                before.bytes,
                list_start(before),
                layout_of(version),
                count,
            )->Some_0;
            &&& remaining_at(before.bytes, at) >= ENTRY_HEADER_LEN
            &&& !has_magic(before.bytes.subrange(at as int, at + ENTRY_HEADER_LEN))
        }),
    ensures
        decode(before).outcome == Outcome::Decoded(count),
        decode(before).state.entries == before.entries + first_records(
            before.bytes,
            list_start(before),
            layout_of(version),
            count,
        ),
        first_records(before.bytes, list_start(before), layout_of(version), count).len() == count,
{
    lemma_decode_scans(before, version);
    lemma_scan_resumes(before.bytes, list_start(before), layout_of(version), count);
    let found = scan(before.bytes, list_start(before), layout_of(version));
    assert(found.entries.take(count as int) =~= found.entries);
}

/// Whether the identifier and the payload that the record at `at` declares
/// lie within the buffer.
pub open spec fn sections_fit(bytes: Seq<u8>, at: nat, layout: Layout) -> bool {
    let fields = entry_header_of(bytes.subrange(at as int, at + ENTRY_HEADER_LEN), layout);
    let identifier_start: nat = at + ENTRY_HEADER_LEN as nat;
    let padding_start: nat = identifier_start + fields.identifier_len as nat;
    &&& fields.identifier_len <= remaining_at(bytes, identifier_start)
    &&& fields.data_len <= remaining_at(
        bytes,
        advance(bytes, padding_start, fields.padding_len as nat),
    )
}

/// A record that declares a size smaller than its header and its three
/// sections together ends the list: the decode adds exactly the records that
/// come before it, and succeeds unless a section of that record runs past
/// the buffer.
pub proof fn lemma_undersized_record_ends_list(
    before: ThumbscacheView,
    version: WindowsVersion,
    count: nat,
)
    requires
        resolves_to(before, version),
        position_after(before.bytes, list_start(before), layout_of(version), count) is Some,
        ({
            let at = position_after(
                before.bytes,
                list_start(before),
                layout_of(version),
                count,
            )->Some_0;
            let header = before.bytes.subrange(at as int, at + ENTRY_HEADER_LEN);
            let fields = entry_header_of(header, layout_of(version));
            &&& remaining_at(before.bytes, at) >= ENTRY_HEADER_LEN
            &&& has_magic(header)
            &&& fields.size < ENTRY_HEADER_LEN + fields.data_len + fields.identifier_len
                + fields.padding_len
        }),
    ensures
        decode(before).state.entries == before.entries + first_records(
            before.bytes,
            list_start(before),
            layout_of(version),
            count,
        ),
        first_records(before.bytes, list_start(before), layout_of(version), count).len() == count,
        decode(before).outcome == (if sections_fit(
            before.bytes,
            position_after(before.bytes, list_start(before), layout_of(version), count)->Some_0,
            layout_of(version),
        ) {
            Outcome::Decoded(count)
        } else {
            Outcome::ShortRead
        }),
{
    lemma_decode_scans(before, version);
    lemma_scan_resumes(before.bytes, list_start(before), layout_of(version), count);
    let found = scan(before.bytes, list_start(before), layout_of(version));
    assert(found.entries.take(count as int) =~= found.entries);
}

/// Whether a record of the modern layout stands at `at`, whole within the
/// buffer, with a declared size that is the sum of its header and its
/// three sections.
pub open spec fn modern_record_at(bytes: Seq<u8>, at: nat) -> bool {
    let header = bytes.subrange(at as int, at + ENTRY_HEADER_LEN);
    &&& at + ENTRY_HEADER_LEN <= bytes.len()
    &&& has_magic(header)
    &&& field_u32(header, 4) == ENTRY_HEADER_LEN + field_u32(header, 16) + field_u32(header, 20)
        + field_u32(header, 24)
    &&& at + field_u32(header, 4) <= bytes.len()
}

/// The size that the record at `at` declares.
pub open spec fn declared_size_at(bytes: Seq<u8>, at: nat) -> nat {
    field_u32(bytes.subrange(at as int, at + ENTRY_HEADER_LEN), 4) as nat
}

/// The payload of the modern record at `at`: the bytes behind its header,
/// its identifier and its padding.
pub open spec fn payload_at(bytes: Seq<u8>, at: nat) -> Seq<u8> {
    let header = bytes.subrange(at as int, at + ENTRY_HEADER_LEN);
    let data_start = at + ENTRY_HEADER_LEN + field_u32(header, 16) + field_u32(header, 20);
    bytes.subrange(data_start, data_start + field_u32(header, 24))
}

/// Whether exactly `count` modern records stand back to back from `at` to
/// the end of the buffer.
pub open spec fn packed_records(bytes: Seq<u8>, at: nat, count: nat) -> bool
    decreases count,
{
    if count == 0 {
        at == bytes.len()
    } else {
        modern_record_at(bytes, at) && packed_records(
            bytes,
            at + declared_size_at(bytes, at),
            (count - 1) as nat,
        )
    }
}

/// Where the record at place `index` of a packed run starts.
pub open spec fn packed_offset(bytes: Seq<u8>, at: nat, index: nat) -> nat
    decreases index,
{
    if index == 0 {
        at
    } else {
        packed_offset(bytes, at + declared_size_at(bytes, at), (index - 1) as nat)
    }
}

/// The scan of a packed run finds each of its records, in file order, with
/// the payload that the buffer holds, and ends without a short read.
pub proof fn lemma_scan_of_packed_records(bytes: Seq<u8>, at: nat, count: nat)
    requires
        packed_records(bytes, at, count),
    ensures
        scan(bytes, at, Layout::Modern).entries.len() == count,
        !scan(bytes, at, Layout::Modern).short_read,
        forall|i: nat|
            i < count ==> (#[trigger] scan(bytes, at, Layout::Modern).entries[i as int]).data
                == payload_at(bytes, packed_offset(bytes, at, i)),
    decreases count,
{
    if count > 0 {
        let next: nat = at + declared_size_at(bytes, at);
        let step = step_at(bytes, at, Layout::Modern);
        assert(step.kind is Record);
        assert(step.position == next);
        assert(step.kind->Record_0.data == payload_at(bytes, at));
        lemma_scan_of_packed_records(bytes, next, (count - 1) as nat);
        let whole = scan(bytes, at, Layout::Modern);
        let rest = scan(bytes, next, Layout::Modern);
        assert(whole.entries == seq![step.kind->Record_0] + rest.entries);
        assert forall|i: nat| i < count implies (#[trigger] whole.entries[i as int]).data
            == payload_at(bytes, packed_offset(bytes, at, i)) by {
            if i > 0 {
                let j: nat = (i - 1) as nat;
                assert(whole.entries[i as int] == rest.entries[j as int]);
                assert(packed_offset(bytes, at, i) == packed_offset(bytes, next, j));
            }
        }
    }
}

/// A buffer that holds exactly `count` well-formed modern records back to
/// back behind a sound header decodes to exactly these records: the decode
/// succeeds, adds `count` records in file order, and each carries the
/// payload that the buffer holds for it, byte for byte.
pub proof fn lemma_packed_records_all_decoded(
    before: ThumbscacheView,
    version: WindowsVersion,
    count: nat,
)
    requires
        resolves_to(before, version),
        layout_of(version) == Layout::Modern,
        packed_records(before.bytes, list_start(before), count),
    ensures
        decode(before).outcome == Outcome::Decoded(count),
        decode(before).state.entries.len() == before.entries.len() + count,
        decode(before).state.entries.take(before.entries.len() as int) == before.entries,
        forall|i: nat|
            i < count ==> (#[trigger] decode(before).state.entries[before.entries.len() as int + i as int]).data
                == payload_at(before.bytes, packed_offset(before.bytes, list_start(before), i)),
{
    lemma_decode_scans(before, version);
    lemma_scan_of_packed_records(before.bytes, list_start(before), count);
    let found = scan(before.bytes, list_start(before), Layout::Modern);
    assert(decode(before).state.entries.take(before.entries.len() as int) =~= before.entries);
    assert forall|i: nat| i < count implies (#[trigger] decode(before).state.entries[before.entries.len() as int + i as int]).data == payload_at(
        before.bytes,
        packed_offset(before.bytes, list_start(before), i),
    ) by {
        assert(decode(before).state.entries[before.entries.len() as int + i as int] == found.entries[i as int]);
    }
}

} // verus!
