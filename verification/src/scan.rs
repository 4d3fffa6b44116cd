//! The single pass over the archive that finds the entry of the target path.

use vstd::prelude::*;
use vstd::utf8::*;

use crate::archive::{read_entries, tar_listing, ArchiveEntry, ByteRange, EntryView};
use crate::error::BtfError;
use crate::target::{target_of, target_path};

verus! {

/// `core::str::Utf8Error`, the error of `core::str::from_utf8`. It is carried as
/// an opaque value; nothing is claimed of what it holds.
#[verifier::external_type_specification]
#[verifier::external_body]
pub struct ExUtf8Error(core::str::Utf8Error);

/// `core::str::from_utf8`. It checks that the bytes are valid UTF-8 and, where
/// they are, returns them as a string slice; otherwise it returns an error.
#[verifier::external_body]
fn utf8_text(bytes: &[u8]) -> (out: Result<&str, core::str::Utf8Error>)
    ensures
        out matches Ok(text) ==> valid_utf8(bytes@) && text@ == decode_utf8(bytes@),
        out is Err ==> !valid_utf8(bytes@),
{
    core::str::from_utf8(bytes)
}

/// Decodes the stored path of an entry. Bytes that are not valid UTF-8 are
/// refused with `PathDecodeError`.
pub fn decode_path(path: &[u8]) -> (out: Result<&str, BtfError>)
    ensures
        match out {
            Ok(text) => valid_utf8(path@) && text@ == decode_utf8(path@),
            Err(e) => e == BtfError::PathDecodeError && !valid_utf8(path@),
        },
{
    match utf8_text(path) {
        Ok(text) => Ok(text),
        Err(_) => Err(BtfError::PathDecodeError),
    }
}

/// Whether two byte strings hold the same bytes.
pub fn same_bytes(left: &[u8], right: &[u8]) -> (same: bool)
    ensures
        same == (left@ == right@),
{
    if left.len() != right.len() {
        return false;
    }
    let mut i: usize = 0;
    while i < left.len()
        invariant
            i <= left.len(),
            left.len() == right.len(),
            left@.take(i as int) == right@.take(i as int),
        decreases left.len() - i,
    {
        if left[i] != right[i] {
            return false;
        }
        assert(left@.take(i + 1) =~= left@.take(i as int).push(left@[i as int]));
        assert(right@.take(i + 1) =~= right@.take(i as int).push(right@[i as int]));
        i += 1;
    }
    assert(left@ =~= left@.take(i as int));
    assert(right@ =~= right@.take(i as int));
    true
}

/// Whether two strings are equal, character for character.
pub fn same_text(left: &str, right: &str) -> (same: bool)
    ensures
        same == (left@ == right@),
{
    proof {
        encode_utf8_decode_utf8(left@);
        encode_utf8_decode_utf8(right@);
    }
    same_bytes(left.as_bytes(), right.as_bytes())
}

/// An item that the scan can pass: the reader produced an entry, and the
/// entry's path is valid UTF-8.
pub open spec fn sound(item: Option<EntryView>) -> bool {
    item matches Some(entry) && valid_utf8(entry.path)
}

/// An item whose entry is stored under exactly the path `target`.
pub open spec fn names(item: Option<EntryView>, target: Seq<char>) -> bool {
    item matches Some(entry) && valid_utf8(entry.path) && decode_utf8(entry.path) == target
}

/// The state of the scan after one more item: a reader failure or an
/// undecodable path ends it, a matching entry replaces what was found before.
pub open spec fn inspect(
    found: Option<ByteRange>,
    item: Option<EntryView>,
    target: Seq<char>,
) -> Result<Option<ByteRange>, BtfError> {
    match item {
        None => Err(BtfError::ArchiveReadError),
        Some(entry) => if !valid_utf8(entry.path) {
            Err(BtfError::PathDecodeError)
        } else if decode_utf8(entry.path) == target {
            Ok(Some(entry.range))
        } else {
            Ok(found)
        },
    }
}

/// The outcome of scanning a listing for `target`: the items are inspected in
/// stored order, the first item that cannot be passed decides the error, and
/// otherwise the range of the last matching entry is the result.
pub open spec fn scan_of(listing: Seq<Option<EntryView>>, target: Seq<char>) -> Result<
    Option<ByteRange>,
    BtfError,
>
    decreases listing.len(),
{
    if listing.len() == 0 {
        Ok(None)
    } else {
        match scan_of(listing.drop_last(), target) {
            Err(e) => Err(e),
            Ok(found) => inspect(found, listing.last(), target),
        }
    }
}

/// A scan that has failed on a prefix of the listing has failed for good.
proof fn lemma_scan_fails_for_good(listing: Seq<Option<EntryView>>, n: int, target: Seq<char>)
    requires
        0 <= n <= listing.len(),
        scan_of(listing.take(n), target) is Err,
    ensures
        scan_of(listing, target) == scan_of(listing.take(n), target),
    decreases listing.len() - n,
{
    if n == listing.len() {
        assert(listing.take(n) =~= listing);
    } else {
        assert(listing.drop_last().take(n) =~= listing.take(n));
        lemma_scan_fails_for_good(listing.drop_last(), n, target);
    }
}

/// Scans the listing once, front to back, for the entry stored under `target`.
///
/// The scan ends with `ArchiveReadError` at the first item that the reader
/// could not produce and with `PathDecodeError` at the first entry whose path
/// is not valid UTF-8, whatever follows. Otherwise it runs to the end and
/// returns the range of the last entry whose decoded path equals `target`, or
/// `None` where there is none.
pub fn scan(listing: &[Option<ArchiveEntry>], target: &str) -> (out: Result<
    Option<ByteRange>,
    BtfError,
>)
    ensures
        out == scan_of(listing.deep_view(), target@),
{
    let ghost items = listing.deep_view();
    let mut found: Option<ByteRange> = None;
    let mut i: usize = 0;
    while i < listing.len()
        invariant
            i <= listing.len(),
            items == listing.deep_view(),
            items.len() == listing.len(),
            scan_of(items.take(i as int), target@) == Ok::<Option<ByteRange>, BtfError>(found),
        decreases listing.len() - i,
    {
        proof {
            assert(items.take(i + 1).drop_last() =~= items.take(i as int));
            assert(items.take(i + 1).last() == items[i as int]);
            assert(items[i as int] == listing@[i as int].deep_view());
        }
        match &listing[i] {
            None => {
                proof {
                    lemma_scan_fails_for_good(items, i + 1, target@);
                }
                return Err(BtfError::ArchiveReadError);
            },
            Some(entry) => {
                match decode_path(entry.path.as_slice()) {
                    Err(e) => {
                        proof {
                            lemma_scan_fails_for_good(items, i + 1, target@);
                        }
                        return Err(e);
                    },
                    Ok(text) => {
                        if same_text(text, target) {
                            found = Some(entry.range);
                        }
                    },
                }
            },
        }
        i += 1;
    }
    assert(items.take(i as int) =~= items);
    Ok(found)
}

/// A listing whose items are all sound is scanned to its end.
proof fn lemma_sound_listing_is_scanned(listing: Seq<Option<EntryView>>, target: Seq<char>)
    requires
        forall|i: int| 0 <= i < listing.len() ==> sound(#[trigger] listing[i]),
    ensures
        scan_of(listing, target) is Ok,
    decreases listing.len(),
{
    if listing.len() > 0 {
        let front = listing.drop_last();
        assert forall|i: int| 0 <= i < front.len() implies sound(#[trigger] front[i]) by {
            assert(front[i] == listing[i]);
        }
        lemma_sound_listing_is_scanned(front, target);
        assert(sound(listing[listing.len() - 1]));
    }
}

/// The scan stops at the first item that cannot be passed and reports it,
/// whatever the listing holds after it.
proof fn lemma_first_fault_decides(listing: Seq<Option<EntryView>>, target: Seq<char>, i: int)
    requires
        0 <= i < listing.len(),
        !sound(listing[i]),
        forall|j: int| 0 <= j < i ==> sound(#[trigger] listing[j]),
    ensures
        scan_of(listing, target) == inspect(None, listing[i], target),
        scan_of(listing, target) is Err,
{
    let front = listing.take(i);
    assert forall|j: int| 0 <= j < front.len() implies sound(#[trigger] front[j]) by {
        assert(front[j] == listing[j]);
    }
    lemma_sound_listing_is_scanned(front, target);
    assert(listing.take(i + 1).drop_last() =~= front);
    assert(listing.take(i + 1).last() == listing[i]);
    lemma_scan_fails_for_good(listing, i + 1, target);
}

/// An item that the reader could not produce ends the scan with
/// `ArchiveReadError` when every item before it is sound, whatever follows it.
pub proof fn law_unreadable_item_ends_scan(
    listing: Seq<Option<EntryView>>,
    target: Seq<char>,
    i: int,
)
    requires
        0 <= i < listing.len(),
        listing[i] is None,
        forall|j: int| 0 <= j < i ==> sound(#[trigger] listing[j]),
    ensures
        scan_of(listing, target) == Err::<Option<ByteRange>, BtfError>(BtfError::ArchiveReadError),
{
    lemma_first_fault_decides(listing, target, i);
}

/// An entry whose path is not valid UTF-8 ends the scan with `PathDecodeError`
/// when every item before it is sound. The items after it are never looked at:
/// the result is the same where one of them is stored under the target path.
pub proof fn law_undecodable_path_ends_scan(
    listing: Seq<Option<EntryView>>,
    target: Seq<char>,
    i: int,
)
    requires
        0 <= i < listing.len(),
        listing[i] matches Some(entry) && !valid_utf8(entry.path),
        forall|j: int| 0 <= j < i ==> sound(#[trigger] listing[j]),
    ensures
        scan_of(listing, target) == Err::<Option<ByteRange>, BtfError>(BtfError::PathDecodeError),
{
    lemma_first_fault_decides(listing, target, i);
}

/// In a listing of sound items the scan returns the range of the last entry
/// that is stored under the target path.
pub proof fn law_last_match_is_found(listing: Seq<Option<EntryView>>, target: Seq<char>, k: int)
    requires
        forall|i: int| 0 <= i < listing.len() ==> sound(#[trigger] listing[i]),
        0 <= k < listing.len(),
        names(listing[k], target),
        forall|i: int| k < i < listing.len() ==> !names(#[trigger] listing[i], target),
    ensures
        scan_of(listing, target) == Ok::<Option<ByteRange>, BtfError>(Some(listing[k]->0.range)),
    decreases listing.len(),
{
    let front = listing.drop_last();
    assert forall|i: int| 0 <= i < front.len() implies sound(#[trigger] front[i]) by {
        assert(front[i] == listing[i]);
    }
    lemma_sound_listing_is_scanned(front, target);
    if k < listing.len() - 1 {
        assert(front[k] == listing[k]);
        assert forall|i: int| k < i < front.len() implies !names(#[trigger] front[i], target) by {
            assert(front[i] == listing[i]);
        }
        law_last_match_is_found(front, target, k);
        assert(sound(listing[listing.len() - 1]));
        assert(!names(listing[listing.len() - 1], target));
    }
}

/// In a listing of sound items of which exactly one is stored under the target
/// path, the scan returns the range of that entry.
pub proof fn law_only_match_is_found(listing: Seq<Option<EntryView>>, target: Seq<char>, k: int)
    requires
        forall|i: int| 0 <= i < listing.len() ==> sound(#[trigger] listing[i]),
        0 <= k < listing.len(),
        names(listing[k], target),
        forall|i: int| 0 <= i < listing.len() && i != k ==> !names(#[trigger] listing[i], target),
    ensures
        scan_of(listing, target) == Ok::<Option<ByteRange>, BtfError>(Some(listing[k]->0.range)),
{
    law_last_match_is_found(listing, target, k);
}

/// In a listing of sound items of which none is stored under the target path,
/// the scan finds nothing.
pub proof fn law_no_match_finds_nothing(listing: Seq<Option<EntryView>>, target: Seq<char>)
    requires
        forall|i: int| 0 <= i < listing.len() ==> sound(#[trigger] listing[i]),
        forall|i: int| 0 <= i < listing.len() ==> !names(#[trigger] listing[i], target),
    ensures
        scan_of(listing, target) == Ok::<Option<ByteRange>, BtfError>(None),
    decreases listing.len(),
{
    if listing.len() > 0 {
        let front = listing.drop_last();
        assert forall|i: int| 0 <= i < front.len() implies sound(#[trigger] front[i]) && !names(
            front[i],
            target,
        ) by {
            assert(front[i] == listing[i]);
        }
        law_no_match_finds_nothing(front, target);
        assert(sound(listing[listing.len() - 1]));
        assert(!names(listing[listing.len() - 1], target));
    }
}

/// What the scan returns is owed to the listing: a range belongs to an entry
/// stored under the target path after which no other such entry comes, every
/// item of a listing that was scanned to its end is sound, and an error comes
/// from the first item that is not.
pub proof fn law_scan_outcome(listing: Seq<Option<EntryView>>, target: Seq<char>)
    ensures
        match scan_of(listing, target) {
            Ok(found) => {
                &&& forall|i: int| 0 <= i < listing.len() ==> sound(#[trigger] listing[i])
                &&& match found {
                    None => forall|i: int|
                        0 <= i < listing.len() ==> !names(#[trigger] listing[i], target),
                    Some(range) => exists|k: int|
                        {
                            &&& 0 <= k < listing.len()
                            &&& names(#[trigger] listing[k], target)
                            &&& listing[k]->0.range == range
                            &&& forall|i: int|
                                k < i < listing.len() ==> !names(#[trigger] listing[i], target)
                        },
                }
            },
            Err(e) => exists|k: int|
                {
                    &&& 0 <= k < listing.len()
                    &&& !sound(#[trigger] listing[k])
                    &&& forall|j: int| 0 <= j < k ==> sound(#[trigger] listing[j])
                    &&& e == if listing[k] is None {
                        BtfError::ArchiveReadError
                    } else {
                        BtfError::PathDecodeError
                    }
                },
        },
    decreases listing.len(),
{
    if listing.len() > 0 {
        let front = listing.drop_last();
        let last = listing.len() - 1;
        law_scan_outcome(front, target);
        assert forall|i: int| 0 <= i < front.len() implies front[i] == listing[i] by {}
        match scan_of(front, target) {
            Err(e) => {
                let k = choose|k: int|
                    {
                        &&& 0 <= k < front.len()
                        &&& !sound(#[trigger] front[k])
                        &&& forall|j: int| 0 <= j < k ==> sound(#[trigger] front[j])
                        &&& e == if front[k] is None {
                            BtfError::ArchiveReadError
                        } else {
                            BtfError::PathDecodeError
                        }
                    };
                assert(!sound(listing[k]));
                assert forall|j: int| 0 <= j < k implies sound(#[trigger] listing[j]) by {
                    assert(sound(front[j]));
                }
            },
            Ok(found) => {
                assert forall|j: int| 0 <= j < last implies sound(#[trigger] listing[j]) by {
                    assert(sound(front[j]));
                }
                if !sound(listing[last]) {
                    assert(scan_of(listing, target) is Err);
                } else if names(listing[last], target) {
                } else {
                    match found {
                        None => {
                            assert forall|i: int| 0 <= i < listing.len() implies !names(
                                #[trigger] listing[i],
                                target,
                            ) by {
                                if i < last {
                                    assert(!names(front[i], target));
                                }
                            }
                        },
                        Some(range) => {
                            let k = choose|k: int|
                                {
                                    &&& 0 <= k < front.len()
                                    &&& names(#[trigger] front[k], target)
                                    &&& front[k]->0.range == range
                                    &&& forall|i: int|
                                        k < i < front.len() ==> !names(#[trigger] front[i], target)
                                };
                            assert(names(listing[k], target));
                            assert forall|i: int| k < i < listing.len() implies !names(
                                #[trigger] listing[i],
                                target,
                            ) by {
                                if i < last {
                                    assert(!names(front[i], target));
                                }
                            }
                        },
                    }
                }
            },
        }
    }
}

/// The data of an entry: the bytes of its range, or `ArchiveReadError` where
/// the range does not lie inside the archive.
pub open spec fn payload_of(archive: Seq<u8>, range: ByteRange) -> Result<Seq<u8>, BtfError> {
    if range.offset + range.size <= archive.len() {
        Ok(archive.subrange(range.offset as int, range.offset + range.size))
    } else {
        Err(BtfError::ArchiveReadError)
    }
}

/// Copies the data of an entry out of the archive. A range that reaches past
/// the end of the archive is refused with `ArchiveReadError`.
pub fn payload(archive: &[u8], range: ByteRange) -> (out: Result<Vec<u8>, BtfError>)
    ensures
        match out {
            Ok(data) => payload_of(archive@, range) == Ok::<Seq<u8>, BtfError>(data@),
            Err(e) => payload_of(archive@, range) == Err::<Seq<u8>, BtfError>(e),
        },
{
    let len: u64 = archive.len() as u64;
    if range.offset <= len && range.size <= len - range.offset {
        let start: usize = range.offset as usize;
        let end: usize = start + range.size as usize;
        Ok(vstd::slice::slice_to_vec(vstd::slice::slice_subrange(archive, start, end)))
    } else {
        Err(BtfError::ArchiveReadError)
    }
}

/// The data of the entry that a scan of `listing` finds for `target`, or the
/// error that ends the operation: that of the scan, `NoMatchingArchiveEntry`
/// where the scan found nothing, or that of the range.
pub open spec fn matched(
    archive: Seq<u8>,
    listing: Seq<Option<EntryView>>,
    target: Seq<char>,
) -> Result<Seq<u8>, BtfError> {
    match scan_of(listing, target) {
        Err(e) => Err(e),
        Ok(None) => Err(BtfError::NoMatchingArchiveEntry),
        Ok(Some(range)) => payload_of(archive, range),
    }
}

/// Scans a listing of `archive` for `target` and copies the data of the entry
/// found. Without a matching entry the result is `NoMatchingArchiveEntry`.
pub fn extract(archive: &[u8], listing: &[Option<ArchiveEntry>], target: &str) -> (out: Result<
    Vec<u8>,
    BtfError,
>)
    ensures
        match out {
            Ok(data) => matched(archive@, listing.deep_view(), target@) == Ok::<Seq<u8>, BtfError>(
                data@,
            ),
            Err(e) => matched(archive@, listing.deep_view(), target@) == Err::<Seq<u8>, BtfError>(
                e,
            ),
        },
{
    match scan(listing, target) {
        Err(e) => Err(e),
        Ok(None) => Err(BtfError::NoMatchingArchiveEntry),
        Ok(Some(range)) => payload(archive, range),
    }
}

/// What an archive resolves to for a system whose identity is `relative`,
/// given what the tar reader yields for it: `InvalidInput` where the reader
/// could not start, else the outcome of scanning for the target path.
pub open spec fn located(
    listing: Option<Seq<Option<EntryView>>>,
    archive: Seq<u8>,
    relative: Seq<char>,
) -> Result<Seq<u8>, BtfError> {
    match listing {
        None => Err(BtfError::InvalidInput),
        Some(items) => matched(archive, items, target_of(relative)),
    }
}

/// Finds, in a decompressed archive, the BTF file of the system whose identity
/// is `relative`, and returns a copy of its bytes.
pub fn locate(archive: &[u8], relative: &str) -> (out: Result<Vec<u8>, BtfError>)
    ensures
        match out {
            Ok(data) => located(tar_listing(archive@), archive@, relative@) == Ok::<
                Seq<u8>,
                BtfError,
            >(data@),
            Err(e) => located(tar_listing(archive@), archive@, relative@) == Err::<
                Seq<u8>,
                BtfError,
            >(e),
        },
{
    match read_entries(archive) {
        Err(e) => Err(e),
        Ok(listing) => {
            let target = target_path(relative);
            extract(archive, listing.as_slice(), target.as_str())
        },
    }
}

} // verus!
