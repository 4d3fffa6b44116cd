//! The decompressed archive as a forward sequence of entries.

use vstd::prelude::*;

use crate::error::BtfError;

verus! {

/// Where the data of an entry lies inside the decompressed archive.
#[derive(Clone, Copy, Debug, PartialEq, Eq, Structural)]
pub struct ByteRange {
    pub offset: u64,
    pub size: u64,
}

/// One entry of the archive: its stored path, not yet decoded, and the range
/// of its data.
#[derive(Debug, PartialEq, Eq)]
pub struct ArchiveEntry {
    pub path: Vec<u8>,
    pub range: ByteRange,
}

/// The mathematical value of an [`ArchiveEntry`].
pub struct EntryView {
    pub path: Seq<u8>,
    pub range: ByteRange,
}

impl View for ArchiveEntry {
    type V = EntryView;

    open spec fn view(&self) -> EntryView {
        EntryView { path: self.path@, range: self.range }
    }
}

impl DeepView for ArchiveEntry {
    type V = EntryView;

    open spec fn deep_view(&self) -> EntryView {
        self@
    }
}

/// What the tar reader yields for an archive when it reads it raw: one item
/// for each member in stored order, extension members (long names, pax
/// records) included, each an entry as its own header describes it, or `None`
/// where the reader reports an error. The whole is `None` where the reader
/// cannot start.
pub uninterp spec fn tar_listing(archive: Seq<u8>) -> Option<Seq<Option<EntryView>>>;

/// `tar::Archive::new` over the bytes and one pass over `Archive::entries`,
/// set to raw by `Entries::raw`: the reader then yields every member as it is
/// stored and interprets no extension and no sparse map. Each item of the
/// iterator becomes one item of the result: an error becomes `None`, an entry
/// is reduced to `Header::path_bytes` of `Entry::header`,
/// `Entry::raw_file_position` and `Entry::size`. What the reader yields depends
/// on the bytes alone and is named `tar_listing`.
#[verifier::external_body]
fn list_entries(archive: &[u8]) -> (out: Result<Vec<Option<ArchiveEntry>>, std::io::Error>)
    ensures
        out matches Ok(listing) ==> tar_listing(archive@) == Some(listing.deep_view()),
        out is Err ==> tar_listing(archive@) is None,
{
    let mut reader = tar::Archive::new(archive);
    let entries = reader.entries()?.raw(true);
    Ok(entries.map(|item| item.ok().map(|entry| ArchiveEntry {
        path: entry.header().path_bytes().into_owned(),
        range: ByteRange { offset: entry.raw_file_position(), size: entry.size() },
    })).collect())
}

/// Lists the members of a decompressed archive in stored order, each as its
/// own header describes it. A `None` item marks the place where the reader
/// failed; bytes on which the reader cannot start are refused with
/// `InvalidInput`.
pub fn read_entries(archive: &[u8]) -> (out: Result<Vec<Option<ArchiveEntry>>, BtfError>)
    ensures
        match out {
            Ok(listing) => tar_listing(archive@) == Some(listing.deep_view()),
            Err(e) => e == BtfError::InvalidInput && tar_listing(archive@) is None,
        },
{
    match list_entries(archive) {
        Ok(listing) => Ok(listing),
        Err(_) => Err(BtfError::InvalidInput),
    }
}

} // verus!
