//! Looking an entry up in a ZIP container that is held in memory.
//!
//! A container is modelled by its entry table: a map from the names that
//! its central directory lists to the bytes that each entry decompresses to.

use vstd::prelude::*;

verus! {

#[verifier::external_type_specification]
#[verifier::external_body]
#[verifier::reject_recursive_types(T)]
pub struct ExCursor<T>(std::io::Cursor<T>);

#[verifier::external_type_specification]
#[verifier::external_body]
#[verifier::reject_recursive_types(R)]
pub struct ExZipArchive<R>(zip::read::ZipArchive<R>);

#[verifier::external_type_specification]
#[verifier::external_body]
pub struct ExZipError(zip::result::ZipError);

/// An entry of an opened archive that is ready to be read.
#[verifier::external_body]
pub struct OpenEntry<'a> {
    file: zip::read::ZipFile<'a, std::io::Cursor<Vec<u8>>>,
}

/// The entry table of the container that `bytes` hold, or nothing where
/// they hold no readable container. An entry that is listed but cannot be
/// decompressed has no content.
pub uninterp spec fn container_entries(bytes: Seq<u8>) -> Option<Map<Seq<char>, Option<Seq<u8>>>>;

/// The entry table of an opened archive.
pub uninterp spec fn archive_entries(
    archive: zip::read::ZipArchive<std::io::Cursor<Vec<u8>>>,
) -> Map<Seq<char>, Option<Seq<u8>>>;

/// The bytes that reading `entry` to its end gives, or nothing where the read fails.
pub uninterp spec fn entry_content(entry: OpenEntry<'_>) -> Option<Seq<u8>>;

/// Why an entry could not be opened.
#[derive(Clone, Copy, Debug, PartialEq, Eq)]
pub enum EntryMiss {
    /// The archive lists no entry of that name.
    Absent,
    /// The archive lists the entry, but it cannot be read.
    Unreadable,
}

/// Calls `zip::read::ZipArchive::new` on a cursor over `bytes`. It reads the
/// container's central directory and fails where there is none that it can
/// read. What it finds depends on the bytes alone.
#[verifier::external_body]
fn open_archive(bytes: Vec<u8>) -> (opened: Result<
    zip::read::ZipArchive<std::io::Cursor<Vec<u8>>>,
    zip::result::ZipError,
>)
    ensures
        match opened {
            Ok(archive) => container_entries(bytes@) == Some(archive_entries(archive)),
            Err(_) => container_entries(bytes@) is None,
        },
{
    zip::read::ZipArchive::new(std::io::Cursor::new(bytes))
}

/// Calls `zip::read::ZipArchive::by_name`. It looks `name` up among the
/// names of the central directory, byte for byte, and fails with
/// `FileNotFound` where it is not among them; for a listed entry it fails
/// with another error where the entry's data cannot be reached or decoded.
#[verifier::external_body]
fn find_entry<'a>(
    archive: &'a mut zip::read::ZipArchive<std::io::Cursor<Vec<u8>>>,
    name: &str,
) -> (found: Result<OpenEntry<'a>, EntryMiss>)
    ensures
        match found {
            Ok(entry) => archive_entries(*old(archive)).contains_key(name@) && archive_entries(
                *old(archive),
            )[name@] == entry_content(entry),
            Err(EntryMiss::Absent) => !archive_entries(*old(archive)).contains_key(name@),
            Err(EntryMiss::Unreadable) => archive_entries(*old(archive)).contains_key(name@)
                && archive_entries(*old(archive))[name@] is None,
        },
{
    match archive.by_name(name) {
        Ok(file) => Ok(OpenEntry { file }),
        Err(zip::result::ZipError::FileNotFound) => Err(EntryMiss::Absent),
        Err(_) => Err(EntryMiss::Unreadable),
    }
}

/// Calls `read_to_end` of the entry's `std::io::Read`, which decompresses
/// the entry into a fresh buffer and fails where its data is damaged.
#[verifier::external_body]
fn read_entry(entry: &mut OpenEntry<'_>) -> (content: Option<Vec<u8>>)
    ensures
        match content {
            Some(bytes) => entry_content(*old(entry)) == Some(bytes@),
            None => entry_content(*old(entry)) is None,
        },
{
    let mut bytes = Vec::new();
    match std::io::Read::read_to_end(&mut entry.file, &mut bytes) {
        Ok(_) => Some(bytes),
        Err(_) => None,
    }
}

/// What looking an entry up in a container comes to.
pub enum Lookup {
    /// The bytes hold no container that can be read, or the entry is listed
    /// in it and cannot be decompressed.
    Unreadable,
    /// The container lists no entry of that name.
    Absent,
    /// The entry's decompressed bytes.
    Found(Seq<u8>),
}

/// The result of looking `name` up in the container that `bytes` hold. Names
/// match exactly.
pub open spec fn entry_lookup(bytes: Seq<u8>, name: Seq<char>) -> Lookup {
    match container_entries(bytes) {
        None => Lookup::Unreadable,
        Some(entries) => if !entries.contains_key(name) {
            Lookup::Absent
        } else {
            match entries[name] {
                None => Lookup::Unreadable,
                Some(content) => Lookup::Found(content),
            }
        },
    }
}

/// What looking an entry up in a container came to.
#[derive(Clone, Debug, PartialEq, Eq)]
pub enum EntryLookup {
    /// The bytes hold no container that can be read, or the entry is listed
    /// in it and cannot be decompressed.
    Unreadable,
    /// The container lists no entry of that name.
    Absent,
    /// The entry's decompressed bytes.
    Found(Vec<u8>),
}

impl View for EntryLookup {
    type V = Lookup;

    open spec fn view(&self) -> Lookup {
        match self {
            EntryLookup::Unreadable => Lookup::Unreadable,
            EntryLookup::Absent => Lookup::Absent,
            EntryLookup::Found(content) => Lookup::Found(content@),
        }
    }
}

/// Looks the entry named `name` up in the ZIP container that `archive` holds
/// and decompresses it.
pub fn lookup_entry(archive: Vec<u8>, name: &str) -> (lookup: EntryLookup)
    ensures
        lookup@ == entry_lookup(archive@, name@),
{
    match open_archive(archive) {
        Err(_) => EntryLookup::Unreadable,
        Ok(mut opened) => match find_entry(&mut opened, name) {
            Err(EntryMiss::Absent) => EntryLookup::Absent,
            Err(EntryMiss::Unreadable) => EntryLookup::Unreadable,
            Ok(mut entry) => match read_entry(&mut entry) {
                Some(content) => EntryLookup::Found(content),
                None => EntryLookup::Unreadable,
            },
        },
    }
}

} // verus!
