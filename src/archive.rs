//! What the library relies on from the `zip` crate, and the std types that
//! its results carry.
use vstd::prelude::*;
use std::io::Cursor;
use zip::result::ZipError;
use zip::ZipArchive;

verus! {

#[verifier::external_type_specification]
#[verifier::external_body]
#[verifier::reject_recursive_types(T)]
pub struct ExCursor<T>(Cursor<T>);

#[verifier::external_type_specification]
#[verifier::external_body]
pub struct ExIoError(std::io::Error);

#[verifier::external_type_specification]
#[verifier::external_body]
#[verifier::reject_recursive_types(R)]
pub struct ExZipArchive<R>(ZipArchive<R>);

#[verifier::external_type_specification]
#[verifier::external_body]
pub struct ExZipError(ZipError);

/// The names of the entries that the central directory of the zip archive
/// `bytes` lists, or `None` where `bytes` cannot be read as a zip archive.
pub uninterp spec fn zip_listing(bytes: Seq<u8>) -> Option<Set<Seq<char>>>;

/// The names of the entries of an opened archive.
pub uninterp spec fn entry_names(archive: ZipArchive<Cursor<Vec<u8>>>) -> Set<Seq<char>>;

/// The bytes of the entry `name` of an opened archive once decompressed, or
/// `None` where the entry cannot be opened or read.
pub uninterp spec fn entry_contents(archive: ZipArchive<Cursor<Vec<u8>>>, name: Seq<char>) -> Option<Seq<u8>>;

/// Relies on `zip::ZipArchive::new`: it reads the central directory of the
/// bytes, so whether it succeeds, and the entries it lists, depend on the
/// bytes alone.
#[verifier::external_body]
pub(crate) fn open_archive(bytes: Vec<u8>) -> (r: Result<ZipArchive<Cursor<Vec<u8>>>, ZipError>)
    ensures
        match r {
            Ok(archive) => zip_listing(bytes@) == Some(entry_names(archive)),
            Err(_) => zip_listing(bytes@) is None,
        },
{
    ZipArchive::new(Cursor::new(bytes))
}

/// Relies on `zip::ZipArchive::file_names`: it yields the key of each entry
/// of the archive's name map, each once.
#[verifier::external_body]
pub(crate) fn file_names(archive: &ZipArchive<Cursor<Vec<u8>>>) -> (r: Vec<String>)
    ensures
        forall|i: int| 0 <= i < r@.len() ==> entry_names(*archive).contains(#[trigger] r@[i]@),
        forall|name: Seq<char>|
            #[trigger] entry_names(*archive).contains(name) ==> exists|i: int|
                0 <= i < r@.len() && r@[i]@ == name,
{
    archive.file_names().map(String::from).collect()
}

/// Relies on `zip::ZipArchive::by_name_decrypt`, whose entry is then read
/// whole with std's `Read::read_to_end`: a name that the archive does not
/// list gives `ZipError::FileNotFound`. The empty password is handed over so
/// that an entry that asks for a password comes back as an error (the
/// password-less `by_name` unwraps that case and panics).
#[verifier::external_body]
pub(crate) fn read_entry(archive: &mut ZipArchive<Cursor<Vec<u8>>>, name: &str) -> (r: Result<Vec<u8>, ZipError>)
    ensures
        match r {
            Ok(bytes) => entry_contents(*old(archive), name@) == Some(bytes@),
            Err(_) => entry_contents(*old(archive), name@) is None,
        },
        !entry_names(*old(archive)).contains(name@) ==> r is Err,
{
    let mut entry = match archive.by_name_decrypt(name, &[])? {
        Ok(entry) => entry,
        Err(_) => return Err(ZipError::UnsupportedArchive(ZipError::PASSWORD_REQUIRED)),
    };
    let mut bytes = Vec::new();
    std::io::Read::read_to_end(&mut entry, &mut bytes)?;
    Ok(bytes)
}

} // verus!
