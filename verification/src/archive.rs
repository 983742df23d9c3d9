//! Gzipped tar archives: the paths of their entries, and the contents of one entry.

use std::io::Read;

use vstd::prelude::*;

verus! {

/// The model of the entries of an archive: for each the bytes of its path, or why it cannot be read.
pub open spec fn paths_view(entries: Seq<Result<Vec<u8>, String>>) -> Seq<Result<Seq<u8>, Seq<char>>> {
    entries.map_values(
        |entry: Result<Vec<u8>, String>|
            match entry {
                Ok(path) => Ok::<Seq<u8>, Seq<char>>(path@),
                Err(e) => Err::<Seq<u8>, Seq<char>>(e@),
            },
    )
}

/// The entries that `tar::Archive::entries` finds in a gzipped archive, or why it finds none.
pub uninterp spec fn archive_paths(archive: Seq<u8>) -> Result<Seq<Result<Seq<u8>, Seq<char>>>, Seq<char>>;

/// `tar::Archive::entries` on what `flate2::read::GzDecoder` reads from the bytes: the paths of the
/// entries in their order, or the texts of the errors. All of it depends on the bytes alone.
#[verifier::external_body]
pub(crate) fn entry_paths(archive: &[u8]) -> (r: Result<Vec<Result<Vec<u8>, String>>, String>)
    ensures
        match r {
            Ok(entries) => archive_paths(archive@) is Ok && archive_paths(archive@)->Ok_0 == paths_view(
                entries@,
            ),
            Err(e) => archive_paths(archive@) is Err && archive_paths(archive@)->Err_0 == e@,
        },
{
    let mut archive = tar::Archive::new(flate2::read::GzDecoder::new(archive));
    let entries = archive.entries().map_err(|e| e.to_string())?;
    let path = |entry: tar::Entry<_>| entry.path_bytes().into_owned();
    Ok(entries.map(|entry| entry.map(path).map_err(|e| e.to_string())).collect())
}

/// The contents of one of the entries that `tar::Archive::entries` finds in a gzipped archive, or
/// why they cannot be read.
pub uninterp spec fn archive_contents(archive: Seq<u8>, index: usize) -> Result<Seq<u8>, Seq<char>>;

/// `tar::Archive::entries` on what `flate2::read::GzDecoder` reads from the bytes, and `read_to_end`
/// on the entry at a place: its contents, or the text of the error. They depend on the bytes and the
/// place alone. Past the last entry there is nothing to read.
#[verifier::external_body]
pub(crate) fn entry_contents(archive: &[u8], index: usize) -> (r: Result<Vec<u8>, String>)
    ensures
        match r {
            Ok(contents) => archive_contents(archive@, index) is Ok && archive_contents(archive@, index)->Ok_0
                == contents@,
            Err(e) => archive_contents(archive@, index) is Err && archive_contents(archive@, index)->Err_0
                == e@,
        },
{
    let mut archive = tar::Archive::new(flate2::read::GzDecoder::new(archive));
    let mut contents = Vec::new();
    let entry = archive.entries().and_then(|mut entries| entries.nth(index).transpose());
    match entry.map_err(|e| e.to_string())? {
        Some(mut entry) => entry.read_to_end(&mut contents).map_err(|e| e.to_string())?,
        None => 0,
    };
    Ok(contents)
}

} // verus!
