//! Random-access lookup of a named entry inside an immutable, in-memory
//! zip archive. Each lookup opens its own cursor over the shared buffer, so
//! concurrent lookups never share mutable state.

use vstd::prelude::*;

verus! {

/// Why a lookup returned no bytes.
#[derive(Clone, Copy, Debug, PartialEq, Eq, Structural)]
pub enum LookupError {
    /// The archive holds no entry of that name.
    NotFound,
    /// The archive is not a well-formed zip container.
    Corrupt,
    /// The entry is listed but its bytes cannot be extracted.
    Unreadable,
}

/// The entries of a well-formed zip archive, keyed by entry name, each with
/// the bytes its extraction yields; `None` if the bytes are not a
/// well-formed archive. An entry that is listed but cannot be extracted
/// (for example, an encrypted or truncated one) is absent from the map.
pub uninterp spec fn archive_entries(archive: Seq<u8>) -> Option<Map<Seq<char>, Seq<u8>>>;

/// The entry names a well-formed zip archive lists, whether or not their
/// bytes can be extracted.
pub uninterp spec fn archive_names(archive: Seq<u8>) -> Set<Seq<char>>;

/// Relies on `zip::ZipArchive::new` (parsing the central directory; an error
/// exactly when the buffer is not a well-formed archive), `ZipArchive::by_name`
/// (`ZipError::FileNotFound` exactly when no entry has that name) and
/// `std::io::Read::read_to_end` on the entry reader. The outcome is a
/// function of the archive bytes and the name alone.
#[verifier::external_body]
fn read_archive_entry(archive: &[u8], name: &str) -> (r: Result<Vec<u8>, LookupError>)
    ensures
        match r {
            Ok(bytes) => {
                &&& archive_entries(archive@) matches Some(m)
                &&& m.contains_key(name@)
                &&& m[name@] == bytes@
                &&& archive_names(archive@).contains(name@)
            },
            Err(LookupError::NotFound) => {
                &&& archive_entries(archive@) matches Some(m) && !m.contains_key(name@)
                &&& !archive_names(archive@).contains(name@)
            },
            Err(LookupError::Unreadable) => {
                &&& archive_entries(archive@) matches Some(m) && !m.contains_key(name@)
                &&& archive_names(archive@).contains(name@)
            },
            Err(LookupError::Corrupt) => archive_entries(archive@) is None,
        },
{
    let mut zip = match zip::ZipArchive::new(std::io::Cursor::new(archive)) {
        Ok(z) => z,
        Err(_) => return Err(LookupError::Corrupt),
    };
    let mut entry = match zip.by_name(name) {
        Ok(e) => e,
        Err(zip::result::ZipError::FileNotFound) => return Err(LookupError::NotFound),
        Err(_) => return Err(LookupError::Unreadable),
    };
    let mut bytes = Vec::new();
    match std::io::Read::read_to_end(&mut entry, &mut bytes) {
        Ok(_) => Ok(bytes),
        Err(_) => Err(LookupError::Unreadable),
    }
}

/// What a lookup of `name` in `archive` yields.
pub open spec fn lookup_result(archive: Seq<u8>, name: Seq<char>) -> Result<Seq<u8>, LookupError> {
    match archive_entries(archive) {
        None => Err(LookupError::Corrupt),
        Some(m) => if m.contains_key(name) {
            Ok(m[name])
        } else if archive_names(archive).contains(name) {
            Err(LookupError::Unreadable)
        } else {
            Err(LookupError::NotFound)
        },
    }
}

/// Look up one entry of an in-memory zip archive by name.
pub fn archive_lookup(archive: &[u8], name: &str) -> (r: Result<Vec<u8>, LookupError>)
    ensures
        match (r, lookup_result(archive@, name@)) {
            (Ok(bytes), Ok(spec_bytes)) => bytes@ == spec_bytes,
            (Err(e), Err(spec_e)) => e == spec_e,
            _ => false,
        },
{
    read_archive_entry(archive, name)
}

} // verus!
