//! Request logic of the asset server: size formatting for lookup
//! diagnostics, archive lookups, content-type inference, and the decision
//! of what each requested path is answered with.

use crate::archive::archive_entries;
use crate::archive::archive_lookup;
use crate::archive::archive_names;
use crate::archive::lookup_result;
use crate::archive::LookupError;
use crate::text::dec_str;
use crate::text::last_index_of;
use crate::text::rfind_char;
use crate::text::str_eq;
use crate::text::u64_dec;
use vstd::prelude::*;

verus! {

/// `num / den` rounded to the nearest integer, ties to the even neighbour.
pub open spec fn round_half_even(num: int, den: int) -> int {
    let q = num / den;
    let r = num % den;
    if 2 * r < den {
        q
    } else if 2 * r > den {
        q + 1
    } else if q % 2 == 0 {
        q
    } else {
        q + 1
    }
}

/// `n / den` rendered with exactly one decimal digit.
pub open spec fn scaled_str(n: int, den: int) -> Seq<char> {
    let t = round_half_even(10 * n, den);
    dec_str((t / 10) as nat) + "."@ + dec_str((t % 10) as nat)
}

/// A byte count rendered for diagnostics: whole bytes below one KiB, then
/// one decimal digit of the next power of 1024, up to GiB.
pub open spec fn size_str_spec(n: u64) -> Seq<char> {
    if n < 1024 {
        dec_str(n as nat) + " B"@
    } else if n < 1048576 {
        scaled_str(n as int, 1024) + " KiB"@
    } else if n < 1073741824 {
        scaled_str(n as int, 1048576) + " MiB"@
    } else if n < 1099511627776 {
        scaled_str(n as int, 1073741824) + " GiB"@
    } else {
        "Too big"@
    }
}

/// Render `n / den` with one decimal digit, rounding ties to even.
fn scaled(n: u64, den: u64) -> (r: String)
    requires
        2 <= den <= 1099511627776,
        n <= 1099511627776,
    ensures
        r@ == scaled_str(n as int, den as int),
{
    let num = 10 * n;
    let q = num / den;
    let rem = num % den;
    let t: u64 = if 2 * rem < den {
        q
    } else if 2 * rem > den {
        q + 1
    } else if q % 2 == 0 {
        q
    } else {
        q + 1
    };
    let mut s = u64_dec(t / 10);
    s.append(".");
    let frac = u64_dec(t % 10);
    s.append(frac.as_str());
    s
}

/// Format a byte count for lookup diagnostics, as `size_str_spec` states.
pub fn size_str(n: u64) -> (r: String)
    ensures
        r@ == size_str_spec(n),
{
    if n < 1024 {
        let mut s = u64_dec(n);
        s.append(" B");
        s
    } else if n < 1048576 {
        let mut s = scaled(n, 1024);
        s.append(" KiB");
        s
    } else if n < 1073741824 {
        let mut s = scaled(n, 1048576);
        s.append(" MiB");
        s
    } else if n < 1099511627776 {
        let mut s = scaled(n, 1073741824);
        s.append(" GiB");
        s
    } else {
        String::from_str("Too big")
    }
}

/// The final component of a path: everything after the last slash.
pub open spec fn file_name_of(path: Seq<char>) -> Seq<char> {
    match last_index_of(path, '/') {
        None => path,
        Some(i) => path.skip(i + 1),
    }
}

/// The extension of a path: what follows the last dot of its file name.
/// A name without a dot, or whose only dot leads it, has none.
pub open spec fn ext_of(path: Seq<char>) -> Option<Seq<char>> {
    let name = file_name_of(path);
    match last_index_of(name, '.') {
        None => None,
        Some(i) => if i == 0 {
            None
        } else {
            Some(name.skip(i + 1))
        },
    }
}

/// Extract the extension of a path, as `ext_of` states.
pub fn extension_of(path: &str) -> (r: Option<&str>)
    ensures
        match r {
            Some(e) => ext_of(path@) == Some(e@),
            None => ext_of(path@) is None,
        },
{
    let len = path.unicode_len();
    proof {
        crate::text::lemma_last_index_of(path@, '/');
    }
    let name = match rfind_char(path, '/') {
        None => path,
        Some(i) => {
            let n = path.substring_char(i + 1, len);
            proof {
                assert(n@ =~= path@.skip(i + 1));
            }
            n
        },
    };
    let name_len = name.unicode_len();
    proof {
        crate::text::lemma_last_index_of(name@, '.');
    }
    match rfind_char(name, '.') {
        None => None,
        Some(i) => if i == 0 {
            None
        } else {
            let e = name.substring_char(i + 1, name_len);
            proof {
                assert(e@ =~= name@.skip(i + 1));
            }
            Some(e)
        },
    }
}

/// The essence of the MIME type that the content-type table guesses for a
/// file extension, a generic binary type when the extension is unknown.
pub uninterp spec fn mime_of_ext(ext: Seq<char>) -> Seq<char>;

/// Relies on `mime_guess::from_ext`, `MimeGuess::first_or_octet_stream` and
/// `Mime::essence_str`: the guess comes from a fixed compile-time table
/// keyed by the extension alone.
#[verifier::external_body]
fn guess_mime(ext: &str) -> (r: String)
    ensures
        r@ == mime_of_ext(ext@),
{
    mime_guess::from_ext(ext).first_or_octet_stream().essence_str().to_string()
}

/// The content type a served path is answered with: guessed from its
/// extension, a generic binary type when it has none.
pub open spec fn content_type_of(path: Seq<char>) -> Seq<char> {
    match ext_of(path) {
        None => "application/octet-stream"@,
        Some(e) => mime_of_ext(e),
    }
}

/// Compute the content type of a served path.
pub fn content_type_for(path: &str) -> (r: String)
    ensures
        r@ == content_type_of(path@),
{
    match extension_of(path) {
        None => String::from_str("application/octet-stream"),
        Some(e) => guess_mime(e),
    }
}

/// A successful answer of the asset server.
#[derive(Debug)]
pub struct HttpReply {
    pub status: u16,
    pub content_type: String,
    pub body: Vec<u8>,
}

/// A failed answer of the asset server.
#[derive(Debug)]
pub struct HttpError {
    pub status: u16,
    pub message: String,
}

/// The status and body of a failed archive lookup: an absent entry is
/// reported to the HTTP caller as 404; a malformed archive or an
/// inextractable entry is a server-side failure.
pub open spec fn lookup_error_reply(e: LookupError) -> (u16, Seq<char>) {
    match e {
        LookupError::NotFound => (404u16, "File was not found"@),
        LookupError::Unreadable => (500u16, "Failed to write bytes to buffer"@),
        LookupError::Corrupt => (500u16, "Failed to read zip archive as a zip archive"@),
    }
}

/// What serving an archive entry yields: its bytes, or a status and error
/// body.
pub open spec fn find_result(archive: Seq<u8>, path: Seq<char>) -> Result<Seq<u8>, (u16, Seq<char>)> {
    match lookup_result(archive, path) {
        Ok(bytes) => Ok(bytes),
        Err(e) => Err(lookup_error_reply(e)),
    }
}

/// Serve one path from the bundle archive, reporting an absent entry with a
/// 404 status.
pub fn find_file_in_zip(archive: &[u8], path: &str) -> (r: Result<Vec<u8>, HttpError>)
    ensures
        match (r, find_result(archive@, path@)) {
            (Ok(bytes), Ok(spec_bytes)) => bytes@ == spec_bytes,
            (Err(e), Err(spec_e)) => e.status == spec_e.0 && e.message@ == spec_e.1,
            _ => false,
        },
{
    match archive_lookup(archive, path) {
        Ok(bytes) => Ok(bytes),
        Err(LookupError::NotFound) => Err(
            HttpError { status: 404, message: String::from_str("File was not found") },
        ),
        Err(LookupError::Unreadable) => Err(
            HttpError { status: 500, message: String::from_str("Failed to write bytes to buffer") },
        ),
        Err(LookupError::Corrupt) => Err(
            HttpError {
                status: 500,
                message: String::from_str("Failed to read zip archive as a zip archive"),
            },
        ),
    }
}

/// What a `GET` of `path` is answered with: the caller's input bytes when
/// the path is the transaction's virtual input name, the bundle entry of
/// that name otherwise, and an error when the bundle has none.
pub open spec fn serve_result(
    path: Seq<char>,
    input_name: Seq<char>,
    input: Seq<u8>,
    bundle: Seq<u8>,
) -> Result<(Seq<char>, Seq<u8>), (u16, Seq<char>)> {
    if path == input_name {
        Ok((content_type_of(path), input))
    } else {
        match find_result(bundle, path) {
            Ok(bytes) => Ok((content_type_of(path), bytes)),
            Err(e) => Err(e),
        }
    }
}

/// Answer one `GET` request for `path`.
///
/// The virtual input name bypasses the archive entirely and is answered
/// byte-for-byte with the caller's input; any other path is looked up in
/// the bundle archive. Every successful answer has status 200 and a content
/// type inferred from the path's extension.
pub fn serve_path(path: &str, input_name: &str, input: &[u8], bundle: &[u8]) -> (r: Result<
    HttpReply,
    HttpError,
>)
    ensures
        match (r, serve_result(path@, input_name@, input@, bundle@)) {
            (Ok(rep), Ok(spec_rep)) => rep.status == 200 && rep.content_type@ == spec_rep.0
                && rep.body@ == spec_rep.1,
            (Err(e), Err(spec_e)) => e.status == spec_e.0 && e.message@ == spec_e.1,
            _ => false,
        },
        path@ == input_name@ ==> (r matches Ok(rep) && rep.body@ == input@),
        (path@ != input_name@ && (archive_entries(bundle@) matches Some(m) && !m.contains_key(
            path@,
        )) && !archive_names(bundle@).contains(path@)) ==> (r matches Err(e) && e.status == 404
            && e.message@.len() > 0),
{
    proof {
        reveal_strlit("File was not found");
    }
    let content_type = content_type_for(path);
    if str_eq(path, input_name) {
        let body = vstd::slice::slice_to_vec(input);
        Ok(HttpReply { status: 200, content_type, body })
    } else {
        match find_file_in_zip(bundle, path) {
            Ok(body) => Ok(HttpReply { status: 200, content_type, body }),
            Err(e) => Err(e),
        }
    }
}

} // verus!
