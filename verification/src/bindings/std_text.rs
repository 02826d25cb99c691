//! Trusted items over std text functions that vstd leaves unspecified.
use vstd::prelude::*;

use super::view_option;

verus! {

/// Whether `bytes` is valid UTF-8, as `std::str::from_utf8` decides it.
pub open spec fn spec_is_utf8(bytes: Seq<u8>) -> bool {
    vstd::utf8::valid_utf8(bytes)
}

/// Calls `std::str::from_utf8`; claims that it succeeds exactly on valid
/// UTF-8 (vstd's `valid_utf8`), as its documentation states.
#[verifier::external_body]
pub(crate) fn is_utf8(bytes: &[u8]) -> (r: bool)
    ensures
        r == spec_is_utf8(bytes@),
{
    std::str::from_utf8(bytes).is_ok()
}

/// What `str::to_lowercase` returns (full Unicode lowercase mapping).
pub uninterp spec fn spec_to_lowercase(s: Seq<char>) -> Seq<char>;

/// Calls `str::to_lowercase`; claims only that the result is a function of
/// the input, named `spec_to_lowercase`.
#[verifier::external_body]
pub(crate) fn to_lowercase(s: &str) -> (r: String)
    ensures
        r@ == spec_to_lowercase(s@),
{
    s.to_lowercase()
}

/// What `Path::new(name).extension()` returns for a path held in a `str`.
pub uninterp spec fn spec_path_extension(name: Seq<char>) -> Option<Seq<char>>;

/// Calls `std::path::Path::extension`; claims only that the result is a
/// function of the path, named `spec_path_extension`. A path built from a
/// `str` is valid UTF-8, so the lossy conversion back to a `String` is exact.
#[verifier::external_body]
pub(crate) fn path_extension(name: &str) -> (r: Option<String>)
    ensures
        view_option(r) == spec_path_extension(name@),
{
    std::path::Path::new(name).extension().map(|e| e.to_string_lossy().into_owned())
}

} // verus!

verus! {

/// Calls `std::io::Error`'s `Display` implementation (through `to_string`).
/// Nothing is claimed of the text.
#[verifier::external_body]
pub(crate) fn io_error_text(e: &std::io::Error) -> (r: String) {
    e.to_string()
}

} // verus!

verus! {

/// What `String::from_utf8_lossy` returns: the bytes decoded as UTF-8 with
/// each malformed sequence replaced by U+FFFD.
pub uninterp spec fn spec_utf8_lossy(bytes: Seq<u8>) -> Seq<char>;

/// Calls `String::from_utf8_lossy`. Claims that the text is a function of
/// the bytes, named `spec_utf8_lossy`, and, as its documentation states,
/// that valid UTF-8 is decoded exactly.
#[verifier::external_body]
pub(crate) fn utf8_lossy(bytes: &[u8]) -> (r: String)
    ensures
        r@ == spec_utf8_lossy(bytes@),
        vstd::utf8::valid_utf8(bytes@) ==> r@ == vstd::utf8::decode_utf8(bytes@),
{
    String::from_utf8_lossy(bytes).into_owned()
}

} // verus!

verus! {

/// Calls `std::path::Path::file_name` on a `PathBuf` and converts the name
/// lossily to a `String`. Nothing is claimed of the outcome.
#[verifier::external_body]
pub(crate) fn file_name_of(path: &std::path::PathBuf) -> (r: Option<String>) {
    path.file_name().map(|n| n.to_string_lossy().into_owned())
}

} // verus!

verus! {

/// Calls `String::from_utf8`; claims, as its documentation states, that it
/// succeeds exactly on valid UTF-8 and then holds the decoded text.
#[verifier::external_body]
pub(crate) fn string_from_utf8(bytes: Vec<u8>) -> (r: Option<String>)
    ensures
        r is Some == vstd::utf8::valid_utf8(bytes@),
        r matches Some(s) ==> s@ == vstd::utf8::decode_utf8(bytes@),
{
    String::from_utf8(bytes).ok()
}

} // verus!
