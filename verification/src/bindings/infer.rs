//! Trusted items over the `infer` crate.
use vstd::prelude::*;

use super::view_option;

verus! {

/// The MIME type that `infer` recognises from the magic bytes at the start
/// of `bytes`, if any.
pub uninterp spec fn spec_infer_mime(bytes: Seq<u8>) -> Option<Seq<char>>;

/// Calls `infer::get` and, when a type is recognised, `Type::mime_type`.
/// Claims only that the outcome is a function of the bytes, named
/// `spec_infer_mime`.
#[verifier::external_body]
pub(crate) fn infer_mime(bytes: &[u8]) -> (r: Option<String>)
    ensures
        view_option(r) == spec_infer_mime(bytes@),
{
    infer::get(bytes).map(|kind| kind.mime_type().to_string())
}

} // verus!
