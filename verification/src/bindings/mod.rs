//! Trusted items: every call this library makes into std functions that vstd
//! does not specify, or into outside crates, goes through this module.
//! Each item's doc comment names the function it calls and what its
//! contract claims of it.
pub mod data_uri;
pub mod delimited;
pub mod encoding;
pub mod html_text;
pub mod infer;
pub mod json_text;
pub mod std_text;
pub mod xml;
pub mod uri;
pub mod zip;

use vstd::prelude::*;

verus! {

/// `std::io::Error` is carried through the library without being looked into.
#[verifier::external_type_specification]
#[verifier::external_body]
pub struct ExIoError(std::io::Error);

/// `std::path::PathBuf` is carried through the library (as the origin of a
/// local file) without being looked into.
#[verifier::external_type_specification]
#[verifier::external_body]
pub struct ExPathBuf(std::path::PathBuf);

/// `Clone` for `std::path::PathBuf`; nothing is claimed of the copy.
pub assume_specification[ <std::path::PathBuf as Clone>::clone ](p: &std::path::PathBuf) -> std::path::PathBuf;

/// An option taken by the view of its value.
pub open spec fn view_option<T: View>(o: Option<T>) -> Option<T::V> {
    match o {
        Some(t) => Some(t@),
        None => None,
    }
}

/// A result taken by the views of its two sides.
pub open spec fn view_result<T: View, E: View>(r: Result<T, E>) -> Result<T::V, E::V> {
    match r {
        Ok(t) => Ok(t@),
        Err(e) => Err(e@),
    }
}

/// A result taken by the deep view of its value and the view of its error.
pub open spec fn deep_result<T: DeepView, E: View>(r: Result<T, E>) -> Result<T::V, E::V> {
    match r {
        Ok(t) => Ok(t.deep_view()),
        Err(e) => Err(e@),
    }
}

} // verus!
