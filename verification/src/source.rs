//! Acquired content and the hints that come with it.
use vstd::prelude::*;

use crate::bindings::std_text::{path_extension, spec_path_extension, spec_to_lowercase, to_lowercase};
use crate::bindings::view_option;

verus! {

/// Where content came from.
#[derive(Debug, Clone)]
pub enum Origin {
    /// A local file (`file:`).
    File(std::path::PathBuf),
    /// A remote resource (`http:` / `https:`).
    Remote(url::Url),
    /// Content embedded in the URI (`data:`) or handed over directly.
    Inline,
}

/// Raw bytes acquired from a URI together with the hints used to detect
/// their format.
#[derive(Debug, Clone)]
pub struct SourceContent {
    /// The raw bytes.
    pub bytes: Vec<u8>,
    /// The MIME type from a content-type header or a data URI, if any.
    pub mime: Option<String>,
    /// The file name (used for its extension), if any.
    pub filename: Option<String>,
    /// The charset hint, if any.
    pub charset: Option<String>,
    /// Where the content came from.
    pub origin: Origin,
}

/// The lowercased extension of a file name, if it has one.
pub open spec fn spec_extension(filename: Option<Seq<char>>) -> Option<Seq<char>> {
    match filename {
        Some(name) => match spec_path_extension(name) {
            Some(ext) => Some(spec_to_lowercase(ext)),
            None => None,
        },
        None => None,
    }
}

impl SourceContent {
    /// The extension of `filename`, lowercased.
    pub fn extension(&self) -> (r: Option<String>)
        ensures
            view_option(r) == spec_extension(view_option(self.filename)),
    {
        match &self.filename {
            Some(name) => match path_extension(name.as_str()) {
                Some(ext) => Some(to_lowercase(ext.as_str())),
                None => None,
            },
            None => None,
        }
    }
}

} // verus!
