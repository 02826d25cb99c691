//! Trusted items over the `zip` crate: an archive opened over bytes, and
//! its entries.
use std::io::Read;
use vstd::prelude::*;

use super::view_option;

verus! {

/// `zip::ZipArchive` is held by [`ZipReader`] without being looked into.
#[verifier::external_type_specification]
#[verifier::external_body]
#[verifier::reject_recursive_types(R)]
pub struct ExZipArchive<R>(zip::ZipArchive<R>);

/// `std::io::Cursor` is the reader the archive is opened over; it is not
/// looked into.
#[verifier::external_type_specification]
#[verifier::external_body]
#[verifier::reject_recursive_types(T)]
pub struct ExCursor<T>(std::io::Cursor<T>);

/// What `ZipArchive::new` yields over the bytes: success, or the text of
/// the error.
pub uninterp spec fn spec_zip_open(bytes: Seq<u8>) -> Result<(), Seq<char>>;

/// What `ZipArchive::len` returns for the archive in the bytes.
pub uninterp spec fn spec_zip_len(bytes: Seq<u8>) -> nat;

/// What `ZipArchive::file_names` yields for the archive in the bytes, in
/// order.
pub uninterp spec fn spec_zip_names(bytes: Seq<u8>) -> Seq<Seq<char>>;

/// What `ZipArchive::index_for_name` returns for the archive in the bytes.
pub uninterp spec fn spec_zip_index_of(bytes: Seq<u8>, name: Seq<char>) -> Option<nat>;

/// What `ZipArchive::name_for_index` returns for the archive in the bytes.
pub uninterp spec fn spec_zip_name_at(bytes: Seq<u8>, index: nat) -> Option<Seq<char>>;

/// What opening the entry at `index` (`ZipArchive::by_index`) and reading
/// it to its end (`Read::read_to_end`) yields: the error opening it, or its
/// content (`None` when reading fails).
pub uninterp spec fn spec_zip_read(bytes: Seq<u8>, index: nat) -> Result<Option<Seq<u8>>, Seq<char>>;

/// An archive opened over a copy of some bytes, viewed as those bytes.
pub struct ZipReader {
    archive: zip::ZipArchive<std::io::Cursor<Vec<u8>>>,
    bytes: Ghost<Seq<u8>>,
}

impl View for ZipReader {
    type V = Seq<u8>;

    closed spec fn view(&self) -> Seq<u8> {
        self.bytes@
    }
}

/// An opening result: success, or the error's text.
pub open spec fn opened(r: Result<ZipReader, String>) -> Result<(), Seq<char>> {
    match r {
        Ok(_) => Ok(()),
        Err(e) => Err(e@),
    }
}

/// A reading result by the views of its sides.
pub open spec fn read_view(r: Result<Option<Vec<u8>>, String>) -> Result<Option<Seq<u8>>, Seq<char>> {
    match r {
        Ok(c) => Ok(view_option(c)),
        Err(e) => Err(e@),
    }
}

impl ZipReader {
    /// Calls `zip::ZipArchive::new` over a copy of the bytes. Claims that the
    /// outcome is a function of the bytes, named `spec_zip_open`.
    #[verifier::external_body]
    pub(crate) fn open(bytes: &[u8]) -> (r: Result<ZipReader, String>)
        ensures
            opened(r) == spec_zip_open(bytes@),
            r matches Ok(z) ==> z@ == bytes@,
    {
        match zip::ZipArchive::new(std::io::Cursor::new(bytes.to_vec())) {
            Ok(archive) => Ok(ZipReader { archive, bytes: Ghost(bytes@) }),
            Err(e) => Err(e.to_string()),
        }
    }

    /// Calls `ZipArchive::len`. Claims that the count is a function of the
    /// bytes, named `spec_zip_len`.
    #[verifier::external_body]
    pub(crate) fn len(&self) -> (r: usize)
        ensures
            r == spec_zip_len(self@),
    {
        self.archive.len()
    }

    /// Calls `ZipArchive::file_names` and copies the names. Claims that they
    /// are a function of the bytes, named `spec_zip_names`.
    #[verifier::external_body]
    pub(crate) fn file_names(&self) -> (r: Vec<String>)
        ensures
            r@.map_values(|s: String| s@) == spec_zip_names(self@),
    {
        self.archive.file_names().map(|n| n.to_owned()).collect()
    }

    /// Calls `ZipArchive::index_for_name`. Claims that the index is a
    /// function of the bytes and the name, named `spec_zip_index_of`.
    #[verifier::external_body]
    pub(crate) fn index_for_name(&self, name: &str) -> (r: Option<usize>)
        ensures
            match r {
                Some(i) => spec_zip_index_of(self@, name@) == Some(i as nat),
                None => spec_zip_index_of(self@, name@) is None,
            },
    {
        self.archive.index_for_name(name)
    }

    /// Calls `ZipArchive::name_for_index`. Claims that the name is a
    /// function of the bytes and the index, named `spec_zip_name_at`.
    #[verifier::external_body]
    pub(crate) fn name_for_index(&self, index: usize) -> (r: Option<String>)
        ensures
            view_option(r) == spec_zip_name_at(self@, index as nat),
    {
        self.archive.name_for_index(index).map(|n| n.to_owned())
    }

    /// Calls `ZipArchive::by_index` and `Read::read_to_end` on the entry it
    /// opens. The two calls share one item because Verus cannot hold a
    /// `ZipFile` (it refuses the declaration's `Read` bound). Claims that the
    /// outcome is a function of the bytes and the index, named
    /// `spec_zip_read`.
    #[verifier::external_body]
    pub(crate) fn read_entry(&mut self, index: usize) -> (r: Result<Option<Vec<u8>>, String>)
        ensures
            read_view(r) == spec_zip_read(old(self)@, index as nat),
            final(self)@ == old(self)@,
    {
        let mut file = self.archive.by_index(index).map_err(|e| e.to_string())?;
        let mut buf = Vec::new();
        Ok(file.read_to_end(&mut buf).ok().map(|_| buf))
    }
}

} // verus!
