//! Trusted items over the `data-url` crate.
use vstd::prelude::*;

verus! {

/// `data_url::DataUrl` is held between the calls that read it, without
/// being looked into.
#[verifier::external_type_specification]
#[verifier::external_body]
pub struct ExDataUrl<'a>(data_url::DataUrl<'a>);

/// A processed `data:` URL together with the text it was processed from,
/// which is its view. Values are only made by [`DataUrlText::process`].
pub struct DataUrlText<'a> {
    parsed: data_url::DataUrl<'a>,
    source: &'a str,
}

impl<'a> View for DataUrlText<'a> {
    type V = Seq<char>;

    closed spec fn view(&self) -> Seq<char> {
        self.source@
    }
}

/// The MIME type of a `data:` URL: type, subtype and `(name, value)`
/// parameters, in order.
pub struct DataMime {
    pub type_: String,
    pub subtype: String,
    pub parameters: Vec<(String, String)>,
}

/// The plain value of a [`DataMime`].
pub struct DataMimeView {
    pub type_: Seq<char>,
    pub subtype: Seq<char>,
    pub parameters: Seq<(Seq<char>, Seq<char>)>,
}

impl View for DataMime {
    type V = DataMimeView;

    open spec fn view(&self) -> DataMimeView {
        DataMimeView {
            type_: self.type_@,
            subtype: self.subtype@,
            parameters: self.parameters@.map_values(|p: (String, String)| (p.0@, p.1@)),
        }
    }
}

/// What `DataUrl::process` yields for a text: success, or the `Debug` text
/// of the error.
pub uninterp spec fn spec_data_url_process(input: Seq<char>) -> Result<(), Seq<char>>;

/// What `DataUrl::mime_type` gives for a data URL processed from `input`.
pub uninterp spec fn spec_data_url_mime(input: Seq<char>) -> DataMimeView;

/// What `DataUrl::decode_to_vec` gives for a data URL processed from
/// `input`: the body, or the `Debug` text of the base64 error.
pub uninterp spec fn spec_data_url_body(input: Seq<char>) -> Result<Seq<u8>, Seq<char>>;

/// A processing result by the views of its sides.
pub open spec fn processed_view(r: Result<DataUrlText, String>) -> Result<(), Seq<char>> {
    match r {
        Ok(_) => Ok(()),
        Err(e) => Err(e@),
    }
}

impl<'a> DataUrlText<'a> {
    /// Calls `data_url::DataUrl::process`. Claims that whether it succeeds,
    /// and the error's text, are functions of the input, named
    /// `spec_data_url_process`.
    #[verifier::external_body]
    pub(crate) fn process(input: &'a str) -> (r: Result<DataUrlText<'a>, String>)
        ensures
            processed_view(r) == spec_data_url_process(input@),
            r matches Ok(d) ==> d@ == input@,
    {
        match data_url::DataUrl::process(input) {
            Ok(parsed) => Ok(DataUrlText { parsed, source: input }),
            Err(e) => Err(format!("{e:?}")),
        }
    }

    /// Calls `data_url::DataUrl::mime_type` and copies its fields. Claims
    /// that the MIME type is a function of the processed text, named
    /// `spec_data_url_mime`.
    #[verifier::external_body]
    pub(crate) fn mime_type(&self) -> (r: DataMime)
        ensures
            r@ == spec_data_url_mime(self@),
    {
        let m = self.parsed.mime_type();
        DataMime { type_: m.type_.clone(), subtype: m.subtype.clone(), parameters: m.parameters.clone() }
    }

    /// Calls `data_url::DataUrl::decode_to_vec`, dropping the fragment.
    /// Claims that the outcome is a function of the processed text, named
    /// `spec_data_url_body`.
    #[verifier::external_body]
    pub(crate) fn decode_to_vec(&self) -> (r: Result<Vec<u8>, String>)
        ensures
            crate::bindings::view_result(r) == spec_data_url_body(self@),
    {
        match self.parsed.decode_to_vec() {
            Ok((body, _fragment)) => Ok(body),
            Err(e) => Err(format!("{e:?}")),
        }
    }
}

} // verus!
