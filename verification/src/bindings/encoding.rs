//! Trusted items over `encoding_rs` (finding an encoding by label and
//! decoding with it) and `chardetng` (guessing an encoding).
use vstd::prelude::*;

verus! {

/// `encoding_rs::Encoding` is held by [`TextEncoding`] without being looked
/// into.
#[verifier::external_type_specification]
#[verifier::external_body]
pub struct ExEncoding(encoding_rs::Encoding);

/// `chardetng::EncodingDetector` is held by [`Detector`] without being
/// looked into.
#[verifier::external_type_specification]
#[verifier::external_body]
pub struct ExEncodingDetector(chardetng::EncodingDetector);

/// The name of the encoding that `Encoding::for_label` finds for a label,
/// if any.
pub uninterp spec fn spec_encoding_for_label(label: Seq<char>) -> Option<Seq<char>>;

/// The text that `Encoding::decode` yields for the encoding with the given
/// name (a byte order mark, when present, takes precedence, and malformed
/// sequences become U+FFFD).
pub uninterp spec fn spec_decode(encoding: Seq<char>, bytes: Seq<u8>) -> Seq<char>;

/// The name of the encoding that `EncodingDetector::guess` returns (no
/// top-level domain, UTF-8 allowed) after the detector, made allowing
/// ISO-2022-JP, was fed the bytes as its whole input.
pub uninterp spec fn spec_guessed_encoding(bytes: Seq<u8>) -> Seq<char>;

/// An encoding, viewed as its name.
pub struct TextEncoding {
    encoding: &'static encoding_rs::Encoding,
    name: &'static str,
}

impl View for TextEncoding {
    type V = Seq<char>;

    closed spec fn view(&self) -> Seq<char> {
        self.name@
    }
}

/// An encoding option by the encoding's name.
pub open spec fn encoding_name(e: Option<TextEncoding>) -> Option<Seq<char>> {
    match e {
        Some(t) => Some(t@),
        None => None,
    }
}

impl TextEncoding {
    /// Calls `encoding_rs::Encoding::for_label` on the label's bytes. Claims
    /// that the encoding found is a function of the label, named
    /// `spec_encoding_for_label`.
    #[verifier::external_body]
    pub(crate) fn for_label(label: &str) -> (r: Option<TextEncoding>)
        ensures
            encoding_name(r) == spec_encoding_for_label(label@),
    {
        encoding_rs::Encoding::for_label(label.as_bytes()).map(|e| TextEncoding { encoding: e, name: e.name() })
    }

    /// Calls `Encoding::decode` and keeps the text. Claims that it is a
    /// function of the encoding and the bytes, named `spec_decode`.
    #[verifier::external_body]
    pub(crate) fn decode(&self, bytes: &[u8]) -> (r: String)
        ensures
            r@ == spec_decode(self@, bytes@),
    {
        let (text, _, _) = self.encoding.decode(bytes);
        text.into_owned()
    }
}

/// An encoding detector, viewed as the input it was fed (`None` before any).
pub struct Detector {
    detector: chardetng::EncodingDetector,
    fed: Ghost<Option<Seq<u8>>>,
}

impl View for Detector {
    type V = Option<Seq<u8>>;

    closed spec fn view(&self) -> Option<Seq<u8>> {
        self.fed@
    }
}

impl Detector {
    /// Calls `chardetng::EncodingDetector::new`, allowing ISO-2022-JP.
    #[verifier::external_body]
    pub(crate) fn new() -> (r: Detector)
        ensures
            r@ is None,
    {
        Detector {
            detector: chardetng::EncodingDetector::new(chardetng::Iso2022JpDetection::Allow),
            fed: Ghost(None),
        }
    }

    /// Calls `EncodingDetector::feed` with the whole input at once (`last`
    /// set).
    #[verifier::external_body]
    pub(crate) fn feed_all(&mut self, bytes: &[u8])
        requires
            old(self)@ is None,
        ensures
            final(self)@ == Some(bytes@),
    {
        self.detector.feed(bytes, true);
        self.fed = Ghost(Some(bytes@));
    }

    /// Calls `EncodingDetector::guess` with no top-level domain and UTF-8
    /// allowed. Claims that the encoding is a function of the input fed,
    /// named `spec_guessed_encoding`.
    #[verifier::external_body]
    pub(crate) fn guess(&self) -> (r: TextEncoding)
        requires
            self@ is Some,
        ensures
            r@ == spec_guessed_encoding(self@->Some_0),
    {
        let e = self.detector.guess(None, chardetng::Utf8Detection::Allow);
        TextEncoding { encoding: e, name: e.name() }
    }
}

} // verus!
