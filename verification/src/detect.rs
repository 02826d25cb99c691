//! Format detection. Priority order: extension, then MIME type, then magic
//! bytes, then content sniffing.
use vstd::prelude::*;

use crate::bindings::infer::{infer_mime, spec_infer_mime};
use crate::bindings::std_text::{spec_to_lowercase, to_lowercase};
use crate::bindings::view_option;
use crate::util::{spec_zip_listing, zip_listing};
use crate::source::{spec_extension, SourceContent};
use crate::text::{
    before_char, before_first, chars_eq_ignore_ascii_case, chars_eq_str, chars_of,
    chars_starts_with, eq_ignore_ascii_case, starts_with, string_of, trim, trim_chars,
};
use crate::util::{looks_like_text, spec_looks_like_text};

verus! {

/// A detected format. `Unknown` means unsupported.
#[derive(Debug, Clone, Copy, PartialEq, Eq, Hash, Structural)]
pub enum DetectedFormat {
    PlainText,
    Html,
    Csv,
    Json,
    Xml,
    Pdf,
    Docx,
    Pptx,
    Xlsx,
    Epub,
    Zip,
    Unknown,
}

/// The name of each format used in error messages.
pub open spec fn spec_label(f: DetectedFormat) -> Seq<char> {
    match f {
        DetectedFormat::PlainText => "text"@,
        DetectedFormat::Html => "html"@,
        DetectedFormat::Csv => "csv"@,
        DetectedFormat::Json => "json"@,
        DetectedFormat::Xml => "xml"@,
        DetectedFormat::Pdf => "pdf"@,
        DetectedFormat::Docx => "docx"@,
        DetectedFormat::Pptx => "pptx"@,
        DetectedFormat::Xlsx => "xlsx"@,
        DetectedFormat::Epub => "epub"@,
        DetectedFormat::Zip => "zip"@,
        DetectedFormat::Unknown => "unknown"@,
    }
}

impl DetectedFormat {
    /// The name of the format in error messages.
    pub fn label(self) -> (r: &'static str)
        ensures
            r@ == spec_label(self),
    {
        match self {
            DetectedFormat::PlainText => "text",
            DetectedFormat::Html => "html",
            DetectedFormat::Csv => "csv",
            DetectedFormat::Json => "json",
            DetectedFormat::Xml => "xml",
            DetectedFormat::Pdf => "pdf",
            DetectedFormat::Docx => "docx",
            DetectedFormat::Pptx => "pptx",
            DetectedFormat::Xlsx => "xlsx",
            DetectedFormat::Epub => "epub",
            DetectedFormat::Zip => "zip",
            DetectedFormat::Unknown => "unknown",
        }
    }
}

/// Whether some name in `names` starts with `prefix`.
pub open spec fn any_starts_with(names: Seq<Seq<char>>, prefix: Seq<char>) -> bool {
    exists|i: int| 0 <= i < names.len() && starts_with(#[trigger] names[i], prefix)
}

/// How a ZIP-based container is classified by the names of its entries:
/// `word/` makes it DOCX, `ppt/` PPTX, `xl/` XLSX, an entry
/// `META-INF/container.xml` EPub; anything else (including an archive that
/// does not open) is a plain ZIP.
pub open spec fn spec_classify_zip(bytes: Seq<u8>) -> DetectedFormat {
    match spec_zip_listing(bytes) {
        Ok(names) => if any_starts_with(names, "word/"@) {
            DetectedFormat::Docx
        } else if any_starts_with(names, "ppt/"@) {
            DetectedFormat::Pptx
        } else if any_starts_with(names, "xl/"@) {
            DetectedFormat::Xlsx
        } else if names.contains("META-INF/container.xml"@) {
            DetectedFormat::Epub
        } else {
            DetectedFormat::Zip
        },
        Err(_) => DetectedFormat::Zip,
    }
}

fn any_name_starts_with(names: &Vec<String>, prefix: &str) -> (r: bool)
    ensures
        r == any_starts_with(names.deep_view(), prefix@),
{
    let p = chars_of(prefix);
    let ghost d = names.deep_view();
    let mut i: usize = 0;
    while i < names.len()
        invariant
            i <= names@.len(),
            d == names.deep_view(),
            p@ == prefix@,
            forall|j: int| 0 <= j < i ==> !starts_with(#[trigger] d[j], prefix@),
        decreases names@.len() - i,
    {
        let n = chars_of(names[i].as_str());
        if chars_starts_with(n.as_slice(), p.as_slice()) {
            assert(starts_with(d[i as int], prefix@));
            return true;
        }
        i += 1;
    }
    false
}

fn contains_name(names: &Vec<String>, name: &str) -> (r: bool)
    ensures
        r == names.deep_view().contains(name@),
{
    let p = chars_of(name);
    let ghost d = names.deep_view();
    let mut i: usize = 0;
    while i < names.len()
        invariant
            i <= names@.len(),
            d == names.deep_view(),
            p@ == name@,
            forall|j: int| 0 <= j < i ==> #[trigger] d[j] != name@,
        decreases names@.len() - i,
    {
        let n = chars_of(names[i].as_str());
        if chars_eq_str(n.as_slice(), name) {
            assert(d[i as int] == name@);
            return true;
        }
        i += 1;
    }
    false
}

/// Classifies a ZIP-based container by its entry names.
fn classify_zip(bytes: &[u8]) -> (r: DetectedFormat)
    ensures
        r == spec_classify_zip(bytes@),
{
    match zip_listing(bytes) {
        Ok(names) => {
            if any_name_starts_with(&names, "word/") {
                DetectedFormat::Docx
            } else if any_name_starts_with(&names, "ppt/") {
                DetectedFormat::Pptx
            } else if any_name_starts_with(&names, "xl/") {
                DetectedFormat::Xlsx
            } else if contains_name(&names, "META-INF/container.xml") {
                DetectedFormat::Epub
            } else {
                DetectedFormat::Zip
            }
        },
        Err(_) => DetectedFormat::Zip,
    }
}

/// The format that a (lowercased) file extension names.
pub open spec fn spec_by_extension(ext: Seq<char>) -> Option<DetectedFormat> {
    if ext == "html"@ || ext == "htm"@ || ext == "xhtml"@ {
        Some(DetectedFormat::Html)
    } else if ext == "pdf"@ {
        Some(DetectedFormat::Pdf)
    } else if ext == "csv"@ || ext == "tsv"@ {
        Some(DetectedFormat::Csv)
    } else if ext == "json"@ {
        Some(DetectedFormat::Json)
    } else if ext == "xml"@ {
        Some(DetectedFormat::Xml)
    } else if ext == "docx"@ || ext == "docm"@ {
        Some(DetectedFormat::Docx)
    } else if ext == "pptx"@ || ext == "pptm"@ {
        Some(DetectedFormat::Pptx)
    } else if ext == "xlsx"@ || ext == "xlsm"@ || ext == "xlsb"@ || ext == "xls"@ || ext
        == "ods"@ {
        Some(DetectedFormat::Xlsx)
    } else if ext == "epub"@ {
        Some(DetectedFormat::Epub)
    } else if ext == "txt"@ || ext == "text"@ || ext == "md"@ || ext == "markdown"@ || ext
        == "log"@ {
        Some(DetectedFormat::PlainText)
    } else {
        None
    }
}

pub fn by_extension(ext: &str) -> (r: Option<DetectedFormat>)
    ensures
        r == spec_by_extension(ext@),
{
    let e = chars_of(ext);
    let e = e.as_slice();
    if chars_eq_str(e, "html") || chars_eq_str(e, "htm") || chars_eq_str(e, "xhtml") {
        Some(DetectedFormat::Html)
    } else if chars_eq_str(e, "pdf") {
        Some(DetectedFormat::Pdf)
    } else if chars_eq_str(e, "csv") || chars_eq_str(e, "tsv") {
        Some(DetectedFormat::Csv)
    } else if chars_eq_str(e, "json") {
        Some(DetectedFormat::Json)
    } else if chars_eq_str(e, "xml") {
        Some(DetectedFormat::Xml)
    } else if chars_eq_str(e, "docx") || chars_eq_str(e, "docm") {
        Some(DetectedFormat::Docx)
    } else if chars_eq_str(e, "pptx") || chars_eq_str(e, "pptm") {
        Some(DetectedFormat::Pptx)
    } else if chars_eq_str(e, "xlsx") || chars_eq_str(e, "xlsm") || chars_eq_str(e, "xlsb")
        || chars_eq_str(e, "xls") || chars_eq_str(e, "ods") {
        Some(DetectedFormat::Xlsx)
    } else if chars_eq_str(e, "epub") {
        Some(DetectedFormat::Epub)
    } else if chars_eq_str(e, "txt") || chars_eq_str(e, "text") || chars_eq_str(e, "md")
        || chars_eq_str(e, "markdown") || chars_eq_str(e, "log") {
        Some(DetectedFormat::PlainText)
    } else {
        None
    }
}

/// The base of a MIME type: the part before the first `;`, trimmed.
pub open spec fn mime_base(mime: Seq<char>) -> Seq<char> {
    trim(before_char(mime, ';'))
}

/// The format that a MIME type names (its base, lowercased).
pub open spec fn spec_by_mime(mime: Seq<char>) -> Option<DetectedFormat> {
    let base = spec_to_lowercase(mime_base(mime));
    if base == "text/html"@ || base == "application/xhtml+xml"@ {
        Some(DetectedFormat::Html)
    } else if base == "application/pdf"@ {
        Some(DetectedFormat::Pdf)
    } else if base == "text/csv"@ {
        Some(DetectedFormat::Csv)
    } else if base == "application/json"@ || base == "text/json"@ {
        Some(DetectedFormat::Json)
    } else if base == "application/xml"@ || base == "text/xml"@ {
        Some(DetectedFormat::Xml)
    } else if base == "application/vnd.openxmlformats-officedocument.wordprocessingml.document"@ {
        Some(DetectedFormat::Docx)
    } else if base
        == "application/vnd.openxmlformats-officedocument.presentationml.presentation"@ {
        Some(DetectedFormat::Pptx)
    } else if base == "application/vnd.openxmlformats-officedocument.spreadsheetml.sheet"@
        || base == "application/vnd.ms-excel"@ || base
        == "application/vnd.oasis.opendocument.spreadsheet"@ {
        Some(DetectedFormat::Xlsx)
    } else if base == "application/epub+zip"@ {
        Some(DetectedFormat::Epub)
    } else if base == "text/plain"@ {
        Some(DetectedFormat::PlainText)
    } else {
        None
    }
}

fn mime_base_chars(mime: &str) -> (r: Vec<char>)
    ensures
        r@ == mime_base(mime@),
{
    let m = chars_of(mime);
    let b = before_first(m.as_slice(), ';');
    trim_chars(b.as_slice())
}

pub fn by_mime(mime: &str) -> (r: Option<DetectedFormat>)
    ensures
        r == spec_by_mime(mime@),
{
    let base = mime_base_chars(mime);
    let base = string_of(base.as_slice());
    let lower = to_lowercase(base.as_str());
    let b = chars_of(lower.as_str());
    let b = b.as_slice();
    if chars_eq_str(b, "text/html") || chars_eq_str(b, "application/xhtml+xml") {
        Some(DetectedFormat::Html)
    } else if chars_eq_str(b, "application/pdf") {
        Some(DetectedFormat::Pdf)
    } else if chars_eq_str(b, "text/csv") {
        Some(DetectedFormat::Csv)
    } else if chars_eq_str(b, "application/json") || chars_eq_str(b, "text/json") {
        Some(DetectedFormat::Json)
    } else if chars_eq_str(b, "application/xml") || chars_eq_str(b, "text/xml") {
        Some(DetectedFormat::Xml)
    } else if chars_eq_str(
        b,
        "application/vnd.openxmlformats-officedocument.wordprocessingml.document",
    ) {
        Some(DetectedFormat::Docx)
    } else if chars_eq_str(
        b,
        "application/vnd.openxmlformats-officedocument.presentationml.presentation",
    ) {
        Some(DetectedFormat::Pptx)
    } else if chars_eq_str(b, "application/vnd.openxmlformats-officedocument.spreadsheetml.sheet")
        || chars_eq_str(b, "application/vnd.ms-excel") || chars_eq_str(
        b,
        "application/vnd.oasis.opendocument.spreadsheet",
    ) {
        Some(DetectedFormat::Xlsx)
    } else if chars_eq_str(b, "application/epub+zip") {
        Some(DetectedFormat::Epub)
    } else if chars_eq_str(b, "text/plain") {
        Some(DetectedFormat::PlainText)
    } else {
        None
    }
}

/// The format of content with the given bytes, file name and MIME type:
/// 1. a file extension decides first (`zip` by looking inside the archive);
/// 2. then the MIME type (`application/zip` by looking inside the archive);
/// 3. then the magic bytes (PDF, ZIP, HTML);
/// 4. then content that looks like text is plain text;
/// anything else is `Unknown`.
pub open spec fn spec_detect(
    bytes: Seq<u8>,
    filename: Option<Seq<char>>,
    mime: Option<Seq<char>>,
) -> DetectedFormat {
    let ext = spec_extension(filename);
    if ext is Some && ext->0 == "zip"@ {
        spec_classify_zip(bytes)
    } else if ext is Some && spec_by_extension(ext->0) is Some {
        spec_by_extension(ext->0)->0
    } else if mime is Some && eq_ignore_ascii_case(mime_base(mime->0), "application/zip"@) {
        spec_classify_zip(bytes)
    } else if mime is Some && spec_by_mime(mime->0) is Some {
        spec_by_mime(mime->0)->0
    } else if spec_infer_mime(bytes) == Some("application/pdf"@) {
        DetectedFormat::Pdf
    } else if spec_infer_mime(bytes) == Some("application/zip"@) {
        spec_classify_zip(bytes)
    } else if spec_infer_mime(bytes) == Some("text/html"@) {
        DetectedFormat::Html
    } else if spec_looks_like_text(bytes) {
        DetectedFormat::PlainText
    } else {
        DetectedFormat::Unknown
    }
}

/// Detects the format of acquired content.
pub fn detect(src: &SourceContent) -> (r: DetectedFormat)
    ensures
        r == spec_detect(src.bytes@, view_option(src.filename), view_option(src.mime)),
{
    if let Some(ext) = src.extension() {
        let e = chars_of(ext.as_str());
        if chars_eq_str(e.as_slice(), "zip") {
            return classify_zip(src.bytes.as_slice());
        }
        if let Some(fmt) = by_extension(ext.as_str()) {
            return fmt;
        }
    }
    if let Some(mime) = &src.mime {
        let base = mime_base_chars(mime.as_str());
        let zip = chars_of("application/zip");
        if chars_eq_ignore_ascii_case(base.as_slice(), zip.as_slice()) {
            return classify_zip(src.bytes.as_slice());
        }
        if let Some(fmt) = by_mime(mime.as_str()) {
            return fmt;
        }
    }
    if let Some(kind) = infer_mime(src.bytes.as_slice()) {
        let k = chars_of(kind.as_str());
        if chars_eq_str(k.as_slice(), "application/pdf") {
            return DetectedFormat::Pdf;
        }
        if chars_eq_str(k.as_slice(), "application/zip") {
            return classify_zip(src.bytes.as_slice());
        }
        if chars_eq_str(k.as_slice(), "text/html") {
            return DetectedFormat::Html;
        }
    }
    if looks_like_text(src.bytes.as_slice()) {
        return DetectedFormat::PlainText;
    }
    DetectedFormat::Unknown
}

/// The extensions of the spreadsheet formats the library converts.
pub open spec fn is_spreadsheet_extension(ext: Seq<char>) -> bool {
    ext == "xlsx"@ || ext == "xlsm"@ || ext == "xlsb"@ || ext == "xls"@ || ext == "ods"@
}

/// Every spreadsheet extension (`xlsx`, `xlsm`, `xlsb`, `xls`, `ods`) is
/// recognised as a spreadsheet, and a source whose file name carries one is
/// converted as a spreadsheet, whatever its bytes and MIME type.
pub proof fn lemma_spreadsheet_extensions_are_spreadsheets(
    ext: Seq<char>,
    bytes: Seq<u8>,
    filename: Option<Seq<char>>,
    mime: Option<Seq<char>>,
)
    requires
        is_spreadsheet_extension(ext),
    ensures
        spec_by_extension(ext) == Some(DetectedFormat::Xlsx),
        spec_extension(filename) == Some(ext) ==> spec_detect(bytes, filename, mime)
            == DetectedFormat::Xlsx,
{
    reveal_strlit("xlsx");
    reveal_strlit("xlsm");
    reveal_strlit("xlsb");
    reveal_strlit("xls");
    reveal_strlit("ods");
    reveal_strlit("html");
    reveal_strlit("htm");
    reveal_strlit("xhtml");
    reveal_strlit("pdf");
    reveal_strlit("csv");
    reveal_strlit("tsv");
    reveal_strlit("json");
    reveal_strlit("xml");
    reveal_strlit("docx");
    reveal_strlit("docm");
    reveal_strlit("pptx");
    reveal_strlit("pptm");
    reveal_strlit("zip");
    assert(ext != "html"@) by {
        if ext == "html"@ {
            assert(ext.len() == "html"@.len() && ext[0] == "html"@[0] && ext[1] == "html"@[1]);
        }
    }
    assert(ext != "htm"@) by {
        if ext == "htm"@ {
            assert(ext.len() == "htm"@.len() && ext[0] == "htm"@[0] && ext[1] == "htm"@[1]);
        }
    }
    assert(ext != "xhtml"@) by {
        if ext == "xhtml"@ {
            assert(ext.len() == "xhtml"@.len() && ext[0] == "xhtml"@[0] && ext[1] == "xhtml"@[1]);
        }
    }
    assert(ext != "pdf"@) by {
        if ext == "pdf"@ {
            assert(ext.len() == "pdf"@.len() && ext[0] == "pdf"@[0] && ext[1] == "pdf"@[1]);
        }
    }
    assert(ext != "csv"@) by {
        if ext == "csv"@ {
            assert(ext.len() == "csv"@.len() && ext[0] == "csv"@[0] && ext[1] == "csv"@[1]);
        }
    }
    assert(ext != "tsv"@) by {
        if ext == "tsv"@ {
            assert(ext.len() == "tsv"@.len() && ext[0] == "tsv"@[0] && ext[1] == "tsv"@[1]);
        }
    }
    assert(ext != "json"@) by {
        if ext == "json"@ {
            assert(ext.len() == "json"@.len() && ext[0] == "json"@[0] && ext[1] == "json"@[1]);
        }
    }
    assert(ext != "xml"@) by {
        if ext == "xml"@ {
            assert(ext.len() == "xml"@.len() && ext[0] == "xml"@[0] && ext[1] == "xml"@[1]);
        }
    }
    assert(ext != "docx"@) by {
        if ext == "docx"@ {
            assert(ext.len() == "docx"@.len() && ext[0] == "docx"@[0] && ext[1] == "docx"@[1]);
        }
    }
    assert(ext != "docm"@) by {
        if ext == "docm"@ {
            assert(ext.len() == "docm"@.len() && ext[0] == "docm"@[0] && ext[1] == "docm"@[1]);
        }
    }
    assert(ext != "pptx"@) by {
        if ext == "pptx"@ {
            assert(ext.len() == "pptx"@.len() && ext[0] == "pptx"@[0] && ext[1] == "pptx"@[1]);
        }
    }
    assert(ext != "pptm"@) by {
        if ext == "pptm"@ {
            assert(ext.len() == "pptm"@.len() && ext[0] == "pptm"@[0] && ext[1] == "pptm"@[1]);
        }
    }
    assert(ext != "zip"@) by {
        if ext == "zip"@ {
            assert(ext.len() == "zip"@.len() && ext[0] == "zip"@[0] && ext[1] == "zip"@[1]);
        }
    }
}

} // verus!
