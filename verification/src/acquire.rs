//! Turning a URI's content into a [`SourceContent`]. `data:` URIs are
//! decoded here; files and remote resources are read by the caller, and
//! what it read is turned into a source here.
use vstd::prelude::*;

use crate::bindings::data_uri::{
    spec_data_url_body, spec_data_url_mime, spec_data_url_process, DataUrlText,
};
use crate::bindings::std_text::{file_name_of, spec_to_lowercase, to_lowercase};
use crate::bindings::uri::{spec_last_path_segment, spec_url_parse, WebUrl};
use crate::bindings::view_option;
use crate::error::{ErrorView, MarkItDownError};
use crate::registry::{source_view, SourceView};
use crate::source::{Origin, SourceContent};
use crate::text::{
    chars_eq_ignore_ascii_case, chars_of, chars_starts_with, copy_range, eq_ignore_ascii_case,
    find_char, find_char_from, lemma_find_char, push_str, split_char, starts_with, string_of,
    trim, trim_chars,
};

verus! {

/// Decodes content embedded in a `data:` URI.
pub struct DataAcquirer;

/// Reads local files (`file:`). The caller does the reading.
pub struct FileAcquirer;

/// The URL that `uri` parses to, or an `InvalidUri` error naming `uri` and
/// the parser's message.
pub open spec fn spec_parse_uri(uri: Seq<char>) -> Result<Seq<char>, ErrorView> {
    match spec_url_parse(uri) {
        Ok(url) => Ok(url),
        Err(e) => Err(ErrorView::InvalidUri(uri + ": "@ + e)),
    }
}

/// Parses `uri` into a URL.
pub fn parse_uri(uri: &str) -> (r: Result<WebUrl, MarkItDownError>)
    ensures
        match r {
            Ok(u) => spec_parse_uri(uri@) == Ok::<Seq<char>, ErrorView>(u@),
            Err(e) => spec_parse_uri(uri@) == Err::<Seq<char>, ErrorView>(e@),
        },
{
    match WebUrl::parse(uri) {
        Ok(u) => Ok(u),
        Err(e) => {
            let mut msg: Vec<char> = Vec::new();
            push_str(&mut msg, uri);
            push_str(&mut msg, ": ");
            push_str(&mut msg, e.as_str());
            Err(MarkItDownError::InvalidUri(string_of(msg.as_slice())))
        },
    }
}

/// The `User-Agent` header of remote fetches: the library's name and
/// version.
pub const USER_AGENT: &'static str = "markitdown-rust/0.1.0";

/// Fetches remote content (`http:` / `https:`). The caller makes the
/// request, sending `user_agent`.
pub struct HttpAcquirer {
    /// The `User-Agent` header sent with requests.
    pub user_agent: String,
}

impl Default for HttpAcquirer {
    /// An acquirer that sends [`USER_AGENT`].
    fn default() -> (r: Self)
        ensures
            r.user_agent@ == USER_AGENT@,
    {
        HttpAcquirer { user_agent: USER_AGENT.to_owned() }
    }
}

/// A source by its view, or the error.
pub open spec fn source_result_view(r: Result<SourceContent, MarkItDownError>) -> Result<
    SourceView,
    ErrorView,
> {
    match r {
        Ok(s) => Ok(source_view(&s)),
        Err(e) => Err(e@),
    }
}

/// The value of the first parameter named `charset` (ignoring ASCII case).
pub open spec fn find_charset(params: Seq<(Seq<char>, Seq<char>)>) -> Option<Seq<char>>
    decreases params.len(),
{
    if params.len() == 0 {
        None
    } else if eq_ignore_ascii_case(params[0].0, "charset"@) {
        Some(params[0].1)
    } else {
        find_charset(params.drop_first())
    }
}

/// What a `data:` URI (by its serialization) yields: its decoded body with
/// the MIME type `type/subtype` and the `charset` parameter, or an
/// acquisition error when it is not a data URL or its base64 is invalid.
pub open spec fn spec_data_source(url: Seq<char>) -> Result<SourceView, ErrorView> {
    match spec_data_url_process(url) {
        Err(e) => Err(ErrorView::Acquire(url, "invalid data URI: "@ + e)),
        Ok(_) => match spec_data_url_body(url) {
            Err(e) => Err(ErrorView::Acquire(url, "decode failed: "@ + e)),
            Ok(body) => {
                let m = spec_data_url_mime(url);
                Ok(
                    SourceView {
                        bytes: body,
                        mime: Some(m.type_ + "/"@ + m.subtype),
                        filename: None,
                        charset: find_charset(m.parameters),
                    },
                )
            },
        },
    }
}

impl DataAcquirer {
    /// Decodes the `data:` URI `url`.
    pub fn acquire(&self, url: &WebUrl) -> (r: Result<SourceContent, MarkItDownError>)
        ensures
            source_result_view(r) == spec_data_source(url@),
            r matches Ok(s) ==> s.origin is Inline,
    {
        let text = url.as_str();
        let parsed = match DataUrlText::process(text) {
            Ok(p) => p,
            Err(e) => {
                let mut msg: Vec<char> = Vec::new();
                push_str(&mut msg, "invalid data URI: ");
                push_str(&mut msg, e.as_str());
                return Err(MarkItDownError::acquire(text.to_owned(), string_of(msg.as_slice())));
            },
        };
        let bytes = match parsed.decode_to_vec() {
            Ok(b) => b,
            Err(e) => {
                let mut msg: Vec<char> = Vec::new();
                push_str(&mut msg, "decode failed: ");
                push_str(&mut msg, e.as_str());
                return Err(MarkItDownError::acquire(text.to_owned(), string_of(msg.as_slice())));
            },
        };
        let mime = parsed.mime_type();
        let mut mime_text: Vec<char> = Vec::new();
        push_str(&mut mime_text, mime.type_.as_str());
        push_str(&mut mime_text, "/");
        push_str(&mut mime_text, mime.subtype.as_str());
        let ghost params = mime@.parameters;
        let mut charset: Option<String> = None;
        let mut i: usize = 0;
        let key = chars_of("charset");
        assert(params.subrange(0, params.len() as int) =~= params);
        while i < mime.parameters.len() && charset.is_none()
            invariant
                i <= mime.parameters@.len(),
                params == mime@.parameters,
                key@ == "charset"@,
                charset is None ==> find_charset(params) == find_charset(
                    params.subrange(i as int, params.len() as int),
                ),
                charset is Some ==> find_charset(params) == view_option(charset),
            decreases mime.parameters@.len() - i,
        {
            let (k, v) = &mime.parameters[i];
            let kc = chars_of(k.as_str());
            let ghost rest = params.subrange(i as int, params.len() as int);
            assert(rest[0] == (k@, v@));
            assert(rest.drop_first() =~= params.subrange(i as int + 1, params.len() as int));
            if chars_eq_ignore_ascii_case(kc.as_slice(), key.as_slice()) {
                charset = Some(v.clone());
            }
            i += 1;
        }
        proof {
            if charset is None {
                assert(params.subrange(i as int, params.len() as int) =~= Seq::<
                    (Seq<char>, Seq<char>),
                >::empty());
            }
        }
        Ok(
            SourceContent {
                bytes,
                mime: Some(string_of(mime_text.as_slice())),
                filename: None,
                charset,
                origin: Origin::Inline,
            },
        )
    }
}

impl FileAcquirer {
    /// The local path that `url` names, or an acquisition error when it
    /// names none.
    pub fn locate(&self, url: &WebUrl) -> (r: Result<std::path::PathBuf, MarkItDownError>)
        ensures
            r matches Err(e) ==> e@ == ErrorView::Acquire(url@, "invalid file path in URI"@),
    {
        match url.to_file_path() {
            Some(p) => Ok(p),
            None => Err(
                MarkItDownError::acquire(
                    url.as_str().to_owned(),
                    String::from_str("invalid file path in URI"),
                ),
            ),
        }
    }

    /// The source for what reading `path` (named by `url`) gave: the bytes,
    /// named after the path's last component, or an acquisition error with
    /// the reading error's text.
    pub fn complete(
        &self,
        url: &WebUrl,
        path: std::path::PathBuf,
        read: &Result<Vec<u8>, String>,
    ) -> (r: Result<SourceContent, MarkItDownError>)
        ensures
            read matches Err(m) ==> r matches Err(e) && e@ == ErrorView::Acquire(url@, m@),
            read matches Ok(b) ==> r matches Ok(s) && s.bytes@ == b@ && s.mime is None
                && s.charset is None && s.origin is File,
    {
        match read {
            Err(m) => Err(MarkItDownError::acquire(url.as_str().to_owned(), m.clone())),
            Ok(b) => {
                let filename = file_name_of(&path);
                Ok(
                    SourceContent {
                        bytes: b.clone(),
                        mime: None,
                        filename,
                        charset: None,
                        origin: Origin::File(path),
                    },
                )
            },
        }
    }
}

/// What the caller received for a remote resource.
#[derive(Debug, Clone)]
pub struct HttpResponse {
    /// The URL after redirects.
    pub final_url: WebUrl,
    /// The `Content-Type` header, when present and visible ASCII.
    pub content_type: Option<String>,
    /// The body.
    pub bytes: Vec<u8>,
}

/// The plain value of an [`HttpResponse`].
pub struct HttpView {
    pub final_url: Seq<char>,
    pub content_type: Option<Seq<char>>,
    pub bytes: Seq<u8>,
}

impl View for HttpResponse {
    type V = HttpView;

    open spec fn view(&self) -> HttpView {
        HttpView {
            final_url: self.final_url@,
            content_type: view_option(self.content_type),
            bytes: self.bytes@,
        }
    }
}

/// `s` with every leading and trailing `"` removed (`trim_matches('"')`).
pub open spec fn strip_quotes(s: Seq<char>) -> Seq<char>
    decreases s.len(),
{
    if s.len() > 0 && s[0] == '"' {
        strip_quotes(s.drop_first())
    } else if s.len() > 0 && s.last() == '"' {
        strip_quotes(s.drop_last())
    } else {
        s
    }
}

/// The charset among the parameters of a content type: the value of the
/// last parameter that starts with `charset=`, without quotes.
pub open spec fn charset_param(params: Seq<Seq<char>>) -> Option<Seq<char>>
    decreases params.len(),
{
    if params.len() == 0 {
        None
    } else {
        let p = trim(params.last());
        if starts_with(p, "charset="@) {
            Some(strip_quotes(p.subrange(8, p.len() as int)))
        } else {
            charset_param(params.drop_last())
        }
    }
}

/// A content-type header split into its lowercased MIME type (absent when
/// blank) and its charset.
pub open spec fn spec_split_content_type(value: Seq<char>) -> (Option<Seq<char>>, Option<Seq<char>>) {
    let parts = split_char(value, ';');
    let m = spec_to_lowercase(trim(parts[0]));
    (if m.len() > 0 {
        Some(m)
    } else {
        None
    }, charset_param(parts.drop_first()))
}

/// The pieces of `s` separated by `c`.
pub fn split_on(s: &[char], c: char) -> (r: Vec<Vec<char>>)
    ensures
        r@.map_values(|v: Vec<char>| v@) == split_char(s@, c),
{
    let mut pieces: Vec<Vec<char>> = Vec::new();
    let mut start: usize = 0;
    let n = s.len();
    let ghost whole = s@;
    assert(whole.subrange(0, whole.len() as int) =~= whole);
    loop
        invariant
            start <= s@.len(),
            n == s@.len(),
            whole == s@,
            pieces@.map_values(|v: Vec<char>| v@) + split_char(
                whole.subrange(start as int, whole.len() as int),
                c,
            ) == split_char(whole, c),
        decreases s@.len() - start,
    {
        let ghost rest = whole.subrange(start as int, whole.len() as int);
        match find_char_from(s, start, c) {
            Some(i) => {
                proof {
                    lemma_find_char(rest, c);
                    assert(rest.subrange(0, i - start) =~= whole.subrange(start as int, i as int));
                    assert(rest.subrange(i - start + 1, rest.len() as int) =~= whole.subrange(
                        i as int + 1,
                        whole.len() as int,
                    ));
                }
                let piece = copy_range(s, start, i);
                let ghost before = pieces@.map_values(|v: Vec<char>| v@);
                pieces.push(piece);
                proof {
                    assert(pieces@.map_values(|v: Vec<char>| v@) =~= before.push(
                        whole.subrange(start as int, i as int),
                    ));
                    assert(split_char(rest, c) == seq![whole.subrange(start as int, i as int)]
                        + split_char(whole.subrange(i as int + 1, whole.len() as int), c));
                    assert(before.push(whole.subrange(start as int, i as int)) + split_char(
                        whole.subrange(i as int + 1, whole.len() as int),
                        c,
                    ) =~= before + split_char(rest, c));
                }
                start = i + 1;
            },
            None => {
                let piece = copy_range(s, start, s.len());
                let ghost before = pieces@.map_values(|v: Vec<char>| v@);
                pieces.push(piece);
                proof {
                    assert(split_char(rest, c) == seq![rest]);
                    assert(pieces@.map_values(|v: Vec<char>| v@) =~= before + seq![rest]);
                }
                return pieces;
            },
        }
    }
}

/// `s` without leading and trailing `"`.
fn strip_quotes_chars(s: &[char]) -> (r: Vec<char>)
    ensures
        r@ == strip_quotes(s@),
{
    let mut a: usize = 0;
    let mut b: usize = s.len();
    assert(s@.subrange(0, b as int) =~= s@);
    while a < b && s[a] == '"'
        invariant
            a <= b == s@.len(),
            strip_quotes(s@) == strip_quotes(s@.subrange(a as int, b as int)),
        decreases b - a,
    {
        proof {
            let t = s@.subrange(a as int, b as int);
            assert(t.drop_first() =~= s@.subrange(a as int + 1, b as int));
        }
        a += 1;
    }
    while a < b && s[b - 1] == '"'
        invariant
            a <= b <= s@.len(),
            strip_quotes(s@) == strip_quotes(s@.subrange(a as int, b as int)),
            a < b ==> s@[a as int] != '"',
        decreases b - a,
    {
        proof {
            let t = s@.subrange(a as int, b as int);
            assert(t.drop_last() =~= s@.subrange(a as int, b - 1));
        }
        b -= 1;
    }
    copy_range(s, a, b)
}

/// Splits a content-type header into its lowercased MIME type (`None` when
/// blank) and its `charset` parameter.
pub fn split_content_type(value: &str) -> (r: (Option<String>, Option<String>))
    ensures
        (view_option(r.0), view_option(r.1)) == spec_split_content_type(value@),
{
    let chars = chars_of(value);
    let parts = split_on(chars.as_slice(), ';');
    let ghost pv = parts@.map_values(|v: Vec<char>| v@);
    assert(pv.len() > 0);
    let head = trim_chars(parts[0].as_slice());
    let lowered = to_lowercase(string_of(head.as_slice()).as_str());
    let lv = chars_of(lowered.as_str());
    let mime = if lv.len() > 0 {
        Some(lowered)
    } else {
        None
    };
    let key = chars_of("charset=");
    let mut charset: Option<String> = None;
    let mut k: usize = 1;
    while k < parts.len()
        invariant
            1 <= k <= parts@.len(),
            pv == parts@.map_values(|v: Vec<char>| v@),
            key@ == "charset="@,
            view_option(charset) == charset_param(pv.subrange(1, k as int)),
        decreases parts@.len() - k,
    {
        let p = trim_chars(parts[k].as_slice());
        let ghost sub = pv.subrange(1, k as int + 1);
        proof {
            assert(sub.drop_last() =~= pv.subrange(1, k as int));
            assert(sub.last() == parts@[k as int]@);
        }
        proof {
            reveal_strlit("charset=");
        }
        if chars_starts_with(p.as_slice(), key.as_slice()) {
            let rest = copy_range(p.as_slice(), 8, p.len());
            let stripped = strip_quotes_chars(rest.as_slice());
            charset = Some(string_of(stripped.as_slice()));
        }
        k += 1;
    }
    proof {
        assert(pv.drop_first() =~= pv.subrange(1, pv.len() as int));
    }
    (mime, charset)
}

/// A URL's last path segment, when it has one that is not empty.
pub open spec fn spec_filename_from_url(url: Seq<char>) -> Option<Seq<char>> {
    match spec_last_path_segment(url) {
        Some(s) => if s.len() > 0 {
            Some(s)
        } else {
            None
        },
        None => None,
    }
}

/// The last path segment of `url` as a file name, when it is not empty.
pub fn filename_from_url(url: &WebUrl) -> (r: Option<String>)
    ensures
        view_option(r) == spec_filename_from_url(url@),
{
    match url.last_path_segment() {
        Some(s) => {
            let c = chars_of(s.as_str());
            if c.len() > 0 {
                Some(s)
            } else {
                None
            }
        },
        None => None,
    }
}

/// The source made of a remote response: its body, with MIME type and
/// charset from its content type, named after the last segment of the final
/// URL.
pub open spec fn spec_http_source(resp: HttpView) -> SourceView {
    let (mime, charset) = match resp.content_type {
        Some(ct) => spec_split_content_type(ct),
        None => (None, None),
    };
    SourceView {
        bytes: resp.bytes,
        mime,
        filename: spec_filename_from_url(resp.final_url),
        charset,
    }
}

impl HttpAcquirer {
    /// The source for what fetching `url` gave: the response's content, or
    /// an acquisition error with the client error's text.
    pub fn complete(&self, url: &WebUrl, reply: &Result<HttpResponse, String>) -> (r: Result<
        SourceContent,
        MarkItDownError,
    >)
        ensures
            source_result_view(r) == match reply {
                Ok(resp) => Ok(spec_http_source(resp@)),
                Err(m) => Err(ErrorView::Acquire(url@, m@)),
            },
            r matches Ok(s) ==> s.origin is Remote,
    {
        match reply {
            Err(m) => Err(MarkItDownError::acquire(url.as_str().to_owned(), m.clone())),
            Ok(resp) => {
                let (mime, charset) = match &resp.content_type {
                    Some(ct) => split_content_type(ct.as_str()),
                    None => (None, None),
                };
                Ok(
                    SourceContent {
                        bytes: resp.bytes.clone(),
                        mime,
                        filename: filename_from_url(&resp.final_url),
                        charset,
                        origin: Origin::Remote(resp.final_url.to_url()),
                    },
                )
            },
        }
    }
}

} // verus!
