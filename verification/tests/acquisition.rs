//! Turning URIs and what was read or fetched for them into sources, and
//! the MCP tool's replies.

use markitdown::acquire::{filename_from_url, parse_uri, split_content_type, HttpAcquirer, HttpResponse};
use markitdown::server::{task_failure_reply, tool_reply, transport_check};
use markitdown::{
    acquire, convert, convert_to_string, Answer, ConversionResult, EngineConfig, Extraction, Fetched,
    MarkItDownError, Step,
};

#[test]
fn remote_fetches_name_the_library() {
    assert_eq!(HttpAcquirer::default().user_agent, "markitdown-rust/0.1.0");
}

#[test]
fn content_types_split_into_mime_and_charset() {
    assert_eq!(
        split_content_type("Text/HTML; charset=\"utf-8\""),
        (Some("text/html".to_string()), Some("utf-8".to_string()))
    );
    assert_eq!(split_content_type("text/plain"), (Some("text/plain".to_string()), None));
    assert_eq!(split_content_type(" ; charset=latin1"), (None, Some("latin1".to_string())));
    assert_eq!(
        split_content_type("text/csv; charset=a; charset=b"),
        (Some("text/csv".to_string()), Some("b".to_string()))
    );
}

#[test]
fn file_names_from_urls() {
    let u = parse_uri("https://example.com/docs/report.pdf?x=1").unwrap();
    assert_eq!(filename_from_url(&u), Some("report.pdf".to_string()));
    let u = parse_uri("https://example.com/docs/").unwrap();
    assert_eq!(filename_from_url(&u), None);
    let u = parse_uri("data:text/plain,hi").unwrap();
    assert_eq!(filename_from_url(&u), None);
}

#[test]
fn unparsable_uri_is_invalid() {
    let err = match convert("not a uri", &EngineConfig::default(), None, &[]) {
        Step::Finished(Err(e)) => e,
        other => panic!("expected an error, got {other:?}"),
    };
    assert!(matches!(err, MarkItDownError::InvalidUri(ref m) if m.starts_with("not a uri: ")), "got: {err:?}");
}

#[test]
fn http_html_conversion() {
    let uri = "http://127.0.0.1:9/page.html";
    let config = EngineConfig::default();
    let url = match convert(uri, &config, None, &[]) {
        Step::Fetch(u) => u,
        other => panic!("expected a fetch, got {other:?}"),
    };
    assert_eq!(url.as_str(), "http://127.0.0.1:9/page.html");
    let response = HttpResponse {
        final_url: parse_uri("http://127.0.0.1:9/final/page.html").unwrap(),
        content_type: Some("text/html; charset=utf-8".to_string()),
        bytes: b"<html><head><title>Remote</title></head><body><h1>Remote Heading</h1></body></html>".to_vec(),
    };
    let fetched = Fetched::Http(Ok(response));
    let text = match convert(uri, &config, Some(&fetched), &[]) {
        Step::Extract(Extraction::HtmlMarkdown, text) => text,
        other => panic!("expected the HTML to be converted, got {other:?}"),
    };
    let answers = vec![Answer::HtmlMarkdown(
        htmd::convert(&String::from_utf8_lossy(&text)).map_err(|e| e.to_string()),
    )];
    let result: ConversionResult = match convert(uri, &config, Some(&fetched), &answers) {
        Step::Finished(Ok(r)) => r,
        other => panic!("expected a conversion, got {other:?}"),
    };
    assert!(result.markdown.contains("# Remote Heading"), "got: {}", result.markdown);
    assert_eq!(result.title.as_deref(), Some("Remote"));
}

#[test]
fn http_unreachable_is_error() {
    let uri = "https://127.0.0.1:9/x";
    let fetched = Fetched::Http(Err("connection refused".to_string()));
    let err = match convert(uri, &EngineConfig::default(), Some(&fetched), &[]) {
        Step::Finished(Err(e)) => e,
        other => panic!("expected an error, got {other:?}"),
    };
    assert_eq!(err.message(), "failed to acquire content from 'https://127.0.0.1:9/x': connection refused");
}

#[test]
fn data_uri_charset_and_markdown_only() {
    let md = match convert_to_string("data:text/plain;charset=UTF-8,caf%C3%A9", &EngineConfig::default(), None, &[]) {
        Step::Finished(Ok(md)) => md,
        other => panic!("expected Markdown, got {other:?}"),
    };
    assert_eq!(md, "café");
}

#[test]
fn bad_base64_is_an_acquisition_error() {
    let err = match convert("data:text/plain;base64,@@@", &EngineConfig::default(), None, &[]) {
        Step::Finished(Err(e)) => e,
        other => panic!("expected an error, got {other:?}"),
    };
    assert!(matches!(err, MarkItDownError::Acquire { ref message, .. } if message.starts_with("decode failed: ")), "got: {err:?}");
}

#[test]
fn error_messages_of_each_variant() {
    assert_eq!(
        MarkItDownError::UnsupportedScheme("ftp".to_string()).message(),
        "unsupported URI scheme: 'ftp' (supported: http, https, file, data)"
    );
    assert_eq!(MarkItDownError::InvalidUri("x".to_string()).message(), "invalid URI: x");
    assert_eq!(
        MarkItDownError::acquire("u".to_string(), "m".to_string()).message(),
        "failed to acquire content from 'u': m"
    );
    assert_eq!(MarkItDownError::UnsupportedFormat("f".to_string()).message(), "unsupported format: f");
    assert_eq!(
        MarkItDownError::decode("zip".to_string(), "bad".to_string()).message(),
        "failed to decode zip: bad"
    );
    let io = MarkItDownError::Io(std::io::Error::new(std::io::ErrorKind::Other, "disk"));
    assert_eq!(io.message(), "I/O error: disk");
}

#[test]
fn tool_replies() {
    let ok = tool_reply(&Ok(ConversionResult::text("# Doc".to_string())));
    assert!(!ok.is_error);
    assert_eq!(ok.text, "# Doc");
    let err = tool_reply(&Err(MarkItDownError::UnsupportedFormat("blob.xyz".to_string())));
    assert!(err.is_error);
    assert_eq!(err.text, "Error: unsupported format: blob.xyz");
    let failed = task_failure_reply("panicked");
    assert!(failed.is_error);
    assert_eq!(failed.text, "Error: internal task failure: panicked");
}

#[test]
fn only_stdio_is_served() {
    assert_eq!(transport_check(false, "127.0.0.1", 3001), Ok(()));
    assert_eq!(
        transport_check(true, "127.0.0.1", 3001),
        Err("HTTP/SSE transport (127.0.0.1:3001) is not yet implemented; v1 supports stdio only".to_string())
    );
}

#[test]
fn acquisition_comes_before_conversion() {
    match acquire("data:text/plain,hello", None) {
        Step::Finished(Ok(src)) => {
            assert_eq!(src.bytes, b"hello".to_vec());
            assert_eq!(src.mime.as_deref(), Some("text/plain"));
        }
        other => panic!("expected the content, got {other:?}"),
    }
    assert!(matches!(acquire("file:///tmp/x.txt", None), Step::ReadFile(_)));
    match acquire("https://127.0.0.1:9/x", None) {
        Step::Fetch(u) => assert_eq!(u.as_str(), "https://127.0.0.1:9/x"),
        other => panic!("expected a fetch, got {other:?}"),
    }
    match acquire("gopher://h/x", None) {
        Step::Finished(Err(e)) => assert_eq!(e.message(), "unsupported URI scheme: 'gopher' (supported: http, https, file, data)"),
        other => panic!("expected an error, got {other:?}"),
    }
}
