//! Content embedded in `data:` URIs.

use markitdown::{convert, Answer, ConversionResult, EngineConfig, Extraction, MarkItDownError, Step};

/// Converts a `data:` URI, running `htmd` when the HTML Markdown is asked
/// for.
fn convert_data(uri: &str) -> Result<ConversionResult, MarkItDownError> {
    let mut answers = Vec::new();
    loop {
        match convert(uri, &EngineConfig::default(), None, &answers) {
            Step::Finished(r) => return r,
            Step::Extract(Extraction::HtmlMarkdown, text) => answers.push(Answer::HtmlMarkdown(
                htmd::convert(&String::from_utf8_lossy(&text)).map_err(|e| e.to_string()),
            )),
            other => panic!("unexpected step {other:?}"),
        }
    }
}

#[test]
fn data_uri_plain_html() {
    let result = convert_data("data:text/html,<h1>Hi%20There</h1>").expect("data convert");
    assert!(result.markdown.contains("# Hi There"), "got: {}", result.markdown);
}

#[test]
fn data_uri_base64_text() {
    let uri = "data:text/plain;base64,SGVsbG8gZGF0YQ==";
    let md = convert_data(uri).expect("data convert").markdown;
    assert!(md.contains("Hello data"), "got: {md}");
}

#[test]
fn data_uri_invalid_is_error() {
    let err = convert_data("data:not-a-valid-data-uri").unwrap_err();
    assert!(matches!(err, MarkItDownError::Acquire { .. }), "got: {err:?}");
}
