//! The Gemini route: response handling, failure messages, measuring
//! answers, and the escalation decisions.

use std::io::Write;

use markitdown::gemini::assess::{measure, Assessment, Measure, ReasonKind};
use markitdown::gemini::config::{env_parse, nonempty, GeminiSettings};
use markitdown::gemini::failure::{failure_error, GeminiFailure};
use markitdown::gemini::request::generate_url;
use markitdown::gemini::response::{distill, ContentPart, ResponseParts};
use markitdown::{
    Answer, Attempt, Extraction, ConversionResult, EngineConfig, GeminiConfig, GeminiResponse, MarkItDownError, Registry,
    SourceContent, Origin, Step, Tier,
};

fn pdf_source(bytes: Vec<u8>) -> SourceContent {
    SourceContent {
        bytes,
        mime: None,
        filename: Some("doc.pdf".to_string()),
        charset: None,
        origin: Origin::Inline,
    }
}

fn gemini_registry(limit: usize) -> Registry {
    let mut cfg = GeminiConfig::new("test-key".to_string());
    cfg.inline_max_bytes = limit;
    Registry::with_config(&EngineConfig { gemini: Some(cfg) })
}

fn answer(text: &str, assessment: Assessment) -> Answer {
    Answer::Gemini(Ok(Attempt {
        response: GeminiResponse { text: text.to_string(), finish_reason: "STOP".to_string() },
        assessment,
    }))
}

fn insufficient(kind: ReasonKind, reason: &str) -> Assessment {
    Assessment::Insufficient { kind, reason: reason.to_string() }
}

fn decode_message(err: &MarkItDownError) -> (String, String) {
    match err {
        MarkItDownError::Decode { format, message } => (format.clone(), message.clone()),
        other => panic!("expected a decode error, got {other:?}"),
    }
}

fn finished(step: Step<ConversionResult>) -> Result<ConversionResult, MarkItDownError> {
    match step {
        Step::Finished(r) => r,
        other => panic!("expected a finished conversion, got {other:?}"),
    }
}

#[test]
fn response_without_candidates_is_blocked() {
    let parts = ResponseParts { candidate_count: 0, block_reason: Some("SAFETY".to_string()), finish_reason: None, parts: vec![] };
    let (format, message) = decode_message(&distill(&parts).unwrap_err());
    assert_eq!(format, "pdf-gemini");
    assert_eq!(message, "prompt blocked: SAFETY");
    let parts = ResponseParts { candidate_count: 0, block_reason: None, finish_reason: None, parts: vec![] };
    let (_, message) = decode_message(&distill(&parts).unwrap_err());
    assert_eq!(message, "prompt blocked: no candidates returned");
}

#[test]
fn response_text_leaves_out_thoughts() {
    let parts = ResponseParts {
        candidate_count: 1,
        block_reason: None,
        finish_reason: None,
        parts: vec![
            ContentPart { text: Some("thinking...".to_string()), thought: true },
            ContentPart { text: Some("# Title".to_string()), thought: false },
            ContentPart { text: None, thought: false },
            ContentPart { text: Some("\n\nBody".to_string()), thought: false },
        ],
    };
    let r = distill(&parts).unwrap();
    assert_eq!(r.text, "# Title\n\nBody");
    assert_eq!(r.finish_reason, "STOP");
}

#[test]
fn failures_name_their_category() {
    let api = |code: u16| failure_error(&GeminiFailure::Api { code, message: "m".to_string() });
    assert_eq!(decode_message(&api(400)).1, "auth error (400): m");
    assert_eq!(decode_message(&api(403)).1, "auth error (403): m");
    assert_eq!(decode_message(&api(429)).1, "rate-limit error (429): m");
    assert_eq!(decode_message(&api(503)).1, "server error (503): m");
    assert_eq!(decode_message(&api(404)).1, "http error (404): m");
    assert_eq!(decode_message(&api(404)).0, "pdf-gemini");
    let t = failure_error(&GeminiFailure::Timeout("slow".to_string()));
    assert_eq!(decode_message(&t).1, "timeout error: slow");
    let n = failure_error(&GeminiFailure::Network("refused".to_string()));
    assert_eq!(decode_message(&n).1, "network error: refused");
    let o = failure_error(&GeminiFailure::Other("odd".to_string()));
    assert_eq!(decode_message(&o).1, "gemini client error: odd");
}

#[test]
fn answers_are_measured() {
    assert_eq!(measure("# Plenty of text here", "MAX_TOKENS"), Measure::NotStopped("MAX_TOKENS".to_string()));
    assert_eq!(measure("   \n  ", "STOP"), Measure::Empty);
    assert_eq!(
        measure("ab\u{FFFD}\u{FFFD}\u{FFFD}cdefg", "STOP"),
        Measure::Counted { chars: 10, replacements: 3 }
    );
    assert_eq!(measure("tiny", "STOP"), Measure::Counted { chars: 4, replacements: 0 });
}

#[test]
fn pdf_waits_for_the_primary_call() {
    let registry = gemini_registry(1000);
    match registry.convert(&pdf_source(b"%PDF-1.4 x".to_vec()), &[]) {
        Step::CallGemini(call) => {
            assert_eq!(call.tier, Tier::Primary);
            assert_eq!(call.model.thinking_level, "LOW");
            assert_eq!(call.pdf, b"%PDF-1.4 x".to_vec());
        }
        other => panic!("expected a Gemini call, got {other:?}"),
    }
}

#[test]
fn sufficient_primary_is_returned_trimmed() {
    let registry = gemini_registry(1000);
    let replies = vec![answer("  # From Flash\n\n", Assessment::Sufficient)];
    let r = finished(registry.convert(&pdf_source(b"%PDF-1.4 x".to_vec()), &replies)).unwrap();
    assert_eq!(r.markdown, "# From Flash");
    assert_eq!(r.title, None);
}

#[test]
fn insufficient_primary_escalates() {
    let registry = gemini_registry(1000);
    let replies = vec![answer("", insufficient(ReasonKind::Empty, "empty output"))];
    match registry.convert(&pdf_source(b"%PDF-1.4 x".to_vec()), &replies) {
        Step::CallGemini(call) => {
            assert_eq!(call.tier, Tier::Escalation);
            assert_eq!(call.model.thinking_level, "HIGH");
        }
        other => panic!("expected the escalation call, got {other:?}"),
    }
    let replies = vec![
        answer("", insufficient(ReasonKind::Empty, "empty output")),
        answer("# From Pro\n\nRecovered content.", Assessment::Sufficient),
    ];
    let r = finished(registry.convert(&pdf_source(b"%PDF-1.4 x".to_vec()), &replies)).unwrap();
    assert_eq!(r.markdown, "# From Pro\n\nRecovered content.");
}

#[test]
fn escalation_still_insufficient_is_an_error() {
    let registry = gemini_registry(1000);
    let replies = vec![
        answer("", insufficient(ReasonKind::Empty, "empty output")),
        answer("", insufficient(ReasonKind::Empty, "empty output")),
    ];
    let err = finished(registry.convert(&pdf_source(b"%PDF-1.4 x".to_vec()), &replies)).unwrap_err();
    assert_eq!(decode_message(&err), ("pdf-gemini".to_string(), "escalation insufficient: empty output".to_string()));
}

#[test]
fn low_density_after_escalation_is_accepted() {
    let registry = gemini_registry(1000);
    let replies = vec![
        answer("sparse", insufficient(ReasonKind::LowDensity, "low density 1.00 chars/KB")),
        answer(" sparse but complete ", insufficient(ReasonKind::LowDensity, "low density 1.00 chars/KB")),
    ];
    let r = finished(registry.convert(&pdf_source(b"%PDF-1.4 x".to_vec()), &replies)).unwrap();
    assert_eq!(r.markdown, "sparse but complete");
}

#[test]
fn failed_call_is_reported_without_local_fallback() {
    let registry = gemini_registry(1000);
    let replies = vec![Answer::Gemini(Err("auth error (400): API key not valid".to_string()))];
    let err = finished(registry.convert(&pdf_source(b"%PDF-1.4 x".to_vec()), &replies)).unwrap_err();
    assert_eq!(decode_message(&err), ("pdf-gemini".to_string(), "auth error (400): API key not valid".to_string()));
}

#[test]
fn oversized_pdf_is_refused_before_any_call() {
    let registry = gemini_registry(4);
    let err = finished(registry.convert(&pdf_source(b"%PDF-1.4 x".to_vec()), &[])).unwrap_err();
    assert_eq!(
        decode_message(&err).1,
        "file too large for inline conversion (10 bytes > limit 4)"
    );
}

#[test]
fn other_formats_ignore_the_gemini_configuration() {
    let html = SourceContent {
        bytes: b"<h1>Heading One</h1>".to_vec(),
        mime: None,
        filename: Some("page.html".to_string()),
        charset: None,
        origin: Origin::Inline,
    };
    match gemini_registry(1000).convert(&html, &[]) {
        Step::Extract(Extraction::HtmlMarkdown, text) => assert_eq!(text, b"<h1>Heading One</h1>".to_vec()),
        other => panic!("expected the HTML to be converted, got {other:?}"),
    }
    let answers = vec![Answer::HtmlMarkdown(htmd::convert("<h1>Heading One</h1>").map_err(|e| e.to_string()))];
    let with = finished(gemini_registry(1000).convert(&html, &answers)).unwrap();
    let without = finished(Registry::with_config(&EngineConfig::default()).convert(&html, &answers)).unwrap();
    assert_eq!(with.markdown, without.markdown);
    assert!(with.markdown.contains("# Heading One"));
}

#[test]
fn pdfs_inside_an_archive_wait_for_their_calls() {
    let mut writer = zip::ZipWriter::new(std::io::Cursor::new(Vec::new()));
    writer.start_file("a.pdf", zip::write::SimpleFileOptions::default()).unwrap();
    writer.write_all(b"%PDF-1.4 a").unwrap();
    writer.start_file("b.txt", zip::write::SimpleFileOptions::default()).unwrap();
    writer.write_all(b"plain").unwrap();
    let bytes = writer.finish().unwrap().into_inner();
    let src = SourceContent { bytes, mime: None, filename: Some("x.zip".to_string()), charset: None, origin: Origin::Inline };
    let registry = gemini_registry(1000);
    match registry.convert(&src, &[]) {
        Step::CallGemini(call) => assert_eq!(call.pdf, b"%PDF-1.4 a".to_vec()),
        other => panic!("expected a Gemini call, got {other:?}"),
    }
    let replies = vec![Answer::Gemini(Err("server error (503): overloaded".to_string()))];
    let md = finished(registry.convert(&src, &replies)).unwrap().markdown;
    assert_eq!(
        md,
        "### a.pdf\n\n_(skipped: failed to decode pdf-gemini: server error (503): overloaded)_\n\n### b.txt\n\nplain"
    );
}

#[test]
fn endpoint_of_a_model() {
    assert_eq!(
        generate_url("http://127.0.0.1:8080/", "gemini-flash-lite-latest"),
        "http://127.0.0.1:8080/v1beta/models/gemini-flash-lite-latest:generateContent"
    );
    assert_eq!(generate_url("https://h", "m"), "https://h/v1beta/models/m:generateContent");
}

#[test]
fn settings_override_the_defaults() {
    assert_eq!(env_parse(Some(" 42 "), 7, u64::MAX), 42);
    assert_eq!(env_parse(Some("+5"), 7, u64::MAX), 5);
    assert_eq!(env_parse(Some("abc"), 7, u64::MAX), 7);
    assert_eq!(env_parse(Some("   "), 7, u64::MAX), 7);
    assert_eq!(env_parse(None, 7, u64::MAX), 7);
    assert_eq!(env_parse(Some("300"), 7, 255), 7);
    assert_eq!(nonempty(Some("  key ")), Some("key".to_string()));
    assert_eq!(nonempty(Some("   ")), None);

    let settings = GeminiSettings { base_url: Some(" http://mock "), inline_max_bytes: Some("1024"), timeout_secs: Some("x") };
    let cfg = GeminiConfig::with_settings("k".to_string(), &settings);
    assert_eq!(cfg.base_url, "http://mock");
    assert_eq!(cfg.inline_max_bytes, 1024);
    assert_eq!(cfg.timeout_secs, 120);
    assert_eq!(cfg.primary.model, "gemini-flash-lite-latest");
    assert_eq!(cfg.escalation.thinking_level, "HIGH");

    let none = GeminiSettings { base_url: None, inline_max_bytes: None, timeout_secs: None };
    assert!(EngineConfig::with_settings(Some("   "), &none).gemini.is_none());
    let on = EngineConfig::with_settings(Some(" secret "), &none);
    assert_eq!(on.gemini.unwrap().api_key, "secret");
}

#[test]
fn local_pdf_asks_for_the_extractor() {
    let registry = Registry::with_config(&EngineConfig::default());
    match registry.convert(&pdf_source(b"%PDF-1.4 x".to_vec()), &[]) {
        Step::Extract(Extraction::PdfText, bytes) => assert_eq!(bytes, b"%PDF-1.4 x".to_vec()),
        other => panic!("expected the PDF extractor to be asked for, got {other:?}"),
    }
    let replies = vec![Answer::PdfText(Ok("  Hello PDF \n\n".to_string()))];
    let r = finished(registry.convert(&pdf_source(b"%PDF-1.4 x".to_vec()), &replies)).unwrap();
    assert_eq!(r.markdown, "Hello PDF");
    let replies = vec![Answer::PdfText(Err("invalid file header".to_string()))];
    let err = finished(registry.convert(&pdf_source(b"%PDF-1.4 x".to_vec()), &replies)).unwrap_err();
    assert_eq!(decode_message(&err), ("pdf".to_string(), "invalid file header".to_string()));
}

#[test]
fn answer_of_another_kind_is_an_error() {
    let local = Registry::with_config(&EngineConfig::default());
    let replies = vec![answer("# From Flash", Assessment::Sufficient)];
    let err = finished(local.convert(&pdf_source(b"%PDF-1.4 x".to_vec()), &replies)).unwrap_err();
    assert_eq!(
        decode_message(&err),
        ("pdf".to_string(), "the answer does not match the step asked for".to_string())
    );
    let replies = vec![Answer::PdfText(Ok("text".to_string()))];
    let err = finished(gemini_registry(1000).convert(&pdf_source(b"%PDF-1.4 x".to_vec()), &replies))
        .unwrap_err();
    assert_eq!(
        decode_message(&err),
        ("pdf-gemini".to_string(), "the answer does not match the step asked for".to_string())
    );
}

#[test]
fn archives_without_pdfs_ignore_the_gemini_configuration() {
    let mut writer = zip::ZipWriter::new(std::io::Cursor::new(Vec::new()));
    writer.start_file("a.txt", zip::write::SimpleFileOptions::default()).unwrap();
    writer.write_all(b"alpha").unwrap();
    writer.start_file("b.json", zip::write::SimpleFileOptions::default()).unwrap();
    writer.write_all(b"{not json").unwrap();
    let bytes = writer.finish().unwrap().into_inner();
    let src = SourceContent { bytes, mime: None, filename: Some("x.zip".to_string()), charset: None, origin: Origin::Inline };
    let with = finished(gemini_registry(1000).convert(&src, &[])).unwrap();
    let without = finished(Registry::with_config(&EngineConfig::default()).convert(&src, &[])).unwrap();
    assert_eq!(with.markdown, without.markdown);
    assert!(with.markdown.starts_with("### a.txt\n\nalpha\n\n### b.json\n\n_(skipped: failed to decode json"), "got: {}", with.markdown);
    assert_eq!(with.title, None);
}

#[test]
fn only_a_low_density_is_not_a_reliable_failure() {
    assert!(!ReasonKind::LowDensity.is_reliable_failure());
    assert!(ReasonKind::Empty.is_reliable_failure());
    assert!(ReasonKind::Garbled.is_reliable_failure());
    assert!(ReasonKind::NotStopped.is_reliable_failure());
    let registry = gemini_registry(1000);
    let replies = vec![
        answer("sparse", insufficient(ReasonKind::LowDensity, "low density 1.00 chars/KB")),
        answer("garbled", insufficient(ReasonKind::Garbled, "garble ratio 0.300")),
    ];
    let err = finished(registry.convert(&pdf_source(b"%PDF-1.4 x".to_vec()), &replies)).unwrap_err();
    assert_eq!(decode_message(&err).1, "escalation insufficient: garble ratio 0.300");
}
