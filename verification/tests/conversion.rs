//! Conversion of each supported format, from content read out of `file:`
//! URIs, and the error paths.

use std::io::Write;

use calamine::Reader;

use markitdown::gemini::assess::{measure, Assessment, Measure, ReasonKind};
use markitdown::gemini::failure::{failure_error, GeminiFailure};
use markitdown::gemini::request::thinking_budget;
use markitdown::gemini::response::{distill, ContentPart, ResponseParts};
use markitdown::{
    convert, convert_bytes, Answer, Attempt, ConversionResult, EngineConfig, EpubBook, Extraction,
    Fetched, GeminiConfig, MarkItDownError, SheetData, Step, Tier,
};

fn fixture_uri(name: &str) -> String {
    format!("file:///fixtures/{name}")
}

/// Runs the extraction the engine asks for, with the outside crates.
fn extract(kind: Extraction, bytes: &[u8]) -> Answer {
    match kind {
        Extraction::PdfText => Answer::PdfText(
            pdf_extract::extract_text_from_mem(bytes).map_err(|e| e.to_string()),
        ),
        Extraction::EpubBook => {
            let book = epub::doc::EpubDoc::from_reader(std::io::Cursor::new(bytes.to_vec()))
                .map_err(|e| e.to_string())
                .map(|mut doc| {
                    let title = doc.mdata("title").map(|item| item.value.clone());
                    let mut chapters = Vec::new();
                    loop {
                        chapters.push(doc.get_current_str().map(|(content, _mime)| {
                            htmd::convert(&content).map_err(|e| e.to_string())
                        }));
                        if !doc.go_next() {
                            break;
                        }
                    }
                    EpubBook { title, chapters }
                });
            Answer::EpubBook(book)
        }
        Extraction::Workbook => {
            let sheets = calamine::open_workbook_auto_from_rs(std::io::Cursor::new(bytes.to_vec()))
                .map_err(|e| e.to_string())
                .map(|mut wb| {
                    let mut sheets = Vec::new();
                    for name in wb.sheet_names() {
                        match wb.worksheet_range(&name) {
                            Ok(range) => {
                                let cells = range
                                    .rows()
                                    .map(|row| {
                                        row.iter()
                                            .map(|cell| match cell {
                                                calamine::Data::Empty => None,
                                                other => Some(other.to_string()),
                                            })
                                            .collect()
                                    })
                                    .collect();
                                sheets.push(SheetData { name, cells: Ok(cells) });
                            }
                            Err(e) => {
                                sheets.push(SheetData { name, cells: Err(e.to_string()) });
                                break;
                            }
                        }
                    }
                    sheets
                });
            Answer::Workbook(sheets)
        }
        Extraction::HtmlMarkdown => Answer::HtmlMarkdown(
            htmd::convert(&String::from_utf8_lossy(bytes)).map_err(|e| e.to_string()),
        ),
    }
}

/// Runs a conversion of `file:///fixtures/{name}` whose file holds `bytes`,
/// running the extractors it asks for.
fn convert_file(name: &str, bytes: Vec<u8>) -> Result<ConversionResult, MarkItDownError> {
    let uri = fixture_uri(name);
    let config = EngineConfig::default();
    match convert(&uri, &config, None, &[]) {
        Step::ReadFile(_) => {}
        other => panic!("expected the file to be asked for, got {other:?}"),
    }
    let fetched = Fetched::File(Ok(bytes));
    let mut answers = Vec::new();
    loop {
        match convert(&uri, &config, Some(&fetched), &answers) {
            Step::Finished(r) => return r,
            Step::Extract(kind, b) => answers.push(extract(kind, &b)),
            other => panic!("unexpected step {other:?}"),
        }
    }
}

fn convert_ok(name: &str, bytes: Vec<u8>) -> ConversionResult {
    match convert_file(name, bytes) {
        Ok(r) => r,
        Err(e) => panic!("convert {name} failed: {}", e.message()),
    }
}

fn zip_of(entries: &[(&str, &[u8])]) -> Vec<u8> {
    let mut writer = zip::ZipWriter::new(std::io::Cursor::new(Vec::new()));
    for (name, content) in entries {
        writer
            .start_file(*name, zip::write::SimpleFileOptions::default())
            .expect("start entry");
        writer.write_all(content).expect("write entry");
    }
    writer.finish().expect("finish zip").into_inner()
}

fn sample_pdf() -> Vec<u8> {
    let content = "BT /F1 24 Tf 72 720 Td (Hello PDF from markitdown) Tj ET";
    let objects = [
        "<< /Type /Catalog /Pages 2 0 R >>".to_string(),
        "<< /Type /Pages /Kids [3 0 R] /Count 1 >>".to_string(),
        "<< /Type /Page /Parent 2 0 R /MediaBox [0 0 612 792] /Contents 4 0 R /Resources << /Font << /F1 5 0 R >> >> >>".to_string(),
        format!("<< /Length {} >>\nstream\n{}\nendstream", content.len(), content),
        "<< /Type /Font /Subtype /Type1 /BaseFont /Helvetica /Encoding /WinAnsiEncoding >>".to_string(),
    ];
    let mut out = b"%PDF-1.4\n".to_vec();
    let mut offsets = Vec::new();
    for (i, obj) in objects.iter().enumerate() {
        offsets.push(out.len());
        out.extend_from_slice(format!("{} 0 obj\n{}\nendobj\n", i + 1, obj).as_bytes());
    }
    let xref = out.len();
    out.extend_from_slice(format!("xref\n0 {}\n0000000000 65535 f \n", objects.len() + 1).as_bytes());
    for o in offsets {
        out.extend_from_slice(format!("{o:010} 00000 n \n").as_bytes());
    }
    out.extend_from_slice(
        format!(
            "trailer\n<< /Size {} /Root 1 0 R >>\nstartxref\n{}\n%%EOF\n",
            objects.len() + 1,
            xref
        )
        .as_bytes(),
    );
    out
}

fn sample_docx() -> Vec<u8> {
    let document = [
        r#"<?xml version="1.0" encoding="UTF-8" standalone="yes"?>"#,
        r#"<w:document xmlns:w="http://schemas.openxmlformats.org/wordprocessingml/2006/main"><w:body>"#,
        r#"<w:p><w:pPr><w:pStyle w:val="Title"/></w:pPr><w:r><w:t>Document Title</w:t></w:r></w:p>"#,
        r#"<w:p><w:r><w:t>This is a paragraph of body text.</w:t></w:r></w:p>"#,
        r#"<w:p><w:pPr><w:numPr><w:ilvl w:val="0"/><w:numId w:val="1"/></w:numPr></w:pPr><w:r><w:t>Bullet item</w:t></w:r></w:p>"#,
        r#"<w:tbl><w:tr><w:tc><w:p><w:r><w:t>H1</w:t></w:r></w:p></w:tc><w:tc><w:p><w:r><w:t>H2</w:t></w:r></w:p></w:tc></w:tr>"#,
        r#"<w:tr><w:tc><w:p><w:r><w:t>a</w:t></w:r></w:p></w:tc><w:tc><w:p><w:r><w:t>b</w:t></w:r></w:p></w:tc></w:tr></w:tbl>"#,
        r#"</w:body></w:document>"#
    ].concat();
    zip_of(&[("word/document.xml", document.as_bytes())])
}

fn sample_pptx() -> Vec<u8> {
    let slide = [
        r#"<?xml version="1.0" encoding="UTF-8" standalone="yes"?>"#,
        r#"<p:sld xmlns:a="http://schemas.openxmlformats.org/drawingml/2006/main" xmlns:p="http://schemas.openxmlformats.org/presentationml/2006/main">"#,
        r#"<p:cSld><p:spTree><p:sp><p:txBody><a:p><a:r><a:t>Slide Title Text</a:t></a:r></a:p></p:txBody></p:sp>"#,
        r#"<p:sp><p:txBody><a:p><a:r><a:t>A bullet line on the slide.</a:t></a:r></a:p></p:txBody></p:sp></p:spTree></p:cSld></p:sld>"#
    ].concat();
    zip_of(&[("ppt/slides/slide1.xml", slide.as_bytes())])
}

fn sample_xlsx() -> Vec<u8> {
    let content_types = [
        r#"<?xml version="1.0" encoding="UTF-8" standalone="yes"?>"#,
        r#"<Types xmlns="http://schemas.openxmlformats.org/package/2006/content-types">"#,
        r#"<Default Extension="rels" ContentType="application/vnd.openxmlformats-package.relationships+xml"/>"#,
        r#"<Default Extension="xml" ContentType="application/xml"/>"#,
        r#"<Override PartName="/xl/workbook.xml" ContentType="application/vnd.openxmlformats-officedocument.spreadsheetml.sheet.main+xml"/>"#,
        r#"<Override PartName="/xl/worksheets/sheet1.xml" ContentType="application/vnd.openxmlformats-officedocument.spreadsheetml.worksheet+xml"/>"#,
        r#"</Types>"#
    ].concat();
    let rels = [
        r#"<?xml version="1.0" encoding="UTF-8" standalone="yes"?>"#,
        r#"<Relationships xmlns="http://schemas.openxmlformats.org/package/2006/relationships">"#,
        r#"<Relationship Id="rId1" Type="http://schemas.openxmlformats.org/officeDocument/2006/relationships/officeDocument" Target="xl/workbook.xml"/>"#,
        r#"</Relationships>"#
    ].concat();
    let workbook = [
        r#"<?xml version="1.0" encoding="UTF-8" standalone="yes"?>"#,
        r#"<workbook xmlns="http://schemas.openxmlformats.org/spreadsheetml/2006/main" xmlns:r="http://schemas.openxmlformats.org/officeDocument/2006/relationships">"#,
        r#"<sheets><sheet name="Sheet1" sheetId="1" r:id="rId1"/></sheets></workbook>"#
    ].concat();
    let workbook_rels = [
        r#"<?xml version="1.0" encoding="UTF-8" standalone="yes"?>"#,
        r#"<Relationships xmlns="http://schemas.openxmlformats.org/package/2006/relationships">"#,
        r#"<Relationship Id="rId1" Type="http://schemas.openxmlformats.org/officeDocument/2006/relationships/worksheet" Target="worksheets/sheet1.xml"/>"#,
        r#"</Relationships>"#
    ].concat();
    let sheet = [
        r#"<?xml version="1.0" encoding="UTF-8" standalone="yes"?>"#,
        r#"<worksheet xmlns="http://schemas.openxmlformats.org/spreadsheetml/2006/main"><sheetData>"#,
        r#"<row r="1"><c r="A1" t="inlineStr"><is><t>Product</t></is></c><c r="B1" t="inlineStr"><is><t>Qty</t></is></c></row>"#,
        r#"<row r="2"><c r="A2" t="inlineStr"><is><t>Apple</t></is></c><c r="B2"><v>3</v></c></row>"#,
        r#"</sheetData></worksheet>"#
    ].concat();
    zip_of(&[
        ("[Content_Types].xml", content_types.as_bytes()),
        ("_rels/.rels", rels.as_bytes()),
        ("xl/workbook.xml", workbook.as_bytes()),
        ("xl/_rels/workbook.xml.rels", workbook_rels.as_bytes()),
        ("xl/worksheets/sheet1.xml", sheet.as_bytes()),
    ])
}

fn sample_epub() -> Vec<u8> {
    let container = [
        r#"<?xml version="1.0" encoding="UTF-8"?>"#,
        r#"<container version="1.0" xmlns="urn:oasis:names:tc:opendocument:xmlns:container">"#,
        r#"<rootfiles><rootfile full-path="OEBPS/content.opf" media-type="application/oebps-package+xml"/></rootfiles>"#,
        r#"</container>"#
    ].concat();
    let opf = [
        r#"<?xml version="1.0" encoding="UTF-8"?>"#,
        r#"<package xmlns="http://www.idpf.org/2007/opf" version="2.0" unique-identifier="bookid">"#,
        r#"<metadata xmlns:dc="http://purl.org/dc/elements/1.1/"><dc:title>Sample EPub Title</dc:title>"#,
        r#"<dc:identifier id="bookid">sample-epub</dc:identifier><dc:language>en</dc:language></metadata>"#,
        r#"<manifest><item id="ncx" href="toc.ncx" media-type="application/x-dtbncx+xml"/>"#,
        r#"<item id="chapter1" href="chapter1.xhtml" media-type="application/xhtml+xml"/></manifest>"#,
        r#"<spine toc="ncx"><itemref idref="chapter1"/></spine></package>"#
    ].concat();
    let ncx = [
        r#"<?xml version="1.0" encoding="UTF-8"?>"#,
        r#"<ncx xmlns="http://www.daisy.org/z3986/2005/ncx/" version="2005-1"><head/>"#,
        r#"<docTitle><text>Sample EPub Title</text></docTitle><navMap>"#,
        r#"<navPoint id="np1" playOrder="1"><navLabel><text>Chapter One</text></navLabel><content src="chapter1.xhtml"/></navPoint>"#,
        r#"</navMap></ncx>"#
    ].concat();
    let chapter = [
        r#"<?xml version="1.0" encoding="UTF-8"?>"#,
        r#"<html xmlns="http://www.w3.org/1999/xhtml"><head><title>Chapter One</title></head>"#,
        r#"<body><h1>Chapter One</h1><p>Once upon a time in markitdown.</p></body></html>"#
    ].concat();
    zip_of(&[
        ("mimetype", b"application/epub+zip"),
        ("META-INF/container.xml", container.as_bytes()),
        ("OEBPS/content.opf", opf.as_bytes()),
        ("OEBPS/toc.ncx", ncx.as_bytes()),
        ("OEBPS/chapter1.xhtml", chapter.as_bytes()),
    ])
}

#[test]
fn text_plain() {
    let md = convert_ok("sample.txt", b"Hello plain text\n".to_vec()).markdown;
    assert!(md.contains("Hello plain text"), "got: {md}");
}

#[test]
fn text_shift_jis() {
    let text = "これは日本語のテキストです。シフトJISで書かれたファイルを、文字化けせずに読み込めることを確かめます。";
    let (bytes, _, _) = encoding_rs::SHIFT_JIS.encode(text);
    let md = convert_ok("sample_sjis.txt", bytes.into_owned()).markdown;
    assert!(md.contains("日本語のテキスト"), "got: {md}");
}

#[test]
fn csv_table() {
    let csv = b"Name,Age,City\nAlice,30,Tokyo\nBob,25,Osaka\n".to_vec();
    let md = convert_ok("sample.csv", csv).markdown;
    assert!(md.contains("| Name | Age | City |"), "got: {md}");
    assert!(md.contains("Alice"), "got: {md}");
    assert!(md.contains("| --- |"), "missing separator: {md}");
}

#[test]
fn json_fenced() {
    let json = br#"{"name": "Alice", "age": 30}"#.to_vec();
    let md = convert_ok("sample.json", json).markdown;
    assert!(md.contains("```json"), "got: {md}");
    assert!(md.contains("\"name\""), "got: {md}");
    assert!(md.contains("Alice"), "got: {md}");
}

#[test]
fn xml_fenced() {
    let xml = br#"<?xml version="1.0"?><root><greeting>Hello</greeting></root>"#.to_vec();
    let md = convert_ok("sample.xml", xml).markdown;
    assert!(md.contains("```xml"), "got: {md}");
    assert!(md.contains("Hello"), "got: {md}");
}

#[test]
fn html_structure_and_title() {
    let html = [
        "<html><head><title>Sample Page</title></head><body>",
        "<h1>Heading One</h1><p>Some <b>bold</b> text.</p>",
        "<ul><li>first</li><li>second</li></ul></body></html>"
    ].concat();
    let result = convert_ok("sample.html", html.as_bytes().to_vec());
    assert!(result.markdown.contains("# Heading One"), "got: {}", result.markdown);
    assert!(result.markdown.contains("**bold**"), "got: {}", result.markdown);
    assert!(result.markdown.contains("first"), "got: {}", result.markdown);
    assert_eq!(result.title.as_deref(), Some("Sample Page"));
}

#[test]
fn pdf_text() {
    let md = convert_ok("sample.pdf", sample_pdf()).markdown;
    assert!(md.contains("Hello PDF from markitdown"), "got: {md}");
}

#[test]
fn docx_headings_and_table() {
    let md = convert_ok("sample.docx", sample_docx()).markdown;
    assert!(md.contains("# Document Title"), "got: {md}");
    assert!(md.contains("This is a paragraph of body text."), "got: {md}");
    assert!(md.contains("- Bullet item"), "got: {md}");
    assert!(md.contains("| H1 | H2 |"), "got: {md}");
    assert!(md.contains("| a | b |"), "got: {md}");
}

#[test]
fn pptx_slides() {
    let md = convert_ok("sample.pptx", sample_pptx()).markdown;
    assert!(md.contains("## Slide 1"), "got: {md}");
    assert!(md.contains("Slide Title Text"), "got: {md}");
    assert!(md.contains("A bullet line on the slide."), "got: {md}");
}

#[test]
fn xlsx_sheet_table() {
    let md = convert_ok("sample.xlsx", sample_xlsx()).markdown;
    assert!(md.contains("## Sheet1"), "got: {md}");
    assert!(md.contains("| Product | Qty |"), "got: {md}");
    assert!(md.contains("Apple"), "got: {md}");
}

#[test]
fn epub_chapters_and_title() {
    let result = convert_ok("sample.epub", sample_epub());
    assert!(result.markdown.contains("Chapter One"), "got: {}", result.markdown);
    assert!(
        result.markdown.contains("Once upon a time in markitdown."),
        "got: {}",
        result.markdown
    );
    assert_eq!(result.title.as_deref(), Some("Sample EPub Title"));
}

#[test]
fn zip_recursive_concat() {
    let archive = zip_of(&[
        ("note.txt", b"Inside the zip.\n"),
        ("data.csv", b"k,v\n1,2\n"),
    ]);
    let md = convert_ok("sample.zip", archive).markdown;
    assert!(md.contains("### note.txt"), "got: {md}");
    assert!(md.contains("Inside the zip."), "got: {md}");
    assert!(md.contains("### data.csv"), "got: {md}");
    assert!(md.contains("| k | v |"), "got: {md}");
}

#[test]
fn error_missing_file() {
    let uri = "file:///no/such/path/missing.txt";
    let config = EngineConfig::default();
    match convert(uri, &config, None, &[]) {
        Step::ReadFile(_) => {}
        other => panic!("expected the file to be asked for, got {other:?}"),
    }
    let fetched = Fetched::File(Err("No such file or directory (os error 2)".to_string()));
    let err = match convert(uri, &config, Some(&fetched), &[]) {
        Step::Finished(Err(e)) => e,
        other => panic!("expected an error, got {other:?}"),
    };
    assert!(matches!(err, MarkItDownError::Acquire { .. }), "got: {err:?}");
}

#[test]
fn error_unsupported_scheme() {
    let err = match convert("ftp://example.com/x.txt", &EngineConfig::default(), None, &[]) {
        Step::Finished(Err(e)) => e,
        other => panic!("expected an error, got {other:?}"),
    };
    assert!(matches!(err, MarkItDownError::UnsupportedScheme(_)), "got: {err:?}");
}

#[test]
fn error_unsupported_format() {
    let err = match convert_bytes(
        vec![0u8, 1, 2, 3, 255, 254],
        Some("blob.xyz".to_string()),
        None,
        &EngineConfig::default(),
        &[],
    ) {
        Step::Finished(Err(e)) => e,
        other => panic!("expected an error, got {other:?}"),
    };
    assert!(matches!(err, MarkItDownError::UnsupportedFormat(_)), "got: {err:?}");
}

/// What the Gemini endpoint answers to one tier's request.
enum Canned {
    /// A response whose single candidate carries this text and `STOP`.
    Answers(&'static str),
    /// A failed request.
    Fails(GeminiFailure),
}

fn gemini_config() -> EngineConfig {
    let mut g = GeminiConfig::new("test-key".to_string());
    g.timeout_secs = 10;
    EngineConfig { gemini: Some(g) }
}

/// The verdict on an answer for a small PDF: it is insufficient when it did
/// not stop or is blank.
fn judge(markdown: &str, finish_reason: &str) -> Assessment {
    match measure(markdown, finish_reason) {
        Measure::NotStopped(r) => Assessment::Insufficient { kind: ReasonKind::NotStopped, reason: format!("finishReason={r}") },
        Measure::Empty => Assessment::Insufficient { kind: ReasonKind::Empty, reason: "empty output".to_string() },
        Measure::Counted { .. } => Assessment::Sufficient,
    }
}

fn error_message(e: MarkItDownError) -> String {
    match e {
        MarkItDownError::Decode { message, .. } => message,
        other => other.message(),
    }
}

/// The reply handed back for a canned answer.
fn reply(canned: &Canned) -> Answer {
    Answer::Gemini(gemini_outcome(canned))
}

fn gemini_outcome(canned: &Canned) -> Result<Attempt, String> {
    match canned {
        Canned::Answers(text) => {
            let parts = ResponseParts {
                candidate_count: 1,
                block_reason: None,
                finish_reason: Some("STOP".to_string()),
                parts: vec![ContentPart { text: Some(text.to_string()), thought: false }],
            };
            let response = distill(&parts).map_err(error_message)?;
            let assessment = judge(&response.text, &response.finish_reason);
            Ok(Attempt { response, assessment })
        }
        Canned::Fails(f) => Err(error_message(failure_error(f))),
    }
}

/// Converts `file:///fixtures/{name}` holding `bytes` under `config`,
/// answering the primary and escalation calls with the canned answers.
/// Returns the result and the tier and thinking budget of each call made.
fn convert_with_gemini(
    name: &str,
    bytes: Vec<u8>,
    config: &EngineConfig,
    primary: Canned,
    escalation: Canned,
) -> (Result<ConversionResult, MarkItDownError>, Vec<(Tier, i32)>) {
    let uri = fixture_uri(name);
    let mut fetched = None;
    let mut replies = Vec::new();
    let mut calls = Vec::new();
    loop {
        match convert(&uri, config, fetched.as_ref(), &replies) {
            Step::Finished(r) => return (r, calls),
            Step::ReadFile(_) => fetched = Some(Fetched::File(Ok(bytes.clone()))),
            Step::Fetch(u) => panic!("unexpected fetch of {}", u.as_str()),
            Step::Extract(kind, b) => replies.push(extract(kind, &b)),
            Step::CallGemini(call) => {
                calls.push((call.tier, thinking_budget(call.tier)));
                let canned = if call.tier == Tier::Primary { &primary } else { &escalation };
                replies.push(reply(canned));
            }
        }
    }
}

fn api_failure(code: u16, message: &str) -> Canned {
    Canned::Fails(GeminiFailure::Api { code, message: message.to_string() })
}

#[test]
fn flash_sufficient_returns_primary_without_escalation() {
    let (r, calls) = convert_with_gemini(
        "sample.pdf",
        sample_pdf(),
        &gemini_config(),
        Canned::Answers("# From Flash\n\n| A | B |\n| --- | --- |\n| 1 | 2 |"),
        Canned::Answers("# FROM PRO SHOULD NOT APPEAR"),
    );
    let md = r.expect("gemini primary convert").markdown;
    assert!(md.contains("From Flash"), "expected flash output, got: {md}");
    assert!(!md.contains("FROM PRO"), "pro must not be called when flash is sufficient: {md}");
    // Exactly one primary (flash) request, carrying a numeric thinking
    // budget of 512; no escalation request.
    let flash: Vec<i32> = calls.iter().filter(|(t, _)| *t == Tier::Primary).map(|(_, b)| *b).collect();
    assert_eq!(flash.len(), 1, "expected exactly one flash request, got: {calls:?}");
    assert_eq!(flash[0], 512, "expected numeric thinkingBudget 512, got: {calls:?}");
    assert!(calls.iter().all(|(t, _)| *t == Tier::Primary), "pro must not be called: {calls:?}");
}

#[test]
fn flash_insufficient_escalates_to_pro() {
    let (r, calls) = convert_with_gemini(
        "sample.pdf",
        sample_pdf(),
        &gemini_config(),
        Canned::Answers(""),
        Canned::Answers("# From Pro\n\nRecovered content."),
    );
    let md = r.expect("gemini escalated convert").markdown;
    assert!(md.contains("From Pro"), "expected escalated pro output, got: {md}");
    // Exactly one escalated (pro) request, carrying a numeric thinking
    // budget of -1 (dynamic thinking).
    let pro: Vec<i32> = calls.iter().filter(|(t, _)| *t == Tier::Escalation).map(|(_, b)| *b).collect();
    assert_eq!(pro.len(), 1, "expected exactly one pro request, got: {calls:?}");
    assert_eq!(pro[0], -1, "expected numeric thinkingBudget -1, got: {calls:?}");
}

#[test]
fn unset_key_uses_local_extraction() {
    let (r, calls) = convert_with_gemini(
        "sample.pdf",
        sample_pdf(),
        &EngineConfig::default(),
        Canned::Answers("unused"),
        Canned::Answers("unused"),
    );
    let md = r.expect("local convert").markdown;
    assert!(md.contains("Hello PDF from markitdown"), "expected local extraction, got: {md}");
    assert!(calls.is_empty());
}

#[test]
fn non_pdf_unaffected_when_gemini_enabled() {
    let html = "<html><head><title>Sample Page</title></head><body><h1>Heading One</h1></body></html>";
    let (r, calls) = convert_with_gemini(
        "sample.html",
        html.as_bytes().to_vec(),
        &gemini_config(),
        Canned::Fails(GeminiFailure::Network("connection refused".to_string())),
        Canned::Fails(GeminiFailure::Network("connection refused".to_string())),
    );
    let md = r.expect("html convert").markdown;
    assert!(md.contains("# Heading One"), "expected html conversion unaffected, got: {md}");
    assert!(calls.is_empty());
}

#[test]
fn invalid_key_errors_without_local_fallback() {
    let (r, _) = convert_with_gemini(
        "sample.pdf",
        sample_pdf(),
        &gemini_config(),
        api_failure(400, "API key not valid"),
        Canned::Answers("unused"),
    );
    let msg = r.expect_err("must error on invalid key").message();
    assert!(msg.contains("pdf-gemini"), "expected gemini error: {msg}");
    assert!(!msg.contains("Hello PDF from markitdown"), "must not fall back to local extraction: {msg}");

    let csv = b"Name,Age,City\nAlice,30,Tokyo\nBob,25,Osaka\n".to_vec();
    let next = convert_ok("sample.csv", csv).markdown;
    assert!(next.contains("Alice"), "got: {next}");
}

#[test]
fn rate_limit_errors() {
    let (r, _) = convert_with_gemini(
        "sample.pdf",
        sample_pdf(),
        &gemini_config(),
        api_failure(429, "Resource exhausted"),
        Canned::Answers("unused"),
    );
    let msg = r.expect_err("must error on 429").message();
    assert!(msg.contains("rate-limit"), "got: {msg}");
}

#[test]
fn server_error_errors() {
    let (r, _) = convert_with_gemini(
        "sample.pdf",
        sample_pdf(),
        &gemini_config(),
        api_failure(503, "overloaded"),
        Canned::Answers("unused"),
    );
    let msg = r.expect_err("must error on 5xx").message();
    assert!(msg.contains("server"), "got: {msg}");
}

#[test]
fn timeout_errors() {
    let mut cfg = gemini_config();
    if let Some(g) = cfg.gemini.as_mut() {
        g.timeout_secs = 1;
    }
    let (r, _) = convert_with_gemini(
        "sample.pdf",
        sample_pdf(),
        &cfg,
        Canned::Fails(GeminiFailure::Timeout("operation timed out".to_string())),
        Canned::Answers("unused"),
    );
    let msg = r.expect_err("must error on timeout").message();
    assert!(msg.contains("timeout"), "got: {msg}");
}

#[test]
fn escalation_still_insufficient_errors() {
    let (r, _) = convert_with_gemini(
        "sample.pdf",
        sample_pdf(),
        &gemini_config(),
        Canned::Answers(""),
        Canned::Answers(""),
    );
    let msg = r.expect_err("must error when pro still insufficient").message();
    assert!(msg.contains("escalation insufficient"), "got: {msg}");
}

#[test]
fn insufficient_when_empty() {
    assert_eq!(measure("   \n  ", "STOP"), Measure::Empty);
}

#[test]
fn insufficient_when_finish_reason_not_stop() {
    assert!(matches!(measure("# Plenty of text here", "MAX_TOKENS"), Measure::NotStopped(_)));
}
