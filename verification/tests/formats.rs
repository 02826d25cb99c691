//! Formulas and edge cases of the format helpers.

use std::io::Write;

use markitdown::converters::docx::{emit_paragraph, heading_level};
use markitdown::converters::html::extract_title;
use markitdown::converters::pptx::slide_number;
use markitdown::converters::epub::EpubConverter;
use markitdown::converters::xlsx::{format_cell, XlsxConverter};
use markitdown::converters::xml::pretty_print;
use markitdown::detect::{by_extension, by_mime};
use markitdown::util::{decode_text, escape_cell, local_name, looks_like_text, markdown_table};
use markitdown::{
    convert_bytes, Answer, ConversionResult, DetectedFormat, EngineConfig, EpubBook, Extraction,
    MarkItDownError, SheetData, Step,
};

/// Converts bytes at hand with no Gemini configuration, running the PDF
/// extractor when it is asked for.
fn at_hand(bytes: Vec<u8>, filename: Option<String>, mime: Option<String>) -> Result<ConversionResult, MarkItDownError> {
    let config = EngineConfig::default();
    let mut answers = Vec::new();
    loop {
        match convert_bytes(bytes.clone(), filename.clone(), mime.clone(), &config, &answers) {
            Step::Finished(r) => return r,
            Step::Extract(Extraction::PdfText, b) => answers.push(Answer::PdfText(
                pdf_extract::extract_text_from_mem(&b).map_err(|e| e.to_string()),
            )),
            other => panic!("unexpected step {other:?}"),
        }
    }
}

fn rows(cells: &[&[&str]]) -> Vec<Vec<String>> {
    cells.iter().map(|r| r.iter().map(|c| c.to_string()).collect()).collect()
}

#[test]
fn table_pads_rows_to_the_widest() {
    let table = markdown_table(&rows(&[&["a", "b"], &["1"]]));
    assert_eq!(table, "| a | b |\n| --- | --- |\n| 1 |  |\n");
}

#[test]
fn table_of_nothing_is_empty() {
    assert_eq!(markdown_table(&[]), "");
    assert_eq!(markdown_table(&rows(&[&[], &[]])), "");
}

#[test]
fn escaped_cell_keeps_table_shape() {
    assert_eq!(escape_cell(" a|b\\c\nd\r "), "a\\|b\\\\c d");
    let table = markdown_table(&rows(&[&["x|y"], &["line\nbreak"]]));
    assert_eq!(table, "| x\\|y |\n| --- |\n| line break |\n");
    assert_eq!(table.lines().count(), 3);
}

#[test]
fn text_detection_sample() {
    assert!(looks_like_text(b""));
    assert!(looks_like_text("héllo wörld".as_bytes()));
    assert!(!looks_like_text(b"abc\0def"));
    // Not UTF-8, but 9 of 10 bytes printable: 9/10 > 0.85.
    assert!(looks_like_text(&[b'a', b'b', b'c', b'd', b'e', b'f', b'g', b'h', 0x01, 0x81]));
    // Not UTF-8, and 5 of 6 printable: 5/6 is below 0.85.
    assert!(!looks_like_text(&[b'a', b'b', b'c', b'd', 0x01, 0x81]));
}

#[test]
fn local_names_drop_the_prefix() {
    assert_eq!(local_name(b"w:p"), b"p");
    assert_eq!(local_name(b"p"), b"p");
    assert_eq!(local_name(b"a:b:c"), b"b:c");
}

#[test]
fn heading_levels_of_styles() {
    assert_eq!(heading_level("Title"), Some(1));
    assert_eq!(heading_level("Heading2"), Some(2));
    assert_eq!(heading_level("heading 6"), Some(6));
    assert_eq!(heading_level("Heading7"), None);
    assert_eq!(heading_level("Heading0"), None);
    assert_eq!(heading_level("Normal"), None);
}

#[test]
fn paragraphs_by_style_and_list() {
    let mut md: Vec<char> = Vec::new();
    let text: Vec<char> = "  Intro  ".chars().collect();
    emit_paragraph(&mut md, &text, &Some("Heading3".to_string()), false);
    let item: Vec<char> = "point".chars().collect();
    emit_paragraph(&mut md, &item, &None, true);
    let blank: Vec<char> = "   ".chars().collect();
    emit_paragraph(&mut md, &blank, &None, false);
    let plain: Vec<char> = "body".chars().collect();
    emit_paragraph(&mut md, &plain, &None, false);
    assert_eq!(md.iter().collect::<String>(), "### Intro\n\n- point\nbody\n\n");
}

#[test]
fn slide_numbers_from_part_names() {
    assert_eq!(slide_number("ppt/slides/slide12.xml"), 12);
    assert_eq!(slide_number("ppt/slides/slide1.xml"), 1);
    assert_eq!(slide_number("ppt/slides/slideX.xml"), u32::MAX);
}

#[test]
fn slides_come_in_numeric_order() {
    let slide = |text: &str| {
        format!(
            "<p:sld xmlns:a=\"a\" xmlns:p=\"p\"><p:cSld><p:spTree><p:sp><p:txBody><a:p><a:r><a:t>{text}</a:t></a:r></a:p></p:txBody></p:sp></p:spTree></p:cSld></p:sld>"
        )
    };
    let mut writer = zip::ZipWriter::new(std::io::Cursor::new(Vec::new()));
    for (name, text) in [("ppt/slides/slide10.xml", "tenth"), ("ppt/slides/slide2.xml", "second")] {
        writer.start_file(name, zip::write::SimpleFileOptions::default()).unwrap();
        writer.write_all(slide(text).as_bytes()).unwrap();
    }
    let bytes = writer.finish().unwrap().into_inner();
    let md = at_hand(bytes, Some("deck.pptx".to_string()), None).unwrap().markdown;
    assert!(md.starts_with("## Slide 1\n\nsecond\n"), "got: {md}");
    assert!(md.contains("## Slide 2\n\ntenth"), "got: {md}");
    assert!(md.find("second").unwrap() < md.find("tenth").unwrap(), "got: {md}");
}

#[test]
fn formats_by_extension_and_mime() {
    assert_eq!(by_extension("md"), Some(DetectedFormat::PlainText));
    assert_eq!(by_extension("htm"), Some(DetectedFormat::Html));
    assert_eq!(by_extension("tsv"), Some(DetectedFormat::Csv));
    assert_eq!(by_extension("xyz"), None);
    assert_eq!(by_mime("text/html; charset=utf-8"), Some(DetectedFormat::Html));
    assert_eq!(by_mime("application/pdf"), Some(DetectedFormat::Pdf));
    assert_eq!(by_mime("application/octet-stream"), None);
    assert_eq!(DetectedFormat::Pdf.label(), "pdf");
    assert_eq!(DetectedFormat::Unknown.label(), "unknown");
}

#[test]
fn cells_of_a_sheet() {
    assert_eq!(format_cell(&None), "");
    assert_eq!(format_cell(&Some("3".to_string())), "3");
}

#[test]
fn charset_hint_wins_over_detection() {
    let (bytes, _, _) = encoding_rs::WINDOWS_1252.encode("café");
    assert_eq!(decode_text(&bytes, Some("windows-1252")), "café");
    assert_eq!(decode_text("plain".as_bytes(), Some("no-such-label")), "plain");
}

#[test]
fn xml_is_reindented_or_kept() {
    let pretty = pretty_print("<a><b>x</b></a>");
    assert_eq!(pretty, "<a>\n  <b>x</b>\n</a>");
    assert_eq!(pretty_print("<a><b></a>"), "<a><b></a>");
}

#[test]
fn titles_are_trimmed_and_blank_ones_dropped() {
    assert_eq!(
        extract_title("<html><head><title>  Hi  </title></head></html>"),
        Some("Hi".to_string())
    );
    assert_eq!(extract_title("<html><head><title>   </title></head></html>"), None);
    assert_eq!(extract_title("<p>no title</p>"), None);
}

#[test]
fn json_is_pretty_printed_or_refused() {
    let md = at_hand(br#"{"a":[1,2]}"#.to_vec(), Some("x.json".to_string()), None)
        .unwrap()
        .markdown;
    assert_eq!(md, "```json\n{\n  \"a\": [\n    1,\n    2\n  ]\n}\n```\n");
    let err = at_hand(b"{not json".to_vec(), Some("x.json".to_string()), None).unwrap_err();
    assert!(matches!(err, MarkItDownError::Decode { ref format, .. } if format == "json"), "got: {err:?}");
}

#[test]
fn tsv_uses_tabs() {
    let md = at_hand(b"a\tb\n1\t2\n".to_vec(), Some("t.tsv".to_string()), None)
        .unwrap()
        .markdown;
    assert_eq!(md, "| a | b |\n| --- | --- |\n| 1 | 2 |\n");
}

#[test]
fn pdf_magic_bytes_are_recognised() {
    let err = at_hand(b"%PDF-1.4\nnot really a pdf".to_vec(), None, None).unwrap_err();
    assert!(matches!(err, MarkItDownError::Decode { ref format, .. } if format == "pdf"), "got: {err:?}");
}

#[test]
fn unknown_format_hint_prefers_the_file_name() {
    let err = at_hand(vec![0, 1, 2], Some("blob.xyz".to_string()), Some("x/y".to_string()))
        .unwrap_err();
    assert_eq!(err.message(), "unsupported format: blob.xyz");
    let err = at_hand(vec![0, 1, 2], None, Some("x/y".to_string())).unwrap_err();
    assert_eq!(err.message(), "unsupported format: x/y");
    let err = at_hand(vec![0, 1, 2], None, None).unwrap_err();
    assert_eq!(err.message(), "unsupported format: unknown");
}

#[test]
fn table_has_one_line_per_row_and_the_separator() {
    let table = markdown_table(&rows(&[&["h1", "h2"], &["a|b", "line\nbreak"], &["x"]]));
    let lines: Vec<&str> = table.split_terminator('\n').collect();
    assert_eq!(lines, vec!["| h1 | h2 |", "| --- | --- |", "| a\\|b | line break |", "| x |  |"]);
    assert!(table.ends_with('\n'));
}

#[test]
fn workbook_and_book_answers_convert() {
    let sheets = vec![
        SheetData { name: "S1".to_string(), cells: Ok(vec![vec![Some("a".to_string()), None]]) },
        SheetData { name: "S2".to_string(), cells: Ok(vec![]) },
    ];
    let md = XlsxConverter.convert(&Ok(sheets)).unwrap().markdown;
    assert_eq!(md, "## S1\n\n| a |  |\n| --- | --- |\n\n## S2\n\n_(empty sheet)_");
    let sheets = vec![SheetData { name: "S1".to_string(), cells: Err("bad sheet".to_string()) }];
    let err = XlsxConverter.convert(&Ok(sheets)).unwrap_err();
    assert_eq!(err.message(), "failed to decode xlsx: bad sheet");
    let book = EpubBook {
        title: Some("T".to_string()),
        chapters: vec![
            Some(Ok("# One\n".to_string())),
            None,
            Some(Err("bad chapter".to_string())),
            Some(Ok("  Two  ".to_string())),
            Some(Ok("   ".to_string())),
        ],
    };
    let r = EpubConverter.convert(&Ok(book)).unwrap();
    assert_eq!(r.markdown, "# One\n\nTwo");
    assert_eq!(r.title.as_deref(), Some("T"));
    let err = EpubConverter.convert(&Err("no container".to_string())).unwrap_err();
    assert_eq!(err.message(), "failed to decode epub: no container");
}
