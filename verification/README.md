# markitdown

A document-to-Markdown engine, verified with Verus, and an MCP server around it.

The engine takes the document at an `http:`, `https:`, `file:` or `data:` URI
(or bytes at hand), detects its format (plain text, HTML, JSON, XML, CSV,
DOCX, PPTX, XLSX, EPUB, ZIP, PDF) and renders it as Markdown. PDFs are
extracted locally, or sent to Gemini when an API key is configured, with one
escalation when the first answer is judged insufficient.

## Layout

- `src/` is the verified library. Every public function carries a contract
  over spec functions on plain values (`Seq`, `nat`, `Option`, `Result`), and the
  laws of the library stand there as public proof functions.
  - `bindings/` holds the trusted items: each wrapper or declaration makes one
    call into an outside crate (url, data-url, quick-xml, zip, csv, scraper,
    serde_json, encoding_rs, chardetng, infer) and states what that
    crate's source shows of it.
  - `step.rs`: reading a file, fetching a URL, calling Gemini and running the
    PDF, EPub, spreadsheet and HTML extractors (pdf-extract, epub, calamine,
    htmd, which can panic on malformed input) are done by the caller. A conversion either
    finishes or names the one piece of outside work it needs next, and is run
    again with the answers gathered so far, so the whole decision process is
    verified for every answer.
  - `gemini/route.rs` is the PDF route through Gemini: size limit, primary
    call, assessment, escalation, and the final verdict.
- `app/` is the MCP server (`convert_to_markdown` over stdio): it reads the
  environment, performs the file reads, HTTP fetches, Gemini requests and
  extractions the engine asks for, applies the floating-point thresholds of the accuracy
  heuristic, and answers tool calls.
- `tests/` run the library on concrete documents.
