//! CSV / TSV conversion to a Markdown table.
use vstd::prelude::*;

use super::text::source_text;
use crate::bindings::delimited::{spec_csv_record, CsvReader};
use crate::bindings::{deep_result, view_option};
use vstd::utf8::encode_utf8;
use crate::error::{ErrorView, MarkItDownError};
use crate::registry::{untitled, ConversionResult, Converted};
use crate::source::{spec_extension, SourceContent};
use crate::text::{chars_eq_str, chars_of};
use crate::util::{decode_text, markdown_table, spec_markdown_table};

verus! {

/// Converts CSV to a Markdown table.
pub struct CsvConverter;

/// The field delimiter: a tab for the `tsv` extension, a comma otherwise.
pub open spec fn spec_delimiter(filename: Option<Seq<char>>) -> u8 {
    if spec_extension(filename) == Some("tsv"@) {
        0x09u8
    } else {
        0x2Cu8
    }
}

/// The records of `input` from the `k`-th on, or the first reading error,
/// reading at most `budget` more records; running out of the budget is
/// reported as an error.
pub open spec fn records_from(input: Seq<u8>, delimiter: u8, k: nat, budget: nat) -> Result<
    Seq<Seq<Seq<char>>>,
    Seq<char>,
>
    decreases budget,
{
    if budget == 0 {
        Err("more records than input bytes"@)
    } else {
        match spec_csv_record(input, delimiter, k) {
            Err(e) => Err(e),
            Ok(None) => Ok(Seq::empty()),
            Ok(Some(fields)) => match records_from(input, delimiter, k + 1, (budget - 1) as nat) {
                Ok(rest) => Ok(seq![fields] + rest),
                Err(e) => Err(e),
            },
        }
    }
}

/// The records of a text: every record of its UTF-8 bytes, up to the end,
/// or the first reading error. At most one record more than the text has
/// bytes is read (each record the reader yields takes at least one byte, so
/// the bound only keeps the reading finite).
pub open spec fn spec_csv_records(text: Seq<char>, delimiter: u8) -> Result<
    Seq<Seq<Seq<char>>>,
    Seq<char>,
> {
    let input = encode_utf8(text);
    records_from(input, delimiter, 0, input.len() + 1)
}

/// Reads every record of `text`.
fn csv_records(text: &str, delimiter: u8) -> (r: Result<Vec<Vec<String>>, String>)
    ensures
        deep_result(r) == spec_csv_records(text@, delimiter),
{
    let input = text.as_bytes();
    let mut reader = CsvReader::new(input, delimiter);
    let mut rows: Vec<Vec<String>> = Vec::new();
    let mut left: usize = input.len();
    loop
        invariant
            input@ == encode_utf8(text@),
            reader@.input == input@,
            reader@.delimiter == delimiter,
            spec_csv_records(text@, delimiter) == match records_from(
                input@,
                delimiter,
                reader@.records,
                (left + 1) as nat,
            ) {
                Ok(rest) => Ok(rows.deep_view() + rest),
                Err(e) => Err(e),
            },
        decreases left,
    {
        let ghost k = reader@.records;
        let ghost before = rows.deep_view();
        match reader.read_record() {
            Err(e) => {
                return Err(e);
            },
            Ok(None) => {
                assert(before + Seq::<Seq<Seq<char>>>::empty() =~= before);
                return Ok(rows);
            },
            Ok(Some(fields)) => {
                if left == 0 {
                    proof {
                        assert(records_from(input@, delimiter, k + 1, 0) == Err::<
                            Seq<Seq<Seq<char>>>,
                            Seq<char>,
                        >("more records than input bytes"@));
                    }
                    return Err(String::from_str("more records than input bytes"));
                }
                let ghost fv = fields@.map_values(|f: String| f@);
                assert(fields.deep_view() =~= fv);
                rows.push(fields);
                left = left - 1;
                proof {
                    assert(rows.deep_view() =~= before.push(fv));
                    match records_from(input@, delimiter, k + 1, (left + 1) as nat) {
                        Ok(rest) => {
                            assert(before + (seq![fv] + rest) =~= rows.deep_view() + rest);
                        },
                        Err(_) => {},
                    }
                }
            },
        }
    }
}

/// What converting CSV yields: the records of the decoded text as a
/// Markdown table (the first record is the header), or a `csv` decode error.
pub open spec fn spec_csv(
    bytes: Seq<u8>,
    charset: Option<Seq<char>>,
    filename: Option<Seq<char>>,
) -> Result<Converted, ErrorView> {
    match spec_csv_records(source_text(bytes, charset), spec_delimiter(filename)) {
        Ok(rows) => Ok(untitled(spec_markdown_table(rows))),
        Err(e) => Err(ErrorView::Decode("csv"@, e)),
    }
}

impl CsvConverter {
    /// Converts CSV (or TSV) to a Markdown table.
    pub fn convert(&self, src: &SourceContent) -> (r: Result<ConversionResult, MarkItDownError>)
        ensures
            crate::bindings::view_result(r) == spec_csv(
                src.bytes@,
                view_option(src.charset),
                view_option(src.filename),
            ),
    {
        let charset = match &src.charset {
            Some(c) => Some(c.as_str()),
            None => None,
        };
        let text = decode_text(src.bytes.as_slice(), charset);
        let delimiter: u8 = match src.extension() {
            Some(ext) => {
                let e = chars_of(ext.as_str());
                if chars_eq_str(e.as_slice(), "tsv") {
                    0x09
                } else {
                    0x2C
                }
            },
            None => 0x2C,
        };
        match csv_records(text.as_str(), delimiter) {
            Ok(rows) => Ok(ConversionResult::text(markdown_table(rows.as_slice()))),
            Err(e) => Err(MarkItDownError::decode(String::from_str("csv"), e)),
        }
    }
}

} // verus!
