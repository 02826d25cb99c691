//! Trusted items over the `csv` crate: a reader over bytes that yields one
//! record per call.
use vstd::prelude::*;

verus! {

/// `csv::Reader` is held by [`CsvReader`] without being looked into.
#[verifier::external_type_specification]
#[verifier::external_body]
#[verifier::reject_recursive_types(R)]
pub struct ExCsvReader<R>(csv::Reader<R>);

/// What identifies a reader's state: its input, its delimiter, and how many
/// records have been read.
pub struct CsvState {
    pub input: Seq<u8>,
    pub delimiter: u8,
    pub records: nat,
}

/// What the `k`-th call of `Reader::read_record` yields on a reader built
/// with no header row, records of any length and the given delimiter: a
/// record's fields (`None` at the end of the input), or the text of the
/// error.
pub uninterp spec fn spec_csv_record(input: Seq<u8>, delimiter: u8, k: nat) -> Result<
    Option<Seq<Seq<char>>>,
    Seq<char>,
>;

/// A CSV reader over a byte slice, viewed as its state.
pub struct CsvReader<'a> {
    reader: csv::Reader<&'a [u8]>,
    state: Ghost<CsvState>,
}

impl<'a> View for CsvReader<'a> {
    type V = CsvState;

    closed spec fn view(&self) -> CsvState {
        self.state@
    }
}

/// A record result by the views of its fields and error.
pub open spec fn record_view(r: Result<Option<Vec<String>>, String>) -> Result<
    Option<Seq<Seq<char>>>,
    Seq<char>,
> {
    match r {
        Ok(Some(fields)) => Ok(Some(fields@.map_values(|f: String| f@))),
        Ok(None) => Ok(None),
        Err(e) => Err(e@),
    }
}

impl<'a> CsvReader<'a> {
    /// Builds a reader with `csv::ReaderBuilder` (`has_headers(false)`,
    /// `flexible(true)`, the given delimiter) over the input. Claims that
    /// nothing is read yet.
    #[verifier::external_body]
    pub(crate) fn new(input: &'a [u8], delimiter: u8) -> (r: CsvReader<'a>)
        ensures
            r@ == (CsvState { input: input@, delimiter, records: 0 }),
    {
        CsvReader {
            reader: csv::ReaderBuilder::new().has_headers(false).flexible(true).delimiter(delimiter).from_reader(input),
            state: Ghost(CsvState { input: input@, delimiter, records: 0 }),
        }
    }

    /// Calls `Reader::read_record` into a fresh `StringRecord` and copies its
    /// fields. Claims that the outcome is a function of the reader's state,
    /// named `spec_csv_record`.
    #[verifier::external_body]
    pub(crate) fn read_record(&mut self) -> (r: Result<Option<Vec<String>>, String>)
        ensures
            record_view(r) == spec_csv_record(old(self)@.input, old(self)@.delimiter, old(self)@.records),
            final(self)@ == (CsvState { records: old(self)@.records + 1, ..old(self)@ }),
    {
        let s = self.state@;
        self.state = Ghost(CsvState { records: s.records + 1, ..s });
        let mut record = csv::StringRecord::new();
        match self.reader.read_record(&mut record) {
            Ok(true) => Ok(Some(record.iter().map(|f| f.to_owned()).collect())),
            Ok(false) => Ok(None),
            Err(e) => Err(e.to_string()),
        }
    }
}

} // verus!
