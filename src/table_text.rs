//! Reading the headerless, double-quoted delimited text that the table endpoint
//! answers with.
use vstd::prelude::*;

verus! {

#[verifier::external_type_specification]
#[verifier::external_body]
pub struct ExCsvError(csv::Error);

/// The rows that the `csv` reader yields from `text` (no header row, `"` as the
/// quote), at most `limit` of them, stopping before the first malformed one;
/// and whether it met a malformed one within those `limit`.
pub uninterp spec fn csv_rows(text: Seq<char>, limit: nat) -> (Seq<Seq<Seq<char>>>, bool);

/// Relies on `csv::ReaderBuilder` (`has_headers(false)`, `quote(b'"')`) and
/// `Reader::records`: the first `limit` items of the record stream, each record
/// as its fields, cut at the first error, which is handed back.
#[verifier::external_body]
pub fn read_rows(text: &str, limit: usize) -> (r: (Vec<Vec<String>>, Option<csv::Error>))
    ensures
        r.0.deep_view() == csv_rows(text@, limit as nat).0,
        r.1 is Some == csv_rows(text@, limit as nat).1,
        r.1 is Some ==> r.0@.len() < limit,
        r.0@.len() <= limit,
{
    let mut reader = csv::ReaderBuilder::new().has_headers(false).quote(b'"').from_reader(
        text.as_bytes(),
    );
    let mut rows: Vec<Vec<String>> = Vec::new();
    for record in reader.records().take(limit) {
        match record {
            Ok(record) => rows.push(record.iter().map(String::from).collect()),
            Err(e) => return (rows, Some(e)),
        }
    }
    (rows, None)
}

} // verus!
