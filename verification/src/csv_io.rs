//! Reading and writing CSV text through the `csv` crate.
use csv::{ReaderBuilder, WriterBuilder};
use vstd::prelude::*;

verus! {

/// The `csv` crate's error.
#[verifier::external_type_specification]
#[verifier::external_body]
pub struct ExCsvError(csv::Error);

/// What a `csv::Reader` over `input` yields from its `records()` iterator,
/// taking at most `limit` items: for each item the fields of the record, or
/// nothing where the item is an error.
pub uninterp spec fn spec_csv_rows(input: Seq<u8>, has_headers: bool, limit: nat) -> Seq<
    Option<Seq<Seq<char>>>,
>;

/// One item of a CSV read, seen as the fields it holds or nothing.
pub open spec fn row_fields(row: Result<Vec<String>, csv::Error>) -> Option<Seq<Seq<char>>> {
    match row {
        Ok(fields) => Some(fields.deep_view()),
        Err(_) => None,
    }
}

/// The items of a CSV read, seen as `row_fields`.
pub open spec fn rows_view(rows: Seq<Result<Vec<String>, csv::Error>>) -> Seq<
    Option<Seq<Seq<char>>>,
> {
    rows.map_values(|row: Result<Vec<String>, csv::Error>| row_fields(row))
}

/// All records that were read without error have the same number of fields.
pub open spec fn rows_have_equal_lengths(rows: Seq<Result<Vec<String>, csv::Error>>) -> bool {
    forall|i: int, j: int|
        0 <= i < rows.len() && 0 <= j < rows.len() && #[trigger] rows[i] is Ok
            && #[trigger] rows[j] is Ok ==> rows[i]->Ok_0.len() == rows[j]->Ok_0.len()
}

/// Some record read without error has `n` fields.
pub open spec fn is_record_length(rows: Seq<Result<Vec<String>, csv::Error>>, n: usize) -> bool {
    exists|j: int| 0 <= j < rows.len() && #[trigger] rows[j] is Ok && rows[j]->Ok_0.len() == n
}

/// Reads `input` with `csv::ReaderBuilder::new().has_headers(has_headers)`
/// and collects at most `limit` items of `records()`, each record as its
/// fields. Claimed: the items are those that the name `spec_csv_rows` gives,
/// there are at most `limit` of them, and the records that were read
/// without error all have the same number of fields (the reader is not
/// flexible: the csv documentation and source give an `UnequalLengths` error
/// for a record whose field count differs from the first one read, the
/// header row included). How the text is split into records and fields, and
/// which error an item holds, is not stated.
#[verifier::external_body]
pub(crate) fn read_csv_rows(input: &[u8], has_headers: bool, limit: usize) -> (r: Vec<
    Result<Vec<String>, csv::Error>,
>)
    ensures
        r.len() <= limit,
        rows_view(r@) == spec_csv_rows(input@, has_headers, limit as nat),
        rows_have_equal_lengths(r@),
{
    let mut reader = ReaderBuilder::new().has_headers(has_headers).from_reader(input);
    reader.records().take(limit).map(
        |item| match item {
            Ok(record) => Ok(record.iter().map(|field| field.to_string()).collect()),
            Err(e) => Err(e),
        },
    ).collect()
}

/// The bytes that a default `csv::Writer` writes for one record.
pub uninterp spec fn spec_csv_record_bytes(fields: Seq<Seq<char>>) -> Seq<u8>;

/// Writes the one record `fields` with a fresh
/// `csv::WriterBuilder::new()` writer into a `Vec<u8>` and returns the
/// bytes. Claimed: the call succeeds and the bytes are those that the name
/// `spec_csv_record_bytes` gives. In the csv source a write fails only on a
/// field count unequal to an earlier record's, which a fresh writer has not
/// seen, or on an I/O error, which a `Vec<u8>` does not raise. How fields
/// are quoted is not stated.
#[verifier::external_body]
pub(crate) fn encode_csv_record(fields: &Vec<String>) -> (r: Result<Vec<u8>, csv::Error>)
    ensures
        r is Ok,
        r.unwrap()@ == spec_csv_record_bytes(fields.deep_view()),
{
    let mut writer = WriterBuilder::new().from_writer(Vec::new());
    writer.write_record(fields)?;
    match writer.into_inner() {
        Ok(bytes) => Ok(bytes),
        Err(e) => Err(csv::Error::from(e.into_error())),
    }
}

/// The bytes of the records written one after another.
pub open spec fn csv_bytes(records: Seq<Seq<Seq<char>>>) -> Seq<u8>
    decreases records.len(),
{
    if records.len() == 0 {
        Seq::empty()
    } else {
        csv_bytes(records.drop_last()) + spec_csv_record_bytes(records.last())
    }
}

/// The CSV text of `records`, as one writer writes them in order. The
/// writer refuses records of unequal length, so they must have equal length.
pub fn encode_csv_records(records: &Vec<Vec<String>>) -> (r: Vec<u8>)
    requires
        forall|i: int, j: int|
            0 <= i < records.len() && 0 <= j < records.len() ==> #[trigger] records[i].len()
                == #[trigger] records[j].len(),
    ensures
        r@ == csv_bytes(records.deep_view()),
{
    let mut out: Vec<u8> = Vec::new();
    let mut i: usize = 0;
    while i < records.len()
        invariant
            i <= records.len(),
            out@ == csv_bytes(records.deep_view().take(i as int)),
        decreases records.len() - i,
    {
        let bytes = encode_csv_record(&records[i]);
        let mut bytes = bytes.unwrap();
        proof {
            let dv = records.deep_view();
            assert(dv.take(i + 1).drop_last() =~= dv.take(i as int));
            assert(dv.take(i + 1).last() == records[i as int].deep_view());
        }
        out.append(&mut bytes);
        i = i + 1;
    }
    proof {
        assert(records.deep_view().take(records.len() as int) =~= records.deep_view());
    }
    out
}

/// What `format!("{:?}", fields)` gives for a list of strings.
pub uninterp spec fn spec_debug_strings(fields: Seq<Seq<char>>) -> Seq<char>;

/// Calls `format!("{:?}", fields)`, std's `Debug` text of a list of
/// strings. Claimed: the text is the one that the name
/// `spec_debug_strings` gives; its quoting and escaping are not stated.
#[verifier::external_body]
pub(crate) fn debug_strings(fields: &Vec<String>) -> (r: String)
    ensures
        r@ == spec_debug_strings(fields.deep_view()),
{
    format!("{:?}", fields)
}

} // verus!
