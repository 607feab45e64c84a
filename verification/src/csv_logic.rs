//! The weekly COT report file: its date, its validation and its filtering
//! down to the tracked currency contracts.
//!
//! Each step reads the CSV text without a header row. `extract_cot_date`,
//! `csv_validate` and `csv_process_raw_cot` take the file's bytes; the
//! `*_rows` functions take the records that the CSV reader gave and hold the
//! decisions.
use crate::csv_io::{
    debug_strings, encode_csv_records, read_csv_rows, row_fields, rows_have_equal_lengths,
    rows_view, spec_csv_rows, spec_debug_strings, csv_bytes, is_record_length,
};
use crate::errors::IngetionError;
use crate::text::{concat_text, utf8_shorter_than};
use crate::tff::{is_processed_tff_code, processed_tff_code};
use vstd::prelude::*;
use vstd::utf8::encode_utf8;

verus! {

/// The message when the report has no second record with a third column.
pub open spec fn missing_date_message(source: Seq<char>) -> Seq<char> {
    "No date found in the third column of the second rose in COT file: "@ + source
}

/// The message for a date that is too short to be one.
pub open spec fn invalid_date_message(date: Seq<char>) -> Seq<char> {
    "Extracted COT date '"@ + date + "' seems invalid."@
}

/// A date field that is empty or shorter than 8 bytes of UTF-8.
pub open spec fn date_too_short(date: Seq<char>) -> bool {
    date.len() == 0 || encode_utf8(date).len() < 8
}

/// What `extract_cot_date` answers for the records read (each the fields of
/// a record, or nothing for a malformed one): the third field of the second
/// record, if there is one and it is long enough.
pub open spec fn cot_date_outcome(
    rows: Seq<Option<Seq<Seq<char>>>>,
    source: Seq<char>,
    r: Result<String, IngetionError>,
) -> bool {
    if rows.len() < 2 {
        r matches Err(IngetionError::MissingData(m)) && m@ == missing_date_message(source)
    } else if rows[1] is None {
        r matches Err(IngetionError::Csv(_))
    } else if rows[1]->0.len() < 3 {
        r matches Err(IngetionError::MissingData(m)) && m@ == missing_date_message(source)
    } else if date_too_short(rows[1]->0[2]) {
        r matches Err(IngetionError::InvalidDate(m)) && m@ == invalid_date_message(rows[1]->0[2])
    } else {
        r matches Ok(d) && d@ == rows[1]->0[2]
    }
}

/// The report date of a weekly COT file, from the first two records read:
/// the third field of the second record. `source` names the file in the
/// error message.
pub fn cot_date_from_rows(rows: Vec<Result<Vec<String>, csv::Error>>, source: &str) -> (r: Result<
    String,
    IngetionError,
>)
    ensures
        cot_date_outcome(rows_view(rows@), source@, r),
        r matches Err(IngetionError::Csv(e)) ==> rows[1] is Err && e == rows[1]->Err_0,
{
    if rows.len() < 2 {
        return Err(
            IngetionError::MissingData(
                concat_text("No date found in the third column of the second rose in COT file: ", source),
            ),
        );
    }
    let ghost old_rows = rows@;
    let mut rows = rows;
    let second = rows.remove(1);
    assert(rows_view(old_rows)[1] == row_fields(second));
    match second {
        Err(e) => Err(IngetionError::Csv(e)),
        Ok(fields) => {
            if fields.len() < 3 {
                return Err(
                    IngetionError::MissingData(
                        concat_text(
                            "No date found in the third column of the second rose in COT file: ",
                            source,
                        ),
                    ),
                );
            }
            let date: &str = fields[2].as_str();
            assert(fields.deep_view()[2] == date@);
            if date.is_empty() || utf8_shorter_than(date, 8) {
                let m = concat_text("Extracted COT date '", date);
                return Err(IngetionError::InvalidDate(concat_text(m.as_str(), "' seems invalid.")));
            }
            Ok(date.to_owned())
        },
    }
}

/// The report date of the weekly COT file whose bytes are `input` (read as
/// CSV without a header row): the third field of its second record.
pub fn extract_cot_date(input: &[u8], source: &str) -> (r: Result<String, IngetionError>)
    ensures
        cot_date_outcome(spec_csv_rows(input@, false, 2), source@, r),
{
    let rows = read_csv_rows(input, false, 2);
    cot_date_from_rows(rows, source)
}

/// A record read whose fourth field is one of the processed contracts.
pub open spec fn has_processed_code(row: Option<Seq<Seq<char>>>) -> bool {
    row matches Some(f) && f.len() > 3 && is_processed_tff_code(f[3])
}

/// The message when no record holds a tracked contract.
pub open spec fn no_codes_message(source: Seq<char>) -> Seq<char> {
    "\u{2022} No vlid Tff codes found in file: "@ + source
}

/// What `csv_validate` answers: a malformed record is an error; else the
/// file is valid when some record holds a processed contract code in its
/// fourth field.
pub open spec fn validate_outcome(
    rows: Seq<Option<Seq<Seq<char>>>>,
    source: Seq<char>,
    r: Result<(), IngetionError>,
) -> bool {
    if exists|i: int| 0 <= i < rows.len() && #[trigger] rows[i] is None {
        r matches Err(IngetionError::Csv(_))
    } else if exists|i: int| 0 <= i < rows.len() && #[trigger] has_processed_code(rows[i]) {
        r is Ok
    } else {
        r matches Err(IngetionError::Validation(m)) && m@ == no_codes_message(source)
    }
}

/// The first malformed record's error is what a failed read reports.
pub open spec fn is_first_error(rows: Seq<Result<Vec<String>, csv::Error>>, e: csv::Error) -> bool {
    exists|i: int|
        0 <= i < rows.len() && #[trigger] rows[i] is Err && e == rows[i]->Err_0 && forall|j: int|
            0 <= j < i ==> #[trigger] rows[j] is Ok
}

/// Checks the records read from a weekly COT file: the file must read
/// without error and hold at least one processed contract.
pub fn validate_rows(records: Vec<Result<Vec<String>, csv::Error>>, source: &str) -> (r: Result<
    (),
    IngetionError,
>)
    ensures
        validate_outcome(rows_view(records@), source@, r),
        r matches Err(IngetionError::Csv(e)) ==> is_first_error(records@, e),
{
    let ghost rows0 = records@;
    let ghost view = rows_view(records@);
    let mut rows = records;
    let mut found = false;
    let mut i: usize = 0;
    while i < rows.len()
        invariant
            rows@ == rows0,
            rows0 == records@,
            view == rows_view(rows0),
            i <= rows.len(),
            forall|j: int| 0 <= j < i ==> #[trigger] rows@[j] is Ok,
            found == exists|j: int| 0 <= j < i && #[trigger] has_processed_code(view[j]),
        decreases rows.len() - i,
    {
        assert(view[i as int] == row_fields(rows@[i as int]));
        if rows[i].is_err() {
            let item = rows.remove(i);
            match item {
                Err(e) => {
                    assert(view[i as int] is None);
                    return Err(IngetionError::Csv(e));
                },
                Ok(_) => {
                    assert(false);
                    return Ok(());
                },
            }
        }
        let mut hit = false;
        if let Ok(fields) = &rows[i] {
            assert(view[i as int] == Some(fields.deep_view()));
            if fields.len() > 3 {
                assert(fields.deep_view()[3] == fields[3]@);
                hit = processed_tff_code(fields[3].as_str());
            }
        }
        assert(hit == has_processed_code(view[i as int]));
        if hit {
            found = true;
        }
        i = i + 1;
    }
    assert forall|j: int| 0 <= j < view.len() implies !(#[trigger] view[j] is None) by {
        assert(rows@[j] is Ok);
    }
    if !found {
        return Err(
            IngetionError::Validation(
                concat_text("\u{2022} No vlid Tff codes found in file: ", source),
            ),
        );
    }
    Ok(())
}

/// Checks the weekly COT file whose bytes are `input` (read as CSV without a
/// header row): it must read without error and hold at least one record
/// with a processed contract code in its fourth field. `source` names the
/// file in the error message.
pub fn csv_validate(input: &[u8], source: &str) -> (r: Result<(), IngetionError>)
    ensures
        validate_outcome(spec_csv_rows(input@, false, usize::MAX as nat), source@, r),
{
    let rows = read_csv_rows(input, false, usize::MAX);
    validate_rows(rows, source)
}

/// A record that the processing step cannot file: malformed, or without a
/// fourth field.
pub open spec fn unprocessable(row: Option<Seq<Seq<char>>>) -> bool {
    row is None || row->0.len() <= 3
}

/// The records that the processed report keeps, in their order: those
/// holding a processed contract code in their fourth field.
pub open spec fn processed_records(rows: Seq<Option<Seq<Seq<char>>>>) -> Seq<Seq<Seq<char>>>
    decreases rows.len(),
{
    if rows.len() == 0 {
        Seq::empty()
    } else if has_processed_code(rows.last()) {
        processed_records(rows.drop_last()).push(rows.last()->0)
    } else {
        processed_records(rows.drop_last())
    }
}

/// The message for a record without a fourth field, as the record's `Debug`
/// text shows it.
pub open spec fn missing_code_message(fields: Seq<Seq<char>>) -> Seq<char> {
    "Missing TFF code in record: StringRecord("@ + spec_debug_strings(fields) + ")"@
}

/// `i` is the first record that cannot be processed.
pub open spec fn is_first_unprocessable(rows: Seq<Option<Seq<Seq<char>>>>, i: int) -> bool {
    &&& 0 <= i < rows.len()
    &&& unprocessable(rows[i])
    &&& forall|j: int| 0 <= j < i ==> !unprocessable(#[trigger] rows[j])
}

/// The records that the processing step reaches: those before the first
/// record it cannot process, or all.
pub open spec fn process_reach(rows: Seq<Option<Seq<Seq<char>>>>) -> Seq<Option<Seq<Seq<char>>>> {
    if exists|i: int| is_first_unprocessable(rows, i) {
        rows.take(choose|i: int| is_first_unprocessable(rows, i))
    } else {
        rows
    }
}

/// The error with which the processing step stops for the records read:
/// the first record that cannot be processed decides it; with none, there
/// is no error.
pub open spec fn process_outcome(
    rows: Seq<Option<Seq<Seq<char>>>>,
    error: Option<IngetionError>,
) -> bool {
    if exists|i: int| is_first_unprocessable(rows, i) {
        let i = choose|i: int| is_first_unprocessable(rows, i);
        if rows[i] is None {
            error matches Some(IngetionError::Csv(_))
        } else {
            error matches Some(IngetionError::Validation(m)) && m@ == missing_code_message(
                rows[i]->0,
            )
        }
    } else {
        error is None
    }
}

/// If no record is unprocessable, none is the first.
proof fn lemma_no_first_unprocessable(rows: Seq<Option<Seq<Seq<char>>>>)
    requires
        forall|j: int| 0 <= j < rows.len() ==> !unprocessable(#[trigger] rows[j]),
    ensures
        !exists|i: int| is_first_unprocessable(rows, i),
{
}

/// The first unprocessable record is unique.
proof fn lemma_first_unprocessable_unique(rows: Seq<Option<Seq<Seq<char>>>>, i: int)
    requires
        is_first_unprocessable(rows, i),
    ensures
        (choose|k: int| is_first_unprocessable(rows, k)) == i,
{
    let k = choose|k: int| is_first_unprocessable(rows, k);
    assert(is_first_unprocessable(rows, k));
    if k < i {
        assert(!unprocessable(rows[k]));
    }
    if i < k {
        assert(!unprocessable(rows[i]));
    }
}

/// Files the records read from a weekly COT file: keeps, in order, those
/// with a processed contract code in their fourth field. A malformed record,
/// or one without a fourth field, stops the step; the answer is then the
/// records kept before it, with the error.
pub fn process_cot_rows(records: Vec<Result<Vec<String>, csv::Error>>) -> (r: (
    Vec<Vec<String>>,
    Option<IngetionError>,
))
    ensures
        r.0.deep_view() == processed_records(process_reach(rows_view(records@))),
        process_outcome(rows_view(records@), r.1),
        r.1 matches Some(IngetionError::Csv(e)) ==> is_first_error(records@, e),
        forall|k: int| 0 <= k < r.0.len() ==> is_record_length(records@, #[trigger] r.0[k].len()),
{
    let ghost rows0 = records@;
    let ghost view = rows_view(records@);
    let mut rows = records;
    let mut kept: Vec<Vec<String>> = Vec::new();
    let mut i: usize = 0;
    while i < rows.len()
        invariant
            rows@ == rows0,
            rows0 == records@,
            view == rows_view(rows0),
            i <= rows.len(),
            forall|j: int| 0 <= j < i ==> !unprocessable(#[trigger] view[j]),
            kept.deep_view() == processed_records(view.take(i as int)),
            forall|k: int| 0 <= k < kept.len() ==> is_record_length(rows0, #[trigger] kept[k].len()),
        decreases rows.len() - i,
    {
        assert(view[i as int] == row_fields(rows@[i as int]));
        assert(view.take(i + 1).drop_last() =~= view.take(i as int));
        if rows[i].is_err() {
            proof {
                assert(is_first_unprocessable(view, i as int));
                lemma_first_unprocessable_unique(view, i as int);
                assert forall|j: int| 0 <= j < i implies #[trigger] rows0[j] is Ok by {
                    assert(!unprocessable(view[j]));
                    assert(view[j] == row_fields(rows0[j]));
                }
            }
            let item = rows.remove(i);
            match item {
                Err(e) => {
                    return (kept, Some(IngetionError::Csv(e)));
                },
                Ok(_) => {
                    assert(false);
                    return (kept, None);
                },
            }
        }
        match &rows[i] {
            Ok(fields) => {
                assert(view[i as int] == Some(fields.deep_view()));
                if fields.len() <= 3 {
                    proof {
                        assert(is_first_unprocessable(view, i as int));
                        lemma_first_unprocessable_unique(view, i as int);
                    }
                    let text = debug_strings(fields);
                    let m = concat_text("Missing TFF code in record: StringRecord(", text.as_str());
                    return (kept, Some(IngetionError::Validation(concat_text(m.as_str(), ")"))));
                }
                assert(fields.deep_view()[3] == fields[3]@);
                if processed_tff_code(fields[3].as_str()) {
                    let copy = fields.clone();
                    proof {
                        assert(copy.deep_view() =~= fields.deep_view());
                    }
                    kept.push(copy);
                    proof {
                        assert(kept.deep_view() =~= processed_records(view.take(i + 1)));
                    }
                } else {
                    assert(kept.deep_view() =~= processed_records(view.take(i + 1)));
                }
            },
            Err(_) => {
                assert(false);
            },
        }
        i = i + 1;
    }
    proof {
        assert(view.take(view.len() as int) =~= view);
        lemma_no_first_unprocessable(view);
    }
    (kept, None)
}

/// What the processing step wrote, and the error that stopped it, if any.
#[derive(Debug)]
pub struct ProcessedReport {
    /// The CSV text of the records kept, in order, up to where it stopped.
    pub output: Vec<u8>,
    pub error: Option<IngetionError>,
}

/// Files the weekly COT file whose bytes are `input` (read as CSV without a
/// header row): the CSV text of its records that hold a processed contract
/// code in their fourth field, in their order. A malformed record, or one
/// without a fourth field, stops the step with an error; the text then
/// holds the records kept before it.
pub fn csv_process_raw_cot(input: &[u8]) -> (r: ProcessedReport)
    ensures
        r.output@ == csv_bytes(
            processed_records(process_reach(spec_csv_rows(input@, false, usize::MAX as nat))),
        ),
        process_outcome(spec_csv_rows(input@, false, usize::MAX as nat), r.error),
{
    let rows = read_csv_rows(input, false, usize::MAX);
    let ghost rows0 = rows@;
    let (kept, error) = process_cot_rows(rows);
    proof {
        assert forall|a: int, b: int|
            0 <= a < kept.len() && 0 <= b < kept.len() implies #[trigger] kept[a].len()
            == #[trigger] kept[b].len() by {
            assert(is_record_length(rows0, kept[a].len()));
            assert(is_record_length(rows0, kept[b].len()));
        }
    }
    ProcessedReport { output: encode_csv_records(&kept), error }
}

/// Each record of a processed report has a processed contract code in its
/// fourth field, and is one of the records read.
pub proof fn lemma_processed_records_have_codes(rows: Seq<Option<Seq<Seq<char>>>>)
    ensures
        processed_records(rows).len() <= rows.len(),
        forall|k: int|
            0 <= k < processed_records(rows).len() ==> has_processed_code(
                Some(#[trigger] processed_records(rows)[k]),
            ),
    decreases rows.len(),
{
    if rows.len() > 0 {
        lemma_processed_records_have_codes(rows.drop_last());
        let rest = processed_records(rows.drop_last());
        if has_processed_code(rows.last()) {
            assert forall|k: int| 0 <= k < processed_records(rows).len() implies has_processed_code(
                Some(#[trigger] processed_records(rows)[k]),
            ) by {
                if k < rest.len() {
                    assert(processed_records(rows)[k] == rest[k]);
                }
            }
        }
    }
}

/// Records, each read without error.
pub open spec fn as_read_rows(records: Seq<Seq<Seq<char>>>) -> Seq<Option<Seq<Seq<char>>>> {
    records.map_values(|r: Seq<Seq<char>>| Some(r))
}

proof fn lemma_processing_keeps_coded_records(records: Seq<Seq<Seq<char>>>)
    requires
        forall|k: int| 0 <= k < records.len() ==> has_processed_code(Some(#[trigger] records[k])),
    ensures
        processed_records(as_read_rows(records)) == records,
    decreases records.len(),
{
    if records.len() > 0 {
        let rows = as_read_rows(records);
        assert(rows.drop_last() =~= as_read_rows(records.drop_last()));
        lemma_processing_keeps_coded_records(records.drop_last());
        assert(rows.last() == Some(records.last()));
        assert(has_processed_code(Some(records[records.len() - 1])));
        assert(records.drop_last().push(records.last()) =~= records);
    }
}

/// Processing is idempotent: processing the records of a processed report
/// keeps all of them, in order.
pub proof fn lemma_processing_idempotent(rows: Seq<Option<Seq<Seq<char>>>>)
    ensures
        processed_records(as_read_rows(processed_records(rows))) == processed_records(rows),
{
    lemma_processed_records_have_codes(rows);
    lemma_processing_keeps_coded_records(processed_records(rows));
}

proof fn lemma_processed_nonempty_iff_code(rows: Seq<Option<Seq<Seq<char>>>>)
    ensures
        processed_records(rows).len() > 0 <==> exists|i: int|
            0 <= i < rows.len() && #[trigger] has_processed_code(rows[i]),
    decreases rows.len(),
{
    if rows.len() > 0 {
        lemma_processed_nonempty_iff_code(rows.drop_last());
        let prefix = rows.drop_last();
        if exists|i: int| 0 <= i < prefix.len() && #[trigger] has_processed_code(prefix[i]) {
            let i = choose|i: int| 0 <= i < prefix.len() && #[trigger] has_processed_code(prefix[i]);
            assert(rows[i] == prefix[i]);
        }
        if exists|i: int| 0 <= i < rows.len() && #[trigger] has_processed_code(rows[i]) {
            let i = choose|i: int| 0 <= i < rows.len() && #[trigger] has_processed_code(rows[i]);
            if i < rows.len() - 1 {
                assert(prefix[i] == rows[i]);
            }
        }
    }
}

/// Validation and processing agree: on a file whose records all read and
/// all have a fourth field, validation passes exactly when processing keeps
/// at least one record.
pub proof fn lemma_validation_agrees_with_processing(
    rows: Seq<Option<Seq<Seq<char>>>>,
    source: Seq<char>,
    r: Result<(), IngetionError>,
)
    requires
        forall|i: int| 0 <= i < rows.len() ==> !unprocessable(#[trigger] rows[i]),
        validate_outcome(rows, source, r),
    ensures
        r is Ok <==> processed_records(rows).len() > 0,
{
    lemma_processed_nonempty_iff_code(rows);
    assert(!exists|i: int| 0 <= i < rows.len() && #[trigger] rows[i] is None) by {
        assert forall|i: int| 0 <= i < rows.len() implies !(#[trigger] rows[i] is None) by {
            assert(!unprocessable(rows[i]));
        }
    }
}

/// A record read without error counts as a processed contract exactly when
/// it has a fourth field that is one of the seven contract codes; a
/// malformed record never does.
pub proof fn lemma_processed_code_column(f: Seq<Seq<char>>)
    ensures
        has_processed_code(Some(f)) <==> (f.len() > 3 && is_processed_tff_code(f[3])),
        !has_processed_code(None),
{
}

/// Processing keeps every record read without error whose fourth field is
/// one of the seven contract codes.
pub proof fn lemma_processing_keeps_tracked_records(rows: Seq<Option<Seq<Seq<char>>>>, i: int)
    requires
        0 <= i < rows.len(),
        rows[i] is Some,
        rows[i]->0.len() > 3,
        is_processed_tff_code(rows[i]->0[3]),
    ensures
        processed_records(rows).contains(rows[i]->0),
    decreases rows.len(),
{
    let rest = processed_records(rows.drop_last());
    if i == rows.len() - 1 {
        assert(has_processed_code(rows.last()));
        assert(processed_records(rows) == rest.push(rows[i]->0));
        assert(processed_records(rows)[rest.len() as int] == rows[i]->0);
    } else {
        assert(rows.drop_last()[i] == rows[i]);
        lemma_processing_keeps_tracked_records(rows.drop_last(), i);
        let k = choose|k: int| 0 <= k < rest.len() && rest[k] == rows[i]->0;
        if has_processed_code(rows.last()) {
            assert(processed_records(rows)[k] == rest[k]);
        }
    }
}

/// Validation passes a file whose records all read and one of which has a
/// fourth field that is one of the seven contract codes.
pub proof fn lemma_validation_passes_tracked_file(
    rows: Seq<Option<Seq<Seq<char>>>>,
    source: Seq<char>,
    r: Result<(), IngetionError>,
    i: int,
)
    requires
        forall|j: int| 0 <= j < rows.len() ==> (#[trigger] rows[j]) is Some,
        0 <= i < rows.len(),
        rows[i]->0.len() > 3,
        is_processed_tff_code(rows[i]->0[3]),
        validate_outcome(rows, source, r),
    ensures
        r is Ok,
{
    assert(has_processed_code(rows[i]));
    assert(!exists|j: int| 0 <= j < rows.len() && #[trigger] rows[j] is None);
}

} // verus!
