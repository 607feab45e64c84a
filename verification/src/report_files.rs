//! Report-file steps over a raw COT report read with a header row, where the
//! contract code stands in the eighth column: filtering it down to the
//! target contracts, checking that it holds one, and naming it after its
//! date.
use crate::csv_io::{
    csv_bytes, encode_csv_records, is_record_length, read_csv_rows, row_fields, rows_view,
    spec_csv_rows,
};
use crate::csv_logic::is_first_error;
use crate::errors::IngetionError;
use crate::text::concat_text;
use crate::tff::{is_processed_tff_code, processed_tff_code};
use vstd::prelude::*;

verus! {

/// A record read without error that has no eighth field (indexing it
/// panics in these steps).
pub open spec fn lacks_code_column(row: Option<Seq<Seq<char>>>) -> bool {
    row matches Some(f) && f.len() <= 7
}

/// A record read without error whose eighth field is a target contract code.
pub open spec fn has_target_code(row: Option<Seq<Seq<char>>>) -> bool {
    row matches Some(f) && f.len() > 7 && is_processed_tff_code(f[7])
}

/// A record at which the filter stops: malformed, or too short to index.
pub open spec fn filter_stop(row: Option<Seq<Seq<char>>>) -> bool {
    row is None || lacks_code_column(row)
}

/// `i` is the first record at which the filter stops.
pub open spec fn is_first_filter_stop(rows: Seq<Option<Seq<Seq<char>>>>, i: int) -> bool {
    &&& 0 <= i < rows.len()
    &&& filter_stop(rows[i])
    &&& forall|j: int| 0 <= j < i ==> !filter_stop(#[trigger] rows[j])
}

/// The records that the filter keeps, in their order: those whose eighth
/// field is a target contract code.
pub open spec fn target_records(rows: Seq<Option<Seq<Seq<char>>>>) -> Seq<Seq<Seq<char>>>
    decreases rows.len(),
{
    if rows.len() == 0 {
        Seq::empty()
    } else if has_target_code(rows.last()) {
        target_records(rows.drop_last()).push(rows.last()->0)
    } else {
        target_records(rows.drop_last())
    }
}

/// Where the filter stopped: at the end of the report, at a malformed
/// record (with its error), or at a record too short to have an eighth
/// field (where indexing it panics).
#[derive(Debug)]
pub enum FilterStop {
    Completed,
    Malformed(csv::Error),
    ShortRecord,
}

/// The records the filter reaches: those before the first stop, or all.
pub open spec fn filter_reach(rows: Seq<Option<Seq<Seq<char>>>>) -> Seq<Option<Seq<Seq<char>>>> {
    if exists|i: int| is_first_filter_stop(rows, i) {
        rows.take(choose|i: int| is_first_filter_stop(rows, i))
    } else {
        rows
    }
}

/// Where the filter stops for the records read, seen without the error.
pub open spec fn filter_stop_outcome(rows: Seq<Option<Seq<Seq<char>>>>, stop: FilterStop) -> bool {
    if exists|i: int| is_first_filter_stop(rows, i) {
        let i = choose|i: int| is_first_filter_stop(rows, i);
        if rows[i] is None {
            stop is Malformed
        } else {
            stop is ShortRecord
        }
    } else {
        stop is Completed
    }
}

proof fn lemma_first_filter_stop_unique(rows: Seq<Option<Seq<Seq<char>>>>, i: int)
    requires
        is_first_filter_stop(rows, i),
    ensures
        (choose|k: int| is_first_filter_stop(rows, k)) == i,
{
    let k = choose|k: int| is_first_filter_stop(rows, k);
    assert(is_first_filter_stop(rows, k));
    if k < i {
        assert(!filter_stop(rows[k]));
    }
    if i < k {
        assert(!filter_stop(rows[i]));
    }
}

/// The filter over the records read (header row excluded): keeps, in
/// order, the records whose eighth field is a target contract code. It
/// stops at the first record that is malformed or has no eighth field, and
/// answers the records kept before it with where it stopped.
pub fn filter_rows(records: Vec<Result<Vec<String>, csv::Error>>) -> (r: (
    Vec<Vec<String>>,
    FilterStop,
))
    ensures
        r.0.deep_view() == target_records(filter_reach(rows_view(records@))),
        filter_stop_outcome(rows_view(records@), r.1),
        r.1 matches FilterStop::Malformed(e) ==> is_first_error(records@, e),
        forall|k: int| 0 <= k < r.0.len() ==> is_record_length(records@, #[trigger] r.0[k].len()),
{
    let ghost rows0 = records@;
    let ghost view = rows_view(records@);
    let mut rows = records;
    let mut kept: Vec<Vec<String>> = Vec::new();
    let mut i: usize = 0;
    while i < rows.len()
        invariant
            rows@ == rows0,
            rows0 == records@,
            view == rows_view(rows0),
            i <= rows.len(),
            forall|j: int| 0 <= j < i ==> !filter_stop(#[trigger] view[j]),
            kept.deep_view() == target_records(view.take(i as int)),
            forall|k: int| 0 <= k < kept.len() ==> is_record_length(rows0, #[trigger] kept[k].len()),
        decreases rows.len() - i,
    {
        assert(view[i as int] == row_fields(rows@[i as int]));
        assert(view.take(i + 1).drop_last() =~= view.take(i as int));
        if rows[i].is_err() {
            proof {
                assert(is_first_filter_stop(view, i as int));
                lemma_first_filter_stop_unique(view, i as int);
                assert forall|j: int| 0 <= j < i implies #[trigger] rows0[j] is Ok by {
                    assert(!filter_stop(view[j]));
                    assert(view[j] == row_fields(rows0[j]));
                }
            }
            let item = rows.remove(i);
            match item {
                Err(e) => {
                    return (kept, FilterStop::Malformed(e));
                },
                Ok(_) => {
                    assert(false);
                    return (kept, FilterStop::Completed);
                },
            }
        }
        match &rows[i] {
            Ok(fields) => {
                assert(view[i as int] == Some(fields.deep_view()));
                if fields.len() <= 7 {
                    proof {
                        assert(is_first_filter_stop(view, i as int));
                        lemma_first_filter_stop_unique(view, i as int);
                    }
                    return (kept, FilterStop::ShortRecord);
                }
                assert(fields.deep_view()[7] == fields[7]@);
                if processed_tff_code(fields[7].as_str()) {
                    let copy = fields.clone();
                    proof {
                        assert(copy.deep_view() =~= fields.deep_view());
                    }
                    kept.push(copy);
                    proof {
                        assert(kept.deep_view() =~= target_records(view.take(i + 1)));
                    }
                } else {
                    assert(kept.deep_view() =~= target_records(view.take(i + 1)));
                }
            },
            Err(_) => {
                assert(false);
            },
        }
        i = i + 1;
    }
    proof {
        assert(view.take(view.len() as int) =~= view);
        assert forall|k: int| is_first_filter_stop(view, k) implies false by {
            assert(k < view.len());
        }
    }
    (kept, FilterStop::Completed)
}

/// What the filter wrote and where it stopped.
#[derive(Debug)]
pub struct FilterRun {
    /// The CSV text of the records kept, in order, up to where it stopped.
    pub output: Vec<u8>,
    pub stop: FilterStop,
}

/// Filters the raw COT report whose bytes are `input` (CSV with a header
/// row): the CSV text of its records whose eighth field is a target
/// contract code, in their order (no header line). The filter stops at the
/// first record that is malformed or has no eighth field; the text holds
/// the records kept before it.
pub fn filter_raw_cot(input: &[u8]) -> (r: FilterRun)
    ensures
        r.output@ == csv_bytes(target_records(filter_reach(spec_csv_rows(input@, true, usize::MAX as nat)))),
        filter_stop_outcome(spec_csv_rows(input@, true, usize::MAX as nat), r.stop),
{
    let rows = read_csv_rows(input, true, usize::MAX);
    let ghost rows0 = rows@;
    let (kept, stop) = filter_rows(rows);
    proof {
        assert forall|a: int, b: int|
            0 <= a < kept.len() && 0 <= b < kept.len() implies #[trigger] kept[a].len()
            == #[trigger] kept[b].len() by {
            assert(is_record_length(rows0, kept[a].len()));
            assert(is_record_length(rows0, kept[b].len()));
        }
    }
    FilterRun { output: encode_csv_records(&kept), stop }
}

/// A record at which the validation stops: malformed, too short to index,
/// or holding a target contract code.
pub open spec fn validation_stop(row: Option<Seq<Seq<char>>>) -> bool {
    row is None || lacks_code_column(row) || has_target_code(row)
}

/// `i` is the first record at which the validation stops.
pub open spec fn is_first_validation_stop(rows: Seq<Option<Seq<Seq<char>>>>, i: int) -> bool {
    &&& 0 <= i < rows.len()
    &&& validation_stop(rows[i])
    &&& forall|j: int| 0 <= j < i ==> !validation_stop(#[trigger] rows[j])
}

/// The message when no record holds a target contract code.
pub open spec fn no_target_code_message() -> Seq<char> {
    "No valid TFF codes found."@
}

/// What the validation answers: the first record at which it stops decides
/// (a malformed record is its error, a target code passes the file, a short
/// record has no answer, as indexing it panics); with no such record the
/// file holds no target contract and is refused.
pub open spec fn validation_outcome(
    rows: Seq<Option<Seq<Seq<char>>>>,
    r: Option<Result<(), IngetionError>>,
) -> bool {
    if exists|i: int| is_first_validation_stop(rows, i) {
        let i = choose|i: int| is_first_validation_stop(rows, i);
        if rows[i] is None {
            r matches Some(Err(IngetionError::Csv(_)))
        } else if lacks_code_column(rows[i]) {
            r is None
        } else {
            r matches Some(Ok(()))
        }
    } else {
        r matches Some(Err(IngetionError::Validation(m))) && m@ == no_target_code_message()
    }
}

proof fn lemma_first_validation_stop_unique(rows: Seq<Option<Seq<Seq<char>>>>, i: int)
    requires
        is_first_validation_stop(rows, i),
    ensures
        (choose|k: int| is_first_validation_stop(rows, k)) == i,
{
    let k = choose|k: int| is_first_validation_stop(rows, k);
    assert(is_first_validation_stop(rows, k));
    if k < i {
        assert(!validation_stop(rows[k]));
    }
    if i < k {
        assert(!validation_stop(rows[i]));
    }
}

/// The validation over the records read (header row excluded): passes the
/// file at the first record whose eighth field is a target contract code,
/// reports the first malformed record's error, refuses a file without a
/// target code, and has no answer where it would index past the end of a
/// short record.
pub fn validate_csv_rows(records: Vec<Result<Vec<String>, csv::Error>>) -> (r: Option<
    Result<(), IngetionError>,
>)
    ensures
        validation_outcome(rows_view(records@), r),
        r matches Some(Err(IngetionError::Csv(e))) ==> is_first_error(records@, e),
{
    let ghost rows0 = records@;
    let ghost view = rows_view(records@);
    let mut rows = records;
    let mut i: usize = 0;
    while i < rows.len()
        invariant
            rows@ == rows0,
            rows0 == records@,
            view == rows_view(rows0),
            i <= rows.len(),
            forall|j: int| 0 <= j < i ==> !validation_stop(#[trigger] view[j]),
        decreases rows.len() - i,
    {
        assert(view[i as int] == row_fields(rows@[i as int]));
        if rows[i].is_err() {
            proof {
                assert(is_first_validation_stop(view, i as int));
                lemma_first_validation_stop_unique(view, i as int);
                assert forall|j: int| 0 <= j < i implies #[trigger] rows0[j] is Ok by {
                    assert(!validation_stop(view[j]));
                    assert(view[j] == row_fields(rows0[j]));
                }
            }
            let item = rows.remove(i);
            match item {
                Err(e) => {
                    return Some(Err(IngetionError::Csv(e)));
                },
                Ok(_) => {
                    assert(false);
                    return None;
                },
            }
        }
        match &rows[i] {
            Ok(fields) => {
                assert(view[i as int] == Some(fields.deep_view()));
                if fields.len() <= 7 {
                    proof {
                        assert(is_first_validation_stop(view, i as int));
                        lemma_first_validation_stop_unique(view, i as int);
                    }
                    return None;
                }
                assert(fields.deep_view()[7] == fields[7]@);
                if processed_tff_code(fields[7].as_str()) {
                    proof {
                        assert(is_first_validation_stop(view, i as int));
                        lemma_first_validation_stop_unique(view, i as int);
                    }
                    return Some(Ok(()));
                }
            },
            Err(_) => {
                assert(false);
            },
        }
        i = i + 1;
    }
    proof {
        assert forall|k: int| is_first_validation_stop(view, k) implies false by {
            assert(k < view.len());
        }
    }
    Some(Err(IngetionError::Validation("No valid TFF codes found.".to_owned())))
}

/// Checks the raw COT report whose bytes are `input` (CSV with a header
/// row): the file passes when a record holds a target contract code in its
/// eighth field.
pub fn validate_csv(input: &[u8]) -> (r: Option<Result<(), IngetionError>>)
    ensures
        validation_outcome(spec_csv_rows(input@, true, usize::MAX as nat), r),
{
    let rows = read_csv_rows(input, true, usize::MAX);
    validate_csv_rows(rows)
}

/// The message when the report has no second record.
pub open spec fn date_row_missing_message() -> Seq<char> {
    "Error: Date not found in expected row."@
}

/// The path a raw weekly report is renamed to, after its date.
pub open spec fn dated_report_path(date: Seq<char>) -> Seq<char> {
    "data/raw/cot/"@ + date + "-cot_report.csv"@
}

/// What the rename step answers for the first two records read (header row
/// excluded): the path named after the third field of the second record.
pub open spec fn rename_outcome(
    rows: Seq<Option<Seq<Seq<char>>>>,
    r: Option<Result<String, IngetionError>>,
) -> bool {
    if rows.len() >= 1 && rows[0] is None {
        r matches Some(Err(IngetionError::Csv(_)))
    } else if rows.len() < 2 {
        r matches Some(Err(IngetionError::MissingData(m))) && m@ == date_row_missing_message()
    } else if rows[1] is None {
        r matches Some(Err(IngetionError::Csv(_)))
    } else if rows[1]->0.len() < 3 {
        r is None
    } else {
        r matches Some(Ok(p)) && p@ == dated_report_path(rows[1]->0[2])
    }
}

/// The path that the raw weekly report is renamed to, from its first two
/// records (header row excluded): the date is the third field of the
/// second record. No answer where that record has no third field.
pub fn rename_target_from_rows(records: Vec<Result<Vec<String>, csv::Error>>) -> (r: Option<
    Result<String, IngetionError>,
>)
    ensures
        rename_outcome(rows_view(records@), r),
        r matches Some(Err(IngetionError::Csv(e))) ==> is_first_error(records@, e),
{
    let ghost rows0 = records@;
    let ghost view = rows_view(records@);
    let mut rows = records;
    if rows.len() >= 1 && rows[0].is_err() {
        assert(view[0] == row_fields(rows@[0]));
        let first = rows.remove(0);
        match first {
            Err(e) => {
                return Some(Err(IngetionError::Csv(e)));
            },
            Ok(_) => {
                assert(false);
                return None;
            },
        }
    }
    if rows.len() >= 1 {
        assert(view[0] == row_fields(rows@[0]));
    }
    if rows.len() < 2 {
        return Some(Err(IngetionError::MissingData("Error: Date not found in expected row.".to_owned())));
    }
    assert(view[1] == row_fields(rows@[1]));
    assert(rows0[0] is Ok);
    let second = rows.remove(1);
    match second {
        Err(e) => Some(Err(IngetionError::Csv(e))),
        Ok(fields) => {
            if fields.len() < 3 {
                return None;
            }
            assert(fields.deep_view()[2] == fields[2]@);
            let p = concat_text("data/raw/cot/", fields[2].as_str());
            Some(Ok(concat_text(p.as_str(), "-cot_report.csv")))
        },
    }
}

/// The path that the raw weekly report whose bytes are `input` (CSV with a
/// header row) is renamed to: `data/raw/cot/<date>-cot_report.csv`, the date
/// being the third field of the second record.
pub fn rename_csv(input: &[u8]) -> (r: Option<Result<String, IngetionError>>)
    ensures
        rename_outcome(spec_csv_rows(input@, true, 2), r),
{
    let rows = read_csv_rows(input, true, 2);
    rename_target_from_rows(rows)
}

/// Every record the filter keeps holds a target contract code in its eighth
/// field, and it keeps no more records than it reads.
pub proof fn lemma_filter_keeps_target_codes(rows: Seq<Option<Seq<Seq<char>>>>)
    ensures
        target_records(rows).len() <= rows.len(),
        forall|k: int|
            0 <= k < target_records(rows).len() ==> has_target_code(
                Some(#[trigger] target_records(rows)[k]),
            ),
    decreases rows.len(),
{
    if rows.len() > 0 {
        lemma_filter_keeps_target_codes(rows.drop_last());
        let rest = target_records(rows.drop_last());
        assert forall|k: int| 0 <= k < target_records(rows).len() implies has_target_code(
            Some(#[trigger] target_records(rows)[k]),
        ) by {
            if k < rest.len() {
                assert(target_records(rows)[k] == rest[k]);
            }
        }
    }
}

proof fn lemma_target_nonempty_iff_code(rows: Seq<Option<Seq<Seq<char>>>>)
    ensures
        target_records(rows).len() > 0 <==> exists|i: int|
            0 <= i < rows.len() && #[trigger] has_target_code(rows[i]),
    decreases rows.len(),
{
    if rows.len() > 0 {
        lemma_target_nonempty_iff_code(rows.drop_last());
        let prefix = rows.drop_last();
        if exists|i: int| 0 <= i < prefix.len() && #[trigger] has_target_code(prefix[i]) {
            let i = choose|i: int| 0 <= i < prefix.len() && #[trigger] has_target_code(prefix[i]);
            assert(rows[i] == prefix[i]);
        }
        if exists|i: int| 0 <= i < rows.len() && #[trigger] has_target_code(rows[i]) {
            let i = choose|i: int| 0 <= i < rows.len() && #[trigger] has_target_code(rows[i]);
            if i < rows.len() - 1 {
                assert(prefix[i] == rows[i]);
            }
        }
    }
}

/// Where some record stops the validation, a first one does.
proof fn lemma_exists_first_validation_stop(rows: Seq<Option<Seq<Seq<char>>>>, i: int)
    requires
        0 <= i < rows.len(),
        validation_stop(rows[i]),
    ensures
        exists|k: int| is_first_validation_stop(rows, k),
    decreases i,
{
    if forall|j: int| 0 <= j < i ==> !validation_stop(#[trigger] rows[j]) {
        assert(is_first_validation_stop(rows, i));
    } else {
        let j = choose|j: int| 0 <= j < i && validation_stop(#[trigger] rows[j]);
        lemma_exists_first_validation_stop(rows, j);
    }
}

/// Validation and filtering agree: on a report whose records all read and
/// all have an eighth field, the validation passes exactly when the filter
/// keeps at least one record, and the filter then reaches every record.
pub proof fn lemma_validation_agrees_with_filter(
    rows: Seq<Option<Seq<Seq<char>>>>,
    r: Option<Result<(), IngetionError>>,
)
    requires
        forall|i: int| 0 <= i < rows.len() ==> !filter_stop(#[trigger] rows[i]),
        validation_outcome(rows, r),
    ensures
        filter_reach(rows) == rows,
        r is Some,
        r.unwrap() is Ok <==> target_records(rows).len() > 0,
{
    lemma_target_nonempty_iff_code(rows);
    assert forall|k: int| is_first_filter_stop(rows, k) implies false by {
        assert(!filter_stop(rows[k]));
    }
    if exists|i: int| 0 <= i < rows.len() && #[trigger] has_target_code(rows[i]) {
        let i = choose|i: int| 0 <= i < rows.len() && #[trigger] has_target_code(rows[i]);
        lemma_exists_first_validation_stop(rows, i);
        let k = choose|k: int| is_first_validation_stop(rows, k);
        assert(!filter_stop(rows[k]));
    } else {
        assert forall|k: int| is_first_validation_stop(rows, k) implies false by {
            assert(!filter_stop(rows[k]));
        }
    }
}

/// A record read without error holds a target contract exactly when it has
/// an eighth field that is one of the seven contract codes; a malformed
/// record never does.
pub proof fn lemma_target_code_column(f: Seq<Seq<char>>)
    ensures
        has_target_code(Some(f)) <==> (f.len() > 7 && is_processed_tff_code(f[7])),
        !has_target_code(None),
{
}

/// The filter keeps every record it reaches whose eighth field is one of
/// the seven contract codes.
pub proof fn lemma_filter_keeps_tracked_records(rows: Seq<Option<Seq<Seq<char>>>>, i: int)
    requires
        0 <= i < rows.len(),
        rows[i] is Some,
        rows[i]->0.len() > 7,
        is_processed_tff_code(rows[i]->0[7]),
    ensures
        target_records(rows).contains(rows[i]->0),
    decreases rows.len(),
{
    let rest = target_records(rows.drop_last());
    if i == rows.len() - 1 {
        assert(has_target_code(rows.last()));
        assert(target_records(rows) == rest.push(rows[i]->0));
        assert(target_records(rows)[rest.len() as int] == rows[i]->0);
    } else {
        assert(rows.drop_last()[i] == rows[i]);
        lemma_filter_keeps_tracked_records(rows.drop_last(), i);
        let k = choose|k: int| 0 <= k < rest.len() && rest[k] == rows[i]->0;
        if has_target_code(rows.last()) {
            assert(target_records(rows)[k] == rest[k]);
        }
    }
}

} // verus!
