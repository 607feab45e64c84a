//! Weekly COT records of the yearly CFTC archive: the raw rows, their typed
//! form, and the rows that the archive import keeps.
use crate::dates::{parse_date, spec_parse_date, CalendarDate};
use crate::decimal::{parse_decimal, parsed_decimal, DecimalValue};
use crate::text::{lemma_without_char, remove_char, without_char};
use crate::tff::{archive_tff_code, is_archive_tff_code};
use vstd::prelude::*;

verus! {

/// One row of the CFTC financial futures report as the CSV columns give it
/// (Market_and_Exchange_Names, Report_Date_as_YYYY-MM-DD,
/// CFTC_Contract_Market_Code, Open_Interest_All and the long, short and
/// spread positions of dealers, asset managers, leveraged money and other
/// reportables).
#[derive(Debug)]
pub struct RawCot {
    pub market_name: String,
    pub report_date: String,
    pub tff_code: String,
    pub open_interest_all: String,
    pub dealer_long: String,
    pub dealer_short: String,
    pub dealer_spread: String,
    pub asset_mgr_long: String,
    pub asset_mgr_short: String,
    pub asset_mgr_spread: String,
    pub lev_money_long: String,
    pub lev_money_short: String,
    pub lev_money_spread: String,
    pub other_rept_long: String,
    pub other_rept_short: String,
    pub other_rept_spread: String,
}

/// A COT row with its date and numbers parsed.
#[derive(Debug)]
pub struct CotReport {
    pub market_name: String,
    pub report_date: CalendarDate,
    pub tff_code: String,
    pub open_interest_all: DecimalValue,
    pub dealer_long: DecimalValue,
    pub dealer_short: DecimalValue,
    pub dealer_spread: DecimalValue,
    pub asset_mgr_long: DecimalValue,
    pub asset_mgr_short: DecimalValue,
    pub asset_mgr_spread: DecimalValue,
    pub lev_money_long: DecimalValue,
    pub lev_money_short: DecimalValue,
    pub lev_money_spread: DecimalValue,
    pub other_rept_long: DecimalValue,
    pub other_rept_short: DecimalValue,
    pub other_rept_spread: DecimalValue,
}

/// Why a raw row could not be typed: its date or one of its numbers did not
/// parse.
#[derive(Debug)]
pub enum CotReportError {
    ReportDate(chrono::ParseError),
    Number(rust_decimal::Error),
}

/// The date format of the report's date column.
pub open spec fn report_date_format() -> Seq<char> {
    "%Y-%m-%d"@
}

/// A position count: the number written with its thousands separators
/// (commas) removed.
pub open spec fn parsed_count(s: Seq<char>) -> Option<DecimalValue> {
    parsed_decimal(without_char(s, ','))
}

/// The typed form of a raw row, if its date and all its numbers parse. The
/// open interest is parsed as written; the positions have their commas
/// removed first.
pub open spec fn spec_cot_report(raw: RawCot) -> Option<CotReport> {
    let date = spec_parse_date(raw.report_date@, report_date_format());
    let oi = parsed_decimal(raw.open_interest_all@);
    let dealer_long = parsed_count(raw.dealer_long@);
    let dealer_short = parsed_count(raw.dealer_short@);
    let dealer_spread = parsed_count(raw.dealer_spread@);
    let asset_mgr_long = parsed_count(raw.asset_mgr_long@);
    let asset_mgr_short = parsed_count(raw.asset_mgr_short@);
    let asset_mgr_spread = parsed_count(raw.asset_mgr_spread@);
    let lev_money_long = parsed_count(raw.lev_money_long@);
    let lev_money_short = parsed_count(raw.lev_money_short@);
    let lev_money_spread = parsed_count(raw.lev_money_spread@);
    let other_rept_long = parsed_count(raw.other_rept_long@);
    let other_rept_short = parsed_count(raw.other_rept_short@);
    let other_rept_spread = parsed_count(raw.other_rept_spread@);
    if date is Some && oi is Some && dealer_long is Some && dealer_short is Some && dealer_spread is Some && asset_mgr_long is Some && asset_mgr_short is Some && asset_mgr_spread is Some && lev_money_long is Some && lev_money_short is Some && lev_money_spread is Some && other_rept_long is Some && other_rept_short is Some && other_rept_spread is Some {
        Some(
            CotReport {
                market_name: raw.market_name,
                report_date: CalendarDate {
                    year: date.unwrap().0 as i32,
                    month: date.unwrap().1 as u32,
                    day: date.unwrap().2 as u32,
                },
                tff_code: raw.tff_code,
                open_interest_all: oi.unwrap(),
                dealer_long: dealer_long.unwrap(),
                dealer_short: dealer_short.unwrap(),
                dealer_spread: dealer_spread.unwrap(),
                asset_mgr_long: asset_mgr_long.unwrap(),
                asset_mgr_short: asset_mgr_short.unwrap(),
                asset_mgr_spread: asset_mgr_spread.unwrap(),
                lev_money_long: lev_money_long.unwrap(),
                lev_money_short: lev_money_short.unwrap(),
                lev_money_spread: lev_money_spread.unwrap(),
                other_rept_long: other_rept_long.unwrap(),
                other_rept_short: other_rept_short.unwrap(),
                other_rept_spread: other_rept_spread.unwrap(),
            },
        )
    } else {
        None
    }
}

/// Parses a position count: removes the commas, then parses the number.
pub fn parse_count(s: &str) -> (r: Result<DecimalValue, rust_decimal::Error>)
    ensures
        match r {
            Ok(d) => parsed_count(s@) == Some(d) && d.wf(),
            Err(_) => parsed_count(s@) is None,
        },
{
    let digits = remove_char(s, ',');
    parse_decimal(digits.as_str())
}

impl CotReport {
    /// Types a raw row: parses the report date (`%Y-%m-%d`), the open
    /// interest and, with their commas removed, the position counts. The
    /// first field that does not parse, in that order, gives the error.
    pub fn try_from(raw: RawCot) -> (r: Result<CotReport, CotReportError>)
        ensures
            match r {
                Ok(report) => {
                    &&& spec_cot_report(raw) == Some(report)
                    &&& report.report_date.valid()
                    &&& spec_parse_date(raw.report_date@, "%Y-%m-%d"@) == Some(report.report_date.as_triple())
                    &&& report.market_name == raw.market_name
                    &&& report.tff_code == raw.tff_code
                    &&& Some(report.open_interest_all) == parsed_decimal(raw.open_interest_all@)
                    &&& Some(report.dealer_long) == parsed_decimal(without_char(raw.dealer_long@, ','))
                    &&& Some(report.dealer_short) == parsed_decimal(without_char(raw.dealer_short@, ','))
                    &&& Some(report.dealer_spread) == parsed_decimal(without_char(raw.dealer_spread@, ','))
                    &&& Some(report.asset_mgr_long) == parsed_decimal(without_char(raw.asset_mgr_long@, ','))
                    &&& Some(report.asset_mgr_short) == parsed_decimal(without_char(raw.asset_mgr_short@, ','))
                    &&& Some(report.asset_mgr_spread) == parsed_decimal(without_char(raw.asset_mgr_spread@, ','))
                    &&& Some(report.lev_money_long) == parsed_decimal(without_char(raw.lev_money_long@, ','))
                    &&& Some(report.lev_money_short) == parsed_decimal(without_char(raw.lev_money_short@, ','))
                    &&& Some(report.lev_money_spread) == parsed_decimal(without_char(raw.lev_money_spread@, ','))
                    &&& Some(report.other_rept_long) == parsed_decimal(without_char(raw.other_rept_long@, ','))
                    &&& Some(report.other_rept_short) == parsed_decimal(without_char(raw.other_rept_short@, ','))
                    &&& Some(report.other_rept_spread) == parsed_decimal(without_char(raw.other_rept_spread@, ','))
                },
                Err(e) => spec_cot_report(raw) is None && (e is ReportDate <==> spec_parse_date(
                    raw.report_date@,
                    report_date_format(),
                ) is None),
            },
    {
        let report_date = match parse_date(raw.report_date.as_str(), "%Y-%m-%d") {
            Ok(d) => d,
            Err(e) => return Err(CotReportError::ReportDate(e)),
        };
        let open_interest_all = match parse_decimal(raw.open_interest_all.as_str()) {
            Ok(d) => d,
            Err(e) => return Err(CotReportError::Number(e)),
        };
        let dealer_long = match parse_count(raw.dealer_long.as_str()) {
            Ok(d) => d,
            Err(e) => return Err(CotReportError::Number(e)),
        };
        let dealer_short = match parse_count(raw.dealer_short.as_str()) {
            Ok(d) => d,
            Err(e) => return Err(CotReportError::Number(e)),
        };
        let dealer_spread = match parse_count(raw.dealer_spread.as_str()) {
            Ok(d) => d,
            Err(e) => return Err(CotReportError::Number(e)),
        };
        let asset_mgr_long = match parse_count(raw.asset_mgr_long.as_str()) {
            Ok(d) => d,
            Err(e) => return Err(CotReportError::Number(e)),
        };
        let asset_mgr_short = match parse_count(raw.asset_mgr_short.as_str()) {
            Ok(d) => d,
            Err(e) => return Err(CotReportError::Number(e)),
        };
        let asset_mgr_spread = match parse_count(raw.asset_mgr_spread.as_str()) {
            Ok(d) => d,
            Err(e) => return Err(CotReportError::Number(e)),
        };
        let lev_money_long = match parse_count(raw.lev_money_long.as_str()) {
            Ok(d) => d,
            Err(e) => return Err(CotReportError::Number(e)),
        };
        let lev_money_short = match parse_count(raw.lev_money_short.as_str()) {
            Ok(d) => d,
            Err(e) => return Err(CotReportError::Number(e)),
        };
        let lev_money_spread = match parse_count(raw.lev_money_spread.as_str()) {
            Ok(d) => d,
            Err(e) => return Err(CotReportError::Number(e)),
        };
        let other_rept_long = match parse_count(raw.other_rept_long.as_str()) {
            Ok(d) => d,
            Err(e) => return Err(CotReportError::Number(e)),
        };
        let other_rept_short = match parse_count(raw.other_rept_short.as_str()) {
            Ok(d) => d,
            Err(e) => return Err(CotReportError::Number(e)),
        };
        let other_rept_spread = match parse_count(raw.other_rept_spread.as_str()) {
            Ok(d) => d,
            Err(e) => return Err(CotReportError::Number(e)),
        };
        Ok(
            CotReport {
                market_name: raw.market_name,
                report_date,
                tff_code: raw.tff_code,
                open_interest_all,
                dealer_long,
                dealer_short,
                dealer_spread,
                asset_mgr_long,
                asset_mgr_short,
                asset_mgr_spread,
                lev_money_long,
                lev_money_short,
                lev_money_spread,
                other_rept_long,
                other_rept_short,
                other_rept_spread,
            },
        )
    }
}

/// The typed reports that the archive import keeps from the rows, in their
/// order: rows of the archive's contracts whose fields all parse.
pub open spec fn selected_reports(rows: Seq<RawCot>) -> Seq<CotReport>
    decreases rows.len(),
{
    if rows.len() == 0 {
        Seq::empty()
    } else {
        let rest = selected_reports(rows.drop_last());
        let last = rows.last();
        if is_archive_tff_code(last.tff_code@) && spec_cot_report(last) is Some {
            rest.push(spec_cot_report(last).unwrap())
        } else {
            rest
        }
    }
}

/// The reports of the archive import: keeps the rows whose contract code is
/// one of the archive's, types them, and skips those whose fields do not
/// parse.
pub fn select_cot_reports(rows: Vec<RawCot>) -> (r: Vec<CotReport>)
    ensures
        r@ == selected_reports(rows@),
{
    let ghost all = rows@;
    let mut reports: Vec<CotReport> = Vec::new();
    for raw in iter: rows
        invariant
            all == iter.seq(),
            reports@ == selected_reports(all.take(iter.index() as int)),
    {
        let ghost k = iter.index();
        assert(all.take(k + 1).drop_last() =~= all.take(k as int));
        assert(all.take(k + 1).last() == raw);
        if archive_tff_code(raw.tff_code.as_str()) {
            match CotReport::try_from(raw) {
                Ok(report) => {
                    reports.push(report);
                },
                Err(_) => {},
            }
        }
    }
    proof {
        assert(all.take(all.len() as int) =~= all);
    }
    reports
}

/// Every report that the archive import keeps is of one of the archive's
/// contracts, and there are no more reports than rows.
pub proof fn lemma_selected_reports_are_tracked(rows: Seq<RawCot>)
    ensures
        selected_reports(rows).len() <= rows.len(),
        forall|k: int|
            0 <= k < selected_reports(rows).len() ==> is_archive_tff_code(
                (#[trigger] selected_reports(rows)[k]).tff_code@,
            ),
    decreases rows.len(),
{
    if rows.len() > 0 {
        lemma_selected_reports_are_tracked(rows.drop_last());
        let rest = selected_reports(rows.drop_last());
        assert forall|k: int| 0 <= k < selected_reports(rows).len() implies is_archive_tff_code(
            (#[trigger] selected_reports(rows)[k]).tff_code@,
        ) by {
            if k < rest.len() {
                assert(selected_reports(rows)[k] == rest[k]);
            }
        }
    }
}

/// A position count parses the same with or without its thousands
/// separators.
pub proof fn lemma_count_ignores_commas(s: Seq<char>)
    ensures
        parsed_count(s) == parsed_count(without_char(s, ',')),
{
    lemma_without_char(s, ',');
}

/// Typing a raw row: it succeeds exactly when its date (`%Y-%m-%d`), its
/// open interest and all its position counts with their commas removed
/// parse; each typed number is then the parse of the raw column of the same
/// name, and the name and contract code are kept as they are.
pub proof fn lemma_cot_report_fields(raw: RawCot)
    ensures
        spec_cot_report(raw) is Some <==> (spec_parse_date(raw.report_date@, "%Y-%m-%d"@) is Some
            && parsed_decimal(raw.open_interest_all@) is Some
            && parsed_decimal(without_char(raw.dealer_long@, ',')) is Some
            && parsed_decimal(without_char(raw.dealer_short@, ',')) is Some
            && parsed_decimal(without_char(raw.dealer_spread@, ',')) is Some
            && parsed_decimal(without_char(raw.asset_mgr_long@, ',')) is Some
            && parsed_decimal(without_char(raw.asset_mgr_short@, ',')) is Some
            && parsed_decimal(without_char(raw.asset_mgr_spread@, ',')) is Some
            && parsed_decimal(without_char(raw.lev_money_long@, ',')) is Some
            && parsed_decimal(without_char(raw.lev_money_short@, ',')) is Some
            && parsed_decimal(without_char(raw.lev_money_spread@, ',')) is Some
            && parsed_decimal(without_char(raw.other_rept_long@, ',')) is Some
            && parsed_decimal(without_char(raw.other_rept_short@, ',')) is Some
            && parsed_decimal(without_char(raw.other_rept_spread@, ',')) is Some),
        spec_cot_report(raw) matches Some(r) ==> r.market_name == raw.market_name
            && r.tff_code == raw.tff_code,
        spec_cot_report(raw) matches Some(r) ==> Some(r.open_interest_all) == parsed_decimal(raw.open_interest_all@),
        spec_cot_report(raw) matches Some(r) ==> Some(r.dealer_long) == parsed_decimal(without_char(raw.dealer_long@, ',')),
        spec_cot_report(raw) matches Some(r) ==> Some(r.dealer_short) == parsed_decimal(without_char(raw.dealer_short@, ',')),
        spec_cot_report(raw) matches Some(r) ==> Some(r.dealer_spread) == parsed_decimal(without_char(raw.dealer_spread@, ',')),
        spec_cot_report(raw) matches Some(r) ==> Some(r.asset_mgr_long) == parsed_decimal(without_char(raw.asset_mgr_long@, ',')),
        spec_cot_report(raw) matches Some(r) ==> Some(r.asset_mgr_short) == parsed_decimal(without_char(raw.asset_mgr_short@, ',')),
        spec_cot_report(raw) matches Some(r) ==> Some(r.asset_mgr_spread) == parsed_decimal(without_char(raw.asset_mgr_spread@, ',')),
        spec_cot_report(raw) matches Some(r) ==> Some(r.lev_money_long) == parsed_decimal(without_char(raw.lev_money_long@, ',')),
        spec_cot_report(raw) matches Some(r) ==> Some(r.lev_money_short) == parsed_decimal(without_char(raw.lev_money_short@, ',')),
        spec_cot_report(raw) matches Some(r) ==> Some(r.lev_money_spread) == parsed_decimal(without_char(raw.lev_money_spread@, ',')),
        spec_cot_report(raw) matches Some(r) ==> Some(r.other_rept_long) == parsed_decimal(without_char(raw.other_rept_long@, ',')),
        spec_cot_report(raw) matches Some(r) ==> Some(r.other_rept_short) == parsed_decimal(without_char(raw.other_rept_short@, ',')),
        spec_cot_report(raw) matches Some(r) ==> Some(r.other_rept_spread) == parsed_decimal(without_char(raw.other_rept_spread@, ',')),
{
}

/// The archive import keeps every row of one of the archive's contracts
/// whose fields parse: its typed form is among the reports.
pub proof fn lemma_select_keeps_tracked_rows(rows: Seq<RawCot>, i: int)
    requires
        0 <= i < rows.len(),
        is_archive_tff_code(rows[i].tff_code@),
        spec_cot_report(rows[i]) is Some,
    ensures
        selected_reports(rows).contains(spec_cot_report(rows[i]).unwrap()),
    decreases rows.len(),
{
    let rest = selected_reports(rows.drop_last());
    if i == rows.len() - 1 {
        assert(selected_reports(rows) == rest.push(spec_cot_report(rows[i]).unwrap()));
        assert(selected_reports(rows)[rest.len() as int] == spec_cot_report(rows[i]).unwrap());
    } else {
        assert(rows.drop_last()[i] == rows[i]);
        lemma_select_keeps_tracked_rows(rows.drop_last(), i);
        let k = choose|k: int| 0 <= k < rest.len() && rest[k] == spec_cot_report(rows[i]).unwrap();
        let last = rows.last();
        if is_archive_tff_code(last.tff_code@) && spec_cot_report(last) is Some {
            assert(selected_reports(rows)[k] == rest[k]);
        }
    }
}

} // verus!
