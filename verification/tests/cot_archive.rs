use cie::archive::{cot_archive_url, cot_text_from_archive, first_archive_entry, ArchiveError};
use cie::cot::{select_cot_reports, CotReport, CotReportError, RawCot};
use cie::dates::CalendarDate;
use cie::decimal::DecimalValue;
use std::io::{Cursor, Write};

fn raw(code: &str, date: &str, oi: &str, long: &str) -> RawCot {
    RawCot {
        market_name: "EURO FX - CHICAGO MERCANTILE EXCHANGE".to_string(),
        report_date: date.to_string(),
        tff_code: code.to_string(),
        open_interest_all: oi.to_string(),
        dealer_long: long.to_string(),
        dealer_short: "2".to_string(),
        dealer_spread: "3".to_string(),
        asset_mgr_long: "4".to_string(),
        asset_mgr_short: "5".to_string(),
        asset_mgr_spread: "6".to_string(),
        lev_money_long: "7".to_string(),
        lev_money_short: "8".to_string(),
        lev_money_spread: "9".to_string(),
        other_rept_long: "10".to_string(),
        other_rept_short: "11".to_string(),
        other_rept_spread: "-12.5".to_string(),
    }
}

fn plain(n: u128) -> DecimalValue {
    DecimalValue { negative: false, magnitude: n, scale: 0 }
}

#[test]
fn try_from_parses_date_and_counts() {
    let report = CotReport::try_from(raw("099741", "2024-01-02", "650000", "1,234,567")).unwrap();
    assert_eq!(report.report_date, CalendarDate { year: 2024, month: 1, day: 2 });
    assert_eq!(report.tff_code, "099741");
    assert_eq!(report.open_interest_all, plain(650000));
    assert_eq!(report.dealer_long, plain(1234567));
    assert_eq!(report.dealer_short, plain(2));
    assert_eq!(
        report.other_rept_spread,
        DecimalValue { negative: true, magnitude: 125, scale: 1 }
    );
}

#[test]
fn try_from_keeps_commas_of_open_interest() {
    let r = CotReport::try_from(raw("099741", "2024-01-02", "650,000", "1"));
    assert!(matches!(r, Err(CotReportError::Number(_))));
}

#[test]
fn try_from_refuses_bad_date() {
    let r = CotReport::try_from(raw("099741", "01/02/2024", "1", "x"));
    assert!(matches!(r, Err(CotReportError::ReportDate(_))));
}

#[test]
fn try_from_refuses_bad_count() {
    let r = CotReport::try_from(raw("099741", "2024-01-02", "1", "12a"));
    assert!(matches!(r, Err(CotReportError::Number(_))));
}

#[test]
fn select_keeps_archive_contracts_that_parse() {
    let rows = vec![
        raw("099741", "2024-01-02", "1", "1"),
        raw("001602", "2024-01-02", "1", "1"),
        raw("233741", "2024-01-02", "1", "2"),
        raw("095741", "bad", "1", "1"),
        raw("112741", "2024-01-09", "1", "3"),
    ];
    let reports = select_cot_reports(rows);
    let codes: Vec<&str> = reports.iter().map(|r| r.tff_code.as_str()).collect();
    assert_eq!(codes, vec!["099741", "233741", "112741"]);
    assert_eq!(reports[2].report_date, CalendarDate { year: 2024, month: 1, day: 9 });
}

fn zip_of(entries: &[(&str, &str)]) -> Vec<u8> {
    let mut writer = zip::ZipWriter::new(Cursor::new(Vec::new()));
    let options = zip::write::SimpleFileOptions::default()
        .compression_method(zip::CompressionMethod::Stored);
    for (name, content) in entries {
        writer.start_file(*name, options).unwrap();
        writer.write_all(content.as_bytes()).unwrap();
    }
    writer.finish().unwrap().into_inner()
}

#[test]
fn archive_text_is_first_txt_entry() {
    let bytes = zip_of(&[("readme.md", "x"), ("FinFutYY.txt", "a,b\n"), ("other.txt", "c")]);
    let text = cot_text_from_archive(&bytes).unwrap();
    assert_eq!(text.data, b"a,b\n".to_vec());
    assert!(text.read_error.is_none());
}

fn corrupted(mut bytes: Vec<u8>, content: &[u8]) -> Vec<u8> {
    let at = bytes.windows(content.len()).position(|w| w == content).unwrap();
    bytes[at] ^= 0x20;
    bytes
}

#[test]
fn archive_text_with_read_error_keeps_the_error() {
    let bytes = corrupted(zip_of(&[("FinFutYY.txt", "a,b\nc,d\n")]), b"a,b\nc,d\n");
    let text = cot_text_from_archive(&bytes).unwrap();
    assert!(text.read_error.is_some());
}

#[test]
fn first_archive_entry_with_read_error_keeps_the_error() {
    let bytes = corrupted(zip_of(&[("FinFutWk.txt", "first entry")]), b"first entry");
    let text = first_archive_entry(&bytes, 2024).unwrap();
    assert!(text.read_error.is_some());
}

#[test]
fn archive_without_txt_entry() {
    let bytes = zip_of(&[("readme.md", "x")]);
    assert!(matches!(cot_text_from_archive(&bytes), Err(ArchiveError::NoTextEntry)));
}

#[test]
fn archive_that_does_not_open() {
    assert!(matches!(cot_text_from_archive(b"not a zip"), Err(ArchiveError::Zip(_))));
}

#[test]
fn first_archive_entry_reads_entry_zero() {
    let bytes = zip_of(&[("FinFutWk.txt", "first"), ("b.txt", "second")]);
    let text = first_archive_entry(&bytes, 2024).unwrap();
    assert_eq!(text.data, b"first".to_vec());
    assert!(text.read_error.is_none());
    let empty = zip_of(&[]);
    assert!(matches!(
        first_archive_entry(&empty, 2024),
        Err(ArchiveError::MissingFirstEntry(2024))
    ));
}

#[test]
fn archive_url_of_year() {
    assert_eq!(
        cot_archive_url(2024),
        "https://www.cftc.gov/files/dea/history/fut_fin_txt_2024.zip"
    );
    assert_eq!(
        cot_archive_url(-7),
        "https://www.cftc.gov/files/dea/history/fut_fin_txt_-7.zip"
    );
}

#[test]
fn counts_parse_alike_with_and_without_commas() {
    let with = CotReport::try_from(raw("099741", "2024-01-02", "1", "12,345")).unwrap();
    let without = CotReport::try_from(raw("099741", "2024-01-02", "1", "12345")).unwrap();
    assert_eq!(with.dealer_long, without.dealer_long);
}

#[test]
fn selected_reports_are_archive_contracts() {
    let rows = vec![raw("001602", "2024-01-02", "1", "1"), raw("096741", "2024-01-02", "1", "1")];
    assert!(select_cot_reports(rows).is_empty());
}
