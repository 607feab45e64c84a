use cie::csv_logic::{csv_process_raw_cot, csv_validate, extract_cot_date};
use cie::errors::IngetionError;
use cie::report_files::{filter_raw_cot, rename_csv, validate_csv, FilterStop};

const WEEKLY: &str = "EURO FX - CME,240102,2024-01-02,099741,100\n\
JAPANESE YEN - CME,240102,2024-01-02,097741,200\n\
MEXICAN PESO - CME,240102,2024-01-02,095741,300\n";

#[test]
fn extract_cot_date_reads_second_record_third_field() {
    let r = extract_cot_date(WEEKLY.as_bytes(), "weekly.csv");
    assert_eq!(r.unwrap(), "2024-01-02");
}

#[test]
fn extract_cot_date_without_second_record() {
    let r = extract_cot_date(b"only,one,2024-01-02\n", "weekly.csv");
    match r {
        Err(IngetionError::MissingData(m)) => assert_eq!(
            m,
            "No date found in the third column of the second rose in COT file: weekly.csv"
        ),
        other => panic!("unexpected {:?}", other),
    }
}

#[test]
fn extract_cot_date_with_short_date() {
    let r = extract_cot_date(b"a,b,2024-01-02\nc,d,2024\n", "weekly.csv");
    match r {
        Err(IngetionError::InvalidDate(m)) => {
            assert_eq!(m, "Extracted COT date '2024' seems invalid.")
        }
        other => panic!("unexpected {:?}", other),
    }
}

#[test]
fn extract_cot_date_with_empty_date() {
    let r = extract_cot_date(b"a,b,2024-01-02\nc,d,\n", "weekly.csv");
    assert!(matches!(r, Err(IngetionError::InvalidDate(_))));
}

#[test]
fn extract_cot_date_ignores_later_malformed_records() {
    let r = extract_cot_date(b"a,b,c\nx,y,2024-01-09\nshort\n", "weekly.csv");
    assert_eq!(r.unwrap(), "2024-01-09");
}

#[test]
fn extract_cot_date_reports_malformed_second_record() {
    let r = extract_cot_date(b"a,b,c\nx,y\n", "weekly.csv");
    assert!(matches!(r, Err(IngetionError::Csv(_))));
}

#[test]
fn csv_validate_accepts_tracked_code() {
    assert!(csv_validate(WEEKLY.as_bytes(), "weekly.csv").is_ok());
}

#[test]
fn csv_validate_refuses_file_without_tracked_code() {
    let r = csv_validate(b"MEXICAN PESO,240102,2024-01-02,095741,300\n", "weekly.csv");
    match r {
        Err(IngetionError::Validation(m)) => {
            assert_eq!(m, "\u{2022} No vlid Tff codes found in file: weekly.csv")
        }
        other => panic!("unexpected {:?}", other),
    }
}

#[test]
fn csv_validate_reports_unequal_records() {
    let r = csv_validate(b"a,b,c,099741\nx,y\n", "weekly.csv");
    assert!(matches!(r, Err(IngetionError::Csv(_))));
}

#[test]
fn csv_validate_ignores_records_without_fourth_field() {
    let r = csv_validate(b"a,b,c\n", "weekly.csv");
    assert!(matches!(r, Err(IngetionError::Validation(_))));
}

fn processed(input: &[u8]) -> Vec<u8> {
    let report = csv_process_raw_cot(input);
    assert!(report.error.is_none(), "unexpected {:?}", report.error);
    report.output
}

#[test]
fn csv_process_raw_cot_keeps_tracked_records_in_order() {
    let out = processed(WEEKLY.as_bytes());
    assert_eq!(
        String::from_utf8(out).unwrap(),
        "EURO FX - CME,240102,2024-01-02,099741,100\n\
JAPANESE YEN - CME,240102,2024-01-02,097741,200\n"
    );
}

#[test]
fn csv_process_raw_cot_is_idempotent() {
    let once = processed(WEEKLY.as_bytes());
    let twice = processed(&once);
    assert_eq!(once, twice);
}

#[test]
fn csv_process_raw_cot_quotes_fields_that_need_it() {
    let out = processed(b"\"EURO FX, CME\",1,2,099741\n");
    assert_eq!(String::from_utf8(out).unwrap(), "\"EURO FX, CME\",1,2,099741\n");
}

#[test]
fn csv_process_raw_cot_refuses_record_without_code() {
    let r = csv_process_raw_cot(b"a,b,c\n");
    assert!(r.output.is_empty());
    match r.error {
        Some(IngetionError::Validation(m)) => assert_eq!(
            m,
            "Missing TFF code in record: StringRecord([\"a\", \"b\", \"c\"])"
        ),
        other => panic!("unexpected {:?}", other),
    }
}

#[test]
fn csv_process_raw_cot_keeps_records_before_the_stop() {
    let input = "EURO FX,1,2,099741\nMEXICAN PESO,1,2,095741\nYEN,1,2,097741\nshort,1\nPOUND,1,2,096742\n";
    let r = csv_process_raw_cot(input.as_bytes());
    assert_eq!(
        String::from_utf8(r.output).unwrap(),
        "EURO FX,1,2,099741\nYEN,1,2,097741\n"
    );
    assert!(matches!(r.error, Some(IngetionError::Csv(_))));
}

#[test]
fn csv_process_raw_cot_of_empty_file_is_empty() {
    assert_eq!(processed(b""), Vec::<u8>::new());
}

const RAW_WITH_HEADER: &str = "name,date,x,y,z,u,v,code\n\
a,2024-01-02,1,2,3,4,5,099741\n\
b,2024-01-02,1,2,3,4,5,095741\n\
c,2024-01-02,1,2,3,4,5,096742\n\
d,2024-01-02,1,2,3,4,5,096741\n";

#[test]
fn filter_raw_cot_keeps_target_codes_in_order() {
    let run = filter_raw_cot(RAW_WITH_HEADER.as_bytes());
    assert!(matches!(run.stop, FilterStop::Completed));
    assert_eq!(
        String::from_utf8(run.output).unwrap(),
        "a,2024-01-02,1,2,3,4,5,099741\nc,2024-01-02,1,2,3,4,5,096742\n"
    );
}

#[test]
fn filter_raw_cot_stops_at_short_record() {
    // All records of a report have the header's length, so a short record
    // is the first one.
    let run = filter_raw_cot(b"h1,h2\nc,d\ne,f\n");
    assert!(matches!(run.stop, FilterStop::ShortRecord));
    assert!(run.output.is_empty());
}

#[test]
fn filter_raw_cot_keeps_records_before_a_malformed_one() {
    let input = "h1,h2,h3,h4,h5,h6,h7,h8\na,1,2,3,4,5,6,090741\nb,1,2,3,4,5,6,095741\nc,1,2,3,4,5,6,7,8\nd,1,2,3,4,5,6,092741\n";
    let run = filter_raw_cot(input.as_bytes());
    assert!(matches!(run.stop, FilterStop::Malformed(_)));
    assert_eq!(String::from_utf8(run.output).unwrap(), "a,1,2,3,4,5,6,090741\n");
}

#[test]
fn validate_csv_passes_target_code() {
    assert!(matches!(validate_csv(RAW_WITH_HEADER.as_bytes()), Some(Ok(()))));
}

#[test]
fn validate_csv_refuses_file_without_target_code() {
    let input = "name,date,x,y,z,u,v,code\nb,2024-01-02,1,2,3,4,5,095741\nd,2024-01-02,1,2,3,4,5,096741\n";
    match validate_csv(input.as_bytes()) {
        Some(Err(IngetionError::Validation(m))) => assert_eq!(m, "No valid TFF codes found."),
        other => panic!("unexpected {:?}", other),
    }
    let run = filter_raw_cot(input.as_bytes());
    assert!(run.output.is_empty());
}

#[test]
fn validate_csv_has_no_answer_for_short_records() {
    assert!(validate_csv(b"a,b\nc,d\n").is_none());
}

#[test]
fn rename_csv_names_report_after_its_date() {
    let input = "h1,h2,h3\nr1,x,2024-01-02\nr2,y,2024-01-09\n";
    assert_eq!(
        rename_csv(input.as_bytes()).unwrap().unwrap(),
        "data/raw/cot/2024-01-09-cot_report.csv"
    );
}

#[test]
fn rename_csv_without_second_record() {
    match rename_csv(b"h1,h2,h3\nr1,x,2024-01-02\n") {
        Some(Err(IngetionError::MissingData(m))) => {
            assert_eq!(m, "Error: Date not found in expected row.")
        }
        other => panic!("unexpected {:?}", other),
    }
}

#[test]
fn filter_raw_cot_reports_the_first_malformed_record() {
    let input = "h1,h2,h3,h4,h5,h6,h7,h8\na,1,2,3,4,5,6,090741\nb,1\nc,1,2\n";
    match filter_raw_cot(input.as_bytes()).stop {
        FilterStop::Malformed(e) => match e.kind() {
            csv::ErrorKind::UnequalLengths { pos, .. } => {
                assert_eq!(pos.as_ref().map(|p| p.line()), Some(3))
            }
            other => panic!("unexpected {:?}", other),
        },
        other => panic!("unexpected {:?}", other),
    }
}

#[test]
fn rename_csv_reports_the_first_malformed_record() {
    match rename_csv(b"h1,h2,h3\nr1,x\nr2,y,2024-01-09,z\n") {
        Some(Err(IngetionError::Csv(e))) => match e.kind() {
            csv::ErrorKind::UnequalLengths { pos, .. } => {
                assert_eq!(pos.as_ref().map(|p| p.line()), Some(2))
            }
            other => panic!("unexpected {:?}", other),
        },
        other => panic!("unexpected {:?}", other),
    }
}
