use cie::config::{ConfigError, EnvVarError, SentinelConfig};
use cie::dates::{add_one_day, instant_before, midnight_utc, CalendarDate, UtcInstant};
use cie::text::{concat_text, decimal_string, remove_char, same_text, utf8_shorter_than};
use cie::tff::{archive_tff_code, processed_tff_code};

#[test]
fn midnight_of_dates() {
    assert_eq!(midnight_utc(&CalendarDate { year: 1970, month: 1, day: 1 }).secs, 0);
    assert_eq!(midnight_utc(&CalendarDate { year: 2024, month: 1, day: 2 }).secs, 1704153600);
    assert_eq!(midnight_utc(&CalendarDate { year: 2024, month: 2, day: 29 }).secs, 1709164800);
    assert_eq!(midnight_utc(&CalendarDate { year: 1969, month: 12, day: 31 }).secs, -86400);
    assert_eq!(midnight_utc(&CalendarDate { year: 1600, month: 3, day: 1 }).secs, -11670912000);
}

#[test]
fn instants_order_and_days() {
    let a = UtcInstant { secs: 10, nanos: 5 };
    let b = UtcInstant { secs: 10, nanos: 6 };
    assert!(instant_before(&a, &b));
    assert!(!instant_before(&b, &a));
    assert!(!instant_before(&a, &a));
    assert_eq!(add_one_day(&a), UtcInstant { secs: 86410, nanos: 5 });
}

#[test]
fn text_helpers() {
    assert_eq!(remove_char("1,234,567", ','), "1234567");
    assert_eq!(remove_char("EUR_USD", '_'), "EURUSD");
    assert_eq!(remove_char("", ','), "");
    assert!(same_text("abc", "abc"));
    assert!(!same_text("abc", "abd"));
    assert_eq!(concat_text("ab", "cd"), "abcd");
    assert_eq!(decimal_string(0), "0");
    assert_eq!(decimal_string(2016), "2016");
    assert_eq!(decimal_string(-9), "-9");
    assert_eq!(decimal_string(i64::MIN), "-9223372036854775808");
    assert!(utf8_shorter_than("2024-01", 8));
    assert!(!utf8_shorter_than("2024-01-", 8));
    assert!(!utf8_shorter_than("\u{e9}\u{e9}\u{e9}\u{e9}", 8));
    assert!(utf8_shorter_than("\u{e9}\u{e9}\u{e9}", 8));
}

#[test]
fn contract_code_lists() {
    for code in ["090741", "092741", "096742", "097741", "099741", "232741", "112741"] {
        assert!(processed_tff_code(code));
        assert!(archive_tff_code(code));
    }
    for code in ["095741", "120741", "216742", "233741"] {
        assert!(!processed_tff_code(code));
        assert!(archive_tff_code(code));
    }
    assert!(!archive_tff_code("096741"));
    assert!(!processed_tff_code("096741"));
    assert!(!processed_tff_code(" 099741"));
}

fn ok(s: &str) -> Result<String, EnvVarError> {
    Ok(s.to_string())
}

#[test]
fn config_from_values() {
    let c = SentinelConfig::from_env_values(ok("key"), ok("host"), ok("db"), ok("2016-01-01"))
        .unwrap();
    assert_eq!(c.oanda_api_key, "key");
    assert_eq!(c.oanda_host, "host");
    assert_eq!(c.database_url, "db");
    assert_eq!(c.default_start_date, UtcInstant { secs: 1451606400, nanos: 0 });
}

#[test]
fn config_reports_first_missing_variable() {
    let r = SentinelConfig::from_env_values(
        ok("key"),
        Err(EnvVarError::NotPresent),
        Err(EnvVarError::NotUnicode("x".to_string())),
        ok("2016-01-01"),
    );
    assert!(matches!(r, Err(ConfigError::MissingVariabl(EnvVarError::NotPresent))));
}

#[test]
fn config_refuses_bad_date() {
    let r = SentinelConfig::from_env_values(ok("key"), ok("host"), ok("db"), ok("2016/01/01"));
    assert!(matches!(r, Err(ConfigError::InvalidDateFormat(_))));
    let r = SentinelConfig::from_env_values(ok("key"), ok("host"), ok("db"), ok("2023-02-29"));
    assert!(matches!(r, Err(ConfigError::InvalidDateFormat(_))));
}
