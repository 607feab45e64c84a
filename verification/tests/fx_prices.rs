use bigdecimal::BigDecimal;
use cie::dates::{CalendarDate, UtcInstant};
use cie::fx::{
    fx_resume_start, raw_fx_price_path, rows_from_candles, Candle, CandleError, CandlePrices,
    FxPaging, FxPagingAction, FxPriceDaily,
};
use std::str::FromStr;

fn price(s: &str) -> Option<Result<BigDecimal, String>> {
    Some(Ok(BigDecimal::from_str(s).unwrap()))
}

fn candle(complete: Option<bool>, secs: i64) -> Candle {
    Candle {
        complete,
        mid: Some(CandlePrices {
            o: price("1.1000"),
            h: price("1.1050"),
            l: price("1.0950"),
            c: price("1.1020"),
        }),
        volume: Some(4321),
        time: Some(UtcInstant { secs, nanos: 0 }),
    }
}

// 2024-01-02T22:00:00Z
const TUESDAY_EVENING: i64 = 1704153600 + 22 * 3600;

#[test]
fn from_candle_builds_daily_row() {
    let row = FxPriceDaily::from_candle(candle(Some(true), TUESDAY_EVENING), "EUR_USD").unwrap();
    assert_eq!(row.currency_pair, "EURUSD");
    assert_eq!(row.price_date, CalendarDate { year: 2024, month: 1, day: 2 });
    assert!(row.complete);
    assert_eq!(row.open_price, BigDecimal::from_str("1.1000").unwrap());
    assert_eq!(row.close_price, BigDecimal::from_str("1.1020").unwrap());
    assert_eq!(row.tick_volume, 4321);
}

#[test]
fn from_candle_before_epoch() {
    let row = FxPriceDaily::from_candle(candle(None, -1), "USD_JPY").unwrap();
    assert_eq!(row.price_date, CalendarDate { year: 1969, month: 12, day: 31 });
    assert!(!row.complete);
}

#[test]
fn from_candle_reports_first_missing_part() {
    let mut c = candle(Some(true), 0);
    c.mid = None;
    c.time = None;
    assert_eq!(FxPriceDaily::from_candle(c, "EUR_USD").err(), Some(CandleError::MissingMidPrices));

    let mut c = candle(Some(true), 0);
    c.time = None;
    assert_eq!(FxPriceDaily::from_candle(c, "EUR_USD").err(), Some(CandleError::MissingTime));

    let mut c = candle(Some(true), 0);
    c.mid.as_mut().unwrap().h = None;
    c.volume = None;
    assert_eq!(FxPriceDaily::from_candle(c, "EUR_USD").err(), Some(CandleError::MissingHigh));

    let mut c = candle(Some(true), 0);
    c.mid.as_mut().unwrap().l = Some(Err("NaN".to_string()));
    assert_eq!(
        FxPriceDaily::from_candle(c, "EUR_USD").err(),
        Some(CandleError::PriceConversion("NaN".to_string()))
    );

    let mut c = candle(Some(true), 0);
    c.volume = None;
    assert_eq!(FxPriceDaily::from_candle(c, "EUR_USD").err(), Some(CandleError::MissingVolume));
}

#[test]
fn rows_only_from_complete_candles() {
    let mut broken = candle(Some(false), 0);
    broken.mid = None;
    let candles = vec![
        candle(Some(true), TUESDAY_EVENING),
        broken,
        candle(None, TUESDAY_EVENING + 86400),
        candle(Some(true), TUESDAY_EVENING + 2 * 86400),
    ];
    let rows = rows_from_candles(candles, "GBP_USD").unwrap();
    assert_eq!(rows.len(), 2);
    assert_eq!(rows[0].price_date, CalendarDate { year: 2024, month: 1, day: 2 });
    assert_eq!(rows[1].price_date, CalendarDate { year: 2024, month: 1, day: 4 });
    assert_eq!(rows[1].currency_pair, "GBPUSD");
}

#[test]
fn rows_stop_at_first_bad_complete_candle() {
    let mut bad = candle(Some(true), 0);
    bad.volume = None;
    let candles = vec![candle(Some(true), 0), bad, candle(Some(true), 86400)];
    assert_eq!(rows_from_candles(candles, "EUR_USD").err(), Some(CandleError::MissingVolume));
}

#[test]
fn resume_start_after_last_stored_date() {
    assert_eq!(fx_resume_start(None), UtcInstant { secs: 1451606400, nanos: 0 });
    let last = CalendarDate { year: 2024, month: 1, day: 2 };
    assert_eq!(fx_resume_start(Some(last)), UtcInstant { secs: 1704153600 + 86400, nanos: 0 });
}

#[test]
fn paging_follows_last_candle() {
    let mut paging = FxPaging::new(None);
    let now = UtcInstant { secs: 1704153600, nanos: 0 };
    assert_eq!(
        paging.next_action(&now),
        FxPagingAction::Request(UtcInstant { secs: 1451606400, nanos: 0 })
    );
    let page = vec![candle(Some(true), 1451606400), candle(Some(true), 1451606400 + 86400)];
    assert!(FxPaging::can_take(&page));
    paging.take_page(page);
    assert!(!paging.finished);
    assert_eq!(paging.candles.len(), 2);
    assert_eq!(paging.current_start, UtcInstant { secs: 1451606400 + 2 * 86400, nanos: 0 });
    paging.take_page(Vec::new());
    assert!(paging.finished);
    assert_eq!(paging.next_action(&now), FxPagingAction::Done);
}

#[test]
fn paging_drops_page_whose_last_candle_has_no_time() {
    let mut paging = FxPaging::new(None);
    let mut last = candle(Some(true), 0);
    last.time = None;
    paging.take_page(vec![candle(Some(true), 1451606400), last]);
    assert!(paging.finished);
    assert!(paging.candles.is_empty());
}

#[test]
fn paging_stops_when_caught_up() {
    let paging = FxPaging::new(Some(CalendarDate { year: 2024, month: 1, day: 2 }));
    let now = UtcInstant { secs: 1704153600 + 86400, nanos: 0 };
    assert_eq!(paging.next_action(&now), FxPagingAction::Done);
    let later = UtcInstant { secs: 1704153600 + 86400, nanos: 1 };
    assert!(matches!(paging.next_action(&later), FxPagingAction::Request(_)));
}

#[test]
fn can_take_refuses_out_of_range_page() {
    let page = vec![candle(Some(true), 8210266876799)];
    assert!(!FxPaging::can_take(&page));
}

#[test]
fn raw_price_path() {
    assert_eq!(
        raw_fx_price_path("EUR_USD", "D"),
        "data/raw/fx_prices/EUR_USD_D_RawFXPriceData.json"
    );
}

#[test]
fn paging_ends_within_one_request_per_day() {
    // Three days and a second of history: at most four requests.
    let mut paging = FxPaging::new(Some(CalendarDate { year: 2024, month: 1, day: 1 }));
    let start = paging.current_start.secs;
    let now = UtcInstant { secs: start + 3 * 86400 + 1, nanos: 0 };
    let mut requests = 0;
    while let FxPagingAction::Request(from) = paging.next_action(&now) {
        requests += 1;
        assert!(requests <= 4);
        let page = vec![candle(Some(true), from.secs)];
        assert!(FxPaging::can_take(&page));
        paging.take_page(page);
    }
    assert_eq!(requests, 4);
    assert_eq!(paging.candles.len(), 4);
}
