//! Daily FX prices from OANDA candles: the paging through the candle
//! history, and the daily rows made from complete candles.
use crate::dates::{
    add_one_day, date_of_instant, days_from_civil, instant_before, max_day_number,
    max_instant_secs, midnight_utc, seconds_per_day, CalendarDate, UtcInstant,
};
use crate::text::{concat_text, lemma_without_char, remove_char, without_char};
use vstd::prelude::*;

verus! {

/// A decimal price of arbitrary precision (`bigdecimal::BigDecimal`, which
/// `sqlx` stores as NUMERIC).
#[verifier::external_type_specification]
#[verifier::external_body]
pub struct ExBigDecimal(bigdecimal::BigDecimal);

/// The mid prices (open, high, low, close) of a candle. Each is the decimal
/// the price converted to, or the message of a failed conversion, or absent.
pub struct CandlePrices {
    pub o: Option<Result<bigdecimal::BigDecimal, String>>,
    pub h: Option<Result<bigdecimal::BigDecimal, String>>,
    pub l: Option<Result<bigdecimal::BigDecimal, String>>,
    pub c: Option<Result<bigdecimal::BigDecimal, String>>,
}

/// An OANDA candlestick as the ingestion reads it: whether it is complete,
/// its mid prices, its tick volume and its start time; each may be absent.
pub struct Candle {
    pub complete: Option<bool>,
    pub mid: Option<CandlePrices>,
    pub volume: Option<i32>,
    pub time: Option<UtcInstant>,
}

impl Candle {
    /// A start time, where present, is an instant chrono can hold.
    pub open spec fn wf(self) -> bool {
        self.time matches Some(t) ==> t.wf()
    }
}

/// One day of prices of a currency pair, as stored in `fx_price_daily`.
pub struct FxPriceDaily {
    pub currency_pair: String,
    pub price_date: CalendarDate,
    pub complete: bool,
    pub open_price: bigdecimal::BigDecimal,
    pub high_price: bigdecimal::BigDecimal,
    pub low_price: bigdecimal::BigDecimal,
    pub close_price: bigdecimal::BigDecimal,
    pub tick_volume: i32,
}

/// Why a candle could not become a daily row: a part of it is absent, or a
/// price did not convert.
#[derive(Debug, PartialEq, Eq)]
pub enum CandleError {
    MissingMidPrices,
    MissingTime,
    MissingOpen,
    MissingHigh,
    MissingLow,
    MissingClose,
    MissingVolume,
    PriceConversion(String),
}

/// The error for one price: absent, or not converted.
pub open spec fn price_error(p: Option<Result<bigdecimal::BigDecimal, String>>, missing: CandleError) -> Option<
    CandleError,
> {
    match p {
        None => Some(missing),
        Some(Err(m)) => Some(CandleError::PriceConversion(m)),
        Some(Ok(_)) => None,
    }
}

/// The first part of the candle, in the order mid prices, time, open, high,
/// low, close, volume, that keeps it from becoming a daily row.
pub open spec fn candle_error(c: Candle) -> Option<CandleError> {
    match c.mid {
        None => Some(CandleError::MissingMidPrices),
        Some(mid) => if c.time is None {
            Some(CandleError::MissingTime)
        } else if price_error(mid.o, CandleError::MissingOpen) is Some {
            price_error(mid.o, CandleError::MissingOpen)
        } else if price_error(mid.h, CandleError::MissingHigh) is Some {
            price_error(mid.h, CandleError::MissingHigh)
        } else if price_error(mid.l, CandleError::MissingLow) is Some {
            price_error(mid.l, CandleError::MissingLow)
        } else if price_error(mid.c, CandleError::MissingClose) is Some {
            price_error(mid.c, CandleError::MissingClose)
        } else if c.volume is None {
            Some(CandleError::MissingVolume)
        } else {
            None
        },
    }
}

/// `row` is the daily row of the candle `c` for the pair `pair`: the pair
/// without underscores, the UTC date of the candle's start, its completeness
/// (absent counts as incomplete), its mid prices and its volume.
pub open spec fn row_from_candle(c: Candle, pair: Seq<char>, row: FxPriceDaily) -> bool {
    &&& c.mid matches Some(mid)
    &&& c.time matches Some(t)
    &&& row.currency_pair@ == without_char(pair, '_')
    &&& row.price_date.valid()
    &&& row.price_date.day_number() == t.day_number()
    &&& row.complete == (c.complete == Some(true))
    &&& mid.o == Some(Ok::<bigdecimal::BigDecimal, String>(row.open_price))
    &&& mid.h == Some(Ok::<bigdecimal::BigDecimal, String>(row.high_price))
    &&& mid.l == Some(Ok::<bigdecimal::BigDecimal, String>(row.low_price))
    &&& mid.c == Some(Ok::<bigdecimal::BigDecimal, String>(row.close_price))
    &&& c.volume == Some(row.tick_volume)
}

fn take_price(p: Option<Result<bigdecimal::BigDecimal, String>>, missing: CandleError) -> (r: Result<
    bigdecimal::BigDecimal,
    CandleError,
>)
    ensures
        match r {
            Ok(v) => price_error(p, missing) is None && p == Some(
                Ok::<bigdecimal::BigDecimal, String>(v),
            ),
            Err(e) => price_error(p, missing) == Some(e),
        },
{
    match p {
        None => Err(missing),
        Some(Err(m)) => Err(CandleError::PriceConversion(m)),
        Some(Ok(v)) => Ok(v),
    }
}

impl FxPriceDaily {
    /// The daily row of a candle for the currency pair `pair` (written with
    /// an underscore, as OANDA names instruments): the pair without
    /// underscores, the UTC date of the candle's start, its completeness, its
    /// mid prices and its volume. The first absent or unconverted part, in
    /// the order mid prices, time, open, high, low, close, volume, is the
    /// error.
    pub fn from_candle(c: Candle, pair: &str) -> (r: Result<FxPriceDaily, CandleError>)
        requires
            c.wf(),
        ensures
            match r {
                Ok(row) => candle_error(c) is None && row_from_candle(c, pair@, row),
                Err(e) => candle_error(c) == Some(e),
            },
            r matches Ok(row) ==> (c.mid matches Some(mid) && mid.o == Some(
                Ok::<bigdecimal::BigDecimal, String>(row.open_price),
            ) && mid.h == Some(Ok::<bigdecimal::BigDecimal, String>(row.high_price)) && mid.l
                == Some(Ok::<bigdecimal::BigDecimal, String>(row.low_price)) && mid.c == Some(
                Ok::<bigdecimal::BigDecimal, String>(row.close_price),
            )),
            r matches Ok(row) ==> c.volume == Some(row.tick_volume),
    {
        let currency_pair = remove_char(pair, '_');
        let mid = match c.mid {
            Some(m) => m,
            None => return Err(CandleError::MissingMidPrices),
        };
        let time = match c.time {
            Some(t) => t,
            None => return Err(CandleError::MissingTime),
        };
        let price_date = match date_of_instant(&time) {
            Some(d) => d,
            None => {
                assert(false);
                return Err(CandleError::MissingTime);
            },
        };
        let complete = match c.complete {
            Some(b) => b,
            None => false,
        };
        let open_price = take_price(mid.o, CandleError::MissingOpen)?;
        let high_price = take_price(mid.h, CandleError::MissingHigh)?;
        let low_price = take_price(mid.l, CandleError::MissingLow)?;
        let close_price = take_price(mid.c, CandleError::MissingClose)?;
        let tick_volume = match c.volume {
            Some(v) => v,
            None => return Err(CandleError::MissingVolume),
        };
        Ok(
            FxPriceDaily {
                currency_pair,
                price_date,
                complete,
                open_price,
                high_price,
                low_price,
                close_price,
                tick_volume,
            },
        )
    }
}

/// The complete candles, in their order.
pub open spec fn complete_candles(candles: Seq<Candle>) -> Seq<Candle>
    decreases candles.len(),
{
    if candles.len() == 0 {
        Seq::empty()
    } else if candles.last().complete == Some(true) {
        complete_candles(candles.drop_last()).push(candles.last())
    } else {
        complete_candles(candles.drop_last())
    }
}

/// `k` is the first complete candle that cannot become a daily row.
pub open spec fn is_first_bad_candle(complete: Seq<Candle>, k: int) -> bool {
    &&& 0 <= k < complete.len()
    &&& candle_error(complete[k]) is Some
    &&& forall|j: int| 0 <= j < k ==> #[trigger] candle_error(complete[j]) is None
}

/// The daily rows of the pair `pair` from the candles: one for each complete
/// candle, in order. The first complete candle that cannot become a row
/// gives the error.
pub fn rows_from_candles(candles: Vec<Candle>, pair: &str) -> (r: Result<Vec<FxPriceDaily>, CandleError>)
    requires
        forall|i: int| 0 <= i < candles.len() ==> (#[trigger] candles[i]).wf(),
    ensures
        match r {
            Ok(rows) => {
                &&& rows.len() == complete_candles(candles@).len()
                &&& forall|k: int|
                    0 <= k < rows.len() ==> row_from_candle(
                        #[trigger] complete_candles(candles@)[k],
                        pair@,
                        rows[k],
                    )
            },
            Err(e) => exists|k: int|
                is_first_bad_candle(complete_candles(candles@), k) && candle_error(
                    complete_candles(candles@)[k],
                ) == Some(e),
        },
{
    let ghost all = candles@;
    let mut rows: Vec<FxPriceDaily> = Vec::new();
    for c in iter: candles
        invariant
            all == iter.seq(),
            forall|i: int| 0 <= i < all.len() ==> (#[trigger] all[i]).wf(),
            rows.len() == complete_candles(all.take(iter.index() as int)).len(),
            forall|k: int|
                0 <= k < rows.len() ==> row_from_candle(
                    #[trigger] complete_candles(all.take(iter.index() as int))[k],
                    pair@,
                    rows[k],
                ),
            forall|k: int|
                0 <= k < rows.len() ==> #[trigger] candle_error(
                    complete_candles(all.take(iter.index() as int))[k],
                ) is None,
    {
        let ghost idx = iter.index();
        let ghost before = complete_candles(all.take(idx as int));
        assert(all.take(idx + 1).drop_last() =~= all.take(idx as int));
        assert(all.take(idx + 1).last() == c);
        assert(c.wf());
        let is_complete = match c.complete {
            Some(b) => b,
            None => false,
        };
        if is_complete {
            let ghost c0 = c;
            let ghost after = complete_candles(all.take(idx + 1));
            assert(after == before.push(c0));
            match FxPriceDaily::from_candle(c, pair) {
                Ok(row) => {
                    rows.push(row);
                    assert forall|k: int| 0 <= k < rows.len() implies row_from_candle(
                        #[trigger] after[k],
                        pair@,
                        rows[k],
                    ) by {
                        if k < before.len() {
                            assert(after[k] == before[k]);
                        }
                    }
                    assert forall|k: int| 0 <= k < rows.len() implies #[trigger] candle_error(
                        after[k],
                    ) is None by {
                        if k < before.len() {
                            assert(after[k] == before[k]);
                        }
                    }
                },
                Err(e) => {
                    proof {
                        let k = before.len() as int;
                        assert(after[k] == c0);
                        assert forall|j: int| 0 <= j < k implies #[trigger] candle_error(
                            after[j],
                        ) is None by {
                            assert(after[j] == before[j]);
                        }
                        assert(is_first_bad_candle(after, k));
                        // the rest of the candles do not change the prefix
                        lemma_complete_candles_prefix(all, idx + 1);
                        let whole = complete_candles(all);
                        assert forall|j: int| 0 <= j < k implies #[trigger] candle_error(
                            whole[j],
                        ) is None by {
                            assert(whole[j] == after[j]);
                        }
                        assert(whole[k] == after[k]);
                        assert(is_first_bad_candle(whole, k));
                    }
                    return Err(e);
                },
            }
        } else {
            assert(complete_candles(all.take(idx + 1)) == before);
        }
    }
    proof {
        assert(all.take(all.len() as int) =~= all);
    }
    Ok(rows)
}

/// The complete candles of a prefix are a prefix of the complete candles.
pub proof fn lemma_complete_candles_prefix(candles: Seq<Candle>, n: int)
    requires
        0 <= n <= candles.len(),
    ensures
        complete_candles(candles.take(n)).len() <= complete_candles(candles).len(),
        forall|k: int|
            0 <= k < complete_candles(candles.take(n)).len() ==> #[trigger] complete_candles(
                candles,
            )[k] == complete_candles(candles.take(n))[k],
    decreases candles.len() - n,
{
    if n < candles.len() {
        lemma_complete_candles_prefix(candles, n + 1);
        assert(candles.take(n + 1).drop_last() =~= candles.take(n));
    } else {
        assert(candles.take(n) =~= candles);
    }
}

/// The first day of the FX history: 2016-01-01.
pub open spec fn fx_history_start() -> CalendarDate {
    CalendarDate { year: 2016, month: 1, day: 1 }
}

/// Where the candle history of a pair resumes: the day after the last
/// stored price date (at UTC midnight), or 2016-01-01 for a pair with no
/// stored prices.
pub open spec fn fx_resume_secs(last: Option<CalendarDate>) -> int {
    match last {
        Some(d) => d.day_number() * seconds_per_day() + seconds_per_day(),
        None => fx_history_start().day_number() * seconds_per_day(),
    }
}

/// A stored price date from which the history can resume: a valid date
/// before chrono's last one.
pub open spec fn resumable(last: Option<CalendarDate>) -> bool {
    last matches Some(d) ==> d.valid() && d.day_number() < max_day_number()
}

/// The instant at which the candle history of a pair resumes.
pub fn fx_resume_start(last: Option<CalendarDate>) -> (r: UtcInstant)
    requires
        resumable(last),
    ensures
        r.wf(),
        r.nanos == 0,
        r.secs == fx_resume_secs(last),
{
    match last {
        Some(d) => {
            let midnight = midnight_utc(&d);
            add_one_day(&midnight)
        },
        None => {
            let start = CalendarDate { year: 2016, month: 1, day: 1 };
            assert(start.valid());
            midnight_utc(&start)
        },
    }
}

/// What the paging loop does next.
#[derive(Clone, Copy, Debug, PartialEq, Eq, Structural)]
pub enum FxPagingAction {
    /// Ask OANDA for the daily candles from this instant on.
    Request(UtcInstant),
    /// Stop: the history is read.
    Done,
}

/// The paging through a pair's daily candles: the instant the next request
/// starts from, the candles taken so far, and whether a page ended the
/// paging.
pub struct FxPaging {
    pub current_start: UtcInstant,
    pub candles: Vec<Candle>,
    pub finished: bool,
}

/// The instant after a page: one day after the start of its last candle.
pub open spec fn page_next_start(page: Seq<Candle>) -> Option<UtcInstant> {
    if page.len() == 0 {
        None
    } else {
        match page.last().time {
            Some(t) => Some(UtcInstant { secs: (t.secs + seconds_per_day()) as i64, nanos: t.nanos }),
            None => None,
        }
    }
}

/// A page whose candles have well-formed times and whose last time, moved
/// on a day, stays in chrono's range (past it chrono's addition panics).
pub open spec fn page_acceptable(page: Seq<Candle>) -> bool {
    &&& forall|i: int| 0 <= i < page.len() ==> (#[trigger] page[i]).wf()
    &&& page.len() > 0 ==> (page.last().time matches Some(t) ==> t.secs + seconds_per_day()
        <= max_instant_secs())
}

impl FxPaging {
    /// The paging state is consistent: its start is an instant chrono holds
    /// and its candles have well-formed times.
    pub open spec fn wf(self) -> bool {
        &&& self.current_start.wf()
        &&& forall|i: int| 0 <= i < self.candles.len() ==> (#[trigger] self.candles[i]).wf()
    }

    /// Begins the paging of a pair whose last stored price date is `last`.
    pub fn new(last: Option<CalendarDate>) -> (r: FxPaging)
        requires
            resumable(last),
        ensures
            r.wf(),
            r.current_start.secs == fx_resume_secs(last),
            r.current_start.nanos == 0,
            r.candles@ == Seq::<Candle>::empty(),
            !r.finished,
    {
        FxPaging { current_start: fx_resume_start(last), candles: Vec::new(), finished: false }
    }

    /// What to do when the time is `now`: request the candles from the
    /// current start while that start is before `now` and no page ended the
    /// paging; else stop.
    pub fn next_action(&self, now: &UtcInstant) -> (r: FxPagingAction)
        requires
            self.wf(),
            now.wf(),
        ensures
            (!self.finished && self.current_start.total_nanos() < now.total_nanos()) ==> r
                == FxPagingAction::Request(self.current_start),
            (self.finished || self.current_start.total_nanos() >= now.total_nanos()) ==> r
                == FxPagingAction::Done,
    {
        if !self.finished && instant_before(&self.current_start, now) {
            FxPagingAction::Request(self.current_start)
        } else {
            FxPagingAction::Done
        }
    }

    /// Whether `page` can be taken: its times are well formed and the next
    /// start stays in chrono's range.
    pub fn can_take(page: &Vec<Candle>) -> (r: bool)
        ensures
            r == page_acceptable(page@),
    {
        let mut i: usize = 0;
        while i < page.len()
            invariant
                i <= page.len(),
                forall|j: int| 0 <= j < i ==> (#[trigger] page@[j]).wf(),
            decreases page.len() - i,
        {
            match page[i].time {
                Some(t) => {
                    if !(t.nanos < 1_000_000_000 && -8334601228800i64 <= t.secs
                        && t.secs <= 8210266876799i64) {
                        return false;
                    }
                },
                None => {},
            }
            i = i + 1;
        }
        if page.len() > 0 {
            match page[page.len() - 1].time {
                Some(t) => t.secs <= 8210266876799i64 - 86400,
                None => true,
            }
        } else {
            true
        }
    }

    /// Takes the page that the last request answered: an empty page ends the
    /// paging; so does a page whose last candle has no time, and that page
    /// is dropped; otherwise its candles are added and the next request
    /// starts one day after its last candle.
    pub fn take_page(&mut self, page: Vec<Candle>)
        requires
            old(self).wf(),
            !old(self).finished,
            page_acceptable(page@),
        ensures
            final(self).wf(),
            page.len() > 0 ==> (page@.last().time matches Some(t) ==> {
                &&& !final(self).finished
                &&& final(self).candles@ == old(self).candles@ + page@
                &&& final(self).current_start.total_nanos() == t.total_nanos()
                    + 86_400_000_000_000
            }),
            (page.len() == 0 || page@.last().time is None) ==> {
                &&& final(self).finished
                &&& final(self).candles@ == old(self).candles@
            },
            match page_next_start(page@) {
                Some(next) => {
                    &&& !final(self).finished
                    &&& final(self).current_start == next
                    &&& final(self).candles@ == old(self).candles@ + page@
                },
                None => {
                    &&& final(self).finished
                    &&& final(self).current_start == old(self).current_start
                    &&& final(self).candles@ == old(self).candles@
                },
            },
    {
        if page.len() == 0 {
            self.finished = true;
            return;
        }
        let last_time = page[page.len() - 1].time;
        match last_time {
            Some(t) => {
                let next = add_one_day(&t);
                let mut page = page;
                let ghost before = self.candles@;
                let ghost added = page@;
                self.candles.append(&mut page);
                self.current_start = next;
                assert(self.candles@ == before + added);
                assert forall|i: int| 0 <= i < self.candles.len() implies (
                #[trigger] self.candles[i]).wf() by {
                    if i >= before.len() {
                        assert(self.candles[i] == added[i - before.len()]);
                    }
                }
            },
            None => {
                self.finished = true;
            },
        }
    }
}

/// Each page taken moves the next request to a later instant than every
/// candle's start on that page: the start after a page is one day past its
/// last candle.
pub proof fn lemma_paging_moves_forward(page: Seq<Candle>)
    requires
        page_acceptable(page),
        page_next_start(page) is Some,
    ensures
        page_next_start(page).unwrap().total_nanos() == page.last().time.unwrap().total_nanos()
            + 86_400_000_000_000,
        page_next_start(page).unwrap().total_nanos() > page.last().time.unwrap().total_nanos(),
{
}

/// How many requests at most are left before the paging, starting its next
/// request at `start`, reaches `now`, each request moving on at least a day:
/// the number of days from `start` to `now`, rounded up.
pub open spec fn paging_requests_left(start: UtcInstant, now: UtcInstant) -> nat {
    if start.total_nanos() >= now.total_nanos() {
        0
    } else {
        ((now.total_nanos() - start.total_nanos() - 1) / 86_400_000_000_000 + 1) as nat
    }
}

/// The paging ends: while the candles answered to a request start no earlier
/// than the request did, each page taken lowers the number of requests left
/// before `now`; a paging at `now` or later asks for nothing more.
pub proof fn lemma_paging_terminates(start: UtcInstant, page: Seq<Candle>, now: UtcInstant)
    requires
        start.total_nanos() < now.total_nanos(),
        page_acceptable(page),
        page_next_start(page) is Some,
        page.last().time.unwrap().total_nanos() >= start.total_nanos(),
    ensures
        paging_requests_left(page_next_start(page).unwrap(), now) < paging_requests_left(
            start,
            now,
        ),
        paging_requests_left(start, now) > 0,
{
    let day: int = 86_400_000_000_000;
    let next = page_next_start(page).unwrap();
    let gap = now.total_nanos() - start.total_nanos();
    if next.total_nanos() < now.total_nanos() {
        let rest = now.total_nanos() - next.total_nanos();
        assert(rest - 1 <= (gap - 1 - day));
        vstd::arithmetic::div_mod::lemma_div_is_ordered(rest - 1, gap - 1 - day, day);
        vstd::arithmetic::div_mod::lemma_div_plus_one(gap - 1 - day, day);
        assert(day + (gap - 1 - day) == gap - 1);
    }
}

/// Every complete candle becomes a row: it is among the complete candles.
pub proof fn lemma_complete_candles_keep_every_complete(candles: Seq<Candle>, i: int)
    requires
        0 <= i < candles.len(),
        candles[i].complete == Some(true),
    ensures
        complete_candles(candles).contains(candles[i]),
    decreases candles.len(),
{
    let rest = complete_candles(candles.drop_last());
    if i == candles.len() - 1 {
        assert(complete_candles(candles)[rest.len() as int] == candles[i]);
    } else {
        assert(candles.drop_last()[i] == candles[i]);
        lemma_complete_candles_keep_every_complete(candles.drop_last(), i);
        let k = choose|k: int| 0 <= k < rest.len() && rest[k] == candles[i];
        if candles.last().complete == Some(true) {
            assert(complete_candles(candles)[k] == rest[k]);
        }
    }
}

/// A page is taken whatever its candles' completeness: a non-empty page
/// whose last candle has a start moves the next request to one day after
/// that start; an empty page, or one whose last candle has no start, ends
/// the paging.
pub proof fn lemma_page_next_start(page: Seq<Candle>)
    ensures
        page.len() > 0 ==> (page.last().time matches Some(t) ==> page_next_start(page) == Some(
            UtcInstant { secs: (t.secs + 86400) as i64, nanos: t.nanos },
        )),
        (page.len() == 0 || page.last().time is None) ==> page_next_start(page) is None,
{
}

/// A daily row carries the candle's mid prices each in its own column (open,
/// high, low, close) and the candle's volume.
pub proof fn lemma_daily_row_prices(c: Candle, pair: Seq<char>, row: FxPriceDaily)
    requires
        row_from_candle(c, pair, row),
    ensures
        c.mid is Some,
        c.mid.unwrap().o == Some(Ok::<bigdecimal::BigDecimal, String>(row.open_price)),
        c.mid.unwrap().h == Some(Ok::<bigdecimal::BigDecimal, String>(row.high_price)),
        c.mid.unwrap().l == Some(Ok::<bigdecimal::BigDecimal, String>(row.low_price)),
        c.mid.unwrap().c == Some(Ok::<bigdecimal::BigDecimal, String>(row.close_price)),
        c.volume == Some(row.tick_volume),
        row.complete == (c.complete == Some(true)),
{
}

/// The path of the raw candle file of an instrument and granularity.
pub open spec fn raw_fx_price_path_text(instrument: Seq<char>, granularity: Seq<char>) -> Seq<char> {
    "data/raw/fx_prices/"@ + instrument + "_"@ + granularity + "_RawFXPriceData.json"@
}

/// The path the raw candles of `instrument` at `granularity` are saved to.
pub fn raw_fx_price_path(instrument: &str, granularity: &str) -> (r: String)
    ensures
        r@ == raw_fx_price_path_text(instrument@, granularity@),
{
    let a = concat_text("data/raw/fx_prices/", instrument);
    let b = concat_text(a.as_str(), "_");
    let c = concat_text(b.as_str(), granularity);
    concat_text(c.as_str(), "_RawFXPriceData.json")
}

/// Only complete candles become rows: there are no more of them than
/// candles, and every complete candle is one of the candles.
pub proof fn lemma_complete_candles_are_complete(candles: Seq<Candle>)
    ensures
        complete_candles(candles).len() <= candles.len(),
        forall|k: int|
            0 <= k < complete_candles(candles).len() ==> (#[trigger] complete_candles(
                candles,
            )[k]).complete == Some(true),
    decreases candles.len(),
{
    if candles.len() > 0 {
        lemma_complete_candles_are_complete(candles.drop_last());
        let rest = complete_candles(candles.drop_last());
        assert forall|k: int| 0 <= k < complete_candles(candles).len() implies (
        #[trigger] complete_candles(candles)[k]).complete == Some(true) by {
            if k < rest.len() {
                assert(complete_candles(candles)[k] == rest[k]);
            }
        }
    }
}

/// A daily row is for a complete candle, names its pair without
/// underscores, and falls on the UTC date of the candle's start.
pub proof fn lemma_daily_row_of_complete_candle(c: Candle, pair: Seq<char>, row: FxPriceDaily)
    requires
        row_from_candle(c, pair, row),
        c.complete == Some(true),
    ensures
        row.complete,
        !row.currency_pair@.contains('_'),
        row.price_date.day_number() == c.time.unwrap().day_number(),
{
    lemma_without_char(pair, '_');
}

/// The history resumes on the day after the last stored price date, at
/// UTC midnight; with nothing stored it starts on 2016-01-01.
pub proof fn lemma_resume_day(last: Option<CalendarDate>)
    ensures
        last matches Some(d) ==> fx_resume_secs(last) / seconds_per_day() == d.day_number() + 1
            && fx_resume_secs(last) % seconds_per_day() == 0,
        last is None ==> fx_resume_secs(last) == 1_451_606_400,
{
    assert(fx_history_start().day_number() == 16801);
    if last is Some {
        let n = last.unwrap().day_number();
        assert(fx_resume_secs(last) == (n + 1) * 86400);
    }
}

} // verus!
