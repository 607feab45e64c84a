//! The rows of the database's currency, COT and price tables.
use crate::dates::CalendarDate;
use crate::decimal::DecimalValue;
use vstd::prelude::*;

verus! {

/// How a contract's currency stands against the dollar in its pair: the
/// pair quotes the currency directly (EUR/USD) or inverted (USD/JPY).
#[derive(Clone, Copy, Debug, PartialEq, Eq, Structural)]
pub enum CurrencyBaseType {
    Direct,
    Inverted,
}

/// A row of the currency dimension: a CFTC contract, its pair and how the
/// pair quotes it.
#[derive(Debug)]
pub struct DimCurrency {
    pub cftc_contract_market_code: String,
    pub currency_pair: String,
    pub base_type: CurrencyBaseType,
}

/// A row of the `cot_tff` table.
#[derive(Debug)]
pub struct CotTff {
    pub market_exchange_names: String,
    pub report_date: CalendarDate,
    pub cftc_contract_market_code: String,
    pub open_interest: i32,
    pub dealer_positions_long: i32,
    pub dealer_positions_short: i32,
    pub dealer_positions_spread: i32,
    pub asset_manager_positions_long: i32,
    pub asset_manager_positions_short: i32,
    pub asset_manager_positions_spread: i32,
    pub leveraged_money_positions_long: i32,
    pub leveraged_money_positions_short: i32,
    pub leveraged_money_positions_spread: i32,
    pub other_rept_positions_long: i32,
    pub other_rept_positions_short: i32,
    pub other_rept_positions_spread: i32,
}

/// A row of daily prices with exact decimals.
#[derive(Debug)]
pub struct FxPrice {
    pub currency_pair: String,
    pub price_date: CalendarDate,
    pub complete: bool,
    pub open_price: DecimalValue,
    pub high_price: DecimalValue,
    pub low_price: DecimalValue,
    pub close_price: DecimalValue,
    pub tick_volume: i32,
}

} // verus!
