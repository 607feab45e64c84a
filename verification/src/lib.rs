//! Ingestion logic for CFTC Commitments of Traders reports and OANDA daily FX prices.

pub mod dates;
pub mod text;
pub mod tff;
pub mod csv_io;
pub mod errors;
pub mod csv_logic;
pub mod report_files;
pub mod decimal;
pub mod cot;
pub mod archive;
pub mod fx;
pub mod config;
pub mod models;
