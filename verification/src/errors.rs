//! The error of the COT file ingestion.
use vstd::prelude::*;

verus! {

/// Why an ingestion step failed. The library itself raises `Csv`,
/// `Validation`, `MissingData` and `InvalidDate`; the other variants carry
/// the message of an error raised around it (file system, HTTP, environment,
/// OANDA, JSON).
#[derive(Debug)]
pub enum IngetionError {
    Io(String),
    Csv(csv::Error),
    Reqwest(String),
    Env(String),
    Oanda(String),
    SerdeJson(String),
    Validation(String),
    Config(String),
    MissingData(String),
    FsOperation(String),
    InvalidDate(String),
}

} // verus!
