//! The settings of a run: OANDA credentials, the database, and the first
//! date of the history.
use crate::dates::{days_from_civil, midnight_utc, parse_date, seconds_per_day, spec_parse_date, UtcInstant};
use vstd::prelude::*;

verus! {

/// Why an environment variable could not be read.
#[derive(Debug, PartialEq, Eq)]
pub enum EnvVarError {
    /// The variable is not set.
    NotPresent,
    /// The variable's value is not Unicode; its lossy text.
    NotUnicode(String),
}

/// Why the settings could not be formed.
#[derive(Debug)]
pub enum ConfigError {
    /// A variable is missing or unreadable.
    MissingVariabl(EnvVarError),
    /// DEFAULT_START_DATE is not a `YYYY-MM-DD` date.
    InvalidDateFormat(chrono::ParseError),
    /// The start date's midnight could not be formed.
    DateTimeConstruction,
}

/// The settings of a run.
#[derive(Debug)]
pub struct SentinelConfig {
    pub oanda_api_key: String,
    pub oanda_host: String,
    pub database_url: String,
    /// UTC midnight of DEFAULT_START_DATE.
    pub default_start_date: UtcInstant,
}

/// The format of DEFAULT_START_DATE.
pub open spec fn start_date_format() -> Seq<char> {
    "%Y-%m-%d"@
}

/// What forming the settings answers for the values read.
pub open spec fn config_outcome(
    oanda_api_key: Result<String, EnvVarError>,
    oanda_host: Result<String, EnvVarError>,
    database_url: Result<String, EnvVarError>,
    default_start_date: Result<String, EnvVarError>,
    r: Result<SentinelConfig, ConfigError>,
) -> bool {
    match oanda_api_key {
        Err(e) => r == Err::<SentinelConfig, ConfigError>(ConfigError::MissingVariabl(e)),
        Ok(key) => match oanda_host {
            Err(e) => r == Err::<SentinelConfig, ConfigError>(ConfigError::MissingVariabl(e)),
            Ok(host) => match database_url {
                Err(e) => r == Err::<SentinelConfig, ConfigError>(ConfigError::MissingVariabl(e)),
                Ok(url) => match default_start_date {
                    Err(e) => r == Err::<SentinelConfig, ConfigError>(
                        ConfigError::MissingVariabl(e),
                    ),
                    Ok(d) => match spec_parse_date(d@, start_date_format()) {
                        None => r matches Err(ConfigError::InvalidDateFormat(_)),
                        Some(ymd) => r matches Ok(c) && c.oanda_api_key == key && c.oanda_host
                            == host && c.database_url == url && c.default_start_date.wf()
                            && c.default_start_date.secs == days_from_civil(ymd.0, ymd.1, ymd.2)
                            * seconds_per_day() && c.default_start_date.nanos == 0,
                    },
                },
            },
        },
    }
}

impl SentinelConfig {
    /// The settings from the values read for OANDA_API_KEY, OANDA_HOST,
    /// DATABASE_URL and DEFAULT_START_DATE, in that order: the first
    /// variable that could not be read is the error; then the start date
    /// must parse as `%Y-%m-%d`, and the setting is its UTC midnight.
    pub fn from_env_values(
        oanda_api_key: Result<String, EnvVarError>,
        oanda_host: Result<String, EnvVarError>,
        database_url: Result<String, EnvVarError>,
        default_start_date: Result<String, EnvVarError>,
    ) -> (r: Result<SentinelConfig, ConfigError>)
        ensures
            config_outcome(oanda_api_key, oanda_host, database_url, default_start_date, r),
    {
        let oanda_api_key = match oanda_api_key {
            Ok(v) => v,
            Err(e) => return Err(ConfigError::MissingVariabl(e)),
        };
        let oanda_host = match oanda_host {
            Ok(v) => v,
            Err(e) => return Err(ConfigError::MissingVariabl(e)),
        };
        let database_url = match database_url {
            Ok(v) => v,
            Err(e) => return Err(ConfigError::MissingVariabl(e)),
        };
        let date_text = match default_start_date {
            Ok(v) => v,
            Err(e) => return Err(ConfigError::MissingVariabl(e)),
        };
        let date = match parse_date(date_text.as_str(), "%Y-%m-%d") {
            Ok(d) => d,
            Err(e) => return Err(ConfigError::InvalidDateFormat(e)),
        };
        let default_start_date = midnight_utc(&date);
        Ok(SentinelConfig { oanda_api_key, oanda_host, database_url, default_start_date })
    }
}

} // verus!
