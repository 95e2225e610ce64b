//! Checks before the first cycle: the process starts only with its
//! credentials, its series, its files, and, for live trading, an explicit
//! confirmation.

use crate::text::{chars_of, contains_chars, has_infix};
use crate::types::Config;
use vstd::prelude::*;

verus! {

/// What the file system shows at startup.
#[derive(Debug, Clone, Copy, PartialEq, Eq, Structural)]
pub struct StartupFiles {
    pub ledger_exists: bool,
    pub ledger_readable: bool,
    pub prompt_exists: bool,
}

/// Why the process does not start.
#[derive(Debug, Clone, Copy, PartialEq, Eq, Structural)]
pub enum StartupError {
    MissingPrivateKey,
    NotAPrivateKey,
    NoSeries,
    MissingApiKey,
    MissingKeyId,
    LedgerNotFound,
    LedgerUnreadable,
    PromptNotFound,
    LiveNotConfirmed,
}

/// The first thing that is amiss, in this order: the private key is empty;
/// it does not look like a key; no series is configured; the key of the
/// reasoning service is empty; the key id is empty; the ledger is not
/// there; the ledger cannot be read; the strategy text is not there; live
/// trading is asked for without confirmation.
pub open spec fn startup_error(config: Config, files: StartupFiles) -> Option<StartupError> {
    if config.kalshi_private_key_pem@.len() == 0 {
        Some(StartupError::MissingPrivateKey)
    } else if !has_infix(config.kalshi_private_key_pem@, "BEGIN"@) {
        Some(StartupError::NotAPrivateKey)
    } else if config.series_tickers@.len() == 0 {
        Some(StartupError::NoSeries)
    } else if config.openrouter_api_key@.len() == 0 {
        Some(StartupError::MissingApiKey)
    } else if config.kalshi_key_id@.len() == 0 {
        Some(StartupError::MissingKeyId)
    } else if !files.ledger_exists {
        Some(StartupError::LedgerNotFound)
    } else if !files.ledger_readable {
        Some(StartupError::LedgerUnreadable)
    } else if !files.prompt_exists {
        Some(StartupError::PromptNotFound)
    } else if !config.paper_trade && !config.confirm_live {
        Some(StartupError::LiveNotConfirmed)
    } else {
        None
    }
}

impl StartupError {
    /// The error in words.
    pub open spec fn text(self) -> Seq<char> {
        match self {
            StartupError::MissingPrivateKey =>
                "KALSHI_PRIVATE_KEY_PATH is empty or file not found"@,
            StartupError::NotAPrivateKey => "PEM file doesn't look like a private key"@,
            StartupError::NoSeries => "KALSHI_SERIES_TICKERS not set — run discovery first"@,
            StartupError::MissingApiKey => "OPENROUTER_API_KEY not set"@,
            StartupError::MissingKeyId => "KALSHI_API_KEY_ID not set"@,
            StartupError::LedgerNotFound => "brain/ledger.md not found"@,
            StartupError::LedgerUnreadable => "brain/ledger.md cannot be read"@,
            StartupError::PromptNotFound => "brain/prompt.md not found"@,
            StartupError::LiveNotConfirmed =>
                "PAPER_TRADE=false but CONFIRM_LIVE is not true. Set CONFIRM_LIVE=true to acknowledge real money trading."@,
        }
    }

    /// The error in words.
    pub fn message(&self) -> (r: String)
        ensures
            r@ == self.text(),
    {
        match self {
            StartupError::MissingPrivateKey => {
                "KALSHI_PRIVATE_KEY_PATH is empty or file not found".to_owned()
            },
            StartupError::NotAPrivateKey => "PEM file doesn't look like a private key".to_owned(),
            StartupError::NoSeries => {
                "KALSHI_SERIES_TICKERS not set — run discovery first".to_owned()
            },
            StartupError::MissingApiKey => "OPENROUTER_API_KEY not set".to_owned(),
            StartupError::MissingKeyId => "KALSHI_API_KEY_ID not set".to_owned(),
            StartupError::LedgerNotFound => "brain/ledger.md not found".to_owned(),
            StartupError::LedgerUnreadable => "brain/ledger.md cannot be read".to_owned(),
            StartupError::PromptNotFound => "brain/prompt.md not found".to_owned(),
            StartupError::LiveNotConfirmed => {
                "PAPER_TRADE=false but CONFIRM_LIVE is not true. Set CONFIRM_LIVE=true to acknowledge real money trading.".to_owned()
            },
        }
    }
}

/// Checks that the process may start: fails with the first thing that is
/// amiss.
pub fn validate_startup(config: &Config, files: &StartupFiles) -> (r: Result<(), StartupError>)
    ensures
        match r {
            Ok(_) => startup_error(*config, *files) is None,
            Err(e) => startup_error(*config, *files) == Some(e),
        },
{
    let pem = chars_of(config.kalshi_private_key_pem.as_str());
    let begin = chars_of("BEGIN");
    if pem.len() == 0 {
        return Err(StartupError::MissingPrivateKey);
    }
    if !contains_chars(&pem, &begin) {
        return Err(StartupError::NotAPrivateKey);
    }
    if config.series_tickers.len() == 0 {
        return Err(StartupError::NoSeries);
    }
    if config.openrouter_api_key.as_str().is_empty() {
        return Err(StartupError::MissingApiKey);
    }
    if config.kalshi_key_id.as_str().is_empty() {
        return Err(StartupError::MissingKeyId);
    }
    if !files.ledger_exists {
        return Err(StartupError::LedgerNotFound);
    }
    if !files.ledger_readable {
        return Err(StartupError::LedgerUnreadable);
    }
    if !files.prompt_exists {
        return Err(StartupError::PromptNotFound);
    }
    if !config.paper_trade && !config.confirm_live {
        return Err(StartupError::LiveNotConfirmed);
    }
    Ok(())
}

} // verus!
