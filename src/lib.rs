//! A periodic price poller: decoding of the sources' responses, exact
//! rendering of the persisted records, and the per-cycle decisions.

pub mod cycle;
pub mod laws;
pub mod parity;
pub mod price;
pub mod source;
pub mod text;
pub mod time;

pub use cycle::{classify_fetch_error, persist_outcome, Cycle, LogRecord, Outcome, Report, Step};
pub use parity::is_even;
pub use price::{format_price, parse_price, Price, MAX_INT_DIGITS};
pub use source::{
    registered_sources, ChartQuotes, CoinQuotes, ErrorKind, FetchError, PriceSource, Response,
    COIN_QUOTE_URL, INDEX_CHART_URL,
};
pub use time::{format_log_line, format_timestamp, UtcTime};
