//! Reshapes a provider's nested chart-data payload and a syndication feed into
//! flat, display-ready stock records: aligned OHLCV columns, per-day rows, and
//! news entries with sentinel fallbacks for absent fields.

pub mod chart;
pub mod dates;
pub mod feed;
pub mod json;
pub mod numfmt;
pub mod report;
pub mod text;
pub mod urls;
