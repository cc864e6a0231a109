//! Market snapshot reduction, item metadata indexing and time-series
//! keys and summaries for auction-house price tracking.

pub mod index;
pub mod key;
pub mod paths;
pub mod realm;
pub mod sanitize;
pub mod series;
pub mod settings;
pub mod store;
pub mod text;
