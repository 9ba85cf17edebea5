//! Conversion of field-logger time series into fixed-format flow and rainfall files.
//!
//! - `ingest` and `processor`: timestamp column and format detection, the
//!   dominant sampling interval, the rebuilding of an evenly spaced series with
//!   its gap count, and re-slicing to a time range.
//! - `columns` and `site_info`: channel classification by header pattern, and
//!   the site id, name and monitor type.
//! - `smoothing`: the rainfall smoother, which spreads a tip over the dry
//!   intervals before it.
//! - `fdv`, `flow` and `rainfall`: the fixed-format files' text.
//! - `batch`: the decisions of a batch run.
//! - `paths`: the stem and extension of a file name.
//! - `outside`: the calls into std and outside crates that the rest relies on.

pub mod outside;
pub mod text;
pub mod paths;
pub mod columns;
pub mod site_info;
pub mod ingest;
pub mod processor;
pub mod smoothing;
pub mod fdv;
pub mod rainfall;
pub mod flow;
pub mod calculator;
pub mod batch;
pub mod logging;
