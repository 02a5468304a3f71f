//! Ingestion core of a motorsport race-result tracker.
//!
//! Race result documents are discovered and fetched from an upstream
//! statistics API, kept in a cache, and turned into the rows of a relational
//! store, with a strength-of-field aggregate per simsession and per class.
//! The library holds the logic of each step; the program around it performs
//! the network, file and database work that the steps call for.

// Result documents and their rows.
pub mod document;
pub mod ingest;
pub mod sof_calculator;
pub mod reference;
pub mod schema;

// Codes and rules of the upstream data.
pub mod category_type;
pub mod event_type;
pub mod simsession_type;
pub mod time;

// Sync client decisions and the result cache.
pub mod retry;
pub mod rate_limit;
pub mod sync;
pub mod discovery;
pub mod cache;
pub mod credentials;

// Texts and parameters.
pub mod decimal;
pub mod customers;
pub mod driverid;
