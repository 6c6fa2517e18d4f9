//! Quota-gated queries over a time series of bazaar product quotes.
//!
//! A request names a product, and on two of the three routes a field of its
//! quick status. It is checked, charged to the API key that came with it,
//! and answered from the snapshots of the product:
//!
//! - [`utils`] checks product identifiers and field names;
//! - [`db`] keeps the quota ledger, consumes one unit at a time and sweeps
//!   the usage counters;
//! - [`scheduler`] decides when the ledger is swept;
//! - [`store`] finds the latest snapshot of a product and its newest
//!   snapshots up to a limit;
//! - [`project`] takes one number out of a snapshot, or out of each of a
//!   run of snapshots;
//! - [`api`] puts these in order for each route and names the response;
//! - [`document`] and [`query`] read and write the documents of a document
//!   store that holds the ledger and the snapshots;
//! - [`models`] holds the records that all of them share.
//!
//! Every function states what it returns and what it changes. All of them
//! are proved to do so but the three in [`document`] that reach into a BSON
//! document.

pub mod api;
pub mod db;
pub mod document;
pub mod models;
pub mod project;
pub mod query;
pub mod scheduler;
pub mod store;
pub mod text;
pub mod utils;
