//! Collection of the state of container-orchestration clusters and its
//! exposition as metrics.
//!
//! A scrape asks the orchestration API for the services and the container
//! instances of each cluster and turns what it learns into metric samples.
//! The library holds the decisions of a scrape; the calls themselves are made
//! by its user:
//!
//! - [`lister`] follows the pages of an enumeration,
//! - [`describer`] cuts identifiers into batches and merges the answers,
//! - [`collector`] keeps what was fetched apart for each cluster and each
//!   kind of resource,
//! - [`metrics`] derives the samples from the records,
//! - [`registry`] builds the registry of a scrape from the samples,
//! - [`exporter`] decides what the metrics endpoint answers.

pub mod collector;
pub mod config;
pub mod describer;
pub mod exporter;
pub mod lister;
pub mod metrics;
pub mod records;
pub mod registry;
