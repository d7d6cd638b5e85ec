//! Tracks conda-forge's migration from `meta.yaml` recipes to the
//! `recipe.yaml` ("Recipe v1") format and attributes each conversion or new
//! feedstock to the contributors responsible for it.
//!
//! The crate holds the attribution engine: the batched history-query
//! planning, pagination resolution, retry policy, contributor
//! classification, and the orchestrator that drives an attribution pass
//! over the feedstock-state map. Network transport and persistence are
//! left to the surrounding application, which hands plain values in and
//! out of the functions here.

pub mod analytics;
pub mod attribution;
pub mod collector;
pub mod history;
pub mod maintainers;
pub mod models;
pub mod orchestrator;
pub mod pagination;
pub mod query;
pub mod strutil;
