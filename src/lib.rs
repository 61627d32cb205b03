//! Incremental synchronisation of sold deals from a CRM listing into a local
//! deal store, with property enrichment and operator notifications.
pub mod config;
pub mod data;
pub mod dialogue;
pub mod enrich;
pub mod error;
pub mod fetch;
pub mod filter;
pub mod mapper;
pub mod report;
pub mod schedule;
pub mod store;
pub mod sync;
pub mod text;
