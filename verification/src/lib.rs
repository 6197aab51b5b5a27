//! `hive`: renders dispatch templates and keeps them published on
//! NationStates. This crate is the verified core: the formats the API speaks,
//! the cache and credential stores, the table filters, the template index and
//! category rules, and the decisions of a synchronisation run. The program
//! around it (command line, files, HTTP, template rendering) lives in `app/`.
pub mod text;
pub mod api;
pub mod keyed;
pub mod cache;
pub mod credentials;
pub mod filters;
pub mod loaders;
pub mod sync;
