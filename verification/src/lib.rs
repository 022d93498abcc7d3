//! Data-access layer for a small content-management backend.
//!
//! The crate models the persistence tier of the service: typed domain
//! records (pages, modules, composed page+module views), a uniform CRUD
//! contract over a relational store, a join composer that pairs a page
//! with its modules, an aggregate view builder, and a bounded connection
//! pool with typed checkout failure.

pub mod config;
pub mod database;
pub mod errors;
pub mod laws;
pub mod models;
pub mod page_models;
pub mod pool;
pub mod views;
