//! Verified core of an account manager: the account store, groups, tags and the
//! operation log, sorting, import and backup selection, and the decisions of the
//! Devin sign-in flows.

pub mod account_order;
pub mod account_store;
pub mod api;
pub mod backups;
pub mod bulk_ops;
pub mod coalesce;
pub mod data_store;
pub mod devin;
pub mod ids;
pub mod laws;
pub mod model;
pub mod sorting;
pub mod text;
pub mod time;

pub use api::default_true;
