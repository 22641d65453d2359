//! The record of requests: what happened to each, and what it cost.

pub mod dashboard;
pub mod entry;
pub mod lifecycle;
pub mod model;
pub mod observation;
pub mod pricing;
pub mod query;
pub mod recorded;
pub mod report;
pub mod store;
pub mod usage;
pub mod websocket;
pub mod writer;
