//! What the operations promise, stated over what goes in and what comes out.

pub mod answers;
pub mod audits;
pub mod basics;
pub mod catalog;
pub mod deployments;
pub mod details;
pub mod enhancement;
pub mod feed_order;
pub mod golden;
pub mod host_calls;
pub mod pages;
pub mod queries;
pub mod questions;
pub mod requests;
pub mod results;
pub mod services;
