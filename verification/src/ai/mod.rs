//! Everything that concerns language models: what may be sent to them, what of their
//! answers may be shown, and how often they may be asked.

pub mod compare;
pub mod completion;
pub mod embedding;
pub mod error;
pub mod group_advice;
pub mod host_limit;
pub mod provider;
pub mod route;
pub mod sanitize;
