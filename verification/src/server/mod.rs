//! The decisions behind the HTTP service.

pub mod ai_rank;
pub mod ai_requests;
pub mod ai_settings;
pub mod avatar;
pub mod candidates;
pub mod catalog;
pub mod community;
pub mod config_files;
pub mod custom_ai;
pub mod enhance;
pub mod enhance_flow;
pub mod errors;
pub mod events;
pub mod fact_matrix;
pub mod feed;
pub mod feed_query;
pub mod feed_request;
pub mod intent;
pub mod limits;
pub mod model_json;
pub mod natural_language;
pub mod ranking;
pub mod recall;
pub mod scheduler;
pub mod sessions;
