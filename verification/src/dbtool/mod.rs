//! The offline checks of the recommendations.

pub mod audit;
pub mod audit_diversity;
pub mod audit_gates;
pub mod audit_report;
pub mod audit_scores;
pub mod audit_text;
pub mod folds;
pub mod gate;
pub mod golden;
pub mod metrics;
pub mod queries;
pub mod sorted;
pub mod tally;
