//! Proportional work-time reporting over tracker activity.
//!
//! The library turns a list of raw activity records into a time allocation
//! report: issue keys are recovered from free-text fields, each record is
//! scored by a fixed importance weight, scores are aggregated per issue, and
//! a known total duration is split across issues proportionally to their
//! weight, using integer arithmetic throughout.

pub mod activity;
pub mod gitlab;
pub mod jira;
pub mod pattern;
pub mod time;
pub mod weight;
