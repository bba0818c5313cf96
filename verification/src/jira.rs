//! Plain data about issue-tracker users and issues.

use vstd::prelude::*;
use crate::time::WorkTime;

verus! {

/// An issue-tracker user.
#[derive(Debug, Clone)]
pub struct JiraUser {
    pub key: String,
    pub name: String,
    pub display_name: String,
}

/// One tracked issue with the work time booked on it, already broken down
/// for display.
#[derive(Debug, Clone)]
pub struct JiraIssue {
    pub key: String,
    pub summary: String,
    pub spent_time: WorkTime,
}

} // verus!
