//! Build-service task data.
//!
//! Plain records of the build service's task listing. Fetching and printing
//! the listing is presentation work outside this library; these types carry
//! the data it reads.

use vstd::prelude::*;

verus! {

/// The lifecycle state of a build task.
#[derive(Debug, Clone, Copy, PartialEq, Eq, Structural)]
pub enum BuildStatus {
    New,
    Failed,
    Building,
    Publishing,
    Completed,
    Blocked,
}

/// The status a numeric status code denotes; an unknown code denotes
/// `Failed`.
pub open spec fn spec_status_from(value: i32) -> BuildStatus {
    if value == 0 {
        BuildStatus::New
    } else if value == 1 {
        BuildStatus::Failed
    } else if value == 2 {
        BuildStatus::Building
    } else if value == 3 {
        BuildStatus::Publishing
    } else if value == 4 {
        BuildStatus::Completed
    } else if value == 5 {
        BuildStatus::Blocked
    } else {
        BuildStatus::Failed
    }
}

impl core::convert::From<i32> for BuildStatus {
    /// Decodes the numeric status code of the build service.
    fn from(value: i32) -> (r: BuildStatus) {
        match value {
            0 => BuildStatus::New,
            1 => BuildStatus::Failed,
            2 => BuildStatus::Building,
            3 => BuildStatus::Publishing,
            4 => BuildStatus::Completed,
            5 => BuildStatus::Blocked,
            _ => BuildStatus::Failed,
        }
    }
}

impl vstd::std_specs::convert::FromSpecImpl<i32> for BuildStatus {
    open spec fn obeys_from_spec() -> bool {
        true
    }

    open spec fn from_spec(value: i32) -> BuildStatus {
        spec_status_from(value)
    }
}

/// One build task of the build service.
#[derive(Debug, Clone)]
pub struct Task {
    pub id: i64,
    pub project_id: i64,
    pub repo_id: i64,
    pub profile_id: i64,
    pub slug: String,
    pub pkg_id: String,
    pub architecture: String,
    pub build_id: String,
    pub description: String,
    pub commit_ref: String,
    pub source_path: String,
    pub status: BuildStatus,
    pub ts_started: i64,
    pub ts_updated: i64,
    pub ts_ended: i64,
    pub blocked_by: Vec<String>,
    pub allocated_builder: String,
    pub log_path: String,
}

/// One page of the build service's task listing.
#[derive(Debug, Clone)]
pub struct TaskEnumerateResponse {
    pub items: Vec<Task>,
    pub num_pages: i32,
    pub page: i32,
    pub has_previous: bool,
    pub has_next: bool,
}

} // verus!
