use vstd::prelude::*;

verus! {

/// Request body for applying to a job by id.
pub struct ApplyRequest {
    pub job_id: i64,
    pub resume_link: Option<String>,
}

/// Request body for applying to a job: the applicant's details.
pub struct ApplyJob {
    pub full_name: String,
    pub email: String,
    pub cover_letter: Option<String>,
    pub resume_link: Option<String>,
}

/// One application, joined with the applicant's email and the job's title.
pub struct ApplicationRecord {
    pub id: i64,
    pub user_id: i64,
    pub job_id: i64,
    pub applied_at: Option<i64>,
    pub resume_link: Option<String>,
    pub user_email: String,
    pub job_title: String,
}

/// The outcome of one application attempt.
#[derive(Clone, Copy, PartialEq, Eq, Structural, Debug)]
pub enum ApplyDecision {
    /// The job does not exist: the attempt is rejected as not found.
    JobMissing,
    /// The caller already applied to this job: rejected as a duplicate.
    AlreadyApplied,
    /// The application is to be stored.
    Accept,
}

/// What one application attempt decides, given what the store knows:
/// existence is checked before duplication, and only a fresh application to
/// an existing job is accepted.
pub open spec fn spec_decide_application(job_exists: bool, already_applied: bool) -> ApplyDecision {
    if !job_exists {
        ApplyDecision::JobMissing
    } else if already_applied {
        ApplyDecision::AlreadyApplied
    } else {
        ApplyDecision::Accept
    }
}

/// Decide one application attempt.  Pure: the two store facts are looked up
/// by the caller; this decides and nothing else.
pub fn decide_application(job_exists: bool, already_applied: bool) -> (d: ApplyDecision)
    ensures
        d == spec_decide_application(job_exists, already_applied),
{
    if !job_exists {
        ApplyDecision::JobMissing
    } else if already_applied {
        ApplyDecision::AlreadyApplied
    } else {
        ApplyDecision::Accept
    }
}

} // verus!
