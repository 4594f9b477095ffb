use vstd::prelude::*;
use crate::listing::opt_view;

verus! {

/// Request body for creating a job.
pub struct CreateJob {
    pub title: String,
    pub description: Option<String>,
    pub location: Option<String>,
    pub company_id: Option<i64>,
    pub job_type: Option<String>,
    pub tags: Option<String>,
}

/// The values a job creation stores; the identifier is assigned by the
/// store itself.
pub struct NewJob {
    pub title: String,
    pub description: Option<String>,
    pub location: Option<String>,
    pub company_id: Option<i64>,
    pub user_id: i64,
    pub job_type: String,
    pub tags: String,
    pub created_at: i64,
}

/// The values to store for one job creation: the caller's fields as given,
/// the job type defaulting to full-time and the tags to empty, owned by the
/// authenticated caller, created now.
pub fn prepare_job(info: CreateJob, user_id: i64, now: i64) -> (j: NewJob)
    ensures
        j.title@ == info.title@,
        opt_view(j.description) == opt_view(info.description),
        opt_view(j.location) == opt_view(info.location),
        j.company_id == info.company_id,
        j.user_id == user_id,
        (match info.job_type {
            Some(t) => j.job_type@ == t@,
            None => j.job_type@ == "full-time"@,
        }),
        (match info.tags {
            Some(t) => j.tags@ == t@,
            None => j.tags@ == ""@,
        }),
        j.created_at == now,
{
    let job_type = match info.job_type {
        Some(t) => t,
        None => "full-time".to_owned(),
    };
    let tags = match info.tags {
        Some(t) => t,
        None => "".to_owned(),
    };
    NewJob {
        title: info.title,
        description: info.description,
        location: info.location,
        company_id: info.company_id,
        user_id,
        job_type,
        tags,
        created_at: now,
    }
}

} // verus!
