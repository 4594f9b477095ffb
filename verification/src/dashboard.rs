use vstd::prelude::*;

verus! {

/// Aggregate counts shown on the admin dashboard.
pub struct DashboardStats {
    pub total_users: i64,
    pub total_jobs: i64,
    pub total_companies: i64,
    pub total_applications: i64,
}

/// One recently created job, with its creation day already rendered.
pub struct RecentJob {
    pub id: i64,
    pub title: String,
    pub created_at_pretty: String,
}

/// One recent application, with its day already rendered.
pub struct RecentApplication {
    pub id: i64,
    pub job_title: String,
    pub user_email: String,
    pub applied_at: String,
}

/// The admin dashboard: the counts and the two recent lists.
pub struct AdminDashboardResponse {
    pub stats: DashboardStats,
    pub recent_jobs: Vec<RecentJob>,
    pub recent_applications: Vec<RecentApplication>,
}

/// A recent-job row as the store hands it over.
pub struct RecentJobRow {
    pub id: i64,
    pub title: String,
    pub created_at: Option<i64>,
}

/// A recent-application row as the store hands it over.
pub struct RecentApplicationRow {
    pub id: i64,
    pub job_title: String,
    pub user_email: String,
    pub applied_at: Option<i64>,
}

/// The rendered range covers the store's own day domain, year 1000 through
/// year 9999: timestamps before this one (the first instant of year 1000)
/// are not rendered as days.
pub const MIN_RENDERED_TS: i64 = -30610224000;

/// Timestamps from this one on (the first instant of year 10000) are not
/// rendered as days.
pub const MAX_RENDERED_TS: i64 = 253402300800;

/// How the date formatter renders a timestamp as a day: a fixed English
/// day-month-year rendering, a function of the timestamp alone.
pub uninterp spec fn pretty_date_of(secs: i64) -> Seq<char>;

/// Relies on chrono's DateTime::from_timestamp and its "%d %B %Y"
/// formatting: within the requested range the timestamp is representable
/// and renders deterministically, in English.
#[verifier::external_body]
fn format_day(secs: i64) -> (r: String)
    requires
        MIN_RENDERED_TS <= secs < MAX_RENDERED_TS,
    ensures
        r@ == pretty_date_of(secs),
{
    match chrono::DateTime::from_timestamp(secs, 0) {
        Some(d) => d.naive_utc().format("%d %B %Y").to_string(),
        None => String::new(),
    }
}

/// The rendered day for an optional timestamp: absent or unrenderable
/// timestamps show as "N/A".
pub open spec fn spec_pretty(ts: Option<i64>) -> Seq<char> {
    match ts {
        Some(s) => if MIN_RENDERED_TS <= s < MAX_RENDERED_TS {
            pretty_date_of(s)
        } else {
            "N/A"@
        },
        None => "N/A"@,
    }
}

/// Render an optional timestamp as a day, or "N/A".
fn pretty_or_na(ts: Option<i64>) -> (r: String)
    ensures
        r@ == spec_pretty(ts),
{
    match ts {
        Some(s) => {
            if MIN_RENDERED_TS <= s && s < MAX_RENDERED_TS {
                format_day(s)
            } else {
                "N/A".to_owned()
            }
        },
        None => "N/A".to_owned(),
    }
}

/// Assemble the admin dashboard from the aggregate counts and the recent
/// rows: counts are carried over as given, and each row keeps its fields
/// with its day rendered.
pub fn build_dashboard(
    stats: DashboardStats,
    jobs: Vec<RecentJobRow>,
    apps: Vec<RecentApplicationRow>,
) -> (r: AdminDashboardResponse)
    ensures
        r.stats == stats,
        r.recent_jobs@.len() == jobs@.len(),
        forall|i: int|
            0 <= i < jobs@.len() ==> {
                &&& (#[trigger] r.recent_jobs@[i]).id == jobs@[i].id
                &&& r.recent_jobs@[i].title@ == jobs@[i].title@
                &&& r.recent_jobs@[i].created_at_pretty@ == spec_pretty(jobs@[i].created_at)
            },
        r.recent_applications@.len() == apps@.len(),
        forall|i: int|
            0 <= i < apps@.len() ==> {
                &&& (#[trigger] r.recent_applications@[i]).id == apps@[i].id
                &&& r.recent_applications@[i].job_title@ == apps@[i].job_title@
                &&& r.recent_applications@[i].user_email@ == apps@[i].user_email@
                &&& r.recent_applications@[i].applied_at@ == spec_pretty(apps@[i].applied_at)
            },
{
    let mut recent_jobs: Vec<RecentJob> = Vec::new();
    let mut i: usize = 0;
    while i < jobs.len()
        invariant
            i <= jobs@.len(),
            recent_jobs@.len() == i,
            forall|k: int|
                0 <= k < i ==> {
                    &&& (#[trigger] recent_jobs@[k]).id == jobs@[k].id
                    &&& recent_jobs@[k].title@ == jobs@[k].title@
                    &&& recent_jobs@[k].created_at_pretty@ == spec_pretty(jobs@[k].created_at)
                },
        decreases jobs@.len() - i,
    {
        let row = &jobs[i];
        recent_jobs.push(
            RecentJob {
                id: row.id,
                title: row.title.clone(),
                created_at_pretty: pretty_or_na(row.created_at),
            },
        );
        i += 1;
    }
    let mut recent_applications: Vec<RecentApplication> = Vec::new();
    let mut j: usize = 0;
    while j < apps.len()
        invariant
            j <= apps@.len(),
            recent_applications@.len() == j,
            forall|k: int|
                0 <= k < j ==> {
                    &&& (#[trigger] recent_applications@[k]).id == apps@[k].id
                    &&& recent_applications@[k].job_title@ == apps@[k].job_title@
                    &&& recent_applications@[k].user_email@ == apps@[k].user_email@
                    &&& recent_applications@[k].applied_at@ == spec_pretty(apps@[k].applied_at)
                },
        decreases apps@.len() - j,
    {
        let row = &apps[j];
        recent_applications.push(
            RecentApplication {
                id: row.id,
                job_title: row.job_title.clone(),
                user_email: row.user_email.clone(),
                applied_at: pretty_or_na(row.applied_at),
            },
        );
        j += 1;
    }
    AdminDashboardResponse { stats, recent_jobs, recent_applications }
}

} // verus!
