use job_board::claims::{Claims, Role};
use job_board::listing::{execute_scoped_query, Job};
use job_board::query::{build, JobQueryParams};

const NOW: u64 = 1_700_000_000;

fn admin() -> Claims {
    Claims { sub: 1, role: Role::Admin, exp: NOW }
}

fn user(sub: i64) -> Claims {
    Claims { sub, role: Role::User, exp: NOW }
}

fn params() -> JobQueryParams {
    JobQueryParams {
        page: None,
        limit: None,
        search: None,
        location: None,
        job_type: None,
        tags: None,
        company_id: None,
    }
}

fn job(id: i64, owner: i64, created_at: i64) -> Job {
    Job {
        id,
        title: format!("job {}", id),
        description: Some("a fine position".to_string()),
        location: Some("berlin".to_string()),
        job_type: Some("full-time".to_string()),
        tags: None,
        views: 0,
        company_id: Some(1),
        user_id: Some(owner),
        created_at,
    }
}

fn job_eq(a: &Job, b: &Job) -> bool {
    a.id == b.id
        && a.title == b.title
        && a.description == b.description
        && a.location == b.location
        && a.job_type == b.job_type
        && a.tags == b.tags
        && a.views == b.views
        && a.company_id == b.company_id
        && a.user_id == b.user_id
        && a.created_at == b.created_at
}

#[test]
fn non_admin_page_contains_only_own_records() {
    // End-to-end: a non-admin user with subject id 7 requests page 1, size
    // 10; the store also holds records owned by subject 3.  The result
    // contains only records owned by subject 7 and no error is raised.
    let records = vec![
        job(1, 3, 100),
        job(2, 7, 200),
        job(3, 3, 300),
        job(4, 7, 400),
        job(5, 9, 500),
    ];
    let mut p = params();
    p.page = Some(1);
    p.limit = Some(10);
    // An owner-like value smuggled into the caller-controlled parameters
    // has no owner-scoped meaning: the builder never reads one.
    p.company_id = Some(1);
    let q = build(&user(7), &p);
    let page = execute_scoped_query(&q, &records);
    assert_eq!(page.len(), 2);
    assert!(page.iter().all(|j| j.user_id == Some(7)));
    assert_eq!(page[0].id, 4);
    assert_eq!(page[1].id, 2);
}

#[test]
fn admin_page_is_unscoped_by_owner() {
    let records = vec![job(1, 3, 100), job(2, 7, 200), job(3, 9, 300)];
    let q = build(&admin(), &params());
    let page = execute_scoped_query(&q, &records);
    assert_eq!(page.len(), 3);
}

#[test]
fn results_are_ordered_newest_first_with_id_tie_break() {
    let records = vec![job(1, 7, 100), job(4, 7, 300), job(2, 7, 300), job(3, 7, 200)];
    let q = build(&user(7), &params());
    let page = execute_scoped_query(&q, &records);
    let ids: Vec<i64> = page.iter().map(|j| j.id).collect();
    assert_eq!(ids, vec![4, 2, 3, 1]);
}

#[test]
fn page_beyond_available_data_is_empty_not_an_error() {
    let records = vec![job(1, 7, 100), job(2, 7, 200)];
    let mut p = params();
    p.page = Some(5);
    p.limit = Some(10);
    let q = build(&user(7), &p);
    let page = execute_scoped_query(&q, &records);
    assert!(page.is_empty());
}

#[test]
fn pagination_windows_are_disjoint_and_ordered() {
    let records: Vec<Job> = (1..=5).map(|i| job(i, 7, 100 * i)).collect();
    let mut p = params();
    p.limit = Some(2);
    p.page = Some(1);
    let first = execute_scoped_query(&build(&user(7), &p), &records);
    p.page = Some(2);
    let second = execute_scoped_query(&build(&user(7), &p), &records);
    p.page = Some(3);
    let third = execute_scoped_query(&build(&user(7), &p), &records);
    let ids: Vec<i64> = first
        .iter()
        .chain(second.iter())
        .chain(third.iter())
        .map(|j| j.id)
        .collect();
    assert_eq!(ids, vec![5, 4, 3, 2, 1]);
}

#[test]
fn page_size_zero_is_clamped_to_one_record() {
    let records = vec![job(1, 7, 100), job(2, 7, 200)];
    let mut p = params();
    p.limit = Some(0);
    let q = build(&user(7), &p);
    let page = execute_scoped_query(&q, &records);
    assert_eq!(page.len(), 1);
}

#[test]
fn listing_is_idempotent() {
    let records = vec![job(1, 7, 100), job(3, 7, 300), job(2, 3, 200)];
    let mut p = params();
    p.search = Some("fine".to_string());
    let q = build(&user(7), &p);
    let first = execute_scoped_query(&q, &records);
    let second = execute_scoped_query(&q, &records);
    assert_eq!(first.len(), second.len());
    for (a, b) in first.iter().zip(second.iter()) {
        assert!(job_eq(a, b));
    }
}

#[test]
fn text_filter_matches_title_or_description() {
    let mut by_title = job(1, 7, 100);
    by_title.title = "rust engineer".to_string();
    by_title.description = Some("nothing here".to_string());
    let mut by_description = job(2, 7, 200);
    by_description.title = "backend role".to_string();
    by_description.description = Some("we use rust daily".to_string());
    let mut neither = job(3, 7, 300);
    neither.title = "gardener".to_string();
    neither.description = Some("no computers".to_string());
    let records = vec![by_title, by_description, neither];
    let mut p = params();
    p.search = Some("rust".to_string());
    let q = build(&user(7), &p);
    let page = execute_scoped_query(&q, &records);
    let ids: Vec<i64> = page.iter().map(|j| j.id).collect();
    assert_eq!(ids, vec![2, 1]);
}

#[test]
fn location_type_and_company_filters_conjoin() {
    let mut a = job(1, 7, 100);
    a.location = Some("berlin mitte".to_string());
    a.job_type = Some("part-time".to_string());
    a.company_id = Some(3);
    let mut b = job(2, 7, 200);
    b.location = Some("hamburg".to_string());
    b.job_type = Some("part-time".to_string());
    b.company_id = Some(3);
    let records = vec![a, b];
    let mut p = params();
    p.location = Some("berlin".to_string());
    p.job_type = Some("part".to_string());
    p.company_id = Some(3);
    let q = build(&user(7), &p);
    let page = execute_scoped_query(&q, &records);
    assert_eq!(page.len(), 1);
    assert_eq!(page[0].id, 1);
}

#[test]
fn absent_text_columns_never_match_a_filter() {
    let mut a = job(1, 7, 100);
    a.location = None;
    let records = vec![a];
    let mut p = params();
    p.location = Some("berlin".to_string());
    let q = build(&user(7), &p);
    assert!(execute_scoped_query(&q, &records).is_empty());
}
