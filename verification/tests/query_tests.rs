use job_board::claims::{Claims, Role};
use job_board::query::{build, JobQueryParams, Predicate};

const NOW: u64 = 1_700_000_000;

fn admin() -> Claims {
    Claims { sub: 1, role: Role::Admin, exp: NOW }
}

fn user(sub: i64) -> Claims {
    Claims { sub, role: Role::User, exp: NOW }
}

fn empty_params() -> JobQueryParams {
    JobQueryParams {
        page: None,
        limit: None,
        search: None,
        location: None,
        job_type: None,
        tags: None,
        company_id: None,
    }
}

#[test]
fn defaults_are_page_one_size_ten() {
    let q = build(&user(7), &empty_params());
    assert_eq!(q.limit, 10);
    assert_eq!(q.offset, 0);
}

#[test]
fn page_size_above_maximum_is_clamped() {
    let mut p = empty_params();
    p.limit = Some(100_000);
    let q = build(&user(7), &p);
    assert_eq!(q.limit, 100);
}

#[test]
fn page_size_zero_is_normalized_to_minimum() {
    let mut p = empty_params();
    p.limit = Some(0);
    let q = build(&user(7), &p);
    assert_eq!(q.limit, 1);
}

#[test]
fn page_zero_is_normalized_and_offset_never_underflows() {
    let mut p = empty_params();
    p.page = Some(0);
    p.limit = Some(10);
    let q = build(&user(7), &p);
    assert_eq!(q.offset, 0);
}

#[test]
fn offset_is_page_minus_one_times_size() {
    let mut p = empty_params();
    p.page = Some(3);
    p.limit = Some(25);
    let q = build(&user(7), &p);
    assert_eq!(q.offset, 50);
}

#[test]
fn non_admin_query_starts_with_its_own_owner_scope() {
    let mut p = empty_params();
    p.search = Some("rust".to_string());
    p.company_id = Some(3);
    let q = build(&user(7), &p);
    assert!(matches!(q.predicates[0], Predicate::OwnerEq(7)));
}

#[test]
fn admin_query_carries_no_owner_scope() {
    let mut p = empty_params();
    p.search = Some("rust".to_string());
    p.company_id = Some(3);
    let q = build(&admin(), &p);
    for pred in &q.predicates {
        assert!(!matches!(pred, Predicate::OwnerEq(_)));
    }
    assert_eq!(q.predicates.len(), 2);
}

#[test]
fn empty_filters_impose_no_constraint() {
    let mut p = empty_params();
    p.search = Some(String::new());
    p.location = Some(String::new());
    p.job_type = Some(String::new());
    let q = build(&admin(), &p);
    assert_eq!(q.predicates.len(), 0);
}

#[test]
fn present_filters_each_contribute_one_predicate() {
    let mut p = empty_params();
    p.search = Some("engineer".to_string());
    p.location = Some("berlin".to_string());
    p.job_type = Some("full-time".to_string());
    p.company_id = Some(12);
    let q = build(&user(5), &p);
    assert_eq!(q.predicates.len(), 5);
    assert!(matches!(q.predicates[0], Predicate::OwnerEq(5)));
    assert!(matches!(&q.predicates[1], Predicate::TextLike(s) if s == "engineer"));
    assert!(matches!(&q.predicates[2], Predicate::LocationLike(s) if s == "berlin"));
    assert!(matches!(&q.predicates[3], Predicate::TypeLike(s) if s == "full-time"));
    assert!(matches!(q.predicates[4], Predicate::CompanyEq(12)));
}

#[test]
fn tags_parameter_imposes_no_constraint() {
    let mut p = empty_params();
    p.tags = Some("remote".to_string());
    let q = build(&admin(), &p);
    assert_eq!(q.predicates.len(), 0);
}
