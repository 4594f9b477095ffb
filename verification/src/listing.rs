use vstd::prelude::*;
use crate::claims::{Claims, Role};
use crate::query::{BoundQuery, ParamsView, Predicate, PredView, QueryView, spec_build};
use crate::strutil::{seq_contains_sub, str_contains};

verus! {

/// One job record, as the listing engine sees it: plain values only, with
/// the creation instant as unix seconds.
pub struct Job {
    pub id: i64,
    pub title: String,
    pub description: Option<String>,
    pub location: Option<String>,
    pub job_type: Option<String>,
    pub tags: Option<String>,
    pub views: i64,
    pub company_id: Option<i64>,
    pub user_id: Option<i64>,
    pub created_at: i64,
}

/// Mathematical image of `Job`.
pub struct JobView {
    pub id: i64,
    pub title: Seq<char>,
    pub description: Option<Seq<char>>,
    pub location: Option<Seq<char>>,
    pub job_type: Option<Seq<char>>,
    pub tags: Option<Seq<char>>,
    pub views: i64,
    pub company_id: Option<i64>,
    pub user_id: Option<i64>,
    pub created_at: i64,
}

/// The view of an optional string.
pub open spec fn opt_view(o: Option<String>) -> Option<Seq<char>> {
    match o {
        Some(s) => Some(s@),
        None => None,
    }
}

impl View for Job {
    type V = JobView;

    open spec fn view(&self) -> JobView {
        JobView {
            id: self.id,
            title: self.title@,
            description: opt_view(self.description),
            location: opt_view(self.location),
            job_type: opt_view(self.job_type),
            tags: opt_view(self.tags),
            views: self.views,
            company_id: self.company_id,
            user_id: self.user_id,
            created_at: self.created_at,
        }
    }
}

/// The views of a sequence of records.
pub open spec fn views_of(s: Seq<Job>) -> Seq<JobView> {
    s.map_values(|j: Job| j@)
}

/// Whether one predicate holds of one record.  Text-like predicates are
/// substring containment; a predicate on an absent column does not hold.
pub open spec fn pred_holds(p: PredView, j: JobView) -> bool {
    match p {
        PredView::OwnerEq(u) => j.user_id == Some(u),
        PredView::TextLike(s) => seq_contains_sub(j.title, s) || (j.description is Some
            && seq_contains_sub(j.description->0, s)),
        PredView::LocationLike(s) => j.location is Some && seq_contains_sub(j.location->0, s),
        PredView::TypeLike(s) => j.job_type is Some && seq_contains_sub(j.job_type->0, s),
        PredView::CompanyEq(c) => j.company_id == Some(c),
    }
}

/// Whether a record is visible to a query: all predicates hold, conjoined.
pub open spec fn selects(q: QueryView, j: JobView) -> bool {
    forall|i: int| 0 <= i < q.predicates.len() ==> pred_holds(#[trigger] q.predicates[i], j)
}

/// Listing order: newer records first, ties broken by higher identifier, so
/// pagination is stable even when creation times collide.
pub open spec fn spec_before(a: JobView, b: JobView) -> bool {
    a.created_at > b.created_at || (a.created_at == b.created_at && a.id > b.id)
}

/// The records a query selects, in their original order.
pub open spec fn filter_selected(q: QueryView, s: Seq<JobView>) -> Seq<JobView>
    decreases s.len(),
{
    if s.len() == 0 {
        Seq::empty()
    } else {
        let rest = filter_selected(q, s.drop_first());
        if selects(q, s[0]) {
            seq![s[0]] + rest
        } else {
            rest
        }
    }
}

/// A record placed into an already ordered sequence, before the first entry
/// it precedes.
pub open spec fn insert_ordered(x: JobView, s: Seq<JobView>) -> Seq<JobView>
    decreases s.len(),
{
    if s.len() == 0 {
        seq![x]
    } else if spec_before(x, s[0]) {
        seq![x] + s
    } else {
        seq![s[0]] + insert_ordered(x, s.drop_first())
    }
}

/// The listing order imposed on a sequence of records, by insertion.
pub open spec fn sort_listing(s: Seq<JobView>) -> Seq<JobView>
    decreases s.len(),
{
    if s.len() == 0 {
        Seq::empty()
    } else {
        insert_ordered(s[0], sort_listing(s.drop_first()))
    }
}

/// The page a query yields from a store: the selected records, ordered,
/// windowed by offset and limit.  A page beyond the data is empty, never an
/// error.
pub open spec fn page_of(q: QueryView, s: Seq<JobView>) -> Seq<JobView> {
    let srt = sort_listing(filter_selected(q, s));
    let start = if q.offset <= srt.len() {
        q.offset as int
    } else {
        srt.len() as int
    };
    let end = if q.offset + q.limit <= srt.len() {
        q.offset + q.limit
    } else {
        srt.len() as int
    };
    srt.subrange(start, end)
}

/// A field-for-field copy of a record.
pub fn clone_job(j: &Job) -> (r: Job)
    ensures
        r@ == j@,
{
    Job {
        id: j.id,
        title: j.title.clone(),
        description: clone_opt_string(&j.description),
        location: clone_opt_string(&j.location),
        job_type: clone_opt_string(&j.job_type),
        tags: clone_opt_string(&j.tags),
        views: j.views,
        company_id: j.company_id,
        user_id: j.user_id,
        created_at: j.created_at,
    }
}

/// A copy of an optional string, preserving its view.
fn clone_opt_string(o: &Option<String>) -> (r: Option<String>)
    ensures
        opt_view(r) == opt_view(*o),
{
    match o {
        Some(s) => Some(s.clone()),
        None => None,
    }
}

/// Whether `a` comes before `b` in listing order.
fn before_exec(a: &Job, b: &Job) -> (r: bool)
    ensures
        r == spec_before(a@, b@),
{
    a.created_at > b.created_at || (a.created_at == b.created_at && a.id > b.id)
}

/// Whether one predicate holds of one record.
fn pred_holds_exec(p: &Predicate, j: &Job) -> (r: bool)
    ensures
        r == pred_holds(p@, j@),
{
    match p {
        Predicate::OwnerEq(u) => match j.user_id {
            Some(o) => o == *u,
            None => false,
        },
        Predicate::TextLike(s) => {
            if str_contains(j.title.as_str(), s.as_str()) {
                true
            } else {
                match &j.description {
                    Some(d) => str_contains(d.as_str(), s.as_str()),
                    None => false,
                }
            }
        },
        Predicate::LocationLike(s) => match &j.location {
            Some(l) => str_contains(l.as_str(), s.as_str()),
            None => false,
        },
        Predicate::TypeLike(s) => match &j.job_type {
            Some(t) => str_contains(t.as_str(), s.as_str()),
            None => false,
        },
        Predicate::CompanyEq(c) => match j.company_id {
            Some(o) => o == *c,
            None => false,
        },
    }
}

/// Whether a record is visible to a query.
fn selects_exec(q: &BoundQuery, j: &Job) -> (r: bool)
    ensures
        r == selects(q@, j@),
{
    let mut i: usize = 0;
    while i < q.predicates.len()
        invariant
            i <= q.predicates.len(),
            forall|k: int| 0 <= k < i ==> pred_holds(#[trigger] q@.predicates[k], j@),
        decreases q.predicates.len() - i,
    {
        if !pred_holds_exec(&q.predicates[i], j) {
            assert(!pred_holds(q@.predicates[i as int], j@));
            return false;
        }
        i += 1;
    }
    true
}

/// Filtering one more record extends the selection by that record exactly
/// when the query selects it.
proof fn lemma_filter_push(q: QueryView, s: Seq<JobView>, x: JobView)
    ensures
        filter_selected(q, s.push(x)) == filter_selected(q, s) + (if selects(q, x) {
            seq![x]
        } else {
            Seq::<JobView>::empty()
        }),
    decreases s.len(),
{
    let tail = if selects(q, x) {
        seq![x]
    } else {
        Seq::<JobView>::empty()
    };
    if s.len() == 0 {
        assert(s.push(x).drop_first() =~= s);
        assert(s.push(x)[0] == x);
        assert(filter_selected(q, s) =~= Seq::<JobView>::empty());
        assert(filter_selected(q, s.push(x)) =~= filter_selected(q, s) + tail);
    } else {
        assert(s.push(x)[0] == s[0]);
        assert(s.push(x).drop_first() =~= s.drop_first().push(x));
        lemma_filter_push(q, s.drop_first(), x);
        assert(filter_selected(q, s.push(x)) =~= filter_selected(q, s) + tail);
    }
}

/// Every record the filter keeps is selected by the query.
pub proof fn lemma_filter_selected_holds(q: QueryView, s: Seq<JobView>)
    ensures
        forall|i: int|
            0 <= i < filter_selected(q, s).len() ==> selects(
                q,
                #[trigger] filter_selected(q, s)[i],
            ),
    decreases s.len(),
{
    if s.len() > 0 {
        let rest = s.drop_first();
        lemma_filter_selected_holds(q, rest);
        assert forall|i: int| 0 <= i < filter_selected(q, s).len() implies selects(
            q,
            #[trigger] filter_selected(q, s)[i],
        ) by {
            if selects(q, s[0]) {
                if i > 0 {
                    assert(filter_selected(q, s)[i] == filter_selected(q, rest)[i - 1]);
                }
            } else {
                assert(filter_selected(q, s)[i] == filter_selected(q, rest)[i]);
            }
        }
    }
}

/// Inserting into an ordered sequence adds the new record and keeps the
/// rest: every entry of the result is the new record or one of the old ones.
proof fn lemma_insert_ordered_membership(x: JobView, s: Seq<JobView>)
    ensures
        insert_ordered(x, s).len() == s.len() + 1,
        forall|i: int|
            0 <= i < insert_ordered(x, s).len() ==> (#[trigger] insert_ordered(x, s)[i] == x
                || s.contains(insert_ordered(x, s)[i])),
    decreases s.len(),
{
    if s.len() == 0 {
    } else if spec_before(x, s[0]) {
        assert forall|i: int| 0 <= i < insert_ordered(x, s).len() implies (
        #[trigger] insert_ordered(x, s)[i] == x || s.contains(insert_ordered(x, s)[i])) by {
            if i > 0 {
                assert(insert_ordered(x, s)[i] == s[i - 1]);
            }
        }
    } else {
        lemma_insert_ordered_membership(x, s.drop_first());
        assert forall|i: int| 0 <= i < insert_ordered(x, s).len() implies (
        #[trigger] insert_ordered(x, s)[i] == x || s.contains(insert_ordered(x, s)[i])) by {
            if i == 0 {
                assert(s.contains(s[0]));
            } else {
                let e = insert_ordered(x, s)[i];
                assert(e == insert_ordered(x, s.drop_first())[i - 1]);
                if e != x {
                    let rest = s.drop_first();
                    assert(rest.contains(e));
                    let k = choose|k: int| 0 <= k < rest.len() && rest[k] == e;
                    assert(s[k + 1] == e);
                }
            }
        }
    }
}

/// Ordering a sequence keeps its records: every entry of the ordered
/// sequence is drawn from the original.
pub proof fn lemma_sort_membership(s: Seq<JobView>)
    ensures
        sort_listing(s).len() == s.len(),
        forall|i: int|
            0 <= i < sort_listing(s).len() ==> s.contains(#[trigger] sort_listing(s)[i]),
    decreases s.len(),
{
    if s.len() > 0 {
        let rest = s.drop_first();
        lemma_sort_membership(rest);
        lemma_insert_ordered_membership(s[0], sort_listing(rest));
        assert forall|i: int| 0 <= i < sort_listing(s).len() implies s.contains(
            #[trigger] sort_listing(s)[i],
        ) by {
            let e = sort_listing(s)[i];
            assert(e == insert_ordered(s[0], sort_listing(rest))[i]);
            if e == s[0] {
                assert(s[0] == s[0]);
            } else {
                assert(sort_listing(rest).contains(e));
                let k = choose|k: int| 0 <= k < sort_listing(rest).len() && sort_listing(rest)[k]
                    == e;
                assert(rest.contains(e));
                let m = choose|m: int| 0 <= m < rest.len() && rest[m] == e;
                assert(s[m + 1] == e);
            }
        }
    }
}

/// The ordered sequence equals the original on a split point: what
/// `insert_ordered` yields when the insertion point is known.
proof fn lemma_insert_ordered_at(x: JobView, s: Seq<JobView>, k: int)
    requires
        0 <= k <= s.len(),
        forall|j: int| 0 <= j < k ==> !spec_before(x, s[j]),
        k < s.len() ==> spec_before(x, s[k]),
    ensures
        insert_ordered(x, s) == s.subrange(0, k) + seq![x] + s.subrange(k, s.len() as int),
    decreases s.len(),
{
    if s.len() == 0 {
        assert(insert_ordered(x, s) =~= s.subrange(0, k) + seq![x] + s.subrange(
            k,
            s.len() as int,
        ));
    } else if k == 0 {
        assert(insert_ordered(x, s) =~= s.subrange(0, k) + seq![x] + s.subrange(
            k,
            s.len() as int,
        ));
    } else {
        let rest = s.drop_first();
        assert(forall|j: int| 0 <= j < k - 1 ==> !spec_before(x, #[trigger] rest[j]));
        lemma_insert_ordered_at(x, rest, k - 1);
        assert(insert_ordered(x, s) =~= s.subrange(0, k) + seq![x] + s.subrange(
            k,
            s.len() as int,
        ));
    }
}

/// Place one record into an already ordered vector of records.
fn insert_sorted(x: Job, v: Vec<Job>) -> (r: Vec<Job>)
    ensures
        views_of(r@) == insert_ordered(x@, views_of(v@)),
{
    let mut v = v;
    let mut k: usize = 0;
    while k < v.len() && !before_exec(&x, &v[k])
        invariant
            k <= v@.len(),
            forall|j: int| 0 <= j < k ==> !spec_before(x@, views_of(v@)[j]),
        decreases v@.len() - k,
    {
        k += 1;
    }
    proof {
        lemma_insert_ordered_at(x@, views_of(v@), k as int);
    }
    let ghost old_views = views_of(v@);
    v.insert(k, x);
    proof {
        assert(views_of(v@) =~= old_views.subrange(0, k as int) + seq![x@] + old_views.subrange(
            k as int,
            old_views.len() as int,
        ));
    }
    v
}

/// Run a bound query against an in-memory store of records: keep what the
/// query selects, order by creation time descending (ties by identifier
/// descending), and cut the requested page.  This is the reference
/// evaluation that a persistence collaborator must agree with.
pub fn execute_scoped_query(q: &BoundQuery, records: &Vec<Job>) -> (r: Vec<Job>)
    ensures
        views_of(r@) == page_of(q@, views_of(records@)),
{
    let ghost all = views_of(records@);
    let mut filtered: Vec<Job> = Vec::new();
    proof {
        assert(views_of(filtered@) =~= filter_selected(q@, all.subrange(0, 0)));
    }
    let mut i: usize = 0;
    while i < records.len()
        invariant
            i <= records@.len(),
            all == views_of(records@),
            views_of(filtered@) == filter_selected(q@, all.subrange(0, i as int)),
        decreases records@.len() - i,
    {
        let ghost prefix = all.subrange(0, i as int);
        let ghost before_views = views_of(filtered@);
        if selects_exec(q, &records[i]) {
            let c = clone_job(&records[i]);
            filtered.push(c);
            proof {
                assert(views_of(filtered@) =~= before_views.push(records@[i as int]@));
            }
        }
        proof {
            lemma_filter_push(q@, prefix, all[i as int]);
            assert(all.subrange(0, i + 1) =~= prefix.push(all[i as int]));
            assert(views_of(filtered@) =~= filter_selected(q@, all.subrange(0, i + 1)));
        }
        i += 1;
    }
    proof {
        assert(all.subrange(0, all.len() as int) =~= all);
    }
    let ghost fviews = views_of(filtered@);
    let mut sorted: Vec<Job> = Vec::new();
    proof {
        assert(fviews.subrange(fviews.len() as int, fviews.len() as int)
            =~= Seq::<JobView>::empty());
    }
    let mut n: usize = filtered.len();
    while n > 0
        invariant
            n <= filtered@.len(),
            fviews == views_of(filtered@),
            views_of(sorted@) == sort_listing(fviews.subrange(n as int, fviews.len() as int)),
        decreases n,
    {
        n -= 1;
        let c = clone_job(&filtered[n]);
        let ghost suffix = fviews.subrange(n as int, fviews.len() as int);
        sorted = insert_sorted(c, sorted);
        proof {
            assert(suffix[0] == fviews[n as int]);
            assert(suffix.drop_first() =~= fviews.subrange(n + 1, fviews.len() as int));
        }
    }
    proof {
        assert(fviews.subrange(0, fviews.len() as int) =~= fviews);
    }
    let ghost srt = sort_listing(fviews);
    proof {
        lemma_sort_membership(fviews);
    }
    let total: usize = sorted.len();
    let start: usize = if q.offset > total as u64 {
        total
    } else {
        q.offset as usize
    };
    let take: usize = if (q.limit as u64) > (total - start) as u64 {
        total - start
    } else {
        q.limit as usize
    };
    let mut page: Vec<Job> = Vec::new();
    proof {
        assert(views_of(page@) =~= srt.subrange(start as int, start as int));
    }
    let mut j: usize = 0;
    while j < take
        invariant
            j <= take,
            start + take <= total,
            total == sorted@.len(),
            srt == views_of(sorted@),
            views_of(page@) == srt.subrange(start as int, start as int + j),
        decreases take - j,
    {
        let ghost before_views = views_of(page@);
        let c = clone_job(&sorted[start + j]);
        page.push(c);
        proof {
            assert(views_of(page@) =~= before_views.push(srt[start + j]));
            assert(srt.subrange(start as int, start as int + j + 1) =~= srt.subrange(
                start as int,
                start as int + j,
            ).push(srt[start + j]));
        }
        j += 1;
    }
    proof {
        let spec_start = if q@.offset <= srt.len() {
            q@.offset as int
        } else {
            srt.len() as int
        };
        let spec_end = if q@.offset + q@.limit <= srt.len() {
            q@.offset + q@.limit
        } else {
            srt.len() as int
        };
        assert(start as int == spec_start);
        assert(start as int + take as int == spec_end);
        assert(views_of(page@) =~= page_of(q@, all));
    }
    page
}

/// Law: every record a query's page yields is selected by that query and
/// drawn from the store.
pub proof fn lemma_page_sound(q: QueryView, records: Seq<JobView>)
    ensures
        forall|i: int|
            0 <= i < page_of(q, records).len() ==> selects(q, #[trigger] page_of(q, records)[i]),
        forall|i: int|
            0 <= i < page_of(q, records).len() ==> records.contains(
                #[trigger] page_of(q, records)[i],
            ),
{
    let f = filter_selected(q, records);
    let srt = sort_listing(f);
    lemma_filter_selected_holds(q, records);
    lemma_sort_membership(f);
    lemma_filter_membership(q, records);
    assert forall|i: int| 0 <= i < page_of(q, records).len() implies selects(
        q,
        #[trigger] page_of(q, records)[i],
    ) && records.contains(page_of(q, records)[i]) by {
        let e = page_of(q, records)[i];
        assert(srt.contains(e)) by {
            let start = if q.offset <= srt.len() {
                q.offset as int
            } else {
                srt.len() as int
            };
            assert(e == srt[start + i]);
        }
        let k = choose|k: int| 0 <= k < srt.len() && srt[k] == e;
        assert(f.contains(e));
        let m = choose|m: int| 0 <= m < f.len() && f[m] == e;
        assert(selects(q, e));
    }
}

/// Every record the filter keeps is drawn from the original sequence.
proof fn lemma_filter_membership(q: QueryView, s: Seq<JobView>)
    ensures
        forall|i: int|
            0 <= i < filter_selected(q, s).len() ==> s.contains(
                #[trigger] filter_selected(q, s)[i],
            ),
    decreases s.len(),
{
    if s.len() > 0 {
        let rest = s.drop_first();
        lemma_filter_membership(q, rest);
        assert forall|i: int| 0 <= i < filter_selected(q, s).len() implies s.contains(
            #[trigger] filter_selected(q, s)[i],
        ) by {
            let e = filter_selected(q, s)[i];
            if selects(q, s[0]) && i == 0 {
                assert(s[0] == e);
            } else {
                let shifted = if selects(q, s[0]) {
                    i - 1
                } else {
                    i
                };
                assert(e == filter_selected(q, rest)[shifted]);
                assert(rest.contains(e));
                let m = choose|m: int| 0 <= m < rest.len() && rest[m] == e;
                assert(s[m + 1] == e);
            }
        }
    }
}

/// Law: a non-admin caller's page is scoped to its own records.  Whatever
/// owner-like value the request parameters carry, every record on the page
/// the built query yields belongs to the caller itself.
pub proof fn lemma_page_owner_scoped(identity: Claims, p: ParamsView, records: Seq<JobView>)
    requires
        identity.role != Role::Admin,
    ensures
        forall|i: int|
            0 <= i < page_of(spec_build(identity, p), records).len() ==> (#[trigger] page_of(
                spec_build(identity, p),
                records,
            )[i]).user_id == Some(identity.sub),
{
    let q = spec_build(identity, p);
    crate::query::lemma_scope_by_role(identity, p);
    lemma_page_sound(q, records);
    assert forall|i: int| 0 <= i < page_of(q, records).len() implies (#[trigger] page_of(
        q,
        records,
    )[i]).user_id == Some(identity.sub) by {
        let e = page_of(q, records)[i];
        assert(selects(q, e));
        assert(pred_holds(q.predicates[0], e));
    }
}

/// Law: an admin caller's page is unscoped by owner.  Two admin identities —
/// whoever they are — get the very same page for the same parameters and
/// store: the result reflects only the supplied filters.
pub proof fn lemma_admin_page_unscoped(a1: Claims, a2: Claims, p: ParamsView, records: Seq<JobView>)
    requires
        a1.role == Role::Admin,
        a2.role == Role::Admin,
    ensures
        page_of(spec_build(a1, p), records) == page_of(spec_build(a2, p), records),
{
    crate::query::lemma_scope_by_role(a1, p);
    crate::query::lemma_scope_by_role(a2, p);
    assert(spec_build(a1, p).predicates =~= spec_build(a2, p).predicates);
    assert(spec_build(a1, p) == spec_build(a2, p));
}

/// Listing order, pairwise: no later entry of the sequence precedes an
/// earlier one.
pub open spec fn ordered(s: Seq<JobView>) -> bool {
    forall|i: int, j: int| 0 <= i < j < s.len() ==> !spec_before(#[trigger] s[j], #[trigger] s[i])
}

/// Placing a record into an ordered sequence keeps it ordered.
proof fn lemma_insert_ordered_keeps_order(x: JobView, s: Seq<JobView>)
    requires
        ordered(s),
    ensures
        ordered(insert_ordered(x, s)),
    decreases s.len(),
{
    if s.len() == 0 {
    } else if spec_before(x, s[0]) {
        let r = insert_ordered(x, s);
        assert forall|i: int, j: int| 0 <= i < j < r.len() implies !spec_before(r[j], r[i]) by {
            assert(r[j] == s[j - 1]);
            if i == 0 {
                assert(!spec_before(s[j - 1], x)) by {
                    if j - 1 > 0 {
                        assert(!spec_before(s[j - 1], s[0]));
                    }
                }
            } else {
                assert(r[i] == s[i - 1]);
            }
        }
    } else {
        let rest = s.drop_first();
        assert(ordered(rest)) by {
            assert forall|i: int, j: int| 0 <= i < j < rest.len() implies !spec_before(
                #[trigger] rest[j],
                #[trigger] rest[i],
            ) by {
                assert(rest[j] == s[j + 1] && rest[i] == s[i + 1]);
            }
        }
        lemma_insert_ordered_keeps_order(x, rest);
        lemma_insert_ordered_membership(x, rest);
        let t = insert_ordered(x, rest);
        let r = insert_ordered(x, s);
        assert forall|i: int, j: int| 0 <= i < j < r.len() implies !spec_before(r[j], r[i]) by {
            if i == 0 {
                let e = t[j - 1];
                assert(r[j] == e);
                if e == x {
                    assert(!spec_before(x, s[0]));
                } else {
                    assert(rest.contains(e));
                    let k = choose|k: int| 0 <= k < rest.len() && rest[k] == e;
                    assert(s[k + 1] == e);
                    assert(!spec_before(s[k + 1], s[0]));
                }
            } else {
                assert(r[i] == t[i - 1] && r[j] == t[j - 1]);
            }
        }
    }
}

/// The listing order really orders: what `sort_listing` yields is ordered.
pub proof fn lemma_sort_ordered(s: Seq<JobView>)
    ensures
        ordered(sort_listing(s)),
    decreases s.len(),
{
    if s.len() > 0 {
        lemma_sort_ordered(s.drop_first());
        lemma_insert_ordered_keeps_order(s[0], sort_listing(s.drop_first()));
    }
}

/// Law: pages come out in listing order — creation time descending, ties
/// broken by identifier descending — so pagination is stable.
pub proof fn lemma_page_ordered(q: QueryView, records: Seq<JobView>)
    ensures
        ordered(page_of(q, records)),
{
    let srt = sort_listing(filter_selected(q, records));
    lemma_sort_ordered(filter_selected(q, records));
    let p = page_of(q, records);
    let start = if q.offset <= srt.len() {
        q.offset as int
    } else {
        srt.len() as int
    };
    assert forall|i: int, j: int| 0 <= i < j < p.len() implies !spec_before(
        #[trigger] p[j],
        #[trigger] p[i],
    ) by {
        assert(p[i] == srt[start + i] && p[j] == srt[start + j]);
    }
}

/// Law: listing is idempotent.  Two evaluations of the same query over the
/// same store — no mutation in between — yield identical ordered results.
pub proof fn lemma_listing_idempotent(
    q: QueryView,
    records: Seq<JobView>,
    r1: Seq<JobView>,
    r2: Seq<JobView>,
)
    requires
        r1 == page_of(q, records),
        r2 == page_of(q, records),
    ensures
        r1 == r2,
{
}

} // verus!
