use vstd::prelude::*;
use crate::claims::{Claims, Role};

verus! {

/// Smallest page size a request is normalized to.
pub const MIN_PAGE_SIZE: u32 = 1;

/// Largest page size a single request may ask for; larger requests are
/// clamped here so no single query is unbounded.
pub const MAX_PAGE_SIZE: u32 = 100;

/// Page size used when a request names none.
pub const DEFAULT_PAGE_SIZE: u32 = 10;

/// The raw, caller-supplied listing parameters, all optional.
pub struct JobQueryParams {
    pub page: Option<u32>,
    pub limit: Option<u32>,
    pub search: Option<String>,
    pub location: Option<String>,
    pub job_type: Option<String>,
    pub tags: Option<String>,
    pub company_id: Option<i64>,
}

/// Mathematical image of `JobQueryParams`.
pub struct ParamsView {
    pub page: Option<u32>,
    pub limit: Option<u32>,
    pub search: Option<Seq<char>>,
    pub location: Option<Seq<char>>,
    pub job_type: Option<Seq<char>>,
    pub tags: Option<Seq<char>>,
    pub company_id: Option<i64>,
}

impl View for JobQueryParams {
    type V = ParamsView;

    open spec fn view(&self) -> ParamsView {
        ParamsView {
            page: self.page,
            limit: self.limit,
            search: match self.search {
                Some(s) => Some(s@),
                None => None,
            },
            location: match self.location {
                Some(s) => Some(s@),
                None => None,
            },
            job_type: match self.job_type {
                Some(s) => Some(s@),
                None => None,
            },
            tags: match self.tags {
                Some(s) => Some(s@),
                None => None,
            },
            company_id: self.company_id,
        }
    }
}

/// One conjunct of a bound query: a column, an operator and a value.
pub enum Predicate {
    /// The record's owner id equals the given subject id.
    OwnerEq(i64),
    /// Title or description contains the given text.
    TextLike(String),
    /// Location contains the given text.
    LocationLike(String),
    /// Job type contains the given text.
    TypeLike(String),
    /// The record's company id equals the given id.
    CompanyEq(i64),
}

/// Mathematical image of `Predicate`.
pub enum PredView {
    OwnerEq(i64),
    TextLike(Seq<char>),
    LocationLike(Seq<char>),
    TypeLike(Seq<char>),
    CompanyEq(i64),
}

impl View for Predicate {
    type V = PredView;

    open spec fn view(&self) -> PredView {
        match self {
            Predicate::OwnerEq(u) => PredView::OwnerEq(*u),
            Predicate::TextLike(s) => PredView::TextLike(s@),
            Predicate::LocationLike(s) => PredView::LocationLike(s@),
            Predicate::TypeLike(s) => PredView::TypeLike(s@),
            Predicate::CompanyEq(c) => PredView::CompanyEq(*c),
        }
    }
}

/// A fully scoped, fully bounded listing query: conjoined predicates, a page
/// size and a starting offset.  Results are ordered by creation time
/// descending, ties broken by identifier descending.
pub struct BoundQuery {
    pub predicates: Vec<Predicate>,
    pub limit: u32,
    pub offset: u64,
}

/// Mathematical image of `BoundQuery`.
pub struct QueryView {
    pub predicates: Seq<PredView>,
    pub limit: u32,
    pub offset: u64,
}

impl View for BoundQuery {
    type V = QueryView;

    open spec fn view(&self) -> QueryView {
        QueryView { predicates: self.predicates@.map_values(|p: Predicate| p@), limit: self.limit, offset: self.offset }
    }
}

/// The page size after clamping: a named size is forced into
/// `[MIN_PAGE_SIZE, MAX_PAGE_SIZE]`; an absent one defaults.
pub open spec fn spec_clamped_limit(limit: Option<u32>) -> u32 {
    match limit {
        None => DEFAULT_PAGE_SIZE,
        Some(l) => if l < MIN_PAGE_SIZE {
            MIN_PAGE_SIZE
        } else if l > MAX_PAGE_SIZE {
            MAX_PAGE_SIZE
        } else {
            l
        },
    }
}

/// The page number after clamping: at least 1.
pub open spec fn spec_clamped_page(page: Option<u32>) -> u32 {
    match page {
        None => 1,
        Some(p) => if p < 1 {
            1
        } else {
            p
        },
    }
}

/// The predicates that the caller's own filters contribute, in a fixed
/// order.  A filter that is absent — or present but empty — contributes
/// nothing: the default is open-world, not "match empty string".
pub open spec fn spec_filter_preds(p: ParamsView) -> Seq<PredView> {
    let text = match p.search {
        Some(s) => if s.len() > 0 {
            seq![PredView::TextLike(s)]
        } else {
            Seq::empty()
        },
        None => Seq::empty(),
    };
    let loc = match p.location {
        Some(s) => if s.len() > 0 {
            seq![PredView::LocationLike(s)]
        } else {
            Seq::empty()
        },
        None => Seq::empty(),
    };
    let typ = match p.job_type {
        Some(s) => if s.len() > 0 {
            seq![PredView::TypeLike(s)]
        } else {
            Seq::empty()
        },
        None => Seq::empty(),
    };
    let comp = match p.company_id {
        Some(c) => seq![PredView::CompanyEq(c)],
        None => Seq::empty(),
    };
    text + loc + typ + comp
}

/// The scope prefix: a non-admin identity is unconditionally restricted to
/// its own records; an admin identity is unscoped.
pub open spec fn spec_scope_preds(identity: Claims) -> Seq<PredView> {
    if identity.role == Role::Admin {
        Seq::empty()
    } else {
        seq![PredView::OwnerEq(identity.sub)]
    }
}

/// What the builder yields: the scope prefix first — present by
/// construction for every non-admin caller, untouchable by any request
/// parameter — then the caller's filters, then the clamped bounds.
pub open spec fn spec_build(identity: Claims, p: ParamsView) -> QueryView {
    QueryView {
        predicates: spec_scope_preds(identity) + spec_filter_preds(p),
        limit: spec_clamped_limit(p.limit),
        offset: ((spec_clamped_page(p.page) - 1) * spec_clamped_limit(p.limit)) as u64,
    }
}

/// Append one predicate, extending the query's view by its image.
fn push_pred(preds: &mut Vec<Predicate>, p: Predicate)
    ensures
        final(preds)@.map_values(|q: Predicate| q@) == old(preds)@.map_values(|q: Predicate| q@)
            + seq![p@],
{
    let ghost before = preds@;
    let ghost pv = p@;
    preds.push(p);
    proof {
        assert(preds@.map_values(|q: Predicate| q@) =~= before.map_values(|q: Predicate| q@)
            + seq![pv]);
    }
}

/// Build the single bounded, scoped query for one listing request.
///
/// The caller's privilege decides visibility: a non-admin identity gets the
/// owner-scope predicate appended unconditionally, first, and nothing in
/// `params` can widen that scope; an admin identity is scoped by its
/// filters alone.  Pagination is clamped before use.
pub fn build(identity: &Claims, params: &JobQueryParams) -> (q: BoundQuery)
    ensures
        q@ == spec_build(*identity, params@),
{
    let mut preds: Vec<Predicate> = Vec::new();
    proof {
        assert(preds@.map_values(|p: Predicate| p@) =~= Seq::<PredView>::empty());
    }
    if !(identity.role == Role::Admin) {
        push_pred(&mut preds, Predicate::OwnerEq(identity.sub));
    }
    proof {
        assert(preds@.map_values(|p: Predicate| p@) =~= spec_scope_preds(*identity));
    }
    match &params.search {
        Some(s) => if !s.as_str().is_empty() {
            push_pred(&mut preds, Predicate::TextLike(s.clone()));
        },
        None => {},
    }
    match &params.location {
        Some(s) => if !s.as_str().is_empty() {
            push_pred(&mut preds, Predicate::LocationLike(s.clone()));
        },
        None => {},
    }
    match &params.job_type {
        Some(s) => if !s.as_str().is_empty() {
            push_pred(&mut preds, Predicate::TypeLike(s.clone()));
        },
        None => {},
    }
    match params.company_id {
        Some(c) => push_pred(&mut preds, Predicate::CompanyEq(c)),
        None => {},
    }
    proof {
        assert(preds@.map_values(|p: Predicate| p@) =~= spec_scope_preds(*identity)
            + spec_filter_preds(params@));
    }
    let page = match params.page {
        None => 1u32,
        Some(p) => if p < 1 {
            1
        } else {
            p
        },
    };
    let limit = match params.limit {
        None => DEFAULT_PAGE_SIZE,
        Some(l) => if l < MIN_PAGE_SIZE {
            MIN_PAGE_SIZE
        } else if l > MAX_PAGE_SIZE {
            MAX_PAGE_SIZE
        } else {
            l
        },
    };
    proof {
        assert(((page - 1) as u64) * (limit as u64) <= 0xffff_ffffu64 * 100) by (nonlinear_arith)
            requires
                1 <= page,
                1 <= limit <= 100,
        ;
    }
    let offset: u64 = ((page - 1) as u64) * (limit as u64);
    proof {
        assert(((page - 1) as u64) * (limit as u64) == ((spec_clamped_page(params@.page) - 1)
            * spec_clamped_limit(params@.limit)) as u64) by (nonlinear_arith)
            requires
                page == spec_clamped_page(params@.page),
                limit == spec_clamped_limit(params@.limit),
                1 <= page,
                1 <= limit <= 100,
        ;
    }
    BoundQuery { predicates: preds, limit, offset }
}

/// Law: pagination is always bounded and never negative.  Whatever the
/// request says, the built query's page size lies between the configured
/// minimum and maximum, and its offset is exactly (page - 1) * page_size
/// for the clamped page — zero-based, never underflowing.
pub proof fn lemma_pagination_bounded(identity: Claims, p: ParamsView)
    ensures
        MIN_PAGE_SIZE <= spec_build(identity, p).limit <= MAX_PAGE_SIZE,
        spec_build(identity, p).offset == (spec_clamped_page(p.page) - 1) * spec_clamped_limit(
            p.limit,
        ),
        spec_clamped_page(p.page) >= 1,
{
    assert((spec_clamped_page(p.page) - 1) * spec_clamped_limit(p.limit) <= 0xffff_ffff * 100)
        by (nonlinear_arith)
        requires
            1 <= spec_clamped_page(p.page) <= 0xffff_ffff + 1,
            1 <= spec_clamped_limit(p.limit) <= 100,
    ;
    assert((spec_clamped_page(p.page) - 1) * spec_clamped_limit(p.limit) >= 0) by (nonlinear_arith)
        requires
            1 <= spec_clamped_page(p.page),
            1 <= spec_clamped_limit(p.limit),
    ;
}

/// Law: the scope a query carries is decided by the identity's role alone.
/// For a non-admin identity the first predicate is the owner scope — its own
/// subject id, wherever the parameters came from; for an admin identity the
/// predicates are exactly the supplied filters.
pub proof fn lemma_scope_by_role(identity: Claims, p: ParamsView)
    ensures
        identity.role != Role::Admin ==> spec_build(identity, p).predicates[0]
            == PredView::OwnerEq(identity.sub),
        identity.role != Role::Admin ==> spec_build(identity, p).predicates.len() >= 1,
        identity.role == Role::Admin ==> spec_build(identity, p).predicates == spec_filter_preds(
            p,
        ),
{
    if identity.role == Role::Admin {
        assert(spec_build(identity, p).predicates =~= spec_filter_preds(p));
    }
}

} // verus!
