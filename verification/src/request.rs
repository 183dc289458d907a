use vstd::prelude::*;
use crate::conf::{Route, RouteView};
use crate::filter::{ConditionView, Filter, build_filter, filter_of};
use crate::query::{
    RequestError, build_paging, page_window, paging_of, parse_query, query_params_of, window_of,
};

verus! {

/// What a request asks of the document store: the collection, the filter,
/// and, for a paged route, how many documents to skip and how many to
/// return.
pub struct RequestPlan {
    pub collection: String,
    pub filter: Filter,
    pub window: Option<(u64, i64)>,
}

/// A request plan as a value.
pub struct RequestPlanView {
    pub collection: Seq<char>,
    pub filter: Seq<(Seq<char>, ConditionView)>,
    pub window: Option<(u64, i64)>,
}

impl View for RequestPlan {
    type V = RequestPlanView;

    open spec fn view(&self) -> RequestPlanView {
        RequestPlanView {
            collection: self.collection@,
            filter: self.filter@,
            window: self.window,
        }
    }
}

/// What a request with raw query string `q` to `route` asks, or why it
/// cannot be answered. The query is read first, then the route's filter
/// rules, then, for a paged route, the paging window.
pub open spec fn plan_of(route: RouteView, q: Seq<char>) -> Result<RequestPlanView, RequestError> {
    match query_params_of(q) {
        None => Err(RequestError::MissingQueryValue),
        Some(m) => match filter_of(route.filters, m) {
            None => Err(RequestError::InvalidNumber),
            Some(es) => if route.pagination {
                match window_of(paging_of(m).0, paging_of(m).1) {
                    None => Err(RequestError::PagingOverflow),
                    Some(w) => Ok(
                        RequestPlanView { collection: route.collection, filter: es, window: Some(w) },
                    ),
                }
            } else {
                Ok(RequestPlanView { collection: route.collection, filter: es, window: None })
            },
        },
    }
}

/// Works out what a request to `route` with raw query string `query_string`
/// asks of the document store.
pub fn plan_request(route: &Route, query_string: &str) -> (r: Result<RequestPlan, RequestError>)
    ensures
        match r {
            Ok(p) => plan_of(route@, query_string@) == Ok::<RequestPlanView, RequestError>(p@),
            Err(e) => plan_of(route@, query_string@) == Err::<RequestPlanView, RequestError>(e),
        },
{
    let query_maps = parse_query(query_string)?;
    let filter = build_filter(&route.filters, &query_maps)?;
    let window = if route.pagination {
        let (page, page_size) = build_paging(&query_maps);
        match page_window(page, page_size) {
            Some(w) => Some(w),
            None => {
                return Err(RequestError::PagingOverflow);
            },
        }
    } else {
        None
    };
    Ok(RequestPlan { collection: route.collection.clone(), filter, window })
}

} // verus!

verus! {

/// A successful plan reads the route's collection, carries the filter built
/// from the query, and has a window exactly when the route is paged: the
/// page window of the page and page size that the query asks for.
pub proof fn lemma_plan_window(route: RouteView, q: Seq<char>)
    ensures
        plan_of(route, q) is Ok ==> query_params_of(q) is Some,
        plan_of(route, q) matches Ok(p) ==> p.collection == route.collection && p.filter
            == filter_of(route.filters, query_params_of(q)->0)->0,
        plan_of(route, q) matches Ok(p) ==> (route.pagination <==> p.window is Some),
        route.pagination ==> (plan_of(route, q) matches Ok(p) ==> p.window == window_of(
            paging_of(query_params_of(q)->0).0,
            paging_of(query_params_of(q)->0).1,
        )),
{
}

/// A paged route whose query names neither `page` nor `per_page` gets the
/// first page of the default size: it skips nothing and returns at most 25
/// documents. Such a request succeeds whenever its query reads and its
/// filter builds.
pub proof fn lemma_paged_route_default_window(route: RouteView, q: Seq<char>)
    requires
        route.pagination,
        query_params_of(q) is Some,
        filter_of(route.filters, query_params_of(q)->0) is Some,
        !query_params_of(q)->0.contains_key("page"@),
        !query_params_of(q)->0.contains_key("per_page"@),
    ensures
        plan_of(route, q) == Ok::<RequestPlanView, RequestError>(
            RequestPlanView {
                collection: route.collection,
                filter: filter_of(route.filters, query_params_of(q)->0)->0,
                window: Some((0u64, 25i64)),
            },
        ),
{
    crate::query::lemma_default_paging(query_params_of(q)->0);
    crate::query::lemma_first_page_window(25);
}

/// The empty query string names no parameter.
pub proof fn lemma_empty_query()
    ensures
        query_params_of(Seq::<char>::empty()) == Some(Map::<Seq<char>, Seq<char>>::empty()),
{
    crate::text::lemma_split_without_separator(Seq::<char>::empty(), '&');
    assert(seq![Seq::<char>::empty()].drop_last() =~= Seq::<Seq<char>>::empty());
    assert(crate::text::drop_empty(Seq::<Seq<char>>::empty()) =~= Seq::<Seq<char>>::empty());
    assert(seq![Seq::<char>::empty()].last().len() == 0);
    assert(crate::text::tokens_of(Seq::<char>::empty(), '&') =~= Seq::<Seq<char>>::empty());
}

} // verus!
