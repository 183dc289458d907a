use vstd::prelude::*;
use vstd::hash_map::StringHashMap;
use crate::text::{
    free_of, lemma_tokens_of_pair, lemma_tokens_of_single, parse_i32, parsed_i32, string_views,
    tokens, tokens_of,
};

verus! {

/// Why a request cannot be answered.
#[derive(Clone, Copy, Debug, PartialEq, Eq, Structural)]
pub enum RequestError {
    /// A query parameter has a name but no value (`name`, `name=`, `=value`).
    MissingQueryValue,
    /// A parameter that a route compares as a number is not an `i64` literal.
    InvalidNumber,
    /// The paging window does not fit in an `i32`.
    PagingOverflow,
}

/// The parameters of a query string, by name.
pub struct QueryParams {
    map: StringHashMap<String>,
}

impl View for QueryParams {
    type V = Map<Seq<char>, Seq<char>>;

    closed spec fn view(&self) -> Map<Seq<char>, Seq<char>> {
        self.map@.map_values(|v: String| v@)
    }
}

impl QueryParams {
    /// No parameters.
    pub fn new() -> (r: QueryParams)
        ensures
            r@ == Map::<Seq<char>, Seq<char>>::empty(),
    {
        let r = QueryParams { map: StringHashMap::new() };
        assert(r@ =~= Map::<Seq<char>, Seq<char>>::empty());
        r
    }

    /// Sets the value of parameter `name`, replacing any earlier one.
    pub fn insert(&mut self, name: String, value: String)
        ensures
            final(self)@ == old(self)@.insert(name@, value@),
    {
        let ghost before = self.map@;
        let ghost k = name@;
        let ghost v = value@;
        self.map.insert(name, value);
        assert(self.map@.map_values(|x: String| x@) =~= before.map_values(|x: String| x@).insert(
            k,
            v,
        ));
    }

    /// The value of parameter `name`, if the query has it.
    pub fn get(&self, name: &str) -> (r: Option<&String>)
        ensures
            match r {
                Some(v) => self@.contains_key(name@) && self@[name@] == v@,
                None => !self@.contains_key(name@),
            },
    {
        self.map.get(name)
    }
}

/// The parameters that the `&`-separated segments give, read left to right;
/// a later value of a name replaces an earlier one. A segment is split at
/// `=` into its non-empty pieces: none means the segment is skipped, one
/// means the parameter has no value, and otherwise the first two pieces are
/// the name and the value. `None` when some segment has no value.
pub open spec fn params_of(segs: Seq<Seq<char>>) -> Option<Map<Seq<char>, Seq<char>>>
    decreases segs.len(),
{
    if segs.len() == 0 {
        Some(Map::empty())
    } else {
        match params_of(segs.drop_last()) {
            None => None,
            Some(m) => {
                let pair = tokens_of(segs.last(), '=');
                if pair.len() == 0 {
                    Some(m)
                } else if pair.len() == 1 {
                    None
                } else {
                    Some(m.insert(pair[0], pair[1]))
                }
            },
        }
    }
}

/// The parameters of a raw query string: its non-empty `&`-separated
/// segments, read as `params_of` says.
pub open spec fn query_params_of(q: Seq<char>) -> Option<Map<Seq<char>, Seq<char>>> {
    params_of(tokens_of(q, '&'))
}

proof fn lemma_params_none_persists(segs: Seq<Seq<char>>, i: int)
    requires
        0 <= i <= segs.len(),
        params_of(segs.take(i)) is None,
    ensures
        params_of(segs) is None,
    decreases segs.len() - i,
{
    if i < segs.len() {
        assert(segs.take(i + 1).drop_last() =~= segs.take(i));
        lemma_params_none_persists(segs, i + 1);
    } else {
        assert(segs.take(i) =~= segs);
    }
}

/// Reads the parameters of a raw query string. Fails exactly when a segment
/// names a parameter without giving it a value.
pub fn parse_query(q: &str) -> (r: Result<QueryParams, RequestError>)
    ensures
        match r {
            Ok(p) => query_params_of(q@) == Some(p@),
            Err(e) => query_params_of(q@) is None && e == RequestError::MissingQueryValue,
        },
{
    let segs = tokens(q, '&');
    let ghost sv = string_views(segs@);
    let mut params = QueryParams::new();
    let mut i: usize = 0;
    assert(sv.take(0) =~= Seq::<Seq<char>>::empty());
    while i < segs.len()
        invariant
            i <= segs@.len(),
            sv == string_views(segs@),
            sv == tokens_of(q@, '&'),
            params_of(sv.take(i as int)) == Some(params@),
        decreases segs@.len() - i,
    {
        proof {
            assert(sv.take(i as int + 1).drop_last() =~= sv.take(i as int));
            assert(sv.take(i as int + 1).last() == segs@[i as int]@);
        }
        let pair = tokens(segs[i].as_str(), '=');
        if pair.len() > 0 {
            if pair.len() < 2 {
                proof {
                    lemma_params_none_persists(sv, i as int + 1);
                }
                return Err(RequestError::MissingQueryValue);
            }
            assert(pair@[0]@ == string_views(pair@)[0]);
            assert(pair@[1]@ == string_views(pair@)[1]);
            params.insert(pair[0].clone(), pair[1].clone());
        }
        i = i + 1;
    }
    assert(sv.take(segs@.len() as int) =~= sv);
    Ok(params)
}

/// The page size when the query names none.
pub const DEFAULT_PAGE_SIZE: i32 = 25;

/// The page when the query names none.
pub const DEFAULT_PAGE: i32 = 1;

/// The value of parameter `key` read as an `i32`, if the query has it and it
/// parses.
pub open spec fn param_i32(m: Map<Seq<char>, Seq<char>>, key: Seq<char>) -> Option<i32> {
    if m.contains_key(key) {
        parsed_i32(m[key])
    } else {
        None
    }
}

/// The page and the page size that a query asks for: `page` and `per_page`
/// where they are present and parse as `i32`, the defaults otherwise.
pub open spec fn paging_of(m: Map<Seq<char>, Seq<char>>) -> (i32, i32) {
    (
        match param_i32(m, "page"@) {
            Some(v) => v,
            None => DEFAULT_PAGE,
        },
        match param_i32(m, "per_page"@) {
            Some(v) => v,
            None => DEFAULT_PAGE_SIZE,
        },
    )
}

/// The page and the page size that the query asks for, as `(page, page_size)`.
pub fn build_paging(query_maps: &QueryParams) -> (r: (i32, i32))
    ensures
        r == paging_of(query_maps@),
{
    let mut page_size = DEFAULT_PAGE_SIZE;
    let mut page = DEFAULT_PAGE;
    if let Some(v) = query_maps.get("per_page") {
        if let Some(size) = parse_i32(v.as_str()) {
            page_size = size;
        }
    }
    if let Some(v) = query_maps.get("page") {
        if let Some(page_num) = parse_i32(v.as_str()) {
            page = page_num;
        }
    }
    (page, page_size)
}

/// `x` as a `u64` the way `as` casts a signed integer: a negative value wraps
/// around modulo 2^64.
pub open spec fn wrap_to_u64(x: int) -> int {
    if x >= 0 {
        x
    } else {
        x + 0x1_0000_0000_0000_0000
    }
}

/// How many documents to skip and how many to return for a page, computed in
/// `i32` as `(page - 1) * page_size`; `None` when that overflows.
pub open spec fn window_of(page: i32, page_size: i32) -> Option<(u64, i64)> {
    let prev = page - 1;
    let skip = prev * page_size;
    if prev < i32::MIN || skip < i32::MIN || skip > i32::MAX {
        None
    } else {
        Some((wrap_to_u64(skip) as u64, page_size as i64))
    }
}

/// The skip count and the limit for a page of a paged route.
pub fn page_window(page: i32, page_size: i32) -> (r: Option<(u64, i64)>)
    ensures
        r == window_of(page, page_size),
{
    match page.checked_sub(1) {
        None => None,
        Some(prev) => match prev.checked_mul(page_size) {
            None => None,
            Some(skip) => {
                let s: u64 = if skip >= 0 {
                    skip as u64
                } else {
                    u64::MAX - ((-(skip as i64) - 1) as u64)
                };
                Some((s, page_size as i64))
            },
        },
    }
}

} // verus!

verus! {

/// A query that names neither `page` nor `per_page` asks for the first page
/// of the default size.
pub proof fn lemma_default_paging(m: Map<Seq<char>, Seq<char>>)
    requires
        !m.contains_key("page"@),
        !m.contains_key("per_page"@),
    ensures
        paging_of(m) == (DEFAULT_PAGE, DEFAULT_PAGE_SIZE),
{
}

/// The first page skips nothing and returns a page's worth of documents.
pub proof fn lemma_first_page_window(page_size: i32)
    ensures
        window_of(1, page_size) == Some((0u64, page_size as i64)),
{
}

/// Consecutive pages of the same size are adjacent: the next page starts a
/// page size after this one.
pub proof fn lemma_pages_adjacent(page: i32, page_size: i32)
    requires
        page >= 1,
        page_size >= 0,
        window_of(page, page_size) is Some,
        window_of((page + 1) as i32, page_size) is Some,
        page < i32::MAX,
    ensures
        window_of((page + 1) as i32, page_size).unwrap().0 == window_of(page, page_size).unwrap().0 + page_size,
{
    assert(page * page_size == (page - 1) * page_size + page_size) by (nonlinear_arith);
    assert((page - 1) * page_size >= 0) by (nonlinear_arith)
        requires
            page >= 1,
            page_size >= 0,
    ;
}

} // verus!

verus! {

/// Whether segment `seg` gives a value to parameter `k`.
pub open spec fn segment_sets(seg: Seq<char>, k: Seq<char>) -> bool {
    tokens_of(seg, '=').len() >= 2 && tokens_of(seg, '=')[0] == k
}

/// A parameter's value is the one that the last segment naming it gives;
/// a parameter that no segment names is absent.
pub proof fn lemma_last_value_wins(segs: Seq<Seq<char>>, k: Seq<char>)
    requires
        params_of(segs) is Some,
    ensures
        (exists|i: int| 0 <= i < segs.len() && #[trigger] segment_sets(segs[i], k)) <==> params_of(
            segs,
        )->0.contains_key(k),
        forall|i: int|
            0 <= i < segs.len() && #[trigger] segment_sets(segs[i], k) && (forall|j: int|
                i < j < segs.len() ==> !#[trigger] segment_sets(segs[j], k)) ==> params_of(segs)->0[k]
                == tokens_of(segs[i], '=')[1],
    decreases segs.len(),
{
    if segs.len() > 0 {
        let init = segs.drop_last();
        let last = segs.last();
        lemma_last_value_wins(init, k);
        let m = params_of(init)->0;
        assert forall|i: int|
            0 <= i < segs.len() && #[trigger] segment_sets(segs[i], k) && (forall|j: int|
                i < j < segs.len() ==> !#[trigger] segment_sets(segs[j], k)) implies params_of(
            segs,
        )->0[k] == tokens_of(segs[i], '=')[1] by {
            if i < segs.len() - 1 {
                assert(init[i] == segs[i]);
                assert(!segment_sets(segs[segs.len() - 1], k));
                assert forall|j: int| i < j < init.len() implies !#[trigger] segment_sets(init[j], k) by {
                    assert(init[j] == segs[j]);
                }
            }
        }
        if exists|i: int| 0 <= i < segs.len() && #[trigger] segment_sets(segs[i], k) {
            let i = choose|i: int| 0 <= i < segs.len() && #[trigger] segment_sets(segs[i], k);
            if i < segs.len() - 1 {
                assert(init[i] == segs[i]);
            }
        }
        if exists|i: int| 0 <= i < init.len() && #[trigger] segment_sets(init[i], k) {
            let i = choose|i: int| 0 <= i < init.len() && #[trigger] segment_sets(init[i], k);
            assert(segs[i] == init[i]);
        }
        if segment_sets(last, k) {
            assert(segment_sets(segs[segs.len() - 1], k));
        }
    }
}

} // verus!

verus! {

/// A query of one `name=value` segment gives exactly that parameter, with
/// its name and value as written, letter case included.
pub proof fn lemma_single_parameter_verbatim(k: Seq<char>, v: Seq<char>)
    requires
        k.len() > 0,
        v.len() > 0,
        free_of(k, '&'),
        free_of(k, '='),
        free_of(v, '&'),
        free_of(v, '='),
    ensures
        query_params_of(k + seq!['='] + v) == Some(Map::<Seq<char>, Seq<char>>::empty().insert(k, v)),
{
    let s = k + seq!['='] + v;
    assert(free_of(s, '&')) by {
        assert forall|i: int| 0 <= i < s.len() implies #[trigger] s[i] != '&' by {
            if i < k.len() {
                assert(s[i] == k[i]);
            } else if i > k.len() {
                assert(s[i] == v[i - k.len() - 1]);
            }
        }
    }
    lemma_tokens_of_single(s, '&');
    lemma_tokens_of_pair(k, v, '=');
    let segs = seq![s];
    assert(segs.drop_last() =~= Seq::<Seq<char>>::empty());
    assert(segs.last() == s);
    assert(params_of(Seq::<Seq<char>>::empty()) == Some(Map::<Seq<char>, Seq<char>>::empty()));
    assert(params_of(segs.drop_last()) == Some(Map::<Seq<char>, Seq<char>>::empty()));
    let pair = tokens_of(s, '=');
    assert(pair == seq![k, v]);
    assert(pair.len() == 2 && pair[0] == k && pair[1] == v);
    assert(params_of(segs) == Some(Map::<Seq<char>, Seq<char>>::empty().insert(k, v)));
    assert(tokens_of(s, '&') == segs);
}

/// Each of `page` and `per_page` is read on its own: a parameter that is
/// present and parses as an `i32` is taken whatever the other holds, and one
/// that is absent or does not parse leaves its default.
pub proof fn lemma_paging_reads_each_parameter(m: Map<Seq<char>, Seq<char>>)
    ensures
        m.contains_key("page"@) && parsed_i32(m["page"@]) is Some ==> paging_of(m).0 == parsed_i32(
            m["page"@],
        )->0,
        m.contains_key("per_page"@) && parsed_i32(m["per_page"@]) is Some ==> paging_of(m).1
            == parsed_i32(m["per_page"@])->0,
        !(m.contains_key("page"@) && parsed_i32(m["page"@]) is Some) ==> paging_of(m).0 == 1,
        !(m.contains_key("per_page"@) && parsed_i32(m["per_page"@]) is Some) ==> paging_of(m).1
            == 25,
{
}

} // verus!
