use hoas::conf::{ConfError, Operator, QueryFilter, QueryParamKind, Route, parse_operator, parse_param_kind};
use hoas::filter::{Condition, FilterValue, build_filter, condition, like_condition, parse_num};
use hoas::middleware::MiddlewareError;
use hoas::query::{RequestError, build_paging, page_window, parse_query};
use hoas::request::plan_request;
use hoas::respond::{ErrorResponse, FetchAction, FetchEvent, OpenResponse, respond_step};
use hoas::route::RouteMap;
use hoas::text::{decimal_string, text_eq, tokens};

fn rule(name: &str, value_type: QueryParamKind, operator: Operator) -> QueryFilter {
    QueryFilter { name: name.to_string(), value_type, operator }
}

fn route(path: &str, collection: &str, filters: Vec<QueryFilter>, pagination: bool) -> Route {
    Route {
        path: path.to_string(),
        method: "GET".to_string(),
        collection: collection.to_string(),
        filters,
        pagination,
    }
}

#[test]
fn operator_keywords_read_in_any_case() {
    assert_eq!(parse_operator("EQ").unwrap(), Operator::EQ);
    assert_eq!(parse_operator("ne").unwrap(), Operator::NE);
    assert_eq!(parse_operator("Like").unwrap(), Operator::LIKE);
    assert_eq!(parse_operator("GT").unwrap(), Operator::GT);
    assert_eq!(parse_operator("lT").unwrap(), Operator::LT);
    assert_eq!(parse_operator("GTE").unwrap(), Operator::GTE);
    assert_eq!(parse_operator("LTE").unwrap(), Operator::LTE);
}

#[test]
fn unknown_operator_is_reported_lowercased() {
    let e = parse_operator("Between").unwrap_err();
    assert_eq!(e, ConfError::InvalidOperator("between".to_string()));
    assert_eq!(e.message(), "Invalid state 'between'");
}

#[test]
fn param_kinds_read_in_any_case() {
    assert_eq!(parse_param_kind("Number").unwrap(), QueryParamKind::Number);
    assert_eq!(parse_param_kind("STRING").unwrap(), QueryParamKind::String);
    let e = parse_param_kind("Bool").unwrap_err();
    assert_eq!(e, ConfError::InvalidParamKind("bool".to_string()));
    assert_eq!(e.message(), "Invalid query param kind 'bool'");
}

#[test]
fn tokens_drop_empty_pieces() {
    assert_eq!(tokens("a&&b&", '&'), vec!["a".to_string(), "b".to_string()]);
    assert_eq!(tokens("", '&'), Vec::<String>::new());
    assert_eq!(tokens("&&", '&'), Vec::<String>::new());
    assert_eq!(tokens("ä=ü", '='), vec!["ä".to_string(), "ü".to_string()]);
}

#[test]
fn text_eq_compares_characters() {
    assert!(text_eq("like", "like"));
    assert!(!text_eq("like", "lik"));
    assert!(!text_eq("gte", "lte"));
}

#[test]
fn decimal_string_writes_digits() {
    assert_eq!(decimal_string(0), "0");
    assert_eq!(decimal_string(7), "7");
    assert_eq!(decimal_string(500), "500");
    assert_eq!(decimal_string(65535), "65535");
}

#[test]
fn route_map_keeps_last_route_of_a_path() {
    let routes = vec![
        route("/a", "first", vec![], false),
        route("/b", "second", vec![], true),
        route("/a", "third", vec![rule("x", QueryParamKind::String, Operator::EQ)], true),
    ];
    let map = RouteMap::from_conf(&routes);
    assert_eq!(map.len(), 2);
    assert_eq!(map.paths(), &vec!["/a".to_string(), "/b".to_string()]);
    let a = map.get("/a").unwrap();
    assert_eq!(a.collection, "third");
    assert_eq!(a.filters.len(), 1);
    assert!(a.pagination);
    assert_eq!(map.get("/b").unwrap().collection, "second");
    assert!(map.get("/c").is_none());
}

#[test]
fn empty_configuration_serves_nothing() {
    let map = RouteMap::from_conf(&vec![]);
    assert_eq!(map.len(), 0);
    assert!(map.get("/").is_none());
}

#[test]
fn query_later_value_replaces_earlier() {
    let q = parse_query("a=1&b=2&&a=3").unwrap();
    assert_eq!(q.get("a").unwrap(), "3");
    assert_eq!(q.get("b").unwrap(), "2");
    assert!(q.get("c").is_none());
}

#[test]
fn query_takes_first_two_pieces_of_a_segment() {
    let q = parse_query("a=b=c&==d==e").unwrap();
    assert_eq!(q.get("a").unwrap(), "b");
    assert_eq!(q.get("d").unwrap(), "e");
}

#[test]
fn query_segment_without_value_is_refused() {
    assert_eq!(parse_query("a").err(), Some(RequestError::MissingQueryValue));
    assert_eq!(parse_query("a=1&b=").err(), Some(RequestError::MissingQueryValue));
    assert_eq!(parse_query("=x").err(), Some(RequestError::MissingQueryValue));
    assert!(parse_query("").is_ok());
    assert!(parse_query("=&&=").is_ok());
}

#[test]
fn paging_defaults_and_overrides() {
    assert_eq!(build_paging(&parse_query("").unwrap()), (1, 25));
    assert_eq!(build_paging(&parse_query("page=3&per_page=10").unwrap()), (3, 10));
    assert_eq!(build_paging(&parse_query("page=x&per_page=+7").unwrap()), (1, 7));
    assert_eq!(build_paging(&parse_query("per_page=99999999999").unwrap()), (1, 25));
}

#[test]
fn page_window_skips_earlier_pages() {
    assert_eq!(page_window(1, 25), Some((0, 25)));
    assert_eq!(page_window(3, 10), Some((20, 10)));
    assert_eq!(page_window(4, 10), Some((30, 10)));
    assert_eq!(page_window(0, 25), Some((u64::MAX - 24, 25)));
    assert_eq!(page_window(i32::MIN, 1), None);
    assert_eq!(page_window(i32::MAX, 2), None);
    assert_eq!(page_window(-1, -5), Some((10, -5)));
}

#[test]
fn parse_num_reads_signed_literals() {
    assert_eq!(parse_num("-42"), -42);
    assert_eq!(parse_num("+7"), 7);
    assert_eq!(parse_num("0012"), 12);
    assert_eq!(parse_num("9223372036854775807"), i64::MAX);
}

#[test]
fn conditions_follow_the_operator() {
    let eq_num = rule("age", QueryParamKind::Number, Operator::EQ);
    assert_eq!(condition(&eq_num, "30"), Some(Condition::Equal(FilterValue::Int(30))));
    assert_eq!(condition(&eq_num, "thirty"), None);
    let eq_text = rule("name", QueryParamKind::String, Operator::EQ);
    assert_eq!(condition(&eq_text, "bob"), Some(Condition::Equal(FilterValue::Text("bob".to_string()))));
    let ne = rule("name", QueryParamKind::String, Operator::NE);
    assert_eq!(condition(&ne, "bob"), Some(Condition::NotEqual(FilterValue::Text("bob".to_string()))));
    let like = rule("name", QueryParamKind::String, Operator::LIKE);
    assert_eq!(
        condition(&like, "bo\"b"),
        Some(Condition::Matches { pattern: ".*\"bo\\\"b\".*".to_string(), options: "i".to_string() })
    );
    let gt = rule("age", QueryParamKind::String, Operator::GT);
    assert_eq!(condition(&gt, "5"), Some(Condition::Greater(5)));
    assert_eq!(condition(&gt, "five"), None);
    assert_eq!(condition(&rule("a", QueryParamKind::Number, Operator::LT), "-1"), Some(Condition::Less(-1)));
    assert_eq!(condition(&rule("a", QueryParamKind::Number, Operator::GTE), "2"), Some(Condition::GreaterOrEqual(2)));
    assert_eq!(condition(&rule("a", QueryParamKind::Number, Operator::LTE), "3"), Some(Condition::LessOrEqual(3)));
}

#[test]
fn filter_sets_each_field_once_in_first_order() {
    let rules = vec![
        rule("age", QueryParamKind::Number, Operator::EQ),
        rule("name", QueryParamKind::String, Operator::EQ),
        rule("missing", QueryParamKind::String, Operator::EQ),
        rule("age", QueryParamKind::Number, Operator::NE),
    ];
    let q = parse_query("age=4&name=al").unwrap();
    let f = build_filter(&rules, &q).unwrap();
    assert_eq!(
        f.entries(),
        &vec![
            ("age".to_string(), Condition::NotEqual(FilterValue::Int(4))),
            ("name".to_string(), Condition::Equal(FilterValue::Text("al".to_string()))),
        ]
    );
}

#[test]
fn filter_refuses_a_bad_number() {
    let rules = vec![rule("age", QueryParamKind::Number, Operator::GTE)];
    let q = parse_query("age=old").unwrap();
    assert_eq!(build_filter(&rules, &q).err(), Some(RequestError::InvalidNumber));
    let q = parse_query("other=old").unwrap();
    assert!(build_filter(&rules, &q).unwrap().entries().is_empty());
}

#[test]
fn plan_of_a_paged_route() {
    let r = route("/users", "users", vec![rule("age", QueryParamKind::Number, Operator::LT)], true);
    let p = plan_request(&r, "age=40&page=2&per_page=5").unwrap();
    assert_eq!(p.collection, "users");
    assert_eq!(p.window, Some((5, 5)));
    assert_eq!(p.filter.entries(), &vec![("age".to_string(), Condition::Less(40))]);
}

#[test]
fn plan_of_an_unpaged_route() {
    let r = route("/users", "users", vec![], false);
    let p = plan_request(&r, "page=2").unwrap();
    assert_eq!(p.window, None);
    assert!(p.filter.entries().is_empty());
}

#[test]
fn plan_reports_each_failure() {
    let r = route("/u", "u", vec![rule("n", QueryParamKind::Number, Operator::EQ)], true);
    assert_eq!(plan_request(&r, "n").err(), Some(RequestError::MissingQueryValue));
    assert_eq!(plan_request(&r, "n=x").err(), Some(RequestError::InvalidNumber));
    assert_eq!(plan_request(&r, "page=-2147483648").err(), Some(RequestError::PagingOverflow));
}

#[test]
fn fetch_steps() {
    assert_eq!(respond_step(FetchEvent::Document), FetchAction::KeepDocument);
    assert_eq!(respond_step(FetchEvent::Exhausted), FetchAction::SendDocuments { code: 200 });
    assert_eq!(
        respond_step(FetchEvent::QueryFailed),
        FetchAction::SendError { code: 500, message: "fetch data error".to_string() }
    );
    assert_eq!(
        respond_step(FetchEvent::CursorFailed),
        FetchAction::SendError { code: 500, message: "fetch data cursor error".to_string() }
    );
}

#[test]
fn response_bodies_hold_their_parts() {
    let ok = OpenResponse::new(200, vec![1, 2, 3]);
    assert_eq!(ok.code, 200);
    assert_eq!(ok.data, vec![1, 2, 3]);
    let err = ErrorResponse::new(500, "fetch data error");
    assert_eq!(err.code, 500);
    assert_eq!(err.message, "fetch data error");
}

#[test]
fn middleware_error_body() {
    let e = MiddlewareError::from(500, "hello error");
    assert_eq!(e.status_code(), 500);
    assert_eq!(e.body(), "{\"code\":500,\"message\":hello error}");
}

#[test]
fn like_condition_wraps_the_text() {
    assert_eq!(
        like_condition("\"ab\""),
        Condition::Matches { pattern: ".*\"ab\".*".to_string(), options: "i".to_string() }
    );
}

#[test]
fn i64_decimal_text_reads_back() {
    for n in [0i64, 7, -7, 10, -100, 123456789, i64::MAX, i64::MIN] {
        assert_eq!(parse_num(&n.to_string()), n);
    }
}

#[test]
fn like_condition_of_plain_text() {
    let like = rule("name", QueryParamKind::String, Operator::LIKE);
    assert_eq!(
        condition(&like, "bo b~"),
        Some(Condition::Matches { pattern: ".*\"bo b~\".*".to_string(), options: "i".to_string() })
    );
}
