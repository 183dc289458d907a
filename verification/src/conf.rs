use vstd::prelude::*;
use crate::text::{all_ascii, ascii_lower, lowercase, text_eq, to_lowercase};

verus! {

/// How a query parameter is compared with a document field.
#[derive(Clone, Copy, Debug, PartialEq, Eq, Structural)]
pub enum Operator {
    EQ,
    NE,
    LIKE,
    GT,
    LT,
    GTE,
    LTE,
}

/// How the text of a query parameter is read.
#[derive(Clone, Copy, Debug, PartialEq, Eq, Structural)]
pub enum QueryParamKind {
    Number,
    String,
}

/// The whole configuration file.
#[derive(Clone, Debug, PartialEq, Eq)]
pub struct ApiConf {
    pub api_version: String,
    pub meta_data: Metadata,
    pub spc: ApiSepc,
}

/// The routes and the data source of a configuration.
#[derive(Clone, Debug, PartialEq, Eq)]
pub struct ApiSepc {
    pub rules: Vec<Route>,
    pub datasource: Datasource,
}

/// Where the documents are stored.
#[derive(Clone, Debug, PartialEq, Eq)]
pub struct Datasource {
    pub addr: String,
    pub dbname: String,
}

/// One served path: which collection it reads, which query parameters filter
/// it, and whether it is paged.
#[derive(Clone, Debug, PartialEq, Eq)]
pub struct Route {
    pub path: String,
    pub method: String,
    pub collection: String,
    pub filters: Vec<QueryFilter>,
    pub pagination: bool,
}

/// A query parameter that a route accepts, and how it filters.
#[derive(Clone, Debug, PartialEq, Eq)]
pub struct QueryFilter {
    pub name: String,
    pub value_type: QueryParamKind,
    pub operator: Operator,
}

/// The name of a configuration.
#[derive(Clone, Debug, PartialEq, Eq)]
pub struct Metadata {
    pub name: String,
}

/// A query filter as a value.
pub struct QueryFilterView {
    pub name: Seq<char>,
    pub value_type: QueryParamKind,
    pub operator: Operator,
}

/// A route as a value.
pub struct RouteView {
    pub path: Seq<char>,
    pub method: Seq<char>,
    pub collection: Seq<char>,
    pub filters: Seq<QueryFilterView>,
    pub pagination: bool,
}

impl View for QueryFilter {
    type V = QueryFilterView;

    open spec fn view(&self) -> QueryFilterView {
        QueryFilterView { name: self.name@, value_type: self.value_type, operator: self.operator }
    }
}

/// The views of a sequence of query filters.
pub open spec fn filter_views(v: Seq<QueryFilter>) -> Seq<QueryFilterView> {
    v.map_values(|q: QueryFilter| q@)
}

impl View for Route {
    type V = RouteView;

    open spec fn view(&self) -> RouteView {
        RouteView {
            path: self.path@,
            method: self.method@,
            collection: self.collection@,
            filters: filter_views(self.filters@),
            pagination: self.pagination,
        }
    }
}

impl QueryFilter {
    /// A copy of this filter.
    pub fn deep_clone(&self) -> (r: QueryFilter)
        ensures
            r@ == self@,
    {
        QueryFilter { name: self.name.clone(), value_type: self.value_type, operator: self.operator }
    }
}

impl Route {
    /// A copy of this route, filters included.
    pub fn deep_clone(&self) -> (r: Route)
        ensures
            r@ == self@,
    {
        let mut filters: Vec<QueryFilter> = Vec::new();
        let mut i: usize = 0;
        while i < self.filters.len()
            invariant
                i <= self.filters@.len(),
                filter_views(filters@) == filter_views(self.filters@).take(i as int),
            decreases self.filters@.len() - i,
        {
            let ghost before = filter_views(filters@);
            let q = self.filters[i].deep_clone();
            filters.push(q);
            assert(filter_views(filters@) =~= before.push(self.filters@[i as int]@));
            assert(filter_views(self.filters@).take(i as int + 1) =~= filter_views(
                self.filters@,
            ).take(i as int).push(self.filters@[i as int]@));
            i = i + 1;
        }
        assert(filter_views(self.filters@).take(self.filters@.len() as int) =~= filter_views(
            self.filters@,
        ));
        Route {
            path: self.path.clone(),
            method: self.method.clone(),
            collection: self.collection.clone(),
            filters,
            pagination: self.pagination,
        }
    }
}

/// A configuration value that names no operator or no parameter kind; it
/// holds the lowercased text that was given.
#[derive(Clone, Debug, PartialEq, Eq)]
pub enum ConfError {
    InvalidOperator(String),
    InvalidParamKind(String),
}

impl ConfError {
    /// The message that reports this error.
    pub fn message(&self) -> (r: String)
        ensures
            r@ == match self {
                ConfError::InvalidOperator(t) => "Invalid state '"@ + t@ + "'"@,
                ConfError::InvalidParamKind(t) => "Invalid query param kind '"@ + t@ + "'"@,
            },
    {
        match self {
            ConfError::InvalidOperator(t) => {
                let mut m = String::from_str("Invalid state '");
                m.append(t.as_str());
                m.append("'");
                m
            },
            ConfError::InvalidParamKind(t) => {
                let mut m = String::from_str("Invalid query param kind '");
                m.append(t.as_str());
                m.append("'");
                m
            },
        }
    }
}

/// The operator that a lowercase keyword names, if any.
pub open spec fn operator_named(s: Seq<char>) -> Option<Operator> {
    if s == "eq"@ {
        Some(Operator::EQ)
    } else if s == "ne"@ {
        Some(Operator::NE)
    } else if s == "like"@ {
        Some(Operator::LIKE)
    } else if s == "gt"@ {
        Some(Operator::GT)
    } else if s == "lt"@ {
        Some(Operator::LT)
    } else if s == "lte"@ {
        Some(Operator::LTE)
    } else if s == "gte"@ {
        Some(Operator::GTE)
    } else {
        None
    }
}

/// The parameter kind that a lowercase keyword names, if any.
pub open spec fn param_kind_named(s: Seq<char>) -> Option<QueryParamKind> {
    if s == "string"@ {
        Some(QueryParamKind::String)
    } else if s == "number"@ {
        Some(QueryParamKind::Number)
    } else {
        None
    }
}

impl Operator {
    /// The operator that the lowercase keyword `s` names.
    pub fn from_keyword(s: &str) -> (r: Option<Operator>)
        ensures
            r == operator_named(s@),
    {
        if text_eq(s, "eq") {
            Some(Operator::EQ)
        } else if text_eq(s, "ne") {
            Some(Operator::NE)
        } else if text_eq(s, "like") {
            Some(Operator::LIKE)
        } else if text_eq(s, "gt") {
            Some(Operator::GT)
        } else if text_eq(s, "lt") {
            Some(Operator::LT)
        } else if text_eq(s, "lte") {
            Some(Operator::LTE)
        } else if text_eq(s, "gte") {
            Some(Operator::GTE)
        } else {
            None
        }
    }
}

impl QueryParamKind {
    /// The parameter kind that the lowercase keyword `s` names.
    pub fn from_keyword(s: &str) -> (r: Option<QueryParamKind>)
        ensures
            r == param_kind_named(s@),
    {
        if text_eq(s, "string") {
            Some(QueryParamKind::String)
        } else if text_eq(s, "number") {
            Some(QueryParamKind::Number)
        } else {
            None
        }
    }
}

/// Reads an operator from configuration text, whatever its letter case: the
/// text is lowercased and must then be one of `eq`, `ne`, `like`, `gt`, `lt`,
/// `lte`, `gte`.
pub fn parse_operator(s: &str) -> (r: Result<Operator, ConfError>)
    ensures
        r is Ok <==> operator_named(lowercase(s@)) is Some,
        r matches Ok(op) ==> operator_named(lowercase(s@)) == Some(op),
        r matches Err(e) ==> (e matches ConfError::InvalidOperator(t) && t@ == lowercase(s@)),
        all_ascii(s@) ==> (r is Ok <==> operator_named(ascii_lower(s@)) is Some),
        all_ascii(s@) ==> (r matches Ok(op) ==> operator_named(ascii_lower(s@)) == Some(op)),
        all_ascii(s@) ==> (r matches Err(e) ==> (e matches ConfError::InvalidOperator(t) && t@
            == ascii_lower(s@))),
{
    let lower = to_lowercase(s);
    match Operator::from_keyword(lower.as_str()) {
        Some(op) => Ok(op),
        None => Err(ConfError::InvalidOperator(lower)),
    }
}

/// Reads a parameter kind from configuration text, whatever its letter case:
/// the text is lowercased and must then be `string` or `number`.
pub fn parse_param_kind(s: &str) -> (r: Result<QueryParamKind, ConfError>)
    ensures
        r is Ok <==> param_kind_named(lowercase(s@)) is Some,
        r matches Ok(k) ==> param_kind_named(lowercase(s@)) == Some(k),
        r matches Err(e) ==> (e matches ConfError::InvalidParamKind(t) && t@ == lowercase(s@)),
        all_ascii(s@) ==> (r is Ok <==> param_kind_named(ascii_lower(s@)) is Some),
        all_ascii(s@) ==> (r matches Ok(k) ==> param_kind_named(ascii_lower(s@)) == Some(k)),
        all_ascii(s@) ==> (r matches Err(e) ==> (e matches ConfError::InvalidParamKind(t) && t@
            == ascii_lower(s@))),
{
    let lower = to_lowercase(s);
    match QueryParamKind::from_keyword(lower.as_str()) {
        Some(k) => Ok(k),
        None => Err(ConfError::InvalidParamKind(lower)),
    }
}

} // verus!

verus! {

/// The text that a derived serializer writes for an operator: its variant name.
pub open spec fn operator_variant_name(op: Operator) -> Seq<char> {
    match op {
        Operator::EQ => "EQ"@,
        Operator::NE => "NE"@,
        Operator::LIKE => "LIKE"@,
        Operator::GT => "GT"@,
        Operator::LT => "LT"@,
        Operator::GTE => "GTE"@,
        Operator::LTE => "LTE"@,
    }
}

/// The text that a derived serializer writes for a parameter kind: its
/// variant name.
pub open spec fn param_kind_variant_name(k: QueryParamKind) -> Seq<char> {
    match k {
        QueryParamKind::Number => "Number"@,
        QueryParamKind::String => "String"@,
    }
}

/// An operator written under its variant name, in any letter case that keeps
/// it ASCII, reads back as that operator: the variant name is ASCII and its
/// ASCII lowercase is the operator's keyword.
pub proof fn lemma_operator_name_reads_back(op: Operator)
    ensures
        all_ascii(operator_variant_name(op)),
        operator_named(ascii_lower(operator_variant_name(op))) == Some(op),
{
    reveal_strlit("EQ");
    reveal_strlit("NE");
    reveal_strlit("LIKE");
    reveal_strlit("GT");
    reveal_strlit("LT");
    reveal_strlit("GTE");
    reveal_strlit("LTE");
    reveal_strlit("eq");
    reveal_strlit("ne");
    reveal_strlit("like");
    reveal_strlit("gt");
    reveal_strlit("lt");
    reveal_strlit("gte");
    reveal_strlit("lte");
    let n = operator_variant_name(op);
    assert(ascii_lower("EQ"@) =~= "eq"@);
    assert(ascii_lower("NE"@) =~= "ne"@);
    assert(ascii_lower("LIKE"@) =~= "like"@);
    assert(ascii_lower("GT"@) =~= "gt"@);
    assert(ascii_lower("LT"@) =~= "lt"@);
    assert(ascii_lower("GTE"@) =~= "gte"@);
    assert(ascii_lower("LTE"@) =~= "lte"@);
    assert("eq"@.len() == 2 && "ne"@.len() == 2 && "gt"@.len() == 2 && "lt"@.len() == 2);
    assert("like"@.len() == 4 && "gte"@.len() == 3 && "lte"@.len() == 3);
    assert("ne"@[0] != "eq"@[0]);
    assert("gt"@[0] != "eq"@[0] && "gt"@[0] != "ne"@[0]);
    assert("lt"@[0] != "eq"@[0] && "lt"@[0] != "ne"@[0] && "lt"@[0] != "gt"@[0]);
    assert("gte"@[0] != "lte"@[0]);
}

/// A parameter kind written under its variant name reads back as that kind.
pub proof fn lemma_param_kind_name_reads_back(k: QueryParamKind)
    ensures
        all_ascii(param_kind_variant_name(k)),
        param_kind_named(ascii_lower(param_kind_variant_name(k))) == Some(k),
{
    reveal_strlit("Number");
    reveal_strlit("String");
    reveal_strlit("number");
    reveal_strlit("string");
    assert(ascii_lower("Number"@) =~= "number"@);
    assert(ascii_lower("String"@) =~= "string"@);
    assert("number"@[0] != "string"@[0]);
}

} // verus!
