use vstd::prelude::*;
use crate::conf::{Operator, QueryFilter, QueryFilterView, QueryParamKind, filter_views};
use crate::query::{QueryParams, RequestError};
use crate::text::{
    debug_text, debug_string, lemma_i64_decimal_reads_back, parse_i64, parsed_i64, plain_ascii,
    signed_decimal,
};

verus! {

/// A value that a document field is compared with.
#[derive(Clone, Debug, PartialEq, Eq)]
pub enum FilterValue {
    Int(i64),
    Text(String),
}

/// What a document field must satisfy.
#[derive(Clone, Debug, PartialEq, Eq)]
pub enum Condition {
    /// The field equals the value.
    Equal(FilterValue),
    /// The field differs from the value (`$ne`).
    NotEqual(FilterValue),
    /// The field matches a regular expression with the given options.
    Matches { pattern: String, options: String },
    /// The field is greater than the number (`$gt`).
    Greater(i64),
    /// The field is less than the number (`$lt`).
    Less(i64),
    /// The field is at least the number (`$gte`).
    GreaterOrEqual(i64),
    /// The field is at most the number (`$lte`).
    LessOrEqual(i64),
}

/// A filter value as a value.
pub enum FilterValueView {
    Int(i64),
    Text(Seq<char>),
}

/// A condition as a value.
pub enum ConditionView {
    Equal(FilterValueView),
    NotEqual(FilterValueView),
    Matches { pattern: Seq<char>, options: Seq<char> },
    Greater(i64),
    Less(i64),
    GreaterOrEqual(i64),
    LessOrEqual(i64),
}

impl View for FilterValue {
    type V = FilterValueView;

    open spec fn view(&self) -> FilterValueView {
        match self {
            FilterValue::Int(v) => FilterValueView::Int(*v),
            FilterValue::Text(t) => FilterValueView::Text(t@),
        }
    }
}

impl View for Condition {
    type V = ConditionView;

    open spec fn view(&self) -> ConditionView {
        match self {
            Condition::Equal(v) => ConditionView::Equal(v@),
            Condition::NotEqual(v) => ConditionView::NotEqual(v@),
            Condition::Matches { pattern, options } => ConditionView::Matches {
                pattern: pattern@,
                options: options@,
            },
            Condition::Greater(v) => ConditionView::Greater(*v),
            Condition::Less(v) => ConditionView::Less(*v),
            Condition::GreaterOrEqual(v) => ConditionView::GreaterOrEqual(*v),
            Condition::LessOrEqual(v) => ConditionView::LessOrEqual(*v),
        }
    }
}

/// The value of a parameter as its kind reads it: a number must be an `i64`
/// literal, text is taken as it is.
pub open spec fn value_of(kind: QueryParamKind, pv: Seq<char>) -> Option<FilterValueView> {
    match kind {
        QueryParamKind::Number => match parsed_i64(pv) {
            Some(v) => Some(FilterValueView::Int(v)),
            None => None,
        },
        QueryParamKind::String => Some(FilterValueView::Text(pv)),
    }
}

/// An `i64` literal as a value, if it is one.
pub open spec fn number_of(pv: Seq<char>) -> Option<i64> {
    parsed_i64(pv)
}

/// The condition that a filter rule puts on its field when the query gives
/// it the value `pv`. `eq` and `ne` read the value by the rule's kind; `like`
/// matches, case-insensitively, any text that holds the value's debug form
/// (quotes included); the ordering operators read the value as a number
/// whatever the kind. `None` when a number is needed and `pv` is not one.
pub open spec fn condition_for(q: QueryFilterView, pv: Seq<char>) -> Option<ConditionView> {
    match q.operator {
        Operator::EQ => match value_of(q.value_type, pv) {
            Some(v) => Some(ConditionView::Equal(v)),
            None => None,
        },
        Operator::NE => match value_of(q.value_type, pv) {
            Some(v) => Some(ConditionView::NotEqual(v)),
            None => None,
        },
        Operator::LIKE => Some(
            ConditionView::Matches { pattern: ".*"@ + debug_text(pv) + ".*"@, options: "i"@ },
        ),
        Operator::GT => match number_of(pv) {
            Some(v) => Some(ConditionView::Greater(v)),
            None => None,
        },
        Operator::LT => match number_of(pv) {
            Some(v) => Some(ConditionView::Less(v)),
            None => None,
        },
        Operator::GTE => match number_of(pv) {
            Some(v) => Some(ConditionView::GreaterOrEqual(v)),
            None => None,
        },
        Operator::LTE => match number_of(pv) {
            Some(v) => Some(ConditionView::LessOrEqual(v)),
            None => None,
        },
    }
}

/// Whether some entry of `es` is for field `k`.
pub open spec fn has_field(es: Seq<(Seq<char>, ConditionView)>, k: Seq<char>) -> bool {
    exists|i: int| 0 <= i < es.len() && #[trigger] es[i].0 == k
}

/// The place of field `k`'s entry in `es`, where it has one.
pub open spec fn field_index(es: Seq<(Seq<char>, ConditionView)>, k: Seq<char>) -> int
    recommends
        has_field(es, k),
{
    choose|i: int| 0 <= i < es.len() && #[trigger] es[i].0 == k
}

/// The entries after setting field `k` to condition `c`: an entry for `k`
/// keeps its place and takes the new condition, otherwise the entry is added
/// at the end.
pub open spec fn set_field(es: Seq<(Seq<char>, ConditionView)>, k: Seq<char>, c: ConditionView) -> Seq<(Seq<char>, ConditionView)> {
    if has_field(es, k) {
        es.update(field_index(es, k), (k, c))
    } else {
        es.push((k, c))
    }
}

/// The filter that a route's rules build from a query's parameters, rule by
/// rule in order: a rule whose parameter the query gives sets the condition
/// of its field; a rule whose parameter is absent adds nothing. `None` when a
/// rule needs a number and its parameter is not one.
pub open spec fn filter_of(qs: Seq<QueryFilterView>, m: Map<Seq<char>, Seq<char>>) -> Option<Seq<(Seq<char>, ConditionView)>>
    decreases qs.len(),
{
    if qs.len() == 0 {
        Some(Seq::empty())
    } else {
        match filter_of(qs.drop_last(), m) {
            None => None,
            Some(es) => {
                let q = qs.last();
                if m.contains_key(q.name) {
                    match condition_for(q, m[q.name]) {
                        Some(c) => Some(set_field(es, q.name, c)),
                        None => None,
                    }
                } else {
                    Some(es)
                }
            },
        }
    }
}

/// The field names of the entries.
pub open spec fn field_names(es: Seq<(Seq<char>, ConditionView)>) -> Seq<Seq<char>> {
    es.map_values(|e: (Seq<char>, ConditionView)| e.0)
}

/// A document filter: conditions by field name, in the order in which the
/// fields were first set, each field at most once.
pub struct Filter {
    entries: Vec<(String, Condition)>,
}

/// The views of filter entries.
pub open spec fn entry_views(v: Seq<(String, Condition)>) -> Seq<(Seq<char>, ConditionView)> {
    v.map_values(|e: (String, Condition)| (e.0@, e.1@))
}

impl View for Filter {
    type V = Seq<(Seq<char>, ConditionView)>;

    closed spec fn view(&self) -> Seq<(Seq<char>, ConditionView)> {
        entry_views(self.entries@)
    }
}

impl Filter {
    #[verifier::type_invariant]
    spec fn well_formed(&self) -> bool {
        field_names(self@).no_duplicates()
    }

    /// The empty filter, which every document passes.
    pub fn new() -> (r: Filter)
        ensures
            r@ == Seq::<(Seq<char>, ConditionView)>::empty(),
    {
        let r = Filter { entries: Vec::new() };
        assert(r@ =~= Seq::<(Seq<char>, ConditionView)>::empty());
        assert(field_names(r@) =~= Seq::<Seq<char>>::empty());
        r
    }

    /// Sets the condition of field `k`, as inserting into a document does.
    pub fn set(&mut self, k: String, c: Condition)
        ensures
            final(self)@ == set_field(old(self)@, k@, c@),
    {
        proof {
            use_type_invariant(&*self);
        }
        let ghost es = self@;
        let n = self.entries.len();
        let mut i: usize = 0;
        while i < n
            invariant
                n == self.entries@.len(),
                es == entry_views(self.entries@),
                es == old(self)@,
                field_names(es).no_duplicates(),
                i <= n,
                forall|j: int| 0 <= j < i ==> es[j].0 != k@,
            decreases n - i,
        {
            if self.entries[i].0 == k {
                proof {
                    assert(es[i as int].0 == k@);
                    assert(has_field(es, k@));
                    let w = field_index(es, k@);
                    assert(field_names(es)[w] == field_names(es)[i as int]);
                    assert(w == i);
                }
                let ghost kv = k@;
                let ghost cv = c@;
                let mut entries: Vec<(String, Condition)> = Vec::new();
                std::mem::swap(&mut entries, &mut self.entries);
                entries.set(i, (k, c));
                assert(entry_views(entries@) =~= es.update(i as int, (kv, cv)));
                assert(field_names(entry_views(entries@)) =~= field_names(es));
                self.entries = entries;
                assert(self@ == es.update(i as int, (kv, cv)));
                assert(set_field(es, kv, cv) == es.update(i as int, (kv, cv)));
                return;
            }
            i = i + 1;
        }
        assert(!has_field(es, k@));
        let ghost kv = k@;
        let ghost cv = c@;
        let mut entries: Vec<(String, Condition)> = Vec::new();
        std::mem::swap(&mut entries, &mut self.entries);
        entries.push((k, c));
        assert(entry_views(entries@) =~= es.push((kv, cv)));
        proof {
            let names = field_names(entry_views(entries@));
            assert(names =~= field_names(es).push(kv));
            assert forall|a: int, b: int| 0 <= a < b < names.len() implies names[a] != names[b] by {
                if b == names.len() - 1 {
                    assert(es[a].0 != kv);
                }
            }
        }
        self.entries = entries;
    }

    /// The conditions, by field, in order.
    pub fn entries(&self) -> (r: &Vec<(String, Condition)>)
        ensures
            entry_views(r@) == self@,
    {
        &self.entries
    }
}

/// Reads a query value that a rule compares as a number; the value must be
/// an `i64` literal (an optional sign, then decimal digits).
pub fn parse_num(s: &str) -> (r: i64)
    requires
        parsed_i64(s@) is Some,
    ensures
        parsed_i64(s@) == Some(r),
{
    parse_i64(s).unwrap()
}

fn read_value(kind: QueryParamKind, pv: &str) -> (r: Option<FilterValue>)
    ensures
        match r {
            Some(v) => value_of(kind, pv@) == Some(v@),
            None => value_of(kind, pv@) is None,
        },
{
    match kind {
        QueryParamKind::Number => match parse_i64(pv) {
            Some(v) => Some(FilterValue::Int(v)),
            None => None,
        },
        QueryParamKind::String => Some(FilterValue::Text(String::from_str(pv))),
    }
}

/// The case-insensitive match of any text that holds `quoted`.
pub fn like_condition(quoted: &str) -> (r: Condition)
    ensures
        r@ == (ConditionView::Matches { pattern: ".*"@ + quoted@ + ".*"@, options: "i"@ }),
{
    let mut pattern = String::from_str(".*");
    pattern.append(quoted);
    pattern.append(".*");
    Condition::Matches { pattern, options: String::from_str("i") }
}

/// The condition that rule `q` puts on its field for the query value `pv`.
pub fn condition(q: &QueryFilter, pv: &str) -> (r: Option<Condition>)
    ensures
        match r {
            Some(c) => condition_for(q@, pv@) == Some(c@),
            None => condition_for(q@, pv@) is None,
        },
        q.operator == Operator::LIKE && plain_ascii(pv@) ==> (r matches Some(
            Condition::Matches { pattern, .. },
        ) && pattern@ == ".*\""@ + pv@ + "\".*"@),
{
    match q.operator {
        Operator::EQ => match read_value(q.value_type, pv) {
            Some(v) => Some(Condition::Equal(v)),
            None => None,
        },
        Operator::NE => match read_value(q.value_type, pv) {
            Some(v) => Some(Condition::NotEqual(v)),
            None => None,
        },
        Operator::LIKE => {
            let d = debug_string(pv);
            proof {
                reveal_strlit(".*");
                reveal_strlit(".*\"");
                reveal_strlit("\".*");
                if plain_ascii(pv@) {
                    assert(".*"@ + d@ + ".*"@ =~= ".*\""@ + pv@ + "\".*"@);
                }
            }
            Some(like_condition(d.as_str()))
        },
        Operator::GT => match parse_i64(pv) {
            Some(v) => Some(Condition::Greater(v)),
            None => None,
        },
        Operator::LT => match parse_i64(pv) {
            Some(v) => Some(Condition::Less(v)),
            None => None,
        },
        Operator::GTE => match parse_i64(pv) {
            Some(v) => Some(Condition::GreaterOrEqual(v)),
            None => None,
        },
        Operator::LTE => match parse_i64(pv) {
            Some(v) => Some(Condition::LessOrEqual(v)),
            None => None,
        },
    }
}

proof fn lemma_filter_none_persists(qs: Seq<QueryFilterView>, m: Map<Seq<char>, Seq<char>>, i: int)
    requires
        0 <= i <= qs.len(),
        filter_of(qs.take(i), m) is None,
    ensures
        filter_of(qs, m) is None,
    decreases qs.len() - i,
{
    if i < qs.len() {
        assert(qs.take(i + 1).drop_last() =~= qs.take(i));
        lemma_filter_none_persists(qs, m, i + 1);
    } else {
        assert(qs.take(i) =~= qs);
    }
}

/// Builds the document filter for a route's rules and a query's parameters.
/// Fails exactly when a rule needs a number and the query's value for it is
/// not an `i64` literal.
pub fn build_filter(filters: &Vec<QueryFilter>, query: &QueryParams) -> (r: Result<Filter, RequestError>)
    ensures
        match r {
            Ok(f) => filter_of(filter_views(filters@), query@) == Some(f@),
            Err(e) => filter_of(filter_views(filters@), query@) is None && e == RequestError::InvalidNumber,
        },
{
    let ghost qs = filter_views(filters@);
    let mut filter = Filter::new();
    let mut i: usize = 0;
    assert(qs.take(0) =~= Seq::<QueryFilterView>::empty());
    while i < filters.len()
        invariant
            i <= filters@.len(),
            qs == filter_views(filters@),
            filter_of(qs.take(i as int), query@) == Some(filter@),
        decreases filters@.len() - i,
    {
        proof {
            assert(qs.take(i as int + 1).drop_last() =~= qs.take(i as int));
            assert(qs.take(i as int + 1).last() == filters@[i as int]@);
        }
        let q = &filters[i];
        if let Some(pv) = query.get(q.name.as_str()) {
            match condition(q, pv.as_str()) {
                Some(c) => {
                    filter.set(q.name.clone(), c);
                },
                None => {
                    proof {
                        lemma_filter_none_persists(qs, query@, i as int + 1);
                    }
                    return Err(RequestError::InvalidNumber);
                },
            }
        }
        i = i + 1;
    }
    assert(qs.take(filters@.len() as int) =~= qs);
    Ok(filter)
}

} // verus!

verus! {

/// The condition of field `k` in `es`, where it has one.
pub open spec fn condition_of_field(es: Seq<(Seq<char>, ConditionView)>, k: Seq<char>) -> ConditionView
    recommends
        has_field(es, k),
{
    es[field_index(es, k)].1
}

proof fn lemma_set_field(es: Seq<(Seq<char>, ConditionView)>, k: Seq<char>, c: ConditionView)
    requires
        field_names(es).no_duplicates(),
    ensures
        field_names(set_field(es, k, c)).no_duplicates(),
        forall|x: Seq<char>| #[trigger] has_field(set_field(es, k, c), x) <==> (has_field(es, x) || x == k),
        condition_of_field(set_field(es, k, c), k) == c,
        forall|x: Seq<char>| x != k && has_field(es, x) ==> #[trigger] condition_of_field(set_field(es, k, c), x) == condition_of_field(es, x),
{
    let r = set_field(es, k, c);
    let names = field_names(es);
    if has_field(es, k) {
        let i = field_index(es, k);
        assert(field_names(r) =~= names);
        assert forall|x: Seq<char>| #[trigger] has_field(r, x) <==> (has_field(es, x) || x == k) by {
            if has_field(es, x) {
                let j = choose|j: int| 0 <= j < es.len() && #[trigger] es[j].0 == x;
                assert(r[j].0 == x);
            }
            if has_field(r, x) {
                let j = choose|j: int| 0 <= j < r.len() && #[trigger] r[j].0 == x;
                assert(es[j].0 == x);
            }
        }
        assert(r[i].0 == k);
        let w = field_index(r, k);
        assert(names[w] == names[i]);
        assert(w == i);
        assert(r[i].1 == c);
        assert(condition_of_field(r, k) == r[w].1);
        assert forall|x: Seq<char>| x != k && has_field(es, x) implies #[trigger] condition_of_field(r, x) == condition_of_field(es, x) by {
            let a = field_index(r, x);
            let b = field_index(es, x);
            assert(names[a] == names[b]);
        }
    } else {
        assert(field_names(r) =~= names.push(k));
        assert forall|a: int, b: int| 0 <= a < b < field_names(r).len() implies field_names(r)[a] != field_names(r)[b] by {
            if b == names.len() {
                assert(es[a].0 != k);
            }
        }
        assert forall|x: Seq<char>| #[trigger] has_field(r, x) <==> (has_field(es, x) || x == k) by {
            if has_field(es, x) {
                let j = choose|j: int| 0 <= j < es.len() && #[trigger] es[j].0 == x;
                assert(r[j].0 == x);
            }
            if x == k {
                assert(r[es.len() as int].0 == x);
            }
            if has_field(r, x) && x != k {
                let j = choose|j: int| 0 <= j < r.len() && #[trigger] r[j].0 == x;
                assert(es[j].0 == x);
            }
        }
        assert(r[es.len() as int].0 == k);
        let w = field_index(r, k);
        assert(field_names(r)[w] == field_names(r)[es.len() as int]);
        assert(w == es.len());
        assert(condition_of_field(r, k) == r[w].1);
        assert forall|x: Seq<char>| x != k && has_field(es, x) implies #[trigger] condition_of_field(r, x) == condition_of_field(es, x) by {
            let a = field_index(r, x);
            let b = field_index(es, x);
            assert(r[b].0 == x);
            assert(field_names(r)[a] == field_names(r)[b]);
        }
    }
}

/// A built filter sets each field at most once, and it sets exactly the
/// fields of the rules whose parameters the query gives.
pub proof fn lemma_filter_fields(qs: Seq<QueryFilterView>, m: Map<Seq<char>, Seq<char>>)
    requires
        filter_of(qs, m) is Some,
    ensures
        field_names(filter_of(qs, m)->0).no_duplicates(),
        forall|k: Seq<char>| #[trigger] has_field(filter_of(qs, m)->0, k) <==> (m.contains_key(k)
            && exists|i: int| 0 <= i < qs.len() && #[trigger] qs[i].name == k),
    decreases qs.len(),
{
    if qs.len() == 0 {
        assert(field_names(Seq::<(Seq<char>, ConditionView)>::empty()) =~= Seq::<Seq<char>>::empty());
    } else {
        let init = qs.drop_last();
        let q = qs.last();
        lemma_filter_fields(init, m);
        let es = filter_of(init, m)->0;
        if m.contains_key(q.name) {
            let c = condition_for(q, m[q.name])->0;
            lemma_set_field(es, q.name, c);
        }
        let r = filter_of(qs, m)->0;
        assert forall|k: Seq<char>| #[trigger] has_field(r, k) <==> (m.contains_key(k)
            && exists|i: int| 0 <= i < qs.len() && #[trigger] qs[i].name == k) by {
            if exists|i: int| 0 <= i < qs.len() && #[trigger] qs[i].name == k {
                let i = choose|i: int| 0 <= i < qs.len() && #[trigger] qs[i].name == k;
                if i < init.len() {
                    assert(init[i].name == k);
                }
            }
            if exists|i: int| 0 <= i < init.len() && #[trigger] init[i].name == k {
                let i = choose|i: int| 0 <= i < init.len() && #[trigger] init[i].name == k;
                assert(qs[i].name == k);
            }
            if k == q.name {
                assert(qs[qs.len() - 1].name == k);
            }
        }
    }
}

/// The condition that a built filter puts on a field is the one that the
/// last rule for that field gives with the query's value for it.
pub proof fn lemma_filter_last_rule_wins(qs: Seq<QueryFilterView>, m: Map<Seq<char>, Seq<char>>, i: int)
    requires
        filter_of(qs, m) is Some,
        0 <= i < qs.len(),
        m.contains_key(qs[i].name),
        forall|j: int| i < j < qs.len() ==> #[trigger] qs[j].name != qs[i].name,
    ensures
        condition_for(qs[i], m[qs[i].name]) is Some,
        has_field(filter_of(qs, m)->0, qs[i].name),
        condition_of_field(filter_of(qs, m)->0, qs[i].name) == condition_for(qs[i], m[qs[i].name])->0,
    decreases qs.len(),
{
    let init = qs.drop_last();
    let q = qs.last();
    let k = qs[i].name;
    assert(filter_of(init, m) is Some);
    lemma_filter_fields(init, m);
    let es = filter_of(init, m)->0;
    if i == qs.len() - 1 {
        lemma_set_field(es, k, condition_for(q, m[k])->0);
    } else {
        assert forall|j: int| i < j < init.len() implies #[trigger] init[j].name != init[i].name by {
            assert(qs[j].name != qs[i].name);
        }
        lemma_filter_last_rule_wins(init, m, i);
        assert(qs[qs.len() - 1].name != k);
        if m.contains_key(q.name) {
            lemma_set_field(es, q.name, condition_for(q, m[q.name])->0);
        }
    }
}

} // verus!

verus! {

/// A text rule compares its field with the query's value exactly as written:
/// `eq` asks for equality with that text and `ne` for a difference from it,
/// whatever the text looks like (digits included).
pub proof fn lemma_text_rules_compare_verbatim(q: QueryFilterView, pv: Seq<char>)
    requires
        q.value_type == QueryParamKind::String,
    ensures
        q.operator == Operator::EQ ==> condition_for(q, pv) == Some(
            ConditionView::Equal(FilterValueView::Text(pv)),
        ),
        q.operator == Operator::NE ==> condition_for(q, pv) == Some(
            ConditionView::NotEqual(FilterValueView::Text(pv)),
        ),
{
}

/// A number rule compares its field with the `i64` that the query's value
/// writes, and refuses a value that writes none.
pub proof fn lemma_number_rules(q: QueryFilterView, pv: Seq<char>)
    requires
        q.value_type == QueryParamKind::Number,
    ensures
        q.operator == Operator::EQ && parsed_i64(pv) is Some ==> condition_for(q, pv) == Some(
            ConditionView::Equal(FilterValueView::Int(parsed_i64(pv)->0)),
        ),
        q.operator == Operator::NE && parsed_i64(pv) is Some ==> condition_for(q, pv) == Some(
            ConditionView::NotEqual(FilterValueView::Int(parsed_i64(pv)->0)),
        ),
        (q.operator == Operator::EQ || q.operator == Operator::NE) && parsed_i64(pv) is None
            ==> condition_for(q, pv) is None,
{
}

/// The ordering operators read every `i64` literal, whatever the rule's
/// kind, and compare with its value; in particular the decimal text of any
/// `i64` is read back as that number.
pub proof fn lemma_ordering_reads_every_i64(q: QueryFilterView, pv: Seq<char>, v: i64)
    requires
        parsed_i64(pv) == Some(v) || pv == signed_decimal(v as int),
    ensures
        q.operator == Operator::GT ==> condition_for(q, pv) == Some(ConditionView::Greater(v)),
        q.operator == Operator::LT ==> condition_for(q, pv) == Some(ConditionView::Less(v)),
        q.operator == Operator::GTE ==> condition_for(q, pv) == Some(
            ConditionView::GreaterOrEqual(v),
        ),
        q.operator == Operator::LTE ==> condition_for(q, pv) == Some(ConditionView::LessOrEqual(v)),
{
    lemma_i64_decimal_reads_back(v);
}

/// In a built filter, a field whose last rule is a text `eq` rule is
/// compared with the query's value for it, as written.
pub proof fn lemma_filter_text_field_verbatim(qs: Seq<QueryFilterView>, m: Map<Seq<char>, Seq<char>>, i: int)
    requires
        filter_of(qs, m) is Some,
        0 <= i < qs.len(),
        qs[i].value_type == QueryParamKind::String,
        qs[i].operator == Operator::EQ,
        m.contains_key(qs[i].name),
        forall|j: int| i < j < qs.len() ==> #[trigger] qs[j].name != qs[i].name,
    ensures
        has_field(filter_of(qs, m)->0, qs[i].name),
        condition_of_field(filter_of(qs, m)->0, qs[i].name) == ConditionView::Equal(
            FilterValueView::Text(m[qs[i].name]),
        ),
{
    lemma_filter_last_rule_wins(qs, m, i);
    lemma_text_rules_compare_verbatim(qs[i], m[qs[i].name]);
}

} // verus!
