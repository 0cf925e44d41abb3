//! Search requests and the reading of their answers.

use vstd::prelude::*;
use vstd::string::*;
use crate::codec::{signed_decimal, signed_text};
use crate::json::{copy_items, json_get, members_of, push_member, views_of, Json, JsonView};
use crate::requests::{u64_member, u64_of, with_opt};

verus! {

/// A search: the index, the query clause, paging and sorting.
#[derive(Debug, Clone)]
pub struct SearchQuery {
    pub index: String,
    pub query: Json,
    pub from: Option<i32>,
    pub size: Option<i32>,
    pub sort: Option<Vec<Json>>,
}

/// The answer to a search.
#[derive(Debug, Clone)]
pub struct SearchResult {
    pub total: u64,
    pub hits: Vec<Json>,
    pub took: u64,
    pub timed_out: bool,
    pub aggregations: Option<Json>,
}

/// An optional integer as a JSON number.
pub open spec fn opt_int(o: Option<i32>) -> Option<JsonView> {
    match o {
        Some(n) => Some(JsonView::Number(signed_decimal(n as int))),
        None => None,
    }
}

/// The body of a search request: the query, then paging and sorting where
/// given.
pub open spec fn search_body_view(q: SearchQuery) -> JsonView {
    JsonView::Object(
        with_opt(
            with_opt(with_opt(seq![("query"@, q.query@)], "from"@, opt_int(q.from)), "size"@, opt_int(q.size)),
            "sort"@,
            match q.sort {
                Some(s) => Some(JsonView::Array(views_of(s@))),
                None => None,
            },
        ),
    )
}

fn push_int(members: &mut Vec<(String, Json)>, key: &str, v: Option<i32>)
    ensures
        members_of(final(members)@) == with_opt(members_of(old(members)@), key@, opt_int(v)),
{
    match v {
        Some(n) => push_member(members, String::from_str(key), Json::Number(signed_text(n as i64))),
        None => {},
    }
}

/// The body of a search request.
pub fn search_body(q: &SearchQuery) -> (r: Json)
    ensures
        r@ == search_body_view(*q),
{
    let mut members: Vec<(String, Json)> = Vec::new();
    proof {
        assert(members_of(members@) =~= Seq::<(Seq<char>, JsonView)>::empty());
    }
    push_member(&mut members, String::from_str("query"), q.query.copy());
    push_int(&mut members, "from", q.from);
    push_int(&mut members, "size", q.size);
    match &q.sort {
        Some(s) => {
            let copied = Json::Array(copy_items(s));
            push_member(&mut members, String::from_str("sort"), copied);
        },
        None => {},
    }
    let r = Json::Object(members);
    proof {
        let expected = match search_body_view(*q) {
            JsonView::Object(ms) => ms,
            _ => Seq::empty(),
        };
        assert(members_of(r->Object_0@) =~= expected);
    }
    r
}

/// The total of a search answer: `hits.total`, or its `value` where the
/// cluster reports it as an object.
pub open spec fn total_of(response: Json) -> nat {
    match json_get(response, "hits"@) {
        Some(h) => match json_get(h, "total"@) {
            Some(t) => match t {
                Json::Object(_) => match u64_member(t, "value"@) {
                    Some(v) => v,
                    None => 0,
                },
                _ => match u64_member(h, "total"@) {
                    Some(v) => v,
                    None => 0,
                },
            },
            None => 0,
        },
        None => 0,
    }
}

/// The hits of a search answer, or none.
pub open spec fn hits_of(response: Json) -> Seq<Json> {
    match json_get(response, "hits"@) {
        Some(h) => match json_get(h, "hits"@) {
            Some(Json::Array(items)) => items@,
            _ => Seq::empty(),
        },
        None => Seq::empty(),
    }
}

/// A boolean member, or `false`.
pub open spec fn flag(j: Json, key: Seq<char>) -> bool {
    match json_get(j, key) {
        Some(Json::Bool(b)) => b,
        _ => false,
    }
}

/// Reads a search answer; missing parts read as zero, empty or false.
pub fn search_result(response: &Json) -> (r: SearchResult)
    ensures
        r.total as nat == total_of(*response),
        views_of(r.hits@) == views_of(hits_of(*response)),
        r.took as nat == match u64_member(*response, "took"@) {
            Some(v) => v,
            None => 0,
        },
        r.timed_out == flag(*response, "timed_out"@),
        match json_get(*response, "aggregations"@) {
            Some(a) => r.aggregations matches Some(b) && b@ == a@,
            None => r.aggregations is None,
        },
{
    let mut total: u64 = 0;
    let mut hits: Vec<Json> = Vec::new();
    match response.get("hits") {
        Some(h) => {
            match h.get("total") {
                Some(t) => {
                    let v = match t {
                        Json::Object(_) => u64_of(t, "value"),
                        _ => u64_of(h, "total"),
                    };
                    total = match v {
                        Some(n) => n,
                        None => 0,
                    };
                },
                None => {},
            }
            match h.get("hits") {
                Some(Json::Array(items)) => {
                    hits = copy_items(items);
                },
                _ => {},
            }
        },
        None => {},
    }
    proof {
        if hits_of(*response).len() == 0 {
            assert(views_of(hits@) =~= views_of(hits_of(*response)));
        }
    }
    SearchResult {
        total,
        hits,
        took: match u64_of(response, "took") {
            Some(n) => n,
            None => 0,
        },
        timed_out: match response.get("timed_out") {
            Some(Json::Bool(b)) => *b,
            _ => false,
        },
        aggregations: match response.get("aggregations") {
            Some(a) => Some(a.copy()),
            None => None,
        },
    }
}

} // verus!
