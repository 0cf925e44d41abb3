//! The aggregation clause of a search request, assembled from the
//! aggregations the user configured.

use vstd::prelude::*;
use vstd::string::*;
use crate::json::{json_get, lemma_members_push, members_of, push_member, same_text, Json, JsonView};

verus! {

/// One configured aggregation, with optional parameters and nested
/// aggregations.
#[derive(Debug)]
pub struct AggregationConfig {
    pub id: String,
    pub name: String,
    /// `terms`, `date_histogram`, `histogram`, `range`, `avg`, `sum`, `max`,
    /// `min`, `count` or `cardinality`.
    pub agg_type: String,
    pub field: String,
    pub params: Option<Json>,
    pub sub_aggregations: Option<Vec<AggregationConfig>>,
}

/// A parameter, if given.
pub open spec fn param(params: Option<Json>, key: Seq<char>) -> Option<JsonView> {
    match params {
        Some(p) => match json_get(p, key) {
            Some(v) => Some(v@),
            None => None,
        },
        None => None,
    }
}

/// The members with `key` added when a value is given.
pub open spec fn with_opt(
    members: Seq<(Seq<char>, JsonView)>,
    key: Seq<char>,
    v: Option<JsonView>,
) -> Seq<(Seq<char>, JsonView)> {
    match v {
        Some(x) => members.push((key, x)),
        None => members,
    }
}

/// The interval of a date histogram: a calendar interval, else a fixed one,
/// else one calendar day.
pub open spec fn date_interval(params: Option<Json>) -> (Seq<char>, JsonView) {
    match param(params, "calendar_interval"@) {
        Some(v) => ("calendar_interval"@, v),
        None => match param(params, "fixed_interval"@) {
            Some(v) => ("fixed_interval"@, v),
            None => ("calendar_interval"@, JsonView::Str("1d"@)),
        },
    }
}

/// Whether the type is a metric computed over one field.
pub open spec fn is_metric(t: Seq<char>) -> bool {
    t == "avg"@ || t == "sum"@ || t == "max"@ || t == "min"@ || t == "cardinality"@
}

/// The aggregation's own clause, `(kind, body)`, or nothing for an unknown type.
pub open spec fn kind_clause(agg: AggregationConfig) -> Option<(Seq<char>, JsonView)> {
    let t = agg.agg_type@;
    let p = agg.params;
    let base = seq![("field"@, JsonView::Str(agg.field@))];
    if t == "terms"@ {
        Some(
            (
                "terms"@,
                JsonView::Object(
                    with_opt(
                        with_opt(with_opt(base, "size"@, param(p, "size"@)), "order"@, param(p, "order"@)),
                        "min_doc_count"@,
                        param(p, "min_doc_count"@),
                    ),
                ),
            ),
        )
    } else if t == "date_histogram"@ {
        Some(
            (
                "date_histogram"@,
                JsonView::Object(
                    with_opt(
                        with_opt(base.push(date_interval(p)), "time_zone"@, param(p, "time_zone"@)),
                        "min_doc_count"@,
                        param(p, "min_doc_count"@),
                    ),
                ),
            ),
        )
    } else if t == "histogram"@ {
        let interval = match param(p, "interval"@) {
            Some(v) => v,
            None => JsonView::Number("1"@),
        };
        Some(
            (
                "histogram"@,
                JsonView::Object(with_opt(base.push(("interval"@, interval)), "min_doc_count"@, param(p, "min_doc_count"@))),
            ),
        )
    } else if t == "range"@ {
        Some(("range"@, JsonView::Object(with_opt(base, "ranges"@, param(p, "ranges"@)))))
    } else if is_metric(t) {
        Some((t, JsonView::Object(base)))
    } else if t == "count"@ {
        Some(("value_count"@, JsonView::Object(base)))
    } else {
        None
    }
}

/// The clause of one aggregation, with its nested aggregations under `aggs`,
/// or the message naming the first unknown type.
pub open spec fn aggregation_view(agg: AggregationConfig) -> Result<JsonView, Seq<char>>
    decreases agg,
{
    match kind_clause(agg) {
        None => Err("Unsupported aggregation type: "@ + agg.agg_type@),
        Some(kc) => match agg.sub_aggregations {
            Some(subs) => if subs@.len() > 0 {
                match aggregations_members(subs@) {
                    Ok(ms) => Ok(JsonView::Object(seq![kc, ("aggs"@, JsonView::Object(ms))])),
                    Err(e) => Err(e),
                }
            } else {
                Ok(JsonView::Object(seq![kc]))
            },
            None => Ok(JsonView::Object(seq![kc])),
        },
    }
}

/// The members `name: clause` of a list of aggregations, in order.
pub open spec fn aggregations_members(aggs: Seq<AggregationConfig>) -> Result<Seq<(Seq<char>, JsonView)>, Seq<char>>
    decreases aggs,
{
    if aggs.len() == 0 {
        Ok(Seq::empty())
    } else {
        match aggregations_members(aggs.subrange(0, aggs.len() - 1)) {
            Err(e) => Err(e),
            Ok(ms) => match aggregation_view(aggs[aggs.len() - 1]) {
                Err(e) => Err(e),
                Ok(v) => Ok(ms.push((aggs[aggs.len() - 1].name@, v))),
            },
        }
    }
}

/// A member `key` of the parameters, copied onto the members.
fn push_param(members: &mut Vec<(String, Json)>, params: &Option<Json>, key: &str)
    ensures
        members_of(final(members)@) == with_opt(members_of(old(members)@), key@, param(*params, key@)),
{
    match params {
        Some(p) => match p.get(key) {
            Some(v) => {
                let m = (String::from_str(key), v.copy());
                proof {
                    lemma_members_push(members@, m);
                }
                members.push(m);
            },
            None => {},
        },
        None => {},
    }
}

/// The clause of one aggregation; an unknown type is refused.
pub fn build_single_aggregation(agg: &AggregationConfig) -> (r: Result<Json, String>)
    ensures
        match r {
            Ok(j) => aggregation_view(*agg) == Ok::<JsonView, Seq<char>>(j@),
            Err(e) => aggregation_view(*agg) == Err::<JsonView, Seq<char>>(e@),
        },
    decreases agg,
{
    let t = agg.agg_type.as_str();
    let p = &agg.params;
    let mut body: Vec<(String, Json)> = Vec::new();
    proof {
        assert(members_of(body@) =~= Seq::<(Seq<char>, JsonView)>::empty());
    }
    push_member(&mut body, String::from_str("field"), Json::Str(agg.field.clone()));
    let ghost base = members_of(body@);
    assert(base =~= seq![("field"@, JsonView::Str(agg.field@))]);
    let kind: String = if same_text(t, "terms") {
        push_param(&mut body, p, "size");
        push_param(&mut body, p, "order");
        push_param(&mut body, p, "min_doc_count");
        String::from_str("terms")
    } else if same_text(t, "date_histogram") {
        let calendar = match p {
            Some(q) => q.get("calendar_interval"),
            None => None,
        };
        let fixed = match p {
            Some(q) => q.get("fixed_interval"),
            None => None,
        };
        match calendar {
            Some(v) => push_member(&mut body, String::from_str("calendar_interval"), v.copy()),
            None => match fixed {
                Some(v) => push_member(&mut body, String::from_str("fixed_interval"), v.copy()),
                None => push_member(&mut body, String::from_str("calendar_interval"), Json::Str(String::from_str("1d"))),
            },
        }
        push_param(&mut body, p, "time_zone");
        push_param(&mut body, p, "min_doc_count");
        String::from_str("date_histogram")
    } else if same_text(t, "histogram") {
        let interval = match p {
            Some(q) => q.get("interval"),
            None => None,
        };
        match interval {
            Some(v) => push_member(&mut body, String::from_str("interval"), v.copy()),
            None => push_member(&mut body, String::from_str("interval"), Json::Number(String::from_str("1"))),
        }
        push_param(&mut body, p, "min_doc_count");
        String::from_str("histogram")
    } else if same_text(t, "range") {
        push_param(&mut body, p, "ranges");
        String::from_str("range")
    } else if same_text(t, "avg") || same_text(t, "sum") || same_text(t, "max") || same_text(t, "min") || same_text(t, "cardinality") {
        String::from_str(t)
    } else if same_text(t, "count") {
        String::from_str("value_count")
    } else {
        return Err(String::from_str("Unsupported aggregation type: ").concat(t));
    };
    assert(kind_clause(*agg) == Some((kind@, JsonView::Object(members_of(body@)))));
    let mut def: Vec<(String, Json)> = Vec::new();
    proof {
        assert(members_of(def@) =~= Seq::<(Seq<char>, JsonView)>::empty());
    }
    push_member(&mut def, kind, Json::Object(body));
    match &agg.sub_aggregations {
        Some(subs) => {
            if subs.len() > 0 {
                proof {
                    assert(decreases_to!(*agg => agg.sub_aggregations));
                    assert(decreases_to!(agg.sub_aggregations => agg.sub_aggregations->Some_0));
                }
                match build_aggregations(subs) {
                    Ok(sub_json) => {
                        push_member(&mut def, String::from_str("aggs"), sub_json);
                    },
                    Err(e) => {
                        return Err(e);
                    },
                }
            }
        },
        None => {},
    }
    proof {
        let expected = match aggregation_view(*agg) {
            Ok(JsonView::Object(ms)) => ms,
            _ => Seq::empty(),
        };
        assert(members_of(def@) =~= expected);
    }
    Ok(Json::Object(def))
}

/// The object `{name: clause, ...}` of a list of aggregations.
pub fn build_aggregations(aggregations: &Vec<AggregationConfig>) -> (r: Result<Json, String>)
    ensures
        match r {
            Ok(j) => aggregations_members(aggregations@) matches Ok(ms) && j@ == JsonView::Object(ms),
            Err(e) => aggregations_members(aggregations@) == Err::<Seq<(Seq<char>, JsonView)>, Seq<char>>(e@),
        },
    decreases aggregations,
{
    let mut members: Vec<(String, Json)> = Vec::new();
    let mut i: usize = 0;
    proof {
        assert(members_of(members@) =~= Seq::<(Seq<char>, JsonView)>::empty());
        assert(aggregations@.subrange(0, 0) =~= Seq::<AggregationConfig>::empty());
    }
    while i < aggregations.len()
        invariant
            i <= aggregations@.len(),
            aggregations_members(aggregations@.subrange(0, i as int)) == Ok::<
                Seq<(Seq<char>, JsonView)>,
                Seq<char>,
            >(members_of(members@)),
        decreases aggregations@.len() - i,
    {
        proof {
            assert(decreases_to!(*aggregations => aggregations@));
            assert(decreases_to!(aggregations@ => aggregations@[i as int]));
            let s = aggregations@.subrange(0, i + 1);
            assert(s.subrange(0, s.len() - 1) =~= aggregations@.subrange(0, i as int));
            assert(s[s.len() - 1] == aggregations@[i as int]);
        }
        let agg = &aggregations[i];
        match build_single_aggregation(agg) {
            Ok(v) => {
                push_member(&mut members, agg.name.clone(), v);
            },
            Err(e) => {
                proof {
                    lemma_members_failure_persists(aggregations@, i + 1, e@);
                }
                return Err(e);
            },
        }
        i = i + 1;
    }
    assert(aggregations@.subrange(0, i as int) =~= aggregations@);
    Ok(Json::Object(members))
}

proof fn lemma_members_failure_persists(aggs: Seq<AggregationConfig>, k: int, e: Seq<char>)
    requires
        0 <= k <= aggs.len(),
        aggregations_members(aggs.subrange(0, k)) == Err::<Seq<(Seq<char>, JsonView)>, Seq<char>>(e),
    ensures
        aggregations_members(aggs) == Err::<Seq<(Seq<char>, JsonView)>, Seq<char>>(e),
    decreases aggs.len() - k,
{
    if k == aggs.len() {
        assert(aggs.subrange(0, k) =~= aggs);
    } else {
        let s = aggs.subrange(0, k + 1);
        assert(s.subrange(0, s.len() - 1) =~= aggs.subrange(0, k));
        lemma_members_failure_persists(aggs, k + 1, e);
    }
}

} // verus!
