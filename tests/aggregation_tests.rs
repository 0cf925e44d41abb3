use es_client::aggregation::{build_aggregations, build_single_aggregation, AggregationConfig};
use es_client::json::Json;

fn s(t: &str) -> String {
    t.to_string()
}

fn agg(name: &str, kind: &str, field: &str, params: Option<Json>, subs: Option<Vec<AggregationConfig>>) -> AggregationConfig {
    AggregationConfig { id: s(name), name: s(name), agg_type: s(kind), field: s(field), params, sub_aggregations: subs }
}

fn text_of(j: &Json) -> String {
    match j {
        Json::Null => s("null"),
        Json::Bool(b) => b.to_string(),
        Json::Number(t) => t.clone(),
        Json::Str(x) => format!("{:?}", x),
        Json::Array(a) => format!("[{}]", a.iter().map(text_of).collect::<Vec<_>>().join(",")),
        Json::Object(m) => {
            let mut parts: Vec<(String, String)> = m.iter().map(|(k, v)| (k.clone(), text_of(v))).collect();
            parts.sort();
            format!("{{{}}}", parts.into_iter().map(|(k, v)| format!("{:?}:{}", k, v)).collect::<Vec<_>>().join(","))
        }
    }
}

#[test]
fn terms_with_params_and_nested_metric() {
    let params = Json::Object(vec![(s("size"), Json::Number(s("5"))), (s("ignored"), Json::Bool(true))]);
    let config = vec![agg("by_city", "terms", "city", Some(params), Some(vec![agg("avg_age", "avg", "age", None, None)]))];
    let built = build_aggregations(&config).unwrap();
    assert_eq!(
        text_of(&built),
        r#"{"by_city":{"aggs":{"avg_age":{"avg":{"field":"age"}}},"terms":{"field":"city","size":5}}}"#
    );
}

#[test]
fn date_histogram_defaults_to_one_day() {
    let built = build_single_aggregation(&agg("per_day", "date_histogram", "ts", None, None)).unwrap();
    assert_eq!(text_of(&built), r#"{"date_histogram":{"calendar_interval":"1d","field":"ts"}}"#);
    let fixed = Json::Object(vec![(s("fixed_interval"), Json::Str(s("1h")))]);
    let built = build_single_aggregation(&agg("per_hour", "date_histogram", "ts", Some(fixed), None)).unwrap();
    assert_eq!(text_of(&built), r#"{"date_histogram":{"field":"ts","fixed_interval":"1h"}}"#);
}

#[test]
fn histogram_count_and_empty_subs() {
    let built = build_single_aggregation(&agg("h", "histogram", "n", None, Some(vec![]))).unwrap();
    assert_eq!(text_of(&built), r#"{"histogram":{"field":"n","interval":1}}"#);
    let built = build_single_aggregation(&agg("c", "count", "n", None, None)).unwrap();
    assert_eq!(text_of(&built), r#"{"value_count":{"field":"n"}}"#);
}

#[test]
fn unknown_type_is_refused_even_nested() {
    assert_eq!(
        build_single_aggregation(&agg("x", "median", "n", None, None)).unwrap_err(),
        "Unsupported aggregation type: median"
    );
    let config = vec![agg("ok", "sum", "n", None, Some(vec![agg("bad", "mode", "n", None, None)]))];
    assert_eq!(build_aggregations(&config).unwrap_err(), "Unsupported aggregation type: mode");
}
