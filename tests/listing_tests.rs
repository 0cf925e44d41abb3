use es_client::catalog::{cluster_health_from, index_info_from_row, index_infos};
use es_client::codec::parse_unsigned_text;
use es_client::export::search_hits;
use es_client::json::Json;
use es_client::search::{search_body, search_result, SearchQuery};
use es_client::sql::sql_result;

fn s(t: &str) -> String {
    t.to_string()
}

fn obj(members: Vec<(&str, Json)>) -> Json {
    Json::Object(members.into_iter().map(|(k, v)| (s(k), v)).collect())
}

#[test]
fn listing_rows_become_index_infos() {
    let row = obj(vec![
        ("index", Json::Str(s("logs"))),
        ("health", Json::Str(s("green"))),
        ("pri", Json::Str(s("3"))),
        ("rep", Json::Str(s("x"))),
        ("docs.count", Json::Str(s("1200"))),
        ("store.size", Json::Str(s("4kb"))),
    ]);
    let info = index_info_from_row(&row);
    assert_eq!(info.name, "logs");
    assert_eq!(info.health, "green");
    assert_eq!(info.status, "");
    assert_eq!(info.primary_shards, 3);
    assert_eq!(info.replica_shards, 0);
    assert_eq!(info.docs_count, Some(1200));
    assert_eq!(info.docs_deleted, None);
    assert_eq!(info.store_size.as_deref(), Some("4kb"));
    let all = index_infos(&Json::Array(vec![row.clone(), obj(vec![])]));
    assert_eq!(all.len(), 2);
    assert_eq!(all[1].name, "");
    assert!(index_infos(&Json::Null).is_empty());
}

#[test]
fn unsigned_reading_matches_std() {
    for t in ["0", "+7", "-1", "", "+", "4294967295", "4294967296", "18446744073709551615", "18446744073709551616", "1 "] {
        assert_eq!(parse_unsigned_text(t, u32::MAX as u64), t.parse::<u32>().ok().map(|v| v as u64), "{}", t);
        assert_eq!(parse_unsigned_text(t, u64::MAX), t.parse::<u64>().ok(), "{}", t);
    }
}

#[test]
fn sql_answer_is_read() {
    let response = obj(vec![
        (
            "columns",
            Json::Array(vec![
                obj(vec![("name", Json::Str(s("city"))), ("type", Json::Str(s("keyword")))]),
                obj(vec![("name", Json::Str(s("broken")))]),
            ]),
        ),
        ("rows", Json::Array(vec![Json::Array(vec![Json::Str(s("Paris"))]), Json::Null])),
        ("cursor", Json::Str(s("abc"))),
    ]);
    let result = sql_result(&response);
    assert_eq!(result.columns.len(), 1);
    assert_eq!(result.columns[0].name, "city");
    assert_eq!(result.columns[0].column_type, "keyword");
    assert_eq!(result.rows, vec![vec![Json::Str(s("Paris"))]]);
    assert_eq!(result.cursor.as_deref(), Some("abc"));
    let empty = sql_result(&obj(vec![]));
    assert!(empty.columns.is_empty() && empty.rows.is_empty() && empty.cursor.is_none());
}

#[test]
fn search_hits_are_taken_from_the_response() {
    let hit = obj(vec![("_id", Json::Str(s("1")))]);
    let response = obj(vec![
        ("took", Json::Number(s("3"))),
        ("hits", obj(vec![("total", Json::Number(s("1"))), ("hits", Json::Array(vec![hit.clone()]))])),
    ]);
    assert_eq!(search_hits(response), vec![hit]);
    assert!(search_hits(obj(vec![("hits", obj(vec![]))])).is_empty());
}

#[test]
fn search_body_and_answer() {
    let q = SearchQuery {
        index: s("people"),
        query: obj(vec![("match_all", obj(vec![]))]),
        from: Some(-1),
        size: Some(10),
        sort: None,
    };
    assert_eq!(
        search_body(&q),
        obj(vec![
            ("query", obj(vec![("match_all", obj(vec![]))])),
            ("from", Json::Number(s("-1"))),
            ("size", Json::Number(s("10"))),
        ])
    );
    let hit = obj(vec![("_id", Json::Str(s("1")))]);
    let answer = obj(vec![
        ("took", Json::Number(s("4"))),
        ("timed_out", Json::Bool(true)),
        ("hits", obj(vec![("total", obj(vec![("value", Json::Number(s("12")))])), ("hits", Json::Array(vec![hit.clone()]))])),
        ("aggregations", obj(vec![("n", Json::Null)])),
    ]);
    let r = search_result(&answer);
    assert_eq!((r.total, r.took, r.timed_out), (12, 4, true));
    assert_eq!(r.hits, vec![hit]);
    assert_eq!(r.aggregations, Some(obj(vec![("n", Json::Null)])));
    let old_style = obj(vec![("hits", obj(vec![("total", Json::Number(s("7")))]))]);
    assert_eq!(search_result(&old_style).total, 7);
}

#[test]
fn cluster_health_needs_every_member() {
    let mut members = vec![
        ("cluster_name", Json::Str(s("docker-cluster"))),
        ("status", Json::Str(s("yellow"))),
        ("timed_out", Json::Bool(false)),
        ("number_of_nodes", Json::Number(s("1"))),
        ("number_of_data_nodes", Json::Number(s("1"))),
        ("active_primary_shards", Json::Number(s("4"))),
        ("active_shards", Json::Number(s("4"))),
        ("relocating_shards", Json::Number(s("0"))),
        ("initializing_shards", Json::Number(s("0"))),
        ("unassigned_shards", Json::Number(s("2"))),
        ("extra", Json::Null),
    ];
    let health = cluster_health_from(&obj(members.clone())).unwrap();
    assert_eq!(health.status, "yellow");
    assert_eq!(health.unassigned_shards, 2);
    members[3] = ("number_of_nodes", Json::Number(s("4294967296")));
    assert!(cluster_health_from(&obj(members.clone())).is_none());
    members.remove(3);
    assert!(cluster_health_from(&obj(members)).is_none());
}
