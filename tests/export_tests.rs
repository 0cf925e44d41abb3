use es_client::export::{ExportPager, ExportService};
use es_client::json::Json;

fn s(t: &str) -> String {
    t.to_string()
}

fn obj(members: Vec<(&str, Json)>) -> Json {
    Json::Object(members.into_iter().map(|(k, v)| (s(k), v)).collect())
}

fn hit(n: usize) -> Json {
    obj(vec![("_id", Json::Str(n.to_string())), ("_source", obj(vec![("n", Json::Number(n.to_string()))]))])
}

/// Runs a pager against an index holding `total` hits; returns the pages
/// asked for and the hits collected.
fn run_pager(total: usize, max_records: usize, page_size: usize) -> (Vec<(usize, usize)>, Vec<Json>) {
    let mut pager = ExportPager::new(page_size, max_records);
    let mut pages = Vec::new();
    while let Some((from, size)) = pager.next_page() {
        pages.push((from, size));
        let end = std::cmp::min(from + size, total);
        let hits: Vec<Json> = (from.min(end)..end).map(hit).collect();
        pager.record_page(hits);
    }
    (pages, pager.into_documents())
}

#[test]
fn pages_stop_at_short_page() {
    let (pages, docs) = run_pager(150, 1000, 100);
    assert_eq!(pages, vec![(0, 100), (100, 100)]);
    assert_eq!(docs.len(), 150);
    assert_eq!(docs[149], hit(149));
}

#[test]
fn pages_stop_at_cap() {
    let (pages, docs) = run_pager(1000, 50, 100);
    assert_eq!(pages, vec![(0, 50)]);
    assert_eq!(docs.len(), 50);
}

#[test]
fn exactly_max_records_in_index() {
    let (pages, docs) = run_pager(200, 200, 100);
    assert_eq!(pages, vec![(0, 100), (100, 100)]);
    assert_eq!(docs.len(), 200);
    let (pages, docs) = run_pager(200, 1000, 100);
    assert_eq!(pages, vec![(0, 100), (100, 100), (200, 100)]);
    assert_eq!(docs.len(), 200);
}

#[test]
fn empty_index_and_oversized_pages() {
    let (pages, docs) = run_pager(0, 10, 5);
    assert_eq!(pages, vec![(0, 5)]);
    assert!(docs.is_empty());
    let (pages, _) = run_pager(30000, 25000, 50000);
    assert_eq!(pages[0], (0, 10000));
    let mut pager = ExportPager::new(10, 5);
    assert_eq!(pager.next_page(), Some((0, 5)));
    pager.record_page((0..8).map(hit).collect());
    assert_eq!(pager.next_page(), None);
    assert_eq!(pager.into_documents().len(), 5);
}

#[test]
fn nested_field_is_flattened() {
    let service = ExportService::new();
    let doc = obj(vec![("_source", obj(vec![("user", obj(vec![("name", Json::Str(s("Alice")))]))]))]);
    assert_eq!(service.field_cell(&doc, "user.name"), "Alice");
    let rows = service.table_rows(&vec![doc.clone()], &vec![s("user.name"), s("user.age"), s("user")]);
    assert_eq!(rows, vec![vec![s("Alice"), s(""), s(r#"{"name":"Alice"}"#)]]);
    assert_eq!(service.get_nested_field(&doc, "user.name"), Json::Str(s("Alice")));
    assert_eq!(service.get_nested_field(&doc, "user.missing"), Json::Null);
}

#[test]
fn meta_fields_come_from_the_hit() {
    let service = ExportService::new();
    let doc = obj(vec![
        ("_id", Json::Str(s("7"))),
        ("_score", Json::Number(s("1.5"))),
        ("_source", obj(vec![("_id", Json::Str(s("inner")))])),
    ]);
    assert_eq!(service.field_cell(&doc, "_id"), "7");
    assert_eq!(service.field_cell(&doc, "_score"), "1.5");
    assert_eq!(service.field_cell(&doc, "_index"), "");
    let plain = obj(vec![("a", obj(vec![("b", Json::Bool(false))]))]);
    assert_eq!(service.field_cell(&plain, "a.b"), "false");
}

#[test]
fn cell_text_of_each_kind() {
    let service = ExportService::new();
    assert_eq!(service.value_to_string(&Json::Null), "");
    assert_eq!(service.value_to_string(&Json::Bool(true)), "true");
    assert_eq!(service.value_to_string(&Json::Number(s("42"))), "42");
    assert_eq!(service.value_to_string(&Json::Str(s("x"))), "x");
    let arr = Json::Array(vec![Json::Number(s("1")), Json::Str(s("a"))]);
    assert_eq!(service.value_to_string(&arr), r#"[1,"a"]"#);
}

#[test]
fn header_lists_source_keys_sorted_once() {
    let service = ExportService::new();
    let mut data = vec![
        obj(vec![("_source", obj(vec![("zeta", Json::Null), ("alpha", Json::Null)]))]),
        obj(vec![("_source", obj(vec![("mid", Json::Null), ("alpha", Json::Null)]))]),
        obj(vec![("_source", Json::Str(s("not an object")))]),
    ];
    for _ in 0..8 {
        data.push(obj(vec![("_source", obj(vec![]))]));
    }
    data.push(obj(vec![("_source", obj(vec![("late", Json::Null)]))]));
    let header = service.extract_all_fields(&data);
    assert_eq!(header, vec![s("_id"), s("_score"), s("alpha"), s("mid"), s("zeta")]);
    assert_eq!(service.extract_all_fields(&vec![]), vec![s("_id"), s("_score")]);
}

#[test]
fn filtered_hit_keeps_selected_fields_and_identity() {
    let service = ExportService::new();
    let doc = obj(vec![
        ("_id", Json::Str(s("1"))),
        ("_score", Json::Number(s("2.0"))),
        ("_index", Json::Str(s("people"))),
        ("_source", obj(vec![("a", Json::Number(s("1"))), ("b", Json::Number(s("2")))])),
    ]);
    let filtered = service.filter_fields(&doc, &vec![s("b"), s("missing")]);
    assert_eq!(
        filtered,
        obj(vec![("b", Json::Number(s("2"))), ("_id", Json::Str(s("1"))), ("_score", Json::Number(s("2.0")))])
    );
}

#[test]
fn table_header_needs_hits() {
    let service = ExportService::new();
    assert_eq!(service.table_header(&vec![], &Some(vec![s("a")])), None);
    let data = vec![hit(1)];
    assert_eq!(service.table_header(&data, &Some(vec![s("b"), s("a")])), Some(vec![s("b"), s("a")]));
    assert_eq!(service.table_header(&data, &None), Some(vec![s("_id"), s("_score"), s("n")]));
}
