use es_client::bulk::{bulk_body, BulkOperation, BulkRequest};
use es_client::import::{bulk_response_from, BulkResponse, ImportRequest, ImportRun};
use es_client::json::Json;
use es_client::types::ImportFormat;

fn s(t: &str) -> String {
    t.to_string()
}

fn obj(members: Vec<(&str, Json)>) -> Json {
    Json::Object(members.into_iter().map(|(k, v)| (s(k), v)).collect())
}

fn request(batch_size: Option<u32>, id_field: Option<&str>, overwrite: bool) -> ImportRequest {
    ImportRequest {
        connection_id: s("c1"),
        index: s("people"),
        file_path: s("people.json"),
        format: ImportFormat::JSON,
        id_field: id_field.map(s),
        batch_size,
        mapping: None,
        create_index: false,
        overwrite_existing: overwrite,
    }
}

fn doc(n: usize) -> Json {
    obj(vec![("id", Json::Str(format!("d{}", n))), ("n", Json::Number(n.to_string()))])
}

fn ok_item() -> Json {
    obj(vec![("create", obj(vec![("status", Json::Number(s("201")))]))])
}

fn failed_item(reason: &str) -> Json {
    obj(vec![(
        "create",
        obj(vec![("status", Json::Number(s("409"))), ("error", obj(vec![("reason", Json::Str(s(reason)))]))]),
    )])
}

fn response(items: Vec<Json>) -> Result<BulkResponse, String> {
    Ok(BulkResponse { took: 3, errors: false, items })
}

#[test]
fn one_failing_document_among_2500() {
    let docs: Vec<Json> = (1..=2500).map(doc).collect();
    let mut run = ImportRun::new(&request(Some(1000), None, false), docs);
    let mut first = 1usize;
    let mut batches = 0;
    while let Some(body) = run.next_batch() {
        batches += 1;
        let n = body.lines().count() / 2;
        let items = (first..first + n)
            .map(|k| if k == 1500 { failed_item("version conflict, document already exists") } else { ok_item() })
            .collect();
        run.record_response(response(items));
        first += n;
    }
    assert_eq!(batches, 3);
    let result = run.finish();
    assert_eq!(result.total_processed, 2500);
    assert_eq!(result.failed_imports, 1);
    assert_eq!(result.successful_imports, 2499);
    assert!(!result.success);
    assert_eq!(result.errors.len(), 1);
    assert_eq!(result.errors[0].line_number, 1500);
    assert_eq!(result.errors[0].error_message, "version conflict, document already exists");
    assert_eq!(result.errors[0].document, Some(doc(1500)));
    assert_eq!(result.message, "Imported 2499 documents with 1 errors");
}

#[test]
fn failed_transport_marks_only_its_batch() {
    let docs: Vec<Json> = (1..=2500).map(doc).collect();
    let mut run = ImportRun::new(&request(Some(1000), None, true), docs);
    let mut batch = 0;
    while let Some(body) = run.next_batch() {
        batch += 1;
        let n = body.lines().count() / 2;
        if batch == 2 {
            run.record_response(Err(s("connection reset")));
        } else {
            run.record_response(response((0..n).map(|_| ok_item()).collect()));
        }
    }
    let result = run.finish();
    assert_eq!(result.total_processed, 2500);
    assert_eq!(result.failed_imports, 1000);
    assert_eq!(result.successful_imports, 1500);
    let lines: Vec<u64> = result.errors.iter().map(|e| e.line_number).collect();
    assert_eq!(lines, (1001..=2000).collect::<Vec<u64>>());
    assert!(result.errors.iter().all(|e| e.error_message == "Bulk operation failed: connection reset"));
    assert_eq!(result.errors[0].document, Some(doc(1001)));
    assert_eq!(result.errors[999].document, Some(doc(2000)));
}

#[test]
fn default_batch_size_is_a_thousand() {
    let docs: Vec<Json> = (1..=1001).map(doc).collect();
    let mut run = ImportRun::new(&request(None, None, false), docs);
    let body = run.next_batch().unwrap();
    assert_eq!(body.lines().count(), 2000);
    run.record_response(response((0..1000).map(|_| ok_item()).collect()));
    let body = run.next_batch().unwrap();
    assert_eq!(body.lines().count(), 2);
    run.record_response(response(vec![ok_item()]));
    assert!(run.next_batch().is_none());
    assert!(run.is_done());
    let result = run.finish();
    assert!(result.success);
    assert_eq!(result.message, "Successfully imported 1001 documents");
}

#[test]
fn batch_body_uses_verb_index_and_id_field() {
    let docs = vec![doc(1), obj(vec![("name", Json::Str(s("no id")))])];
    let mut run = ImportRun::new(&request(Some(10), Some("id"), true), docs);
    let body = run.next_batch().unwrap();
    let lines: Vec<&str> = body.lines().collect();
    assert_eq!(lines.len(), 4);
    assert_eq!(lines[0], r#"{"index":{"_id":"d1","_index":"people"}}"#);
    assert_eq!(lines[1], r#"{"id":"d1","n":1}"#);
    assert_eq!(lines[2], r#"{"index":{"_id":null,"_index":"people"}}"#);
    assert_eq!(lines[3], r#"{"name":"no id"}"#);
    assert!(body.ends_with('\n'));
}

#[test]
fn item_without_error_counts_as_success_and_extra_items_have_no_document() {
    let mut run = ImportRun::new(&request(Some(5), None, false), vec![doc(1)]);
    run.next_batch().unwrap();
    let unknown = obj(vec![("create", obj(vec![("error", Json::Null)]))]);
    run.record_response(response(vec![ok_item(), unknown]));
    let result = run.finish();
    assert_eq!(result.successful_imports, 1);
    assert_eq!(result.failed_imports, 1);
    assert_eq!(result.errors[0].line_number, 2);
    assert_eq!(result.errors[0].error_message, "Unknown error");
    assert_eq!(result.errors[0].document, None);
}

#[test]
fn empty_input_sends_nothing() {
    let mut run = ImportRun::new(&request(Some(3), None, false), Vec::new());
    assert!(run.next_batch().is_none());
    let result = run.finish();
    assert_eq!(result.total_processed, 0);
    assert!(result.success);
}

#[test]
fn bulk_body_formats_each_action() {
    let op = |action: &str, id: Option<&str>, document: Option<Json>| BulkOperation {
        action: s(action),
        index: s("i"),
        id: id.map(s),
        document,
    };
    let request = BulkRequest {
        operations: vec![
            op("update", Some("1"), Some(obj(vec![("a", Json::Bool(true))]))),
            op("delete", Some("2"), Some(obj(vec![("ignored", Json::Null)]))),
            op("create", None, None),
        ],
    };
    let body = bulk_body(&request).unwrap();
    assert_eq!(
        body,
        "{\"update\":{\"_id\":\"1\",\"_index\":\"i\"}}\n{\"doc\":{\"a\":true}}\n{\"delete\":{\"_id\":\"2\",\"_index\":\"i\"}}\n{\"create\":{\"_id\":null,\"_index\":\"i\"}}\n"
    );
    let bad = BulkRequest { operations: vec![op("index", None, None), op("upsert", None, None)] };
    assert_eq!(bulk_body(&bad), Err(s("Unsupported bulk operation: upsert")));
}

#[test]
fn bulk_answer_is_read() {
    let answer = obj(vec![
        ("took", Json::Number(s("30"))),
        ("errors", Json::Bool(true)),
        ("items", Json::Array(vec![ok_item(), failed_item("x")])),
    ]);
    let r = bulk_response_from(answer);
    assert_eq!((r.took, r.errors), (30, true));
    assert_eq!(r.items, vec![ok_item(), failed_item("x")]);
    let empty = bulk_response_from(obj(vec![]));
    assert_eq!((empty.took, empty.errors, empty.items.len()), (0, false, 0));
}
