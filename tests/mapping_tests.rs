use es_client::json::Json;
use es_client::mapping::{extract_field_names, get_field_names};

fn s(t: &str) -> String {
    t.to_string()
}

fn obj(members: Vec<(&str, Json)>) -> Json {
    Json::Object(members.into_iter().map(|(k, v)| (s(k), v)).collect())
}

fn typed(t: &str) -> Json {
    obj(vec![("type", Json::Str(s(t)))])
}

#[test]
fn nested_text_and_multi_fields_are_named() {
    let props = obj(vec![
        ("title", typed("text")),
        (
            "user",
            obj(vec![("properties", obj(vec![("name", typed("keyword")), ("bio", typed("text"))]))]),
        ),
        ("city", obj(vec![("type", Json::Str(s("keyword"))), ("fields", obj(vec![("raw", typed("keyword"))]))])),
    ]);
    let mut names = Vec::new();
    extract_field_names(&props, "", &mut names);
    assert_eq!(
        names,
        vec![s("title"), s("title.keyword"), s("user"), s("user.name"), s("user.bio"), s("user.bio.keyword"), s("city"), s("city.raw")]
    );
}

#[test]
fn mapping_response_gives_sorted_unique_names() {
    let mapping = obj(vec![(
        "people",
        obj(vec![("mappings", obj(vec![("properties", obj(vec![("_id", typed("keyword")), ("age", typed("long"))]))]))]),
    )]);
    assert_eq!(
        get_field_names(&mapping),
        vec![s("@timestamp"), s("_id"), s("_index"), s("_score"), s("_source"), s("_type"), s("age")]
    );
    assert_eq!(get_field_names(&Json::Null).len(), 6);
}
