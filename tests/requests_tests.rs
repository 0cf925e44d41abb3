use es_client::json::Json;
use es_client::requests::{
    alias_actions_body, document_response, settings_body, template_body, AliasAction, IndexSettings, IndexTemplate,
};

fn s(t: &str) -> String {
    t.to_string()
}

fn obj(members: Vec<(&str, Json)>) -> Json {
    Json::Object(members.into_iter().map(|(k, v)| (s(k), v)).collect())
}

#[test]
fn document_response_reads_members() {
    let response = obj(vec![
        ("_index", Json::Str(s("people"))),
        ("_id", Json::Str(s("42"))),
        ("_version", Json::Number(s("3"))),
        ("result", Json::Str(s("created"))),
    ]);
    let r = document_response(&response);
    assert_eq!((r.index.as_str(), r.id.as_str(), r.version, r.result.as_str()), ("people", "42", 3, "created"));
    let odd = document_response(&obj(vec![("_version", Json::Number(s("-1")))]));
    assert_eq!((odd.index.as_str(), odd.version), ("", 0));
}

#[test]
fn alias_actions_are_wrapped() {
    let actions = vec![
        AliasAction { action: s("add"), alias: s("a"), index: s("i"), filter: None, routing: Some(s("r")) },
        AliasAction { action: s("remove"), alias: s("b"), index: s("j"), filter: Some(Json::Null), routing: None },
    ];
    let body = alias_actions_body(&actions);
    assert_eq!(
        body,
        obj(vec![(
            "actions",
            Json::Array(vec![
                obj(vec![(
                    "add",
                    obj(vec![("index", Json::Str(s("i"))), ("alias", Json::Str(s("a"))), ("routing", Json::Str(s("r")))])
                )]),
                obj(vec![("remove", obj(vec![("index", Json::Str(s("j"))), ("alias", Json::Str(s("b")))]))]),
            ])
        )])
    );
}

#[test]
fn template_body_keeps_given_parts() {
    let t = IndexTemplate {
        name: s("logs"),
        index_patterns: vec![s("logs-*")],
        template: None,
        settings: Some(obj(vec![("number_of_shards", Json::Number(s("1")))])),
        mappings: None,
        aliases: None,
        version: Some(7),
        order: None,
    };
    assert_eq!(
        template_body(&t),
        obj(vec![
            ("index_patterns", Json::Array(vec![Json::Str(s("logs-*"))])),
            ("settings", obj(vec![("number_of_shards", Json::Number(s("1")))])),
            ("version", Json::Number(s("7"))),
        ])
    );
}

#[test]
fn settings_body_merges_other_settings() {
    let settings = IndexSettings {
        number_of_shards: Some(5),
        number_of_replicas: Some(2),
        refresh_interval: Some(s("30s")),
        max_result_window: None,
        analysis: None,
        other_settings: Some(obj(vec![("blocks.write", Json::Bool(true))])),
    };
    assert_eq!(
        settings_body(&settings),
        obj(vec![(
            "index",
            obj(vec![
                ("number_of_replicas", Json::Number(s("2"))),
                ("refresh_interval", Json::Str(s("30s"))),
                ("blocks.write", Json::Bool(true)),
            ])
        )])
    );
}
