//! Bodies of the index-administration requests, and the reading of document
//! responses.

use vstd::prelude::*;
use vstd::string::*;
use crate::codec::{parse_unsigned_text, parsed_unsigned};
use crate::error::{member_text, opt_text};
use crate::json::{json_get, members_of, push_member, Json, JsonView};
use crate::text::{decimal, decimal_text};

verus! {

/// The answer to a document write: where it went, its version and the
/// outcome.
#[derive(Debug, Clone)]
pub struct DocumentResponse {
    pub index: String,
    pub id: String,
    pub version: u64,
    pub result: String,
}

/// A text member, or the empty text.
pub open spec fn text_or_empty(j: Json, key: Seq<char>) -> Seq<char> {
    match member_text(j, key) {
        Some(t) => t,
        None => Seq::empty(),
    }
}

/// A member that is a non-negative integer of at most `u64::MAX`.
pub open spec fn u64_member(j: Json, key: Seq<char>) -> Option<nat> {
    match json_get(j, key) {
        Some(Json::Number(t)) => parsed_unsigned(t@, u64::MAX as nat),
        _ => None,
    }
}

fn text_member(j: &Json, key: &str) -> (r: String)
    ensures
        r@ == text_or_empty(*j, key@),
{
    match j.get(key) {
        Some(v) => match v.as_str() {
            Some(s) => s.clone(),
            None => String::new(),
        },
        None => String::new(),
    }
}

/// A member that is a non-negative integer, as `Value::as_u64` reads it.
pub fn u64_of(j: &Json, key: &str) -> (r: Option<u64>)
    ensures
        match r {
            Some(v) => u64_member(*j, key@) == Some(v as nat),
            None => u64_member(*j, key@) is None,
        },
{
    match j.get(key) {
        Some(Json::Number(t)) => parse_unsigned_text(t.as_str(), 18446744073709551615),
        _ => None,
    }
}

/// The answer to a document write; missing members read as empty or zero.
pub fn document_response(response: &Json) -> (r: DocumentResponse)
    ensures
        r.index@ == text_or_empty(*response, "_index"@),
        r.id@ == text_or_empty(*response, "_id"@),
        r.version as nat == match u64_member(*response, "_version"@) {
            Some(v) => v,
            None => 0,
        },
        r.result@ == text_or_empty(*response, "result"@),
{
    DocumentResponse {
        index: text_member(response, "_index"),
        id: text_member(response, "_id"),
        version: match u64_of(response, "_version") {
            Some(v) => v,
            None => 0,
        },
        result: text_member(response, "result"),
    }
}

/// One change of aliases: `add` (with optional filter and routing) or, for
/// any other action, `remove`.
#[derive(Debug, Clone)]
pub struct AliasAction {
    pub action: String,
    pub alias: String,
    pub index: String,
    pub filter: Option<Json>,
    pub routing: Option<String>,
}

/// The members with `key` added when a value is given.
pub open spec fn with_opt(
    members: Seq<(Seq<char>, JsonView)>,
    key: Seq<char>,
    v: Option<JsonView>,
) -> Seq<(Seq<char>, JsonView)> {
    match v {
        Some(x) => members.push((key, x)),
        None => members,
    }
}

/// The content of an optional value.
pub open spec fn opt_json(o: Option<Json>) -> Option<JsonView> {
    match o {
        Some(j) => Some(j@),
        None => None,
    }
}

/// The entry of one alias change in an `_aliases` request.
pub open spec fn alias_action_view(a: AliasAction) -> JsonView {
    let target = seq![("index"@, JsonView::Str(a.index@)), ("alias"@, JsonView::Str(a.alias@))];
    if a.action@ == "add"@ {
        JsonView::Object(
            seq![
                ("add"@, JsonView::Object(
                    with_opt(
                        with_opt(target, "filter"@, opt_json(a.filter)),
                        "routing"@,
                        match a.routing {
                            Some(r) => Some(JsonView::Str(r@)),
                            None => None,
                        },
                    ),
                )),
            ],
        )
    } else {
        JsonView::Object(seq![("remove"@, JsonView::Object(target))])
    }
}

fn alias_action_json(a: &AliasAction) -> (r: Json)
    ensures
        r@ == alias_action_view(*a),
{
    let mut target: Vec<(String, Json)> = Vec::new();
    proof {
        assert(members_of(target@) =~= Seq::<(Seq<char>, JsonView)>::empty());
    }
    push_member(&mut target, String::from_str("index"), Json::Str(a.index.clone()));
    push_member(&mut target, String::from_str("alias"), Json::Str(a.alias.clone()));
    assert(members_of(target@) =~= seq![("index"@, JsonView::Str(a.index@)), ("alias"@, JsonView::Str(a.alias@))]);
    let is_add = crate::json::same_text(a.action.as_str(), "add");
    let mut outer: Vec<(String, Json)> = Vec::new();
    proof {
        assert(members_of(outer@) =~= Seq::<(Seq<char>, JsonView)>::empty());
    }
    if is_add {
        match &a.filter {
            Some(f) => push_member(&mut target, String::from_str("filter"), f.copy()),
            None => {},
        }
        match &a.routing {
            Some(r) => push_member(&mut target, String::from_str("routing"), Json::Str(r.clone())),
            None => {},
        }
        let ghost inner = members_of(target@);
        push_member(&mut outer, String::from_str("add"), Json::Object(target));
        assert(members_of(outer@) =~= seq![("add"@, JsonView::Object(inner))]);
    } else {
        let ghost inner = members_of(target@);
        push_member(&mut outer, String::from_str("remove"), Json::Object(target));
        assert(members_of(outer@) =~= seq![("remove"@, JsonView::Object(inner))]);
    }
    let r = Json::Object(outer);
    proof {
        let expected = match alias_action_view(*a) {
            JsonView::Object(ms) => ms,
            _ => Seq::empty(),
        };
        assert(members_of(r->Object_0@) =~= expected);
    }
    r
}

/// The body `{"actions": [...]}` of an `_aliases` request.
pub fn alias_actions_body(actions: &Vec<AliasAction>) -> (r: Json)
    ensures
        r@ == JsonView::Object(
            seq![("actions"@, JsonView::Array(actions@.map_values(|a: AliasAction| alias_action_view(a))))],
        ),
{
    let mut items: Vec<Json> = Vec::new();
    let mut i: usize = 0;
    while i < actions.len()
        invariant
            i <= actions@.len(),
            crate::json::views_of(items@) == actions@.take(i as int).map_values(|a: AliasAction| alias_action_view(a)),
        decreases actions@.len() - i,
    {
        let j = alias_action_json(&actions[i]);
        proof {
            crate::json::lemma_views_push(items@, j);
            assert(actions@.take(i + 1).map_values(|a: AliasAction| alias_action_view(a)) =~= actions@.take(
                i as int,
            ).map_values(|a: AliasAction| alias_action_view(a)).push(alias_action_view(actions@[i as int])));
        }
        items.push(j);
        i = i + 1;
    }
    assert(actions@.take(i as int) =~= actions@);
    let mut outer: Vec<(String, Json)> = Vec::new();
    proof {
        assert(members_of(outer@) =~= Seq::<(Seq<char>, JsonView)>::empty());
    }
    let ghost list = crate::json::views_of(items@);
    push_member(&mut outer, String::from_str("actions"), Json::Array(items));
    assert(members_of(outer@) =~= seq![("actions"@, JsonView::Array(list))]);
    Json::Object(outer)
}

/// The body of a request that adds one alias: its filter and routing, where
/// given.
pub fn alias_body(filter: &Option<Json>, routing: &Option<String>) -> (r: Json)
    ensures
        r@ == JsonView::Object(
            with_opt(
                with_opt(Seq::empty(), "filter"@, opt_json(*filter)),
                "routing"@,
                match routing {
                    Some(t) => Some(JsonView::Str(t@)),
                    None => None,
                },
            ),
        ),
{
    let mut members: Vec<(String, Json)> = Vec::new();
    proof {
        assert(members_of(members@) =~= Seq::<(Seq<char>, JsonView)>::empty());
    }
    match filter {
        Some(f) => push_member(&mut members, String::from_str("filter"), f.copy()),
        None => {},
    }
    match routing {
        Some(t) => push_member(&mut members, String::from_str("routing"), Json::Str(t.clone())),
        None => {},
    }
    Json::Object(members)
}

/// An index template as the user edits it.
#[derive(Debug, Clone)]
pub struct IndexTemplate {
    pub name: String,
    pub index_patterns: Vec<String>,
    pub template: Option<Json>,
    pub settings: Option<Json>,
    pub mappings: Option<Json>,
    pub aliases: Option<Json>,
    pub version: Option<u32>,
    pub order: Option<u32>,
}

/// A number member, when given.
pub open spec fn opt_number(o: Option<u32>) -> Option<JsonView> {
    match o {
        Some(n) => Some(JsonView::Number(decimal(n as nat))),
        None => None,
    }
}

/// The body of a `_template` request: the index patterns, then each part
/// that is given.
pub open spec fn template_view(t: IndexTemplate) -> JsonView {
    let patterns = JsonView::Array(t.index_patterns@.map_values(|p: String| JsonView::Str(p@)));
    JsonView::Object(
        with_opt(
            with_opt(
                with_opt(
                    with_opt(
                        with_opt(
                            with_opt(seq![("index_patterns"@, patterns)], "template"@, opt_json(t.template)),
                            "settings"@,
                            opt_json(t.settings),
                        ),
                        "mappings"@,
                        opt_json(t.mappings),
                    ),
                    "aliases"@,
                    opt_json(t.aliases),
                ),
                "version"@,
                opt_number(t.version),
            ),
            "order"@,
            opt_number(t.order),
        ),
    )
}

fn push_opt(members: &mut Vec<(String, Json)>, key: &str, v: &Option<Json>)
    ensures
        members_of(final(members)@) == with_opt(members_of(old(members)@), key@, opt_json(*v)),
{
    match v {
        Some(j) => push_member(members, String::from_str(key), j.copy()),
        None => {},
    }
}

fn push_number(members: &mut Vec<(String, Json)>, key: &str, v: Option<u32>)
    ensures
        members_of(final(members)@) == with_opt(members_of(old(members)@), key@, opt_number(v)),
{
    match v {
        Some(n) => push_member(members, String::from_str(key), Json::Number(decimal_text(n as u64))),
        None => {},
    }
}

/// The body of a `_template` request.
pub fn template_body(t: &IndexTemplate) -> (r: Json)
    ensures
        r@ == template_view(*t),
{
    let mut patterns: Vec<Json> = Vec::new();
    let mut i: usize = 0;
    while i < t.index_patterns.len()
        invariant
            i <= t.index_patterns@.len(),
            crate::json::views_of(patterns@) == t.index_patterns@.take(i as int).map_values(
                |p: String| JsonView::Str(p@),
            ),
        decreases t.index_patterns@.len() - i,
    {
        let j = Json::Str(t.index_patterns[i].clone());
        proof {
            crate::json::lemma_views_push(patterns@, j);
            assert(t.index_patterns@.take(i + 1).map_values(|p: String| JsonView::Str(p@)) =~= t.index_patterns@.take(
                i as int,
            ).map_values(|p: String| JsonView::Str(p@)).push(JsonView::Str(t.index_patterns@[i as int]@)));
        }
        patterns.push(j);
        i = i + 1;
    }
    assert(t.index_patterns@.take(i as int) =~= t.index_patterns@);
    let mut members: Vec<(String, Json)> = Vec::new();
    proof {
        assert(members_of(members@) =~= Seq::<(Seq<char>, JsonView)>::empty());
    }
    push_member(&mut members, String::from_str("index_patterns"), Json::Array(patterns));
    push_opt(&mut members, "template", &t.template);
    push_opt(&mut members, "settings", &t.settings);
    push_opt(&mut members, "mappings", &t.mappings);
    push_opt(&mut members, "aliases", &t.aliases);
    push_number(&mut members, "version", t.version);
    push_number(&mut members, "order", t.order);
    let r = Json::Object(members);
    proof {
        let expected = match template_view(*t) {
            JsonView::Object(ms) => ms,
            _ => Seq::empty(),
        };
        assert(members_of(r->Object_0@) =~= expected);
    }
    r
}

/// Settings of an index that can be changed after creation.
#[derive(Debug, Clone)]
pub struct IndexSettings {
    pub number_of_shards: Option<u32>,
    pub number_of_replicas: Option<u32>,
    pub refresh_interval: Option<String>,
    pub max_result_window: Option<u32>,
    pub analysis: Option<Json>,
    pub other_settings: Option<Json>,
}

/// The members of an object value; none for any other value.
pub open spec fn object_members(o: Option<Json>) -> Seq<(Seq<char>, JsonView)> {
    match o {
        Some(Json::Object(ms)) => members_of(ms@),
        _ => Seq::empty(),
    }
}

/// The body `{"index": {...}}` of a `_settings` request: the replica count,
/// refresh interval, result window and analysis that are given, then every
/// member of `other_settings`. The shard count is fixed at creation and left
/// out.
pub open spec fn settings_view(s: IndexSettings) -> JsonView {
    JsonView::Object(
        seq![
            ("index"@, JsonView::Object(
                with_opt(
                    with_opt(
                        with_opt(
                            with_opt(Seq::empty(), "number_of_replicas"@, opt_number(s.number_of_replicas)),
                            "refresh_interval"@,
                            match s.refresh_interval {
                                Some(t) => Some(JsonView::Str(t@)),
                                None => None,
                            },
                        ),
                        "max_result_window"@,
                        opt_number(s.max_result_window),
                    ),
                    "analysis"@,
                    opt_json(s.analysis),
                ) + object_members(s.other_settings),
            )),
        ],
    )
}

/// The body of a `_settings` request.
pub fn settings_body(s: &IndexSettings) -> (r: Json)
    ensures
        r@ == settings_view(*s),
{
    let mut index: Vec<(String, Json)> = Vec::new();
    proof {
        assert(members_of(index@) =~= Seq::<(Seq<char>, JsonView)>::empty());
    }
    push_number(&mut index, "number_of_replicas", s.number_of_replicas);
    match &s.refresh_interval {
        Some(t) => push_member(&mut index, String::from_str("refresh_interval"), Json::Str(t.clone())),
        None => {},
    }
    push_number(&mut index, "max_result_window", s.max_result_window);
    push_opt(&mut index, "analysis", &s.analysis);
    let ghost known = members_of(index@);
    match &s.other_settings {
        Some(Json::Object(others)) => {
            let mut i: usize = 0;
            while i < others.len()
                invariant
                    i <= others@.len(),
                    members_of(index@) == known + members_of(others@.take(i as int)),
                decreases others@.len() - i,
            {
                proof {
                    crate::json::lemma_members_push(others@.take(i as int), others@[i as int]);
                    assert(others@.take(i + 1) =~= others@.take(i as int).push(others@[i as int]));
                }
                push_member(&mut index, others[i].0.clone(), others[i].1.copy());
                assert(members_of(index@) =~= known + members_of(others@.take(i + 1)));
                i = i + 1;
            }
            assert(others@.take(i as int) =~= others@);
        },
        _ => {
            assert(members_of(index@) =~= known + object_members(s.other_settings));
        },
    }
    let ghost inner = members_of(index@);
    let mut outer: Vec<(String, Json)> = Vec::new();
    proof {
        assert(members_of(outer@) =~= Seq::<(Seq<char>, JsonView)>::empty());
    }
    push_member(&mut outer, String::from_str("index"), Json::Object(index));
    let r = Json::Object(outer);
    proof {
        let expected = match settings_view(*s) {
            JsonView::Object(ms) => ms,
            _ => Seq::empty(),
        };
        assert(members_of(r->Object_0@) =~= expected);
    }
    r
}

} // verus!
