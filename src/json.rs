//! A JSON document model held as plain values, and the bridge to its text form.

use vstd::prelude::*;

verus! {

broadcast use {vstd::std_specs::vec::axiom_vec_decreases_to_view, vstd::seq::axiom_seq_index_decreases};

/// A JSON value. Numbers keep their textual form, so nothing is lost or
/// rounded while a document passes through the library. An object holds its
/// members as a list: in the order they were added when built here, in key
/// order when parsed from text; written out as text, a later member replaces
/// an earlier one with the same name.
#[derive(Debug, PartialEq)]
pub enum Json {
    Null,
    Bool(bool),
    Number(String),
    Str(String),
    Array(Vec<Json>),
    Object(Vec<(String, Json)>),
}

/// The mathematical content of a [`Json`] value, with texts as character
/// sequences.
pub enum JsonView {
    Null,
    Bool(bool),
    Number(Seq<char>),
    Str(Seq<char>),
    Array(Seq<JsonView>),
    Object(Seq<(Seq<char>, JsonView)>),
}

/// The content of a value.
pub open spec fn view_of(j: Json) -> JsonView
    decreases j,
{
    match j {
        Json::Null => JsonView::Null,
        Json::Bool(b) => JsonView::Bool(b),
        Json::Number(t) => JsonView::Number(t@),
        Json::Str(s) => JsonView::Str(s@),
        Json::Array(items) => JsonView::Array(views_of(items@)),
        Json::Object(fields) => JsonView::Object(members_of(fields@)),
    }
}

/// The contents of a sequence of values.
pub open spec fn views_of(items: Seq<Json>) -> Seq<JsonView>
    decreases items,
{
    if items.len() == 0 {
        Seq::empty()
    } else {
        seq![view_of(items[0])] + views_of(items.subrange(1, items.len() as int))
    }
}

/// The contents of a sequence of object members.
pub open spec fn members_of(fields: Seq<(String, Json)>) -> Seq<(Seq<char>, JsonView)>
    decreases fields,
{
    if fields.len() == 0 {
        Seq::empty()
    } else {
        seq![(fields[0].0@, view_of(fields[0].1))] + members_of(fields.subrange(1, fields.len() as int))
    }
}

/// Appending a value appends its content.
pub proof fn lemma_views_push(items: Seq<Json>, x: Json)
    ensures
        views_of(items.push(x)) == views_of(items).push(view_of(x)),
    decreases items.len(),
{
    let s = items.push(x);
    if items.len() == 0 {
        assert(s.subrange(1, s.len() as int) =~= Seq::<Json>::empty());
        assert(views_of(Seq::<Json>::empty()) == Seq::<JsonView>::empty());
        assert(views_of(s) =~= seq![view_of(x)]);
    } else {
        let rest = items.subrange(1, items.len() as int);
        assert(s.subrange(1, s.len() as int) =~= rest.push(x));
        lemma_views_push(rest, x);
        assert(views_of(s) =~= views_of(items).push(view_of(x)));
    }
}

/// Appending a member appends its content.
pub proof fn lemma_members_push(fields: Seq<(String, Json)>, x: (String, Json))
    ensures
        members_of(fields.push(x)) == members_of(fields).push((x.0@, view_of(x.1))),
    decreases fields.len(),
{
    let s = fields.push(x);
    if fields.len() == 0 {
        assert(s.subrange(1, s.len() as int) =~= Seq::<(String, Json)>::empty());
        assert(members_of(Seq::<(String, Json)>::empty()) == Seq::<(Seq<char>, JsonView)>::empty());
        assert(members_of(s) =~= seq![(x.0@, view_of(x.1))]);
    } else {
        let rest = fields.subrange(1, fields.len() as int);
        assert(s.subrange(1, s.len() as int) =~= rest.push(x));
        lemma_members_push(rest, x);
        assert(members_of(s) =~= members_of(fields).push((x.0@, view_of(x.1))));
    }
}

/// Appends one member to the members of an object under construction.
pub fn push_member(members: &mut Vec<(String, Json)>, key: String, v: Json)
    ensures
        members_of(final(members)@) == members_of(old(members)@).push((key@, v@)),
{
    let m = (key, v);
    proof {
        lemma_members_push(members@, m);
    }
    members.push(m);
}

impl View for Json {
    type V = JsonView;

    open spec fn view(&self) -> JsonView {
        view_of(*self)
    }
}

/// The value of the first member named `key`.
pub open spec fn lookup(fields: Seq<(String, Json)>, key: Seq<char>) -> Option<Json>
    decreases fields.len(),
{
    if fields.len() == 0 {
        None
    } else if fields[0].0@ == key {
        Some(fields[0].1)
    } else {
        lookup(fields.drop_first(), key)
    }
}

/// The member `key` of an object; nothing for any other value.
pub open spec fn json_get(j: Json, key: Seq<char>) -> Option<Json> {
    match j {
        Json::Object(fields) => lookup(fields@, key),
        _ => None,
    }
}

/// The text of a string value.
pub open spec fn json_str(j: Json) -> Option<Seq<char>> {
    match j {
        Json::Str(s) => Some(s@),
        _ => None,
    }
}

/// What `serde_json::from_str` makes of a text, as a value of this model.
pub uninterp spec fn parsed_json(text: Seq<char>) -> Option<Json>;

/// What `serde_json::to_string` writes for a value with this content.
pub uninterp spec fn json_text(j: JsonView) -> Seq<char>;

#[verifier::external_type_specification]
#[verifier::external_body]
pub struct ExJsonValue(serde_json::Value);

/// Carries a `serde_json::Value` over into the model, variant for variant.
#[verifier::external_body]
fn json_of(v: serde_json::Value) -> Json {
    match v {
        serde_json::Value::Null => Json::Null,
        serde_json::Value::Bool(b) => Json::Bool(b),
        serde_json::Value::Number(n) => Json::Number(n.to_string()),
        serde_json::Value::String(s) => Json::Str(s),
        serde_json::Value::Array(a) => Json::Array(a.into_iter().map(json_of).collect()),
        serde_json::Value::Object(m) => Json::Object(m.into_iter().map(|(k, x)| (k, json_of(x))).collect()),
    }
}

/// Carries a value of the model over into a `serde_json::Value`, variant for
/// variant. A number whose text is not a JSON number has no counterpart and
/// becomes null.
#[verifier::external_body]
fn value_of(j: &Json) -> serde_json::Value {
    match j {
        Json::Null => serde_json::Value::Null,
        Json::Bool(b) => serde_json::Value::Bool(*b),
        Json::Number(t) => t.parse().map(serde_json::Value::Number).unwrap_or(serde_json::Value::Null),
        Json::Str(s) => serde_json::Value::String(s.clone()),
        Json::Array(a) => serde_json::Value::Array(a.iter().map(value_of).collect()),
        Json::Object(m) => serde_json::Value::Object(m.iter().map(|(k, x)| (k.clone(), value_of(x))).collect()),
    }
}

/// Relies on `serde_json::from_str::<serde_json::Value>`: the parse depends on
/// the text alone.
#[verifier::external_body]
pub(crate) fn parse_json(text: &str) -> (r: Option<Json>)
    ensures
        r == parsed_json(text@),
{
    serde_json::from_str::<serde_json::Value>(text).ok().map(json_of)
}

/// Relies on `serde_json::to_string` of a `serde_json::Value`, which cannot
/// fail: the compact text depends on the value alone.
#[verifier::external_body]
pub(crate) fn json_to_text(j: &Json) -> (r: String)
    ensures
        r@ == json_text(j@),
{
    serde_json::to_string(&value_of(j)).unwrap_or_default()
}

/// Relies on `str == str`: equal exactly when the characters are.
#[verifier::external_body]
pub(crate) fn same_text(a: &str, b: &str) -> (r: bool)
    ensures
        r == (a@ == b@),
{
    a == b
}

impl Json {
    /// The member `key` of an object.
    pub fn get(&self, key: &str) -> (r: Option<&Json>)
        ensures
            match r {
                Some(v) => json_get(*self, key@) == Some(*v),
                None => json_get(*self, key@) is None,
            },
    {
        match self {
            Json::Object(fields) => {
                let mut i: usize = 0;
                assert(*self == Json::Object(*fields));
                assert(fields@.skip(0) =~= fields@);
                while i < fields.len()
                    invariant
                        i <= fields@.len(),
                        *self == Json::Object(*fields),
                        lookup(fields@, key@) == lookup(fields@.skip(i as int), key@),
                    decreases fields@.len() - i,
                {
                    proof {
                        assert(fields@.skip(i as int).drop_first() =~= fields@.skip(i + 1));
                        assert(fields@.skip(i as int)[0] == fields@[i as int]);
                    }
                    if same_text(fields[i].0.as_str(), key) {
                        return Some(&fields[i].1);
                    }
                    i = i + 1;
                }
                None
            },
            _ => None,
        }
    }

    /// The text of a string value.
    pub fn as_str(&self) -> (r: Option<&String>)
        ensures
            match r {
                Some(s) => json_str(*self) == Some(s@),
                None => json_str(*self) is None,
            },
    {
        match self {
            Json::Str(s) => Some(s),
            _ => None,
        }
    }

    /// A copy with the same content.
    pub fn copy(&self) -> (r: Json)
        ensures
            r@ == self@,
        decreases self,
    {
        match self {
            Json::Null => Json::Null,
            Json::Bool(b) => Json::Bool(*b),
            Json::Number(t) => Json::Number(t.clone()),
            Json::Str(s) => Json::Str(s.clone()),
            Json::Array(items) => {
                let mut out: Vec<Json> = Vec::new();
                let mut i: usize = 0;
                while i < items.len()
                    invariant
                        i <= items@.len(),
                        *self == Json::Array(*items),
                        views_of(out@) == views_of(items@.take(i as int)),
                    decreases items@.len() - i,
                {
                    proof {
                        assert(*self == Json::Array(*items));
                        assert(decreases_to!(*self => (*self)->Array_0));
                        assert(decreases_to!(*items => items@));
                        assert(decreases_to!(items@ => items@[i as int]));
                    }
                    let c = items[i].copy();
                    proof {
                        lemma_views_push(out@, c);
                        lemma_views_push(items@.take(i as int), items@[i as int]);
                        assert(items@.take(i + 1) =~= items@.take(i as int).push(items@[i as int]));
                    }
                    out.push(c);
                    i = i + 1;
                }
                assert(items@.take(i as int) =~= items@);
                Json::Array(out)
            },
            Json::Object(fields) => {
                let mut out: Vec<(String, Json)> = Vec::new();
                let mut i: usize = 0;
                while i < fields.len()
                    invariant
                        i <= fields@.len(),
                        *self == Json::Object(*fields),
                        members_of(out@) == members_of(fields@.take(i as int)),
                    decreases fields@.len() - i,
                {
                    proof {
                        assert(*self == Json::Object(*fields));
                        assert(decreases_to!(*self => (*self)->Object_0));
                        assert(decreases_to!(*fields => fields@));
                        assert(decreases_to!(fields@ => fields@[i as int]));
                        assert(decreases_to!(fields@[i as int] => fields@[i as int].1));
                    }
                    let v = fields[i].1.copy();
                    let k = fields[i].0.clone();
                    proof {
                        lemma_members_push(out@, (k, v));
                        lemma_members_push(fields@.take(i as int), fields@[i as int]);
                        assert(fields@.take(i + 1) =~= fields@.take(i as int).push(fields@[i as int]));
                    }
                    out.push((k, v));
                    i = i + 1;
                }
                assert(fields@.take(i as int) =~= fields@);
                Json::Object(out)
            },
        }
    }
}

/// Copies of a list of values, with the same contents.
pub fn copy_items(items: &Vec<Json>) -> (r: Vec<Json>)
    ensures
        views_of(r@) == views_of(items@),
{
    let mut out: Vec<Json> = Vec::new();
    let mut i: usize = 0;
    while i < items.len()
        invariant
            i <= items@.len(),
            views_of(out@) == views_of(items@.take(i as int)),
        decreases items@.len() - i,
    {
        let c = items[i].copy();
        proof {
            lemma_views_push(out@, c);
            lemma_views_push(items@.take(i as int), items@[i as int]);
            assert(items@.take(i + 1) =~= items@.take(i as int).push(items@[i as int]));
        }
        out.push(c);
        i = i + 1;
    }
    assert(items@.take(i as int) =~= items@);
    out
}

/// Takes the member `key` out of an object.
pub fn take_member(value: Json, key: &str) -> (r: Option<Json>)
    ensures
        r == json_get(value, key@),
{
    match value {
        Json::Object(mut members) => {
            let mut i: usize = 0;
            assert(members@.skip(0) =~= members@);
            while i < members.len()
                invariant
                    i <= members@.len(),
                    json_get(value, key@) == lookup(members@.skip(i as int), key@),
                decreases members@.len() - i,
            {
                proof {
                    assert(members@.skip(i as int).drop_first() =~= members@.skip(i + 1));
                    assert(members@.skip(i as int)[0] == members@[i as int]);
                }
                if same_text(members[i].0.as_str(), key) {
                    let (_, v) = members.remove(i);
                    return Some(v);
                }
                i = i + 1;
            }
            None
        },
        _ => None,
    }
}

impl Clone for Json {
    fn clone(&self) -> Self {
        self.copy()
    }
}

} // verus!
