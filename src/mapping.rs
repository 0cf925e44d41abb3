//! The field names of an index mapping, offered for completion in queries.

use vstd::prelude::*;
use vstd::string::*;
use crate::export::{has_text, sorted_unique, text_lt};
use crate::json::{lookup, same_text, Json};

verus! {

/// The dotted name of a field under `prefix`.
pub open spec fn joined(prefix: Seq<char>, name: Seq<char>) -> Seq<char> {
    if prefix.len() == 0 {
        name
    } else {
        prefix + "."@ + name
    }
}

/// The field names that a `properties` object declares under `prefix`.
pub open spec fn names_in(props: Json, prefix: Seq<char>) -> Seq<Seq<char>>
    decreases props,
{
    match props {
        Json::Object(fields) => names_in_members(fields@, prefix),
        _ => Seq::empty(),
    }
}

/// The field names that a list of field definitions declares under `prefix`.
pub open spec fn names_in_members(ms: Seq<(String, Json)>, prefix: Seq<char>) -> Seq<Seq<char>>
    decreases ms,
{
    if ms.len() == 0 {
        Seq::empty()
    } else {
        names_in_members(ms.subrange(0, ms.len() - 1), prefix) + names_of_field(
            ms[ms.len() - 1].1,
            joined(prefix, ms[ms.len() - 1].0@),
        )
    }
}

/// The names one field definition contributes: its own name; a `.keyword`
/// companion for a `text` field; then the names under its `properties` and
/// under its `fields` (multi-fields).
pub open spec fn names_of_field(def: Json, full: Seq<char>) -> Seq<Seq<char>>
    decreases def,
{
    seq![full] + match def {
        Json::Object(ms) => keyword_name(ms@, full) + sub_names(ms@, "properties"@, full) + sub_names(
            ms@,
            "fields"@,
            full,
        ),
        _ => Seq::empty(),
    }
}

/// The `.keyword` companion of a field whose type is `text`.
pub open spec fn keyword_name(ms: Seq<(String, Json)>, full: Seq<char>) -> Seq<Seq<char>> {
    match lookup(ms, "type"@) {
        Some(Json::Str(t)) => if t@ == "text"@ {
            seq![full + ".keyword"@]
        } else {
            Seq::empty()
        },
        _ => Seq::empty(),
    }
}

/// The names under the member `key` of a field definition.
pub open spec fn sub_names(ms: Seq<(String, Json)>, key: Seq<char>, full: Seq<char>) -> Seq<Seq<char>>
    decreases ms,
{
    if ms.len() == 0 {
        Seq::empty()
    } else if ms[0].0@ == key {
        names_in(ms[0].1, full)
    } else {
        sub_names(ms.subrange(1, ms.len() as int), key, full)
    }
}

/// The texts of a list, as character sequences.
pub open spec fn texts(v: Seq<String>) -> Seq<Seq<char>> {
    v.map_values(|s: String| s@)
}

fn joined_text(prefix: &str, name: &str) -> (r: String)
    ensures
        r@ == joined(prefix@, name@),
{
    if prefix.is_empty() {
        String::from_str(name)
    } else {
        String::from_str(prefix).concat(".").concat(name)
    }
}

fn push_text(out: &mut Vec<String>, t: String)
    ensures
        texts(final(out)@) == texts(old(out)@).push(t@),
{
    let ghost before = out@;
    out.push(t);
    assert(texts(out@) =~= texts(before).push(t@));
}

/// Appends the field names that a `properties` object declares under
/// `prefix`.
pub fn extract_field_names(properties: &Json, prefix: &str, field_names: &mut Vec<String>)
    ensures
        texts(final(field_names)@) == texts(old(field_names)@) + names_in(*properties, prefix@),
    decreases properties,
{
    match properties {
        Json::Object(fields) => {
            let mut i: usize = 0;
            assert(fields@.subrange(0, 0) =~= Seq::<(String, Json)>::empty());
            assert(texts(field_names@) =~= texts(old(field_names)@) + names_in_members(fields@.subrange(0, 0), prefix@));
            while i < fields.len()
                invariant
                    *properties == Json::Object(*fields),
                    i <= fields@.len(),
                    texts(field_names@) == texts(old(field_names)@) + names_in_members(fields@.subrange(0, i as int), prefix@),
                decreases fields@.len() - i,
            {
                proof {
                    assert(decreases_to!(*properties => (*properties)->Object_0));
                    assert(decreases_to!(*fields => fields@));
                    assert(decreases_to!(fields@ => fields@[i as int]));
                    assert(decreases_to!(fields@[i as int] => fields@[i as int].1));
                    let s = fields@.subrange(0, i + 1);
                    assert(s.subrange(0, s.len() - 1) =~= fields@.subrange(0, i as int));
                    assert(s[s.len() - 1] == fields@[i as int]);
                }
                let full = joined_text(prefix, fields[i].0.as_str());
                names_of_field_into(&fields[i].1, full, field_names);
                assert(texts(field_names@) =~= texts(old(field_names)@) + names_in_members(fields@.subrange(0, i + 1), prefix@));
                i = i + 1;
            }
            assert(fields@.subrange(0, i as int) =~= fields@);
        },
        _ => {
            assert(texts(field_names@) =~= texts(old(field_names)@) + names_in(*properties, prefix@));
        },
    }
}

/// Appends the names one field definition contributes.
fn names_of_field_into(def: &Json, full: String, out: &mut Vec<String>)
    ensures
        texts(final(out)@) == texts(old(out)@) + names_of_field(*def, full@),
    decreases def,
{
    let ghost full_view = full@;
    let keyword = full.clone().concat(".keyword");
    push_text(out, full.clone());
    match def {
        Json::Object(ms) => {
            proof {
                assert(decreases_to!(*def => (*def)->Object_0));
            }
            match def.get("type") {
                Some(Json::Str(t)) => {
                    if same_text(t.as_str(), "text") {
                        push_text(out, keyword);
                    }
                },
                _ => {},
            }
            assert(texts(out@) =~= texts(old(out)@) + seq![full_view] + keyword_name(ms@, full_view));
            sub_names_into(ms, "properties", full.as_str(), out);
            sub_names_into(ms, "fields", full.as_str(), out);
            assert(texts(out@) =~= texts(old(out)@) + names_of_field(*def, full_view));
        },
        _ => {
            assert(texts(out@) =~= texts(old(out)@) + names_of_field(*def, full_view));
        },
    }
}

/// Appends the names under the member `key` of a field definition.
fn sub_names_into(ms: &Vec<(String, Json)>, key: &str, full: &str, out: &mut Vec<String>)
    ensures
        texts(final(out)@) == texts(old(out)@) + sub_names(ms@, key@, full@),
    decreases ms,
{
    let mut j: usize = 0;
    assert(ms@.subrange(0, ms@.len() as int) =~= ms@);
    while j < ms.len()
        invariant
            j <= ms@.len(),
            sub_names(ms@, key@, full@) == sub_names(ms@.subrange(j as int, ms@.len() as int), key@, full@),
            out@ == old(out)@,
        decreases ms@.len() - j,
    {
        let ghost rest = ms@.subrange(j as int, ms@.len() as int);
        proof {
            assert(rest.subrange(1, rest.len() as int) =~= ms@.subrange(j + 1, ms@.len() as int));
            assert(rest[0] == ms@[j as int]);
        }
        if same_text(ms[j].0.as_str(), key) {
            proof {
                assert(decreases_to!(*ms => ms@));
                assert(decreases_to!(ms@ => ms@[j as int]));
                assert(decreases_to!(ms@[j as int] => ms@[j as int].1));
            }
            extract_field_names(&ms[j].1, full, out);
            return;
        }
        j = j + 1;
    }
    assert(texts(out@) =~= texts(old(out)@) + sub_names(ms@, key@, full@));
}

/// Names always offered besides the mapping's own fields.
pub open spec fn meta_names() -> Seq<Seq<char>> {
    seq!["_id"@, "_index"@, "_type"@, "_score"@, "_source"@, "@timestamp"@]
}

/// The field names of the first index in a mapping response, with the meta
/// fields, each once and in text order.
pub fn get_field_names(mapping: &Json) -> (r: Vec<String>)
    ensures
        forall|k: int| 0 <= k < r@.len() - 1 ==> text_lt(#[trigger] r@[k]@, r@[k + 1]@),
        forall|key: Seq<char>| has_text(r@, key) <==> (mapping_names(*mapping).contains(key) || meta_names().contains(key)),
{
    proof {
        reveal_strlit("");
        assert(""@ =~= Seq::<char>::empty());
    }
    let mut names: Vec<String> = Vec::new();
    match mapping {
        Json::Object(indices) => {
            if indices.len() > 0 {
                match indices[0].1.get("mappings") {
                    Some(m) => match m.get("properties") {
                        Some(props) => {
                            assert(texts(names@) =~= Seq::<Seq<char>>::empty());
                            extract_field_names(props, "", &mut names);
                            assert(texts(names@) =~= names_in(*props, Seq::empty()));
                        },
                        None => {},
                    },
                    None => {},
                }
            }
        },
        _ => {},
    }
    assert(texts(names@) =~= mapping_names(*mapping));
    push_text(&mut names, String::from_str("_id"));
    push_text(&mut names, String::from_str("_index"));
    push_text(&mut names, String::from_str("_type"));
    push_text(&mut names, String::from_str("_score"));
    push_text(&mut names, String::from_str("_source"));
    push_text(&mut names, String::from_str("@timestamp"));
    assert(texts(names@) =~= mapping_names(*mapping) + meta_names());
    let ghost all = names@;
    let r = sorted_unique(names);
    proof {
        assert forall|key: Seq<char>| has_text(r@, key) <==> (mapping_names(*mapping).contains(key) || meta_names().contains(key)) by {
            crate::export::lemma_has_text_views(all, key);
            lemma_concat_contains(mapping_names(*mapping), meta_names(), key);
        }
    }
    r
}

proof fn lemma_concat_contains(a: Seq<Seq<char>>, b: Seq<Seq<char>>, key: Seq<char>)
    ensures
        (a + b).contains(key) <==> (a.contains(key) || b.contains(key)),
{
    if (a + b).contains(key) {
        let i = choose|i: int| 0 <= i < (a + b).len() && (a + b)[i] == key;
        if i < a.len() {
            assert(a[i] == key);
        } else {
            assert(b[i - a.len()] == key);
        }
    }
    if a.contains(key) {
        let i = choose|i: int| 0 <= i < a.len() && a[i] == key;
        assert((a + b)[i] == key);
    }
    if b.contains(key) {
        let i = choose|i: int| 0 <= i < b.len() && b[i] == key;
        assert((a + b)[a.len() + i] == key);
    }
}

/// The field names that the first index of a mapping response declares.
pub open spec fn mapping_names(mapping: Json) -> Seq<Seq<char>> {
    match mapping {
        Json::Object(indices) => if indices@.len() > 0 {
            match crate::json::json_get(indices@[0].1, "mappings"@) {
                Some(m) => match crate::json::json_get(m, "properties"@) {
                    Some(props) => names_in(props, Seq::empty()),
                    None => Seq::empty(),
                },
                None => Seq::empty(),
            }
        } else {
            Seq::empty()
        },
        _ => Seq::empty(),
    }
}

} // verus!
