//! Requests for Elasticsearch's `_bulk` endpoint: one action line per
//! operation, followed by a document line where the action carries one.

use vstd::prelude::*;
use vstd::string::*;
use crate::error::opt_text;
use crate::json::{json_text, json_to_text, lemma_members_push, members_of, Json, JsonView};

verus! {

/// One instruction of a bulk request. `action` is one of `index`, `create`,
/// `update` and `delete`.
#[derive(Debug, Clone)]
pub struct BulkOperation {
    pub action: String,
    pub index: String,
    pub id: Option<String>,
    pub document: Option<Json>,
}

/// The operations of one bulk request, in order.
#[derive(Debug, Clone)]
pub struct BulkRequest {
    pub operations: Vec<BulkOperation>,
}

/// The content of an optional document.
pub open spec fn opt_view(d: Option<Json>) -> Option<JsonView> {
    match d {
        Some(j) => Some(j@),
        None => None,
    }
}

/// Whether `action` names a bulk action.
pub open spec fn is_bulk_action(action: Seq<char>) -> bool {
    action == "index"@ || action == "create"@ || action == "update"@ || action == "delete"@
}

/// The `_id` of an action line: the id, or null when the cluster assigns one.
pub open spec fn id_view(id: Option<Seq<char>>) -> JsonView {
    match id {
        Some(i) => JsonView::Str(i),
        None => JsonView::Null,
    }
}

/// The action line `{"<action>": {"_index": ..., "_id": ...}}`.
pub open spec fn action_line(action: Seq<char>, index: Seq<char>, id: Option<Seq<char>>) -> JsonView {
    JsonView::Object(
        seq![(action, JsonView::Object(seq![("_index"@, JsonView::Str(index)), ("_id"@, id_view(id))]))],
    )
}

/// The lines of one operation: the action line, then the document line unless
/// there is no document or the action is `delete`; `update` wraps the
/// document as `{"doc": ...}`.
pub open spec fn op_lines(
    action: Seq<char>,
    index: Seq<char>,
    id: Option<Seq<char>>,
    doc: Option<JsonView>,
) -> Seq<char> {
    json_text(action_line(action, index, id)) + "\n"@ + match doc {
        Some(d) => if action == "delete"@ {
            Seq::empty()
        } else {
            json_text(
                if action == "update"@ {
                    JsonView::Object(seq![("doc"@, d)])
                } else {
                    d
                },
            ) + "\n"@
        },
        None => Seq::empty(),
    }
}

/// The body of a bulk request, or the message naming the first operation
/// whose action is not a bulk action.
pub open spec fn bulk_text(ops: Seq<BulkOperation>) -> Result<Seq<char>, Seq<char>>
    decreases ops.len(),
{
    if ops.len() == 0 {
        Ok(Seq::empty())
    } else {
        match bulk_text(ops.drop_last()) {
            Err(e) => Err(e),
            Ok(t) => {
                let op = ops.last();
                if is_bulk_action(op.action@) {
                    Ok(t + op_lines(op.action@, op.index@, opt_text(op.id), opt_view(op.document)))
                } else {
                    Err("Unsupported bulk operation: "@ + op.action@)
                }
            },
        }
    }
}

/// Once a prefix of the operations fails, the whole request fails with the
/// same message.
proof fn lemma_failure_persists(ops: Seq<BulkOperation>, k: int, msg: Seq<char>)
    requires
        0 <= k <= ops.len(),
        bulk_text(ops.take(k)) == Err::<Seq<char>, Seq<char>>(msg),
    ensures
        bulk_text(ops) == Err::<Seq<char>, Seq<char>>(msg),
    decreases ops.len() - k,
{
    if k == ops.len() {
        assert(ops.take(k) =~= ops);
    } else {
        assert(ops.take(k + 1).drop_last() =~= ops.take(k));
        lemma_failure_persists(ops, k + 1, msg);
    }
}

/// Appends the lines of one operation.
pub(crate) fn append_op_lines(
    out: &mut String,
    action: &str,
    index: &str,
    id: &Option<String>,
    doc: Option<&Json>,
)
    ensures
        final(out)@ == old(out)@ + op_lines(
            action@,
            index@,
            opt_text(*id),
            match doc {
                Some(d) => Some(d@),
                None => None,
            },
        ),
{
    let id_json = match id {
        Some(i) => Json::Str(i.clone()),
        None => Json::Null,
    };
    let mut inner: Vec<(String, Json)> = Vec::new();
    let first = (String::from_str("_index"), Json::Str(String::from_str(index)));
    proof {
        lemma_members_push(inner@, first);
    }
    inner.push(first);
    let second = (String::from_str("_id"), id_json);
    proof {
        lemma_members_push(inner@, second);
    }
    inner.push(second);
    let ghost inner_view = JsonView::Object(
        seq![("_index"@, JsonView::Str(index@)), ("_id"@, id_view(opt_text(*id)))],
    );
    assert(members_of(Seq::<(String, Json)>::empty()) == Seq::<(Seq<char>, JsonView)>::empty());
    assert(members_of(inner@) =~= seq![("_index"@, JsonView::Str(index@)), ("_id"@, id_view(opt_text(*id)))]);
    let mut outer: Vec<(String, Json)> = Vec::new();
    let entry = (String::from_str(action), Json::Object(inner));
    proof {
        lemma_members_push(outer@, entry);
        assert(members_of(Seq::<(String, Json)>::empty()) == Seq::<(Seq<char>, JsonView)>::empty());
    }
    outer.push(entry);
    assert(members_of(outer@) =~= seq![(action@, inner_view)]);
    let line = Json::Object(outer);
    assert(line@ =~= action_line(action@, index@, opt_text(*id)));
    let line_text = json_to_text(&line);
    out.append(line_text.as_str());
    out.append("\n");
    match doc {
        Some(d) => {
            if crate::json::same_text(action, "delete") {
            } else if crate::json::same_text(action, "update") {
                let mut wrapped: Vec<(String, Json)> = Vec::new();
                let member = (String::from_str("doc"), d.copy());
                proof {
                    lemma_members_push(wrapped@, member);
                }
                wrapped.push(member);
                let wrapper = Json::Object(wrapped);
                assert(wrapper@ =~= JsonView::Object(seq![("doc"@, d@)]));
                let doc_text = json_to_text(&wrapper);
                out.append(doc_text.as_str());
                out.append("\n");
            } else {
                let doc_text = json_to_text(d);
                out.append(doc_text.as_str());
                out.append("\n");
            }
        },
        None => {},
    }
}

/// The newline-delimited body of a bulk request; an operation whose action is
/// not a bulk action fails the whole request.
pub fn bulk_body(request: &BulkRequest) -> (r: Result<String, String>)
    ensures
        match r {
            Ok(b) => bulk_text(request.operations@) == Ok::<Seq<char>, Seq<char>>(b@),
            Err(m) => bulk_text(request.operations@) == Err::<Seq<char>, Seq<char>>(m@),
        },
{
    let ops = &request.operations;
    let mut body = String::new();
    let mut i: usize = 0;
    while i < ops.len()
        invariant
            ops@ == request.operations@,
            i <= ops@.len(),
            bulk_text(ops@.take(i as int)) == Ok::<Seq<char>, Seq<char>>(body@),
        decreases ops@.len() - i,
    {
        let op = &ops[i];
        proof {
            assert(ops@.take(i + 1).drop_last() =~= ops@.take(i as int));
        }
        let a = op.action.as_str();
        if !(crate::json::same_text(a, "index") || crate::json::same_text(a, "create")
            || crate::json::same_text(a, "update") || crate::json::same_text(a, "delete")) {
            let mut msg = String::from_str("Unsupported bulk operation: ");
            msg.append(a);
            proof {
                assert(ops@.take(i + 1).last() == ops@[i as int]);
                assert(!is_bulk_action(ops@[i as int].action@));
                assert(bulk_text(ops@.take(i + 1)) == Err::<Seq<char>, Seq<char>>(msg@));
                lemma_failure_persists(ops@, i + 1, msg@);
            }
            return Err(msg);
        }
        let doc = match &op.document {
            Some(d) => Some(d),
            None => None,
        };
        append_op_lines(&mut body, a, op.index.as_str(), &op.id, doc);
        i = i + 1;
    }
    assert(ops@.take(ops@.len() as int) =~= ops@);
    Ok(body)
}

} // verus!
