//! Reading the answer of the SQL endpoint: columns, rows and the cursor for
//! the next page.

use vstd::prelude::*;
use vstd::string::*;
use crate::error::{member_text, opt_text};
use crate::json::{json_get, views_of, Json};
use crate::types::SqlColumn;

verus! {

/// One page of an SQL query's result.
#[derive(Debug, Clone)]
pub struct SqlResult {
    pub columns: Vec<SqlColumn>,
    pub rows: Vec<Vec<Json>>,
    pub cursor: Option<String>,
}

/// The columns that name both a name and a type, as `(name, type)`.
pub open spec fn sql_columns(cols: Seq<Json>) -> Seq<(Seq<char>, Seq<char>)>
    decreases cols.len(),
{
    if cols.len() == 0 {
        Seq::empty()
    } else {
        sql_columns(cols.drop_last()) + match (member_text(cols.last(), "name"@), member_text(cols.last(), "type"@)) {
            (Some(n), Some(t)) => seq![(n, t)],
            _ => Seq::empty(),
        }
    }
}

/// The rows that are arrays.
pub open spec fn sql_rows(rows: Seq<Json>) -> Seq<Seq<Json>>
    decreases rows.len(),
{
    if rows.len() == 0 {
        Seq::empty()
    } else {
        sql_rows(rows.drop_last()) + match rows.last() {
            Json::Array(items) => seq![items@],
            _ => Seq::empty(),
        }
    }
}

/// The elements of an array member, or none.
pub open spec fn array_member(response: Json, key: Seq<char>) -> Seq<Json> {
    match json_get(response, key) {
        Some(Json::Array(items)) => items@,
        _ => Seq::empty(),
    }
}

/// The columns, rows and cursor of an SQL response.
pub fn sql_result(response: &Json) -> (r: SqlResult)
    ensures
        r.columns@.len() == sql_columns(array_member(*response, "columns"@)).len(),
        forall|i: int|
            0 <= i < r.columns@.len() ==> (#[trigger] r.columns@[i]).name@ == sql_columns(
                array_member(*response, "columns"@),
            )[i].0 && r.columns@[i].column_type@ == sql_columns(array_member(*response, "columns"@))[i].1,
        r.rows@.len() == sql_rows(array_member(*response, "rows"@)).len(),
        forall|i: int|
            0 <= i < r.rows@.len() ==> views_of((#[trigger] r.rows@[i])@) == views_of(
                sql_rows(array_member(*response, "rows"@))[i],
            ),
        opt_text(r.cursor) == member_text(*response, "cursor"@),
{
    let cols = match response.get("columns") {
        Some(Json::Array(items)) => Some(items),
        _ => None,
    };
    let mut columns: Vec<SqlColumn> = Vec::new();
    match cols {
        Some(items) => {
            let mut i: usize = 0;
            while i < items.len()
                invariant
                    i <= items@.len(),
                    array_member(*response, "columns"@) == items@,
                    columns@.len() == sql_columns(items@.take(i as int)).len(),
                    forall|k: int|
                        0 <= k < columns@.len() ==> (#[trigger] columns@[k]).name@ == sql_columns(
                            items@.take(i as int),
                        )[k].0 && columns@[k].column_type@ == sql_columns(items@.take(i as int))[k].1,
                decreases items@.len() - i,
            {
                proof {
                    assert(items@.take(i + 1).drop_last() =~= items@.take(i as int));
                    assert(items@.take(i + 1).last() == items@[i as int]);
                }
                let col = &items[i];
                let name = match col.get("name") {
                    Some(n) => n.as_str(),
                    None => None,
                };
                let kind = match col.get("type") {
                    Some(t) => t.as_str(),
                    None => None,
                };
                match (name, kind) {
                    (Some(n), Some(t)) => {
                        columns.push(SqlColumn { name: n.clone(), column_type: t.clone() });
                    },
                    _ => {},
                }
                i = i + 1;
            }
            assert(items@.take(i as int) =~= items@);
        },
        None => {
            assert(array_member(*response, "columns"@) == Seq::<Json>::empty());
        },
    }
    let mut rows: Vec<Vec<Json>> = Vec::new();
    match response.get("rows") {
        Some(Json::Array(items)) => {
            let mut i: usize = 0;
            while i < items.len()
                invariant
                    i <= items@.len(),
                    array_member(*response, "rows"@) == items@,
                    rows@.len() == sql_rows(items@.take(i as int)).len(),
                    forall|k: int|
                        0 <= k < rows@.len() ==> views_of((#[trigger] rows@[k])@) == views_of(
                            sql_rows(items@.take(i as int))[k],
                        ),
                decreases items@.len() - i,
            {
                proof {
                    assert(items@.take(i + 1).drop_last() =~= items@.take(i as int));
                    assert(items@.take(i + 1).last() == items@[i as int]);
                }
                match &items[i] {
                    Json::Array(_) => {
                        match items[i].copy() {
                            Json::Array(row) => {
                                rows.push(row);
                            },
                            _ => {},
                        }
                    },
                    _ => {},
                }
                i = i + 1;
            }
            assert(items@.take(i as int) =~= items@);
        },
        _ => {},
    }
    let cursor = match response.get("cursor") {
        Some(c) => match c.as_str() {
            Some(s) => Some(s.clone()),
            None => None,
        },
        None => None,
    };
    SqlResult { columns, rows, cursor }
}

} // verus!
