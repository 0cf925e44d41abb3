//! Reading the index listing (`_cat/indices` in JSON form).

use vstd::prelude::*;
use vstd::string::*;
use crate::codec::{parse_unsigned_text, parsed_unsigned};
use crate::error::{member_text, opt_text};
use crate::json::Json;
use crate::json::json_get;
use crate::requests::{u64_member, u64_of};
use crate::types::{ClusterHealth, IndexInfo};

verus! {

/// A text member, or the empty text.
pub open spec fn text_or_empty(row: Json, key: Seq<char>) -> Seq<char> {
    match member_text(row, key) {
        Some(t) => t,
        None => Seq::empty(),
    }
}

/// A text member read as a number of at most `max`.
pub open spec fn number_member(row: Json, key: Seq<char>, max: nat) -> Option<nat> {
    match member_text(row, key) {
        Some(t) => parsed_unsigned(t, max),
        None => None,
    }
}

/// The value of an optional number.
pub open spec fn opt_nat(o: Option<u64>) -> Option<nat> {
    match o {
        Some(v) => Some(v as nat),
        None => None,
    }
}

/// Whether `info` is what the listing row `row` says of its index: texts as
/// given (empty when missing), shard counts read as numbers (zero when
/// missing or unreadable), document counts read as numbers where readable.
pub open spec fn describes(info: IndexInfo, row: Json) -> bool {
    &&& info.name@ == text_or_empty(row, "index"@)
    &&& info.health@ == text_or_empty(row, "health"@)
    &&& info.status@ == text_or_empty(row, "status"@)
    &&& info.uuid@ == text_or_empty(row, "uuid"@)
    &&& info.primary_shards as nat == match number_member(row, "pri"@, u32::MAX as nat) {
        Some(v) => v,
        None => 0,
    }
    &&& info.replica_shards as nat == match number_member(row, "rep"@, u32::MAX as nat) {
        Some(v) => v,
        None => 0,
    }
    &&& opt_nat(info.docs_count) == number_member(row, "docs.count"@, u64::MAX as nat)
    &&& opt_nat(info.docs_deleted) == number_member(row, "docs.deleted"@, u64::MAX as nat)
    &&& opt_text(info.store_size) == member_text(row, "store.size"@)
}

fn text_member(row: &Json, key: &str) -> (r: Option<String>)
    ensures
        opt_text(r) == member_text(*row, key@),
{
    match row.get(key) {
        Some(v) => match v.as_str() {
            Some(s) => Some(s.clone()),
            None => None,
        },
        None => None,
    }
}

fn number(row: &Json, key: &str, max: u64) -> (r: Option<u64>)
    ensures
        opt_nat(r) == number_member(*row, key@, max as nat),
{
    match row.get(key) {
        Some(v) => match v.as_str() {
            Some(s) => parse_unsigned_text(s.as_str(), max),
            None => None,
        },
        None => None,
    }
}

/// One index of the listing; the listing gives every value as text.
pub fn index_info_from_row(row: &Json) -> (r: IndexInfo)
    ensures
        describes(r, *row),
{
    let text = |key: &str| -> (r: String)
        ensures
            r@ == text_or_empty(*row, key@),
        {
            match text_member(row, key) {
                Some(t) => t,
                None => String::new(),
            }
        };
    let pri = match number(row, "pri", 4294967295) {
        Some(v) => v as u32,
        None => 0,
    };
    let rep = match number(row, "rep", 4294967295) {
        Some(v) => v as u32,
        None => 0,
    };
    IndexInfo {
        name: text("index"),
        health: text("health"),
        status: text("status"),
        uuid: text("uuid"),
        primary_shards: pri,
        replica_shards: rep,
        docs_count: number(row, "docs.count", 18446744073709551615),
        docs_deleted: number(row, "docs.deleted", 18446744073709551615),
        store_size: text_member(row, "store.size"),
    }
}

/// The indices of the listing, in order; the listing is an array of rows.
pub fn index_infos(listing: &Json) -> (r: Vec<IndexInfo>)
    ensures
        match listing {
            Json::Array(rows) => r@.len() == rows@.len() && forall|i: int|
                0 <= i < rows@.len() ==> describes(#[trigger] r@[i], rows@[i]),
            _ => r@.len() == 0,
        },
{
    let mut out: Vec<IndexInfo> = Vec::new();
    match listing {
        Json::Array(rows) => {
            let mut i: usize = 0;
            while i < rows.len()
                invariant
                    i <= rows@.len(),
                    out@.len() == i,
                    forall|k: int| 0 <= k < i ==> describes(#[trigger] out@[k], rows@[k]),
                decreases rows@.len() - i,
            {
                out.push(index_info_from_row(&rows[i]));
                i = i + 1;
            }
        },
        _ => {},
    }
    out
}

/// A member that is a number of at most `u32::MAX`.
pub open spec fn u32_member(j: Json, key: Seq<char>) -> Option<nat> {
    match u64_member(j, key) {
        Some(v) => if v <= u32::MAX {
            Some(v)
        } else {
            None
        },
        None => None,
    }
}

/// A member that is a boolean.
pub open spec fn bool_member(j: Json, key: Seq<char>) -> Option<bool> {
    match json_get(j, key) {
        Some(Json::Bool(b)) => Some(b),
        _ => None,
    }
}

/// Whether the health answer has every member, each of its type.
pub open spec fn health_complete(j: Json) -> bool {
    &&& member_text(j, "cluster_name"@) is Some
    &&& member_text(j, "status"@) is Some
    &&& bool_member(j, "timed_out"@) is Some
    &&& u32_member(j, "number_of_nodes"@) is Some
    &&& u32_member(j, "number_of_data_nodes"@) is Some
    &&& u32_member(j, "active_primary_shards"@) is Some
    &&& u32_member(j, "active_shards"@) is Some
    &&& u32_member(j, "relocating_shards"@) is Some
    &&& u32_member(j, "initializing_shards"@) is Some
    &&& u32_member(j, "unassigned_shards"@) is Some
}

fn u32_of(j: &Json, key: &str) -> (r: Option<u32>)
    ensures
        match r {
            Some(v) => u32_member(*j, key@) == Some(v as nat),
            None => u32_member(*j, key@) is None,
        },
{
    match u64_of(j, key) {
        Some(v) => if v <= 4294967295 {
            Some(v as u32)
        } else {
            None
        },
        None => None,
    }
}

/// The cluster's health; nothing when a member is missing or of another type.
pub fn cluster_health_from(j: &Json) -> (r: Option<ClusterHealth>)
    ensures
        r is Some <==> health_complete(*j),
        r matches Some(h) ==> {
            &&& Some(h.cluster_name@) == member_text(*j, "cluster_name"@)
            &&& Some(h.status@) == member_text(*j, "status"@)
            &&& Some(h.timed_out) == bool_member(*j, "timed_out"@)
            &&& Some(h.number_of_nodes as nat) == u32_member(*j, "number_of_nodes"@)
            &&& Some(h.number_of_data_nodes as nat) == u32_member(*j, "number_of_data_nodes"@)
            &&& Some(h.active_primary_shards as nat) == u32_member(*j, "active_primary_shards"@)
            &&& Some(h.active_shards as nat) == u32_member(*j, "active_shards"@)
            &&& Some(h.relocating_shards as nat) == u32_member(*j, "relocating_shards"@)
            &&& Some(h.initializing_shards as nat) == u32_member(*j, "initializing_shards"@)
            &&& Some(h.unassigned_shards as nat) == u32_member(*j, "unassigned_shards"@)
        },
{
    let cluster_name = match text_member(j, "cluster_name") {
        Some(t) => t,
        None => return None,
    };
    let status = match text_member(j, "status") {
        Some(t) => t,
        None => return None,
    };
    let timed_out = match j.get("timed_out") {
        Some(Json::Bool(b)) => *b,
        _ => return None,
    };
    let number_of_nodes = match u32_of(j, "number_of_nodes") {
        Some(v) => v,
        None => return None,
    };
    let number_of_data_nodes = match u32_of(j, "number_of_data_nodes") {
        Some(v) => v,
        None => return None,
    };
    let active_primary_shards = match u32_of(j, "active_primary_shards") {
        Some(v) => v,
        None => return None,
    };
    let active_shards = match u32_of(j, "active_shards") {
        Some(v) => v,
        None => return None,
    };
    let relocating_shards = match u32_of(j, "relocating_shards") {
        Some(v) => v,
        None => return None,
    };
    let initializing_shards = match u32_of(j, "initializing_shards") {
        Some(v) => v,
        None => return None,
    };
    let unassigned_shards = match u32_of(j, "unassigned_shards") {
        Some(v) => v,
        None => return None,
    };
    Some(
        ClusterHealth {
            cluster_name,
            status,
            timed_out,
            number_of_nodes,
            number_of_data_nodes,
            active_primary_shards,
            active_shards,
            relocating_shards,
            initializing_shards,
            unassigned_shards,
        },
    )
}

} // verus!
