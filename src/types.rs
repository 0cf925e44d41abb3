//! Plain data exchanged with the cluster and with the user interface.

use vstd::prelude::*;
use std::collections::HashMap;
use crate::json::Json;

verus! {

/// A saved connection profile. The password lives in memory only; on disk
/// it is sealed (see `SecureConnectionData`).
#[derive(Debug, Clone)]
pub struct EsConnection {
    pub id: String,
    pub name: String,
    pub url: String,
    pub username: Option<String>,
    pub password: Option<String>,
    pub headers: HashMap<String, String>,
}

/// The content of an [`EsConnection`], with texts as character sequences.
pub struct ConnectionView {
    pub id: Seq<char>,
    pub name: Seq<char>,
    pub url: Seq<char>,
    pub username: Option<Seq<char>>,
    pub password: Option<Seq<char>>,
    pub headers: Map<String, String>,
}

impl View for EsConnection {
    type V = ConnectionView;

    open spec fn view(&self) -> ConnectionView {
        ConnectionView {
            id: self.id@,
            name: self.name@,
            url: self.url@,
            username: crate::error::opt_text(self.username),
            password: crate::error::opt_text(self.password),
            headers: self.headers@,
        }
    }
}

/// A copy of an optional text.
pub fn copy_opt_text(o: &Option<String>) -> (r: Option<String>)
    ensures
        r == *o,
{
    match o {
        Some(s) => Some(s.clone()),
        None => None,
    }
}

impl EsConnection {
    /// A copy with the same content.
    pub fn duplicate(&self) -> (r: EsConnection)
        ensures
            r@ == self@,
    {
        EsConnection {
            id: self.id.clone(),
            name: self.name.clone(),
            url: self.url.clone(),
            username: copy_opt_text(&self.username),
            password: copy_opt_text(&self.password),
            headers: self.headers.clone(),
        }
    }
}

#[derive(Debug, Clone)]
pub struct IndexInfo {
    pub name: String,
    pub health: String,
    pub status: String,
    pub uuid: String,
    pub primary_shards: u32,
    pub replica_shards: u32,
    pub docs_count: Option<u64>,
    pub docs_deleted: Option<u64>,
    pub store_size: Option<String>,
}

#[derive(Debug, Clone)]
pub struct SqlQuery {
    pub query: String,
    pub fetch_size: Option<u32>,
    pub request_timeout: Option<String>,
    pub page_timeout: Option<String>,
}

#[derive(Debug, Clone)]
pub struct SqlColumn {
    pub name: String,
    pub column_type: String,
}

#[derive(Debug, Clone)]
pub struct ClusterHealth {
    pub cluster_name: String,
    pub status: String,
    pub timed_out: bool,
    pub number_of_nodes: u32,
    pub number_of_data_nodes: u32,
    pub active_primary_shards: u32,
    pub active_shards: u32,
    pub relocating_shards: u32,
    pub initializing_shards: u32,
    pub unassigned_shards: u32,
}

#[derive(Debug, Clone)]
pub struct NodeIndicesStats {
    pub docs: NodeDocsStats,
    pub store: NodeStoreStats,
    pub indexing: NodeIndexingStats,
    pub search: NodeSearchStats,
    pub get: NodeGetStats,
}

#[derive(Debug, Clone, Copy)]
pub struct NodeDocsStats {
    pub count: u64,
    pub deleted: u64,
}

#[derive(Debug, Clone, Copy)]
pub struct NodeStoreStats {
    pub size_in_bytes: u64,
    pub reserved_in_bytes: u64,
}

#[derive(Debug, Clone, Copy)]
pub struct NodeIndexingStats {
    pub index_total: u64,
    pub index_time_in_millis: u64,
    pub index_current: u64,
    pub delete_total: u64,
    pub delete_time_in_millis: u64,
    pub delete_current: u64,
}

#[derive(Debug, Clone, Copy)]
pub struct NodeSearchStats {
    pub query_total: u64,
    pub query_time_in_millis: u64,
    pub query_current: u64,
    pub fetch_total: u64,
    pub fetch_time_in_millis: u64,
    pub fetch_current: u64,
}

#[derive(Debug, Clone, Copy)]
pub struct NodeGetStats {
    pub total: u64,
    pub time_in_millis: u64,
    pub exists_total: u64,
    pub exists_time_in_millis: u64,
    pub missing_total: u64,
    pub missing_time_in_millis: u64,
    pub current: u64,
}

#[derive(Debug, Clone, Copy)]
pub struct NodeMemStats {
    pub total_in_bytes: u64,
    pub free_in_bytes: u64,
    pub used_in_bytes: u64,
    pub free_percent: u32,
    pub used_percent: u32,
}

#[derive(Debug, Clone, Copy)]
pub struct NodeSwapStats {
    pub total_in_bytes: u64,
    pub free_in_bytes: u64,
    pub used_in_bytes: u64,
}

#[derive(Debug, Clone, Copy)]
pub struct NodeProcessStats {
    pub timestamp: u64,
    pub open_file_descriptors: u64,
    pub max_file_descriptors: u64,
    pub cpu: NodeProcessCpuStats,
    pub mem: NodeProcessMemStats,
}

#[derive(Debug, Clone, Copy)]
pub struct NodeProcessCpuStats {
    pub percent: u32,
    pub total_in_millis: u64,
}

#[derive(Debug, Clone, Copy)]
pub struct NodeProcessMemStats {
    pub total_virtual_in_bytes: u64,
}

#[derive(Debug, Clone, Copy)]
pub struct NodeJvmMemStats {
    pub heap_used_in_bytes: u64,
    pub heap_used_percent: u32,
    pub heap_committed_in_bytes: u64,
    pub heap_max_in_bytes: u64,
    pub non_heap_used_in_bytes: u64,
    pub non_heap_committed_in_bytes: u64,
}

#[derive(Debug, Clone, Copy)]
pub struct NodeJvmThreadStats {
    pub count: u32,
    pub peak_count: u32,
}

#[derive(Debug, Clone, Copy)]
pub struct NodeFsStats {
    pub timestamp: u64,
    pub total: NodeFsTotalStats,
}

#[derive(Debug, Clone, Copy)]
pub struct NodeFsTotalStats {
    pub total_in_bytes: u64,
    pub free_in_bytes: u64,
    pub available_in_bytes: u64,
}

#[derive(Debug, Clone, Copy)]
pub struct NodeTransportStats {
    pub server_open: u64,
    pub rx_count: u64,
    pub rx_size_in_bytes: u64,
    pub tx_count: u64,
    pub tx_size_in_bytes: u64,
}

#[derive(Debug, Clone, Copy)]
pub struct NodeHttpStats {
    pub current_open: u64,
    pub total_opened: u64,
}

#[derive(Debug, Clone, Copy, PartialEq, Eq, Structural)]
pub enum ExportFormat {
    JSON,
    CSV,
    Excel,
}

#[derive(Debug, Clone, Copy, PartialEq, Eq, Structural)]
pub enum ImportFormat {
    JSON,
    CSV,
}

#[derive(Debug, Clone)]
pub struct ExportResult {
    pub success: bool,
    pub file_path: String,
    pub total_records: u64,
    pub message: String,
}

} // verus!
