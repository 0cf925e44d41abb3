//! Core of a desktop client for Elasticsearch clusters: encrypted credential
//! storage, the connection store, the chunked bulk import and export
//! pipeline, the document codec and the structured error taxonomy, together
//! with the request bodies and answer readers the client needs. Files, the
//! network and the user interface stay with the program that uses it.

pub mod aggregation;
pub mod bulk;
pub mod catalog;
pub mod codec;
pub mod crypto;
pub mod error;
pub mod export;
pub mod import;
pub mod json;
pub mod mapping;
pub mod requests;
pub mod search;
pub mod sql;
pub mod store;
pub mod text;
pub mod types;
