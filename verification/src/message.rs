//! The messages that rows are made of.

use crate::json::Document;
use vstd::prelude::*;

verus! {

/// The body of a message.
#[derive(Debug)]
pub enum Payload {
    Json(Document),
    Raw(Vec<u8>),
    Text(String),
    Proto(String),
    FlatBuffer(Vec<u8>),
    Avro(Vec<u8>),
}

/// A message taken from a topic.
#[derive(Debug)]
pub struct ConsumedMessage {
    pub id: u128,
    pub offset: u64,
    pub checksum: u64,
    /// Microseconds since the Unix epoch; zero where it is not set.
    pub timestamp: u64,
    /// Microseconds since the Unix epoch; zero where it is not set.
    pub origin_timestamp: u64,
    /// The headers as text, by key, in the order of their keys.
    pub headers: Option<Vec<(String, String)>>,
    pub payload: Payload,
}

/// Per-batch context that is constant across every row.
#[derive(Debug, Clone, Copy)]
pub struct RowContext<'a> {
    pub stream: &'a str,
    pub topic: &'a str,
    pub partition_id: u32,
}

} // verus!
