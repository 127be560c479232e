//! The JSON configuration given when the store is opened.

use vstd::prelude::*;
use crate::json::JsonValue;
use crate::encode::{json_text, parse_json};

verus! {

/// What opening the store reads from its configuration.
#[derive(Debug, PartialEq, Eq)]
pub struct ConnectConfig {
    /// The connection string.
    pub dsn: String,
    /// The smallest pool size asked for.
    pub pool_min: usize,
    /// The largest pool size asked for.
    pub pool_max: usize,
}

/// An unsigned member of the configuration, or `default` when it is
/// missing or not an unsigned integer.
pub open spec fn u64_or(v: JsonValue, default: u64) -> u64 {
    match v.as_u64() {
        Some(n) => n,
        None => default,
    }
}

/// Reads `{"dsn": .., "pool_min": .., "pool_max": ..}`: a missing or
/// non-string `dsn` is empty, and the pool sizes default to 2 and 10.
pub fn connect_config(config: &JsonValue) -> (c: ConnectConfig)
    ensures
        c.dsn@ == config.field("dsn"@).text_or_empty(),
        c.pool_min == u64_or(config.field("pool_min"@), 2) as usize,
        c.pool_max == u64_or(config.field("pool_max"@), 10) as usize,
        config.field("pool_min"@) matches JsonValue::PosInt(n) ==> c.pool_min == n as usize,
        config.field("pool_max"@) matches JsonValue::PosInt(n) ==> c.pool_max == n as usize,
        !(config.field("pool_min"@) is PosInt) ==> c.pool_min == 2,
        !(config.field("pool_max"@) is PosInt) ==> c.pool_max == 10,
{
    let dsn = config.text_field("dsn");
    let pool_min = config.u64_field_or("pool_min", 2) as usize;
    let pool_max = config.u64_field_or("pool_max", 10) as usize;
    ConnectConfig { dsn, pool_min, pool_max }
}

/// Reads the configuration text given when the store is opened: `None`
/// when it is not JSON text, and otherwise what `connect_config` reads
/// from the document.
pub fn read_config(text: &[u8]) -> (r: Option<ConnectConfig>)
    ensures
        match json_text(text@) {
            Some(doc) => r matches Some(c) && {
                &&& c.dsn@ == doc.field("dsn"@).text_or_empty()
                &&& c.pool_min == u64_or(doc.field("pool_min"@), 2) as usize
                &&& c.pool_max == u64_or(doc.field("pool_max"@), 10) as usize
            },
            None => r is None,
        },
{
    match parse_json(text) {
        Some(doc) => Some(connect_config(&doc)),
        None => None,
    }
}

} // verus!
