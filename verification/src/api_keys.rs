use vstd::prelude::*;

use crate::process_error::ProcessError;
use crate::text::{parse_i32, parse_i32_spec};

verus! {

/// Reads the application id the user typed; text that is not a decimal
/// 32-bit number is the dedicated parse failure.
pub fn parse_api_id(text: &str) -> (r: Result<i32, ProcessError>)
    ensures
        match r {
            Ok(v) => parse_i32_spec(text@) == Some(v as int),
            Err(e) => parse_i32_spec(text@) is None && e
                == ProcessError::CannotParseAPIIDToInteger,
        },
{
    match parse_i32(text) {
        Some(v) => Ok(v),
        None => Err(ProcessError::CannotParseAPIIDToInteger),
    }
}

/// The application credentials that authenticate the process itself to the
/// backend: a numeric application id and a secret string.
#[derive(Debug, Clone, PartialEq)]
pub struct APIKeys {
    pub api_id: i32,
    pub api_hash: String,
}

impl APIKeys {
    /// A credentials record from its two parts.
    pub fn new(api_id: i32, api_hash: String) -> (r: Self)
        ensures
            r.api_id == api_id,
            r.api_hash == api_hash,
    {
        Self { api_hash, api_id }
    }
}

} // verus!
