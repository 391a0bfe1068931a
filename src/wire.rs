use vstd::prelude::*;
use vstd::utf8::{decode_utf8, valid_utf8};

use crate::reply::parsed_u64;

verus! {

/// Relies on `redis::from_redis_value::<String>`, which reads binary data with
/// `str::from_utf8`: it succeeds exactly on valid UTF-8 and keeps its characters.
#[verifier::external_body]
pub(crate) fn utf8_string(b: &Vec<u8>) -> (r: Option<String>)
    ensures
        r is Some <==> valid_utf8(b@),
        r is Some ==> r->0@ == decode_utf8(b@),
{
    redis::from_redis_value::<String>(&redis::Value::Data(b.clone())).ok()
}

/// Relies on `redis::from_redis_value::<u64>`, which reads a status line with
/// `str::parse::<u64>`: an optional `+` and decimal digits whose value fits.
#[verifier::external_body]
pub(crate) fn parse_u64(s: &String) -> (r: Option<u64>)
    ensures
        r == parsed_u64(s@),
{
    redis::from_redis_value::<u64>(&redis::Value::Status(s.clone())).ok()
}

} // verus!
