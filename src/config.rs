use vstd::prelude::*;

use crate::field_map::FieldMap;
use crate::property::{property_map_of, to_property_map};
use crate::reply::{lemma_bulk_view, text_value, text_of, view_result, DecodeError, Reply, ReplyValue};

verus! {

/// A listing of server configuration values by name.
#[derive(Debug)]
pub struct GraphConfig {
    pub values: FieldMap<ReplyValue>,
}

impl View for GraphConfig {
    type V = Map<Seq<char>, Reply>;

    open spec fn view(&self) -> Map<Seq<char>, Reply> {
        self.values@
    }
}

/// A configuration listing: an array of `[name, value]` pairs; any other reply
/// stands for the empty listing.
pub open spec fn config_of(r: Reply) -> Result<Map<Seq<char>, Reply>, DecodeError> {
    if r is Bulk {
        property_map_of(r)
    } else {
        Ok(Map::empty())
    }
}

/// The value of a `[name, value]` reply.
pub open spec fn pair_value_of(r: Reply) -> Result<Reply, DecodeError> {
    match r {
        Reply::Bulk(xs) => if xs.len() != 2 {
            Err(DecodeError::Shape)
        } else if text_of(xs[0]) is None {
            Err(DecodeError::FieldDecode)
        } else {
            Ok(xs[1])
        },
        _ => Err(DecodeError::Shape),
    }
}

impl GraphConfig {
    /// Decodes a configuration listing.
    pub fn from_redis_value(v: &ReplyValue) -> (r: Result<GraphConfig, DecodeError>)
        ensures
            view_result(r) == config_of(v@),
    {
        match v {
            ReplyValue::Bulk(_) => match to_property_map(v) {
                Ok(values) => Ok(GraphConfig { values }),
                Err(e) => Err(e),
            },
            _ => Ok(GraphConfig { values: FieldMap::new() }),
        }
    }

    /// The raw value configured under `key`, if any.
    pub fn get_value(&self, key: &str) -> (r: Option<&ReplyValue>)
        ensures
            r is Some <==> self@.contains_key(key@),
            r is Some ==> r->0@ == self@[key@],
    {
        self.values.get(key)
    }
}

/// Reads a `[name, value]` reply and gives back the value.
pub fn value_from_pair(v: &ReplyValue) -> (r: Result<ReplyValue, DecodeError>)
    ensures
        view_result(r) == pair_value_of(v@),
{
    match v {
        ReplyValue::Bulk(xs) => {
            proof {
                lemma_bulk_view(*v);
            }
            if xs.len() != 2 {
                return Err(DecodeError::Shape);
            }
            match text_value(&xs[0]) {
                Some(_) => Ok(xs[1].duplicate()),
                None => Err(DecodeError::FieldDecode),
            }
        },
        _ => Err(DecodeError::Shape),
    }
}

} // verus!
