//! Decoding of graph-query replies into typed result sets, nodes, relations,
//! slow-log entries and configuration listings.
//!
//! A reply arrives as a `ReplyValue` tree. Each decoder states its result over
//! the reply's model (`Reply`) and spec functions that say how each shape is
//! read: `result_set_of`, `graph_value_of`, `node_of`, `relation_of`,
//! `property_map_of`, `slowlog_entry_of`, `config_of` and `pair_value_of`.

mod config;
mod field_map;
mod graph;
mod property;
mod reply;
mod result_set;
mod slowlog;
mod wire;

pub use config::{config_of, pair_value_of, value_from_pair, GraphConfig};
pub use field_map::FieldMap;
pub use graph::{
    graph_value_of, lemma_node_defaults, lemma_relation_defaults, node_of, relation_of,
    GraphValue, GraphValueView, NodeValue, NodeView, RelationValue, RelationView, WithProperties,
};
pub use property::{
    lemma_later_pair_wins, lemma_repeated_name_keeps_last, pairs_to_map, property_map_of,
    to_property_map,
};
pub use reply::{
    items_of, parsed_u64, text_list, text_list_of, text_of, text_value, u64_of, u64_value,
    view_result, DecodeError, Reply, ReplyValue,
};
pub use result_set::{
    lemma_row_keys, lemma_triple_header_and_rows, result_set_of, row_of, zip_row, GraphResult,
    GraphResultSet, ResultSetView,
};
pub use slowlog::{slowlog_entry_of, slowlog_of, SlowLogEntry, SlowLogView};
