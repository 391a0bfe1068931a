use redis_graph::{
    text_list, text_value, to_property_map, u64_value, value_from_pair, DecodeError, FieldMap,
    GraphConfig, GraphResultSet, GraphValue, NodeValue, RelationValue, ReplyValue, SlowLogEntry,
    WithProperties,
};

fn s(text: &str) -> ReplyValue {
    ReplyValue::Data(text.as_bytes().to_vec())
}

fn bulk(items: Vec<ReplyValue>) -> ReplyValue {
    ReplyValue::Bulk(items)
}

fn pair(name: &str, value: ReplyValue) -> ReplyValue {
    bulk(vec![s(name), value])
}

fn text_of(v: &ReplyValue) -> String {
    text_value(v).unwrap()
}

#[test]
fn empty_array_is_empty_result() {
    let r = GraphResultSet::from_redis_value(&bulk(vec![])).unwrap();
    assert!(r.header.is_empty());
    assert!(r.data.is_empty());
    assert!(r.metadata.is_empty());
}

#[test]
fn single_member_holds_metadata_only() {
    let r = GraphResultSet::from_redis_value(&bulk(vec![bulk(vec![s("ok")])])).unwrap();
    assert!(r.header.is_empty());
    assert!(r.data.is_empty());
    assert_eq!(r.metadata, vec!["ok".to_string()]);
}

#[test]
fn triple_keeps_header_and_row_count() {
    let reply = bulk(vec![
        bulk(vec![s("a"), s("b")]),
        bulk(vec![
            bulk(vec![ReplyValue::Int(1), ReplyValue::Int(2)]),
            bulk(vec![ReplyValue::Int(3), ReplyValue::Int(4)]),
            bulk(vec![]),
        ]),
        bulk(vec![s("Query internal execution time: 0.1 milliseconds")]),
    ]);
    let r = GraphResultSet::from_redis_value(&reply).unwrap();
    assert_eq!(r.header, vec!["a".to_string(), "b".to_string()]);
    assert_eq!(r.data.len(), 3);
    assert_eq!(r.data[2].data.len(), 0);
    assert_eq!(r.metadata.len(), 1);
}

#[test]
fn row_cells_beyond_header_are_dropped() {
    let reply = bulk(vec![
        bulk(vec![s("a"), s("b")]),
        bulk(vec![bulk(vec![ReplyValue::Int(1), ReplyValue::Int(2), ReplyValue::Int(3)])]),
        bulk(vec![]),
    ]);
    let r = GraphResultSet::from_redis_value(&reply).unwrap();
    let row = &r.data[0];
    assert_eq!(row.data.len(), 2);
    assert_eq!(row.get_scalar("a"), Some(&ReplyValue::Int(1)));
    assert_eq!(row.get_scalar("b"), Some(&ReplyValue::Int(2)));
    assert!(row.get_value("c").is_none());
}

#[test]
fn short_row_leaves_names_out() {
    let reply = bulk(vec![
        bulk(vec![s("a"), s("b")]),
        bulk(vec![bulk(vec![ReplyValue::Int(1)])]),
    ]);
    let r = GraphResultSet::from_redis_value(&reply).unwrap();
    assert_eq!(r.data[0].data.len(), 1);
    assert!(r.data[0].get_value("b").is_none());
    assert!(r.metadata.is_empty());
}

#[test]
fn repeated_header_name_takes_later_cell() {
    let reply = bulk(vec![
        bulk(vec![s("a"), s("a")]),
        bulk(vec![bulk(vec![ReplyValue::Int(1), ReplyValue::Int(2)])]),
        bulk(vec![]),
    ]);
    let r = GraphResultSet::from_redis_value(&reply).unwrap();
    assert_eq!(r.data[0].data.len(), 1);
    assert_eq!(r.data[0].get_scalar("a"), Some(&ReplyValue::Int(2)));
}

#[test]
fn three_member_array_is_node() {
    let v = bulk(vec![bulk(vec![]), bulk(vec![]), bulk(vec![])]);
    assert!(matches!(GraphValue::from_redis_value(&v), Ok(GraphValue::Node(_))));
}

#[test]
fn other_arrays_are_relations() {
    for n in [0usize, 1, 2, 4, 5] {
        let v = bulk((0..n).map(|_| bulk(vec![])).collect());
        assert!(matches!(GraphValue::from_redis_value(&v), Ok(GraphValue::Relation(_))));
    }
}

#[test]
fn non_arrays_are_scalars() {
    for v in [ReplyValue::Int(7), s("x"), ReplyValue::Nil, ReplyValue::Okay] {
        match GraphValue::from_redis_value(&v) {
            Ok(GraphValue::Scalar(inner)) => assert_eq!(inner, v),
            other => panic!("not a scalar: {:?}", other),
        }
    }
}

#[test]
fn node_without_fields_takes_defaults() {
    let n = NodeValue::from_redis_value(&bulk(vec![])).unwrap();
    assert_eq!(n.id, 0);
    assert!(n.labels.is_empty());
    assert!(n.properties.is_empty());
}

#[test]
fn relation_without_fields_takes_defaults() {
    let r = RelationValue::from_redis_value(&bulk(vec![])).unwrap();
    assert_eq!(r.id, 0);
    assert_eq!(r.rel_type, "");
    assert_eq!(r.src_node, 0);
    assert_eq!(r.dest_node, 0);
    assert!(r.properties.is_empty());
}

#[test]
fn relation_fields_are_read_by_name() {
    let v = bulk(vec![
        pair("id", ReplyValue::Int(3)),
        pair("type", s("works")),
        pair("src_node", ReplyValue::Int(1)),
        pair("dest_node", s("2")),
        pair("properties", bulk(vec![pair("since", ReplyValue::Int(2010))])),
    ]);
    let r = RelationValue::from_redis_value(&v).unwrap();
    assert_eq!(r.id, 3);
    assert_eq!(r.rel_type, "works");
    assert_eq!(r.src_node, 1);
    assert_eq!(r.dest_node, 2);
    assert_eq!(r.get_property_value("since"), Some(&ReplyValue::Int(2010)));
    assert!(r.get_property_value("until").is_none());
}

#[test]
fn non_numeric_id_is_field_error() {
    let v = bulk(vec![pair("id", s("one")), pair("labels", bulk(vec![])), pair("x", bulk(vec![]))]);
    assert_eq!(NodeValue::from_redis_value(&v).unwrap_err(), DecodeError::FieldDecode);
}

#[test]
fn later_pair_wins() {
    let v = bulk(vec![pair("k", s("v1")), pair("k", s("v2"))]);
    let m = to_property_map(&v).unwrap();
    assert_eq!(m.len(), 1);
    assert_eq!(m.get("k"), Some(&s("v2")));
}

#[test]
fn pairs_of_other_lengths_are_skipped() {
    let v = bulk(vec![bulk(vec![s("a")]), pair("b", ReplyValue::Int(1)), bulk(vec![s("c"), s("d"), s("e")])]);
    let m = to_property_map(&v).unwrap();
    assert_eq!(m.len(), 1);
    assert!(m.contains_key("b"));
}

#[test]
fn non_list_input_gives_empty_map() {
    assert!(to_property_map(&ReplyValue::Int(5)).unwrap().is_empty());
    assert!(to_property_map(&bulk(vec![ReplyValue::Int(5), pair("a", s("b"))])).unwrap().is_empty());
}

#[test]
fn non_text_name_is_field_error() {
    let v = bulk(vec![bulk(vec![ReplyValue::Int(1), s("v")])]);
    assert_eq!(to_property_map(&v).unwrap_err(), DecodeError::FieldDecode);
}

#[test]
fn slowlog_entry_of_three_fields_is_arity_error() {
    let v = bulk(vec![ReplyValue::Int(1), s("GRAPH.QUERY"), s("MATCH (n) RETURN n")]);
    assert_eq!(SlowLogEntry::from_redis_value(&v).unwrap_err(), DecodeError::FixedArity);
    assert_eq!(SlowLogEntry::from_redis_value(&ReplyValue::Int(1)).unwrap_err(), DecodeError::FixedArity);
}

#[test]
fn slowlog_entries_are_read_in_order() {
    let entry = |ts: &str, q: &str| bulk(vec![s(ts), s("GRAPH.QUERY"), s(q), s("0.5")]);
    let v = bulk(vec![entry("1600000000", "q1"), entry("1600000001", "q2")]);
    let log = SlowLogEntry::list_from_redis_value(&v).unwrap();
    assert_eq!(log.len(), 2);
    assert_eq!(log[0].timestamp, 1600000000);
    assert_eq!(log[0].command, "GRAPH.QUERY");
    assert_eq!(log[1].query, "q2");
    assert_eq!(log[1].time, s("0.5"));
    assert!(SlowLogEntry::list_from_redis_value(&ReplyValue::Nil).unwrap().is_empty());
    assert_eq!(SlowLogEntry::list_from_redis_value(&ReplyValue::Int(3)).unwrap_err(), DecodeError::Shape);
}

#[test]
fn scenario_node_row() {
    let node = bulk(vec![
        pair("id", ReplyValue::Int(1)),
        pair("labels", bulk(vec![s("Person")])),
        pair("properties", bulk(vec![pair("name", s("Pam"))])),
    ]);
    let reply = bulk(vec![
        bulk(vec![s("n1")]),
        bulk(vec![bulk(vec![node])]),
        bulk(vec![s("nodes created: 1")]),
    ]);
    let r = GraphResultSet::from_redis_value(&reply).unwrap();
    assert_eq!(r.header, vec!["n1".to_string()]);
    assert_eq!(r.metadata, vec!["nodes created: 1".to_string()]);
    assert_eq!(r.data.len(), 1);
    assert_eq!(r.data[0].data.len(), 1);
    let n = r.data[0].get_node("n1").unwrap();
    assert_eq!(n.id, 1);
    assert_eq!(n.labels, vec!["Person".to_string()]);
    assert_eq!(n.properties.len(), 1);
    assert_eq!(text_of(n.get_property_value("name").unwrap()), "Pam");
    assert!(r.data[0].get_relation("n1").is_none());
    assert!(r.data[0].get_scalar("n1").is_none());
}

#[test]
fn scenario_empty_reply() {
    let r = GraphResultSet::from_redis_value(&bulk(vec![])).unwrap();
    assert_eq!(r.header.len() + r.data.len() + r.metadata.len(), 0);
}

#[test]
fn scenario_integer_reply_is_shape_error() {
    assert_eq!(GraphResultSet::from_redis_value(&ReplyValue::Int(42)).unwrap_err(), DecodeError::Shape);
    assert_eq!(GraphResultSet::from_redis_value(&ReplyValue::Okay).unwrap_err(), DecodeError::Shape);
}

#[test]
fn malformed_header_is_field_error() {
    let reply = bulk(vec![bulk(vec![ReplyValue::Int(1)]), bulk(vec![]), bulk(vec![])]);
    assert_eq!(GraphResultSet::from_redis_value(&reply).unwrap_err(), DecodeError::FieldDecode);
}

#[test]
fn malformed_row_is_field_error() {
    let reply = bulk(vec![bulk(vec![s("a")]), bulk(vec![ReplyValue::Int(1)]), bulk(vec![])]);
    assert_eq!(GraphResultSet::from_redis_value(&reply).unwrap_err(), DecodeError::FieldDecode);
}

#[test]
fn text_reads_utf8_status_and_ok() {
    assert_eq!(text_value(&s("héllo")), Some("héllo".to_string()));
    assert_eq!(text_value(&ReplyValue::Data(vec![0xff, 0xfe])), None);
    assert_eq!(text_value(&ReplyValue::Status("PONG".to_string())), Some("PONG".to_string()));
    assert_eq!(text_value(&ReplyValue::Okay), Some("OK".to_string()));
    assert_eq!(text_value(&ReplyValue::Int(3)), None);
    assert_eq!(text_value(&ReplyValue::Nil), None);
}

#[test]
fn numbers_are_parsed_from_text() {
    assert_eq!(u64_value(&ReplyValue::Int(42)), Some(42));
    assert_eq!(u64_value(&ReplyValue::Int(-1)), Some(u64::MAX));
    assert_eq!(u64_value(&s("123")), Some(123));
    assert_eq!(u64_value(&s("+7")), Some(7));
    assert_eq!(u64_value(&ReplyValue::Status("18446744073709551615".to_string())), Some(u64::MAX));
    assert_eq!(u64_value(&ReplyValue::Status("18446744073709551616".to_string())), None);
    assert_eq!(u64_value(&s("12a")), None);
    assert_eq!(u64_value(&s("")), None);
    assert_eq!(u64_value(&s("-1")), None);
    assert_eq!(u64_value(&ReplyValue::Data(vec![0xff])), None);
    assert_eq!(u64_value(&ReplyValue::Okay), None);
}

#[test]
fn text_lists_follow_list_reading() {
    assert_eq!(text_list(&ReplyValue::Nil), Some(vec![]));
    assert_eq!(text_list(&s("one")), Some(vec!["one".to_string()]));
    assert_eq!(text_list(&bulk(vec![s("a"), ReplyValue::Okay])), Some(vec!["a".to_string(), "OK".to_string()]));
    assert_eq!(text_list(&bulk(vec![s("a"), ReplyValue::Int(1)])), None);
    assert_eq!(text_list(&ReplyValue::Int(1)), None);
}

#[test]
fn config_listing_is_flattened() {
    let v = bulk(vec![pair("RESULTSET_SIZE", ReplyValue::Int(500)), pair("TIMEOUT", ReplyValue::Int(0))]);
    let c = GraphConfig::from_redis_value(&v).unwrap();
    assert_eq!(c.values.len(), 2);
    assert_eq!(c.get_value("RESULTSET_SIZE"), Some(&ReplyValue::Int(500)));
    assert!(c.get_value("OTHER").is_none());
    assert!(GraphConfig::from_redis_value(&ReplyValue::Okay).unwrap().values.is_empty());
}

#[test]
fn pair_reply_gives_its_value() {
    let v = pair("RESULTSET_SIZE", ReplyValue::Int(500));
    assert_eq!(value_from_pair(&v), Ok(ReplyValue::Int(500)));
    assert_eq!(value_from_pair(&bulk(vec![s("a")])), Err(DecodeError::Shape));
    assert_eq!(value_from_pair(&ReplyValue::Int(1)), Err(DecodeError::Shape));
    assert_eq!(value_from_pair(&bulk(vec![ReplyValue::Int(1), ReplyValue::Int(2)])), Err(DecodeError::FieldDecode));
}

#[test]
fn field_map_replaces_and_counts() {
    let mut m: FieldMap<u64> = FieldMap::new();
    assert!(m.is_empty());
    m.insert("a".to_string(), 1);
    m.insert("b".to_string(), 2);
    m.insert("a".to_string(), 3);
    assert_eq!(m.len(), 2);
    assert_eq!(m.get("a"), Some(&3));
    assert_eq!(m.get("b"), Some(&2));
    assert!(!m.contains_key("c"));
}

#[test]
fn deep_copy_is_equal() {
    let v = bulk(vec![s("a"), bulk(vec![ReplyValue::Int(1), ReplyValue::Nil]), ReplyValue::Okay]);
    assert_eq!(v.duplicate(), v);
    assert_eq!(v.clone(), v);
}
