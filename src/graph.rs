use vstd::prelude::*;

use crate::field_map::FieldMap;
use crate::property::{property_map_of, to_property_map};
use crate::reply::{
    items_of, lemma_bulk_view, text_list, text_list_of, text_of, text_value, texts_view, u64_of,
    u64_value, view_result, DecodeError, Reply, ReplyValue,
};

verus! {

/// A graph node: an id, its labels and its properties.
#[derive(Debug)]
pub struct NodeValue {
    pub id: u64,
    pub labels: Vec<String>,
    pub properties: FieldMap<ReplyValue>,
}

/// A relation between two nodes: an id, its type, the ids of its two ends and
/// its properties.
#[derive(Debug)]
pub struct RelationValue {
    pub id: u64,
    pub rel_type: String,
    pub src_node: u64,
    pub dest_node: u64,
    pub properties: FieldMap<ReplyValue>,
}

/// One value of a result row: a plain reply, a node or a relation.
#[derive(Debug)]
pub enum GraphValue {
    Scalar(ReplyValue),
    Node(NodeValue),
    Relation(RelationValue),
}

/// The model of a node.
pub struct NodeView {
    pub id: u64,
    pub labels: Seq<Seq<char>>,
    pub properties: Map<Seq<char>, Reply>,
}

/// The model of a relation.
pub struct RelationView {
    pub id: u64,
    pub rel_type: Seq<char>,
    pub src_node: u64,
    pub dest_node: u64,
    pub properties: Map<Seq<char>, Reply>,
}

/// The model of a row value.
pub enum GraphValueView {
    Scalar(Reply),
    Node(NodeView),
    Relation(RelationView),
}

impl View for NodeValue {
    type V = NodeView;

    open spec fn view(&self) -> NodeView {
        NodeView { id: self.id, labels: texts_view(self.labels), properties: self.properties@ }
    }
}

impl View for RelationValue {
    type V = RelationView;

    open spec fn view(&self) -> RelationView {
        RelationView {
            id: self.id,
            rel_type: self.rel_type@,
            src_node: self.src_node,
            dest_node: self.dest_node,
            properties: self.properties@,
        }
    }
}

impl View for GraphValue {
    type V = GraphValueView;

    open spec fn view(&self) -> GraphValueView {
        match self {
            GraphValue::Scalar(v) => GraphValueView::Scalar(v@),
            GraphValue::Node(n) => GraphValueView::Node(n@),
            GraphValue::Relation(r) => GraphValueView::Relation(r@),
        }
    }
}

/// The value of a named field, nil where the field is absent.
pub open spec fn field_of(m: Map<Seq<char>, Reply>, name: Seq<char>) -> Reply {
    if m.contains_key(name) {
        m[name]
    } else {
        Reply::Nil
    }
}

/// An id field: nil stands for 0, anything else is read as a number.
pub open spec fn id_field_of(r: Reply) -> Option<u64> {
    if r is Nil {
        Some(0)
    } else {
        u64_of(r)
    }
}

/// A text field: nil stands for the empty text, anything else is read as text.
pub open spec fn text_field_of(r: Reply) -> Option<Seq<char>> {
    if r is Nil {
        Some(Seq::empty())
    } else {
        text_of(r)
    }
}

/// A node, read from a list of `[name, value]` pairs with the names `id`,
/// `labels` and `properties`.
pub open spec fn node_of(r: Reply) -> Result<NodeView, DecodeError> {
    match property_map_of(r) {
        Ok(m) => match (
            id_field_of(field_of(m, "id"@)),
            text_list_of(field_of(m, "labels"@)),
            property_map_of(field_of(m, "properties"@)),
        ) {
            (Some(id), Some(labels), Ok(properties)) => Ok(NodeView { id, labels, properties }),
            _ => Err(DecodeError::FieldDecode),
        },
        Err(e) => Err(e),
    }
}

/// A relation, read from a list of `[name, value]` pairs with the names `id`,
/// `type`, `src_node`, `dest_node` and `properties`.
pub open spec fn relation_of(r: Reply) -> Result<RelationView, DecodeError> {
    match property_map_of(r) {
        Ok(m) => match (
            id_field_of(field_of(m, "id"@)),
            text_field_of(field_of(m, "type"@)),
            id_field_of(field_of(m, "src_node"@)),
            id_field_of(field_of(m, "dest_node"@)),
            property_map_of(field_of(m, "properties"@)),
        ) {
            (Some(id), Some(rel_type), Some(src_node), Some(dest_node), Ok(properties)) => Ok(
                RelationView { id, rel_type, src_node, dest_node, properties },
            ),
            _ => Err(DecodeError::FieldDecode),
        },
        Err(e) => Err(e),
    }
}

/// A row cell: an array of three members is a node, any other array a
/// relation, and every other reply a scalar.
pub open spec fn graph_value_of(r: Reply) -> Result<GraphValueView, DecodeError> {
    match r {
        Reply::Bulk(xs) => if xs.len() == 3 {
            match node_of(r) {
                Ok(n) => Ok(GraphValueView::Node(n)),
                Err(e) => Err(e),
            }
        } else {
            match relation_of(r) {
                Ok(rel) => Ok(GraphValueView::Relation(rel)),
                Err(e) => Err(e),
            }
        },
        _ => Ok(GraphValueView::Scalar(r)),
    }
}

proof fn lemma_nil_fields()
    ensures
        text_list_of(Reply::Nil) == Some(Seq::<Seq<char>>::empty()),
        property_map_of(Reply::Nil) == Ok::<_, DecodeError>(Map::<Seq<char>, Reply>::empty()),
{
    assert(Seq::<Seq<char>>::empty() =~= Seq::<Reply>::empty().map_values(
        |x: Reply| text_of(x)->0,
    ));
    assert(Seq::<Seq<Reply>>::empty() =~= Seq::<Reply>::empty().map_values(
        |x: Reply| crate::reply::items_of(x)->0,
    ));
}

/// A node whose pairs name none of its fields has id 0, no labels and no
/// properties.
pub proof fn lemma_node_defaults(r: Reply)
    requires
        property_map_of(r) is Ok,
        !property_map_of(r)->Ok_0.contains_key("id"@),
        !property_map_of(r)->Ok_0.contains_key("labels"@),
        !property_map_of(r)->Ok_0.contains_key("properties"@),
    ensures
        node_of(r) == Ok::<_, DecodeError>(
            NodeView { id: 0, labels: Seq::empty(), properties: Map::empty() },
        ),
{
    lemma_nil_fields();
}

/// A relation whose pairs name none of its fields has id 0, the empty type,
/// both ends 0 and no properties.
pub proof fn lemma_relation_defaults(r: Reply)
    requires
        property_map_of(r) is Ok,
        !property_map_of(r)->Ok_0.contains_key("id"@),
        !property_map_of(r)->Ok_0.contains_key("type"@),
        !property_map_of(r)->Ok_0.contains_key("src_node"@),
        !property_map_of(r)->Ok_0.contains_key("dest_node"@),
        !property_map_of(r)->Ok_0.contains_key("properties"@),
    ensures
        relation_of(r) == Ok::<_, DecodeError>(
            RelationView {
                id: 0,
                rel_type: Seq::empty(),
                src_node: 0,
                dest_node: 0,
                properties: Map::empty(),
            },
        ),
{
    lemma_nil_fields();
}

/// Reads the id-like field `name` of a decoded pair list.
fn u64_field(m: &FieldMap<ReplyValue>, name: &str) -> (r: Option<u64>)
    ensures
        r == id_field_of(field_of(m@, name@)),
{
    match m.get(name) {
        Some(ReplyValue::Nil) | None => Some(0),
        Some(x) => u64_value(x),
    }
}

/// Reads the text field `name` of a decoded pair list.
fn text_field(m: &FieldMap<ReplyValue>, name: &str) -> (r: Option<String>)
    ensures
        r is Some <==> text_field_of(field_of(m@, name@)) is Some,
        r is Some ==> r->0@ == text_field_of(field_of(m@, name@))->0,
{
    match m.get(name) {
        Some(ReplyValue::Nil) | None => Some(String::new()),
        Some(x) => text_value(x),
    }
}

/// Reads the list-of-texts field `name` of a decoded pair list.
fn text_list_field(m: &FieldMap<ReplyValue>, name: &str) -> (r: Option<Vec<String>>)
    ensures
        r is Some <==> text_list_of(field_of(m@, name@)) is Some,
        r is Some ==> texts_view(r->0) == text_list_of(field_of(m@, name@))->0,
{
    match m.get(name) {
        Some(x) => text_list(x),
        None => text_list(&ReplyValue::Nil),
    }
}

/// Reads the property-map field `name` of a decoded pair list.
fn map_field(m: &FieldMap<ReplyValue>, name: &str) -> (r: Result<
    FieldMap<ReplyValue>,
    DecodeError,
>)
    ensures
        view_result(r) == property_map_of(field_of(m@, name@)),
{
    match m.get(name) {
        Some(x) => to_property_map(x),
        None => to_property_map(&ReplyValue::Nil),
    }
}

impl NodeValue {
    /// Decodes a node from its list of `[name, value]` pairs; absent fields
    /// take their defaults.
    pub fn from_redis_value(v: &ReplyValue) -> (r: Result<NodeValue, DecodeError>)
        ensures
            view_result(r) == node_of(v@),
    {
        let values = match to_property_map(v) {
            Ok(m) => m,
            Err(e) => return Err(e),
        };
        let id = match u64_field(&values, "id") {
            Some(n) => n,
            None => return Err(DecodeError::FieldDecode),
        };
        let labels = match text_list_field(&values, "labels") {
            Some(ls) => ls,
            None => return Err(DecodeError::FieldDecode),
        };
        let properties = match map_field(&values, "properties") {
            Ok(p) => p,
            Err(_) => return Err(DecodeError::FieldDecode),
        };
        Ok(NodeValue { id, labels, properties })
    }
}

impl RelationValue {
    /// Decodes a relation from its list of `[name, value]` pairs; absent
    /// fields take their defaults.
    pub fn from_redis_value(v: &ReplyValue) -> (r: Result<RelationValue, DecodeError>)
        ensures
            view_result(r) == relation_of(v@),
    {
        let values = match to_property_map(v) {
            Ok(m) => m,
            Err(e) => return Err(e),
        };
        let id = match u64_field(&values, "id") {
            Some(n) => n,
            None => return Err(DecodeError::FieldDecode),
        };
        let rel_type = match text_field(&values, "type") {
            Some(t) => t,
            None => return Err(DecodeError::FieldDecode),
        };
        let src_node = match u64_field(&values, "src_node") {
            Some(n) => n,
            None => return Err(DecodeError::FieldDecode),
        };
        let dest_node = match u64_field(&values, "dest_node") {
            Some(n) => n,
            None => return Err(DecodeError::FieldDecode),
        };
        let properties = match map_field(&values, "properties") {
            Ok(p) => p,
            Err(_) => return Err(DecodeError::FieldDecode),
        };
        Ok(RelationValue { id, rel_type, src_node, dest_node, properties })
    }
}

/// Entities that carry a map of properties.
pub trait WithProperties {
    spec fn property_map(&self) -> Map<Seq<char>, Reply>;

    /// The raw value of the property named `key`, if there is one.
    fn get_property_value(&self, key: &str) -> (r: Option<&ReplyValue>)
        ensures
            r is Some <==> self.property_map().contains_key(key@),
            r is Some ==> r->0@ == self.property_map()[key@],
    ;
}

impl WithProperties for NodeValue {
    open spec fn property_map(&self) -> Map<Seq<char>, Reply> {
        self.properties@
    }

    fn get_property_value(&self, key: &str) -> (r: Option<&ReplyValue>) {
        self.properties.get(key)
    }
}

impl WithProperties for RelationValue {
    open spec fn property_map(&self) -> Map<Seq<char>, Reply> {
        self.properties@
    }

    fn get_property_value(&self, key: &str) -> (r: Option<&ReplyValue>) {
        self.properties.get(key)
    }
}

impl GraphValue {
    /// Classifies and decodes one cell of a result row.
    pub fn from_redis_value(v: &ReplyValue) -> (r: Result<GraphValue, DecodeError>)
        ensures
            view_result(r) == graph_value_of(v@),
            r is Ok && v is Bulk && v->Bulk_0@.len() == 3 ==> r->Ok_0 is Node,
            r is Ok && v is Bulk && v->Bulk_0@.len() != 3 ==> r->Ok_0 is Relation,
            !(v is Bulk) ==> r is Ok && r->Ok_0 is Scalar && r->Ok_0->Scalar_0@ == v@,
    {
        match v {
            ReplyValue::Bulk(xs) => {
                proof {
                    lemma_bulk_view(*v);
                }
                if xs.len() == 3 {
                    match NodeValue::from_redis_value(v) {
                        Ok(n) => Ok(GraphValue::Node(n)),
                        Err(e) => Err(e),
                    }
                } else {
                    match RelationValue::from_redis_value(v) {
                        Ok(rel) => Ok(GraphValue::Relation(rel)),
                        Err(e) => Err(e),
                    }
                }
            },
            _ => Ok(GraphValue::Scalar(v.duplicate())),
        }
    }
}

} // verus!
