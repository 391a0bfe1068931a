use vstd::prelude::*;

use crate::field_map::FieldMap;
use crate::graph::{graph_value_of, GraphValue, GraphValueView, NodeValue, RelationValue};
use crate::reply::{
    items_of, lemma_bulk_view, text_list, text_list_of, texts_view, view_result, DecodeError, Reply,
    ReplyValue,
};

verus! {

/// One matched result: the values of a row, by the names of the header.
#[derive(Debug)]
pub struct GraphResult {
    pub data: FieldMap<GraphValue>,
}

/// The decoded reply to a query: the column names, one `GraphResult` per row,
/// and the metadata lines (such as counts of created entities).
#[derive(Debug)]
pub struct GraphResultSet {
    pub header: Vec<String>,
    pub data: Vec<GraphResult>,
    pub metadata: Vec<String>,
}

/// The model of a result set: the header's names, each row as a map from
/// names to values, and the metadata lines.
pub struct ResultSetView {
    pub header: Seq<Seq<char>>,
    pub rows: Seq<Map<Seq<char>, GraphValueView>>,
    pub metadata: Seq<Seq<char>>,
}

impl View for GraphResult {
    type V = Map<Seq<char>, GraphValueView>;

    open spec fn view(&self) -> Map<Seq<char>, GraphValueView> {
        self.data@
    }
}

impl View for GraphResultSet {
    type V = ResultSetView;

    open spec fn view(&self) -> ResultSetView {
        ResultSetView {
            header: texts_view(self.header),
            rows: self.data@.map_values(|r: GraphResult| r@),
            metadata: texts_view(self.metadata),
        }
    }
}

/// The decoded cells of a row.
pub open spec fn cell_views(xs: Seq<Reply>) -> Seq<GraphValueView> {
    xs.map_values(|x: Reply| graph_value_of(x)->Ok_0)
}

/// The row built from the first `n` positions: position `i` maps `header[i]`
/// to `cells[i]` where both exist, later positions replacing earlier ones.
pub open spec fn zip_prefix(header: Seq<Seq<char>>, cells: Seq<GraphValueView>, n: int) -> Map<
    Seq<char>,
    GraphValueView,
>
    decreases n,
{
    if n <= 0 {
        Map::empty()
    } else {
        let m = zip_prefix(header, cells, n - 1);
        if n - 1 < header.len() && n - 1 < cells.len() {
            m.insert(header[n - 1], cells[n - 1])
        } else {
            m
        }
    }
}

/// The row that pairs the header's names with the cells by position.
pub open spec fn zip_row(header: Seq<Seq<char>>, cells: Seq<GraphValueView>) -> Map<
    Seq<char>,
    GraphValueView,
> {
    zip_prefix(header, cells, cells.len() as int)
}

/// A row reply decoded against the header, or nothing if a cell fails.
pub open spec fn row_of(header: Seq<Seq<char>>, r: Reply) -> Option<
    Map<Seq<char>, GraphValueView>,
> {
    match items_of(r) {
        Some(xs) => if forall|j: int| 0 <= j < xs.len() ==> (#[trigger] graph_value_of(xs[j])) is Ok {
            Some(zip_row(header, cell_views(xs)))
        } else {
            None
        },
        None => None,
    }
}

/// All row replies decoded, or nothing if one fails.
pub open spec fn rows_of(header: Seq<Seq<char>>, rs: Seq<Reply>) -> Option<
    Seq<Map<Seq<char>, GraphValueView>>,
> {
    if forall|j: int| 0 <= j < rs.len() ==> (#[trigger] row_of(header, rs[j])) is Some {
        Some(rs.map_values(|x: Reply| row_of(header, x)->0))
    } else {
        None
    }
}

/// The result with no header, no rows and no metadata.
pub open spec fn empty_result_set() -> ResultSetView {
    ResultSetView { header: Seq::empty(), rows: Seq::empty(), metadata: Seq::empty() }
}

/// A whole query reply: the empty array is the empty result, an array of one
/// member holds only metadata, a longer array holds the header, the rows and
/// (from the third member on) the metadata; any other reply is no result.
pub open spec fn result_set_of(r: Reply) -> Result<ResultSetView, DecodeError> {
    match r {
        Reply::Bulk(xs) => if xs.len() == 0 {
            Ok(empty_result_set())
        } else if xs.len() == 1 {
            match text_list_of(xs[0]) {
                Some(metadata) => Ok(ResultSetView { metadata, ..empty_result_set() }),
                None => Err(DecodeError::FieldDecode),
            }
        } else {
            match text_list_of(xs[0]) {
                Some(header) => {
                    let rows = if xs[1] is Bulk {
                        rows_of(header, xs[1]->Bulk_0)
                    } else {
                        Some(Seq::empty())
                    };
                    let metadata = if xs.len() > 2 {
                        text_list_of(xs[2])
                    } else {
                        Some(Seq::empty())
                    };
                    match (rows, metadata) {
                        (Some(rows), Some(metadata)) => Ok(ResultSetView { header, rows, metadata }),
                        _ => Err(DecodeError::FieldDecode),
                    }
                },
                None => Err(DecodeError::FieldDecode),
            }
        },
        _ => Err(DecodeError::Shape),
    }
}

/// A decoded triple `[header, rows, metadata]` whose rows member is an array
/// keeps the header's names in order and has one row per member of that array.
pub proof fn lemma_triple_header_and_rows(r: Reply)
    requires
        r is Bulk,
        r->Bulk_0.len() == 3,
        r->Bulk_0[1] is Bulk,
        result_set_of(r) is Ok,
    ensures
        text_list_of(r->Bulk_0[0]) is Some,
        result_set_of(r)->Ok_0.header == text_list_of(r->Bulk_0[0])->0,
        result_set_of(r)->Ok_0.rows.len() == r->Bulk_0[1]->Bulk_0.len(),
{
}

proof fn lemma_zip_prefix(header: Seq<Seq<char>>, cells: Seq<GraphValueView>, n: int)
    requires
        0 <= n,
    ensures
        forall|k: Seq<char>|
            #[trigger] zip_prefix(header, cells, n).contains_key(k) <==> exists|i: int|
                0 <= i < n && i < header.len() && i < cells.len() && #[trigger] header[i] == k,
        forall|i: int|
            0 <= i < n && i < header.len() && i < cells.len() && (forall|j: int|
                i < j < n && j < header.len() && j < cells.len() ==> #[trigger] header[j]
                    != header[i]) ==> #[trigger] zip_prefix(header, cells, n)[header[i]]
                == cells[i],
    decreases n,
{
    if n > 0 {
        lemma_zip_prefix(header, cells, n - 1);
        let m = zip_prefix(header, cells, n - 1);
        assert forall|k: Seq<char>| #[trigger]
            zip_prefix(header, cells, n).contains_key(k) <==> exists|i: int|
                0 <= i < n && i < header.len() && i < cells.len() && #[trigger] header[i] == k by {
            if zip_prefix(header, cells, n).contains_key(k) && !m.contains_key(k) {
                assert(header[n - 1] == k);
            }
        }
    }
}

/// Row cells are paired with the header by position: the row's names are
/// exactly the header names at positions that have a cell, cells beyond the
/// header are dropped, and a name gets the cell of its last such position.
pub proof fn lemma_row_keys(header: Seq<Seq<char>>, cells: Seq<GraphValueView>)
    ensures
        forall|k: Seq<char>|
            #[trigger] zip_row(header, cells).contains_key(k) <==> exists|i: int|
                0 <= i < header.len() && i < cells.len() && #[trigger] header[i] == k,
        forall|i: int|
            0 <= i < header.len() && i < cells.len() && (forall|j: int|
                i < j < header.len() && j < cells.len() ==> #[trigger] header[j] != header[i])
                ==> #[trigger] zip_row(header, cells)[header[i]] == cells[i],
{
    lemma_zip_prefix(header, cells, cells.len() as int);
}

/// Decodes one row reply against the header.
fn decode_row(header: &Vec<String>, v: &ReplyValue) -> (r: Result<GraphResult, DecodeError>)
    ensures
        r is Ok <==> row_of(texts_view(*header), v@) is Some,
        r is Ok ==> r->Ok_0@ == row_of(texts_view(*header), v@)->0,
        r is Err ==> r->Err_0 == DecodeError::FieldDecode,
{
    let ghost hv = texts_view(*header);
    let mut row: FieldMap<GraphValue> = FieldMap::new();
    match v {
        ReplyValue::Bulk(xs) => {
            proof {
                lemma_bulk_view(*v);
            }
            let ghost items = v@->Bulk_0;
            let mut i: usize = 0;
            while i < xs.len()
                invariant
                    i <= xs.len(),
                    hv == texts_view(*header),
                    v@ == Reply::Bulk(items),
                    items.len() == xs@.len(),
                    forall|j: int| 0 <= j < xs@.len() ==> #[trigger] items[j] == xs@[j]@,
                    forall|j: int| 0 <= j < i ==> (#[trigger] graph_value_of(items[j])) is Ok,
                    row@ == zip_prefix(hv, cell_views(items), i as int),
                decreases xs.len() - i,
            {
                let g = match GraphValue::from_redis_value(&xs[i]) {
                    Ok(g) => g,
                    Err(_) => {
                        assert(graph_value_of(items[i as int]) is Err);
                        return Err(DecodeError::FieldDecode);
                    },
                };
                if i < header.len() {
                    let name = header[i].clone();
                    row.insert(name, g);
                }
                i += 1;
            }
            Ok(GraphResult { data: row })
        },
        ReplyValue::Nil => Ok(GraphResult { data: row }),
        ReplyValue::Data(_) => {
            let g = match GraphValue::from_redis_value(v) {
                Ok(g) => g,
                Err(_) => return Err(DecodeError::FieldDecode),
            };
            if header.len() > 0 {
                let name = header[0].clone();
                row.insert(name, g);
            }
            proof {
                let xs = seq![v@];
                assert(zip_prefix(hv, cell_views(xs), 0) == Map::<
                    Seq<char>,
                    GraphValueView,
                >::empty());
                assert(graph_value_of(xs[0]) is Ok);
            }
            Ok(GraphResult { data: row })
        },
        _ => Err(DecodeError::FieldDecode),
    }
}

impl GraphResult {
    /// The value named `key`, if the row has one.
    pub fn get_value(&self, key: &str) -> (r: Option<&GraphValue>)
        ensures
            r is Some <==> self@.contains_key(key@),
            r is Some ==> r->0@ == self@[key@],
    {
        self.data.get(key)
    }

    /// The scalar named `key`, if the row has one.
    pub fn get_scalar(&self, key: &str) -> (r: Option<&ReplyValue>)
        ensures
            r is Some <==> self@.contains_key(key@) && self@[key@] is Scalar,
            r is Some ==> r->0@ == self@[key@]->Scalar_0,
    {
        match self.get_value(key) {
            Some(GraphValue::Scalar(value)) => Some(value),
            _ => None,
        }
    }

    /// The node named `key`, if the row has one.
    pub fn get_node(&self, key: &str) -> (r: Option<&NodeValue>)
        ensures
            r is Some <==> self@.contains_key(key@) && self@[key@] is Node,
            r is Some ==> r->0@ == self@[key@]->Node_0,
    {
        match self.get_value(key) {
            Some(GraphValue::Node(value)) => Some(value),
            _ => None,
        }
    }

    /// The relation named `key`, if the row has one.
    pub fn get_relation(&self, key: &str) -> (r: Option<&RelationValue>)
        ensures
            r is Some <==> self@.contains_key(key@) && self@[key@] is Relation,
            r is Some ==> r->0@ == self@[key@]->Relation_0,
    {
        match self.get_value(key) {
            Some(GraphValue::Relation(value)) => Some(value),
            _ => None,
        }
    }
}

impl GraphResultSet {
    fn from_metadata(metadata: Vec<String>) -> (r: GraphResultSet)
        ensures
            r@ == (ResultSetView { metadata: texts_view(metadata), ..empty_result_set() }),
    {
        let r = GraphResultSet { header: Vec::new(), data: Vec::new(), metadata };
        assert(r@.header =~= Seq::<Seq<char>>::empty());
        assert(r@.rows =~= Seq::<Map<Seq<char>, GraphValueView>>::empty());
        r
    }

    /// Decodes the reply to a query.
    pub fn from_redis_value(v: &ReplyValue) -> (r: Result<GraphResultSet, DecodeError>)
        ensures
            view_result(r) == result_set_of(v@),
            !(v is Bulk) ==> r == Err::<GraphResultSet, DecodeError>(DecodeError::Shape),
    {
        match v {
            ReplyValue::Bulk(xs) => {
                proof {
                    lemma_bulk_view(*v);
                }
                if xs.len() == 0 {
                    let r = GraphResultSet::from_metadata(Vec::new());
                    assert(r@.metadata =~= Seq::<Seq<char>>::empty());
                    Ok(r)
                } else if xs.len() == 1 {
                    match text_list(&xs[0]) {
                        Some(m) => Ok(GraphResultSet::from_metadata(m)),
                        None => Err(DecodeError::FieldDecode),
                    }
                } else {
                    let header = match text_list(&xs[0]) {
                        Some(h) => h,
                        None => return Err(DecodeError::FieldDecode),
                    };
                    let ghost hv = texts_view(header);
                    let mut data: Vec<GraphResult> = Vec::new();
                    match &xs[1] {
                        ReplyValue::Bulk(rs) => {
                            proof {
                                lemma_bulk_view(xs@[1]);
                            }
                            let ghost rows = xs@[1]@->Bulk_0;
                            let ghost top = v@->Bulk_0;
                            let mut j: usize = 0;
                            while j < rs.len()
                                invariant
                                    j <= rs.len(),
                                    v is Bulk,
                                    v@ == Reply::Bulk(top),
                                    top.len() >= 2,
                                    top[1] == Reply::Bulk(rows),
                                    text_list_of(top[0]) == Some(hv),
                                    hv == texts_view(header),
                                    rows.len() == rs@.len(),
                                    forall|k: int| 0 <= k < rs@.len() ==> #[trigger] rows[k] == rs@[k]@,
                                    forall|k: int| 0 <= k < j ==> (#[trigger] row_of(hv, rows[k])) is Some,
                                    data@.len() == j,
                                    forall|k: int| 0 <= k < j ==> (#[trigger] data@[k])@ == row_of(hv, rows[k])->0,
                                decreases rs.len() - j,
                            {
                                match decode_row(&header, &rs[j]) {
                                    Ok(row) => data.push(row),
                                    Err(e) => {
                                        assert(row_of(hv, rows[j as int]) is None);
                                        return Err(e);
                                    },
                                }
                                j += 1;
                            }
                            assert(data@.map_values(|r: GraphResult| r@) =~= rows.map_values(
                                |x: Reply| row_of(hv, x)->0,
                            ));
                        },
                        _ => {},
                    }
                    let metadata = if xs.len() > 2 {
                        match text_list(&xs[2]) {
                            Some(m) => m,
                            None => return Err(DecodeError::FieldDecode),
                        }
                    } else {
                        let m: Vec<String> = Vec::new();
                        assert(texts_view(m) =~= Seq::<Seq<char>>::empty());
                        m
                    };
                    let r = GraphResultSet { header, data, metadata };
                    assert(!(xs@[1]@ is Bulk) ==> r@.rows =~= Seq::<Map<Seq<char>, GraphValueView>>::empty());
                    Ok(r)
                }
            },
            _ => Err(DecodeError::Shape),
        }
    }
}

} // verus!
