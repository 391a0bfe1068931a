use vstd::prelude::*;

use crate::reply::{
    items_of, lemma_bulk_view, text_of, text_value, u64_of, u64_value, view_result, DecodeError,
    Reply, ReplyValue,
};

verus! {

/// One entry of the slow-query log. The duration is kept as the reply that
/// carries it: a number of milliseconds that may have a fractional part.
#[derive(Clone, Debug)]
pub struct SlowLogEntry {
    /// The unix time at which the query was processed.
    pub timestamp: u64,
    /// The command that was issued.
    pub command: String,
    /// The query that was issued.
    pub query: String,
    /// The time the query took, in milliseconds.
    pub time: ReplyValue,
}

/// The model of a slow-log entry.
pub struct SlowLogView {
    pub timestamp: u64,
    pub command: Seq<char>,
    pub query: Seq<char>,
    pub time: Reply,
}

impl View for SlowLogEntry {
    type V = SlowLogView;

    open spec fn view(&self) -> SlowLogView {
        SlowLogView {
            timestamp: self.timestamp,
            command: self.command@,
            query: self.query@,
            time: self.time@,
        }
    }
}

/// An entry: an array of exactly four members, the timestamp, the command,
/// the query and the duration.
pub open spec fn slowlog_entry_of(r: Reply) -> Result<SlowLogView, DecodeError> {
    match r {
        Reply::Bulk(xs) => if xs.len() == 4 {
            match (u64_of(xs[0]), text_of(xs[1]), text_of(xs[2])) {
                (Some(timestamp), Some(command), Some(query)) => Ok(
                    SlowLogView { timestamp, command, query, time: xs[3] },
                ),
                _ => Err(DecodeError::FieldDecode),
            }
        } else {
            Err(DecodeError::FixedArity)
        },
        _ => Err(DecodeError::FixedArity),
    }
}

/// The entries of a list in order, or the error of the first that fails.
pub open spec fn slowlog_entries_of(xs: Seq<Reply>) -> Result<Seq<SlowLogView>, DecodeError>
    decreases xs.len(),
{
    if xs.len() == 0 {
        Ok(Seq::empty())
    } else {
        match slowlog_entries_of(xs.drop_last()) {
            Ok(es) => match slowlog_entry_of(xs.last()) {
                Ok(e) => Ok(es.push(e)),
                Err(e) => Err(e),
            },
            Err(e) => Err(e),
        }
    }
}

/// A slow-log reply: a list of entries.
pub open spec fn slowlog_of(r: Reply) -> Result<Seq<SlowLogView>, DecodeError> {
    match items_of(r) {
        Some(xs) => slowlog_entries_of(xs),
        None => Err(DecodeError::Shape),
    }
}

proof fn lemma_entries_error_persists(xs: Seq<Reply>, n: int, e: DecodeError)
    requires
        0 <= n <= xs.len(),
        slowlog_entries_of(xs.take(n)) == Err::<Seq<SlowLogView>, DecodeError>(e),
    ensures
        slowlog_entries_of(xs) == Err::<Seq<SlowLogView>, DecodeError>(e),
    decreases xs.len() - n,
{
    if n < xs.len() {
        assert(xs.take(n + 1).drop_last() =~= xs.take(n));
        lemma_entries_error_persists(xs, n + 1, e);
    } else {
        assert(xs.take(n) =~= xs);
    }
}

impl SlowLogEntry {
    /// Decodes one entry of the slow-query log.
    pub fn from_redis_value(v: &ReplyValue) -> (r: Result<SlowLogEntry, DecodeError>)
        ensures
            view_result(r) == slowlog_entry_of(v@),
            r == Err::<SlowLogEntry, DecodeError>(DecodeError::FixedArity) <==> !(v is Bulk
                && v->Bulk_0@.len() == 4),
    {
        match v {
            ReplyValue::Bulk(xs) => {
                proof {
                    lemma_bulk_view(*v);
                }
                if xs.len() != 4 {
                    return Err(DecodeError::FixedArity);
                }
                let timestamp = match u64_value(&xs[0]) {
                    Some(t) => t,
                    None => return Err(DecodeError::FieldDecode),
                };
                let command = match text_value(&xs[1]) {
                    Some(c) => c,
                    None => return Err(DecodeError::FieldDecode),
                };
                let query = match text_value(&xs[2]) {
                    Some(q) => q,
                    None => return Err(DecodeError::FieldDecode),
                };
                Ok(SlowLogEntry { timestamp, command, query, time: xs[3].duplicate() })
            },
            _ => Err(DecodeError::FixedArity),
        }
    }

    /// Decodes the reply to a slow-log request: a list of entries.
    pub fn list_from_redis_value(v: &ReplyValue) -> (r: Result<Vec<SlowLogEntry>, DecodeError>)
        ensures
            r is Ok <==> slowlog_of(v@) is Ok,
            r is Ok ==> r->Ok_0@.map_values(|e: SlowLogEntry| e@) == slowlog_of(v@)->Ok_0,
            r is Err ==> r->Err_0 == slowlog_of(v@)->Err_0,
    {
        let mut out: Vec<SlowLogEntry> = Vec::new();
        match v {
            ReplyValue::Bulk(xs) => {
                proof {
                    lemma_bulk_view(*v);
                }
                let ghost items = v@->Bulk_0;
                assert(items.take(0) =~= Seq::<Reply>::empty());
                assert(out@.map_values(|e: SlowLogEntry| e@) =~= Seq::<SlowLogView>::empty());
                let mut i: usize = 0;
                while i < xs.len()
                    invariant
                        i <= xs.len(),
                        v@ == Reply::Bulk(items),
                        items.len() == xs@.len(),
                        forall|j: int| 0 <= j < xs@.len() ==> #[trigger] items[j] == xs@[j]@,
                        slowlog_entries_of(items.take(i as int)) == Ok::<_, DecodeError>(
                            out@.map_values(|e: SlowLogEntry| e@),
                        ),
                    decreases xs.len() - i,
                {
                    assert(items.take(i + 1).drop_last() =~= items.take(i as int));
                    match SlowLogEntry::from_redis_value(&xs[i]) {
                        Ok(e) => {
                            let ghost before = out@;
                            out.push(e);
                            assert(out@.map_values(|e: SlowLogEntry| e@) =~= before.map_values(
                                |e: SlowLogEntry| e@,
                            ).push(e@));
                        },
                        Err(e) => {
                            proof {
                                lemma_entries_error_persists(items, i + 1, e);
                            }
                            return Err(e);
                        },
                    }
                    i += 1;
                }
                assert(items.take(xs.len() as int) =~= items);
                Ok(out)
            },
            ReplyValue::Nil => {
                assert(out@.map_values(|e: SlowLogEntry| e@) =~= Seq::<SlowLogView>::empty());
                Ok(out)
            },
            ReplyValue::Data(_) => {
                let e = SlowLogEntry::from_redis_value(v);
                assert(seq![v@].drop_last() =~= Seq::<Reply>::empty());
                assert(slowlog_entries_of(Seq::<Reply>::empty()) == Ok::<_, DecodeError>(
                    Seq::<SlowLogView>::empty(),
                ));
                match e {
                    Ok(e) => {
                        out.push(e);
                        assert(out@.map_values(|e: SlowLogEntry| e@) =~= seq![e@]);
                        Ok(out)
                    },
                    Err(e) => Err(e),
                }
            },
            _ => Err(DecodeError::Shape),
        }
    }
}

} // verus!
