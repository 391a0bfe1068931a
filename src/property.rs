use vstd::prelude::*;

use crate::field_map::FieldMap;
use crate::reply::{
    items_of, lemma_bulk_view, text_of, text_value, view_result, DecodeError, Reply, ReplyValue,
};

verus! {

/// Every member read as a list, or nothing if one of them is not a list.
pub open spec fn pair_lists_of(xs: Seq<Reply>) -> Option<Seq<Seq<Reply>>> {
    if forall|j: int| 0 <= j < xs.len() ==> (#[trigger] items_of(xs[j])) is Some {
        Some(xs.map_values(|x: Reply| items_of(x)->0))
    } else {
        None
    }
}

/// The mapping built from `[name, value]` pairs in order: a later pair for a
/// name replaces an earlier one, a list whose length is not two is passed
/// over, and a name that is not text fails the whole.
pub open spec fn pairs_to_map(ps: Seq<Seq<Reply>>) -> Result<Map<Seq<char>, Reply>, DecodeError>
    decreases ps.len(),
{
    if ps.len() == 0 {
        Ok(Map::empty())
    } else {
        match pairs_to_map(ps.drop_last()) {
            Ok(m) => {
                let p = ps.last();
                if p.len() == 2 {
                    match text_of(p[0]) {
                        Some(k) => Ok(m.insert(k, p[1])),
                        None => Err(DecodeError::FieldDecode),
                    }
                } else {
                    Ok(m)
                }
            },
            Err(e) => Err(e),
        }
    }
}

/// A reply read as a property map: a list of pairs as `pairs_to_map` reads it.
/// A reply that is not a list of lists stands for the empty map.
pub open spec fn property_map_of(r: Reply) -> Result<Map<Seq<char>, Reply>, DecodeError> {
    match items_of(r) {
        Some(xs) => match pair_lists_of(xs) {
            Some(ps) => pairs_to_map(ps),
            None => Ok(Map::empty()),
        },
        None => Ok(Map::empty()),
    }
}

proof fn lemma_pairs_error_persists(ps: Seq<Seq<Reply>>, n: int)
    requires
        0 <= n <= ps.len(),
        pairs_to_map(ps.take(n)) == Err::<Map<Seq<char>, Reply>, DecodeError>(
            DecodeError::FieldDecode,
        ),
    ensures
        pairs_to_map(ps) == Err::<Map<Seq<char>, Reply>, DecodeError>(DecodeError::FieldDecode),
    decreases ps.len() - n,
{
    if n < ps.len() {
        assert(ps.take(n + 1).drop_last() =~= ps.take(n));
        lemma_pairs_error_persists(ps, n + 1);
    } else {
        assert(ps.take(n) =~= ps);
    }
}

/// A pair appended to a list of pairs sets its name to its value, whatever
/// the earlier pairs held for that name.
pub proof fn lemma_later_pair_wins(ps: Seq<Seq<Reply>>, name: Reply, value: Reply)
    requires
        pairs_to_map(ps) is Ok,
        text_of(name) is Some,
    ensures
        pairs_to_map(ps.push(seq![name, value])) == Ok::<_, DecodeError>(
            pairs_to_map(ps)->Ok_0.insert(text_of(name)->0, value),
        ),
{
    assert(ps.push(seq![name, value]).drop_last() =~= ps);
}

/// Flattening `[[k, v1], [k, v2]]` maps the name of `k` to `v2` alone.
pub proof fn lemma_repeated_name_keeps_last(k: Reply, v1: Reply, v2: Reply)
    requires
        text_of(k) is Some,
    ensures
        property_map_of(Reply::Bulk(seq![Reply::Bulk(seq![k, v1]), Reply::Bulk(seq![k, v2])]))
            == Ok::<_, DecodeError>(map![text_of(k)->0 => v2]),
{
    let xs = seq![Reply::Bulk(seq![k, v1]), Reply::Bulk(seq![k, v2])];
    let ps = seq![seq![k, v1], seq![k, v2]];
    assert(pair_lists_of(xs) == Some(ps)) by {
        assert(ps =~= xs.map_values(|x: Reply| items_of(x)->0));
    }
    let first = seq![seq![k, v1]];
    assert(ps.drop_last() =~= first);
    assert(first.drop_last() =~= Seq::<Seq<Reply>>::empty());
    assert(pairs_to_map(Seq::<Seq<Reply>>::empty()) == Ok::<_, DecodeError>(
        Map::<Seq<char>, Reply>::empty(),
    ));
    assert(first.last() == seq![k, v1]);
    assert(seq![k, v1].len() == 2 && seq![k, v1][0] == k && seq![k, v1][1] == v1);
    assert(pairs_to_map(ps.drop_last()) == Ok::<_, DecodeError>(
        Map::<Seq<char>, Reply>::empty().insert(text_of(k)->0, v1),
    ));
    assert(Map::<Seq<char>, Reply>::empty().insert(text_of(k)->0, v1).insert(text_of(k)->0, v2)
        =~= map![text_of(k)->0 => v2]);
}

/// Whether a reply can be read as a list.
fn is_list(v: &ReplyValue) -> (r: bool)
    ensures
        r == (items_of(v@) is Some),
{
    match v {
        ReplyValue::Bulk(_) | ReplyValue::Nil | ReplyValue::Data(_) => true,
        _ => false,
    }
}

/// Flattens a list of `[name, value]` pairs into a map, the later of two pairs
/// with one name winning.
pub fn to_property_map(v: &ReplyValue) -> (r: Result<FieldMap<ReplyValue>, DecodeError>)
    ensures
        view_result(r) == property_map_of(v@),
{
    let mut map: FieldMap<ReplyValue> = FieldMap::new();
    match v {
        ReplyValue::Bulk(xs) => {
            proof {
                lemma_bulk_view(*v);
            }
            let ghost items = v@->Bulk_0;
            let mut i: usize = 0;
            while i < xs.len()
                invariant
                    i <= xs.len(),
                    v@ == Reply::Bulk(items),
                    items.len() == xs@.len(),
                    forall|j: int| 0 <= j < xs@.len() ==> #[trigger] items[j] == xs@[j]@,
                    forall|j: int| 0 <= j < i ==> (#[trigger] items_of(items[j])) is Some,
                    map@ == Map::<Seq<char>, Reply>::empty(),
                decreases xs.len() - i,
            {
                if !is_list(&xs[i]) {
                    assert(items_of(items[i as int]) is None);
                    return Ok(map);
                }
                i += 1;
            }
            let ghost ps = pair_lists_of(items)->0;
            assert(pairs_to_map(ps.take(0)) == Ok::<_, DecodeError>(map@));
            i = 0;
            while i < xs.len()
                invariant
                    i <= xs.len(),
                    v@ == Reply::Bulk(items),
                    items.len() == xs@.len(),
                    forall|j: int| 0 <= j < xs@.len() ==> #[trigger] items[j] == xs@[j]@,
                    pair_lists_of(items) == Some(ps),
                    ps.len() == items.len(),
                    forall|j: int| 0 <= j < ps.len() ==> #[trigger] ps[j] == items_of(items[j])->0,
                    pairs_to_map(ps.take(i as int)) == Ok::<_, DecodeError>(map@),
                decreases xs.len() - i,
            {
                assert(ps.take(i + 1).drop_last() =~= ps.take(i as int));
                match &xs[i] {
                    ReplyValue::Bulk(p) => {
                        proof {
                            lemma_bulk_view(xs@[i as int]);
                        }
                        if p.len() == 2 {
                            match text_value(&p[0]) {
                                Some(k) => {
                                    map.insert(k, p[1].duplicate());
                                },
                                None => {
                                    proof {
                                        assert(ps[i as int] == xs@[i as int]@->Bulk_0);

                                        lemma_pairs_error_persists(ps, i + 1);
                                    }
                                    return Err(DecodeError::FieldDecode);
                                },
                            }
                        }
                    },
                    _ => {},
                }
                i += 1;
            }
            assert(ps.take(xs.len() as int) =~= ps);
        },
        ReplyValue::Data(_) => {
            let ghost ps = seq![seq![v@]];
            assert(pair_lists_of(seq![v@]) == Some(ps)) by {
                assert(ps =~= seq![v@].map_values(|x: Reply| items_of(x)->0));
            }
            assert(ps.drop_last() =~= Seq::<Seq<Reply>>::empty());
            assert(pairs_to_map(Seq::<Seq<Reply>>::empty()) == Ok::<_, DecodeError>(map@));
        },
        _ => {
            assert(pair_lists_of(Seq::<Reply>::empty()) == Some(Seq::<Seq<Reply>>::empty())) by {
                assert(Seq::<Seq<Reply>>::empty() =~= Seq::<Reply>::empty().map_values(
                    |x: Reply| items_of(x)->0,
                ));
            }
        },
    }
    Ok(map)
}

} // verus!
