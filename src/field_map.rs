use vstd::prelude::*;

verus! {

/// The mapping that a list of `(name, value)` entries stands for, where a
/// later entry for a name replaces an earlier one.
pub open spec fn map_of<V: View>(es: Seq<(String, V)>) -> Map<Seq<char>, V::V>
    decreases es.len(),
{
    if es.len() == 0 {
        Map::empty()
    } else {
        map_of(es.drop_last()).insert(es.last().0@, es.last().1@)
    }
}

pub open spec fn keys_unique<V>(es: Seq<(String, V)>) -> bool {
    forall|i: int, j: int|
        0 <= i < es.len() && 0 <= j < es.len() && i != j ==> (#[trigger] es[i]).0@ != (
        #[trigger] es[j]).0@
}

proof fn lemma_map_of_dom<V: View>(es: Seq<(String, V)>)
    ensures
        forall|k: Seq<char>|
            #[trigger] map_of(es).contains_key(k) <==> exists|i: int|
                0 <= i < es.len() && (#[trigger] es[i]).0@ == k,
    decreases es.len(),
{
    if es.len() > 0 {
        let init = es.drop_last();
        let last = es[es.len() - 1];
        lemma_map_of_dom(init);
        assert(map_of(es) == map_of(init).insert(last.0@, last.1@));
        assert forall|k: Seq<char>| #[trigger]
            map_of(es).contains_key(k) <==> exists|i: int|
                0 <= i < es.len() && (#[trigger] es[i]).0@ == k by {
            if k == last.0@ {
                assert(es[es.len() - 1].0@ == k);
            } else {
                if map_of(init).contains_key(k) {
                    let i = choose|i: int| 0 <= i < init.len() && (#[trigger] init[i]).0@ == k;
                    assert(es[i] == init[i]);
                }
                if exists|i: int| 0 <= i < es.len() && (#[trigger] es[i]).0@ == k {
                    let i = choose|i: int| 0 <= i < es.len() && (#[trigger] es[i]).0@ == k;
                    assert(i < es.len() - 1);
                    assert(init[i] == es[i]);
                }
            }
        }
    }
}

proof fn lemma_map_of_lookup<V: View>(es: Seq<(String, V)>, i: int)
    requires
        keys_unique(es),
        0 <= i < es.len(),
    ensures
        map_of(es).contains_key(es[i].0@),
        map_of(es)[es[i].0@] == es[i].1@,
    decreases es.len(),
{
    let init = es.drop_last();
    if i < es.len() - 1 {
        assert(init[i] == es[i]);
        assert(keys_unique(init)) by {
            assert forall|a: int, b: int|
                0 <= a < init.len() && 0 <= b < init.len() && a != b implies (
                #[trigger] init[a]).0@ != (#[trigger] init[b]).0@ by {
                assert(init[a] == es[a] && init[b] == es[b]);
            }
        }
        lemma_map_of_lookup(init, i);
        assert(es[i].0@ != es[es.len() - 1].0@);
    }
}

proof fn lemma_map_of_update<V: View>(es: Seq<(String, V)>, i: int, e: (String, V))
    requires
        keys_unique(es),
        0 <= i < es.len(),
        es[i].0@ == e.0@,
    ensures
        map_of(es.update(i, e)) == map_of(es).insert(e.0@, e.1@),
        keys_unique(es.update(i, e)),
    decreases es.len(),
{
    let es2 = es.update(i, e);
    let init = es.drop_last();
    assert(keys_unique(es2)) by {
        assert forall|a: int, b: int|
            0 <= a < es2.len() && 0 <= b < es2.len() && a != b implies (#[trigger] es2[a]).0@ != (
            #[trigger] es2[b]).0@ by {
            assert(es2[a].0@ == es[a].0@ && es2[b].0@ == es[b].0@);
        }
    }
    if i == es.len() - 1 {
        assert(es2.drop_last() =~= init);
        assert(map_of(es2) =~= map_of(es).insert(e.0@, e.1@));
    } else {
        assert(keys_unique(init)) by {
            assert forall|a: int, b: int|
                0 <= a < init.len() && 0 <= b < init.len() && a != b implies (
                #[trigger] init[a]).0@ != (#[trigger] init[b]).0@ by {
                assert(init[a] == es[a] && init[b] == es[b]);
            }
        }
        lemma_map_of_update(init, i, e);
        assert(es2.drop_last() =~= init.update(i, e));
        assert(es[i].0@ != es.last().0@);
        assert(map_of(es2) =~= map_of(es).insert(e.0@, e.1@));
    }
}

proof fn lemma_map_of_len<V: View>(es: Seq<(String, V)>)
    requires
        keys_unique(es),
    ensures
        map_of(es).dom().finite(),
        map_of(es).dom().len() == es.len(),
    decreases es.len(),
{
    if es.len() > 0 {
        let init = es.drop_last();
        assert(keys_unique(init)) by {
            assert forall|a: int, b: int|
                0 <= a < init.len() && 0 <= b < init.len() && a != b implies (
                #[trigger] init[a]).0@ != (#[trigger] init[b]).0@ by {
                assert(init[a] == es[a] && init[b] == es[b]);
            }
        }
        lemma_map_of_len(init);
        lemma_map_of_dom(init);
        if map_of(init).contains_key(es.last().0@) {
            let i = choose|i: int| 0 <= i < init.len() && (#[trigger] init[i]).0@ == es.last().0@;
            assert(init[i] == es[i]);
        }
    }
}

/// A mapping from names to values, kept as a list of entries with distinct
/// names.
#[derive(Debug)]
pub struct FieldMap<V> {
    entries: Vec<(String, V)>,
}

impl<V: View> View for FieldMap<V> {
    type V = Map<Seq<char>, V::V>;

    closed spec fn view(&self) -> Map<Seq<char>, V::V> {
        map_of(self.entries@)
    }
}

impl<V> FieldMap<V> {
    #[verifier::type_invariant]
    spec fn inv(&self) -> bool {
        keys_unique(self.entries@)
    }
}

impl<V: View> FieldMap<V> {
    /// A mapping with no names.
    pub fn new() -> (r: Self)
        ensures
            r@ == Map::<Seq<char>, V::V>::empty(),
    {
        FieldMap { entries: Vec::new() }
    }

    /// The position of the entry named `key`, if there is one.
    fn position(&self, key: &String) -> (r: Option<usize>)
        ensures
            r is Some <==> self@.contains_key(key@),
            r is Some ==> r->0 < self.entries@.len() && self.entries@[r->0 as int].0@ == key@,
    {
        proof {
            use_type_invariant(self);
            lemma_map_of_dom(self.entries@);
        }
        let ghost es = self.entries@;
        let mut i: usize = 0;
        while i < self.entries.len()
            invariant
                i <= self.entries@.len(),
                forall|j: int| 0 <= j < i ==> (#[trigger] self.entries@[j]).0@ != key@,
            decreases self.entries.len() - i,
        {
            if self.entries[i].0 == *key {
                proof {
                    lemma_map_of_dom(self.entries@);
                    assert(self.entries@[i as int].0@ == key@);
                }
                return Some(i);
            }
            i += 1;
        }
        proof {
            lemma_map_of_dom(self.entries@);
        }
        None
    }

    /// Maps `key` to `value`, replacing what it was mapped to before.
    pub fn insert(&mut self, key: String, value: V)
        ensures
            final(self)@ == old(self)@.insert(key@, value@),
    {
        proof {
            use_type_invariant(&*self);
        }
        let pos = self.position(&key);
        let mut es: Vec<(String, V)> = Vec::new();
        std::mem::swap(&mut es, &mut self.entries);
        match pos {
            Some(i) => {
                proof {
                    lemma_map_of_update(es@, i as int, (key, value));
                }
                es.set(i, (key, value));
            },
            None => {
                proof {
                    lemma_map_of_dom(es@);
                    let es2 = es@.push((key, value));
                    assert(es2.drop_last() =~= es@);
                    assert forall|a: int, b: int|
                        0 <= a < es2.len() && 0 <= b < es2.len() && a != b implies (
                        #[trigger] es2[a]).0@ != (#[trigger] es2[b]).0@ by {
                        if a < es2.len() - 1 {
                            assert(es2[a] == es@[a]);
                        }
                        if b < es2.len() - 1 {
                            assert(es2[b] == es@[b]);
                        }
                    }
                }
                es.push((key, value));
            },
        }
        self.entries = es;
    }

    /// The value that `key` is mapped to, if any.
    pub fn get(&self, key: &str) -> (r: Option<&V>)
        ensures
            r is Some <==> self@.contains_key(key@),
            r is Some ==> r->0@ == self@[key@],
    {
        proof {
            use_type_invariant(self);
        }
        let k = String::from_str(key);
        match self.position(&k) {
            Some(i) => {
                proof {
                    lemma_map_of_lookup(self.entries@, i as int);
                }
                Some(&self.entries[i].1)
            },
            None => None,
        }
    }

    /// Whether `key` is mapped to a value.
    pub fn contains_key(&self, key: &str) -> (r: bool)
        ensures
            r == self@.contains_key(key@),
    {
        let k = String::from_str(key);
        self.position(&k).is_some()
    }

    /// The number of names.
    pub fn len(&self) -> (r: usize)
        ensures
            r == self@.len(),
    {
        proof {
            use_type_invariant(self);
            lemma_map_of_len(self.entries@);
        }
        self.entries.len()
    }

    /// Whether no name is mapped.
    pub fn is_empty(&self) -> (r: bool)
        ensures
            r == (self@.len() == 0),
    {
        self.len() == 0
    }
}

} // verus!
