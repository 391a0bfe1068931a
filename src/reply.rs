use vstd::prelude::*;
use vstd::utf8::{decode_utf8, valid_utf8};

use crate::wire::{parse_u64, utf8_string};

verus! {

/// A reply value as the server sends it: a tree of integers, binary strings,
/// status lines and nested arrays.
#[derive(Debug, PartialEq, Eq)]
pub enum ReplyValue {
    /// A nil reply.
    Nil,
    /// An integer reply.
    Int(i64),
    /// A binary string.
    Data(Vec<u8>),
    /// An array of replies.
    Bulk(Vec<ReplyValue>),
    /// A status line.
    Status(String),
    /// The status line `OK`.
    Okay,
}

/// The model of a reply: the same tree, with sequences in place of vectors
/// and strings.
pub enum Reply {
    Nil,
    Int(i64),
    Data(Seq<u8>),
    Bulk(Seq<Reply>),
    Status(Seq<char>),
    Okay,
}

/// The model of a reply value.
pub open spec fn tree_of(v: ReplyValue) -> Reply
    decreases v, 0nat,
{
    match v {
        ReplyValue::Nil => Reply::Nil,
        ReplyValue::Int(i) => Reply::Int(i),
        ReplyValue::Data(b) => Reply::Data(b@),
        ReplyValue::Bulk(xs) => Reply::Bulk(trees_of(xs@, xs@.len() as int)),
        ReplyValue::Status(s) => Reply::Status(s@),
        ReplyValue::Okay => Reply::Okay,
    }
}

/// The models of the first `n` members of an array.
pub open spec fn trees_of(xs: Seq<ReplyValue>, n: int) -> Seq<Reply>
    decreases xs, n,
{
    if n <= 0 || n > xs.len() {
        Seq::empty()
    } else {
        trees_of(xs, n - 1).push(tree_of(xs[n - 1]))
    }
}

/// The models of an array's members, one by one.
pub proof fn lemma_trees_of_index(xs: Seq<ReplyValue>, n: int)
    requires
        0 <= n <= xs.len(),
    ensures
        trees_of(xs, n).len() == n,
        forall|j: int| 0 <= j < n ==> #[trigger] trees_of(xs, n)[j] == tree_of(xs[j]),
    decreases n,
{
    if n > 0 {
        lemma_trees_of_index(xs, n - 1);
    }
}

impl View for ReplyValue {
    type V = Reply;

    open spec fn view(&self) -> Reply {
        tree_of(*self)
    }
}

impl ReplyValue {
    /// A deep copy of the reply.
    pub fn duplicate(&self) -> (r: ReplyValue)
        ensures
            r@ == self@,
        decreases self,
    {
        match self {
            ReplyValue::Nil => ReplyValue::Nil,
            ReplyValue::Int(i) => ReplyValue::Int(*i),
            ReplyValue::Data(b) => {
                let c = b.clone();
                assert(c@ =~= b@);
                ReplyValue::Data(c)
            },
            ReplyValue::Bulk(items) => {
                let mut out: Vec<ReplyValue> = Vec::new();
                let mut i: usize = 0;
                while i < items.len()
                    invariant
                        i <= items.len(),
                        *self == ReplyValue::Bulk(*items),
                        out@.len() == i,
                        forall|j: int| 0 <= j < i ==> (#[trigger] out@[j])@ == items@[j]@,
                    decreases items.len() - i,
                {
                    proof {
                        assert(decreases_to!(*self => (*self)->Bulk_0));
                        assert(decreases_to!((*self)->Bulk_0 => (*self)->Bulk_0@));
                        assert(decreases_to!((*self)->Bulk_0@ => (*self)->Bulk_0@[i as int]));
                    }
                    let x = items[i].duplicate();
                    out.push(x);
                    i += 1;
                }
                proof {
                    lemma_trees_of_index(out@, out@.len() as int);
                    lemma_trees_of_index(items@, items@.len() as int);
                    assert(trees_of(out@, out@.len() as int) =~= trees_of(items@, items@.len() as int));
                }
                ReplyValue::Bulk(out)
            },
            ReplyValue::Status(s) => ReplyValue::Status(s.clone()),
            ReplyValue::Okay => ReplyValue::Okay,
        }
    }
}

impl Clone for ReplyValue {
    fn clone(&self) -> (r: Self)
        ensures
            r@ == self@,
    {
        self.duplicate()
    }
}

/// Why a reply could not be decoded.
#[derive(Clone, Copy, Debug, PartialEq, Eq, Structural)]
pub enum DecodeError {
    /// The reply as a whole has none of the recognized shapes.
    Shape,
    /// A field could not be converted to the type it stands for.
    FieldDecode,
    /// A fixed-size record does not have the number of fields it needs.
    FixedArity,
}

/// The model of a decoding result: the value's view, or the error.
pub open spec fn view_result<T: View>(r: Result<T, DecodeError>) -> Result<T::V, DecodeError> {
    match r {
        Ok(t) => Ok(t@),
        Err(e) => Err(e),
    }
}

/// The model of an optional value.
pub open spec fn view_option<T: View>(r: Option<T>) -> Option<T::V> {
    match r {
        Some(t) => Some(t@),
        None => None,
    }
}

/// The texts held by a vector of strings.
pub open spec fn texts_view(v: Vec<String>) -> Seq<Seq<char>> {
    v@.map_values(|s: String| s@)
}

/// A reply read as a list: an array gives its members, nil the empty list,
/// and binary data the list of that one value. Any other reply is no list.
pub open spec fn items_of(r: Reply) -> Option<Seq<Reply>> {
    match r {
        Reply::Bulk(xs) => Some(xs),
        Reply::Nil => Some(Seq::empty()),
        Reply::Data(_) => Some(seq![r]),
        _ => None,
    }
}

/// A reply read as text: binary data that is valid UTF-8, a status line, or
/// the text `OK` for an OK status.
pub open spec fn text_of(r: Reply) -> Option<Seq<char>> {
    match r {
        Reply::Data(b) => if valid_utf8(b) {
            Some(decode_utf8(b))
        } else {
            None
        },
        Reply::Status(s) => Some(s),
        Reply::Okay => Some("OK"@),
        _ => None,
    }
}

/// A decimal digit.
pub open spec fn is_digit(c: char) -> bool {
    '0' <= c && c <= '9'
}

/// The number written by a string of decimal digits.
pub open spec fn decimal_value(ds: Seq<char>) -> nat
    decreases ds.len(),
{
    if ds.len() == 0 {
        0
    } else {
        decimal_value(ds.drop_last()) * 10 + ((ds.last() as nat) - ('0' as nat)) as nat
    }
}

/// A text read as an unsigned 64-bit number: an optional `+` followed by one or
/// more decimal digits, whose value fits in 64 bits.
pub open spec fn parsed_u64(s: Seq<char>) -> Option<u64> {
    let ds = if s.len() > 0 && s[0] == '+' {
        s.drop_first()
    } else {
        s
    };
    if ds.len() > 0 && (forall|i: int| 0 <= i < ds.len() ==> is_digit(#[trigger] ds[i]))
        && decimal_value(ds) <= u64::MAX {
        Some(decimal_value(ds) as u64)
    } else {
        None
    }
}

/// A reply read as an unsigned 64-bit number: an integer reply is cast, a
/// status line or UTF-8 binary data is parsed as decimal text.
pub open spec fn u64_of(r: Reply) -> Option<u64> {
    match r {
        Reply::Int(i) => Some(i as u64),
        Reply::Status(s) => parsed_u64(s),
        Reply::Data(b) => if valid_utf8(b) {
            parsed_u64(decode_utf8(b))
        } else {
            None
        },
        _ => None,
    }
}

/// Every member read as text, or nothing if one of them is not text.
pub open spec fn texts_of(xs: Seq<Reply>) -> Option<Seq<Seq<char>>> {
    if forall|j: int| 0 <= j < xs.len() ==> (#[trigger] text_of(xs[j])) is Some {
        Some(xs.map_values(|x: Reply| text_of(x)->0))
    } else {
        None
    }
}

/// A reply read as a list of texts.
pub open spec fn text_list_of(r: Reply) -> Option<Seq<Seq<char>>> {
    match items_of(r) {
        Some(xs) => texts_of(xs),
        None => None,
    }
}

/// The view of an array reply lists the views of its members.
pub proof fn lemma_bulk_view(v: ReplyValue)
    requires
        v is Bulk,
    ensures
        v@ is Bulk,
        v@->Bulk_0.len() == v->Bulk_0@.len(),
        forall|j: int| 0 <= j < v->Bulk_0@.len() ==> #[trigger] v@->Bulk_0[j] == v->Bulk_0@[j]@,
{
    lemma_trees_of_index(v->Bulk_0@, v->Bulk_0@.len() as int);
}

/// Reads a reply as text.
pub fn text_value(v: &ReplyValue) -> (r: Option<String>)
    ensures
        view_option(r) == text_of(v@),
{
    match v {
        ReplyValue::Data(b) => utf8_string(b),
        ReplyValue::Status(s) => Some(s.clone()),
        ReplyValue::Okay => Some(String::from_str("OK")),
        _ => None,
    }
}

/// Reads a reply as an unsigned 64-bit number.
pub fn u64_value(v: &ReplyValue) -> (r: Option<u64>)
    ensures
        r == u64_of(v@),
{
    match v {
        ReplyValue::Int(i) => Some(*i as u64),
        ReplyValue::Status(s) => parse_u64(s),
        ReplyValue::Data(b) => match utf8_string(b) {
            Some(s) => parse_u64(&s),
            None => None,
        },
        _ => None,
    }
}

/// Reads a reply as a list of texts.
pub fn text_list(v: &ReplyValue) -> (r: Option<Vec<String>>)
    ensures
        r is Some <==> text_list_of(v@) is Some,
        r is Some ==> texts_view(r->0) == text_list_of(v@)->0,
{
    match v {
        ReplyValue::Bulk(xs) => {
            proof {
                lemma_bulk_view(*v);
            }
            let ghost items = v@->Bulk_0;
            let mut out: Vec<String> = Vec::new();
            let mut i: usize = 0;
            while i < xs.len()
                invariant
                    i <= xs.len(),
                    v@ == Reply::Bulk(items),
                    items.len() == xs@.len(),
                    forall|j: int| 0 <= j < xs@.len() ==> #[trigger] items[j] == xs@[j]@,
                    out@.len() == i,
                    forall|j: int| 0 <= j < i ==> text_of(#[trigger] items[j]) == Some(out@[j]@),
                decreases xs.len() - i,
            {
                match text_value(&xs[i]) {
                    Some(s) => out.push(s),
                    None => {
                        assert(text_of(items[i as int]) is None);
                        return None;
                    },
                }
                i += 1;
            }
            assert(texts_view(out) =~= texts_of(items)->0);
            Some(out)
        },
        ReplyValue::Nil => {
            let out: Vec<String> = Vec::new();
            assert(texts_view(out) =~= texts_of(Seq::empty())->0);
            Some(out)
        },
        ReplyValue::Data(_) => match text_value(v) {
            Some(s) => {
                let mut out: Vec<String> = Vec::new();
                out.push(s);
                assert(texts_view(out) =~= texts_of(seq![v@])->0);
                Some(out)
            },
            None => {
                assert(text_of(seq![v@][0]) is None);
                None
            },
        },
        _ => None,
    }
}

} // verus!
