//! The library's model of a JSON value.
//!
//! Every JSON document that the server touches (schemas, tool arguments,
//! response payloads) is held in the `Json` type below, built from plain
//! values that the verifier can reason about. The transport layer converts
//! between this type and whatever wire representation it uses.

use vstd::prelude::*;

verus! {

/// How a JSON number is stored: a nonnegative integer, a negative integer,
/// or a number that is not representable as an integer.
#[derive(Clone, Copy, PartialEq, Eq, Structural, Debug)]
pub enum NumRepr {
    /// A nonnegative integer.
    PosInt(u64),
    /// A negative integer.
    NegInt(i64),
    /// A number that is not an integer.
    Float,
}

/// A JSON number.
///
/// Because the validator's numeric bounds are compared by magnitude and its
/// error messages print the bound, a number carries, besides its integer
/// representation when it has one:
/// - `key`: a monotone order key, fixed when the value enters the library;
///   two numbers compare (by `<` on the keys) exactly as their numeric
///   values do. The boundary that builds a `JsonNum` supplies it.
/// - `txt`: the number's decimal rendering, as the boundary would print it.
#[derive(Debug, PartialEq)]
pub struct JsonNum {
    pub repr: NumRepr,
    pub key: u64,
    pub txt: String,
}

/// A JSON value: null, boolean, number, string, array, or object.
/// An object is an ordered list of key/value pairs.
#[derive(Debug, PartialEq)]
pub enum Json {
    Null,
    Bool(bool),
    Num(JsonNum),
    Str(String),
    Arr(Vec<Json>),
    Obj(Vec<(String, Json)>),
}

/// The mathematical value of a `JsonNum`.
pub struct NumV {
    pub repr: NumRepr,
    pub key: u64,
    pub txt: Seq<char>,
}

/// The mathematical value of a `Json`.
pub enum JsonV {
    Null,
    Bool(bool),
    Num(NumV),
    Str(Seq<char>),
    Arr(Seq<JsonV>),
    Obj(Seq<(Seq<char>, JsonV)>),
}

impl View for JsonNum {
    type V = NumV;

    open spec fn view(&self) -> NumV {
        NumV { repr: self.repr, key: self.key, txt: self.txt@ }
    }
}

/// The value of a sequence of JSON values.
pub open spec fn seq_view(s: Seq<Json>) -> Seq<JsonV>
    decreases s, 1int,
{
    if s.len() == 0 {
        Seq::empty()
    } else {
        seq_view(s.drop_last()).push(json_view(s.last()))
    }
}

/// The value of an object's entry list.
pub open spec fn entries_view(s: Seq<(String, Json)>) -> Seq<(Seq<char>, JsonV)>
    decreases s, 1int,
{
    if s.len() == 0 {
        Seq::empty()
    } else {
        entries_view(s.drop_last()).push((s.last().0@, json_view(s.last().1)))
    }
}

/// The mathematical value of a JSON value.
pub open spec fn json_view(j: Json) -> JsonV
    decreases j, 0int,
{
    match j {
        Json::Null => JsonV::Null,
        Json::Bool(b) => JsonV::Bool(b),
        Json::Num(n) => JsonV::Num(n@),
        Json::Str(s) => JsonV::Str(s@),
        Json::Arr(items) => JsonV::Arr(seq_view(items@)),
        Json::Obj(entries) => JsonV::Obj(entries_view(entries@)),
    }
}

impl View for Json {
    type V = JsonV;

    open spec fn view(&self) -> JsonV {
        json_view(*self)
    }
}

/// `seq_view` maps `json_view` over the sequence, element by element.
pub broadcast proof fn lemma_seq_view(s: Seq<Json>)
    ensures
        (#[trigger] seq_view(s)).len() == s.len(),
        forall|i: int| 0 <= i < s.len() ==> seq_view(s)[i] == json_view(s[i]),
    decreases s.len(),
{
    if s.len() > 0 {
        lemma_seq_view(s.drop_last());
        assert forall|i: int| 0 <= i < s.len() implies seq_view(s)[i] == json_view(s[i]) by {
            if i < s.len() - 1 {
                assert(s.drop_last()[i] == s[i]);
            } else {
                assert(s.last() == s[i]);
            }
        }
    }
}

/// `entries_view` maps the views over the entry list, element by element.
pub broadcast proof fn lemma_entries_view(s: Seq<(String, Json)>)
    ensures
        (#[trigger] entries_view(s)).len() == s.len(),
        forall|i: int| 0 <= i < s.len() ==> entries_view(s)[i] == (s[i].0@, json_view(s[i].1)),
    decreases s.len(),
{
    if s.len() > 0 {
        lemma_entries_view(s.drop_last());
        assert forall|i: int| 0 <= i < s.len() implies entries_view(s)[i] == (
            s[i].0@,
            json_view(s[i].1),
        ) by {
            if i < s.len() - 1 {
                assert(s.drop_last()[i] == s[i]);
            } else {
                assert(s.last() == s[i]);
            }
        }
    }
}

/// The value bound to the first entry whose key is `k`, if any.
pub open spec fn obj_get_v(entries: Seq<(Seq<char>, JsonV)>, k: Seq<char>) -> Option<JsonV>
    decreases entries.len(),
{
    if entries.len() == 0 {
        None
    } else if entries[0].0 == k {
        Some(entries[0].1)
    } else {
        obj_get_v(entries.drop_first(), k)
    }
}

/// Whether some entry's key is `k`.
pub open spec fn obj_has_key_v(entries: Seq<(Seq<char>, JsonV)>, k: Seq<char>) -> bool {
    obj_get_v(entries, k) is Some
}

/// `obj_get_v` looked at from the front: the first matching index decides.
pub proof fn lemma_obj_get_v_step(entries: Seq<(Seq<char>, JsonV)>, i: int)
    requires
        0 <= i < entries.len(),
        forall|m: int| 0 <= m < i ==> entries[m].0 != entries[i].0,
    ensures
        obj_get_v(entries, entries[i].0) == Some(entries[i].1),
    decreases i,
{
    if i > 0 {
        assert(entries.drop_first()[i - 1] == entries[i]);
        assert(forall|m: int|
            0 <= m < i - 1 ==> entries.drop_first()[m] == entries[m + 1]);
        lemma_obj_get_v_step(entries.drop_first(), i - 1);
    }
}

/// A key that no entry carries is not found.
pub proof fn lemma_obj_get_v_none(entries: Seq<(Seq<char>, JsonV)>, k: Seq<char>)
    requires
        forall|m: int| 0 <= m < entries.len() ==> entries[m].0 != k,
    ensures
        obj_get_v(entries, k) is None,
    decreases entries.len(),
{
    if entries.len() > 0 {
        assert(forall|m: int|
            0 <= m < entries.len() - 1 ==> entries.drop_first()[m] == entries[m + 1]);
        lemma_obj_get_v_none(entries.drop_first(), k);
    }
}

/// Looks up `key` in an object's entry list: the first entry with that key.
pub fn obj_get<'a>(entries: &'a Vec<(String, Json)>, key: &String) -> (r: Option<&'a Json>)
    ensures
        match r {
            Some(v) => obj_get_v(entries_view(entries@), key@) == Some(v@),
            None => obj_get_v(entries_view(entries@), key@) is None,
        },
{
    proof {
        lemma_entries_view(entries@);
    }
    let n: usize = entries.len();
    let mut i: usize = 0;
    while i < n
        invariant
            n == entries@.len(),
            0 <= i <= n,
            forall|m: int| 0 <= m < i ==> (#[trigger] entries@[m]).0@ != key@,
        decreases n - i,
    {
        if entries[i].0 == *key {
            proof {
                lemma_entries_view(entries@);
                lemma_obj_get_v_step(entries_view(entries@), i as int);
            }
            return Some(&entries[i].1);
        }
        i = i + 1;
    }
    proof {
        lemma_entries_view(entries@);
        lemma_obj_get_v_none(entries_view(entries@), key@);
    }
    None
}

impl Clone for JsonNum {
    /// A copy with the same value.
    fn clone(&self) -> (r: Self)
        ensures
            r@ == self@,
    {
        JsonNum { repr: self.repr, key: self.key, txt: self.txt.clone() }
    }
}

/// A deep copy of a JSON value, equal to the original in value.
#[verifier::loop_isolation(false)]
pub fn json_clone(j: &Json) -> (r: Json)
    ensures
        r@ == j@,
    decreases *j,
{
    match j {
        Json::Null => Json::Null,
        Json::Bool(b) => Json::Bool(*b),
        Json::Num(n) => Json::Num(n.clone()),
        Json::Str(s) => Json::Str(s.clone()),
        Json::Arr(items) => {
            let n: usize = items.len();
            let mut out: Vec<Json> = Vec::new();
            let mut i: usize = 0;
            while i < n
                invariant
                    n == items@.len(),
                    0 <= i <= n,
                    out@.len() == i,
                    forall|m: int| 0 <= m < i ==> json_view(#[trigger] out@[m]) == json_view(
                        items@[m],
                    ),
                decreases n - i,
            {
                proof {
                    assert(decreases_to!(*j => *items));
                    assert(decreases_to!(*items => items@));
                    assert(decreases_to!(items@ => items@[i as int]));
                }
                let item = json_clone(&items[i]);
                out.push(item);
                i = i + 1;
            }
            proof {
                lemma_seq_view(out@);
                lemma_seq_view(items@);
                assert(seq_view(out@) =~= seq_view(items@));
            }
            Json::Arr(out)
        },
        Json::Obj(entries) => {
            let n: usize = entries.len();
            let mut out: Vec<(String, Json)> = Vec::new();
            let mut i: usize = 0;
            while i < n
                invariant
                    n == entries@.len(),
                    0 <= i <= n,
                    out@.len() == i,
                    forall|m: int| 0 <= m < i ==> (#[trigger] out@[m]).0@ == entries@[m].0@
                        && json_view(out@[m].1) == json_view(entries@[m].1),
                decreases n - i,
            {
                proof {
                    assert(decreases_to!(*j => *entries));
                    assert(decreases_to!(*entries => entries@));
                    assert(decreases_to!(entries@ => entries@[i as int]));
                    assert(decreases_to!(entries@[i as int] => entries@[i as int].1));
                }
                let k = entries[i].0.clone();
                let v = json_clone(&entries[i].1);
                out.push((k, v));
                i = i + 1;
            }
            proof {
                lemma_entries_view(out@);
                lemma_entries_view(entries@);
                assert(entries_view(out@) =~= entries_view(entries@));
            }
            Json::Obj(out)
        },
    }
}

impl Clone for Json {
    /// A deep copy with the same value.
    fn clone(&self) -> (r: Self)
        ensures
            r@ == self@,
    {
        json_clone(self)
    }
}

} // verus!
