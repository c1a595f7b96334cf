//! A JSON-like value tree: the canonical shape that component values are
//! reduced to for structural comparison, and the carrier for the parts of a
//! document the merge engine does not interpret.
//!
//! Numbers are kept as their literal text: the engine never does arithmetic
//! on them, it only compares values structurally.

use vstd::prelude::*;

verus! {

/// An uninterpreted JSON value. Object entries keep insertion order.
#[derive(Debug, PartialEq)]
pub enum Json {
    Null,
    Bool(bool),
    /// The literal text of a JSON number.
    Num(String),
    Str(String),
    Arr(Vec<Json>),
    Obj(Vec<(String, Json)>),
}

/// The mathematical shape of a [`Json`] value.
#[verifier::ext_equal]
pub enum JsonV {
    Null,
    Bool(bool),
    Num(Seq<char>),
    Str(Seq<char>),
    Arr(Seq<JsonV>),
    Obj(Seq<(Seq<char>, JsonV)>),
}

pub open spec fn view_json(j: Json) -> JsonV
    decreases j,
{
    match j {
        Json::Null => JsonV::Null,
        Json::Bool(b) => JsonV::Bool(b),
        Json::Num(s) => JsonV::Num(s@),
        Json::Str(s) => JsonV::Str(s@),
        Json::Arr(items) => JsonV::Arr(view_json_seq(items@)),
        Json::Obj(entries) => JsonV::Obj(view_json_entries(entries@)),
    }
}

pub open spec fn view_json_seq(s: Seq<Json>) -> Seq<JsonV>
    decreases s,
{
    if s.len() == 0 {
        Seq::empty()
    } else {
        seq![view_json(s[0])] + view_json_seq(s.subrange(1, s.len() as int))
    }
}

pub open spec fn view_json_entries(s: Seq<(String, Json)>) -> Seq<(Seq<char>, JsonV)>
    decreases s,
{
    if s.len() == 0 {
        Seq::empty()
    } else {
        seq![(s[0].0@, view_json(s[0].1))] + view_json_entries(
            s.subrange(1, s.len() as int),
        )
    }
}

impl View for Json {
    type V = JsonV;

    open spec fn view(&self) -> JsonV {
        view_json(*self)
    }
}

pub broadcast proof fn lemma_view_json_seq(s: Seq<Json>)
    ensures
        (#[trigger] view_json_seq(s)).len() == s.len(),
        forall|i: int| 0 <= i < s.len() ==> #[trigger] view_json_seq(s)[i] == s[i]@,
    decreases s.len(),
{
    if s.len() > 0 {
        let tail = s.subrange(1, s.len() as int);
        lemma_view_json_seq(tail);
        assert forall|i: int| 0 <= i < s.len() implies #[trigger] view_json_seq(s)[i] == s[i]@ by {
            if i > 0 {
                assert(tail[i - 1] == s[i]);
                assert(view_json_seq(s)[i] == view_json_seq(tail)[i - 1]);
            }
        }
    }
}

pub broadcast proof fn lemma_view_json_entries(s: Seq<(String, Json)>)
    ensures
        (#[trigger] view_json_entries(s)).len() == s.len(),
        forall|i: int|
            0 <= i < s.len() ==> #[trigger] view_json_entries(s)[i] == (s[i].0@, s[i].1@),
    decreases s.len(),
{
    if s.len() > 0 {
        let tail = s.subrange(1, s.len() as int);
        lemma_view_json_entries(tail);
        assert forall|i: int|
            0 <= i < s.len() implies #[trigger] view_json_entries(s)[i] == (s[i].0@, s[i].1@) by {
            if i > 0 {
                assert(tail[i - 1] == s[i]);
                assert(view_json_entries(s)[i] == view_json_entries(tail)[i - 1]);
            }
        }
    }
}

pub broadcast proof fn lemma_view_json_seq_push(s: Seq<Json>, x: Json)
    ensures
        #[trigger] view_json_seq(s.push(x)) == view_json_seq(s).push(x@),
{
    lemma_view_json_seq(s.push(x));
    lemma_view_json_seq(s);
    assert(view_json_seq(s.push(x)) =~= view_json_seq(s).push(x@));
}

pub broadcast proof fn lemma_view_json_entries_push(s: Seq<(String, Json)>, p: (String, Json))
    ensures
        #[trigger] view_json_entries(s.push(p)) == view_json_entries(s).push((p.0@, p.1@)),
{
    lemma_view_json_entries(s.push(p));
    lemma_view_json_entries(s);
    assert(view_json_entries(s.push(p)) =~= view_json_entries(s).push((p.0@, p.1@)));
}

/// The value at the first entry of `entries` whose key is `key`, if any.
pub open spec fn obj_get(entries: Seq<(Seq<char>, JsonV)>, key: Seq<char>) -> Option<JsonV>
    decreases entries.len(),
{
    if entries.len() == 0 {
        Option::None
    } else if entries[0].0 == key {
        Option::Some(entries[0].1)
    } else {
        obj_get(entries.subrange(1, entries.len() as int), key)
    }
}

/// Structural equality of two JSON values: order-sensitive for arrays,
/// order-insensitive for object entries. On objects it asks that the two
/// entry lists have the same length and that every entry of `a` is matched
/// by an entry of `b` under the same key; for objects without repeated keys
/// (the only ones a parser produces) this coincides with map equality.
pub open spec fn json_eq(a: JsonV, b: JsonV) -> bool
    decreases a,
{
    match (a, b) {
        (JsonV::Null, JsonV::Null) => true,
        (JsonV::Bool(x), JsonV::Bool(y)) => x == y,
        (JsonV::Num(x), JsonV::Num(y)) => x == y,
        (JsonV::Str(x), JsonV::Str(y)) => x == y,
        (JsonV::Arr(x), JsonV::Arr(y)) => x.len() == y.len() && (forall|i: int|
            0 <= i < x.len() ==> json_eq(#[trigger] x[i], y[i])),
        (JsonV::Obj(x), JsonV::Obj(y)) => x.len() == y.len() && (forall|i: int|
            0 <= i < x.len() ==> match obj_get(y, (#[trigger] x[i]).0) {
                Option::Some(v) => json_eq(x[i].1, v),
                Option::None => false,
            }),
        _ => false,
    }
}

/// The first entry of `entries` whose key is `key`, if any.
#[verifier::loop_isolation(false)]
pub fn obj_lookup<'a>(entries: &'a Vec<(String, Json)>, key: &String) -> (r: Option<&'a Json>)
    ensures
        match r {
            Option::Some(v) => obj_get(view_json_entries(entries@), key@) == Option::Some(v@),
            Option::None => obj_get(view_json_entries(entries@), key@) is None,
        },
{
    broadcast use lemma_view_json_entries;

    let ghost all = view_json_entries(entries@);
    proof {
        assert(all.subrange(0, all.len() as int) =~= all);
    }
    let mut i: usize = 0;
    while i < entries.len()
        invariant
            0 <= i <= entries.len(),
            all == view_json_entries(entries@),
            all.len() == entries@.len(),
            obj_get(all, key@) == obj_get(all.subrange(i as int, all.len() as int), key@),
        decreases entries.len() - i,
    {
        proof {
            let tail = all.subrange(i as int, all.len() as int);
            assert(tail[0] == all[i as int]);
            assert(tail.subrange(1, tail.len() as int) =~= all.subrange(
                i as int + 1,
                all.len() as int,
            ));
        }
        if entries[i].0 == *key {
            return Option::Some(&entries[i].1);
        }
        i = i + 1;
    }
    proof {
        assert(all.subrange(all.len() as int, all.len() as int) =~= Seq::<(
            Seq<char>,
            JsonV,
        )>::empty());
    }
    Option::None
}

/// Structural equality of two JSON values, following [`json_eq`].
#[verifier::loop_isolation(false)]
pub fn json_equal(a: &Json, b: &Json) -> (r: bool)
    ensures
        r == json_eq(a@, b@),
    decreases *a,
{
    broadcast use lemma_view_json_seq, lemma_view_json_entries;

    match (a, b) {
        (Json::Null, Json::Null) => true,
        (Json::Bool(x), Json::Bool(y)) => *x == *y,
        (Json::Num(x), Json::Num(y)) => *x == *y,
        (Json::Str(x), Json::Str(y)) => *x == *y,
        (Json::Arr(x), Json::Arr(y)) => {
            let ghost vx = view_json_seq(x@);
            let ghost vy = view_json_seq(y@);
            if x.len() != y.len() {
                assert(vx.len() != vy.len());
                return false;
            }
            let mut i: usize = 0;
            while i < x.len()
                invariant
                    0 <= i <= x@.len(),
                    x@.len() == y@.len(),
                    vx == view_json_seq(x@),
                    vy == view_json_seq(y@),
                    vx.len() == x@.len(),
                    vy.len() == y@.len(),
                    a@ == JsonV::Arr(vx),
                    b@ == JsonV::Arr(vy),
                    forall|j: int| 0 <= j < i ==> json_eq(#[trigger] vx[j], vy[j]),
                decreases x@.len() - i,
            {
                proof {
                    assert(*x == a->Arr_0);
                    assert(decreases_to!(*a => *x));
                    assert(decreases_to!(*x => x@[i as int]));
                }
                if !json_equal(&x[i], &y[i]) {
                    assert(!json_eq(vx[i as int], vy[i as int]));
                    return false;
                }
                i = i + 1;
            }
            true
        },
        (Json::Obj(x), Json::Obj(y)) => {
            let ghost vx = view_json_entries(x@);
            let ghost vy = view_json_entries(y@);
            if x.len() != y.len() {
                assert(vx.len() != vy.len());
                return false;
            }
            let mut i: usize = 0;
            while i < x.len()
                invariant
                    0 <= i <= x@.len(),
                    x@.len() == y@.len(),
                    vx == view_json_entries(x@),
                    vy == view_json_entries(y@),
                    vx.len() == x@.len(),
                    vy.len() == y@.len(),
                    a@ == JsonV::Obj(vx),
                    b@ == JsonV::Obj(vy),
                    forall|j: int|
                        0 <= j < i ==> match obj_get(vy, (#[trigger] vx[j]).0) {
                            Option::Some(v) => json_eq(vx[j].1, v),
                            Option::None => false,
                        },
                decreases x@.len() - i,
            {
                proof {
                    assert(vx[i as int] == (x@[i as int].0@, x@[i as int].1@));
                    assert(*x == a->Obj_0);
                    assert(decreases_to!(*a => *x));
                    assert(decreases_to!(*x => x@[i as int]));
                    assert(decreases_to!(x@[i as int] => x@[i as int].1));
                }
                match obj_lookup(y, &x[i].0) {
                    Option::Some(v) => {
                        if !json_equal(&x[i].1, v) {
                            return false;
                        }
                    },
                    Option::None => {
                        return false;
                    },
                }
                i = i + 1;
            }
            true
        },
        _ => false,
    }
}

} // verus!
