//! The generic JSON document model that the rewrite engine works on.
//!
//! A number is carried as its literal text, so that every wire form a
//! document can hold round-trips unchanged. An object is a list of
//! key/value entries in a fixed order; the insertion operations here
//! place entries in key order, mirroring the deterministic iteration of
//! a sorted map while keeping the type a plain datatype.

use vstd::prelude::*;

verus! {

broadcast use vstd::std_specs::vec::group_vec_axioms, vstd::seq::group_seq_axioms,
    vstd::seq_lib::group_seq_lib_default;

/// Mathematical model of a JSON value.
#[verifier::ext_equal]
pub enum JsonV {
    Null,
    Bool(bool),
    Num(Seq<char>),
    Str(Seq<char>),
    Arr(Seq<JsonV>),
    Obj(Seq<(Seq<char>, JsonV)>),
}

/// A JSON value. Numbers keep their literal text.
#[derive(Debug, PartialEq)]
pub enum Json {
    Null,
    Bool(bool),
    Num(String),
    Str(String),
    Arr(Vec<Json>),
    Obj(Vec<(String, Json)>),
}

/// The model of a `Json` value.
pub open spec fn json_view(j: Json) -> JsonV
    decreases j, 1int,
{
    match j {
        Json::Null => JsonV::Null,
        Json::Bool(b) => JsonV::Bool(b),
        Json::Num(s) => JsonV::Num(s@),
        Json::Str(s) => JsonV::Str(s@),
        Json::Arr(v) => JsonV::Arr(arr_view(v@)),
        Json::Obj(v) => JsonV::Obj(obj_view(v@)),
    }
}

/// The model of a list of JSON values.
pub open spec fn arr_view(s: Seq<Json>) -> Seq<JsonV>
    decreases s, 0int,
{
    Seq::new(
        s.len(),
        |i: int|
            if 0 <= i < s.len() {
                json_view(s[i])
            } else {
                JsonV::Null
            },
    )
}

/// The model of a list of JSON object entries.
pub open spec fn obj_view(s: Seq<(String, Json)>) -> Seq<(Seq<char>, JsonV)>
    decreases s, 0int,
{
    Seq::new(
        s.len(),
        |i: int|
            if 0 <= i < s.len() {
                (s[i].0@, json_view(s[i].1))
            } else {
                (Seq::<char>::empty(), JsonV::Null)
            },
    )
}

impl DeepView for Json {
    type V = JsonV;

    open spec fn deep_view(&self) -> JsonV {
        json_view(*self)
    }
}

/// Strict lexicographic order on character sequences, by code point.
pub open spec fn lex_lt(a: Seq<char>, b: Seq<char>) -> bool
    decreases a.len(),
{
    if b.len() == 0 {
        false
    } else if a.len() == 0 {
        true
    } else if a[0] == b[0] {
        lex_lt(a.drop_first(), b.drop_first())
    } else {
        (a[0] as int) < (b[0] as int)
    }
}

/// `lex_lt` is a strict total order: for any two sequences exactly one of
/// `a < b`, `a == b`, `b < a` holds.
pub proof fn lemma_lex_trichotomy(a: Seq<char>, b: Seq<char>)
    ensures
        lex_lt(a, b) || lex_lt(b, a) || a == b,
        lex_lt(a, b) ==> !lex_lt(b, a) && a != b,
        lex_lt(b, a) ==> !lex_lt(a, b) && a != b,
    decreases a.len(),
{
    if a.len() == 0 || b.len() == 0 {
        if a.len() == 0 && b.len() == 0 {
            assert(a =~= b);
        }
    } else if a[0] == b[0] {
        lemma_lex_trichotomy(a.drop_first(), b.drop_first());
        if a.drop_first() == b.drop_first() {
            assert(forall|i: int| 1 <= i < a.len() ==> a[i] == a.drop_first()[i - 1]);
            assert(forall|i: int| 1 <= i < b.len() ==> b[i] == b.drop_first()[i - 1]);
            assert(a =~= b);
        }
        if a == b {
            assert(a.drop_first() =~= b.drop_first());
        }
    }
}

/// If the first `i` characters agree, the order is decided by the rest.
pub proof fn lemma_lex_lt_skip(a: Seq<char>, b: Seq<char>, i: int)
    requires
        0 <= i <= a.len(),
        i <= b.len(),
        forall|k: int| 0 <= k < i ==> a[k] == b[k],
    ensures
        lex_lt(a, b) == lex_lt(a.skip(i), b.skip(i)),
    decreases i,
{
    if i == 0 {
        assert(a.skip(0) =~= a);
        assert(b.skip(0) =~= b);
    } else {
        assert(a[0] == b[0]);
        assert(forall|k: int| 0 <= k < i - 1 ==> a.drop_first()[k] == b.drop_first()[k]);
        lemma_lex_lt_skip(a.drop_first(), b.drop_first(), i - 1);
        assert(a.drop_first().skip(i - 1) =~= a.skip(i));
        assert(b.drop_first().skip(i - 1) =~= b.skip(i));
    }
}

/// Whether `a` comes strictly before `b` in code-point order.
pub fn str_lt(a: &str, b: &str) -> (r: bool)
    ensures
        r == lex_lt(a@, b@),
{
    let alen = a.unicode_len();
    let blen = b.unicode_len();
    let mut i: usize = 0;
    loop
        invariant
            i <= alen,
            i <= blen,
            alen == a@.len(),
            blen == b@.len(),
            forall|k: int| 0 <= k < i ==> a@[k] == b@[k],
        ensures
            lex_lt(a@, b@) == if i < alen && i < blen {
                (a@[i as int] as int) < (b@[i as int] as int)
            } else {
                alen < blen
            },
        decreases alen - i,
    {
        proof {
            lemma_lex_lt_skip(a@, b@, i as int);
        }
        if !(i < alen && i < blen) {
            break;
        }
        let ca = a.get_char(i);
        let cb = b.get_char(i);
        if ca != cb {
            proof {
                assert(a@.skip(i as int)[0] == a@[i as int]);
                assert(b@.skip(i as int)[0] == b@[i as int]);
            }
            break;
        }
        i += 1;
    }
    if i < alen && i < blen {
        let ca = a.get_char(i);
        let cb = b.get_char(i);
        (ca as u32) < (cb as u32)
    } else {
        alen < blen
    }
}

/// The value under the first entry with key `k`, if any.
pub open spec fn spec_map_get<V>(m: Seq<(Seq<char>, V)>, k: Seq<char>) -> Option<V>
    decreases m.len(),
{
    if m.len() == 0 {
        None
    } else if m[0].0 == k {
        Some(m[0].1)
    } else {
        spec_map_get(m.drop_first(), k)
    }
}

/// Entry insertion in key order; an entry with an equal key is replaced.
pub open spec fn spec_map_insert<V>(m: Seq<(Seq<char>, V)>, k: Seq<char>, v: V) -> Seq<
    (Seq<char>, V),
>
    decreases m.len(),
{
    if m.len() == 0 {
        seq![(k, v)]
    } else if lex_lt(k, m[0].0) {
        seq![(k, v)] + m
    } else if k == m[0].0 {
        seq![(k, v)] + m.drop_first()
    } else {
        seq![m[0]] + spec_map_insert(m.drop_first(), k, v)
    }
}

/// Insertion in order into a list of keys; an equal key is kept once.
pub open spec fn spec_set_insert(m: Seq<Seq<char>>, k: Seq<char>) -> Seq<Seq<char>>
    decreases m.len(),
{
    if m.len() == 0 {
        seq![k]
    } else if lex_lt(k, m[0]) {
        seq![k] + m
    } else if k == m[0] {
        m
    } else {
        seq![m[0]] + spec_set_insert(m.drop_first(), k)
    }
}

/// After inserting `k`, looking `k` up yields the inserted value.
pub proof fn lemma_map_insert_get<V>(m: Seq<(Seq<char>, V)>, k: Seq<char>, v: V)
    ensures
        spec_map_get(spec_map_insert(m, k, v), k) == Some(v),
    decreases m.len(),
{
    if m.len() == 0 {
        assert(spec_map_insert(m, k, v) =~= seq![(k, v)]);
        assert(spec_map_insert(m, k, v)[0] == (k, v));
    } else {
        lemma_lex_trichotomy(k, m[0].0);
        if lex_lt(k, m[0].0) {
            assert((seq![(k, v)] + m)[0] == (k, v));
        } else if k == m[0].0 {
            assert((seq![(k, v)] + m.drop_first())[0] == (k, v));
        } else {
            lemma_map_insert_get(m.drop_first(), k, v);
            let r = seq![m[0]] + spec_map_insert(m.drop_first(), k, v);
            assert(r[0] == m[0]);
            assert(r.drop_first() =~= spec_map_insert(m.drop_first(), k, v));
        }
    }
}

/// Inserting `k` does not change the lookup of another key.
pub proof fn lemma_map_insert_get_other<V>(m: Seq<(Seq<char>, V)>, k: Seq<char>, v: V, k2: Seq<char>)
    requires
        k2 != k,
    ensures
        spec_map_get(spec_map_insert(m, k, v), k2) == spec_map_get(m, k2),
    decreases m.len(),
{
    if m.len() == 0 {
        assert(spec_map_insert(m, k, v) =~= seq![(k, v)]);
        assert(spec_map_insert(m, k, v)[0] == (k, v));
        assert(spec_map_insert(m, k, v).drop_first() =~= Seq::<(Seq<char>, V)>::empty());
        assert(spec_map_get(Seq::<(Seq<char>, V)>::empty(), k2) is None);
    } else {
        lemma_lex_trichotomy(k, m[0].0);
        if lex_lt(k, m[0].0) {
            let r = seq![(k, v)] + m;
            assert(r[0] == (k, v));
            assert(r.drop_first() =~= m);
        } else if k == m[0].0 {
            let r = seq![(k, v)] + m.drop_first();
            assert(r[0] == (k, v));
            assert(r.drop_first() =~= m.drop_first());
        } else {
            lemma_map_insert_get_other(m.drop_first(), k, v, k2);
            let r = seq![m[0]] + spec_map_insert(m.drop_first(), k, v);
            assert(r[0] == m[0]);
            assert(r.drop_first() =~= spec_map_insert(m.drop_first(), k, v));
        }
    }
}

/// Skipping entries whose key is below `k` does not change where `k` lands.
pub proof fn lemma_map_insert_skip<V>(m: Seq<(Seq<char>, V)>, k: Seq<char>, v: V, i: int)
    requires
        0 <= i <= m.len(),
        forall|j: int| 0 <= j < i ==> lex_lt(#[trigger] m[j].0, k),
    ensures
        spec_map_insert(m, k, v) =~= m.take(i) + spec_map_insert(m.skip(i), k, v),
    decreases i,
{
    if i == 0 {
        assert(m.skip(0) =~= m);
        assert(m.take(0) + spec_map_insert(m, k, v) =~= spec_map_insert(m, k, v));
    } else {
        lemma_lex_trichotomy(k, m[0].0);
        lemma_map_insert_skip(m.drop_first(), k, v, i - 1);
        assert(m.drop_first().skip(i - 1) =~= m.skip(i));
        assert(m.drop_first().take(i - 1) =~= m.take(i).drop_first());
        assert(spec_map_insert(m, k, v) =~= seq![m[0]] + spec_map_insert(m.drop_first(), k, v));
        assert(seq![m[0]] + (m.drop_first().take(i - 1) + spec_map_insert(m.skip(i), k, v)) =~= m.take(
            i,
        ) + spec_map_insert(m.skip(i), k, v));
    }
}

/// Skipping entries whose key differs from `k` does not change the lookup.
pub proof fn lemma_map_get_skip<V>(m: Seq<(Seq<char>, V)>, k: Seq<char>, i: int)
    requires
        0 <= i <= m.len(),
        forall|j: int| 0 <= j < i ==> #[trigger] m[j].0 != k,
    ensures
        spec_map_get(m, k) == spec_map_get(m.skip(i), k),
    decreases i,
{
    if i == 0 {
        assert(m.skip(0) =~= m);
    } else {
        lemma_map_get_skip(m.drop_first(), k, i - 1);
        assert(m.drop_first().skip(i - 1) =~= m.skip(i));
    }
}

/// The model of a list of keys.
pub open spec fn keys_view(s: Seq<String>) -> Seq<Seq<char>> {
    Seq::new(
        s.len(),
        |i: int|
            if 0 <= i < s.len() {
                s[i]@
            } else {
                Seq::<char>::empty()
            },
    )
}

/// Skipping keys below `k` does not change where `k` lands.
pub proof fn lemma_set_insert_skip(m: Seq<Seq<char>>, k: Seq<char>, i: int)
    requires
        0 <= i <= m.len(),
        forall|j: int| 0 <= j < i ==> lex_lt(#[trigger] m[j], k),
    ensures
        spec_set_insert(m, k) =~= m.take(i) + spec_set_insert(m.skip(i), k),
    decreases i,
{
    if i == 0 {
        assert(m.skip(0) =~= m);
        assert(m.take(0) + spec_set_insert(m, k) =~= spec_set_insert(m, k));
    } else {
        lemma_lex_trichotomy(k, m[0]);
        lemma_set_insert_skip(m.drop_first(), k, i - 1);
        assert(m.drop_first().skip(i - 1) =~= m.skip(i));
        assert(m.drop_first().take(i - 1) =~= m.take(i).drop_first());
        assert(spec_set_insert(m, k) =~= seq![m[0]] + spec_set_insert(m.drop_first(), k));
        assert(seq![m[0]] + (m.drop_first().take(i - 1) + spec_set_insert(m.skip(i), k)) =~= m.take(
            i,
        ) + spec_set_insert(m.skip(i), k));
    }
}

/// Whether `a` and `b` hold the same characters.
pub fn str_eq(a: &str, b: &str) -> (r: bool)
    ensures
        r == (a@ == b@),
{
    let alen = a.unicode_len();
    let blen = b.unicode_len();
    if alen != blen {
        return false;
    }
    let mut i: usize = 0;
    while i < alen
        invariant
            i <= alen,
            alen == a@.len(),
            alen == b@.len(),
            forall|k: int| 0 <= k < i ==> a@[k] == b@[k],
        decreases alen - i,
    {
        let ca = a.get_char(i);
        let cb = b.get_char(i);
        if ca != cb {
            return false;
        }
        i += 1;
    }
    proof {
        assert(a@ =~= b@);
    }
    true
}

/// Deep copy of a JSON value.
#[verifier::loop_isolation(false)]
pub fn json_clone(j: &Json) -> (r: Json)
    ensures
        json_view(r) == json_view(*j),
    decreases j,
{
    match j {
        Json::Null => Json::Null,
        Json::Bool(b) => Json::Bool(*b),
        Json::Num(s) => Json::Num(s.clone()),
        Json::Str(s) => Json::Str(s.clone()),
        Json::Arr(v) => {
            let mut out: Vec<Json> = Vec::new();
            let mut i: usize = 0;
            while i < v.len()
                invariant
                    i <= v.len(),
                    out@.len() == i,
                    forall|k: int| 0 <= k < i ==> json_view(#[trigger] out@[k]) == json_view(v@[k]),
                decreases v.len() - i,
            {
                let c = json_clone(&v[i]);
                out.push(c);
                i += 1;
            }
            proof {
                assert(arr_view(out@) =~= arr_view(v@));
            }
            Json::Arr(out)
        },
        Json::Obj(v) => {
            let mut out: Vec<(String, Json)> = Vec::new();
            let mut i: usize = 0;
            while i < v.len()
                invariant
                    i <= v.len(),
                    out@.len() == i,
                    forall|k: int|
                        0 <= k < i ==> (#[trigger] out@[k]).0@ == v@[k].0@ && json_view(out@[k].1)
                            == json_view(v@[k].1),
                decreases v.len() - i,
            {
                let entry = &v[i];
                let ck = entry.0.clone();
                let cv = json_clone(&entry.1);
                out.push((ck, cv));
                i += 1;
            }
            proof {
                assert(obj_view(out@) =~= obj_view(v@));
            }
            Json::Obj(out)
        },
    }
}

/// Structural equality of JSON values.
#[verifier::loop_isolation(false)]
pub fn json_eq(a: &Json, b: &Json) -> (r: bool)
    ensures
        r == (json_view(*a) == json_view(*b)),
    decreases a,
{
    match (a, b) {
        (Json::Null, Json::Null) => true,
        (Json::Bool(x), Json::Bool(y)) => x == y,
        (Json::Num(x), Json::Num(y)) => str_eq(x.as_str(), y.as_str()),
        (Json::Str(x), Json::Str(y)) => str_eq(x.as_str(), y.as_str()),
        (Json::Arr(x), Json::Arr(y)) => {
            if x.len() != y.len() {
                proof {
                    assert(arr_view(x@).len() == x@.len());
                    assert(arr_view(y@).len() == y@.len());
                }
                return false;
            }
            let mut i: usize = 0;
            while i < x.len()
                invariant
                    i <= x.len(),
                    x@.len() == y@.len(),
                    forall|k: int| 0 <= k < i ==> json_view(#[trigger] x@[k]) == json_view(y@[k]),
                decreases x.len() - i,
            {
                if !json_eq(&x[i], &y[i]) {
                    proof {
                        assert(arr_view(x@)[i as int] == json_view(x@[i as int]));
                        assert(arr_view(y@)[i as int] == json_view(y@[i as int]));
                    }
                    return false;
                }
                i += 1;
            }
            proof {
                assert(arr_view(x@) =~= arr_view(y@));
            }
            true
        },
        (Json::Obj(x), Json::Obj(y)) => {
            if x.len() != y.len() {
                proof {
                    assert(obj_view(x@).len() == x@.len());
                    assert(obj_view(y@).len() == y@.len());
                }
                return false;
            }
            let mut i: usize = 0;
            while i < x.len()
                invariant
                    i <= x.len(),
                    x@.len() == y@.len(),
                    forall|k: int|
                        0 <= k < i ==> (#[trigger] x@[k]).0@ == y@[k].0@ && json_view(x@[k].1)
                            == json_view(y@[k].1),
                decreases x.len() - i,
            {
                let p = &x[i];
                let q = &y[i];
                if !str_eq(p.0.as_str(), q.0.as_str()) {
                    proof {
                        assert(obj_view(x@)[i as int] == (x@[i as int].0@, json_view(
                            x@[i as int].1,
                        )));
                        assert(obj_view(y@)[i as int] == (y@[i as int].0@, json_view(
                            y@[i as int].1,
                        )));
                    }
                    return false;
                }
                if !json_eq(&p.1, &q.1) {
                    proof {
                        assert(obj_view(x@)[i as int] == (x@[i as int].0@, json_view(
                            x@[i as int].1,
                        )));
                        assert(obj_view(y@)[i as int] == (y@[i as int].0@, json_view(
                            y@[i as int].1,
                        )));
                    }
                    return false;
                }
                i += 1;
            }
            proof {
                assert(obj_view(x@) =~= obj_view(y@));
            }
            true
        },
        _ => false,
    }
}

/// Structural equality of two lists of object entries.
#[verifier::loop_isolation(false)]
pub fn json_entries_eq(x: &Vec<(String, Json)>, y: &Vec<(String, Json)>) -> (r: bool)
    ensures
        r == (obj_view(x@) == obj_view(y@)),
{
    if x.len() != y.len() {
        proof {
            assert(obj_view(x@).len() == x@.len());
            assert(obj_view(y@).len() == y@.len());
        }
        return false;
    }
    let mut i: usize = 0;
    while i < x.len()
        invariant
            i <= x.len(),
            x@.len() == y@.len(),
            forall|k: int|
                0 <= k < i ==> (#[trigger] x@[k]).0@ == y@[k].0@ && json_view(x@[k].1) == json_view(
                    y@[k].1,
                ),
        decreases x.len() - i,
    {
        let p = &x[i];
        let q = &y[i];
        if !str_eq(p.0.as_str(), q.0.as_str()) || !json_eq(&p.1, &q.1) {
            proof {
                assert(obj_view(x@)[i as int] == (x@[i as int].0@, json_view(x@[i as int].1)));
                assert(obj_view(y@)[i as int] == (y@[i as int].0@, json_view(y@[i as int].1)));
            }
            return false;
        }
        i += 1;
    }
    proof {
        assert(obj_view(x@) =~= obj_view(y@));
    }
    true
}

/// Structural equality of two lists of JSON values.
#[verifier::loop_isolation(false)]
pub fn json_list_eq(x: &Vec<Json>, y: &Vec<Json>) -> (r: bool)
    ensures
        r == (arr_view(x@) == arr_view(y@)),
{
    if x.len() != y.len() {
        proof {
            assert(arr_view(x@).len() == x@.len());
            assert(arr_view(y@).len() == y@.len());
        }
        return false;
    }
    let mut i: usize = 0;
    while i < x.len()
        invariant
            i <= x.len(),
            x@.len() == y@.len(),
            forall|k: int| 0 <= k < i ==> json_view(#[trigger] x@[k]) == json_view(y@[k]),
        decreases x.len() - i,
    {
        if !json_eq(&x[i], &y[i]) {
            proof {
                assert(arr_view(x@)[i as int] == json_view(x@[i as int]));
                assert(arr_view(y@)[i as int] == json_view(y@[i as int]));
            }
            return false;
        }
        i += 1;
    }
    proof {
        assert(arr_view(x@) =~= arr_view(y@));
    }
    true
}

/// Deep copy of a list of object entries.
#[verifier::loop_isolation(false)]
pub fn json_entries_clone(v: &Vec<(String, Json)>) -> (r: Vec<(String, Json)>)
    ensures
        obj_view(r@) == obj_view(v@),
{
    let mut out: Vec<(String, Json)> = Vec::new();
    let mut i: usize = 0;
    while i < v.len()
        invariant
            i <= v.len(),
            out@.len() == i,
            forall|k: int|
                0 <= k < i ==> (#[trigger] out@[k]).0@ == v@[k].0@ && json_view(out@[k].1)
                    == json_view(v@[k].1),
        decreases v.len() - i,
    {
        let entry = &v[i];
        let ck = entry.0.clone();
        let cv = json_clone(&entry.1);
        out.push((ck, cv));
        i += 1;
    }
    proof {
        assert(obj_view(out@) =~= obj_view(v@));
    }
    out
}

/// Deep copy of a list of JSON values.
#[verifier::loop_isolation(false)]
pub fn json_list_clone(v: &Vec<Json>) -> (r: Vec<Json>)
    ensures
        arr_view(r@) == arr_view(v@),
{
    let mut out: Vec<Json> = Vec::new();
    let mut i: usize = 0;
    while i < v.len()
        invariant
            i <= v.len(),
            out@.len() == i,
            forall|k: int| 0 <= k < i ==> json_view(#[trigger] out@[k]) == json_view(v@[k]),
        decreases v.len() - i,
    {
        let c = json_clone(&v[i]);
        out.push(c);
        i += 1;
    }
    proof {
        assert(arr_view(out@) =~= arr_view(v@));
    }
    out
}

/// `arr_view` distributes over concatenation.
pub proof fn lemma_arr_view_concat(a: Seq<Json>, b: Seq<Json>)
    ensures
        arr_view(a + b) =~= arr_view(a) + arr_view(b),
{
    assert forall|i: int| 0 <= i < a.len() + b.len() implies arr_view(a + b)[i] == (arr_view(a)
        + arr_view(b))[i] by {
        if i < a.len() {
            assert((a + b)[i] == a[i]);
        } else {
            assert((a + b)[i] == b[i - a.len()]);
        }
    }
}

/// Look up a key in a list of object entries; the first match wins.
pub fn json_map_get<'a>(m: &'a Vec<(String, Json)>, k: &str) -> (r: Option<&'a Json>)
    ensures
        match r {
            Some(v) => spec_map_get(obj_view(m@), k@) == Some(json_view(*v)),
            None => spec_map_get(obj_view(m@), k@) is None,
        },
        r matches Some(v) ==> exists|j: int| 0 <= j < m@.len() && *v == #[trigger] m@[j].1,
{
    let mut i: usize = 0;
    while i < m.len()
        invariant
            i <= m.len(),
            forall|j: int| 0 <= j < i ==> (#[trigger] obj_view(m@)[j]).0 != k@,
        decreases m.len() - i,
    {
        let entry = &m[i];
        if str_eq(entry.0.as_str(), k) {
            proof {
                lemma_map_get_skip(obj_view(m@), k@, i as int);
                assert(obj_view(m@).skip(i as int)[0] == obj_view(m@)[i as int]);
                assert(entry.1 == m@[i as int].1);
            }
            return Some(&entry.1);
        }
        i += 1;
    }
    proof {
        lemma_map_get_skip(obj_view(m@), k@, m@.len() as int);
        assert(obj_view(m@).skip(m@.len() as int) =~= Seq::<(Seq<char>, JsonV)>::empty());
    }
    None
}

/// Insert an entry in key order; an entry with an equal key is replaced.
pub fn json_map_insert(m: &mut Vec<(String, Json)>, k: String, v: Json)
    ensures
        obj_view(final(m)@) == spec_map_insert(obj_view(old(m)@), k@, json_view(v)),
{
    let ghost m0 = obj_view(m@);
    let ghost kv = (k@, json_view(v));
    let mut i: usize = 0;
    while i < m.len() && str_lt(m[i].0.as_str(), k.as_str())
        invariant
            i <= m.len(),
            m@ == old(m)@,
            forall|j: int| 0 <= j < i ==> lex_lt((#[trigger] obj_view(m@)[j]).0, k@),
        decreases m.len() - i,
    {
        i += 1;
    }
    proof {
        lemma_map_insert_skip(m0, k@, json_view(v), i as int);
    }
    if i < m.len() && str_eq(m[i].0.as_str(), k.as_str()) {
        proof {
            assert(m0.skip(i as int)[0] == m0[i as int]);
            lemma_lex_trichotomy(k@, m0[i as int].0);
        }
        m.remove(i);
        m.insert(i, (k, v));
        proof {
            assert(m0.skip(i as int).drop_first() =~= m0.skip(i as int + 1));
            assert(obj_view(m@) =~= m0.take(i as int) + (seq![kv] + m0.skip(i as int + 1)));
            assert(m0.take(i as int) + (seq![kv] + m0.skip(i as int + 1)) =~= m0.take(i as int)
                + spec_map_insert(m0.skip(i as int), k@, json_view(v)));
        }
    } else {
        proof {
            if i < m.len() {
                assert(m0.skip(i as int)[0] == m0[i as int]);
                lemma_lex_trichotomy(k@, m0[i as int].0);
            } else {
                assert(m0.skip(i as int) =~= Seq::<(Seq<char>, JsonV)>::empty());
            }
        }
        m.insert(i, (k, v));
        proof {
            assert(obj_view(m@) =~= m0.take(i as int) + (seq![kv] + m0.skip(i as int)));
            assert(m0.take(i as int) + (seq![kv] + m0.skip(i as int)) =~= m0.take(i as int)
                + spec_map_insert(m0.skip(i as int), k@, json_view(v)));
        }
    }
}

/// Insert a key in order into a sorted key list; an equal key is kept once.
pub fn string_set_insert(m: &mut Vec<String>, k: String)
    ensures
        keys_view(final(m)@) == spec_set_insert(keys_view(old(m)@), k@),
{
    let ghost m0 = keys_view(m@);
    let mut i: usize = 0;
    while i < m.len() && str_lt(m[i].as_str(), k.as_str())
        invariant
            i <= m.len(),
            m@ == old(m)@,
            forall|j: int| 0 <= j < i ==> lex_lt(#[trigger] keys_view(m@)[j], k@),
        decreases m.len() - i,
    {
        i += 1;
    }
    proof {
        lemma_set_insert_skip(m0, k@, i as int);
    }
    if i < m.len() && str_eq(m[i].as_str(), k.as_str()) {
        proof {
            assert(m0.skip(i as int)[0] == m0[i as int]);
            lemma_lex_trichotomy(k@, m0[i as int]);
            assert(spec_set_insert(m0.skip(i as int), k@) =~= m0.skip(i as int));
            assert(keys_view(m@) =~= m0.take(i as int) + m0.skip(i as int));
        }
    } else {
        proof {
            if i < m.len() {
                assert(m0.skip(i as int)[0] == m0[i as int]);
                lemma_lex_trichotomy(k@, m0[i as int]);
            } else {
                assert(m0.skip(i as int) =~= Seq::<Seq<char>>::empty());
            }
        }
        m.insert(i, k);
        proof {
            assert(keys_view(m@) =~= m0.take(i as int) + (seq![k@] + m0.skip(i as int)));
            assert(m0.take(i as int) + (seq![k@] + m0.skip(i as int)) =~= m0.take(i as int)
                + spec_set_insert(m0.skip(i as int), k@));
        }
    }
}

} // verus!
