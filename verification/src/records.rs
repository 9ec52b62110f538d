//! The shape every domain record shares: a value with a mathematical view,
//! encoded to and decoded from the JSON tree, with the decode ignoring
//! unknown fields and taking fields in any order.

use vstd::prelude::*;
use crate::json::{
    as_arr, find_field, views_of_items, lemma_views_of_items_index, lemma_views_of_items_len,
    lemma_views_of_items_push, get_field, wf, Json, JsonV,
};

verus! {

/// The views of a list's elements, in order.
pub open spec fn views_of_list<T: View>(s: Seq<T>) -> Seq<T::V>
    decreases s,
{
    if s.len() == 0 {
        Seq::empty()
    } else {
        seq![s[0]@] + views_of_list(s.drop_first())
    }
}

pub proof fn lemma_views_of_list_len<T: View>(s: Seq<T>)
    ensures
        views_of_list(s).len() == s.len(),
    decreases s,
{
    if s.len() > 0 {
        assert(views_of_list(s) == seq![s[0]@] + views_of_list(s.drop_first()));
        lemma_views_of_list_len(s.drop_first());
    } else {
        assert(views_of_list(s) == Seq::<T::V>::empty());
    }
}

pub proof fn lemma_views_of_list_push<T: View>(s: Seq<T>, x: T)
    ensures
        views_of_list(s.push(x)) =~= views_of_list(s) + seq![x@],
    decreases s,
{
    if s.len() == 0 {
        assert(s.push(x).drop_first() =~= Seq::<T>::empty());
        assert(views_of_list(s.push(x)) == seq![x@] + views_of_list(s.push(x).drop_first()));
        assert(views_of_list(s) == Seq::<T::V>::empty());
        assert(views_of_list(s.push(x).drop_first()) == Seq::<T::V>::empty());
    } else {
        assert(s.push(x)[0] == s[0]);
        assert(views_of_list(s.push(x)) == seq![s[0]@] + views_of_list(s.push(x).drop_first()));
        assert(views_of_list(s) == seq![s[0]@] + views_of_list(s.drop_first()));
        assert(s.push(x).drop_first() =~= s.drop_first().push(x));
        lemma_views_of_list_push(s.drop_first(), x);
    }
}

/// The view of an optional value.
pub open spec fn opt_view<T: View>(o: Option<T>) -> Option<T::V> {
    match o {
        Some(x) => Some(x@),
        None => None,
    }
}

/// `Some` text as a JSON string, absence as `null`.
pub open spec fn opt_str_jsonv(o: Option<Seq<char>>) -> JsonV {
    match o {
        Some(s) => JsonV::Str(s),
        None => JsonV::Null,
    }
}

/// `Some` number as a JSON integer, absence as `null`.
pub open spec fn opt_int_jsonv(o: Option<int>) -> JsonV {
    match o {
        Some(n) => JsonV::Int(n),
        None => JsonV::Null,
    }
}

pub open spec fn opt_u32_view(o: Option<u32>) -> Option<int> {
    match o {
        Some(n) => Some(n as int),
        None => None,
    }
}

/// A domain record: its view encodes to one JSON value, and decodes back
/// from any JSON value of the right shape.
pub trait JsonRecord: View + Sized {
    /// The JSON tree standing for this view.
    spec fn to_jsonv_spec(vv: Self::V) -> JsonV;

    /// The view read from a JSON tree, `None` on a shape mismatch.
    spec fn of_jsonv_spec(j: JsonV) -> Option<Self::V>;

    /// Encodes the record.
    fn to_json(&self) -> (r: Json)
        ensures
            r@ == Self::to_jsonv_spec(self@),
    ;

    /// Decodes a record.
    fn from_json(j: &Json) -> (r: Option<Self>)
        ensures
            match r {
                Some(x) => Self::of_jsonv_spec(j@) == Some(x@),
                None => Self::of_jsonv_spec(j@) is None,
            },
    ;
}

/// A JSON string stands for a `String` on its own.
impl JsonRecord for String {
    open spec fn to_jsonv_spec(vv: Seq<char>) -> JsonV {
        JsonV::Str(vv)
    }

    open spec fn of_jsonv_spec(j: JsonV) -> Option<Seq<char>> {
        match j {
            JsonV::Str(s) => Some(s),
            _ => None,
        }
    }

    fn to_json(&self) -> (r: Json)
        ensures
            r@ == Self::to_jsonv_spec(self@),
    {
        Json::Str(self.clone())
    }

    fn from_json(j: &Json) -> (r: Option<String>)
        ensures
            match r {
                Some(x) => Self::of_jsonv_spec(j@) == Some(x@),
                None => Self::of_jsonv_spec(j@) is None,
            },
    {
        match j {
            Json::Str(s) => Some(s.clone()),
            _ => None,
        }
    }
}

/// The JSON items standing for a list of record views, in order.
pub open spec fn items_jsonv_spec<T: JsonRecord>(s: Seq<T::V>) -> Seq<JsonV>
    decreases s,
{
    if s.len() == 0 {
        Seq::empty()
    } else {
        seq![T::to_jsonv_spec(s[0])] + items_jsonv_spec::<T>(s.drop_first())
    }
}

proof fn lemma_items_jsonv_push<T: JsonRecord>(s: Seq<T::V>, x: T::V)
    ensures
        items_jsonv_spec::<T>(s.push(x)) =~= items_jsonv_spec::<T>(s) + seq![T::to_jsonv_spec(x)],
    decreases s,
{
    if s.len() == 0 {
        assert(s.push(x).drop_first() =~= Seq::<T::V>::empty());
        assert(items_jsonv_spec::<T>(s.push(x)) == seq![T::to_jsonv_spec(x)] + items_jsonv_spec::<
            T,
        >(s.push(x).drop_first()));
        assert(items_jsonv_spec::<T>(s) == Seq::<JsonV>::empty());
        assert(items_jsonv_spec::<T>(s.push(x).drop_first()) == Seq::<JsonV>::empty());
    } else {
        assert(s.push(x)[0] == s[0]);
        assert(items_jsonv_spec::<T>(s.push(x)) == seq![T::to_jsonv_spec(s[0])]
            + items_jsonv_spec::<T>(s.push(x).drop_first()));
        assert(items_jsonv_spec::<T>(s) == seq![T::to_jsonv_spec(s[0])] + items_jsonv_spec::<T>(
            s.drop_first(),
        ));
        assert(s.push(x).drop_first() =~= s.drop_first().push(x));
        lemma_items_jsonv_push::<T>(s.drop_first(), x);
    }
}

/// The record views read from a sequence of JSON items; `None` when any
/// item has the wrong shape.
pub open spec fn items_of_jsonv_spec<T: JsonRecord>(items: Seq<JsonV>) -> Option<Seq<T::V>>
    decreases items,
{
    if items.len() == 0 {
        Some(Seq::empty())
    } else {
        match T::of_jsonv_spec(items[0]) {
            Some(v) => match items_of_jsonv_spec::<T>(items.drop_first()) {
                Some(rest) => Some(seq![v] + rest),
                None => None,
            },
            None => None,
        }
    }
}

pub open spec fn opt_seq_prepend<A>(p: Seq<A>, o: Option<Seq<A>>) -> Option<Seq<A>> {
    match o {
        Some(r) => Some(p + r),
        None => None,
    }
}

/// Encodes a list of records to JSON items, in order.
pub fn list_to_json<T: JsonRecord>(v: &Vec<T>) -> (r: Vec<Json>)
    ensures
        views_of_items(r@) == items_jsonv_spec::<T>(views_of_list(v@)),
{
    let mut out: Vec<Json> = Vec::new();
    let mut i: usize = 0;
    let n = v.len();
    proof {
        assert(views_of_list(v@.subrange(0, 0)) =~= Seq::<T::V>::empty());
        assert(views_of_items(out@) == Seq::<JsonV>::empty());
        assert(items_jsonv_spec::<T>(Seq::<T::V>::empty()) == Seq::<JsonV>::empty());
    }
    while i < n
        invariant
            i <= n,
            n == v@.len(),
            views_of_items(out@) =~= items_jsonv_spec::<T>(views_of_list(v@.subrange(0, i as int))),
        decreases n - i,
    {
        let j = v[i].to_json();
        proof {
            lemma_views_of_items_push(out@, j);
            lemma_views_of_list_push(v@.subrange(0, i as int), v@[i as int]);
            assert(v@.subrange(0, i as int).push(v@[i as int]) =~= v@.subrange(0, i + 1));
            lemma_items_jsonv_push::<T>(views_of_list(v@.subrange(0, i as int)), v@[i as int]@);
            assert(views_of_list(v@.subrange(0, i as int)) + seq![v@[i as int]@]
                =~= views_of_list(v@.subrange(0, i as int)).push(v@[i as int]@));
            assert(views_of_list(v@.subrange(0, i + 1)) == views_of_list(
                v@.subrange(0, i as int),
            ).push(v@[i as int]@));
        }
        out.push(j);
        i = i + 1;
    }
    proof {
        assert(v@.subrange(0, n as int) =~= v@);
    }
    out
}

/// Decodes a list of records from JSON items; `None` when any item fails.
pub fn list_from_json<T: JsonRecord>(v: &Vec<Json>) -> (r: Option<Vec<T>>)
    ensures
        match r {
            Some(out) => items_of_jsonv_spec::<T>(views_of_items(v@)) == Some(views_of_list(out@)),
            None => items_of_jsonv_spec::<T>(views_of_items(v@)) is None,
        },
{
    let ghost whole = views_of_items(v@);
    let n = v.len();
    proof {
        lemma_views_of_items_len(v@);
        assert(whole.subrange(0, n as int) =~= whole);
        assert(views_of_list(Seq::<T>::empty()) == Seq::<T::V>::empty());
    }
    let mut out: Vec<T> = Vec::new();
    let mut i: usize = 0;
    while i < n
        invariant
            i <= n,
            n == v@.len(),
            whole == views_of_items(v@),
            whole.len() == n,
            items_of_jsonv_spec::<T>(whole) == opt_seq_prepend(
                views_of_list(out@),
                items_of_jsonv_spec::<T>(whole.subrange(i as int, n as int)),
            ),
        decreases n - i,
    {
        proof {
            lemma_views_of_items_index(v@, i as int);
            assert(whole.subrange(i as int, n as int)[0] == whole[i as int]);
            assert(whole.subrange(i as int, n as int).drop_first() =~= whole.subrange(
                i + 1,
                n as int,
            ));
        }
        match T::from_json(&v[i]) {
            None => {
                return None;
            },
            Some(x) => {
                proof {
                    lemma_views_of_list_push(out@, x);
                    if let Some(rest) = items_of_jsonv_spec::<T>(
                        whole.subrange(i + 1, n as int),
                    ) {
                        assert(views_of_list(out@) + (seq![x@] + rest) =~= views_of_list(
                            out@.push(x),
                        ) + rest);
                    }
                }
                out.push(x);
            },
        }
        i = i + 1;
    }
    proof {
        assert(whole.subrange(n as int, n as int).len() == 0);
        assert(items_of_jsonv_spec::<T>(whole.subrange(n as int, n as int)) == Some(
            Seq::<T::V>::empty(),
        ));
        assert(views_of_list(out@) + Seq::<T::V>::empty() =~= views_of_list(out@));
    }
    Some(out)
}

/// `Some` record as its JSON tree, absence as `null`.
pub open spec fn opt_rec_jsonv<T: JsonRecord>(o: Option<T::V>) -> JsonV {
    match o {
        Some(v) => T::to_jsonv_spec(v),
        None => JsonV::Null,
    }
}

pub fn opt_str_to_json(o: &Option<String>) -> (r: Json)
    ensures
        r@ == opt_str_jsonv(opt_view(*o)),
{
    match o {
        Some(s) => Json::Str(s.clone()),
        None => Json::Null,
    }
}

pub fn opt_u32_to_json(o: &Option<u32>) -> (r: Json)
    ensures
        r@ == opt_int_jsonv(opt_u32_view(*o)),
{
    match o {
        Some(n) => Json::Int(*n as i64),
        None => Json::Null,
    }
}

pub fn opt_rec_to_json<T: JsonRecord>(o: &Option<T>) -> (r: Json)
    ensures
        r@ == opt_rec_jsonv::<T>(opt_view(*o)),
{
    match o {
        Some(x) => x.to_json(),
        None => Json::Null,
    }
}

/// A required record field.
pub open spec fn rec_of_field<T: JsonRecord>(
    f: Seq<(Seq<char>, JsonV)>,
    key: Seq<char>,
) -> Option<T::V> {
    match find_field(f, key) {
        Some(j) => T::of_jsonv_spec(j),
        None => None,
    }
}

/// An optional record field: absent or `null` is an accepted absence.
pub open spec fn opt_rec_of_field<T: JsonRecord>(
    f: Seq<(Seq<char>, JsonV)>,
    key: Seq<char>,
) -> Option<Option<T::V>> {
    match find_field(f, key) {
        None => Some(None),
        Some(JsonV::Null) => Some(None),
        Some(j) => match T::of_jsonv_spec(j) {
            Some(v) => Some(Some(v)),
            None => None,
        },
    }
}

/// A required list field.
pub open spec fn list_of_field<T: JsonRecord>(
    f: Seq<(Seq<char>, JsonV)>,
    key: Seq<char>,
) -> Option<Seq<T::V>> {
    match as_arr(find_field(f, key)) {
        Some(items) => items_of_jsonv_spec::<T>(items),
        None => None,
    }
}

pub fn get_rec<T: JsonRecord>(fields: &Vec<(String, Json)>, key: &str) -> (r: Option<T>)
    ensures
        match r {
            Some(x) => rec_of_field::<T>(crate::json::views_of_fields(fields@), key@) == Some(x@),
            None => rec_of_field::<T>(crate::json::views_of_fields(fields@), key@) is None,
        },
{
    match get_field(fields, key) {
        Some(j) => T::from_json(j),
        None => None,
    }
}

pub fn get_opt_rec<T: JsonRecord>(fields: &Vec<(String, Json)>, key: &str) -> (r: Option<
    Option<T>,
>)
    ensures
        match r {
            Some(Some(x)) => opt_rec_of_field::<T>(crate::json::views_of_fields(fields@), key@)
                == Some(Some(x@)),
            Some(None) => opt_rec_of_field::<T>(crate::json::views_of_fields(fields@), key@)
                == Some(None::<T::V>),
            None => opt_rec_of_field::<T>(crate::json::views_of_fields(fields@), key@) is None,
        },
{
    match get_field(fields, key) {
        None => Some(None),
        Some(Json::Null) => Some(None),
        Some(j) => match T::from_json(j) {
            Some(x) => Some(Some(x)),
            None => None,
        },
    }
}

pub fn get_list<T: JsonRecord>(fields: &Vec<(String, Json)>, key: &str) -> (r: Option<Vec<T>>)
    ensures
        match r {
            Some(out) => list_of_field::<T>(crate::json::views_of_fields(fields@), key@) == Some(
                views_of_list(out@),
            ),
            None => list_of_field::<T>(crate::json::views_of_fields(fields@), key@) is None,
        },
{
    match get_field(fields, key) {
        Some(Json::Arr(v)) => list_from_json::<T>(v),
        _ => None,
    }
}

proof fn lemma_items_jsonv_index<T: JsonRecord>(s: Seq<T::V>, i: int)
    requires
        0 <= i < s.len(),
    ensures
        items_jsonv_spec::<T>(s).len() == s.len(),
        items_jsonv_spec::<T>(s)[i] == T::to_jsonv_spec(s[i]),
    decreases s,
{
    assert(items_jsonv_spec::<T>(s) == seq![T::to_jsonv_spec(s[0])] + items_jsonv_spec::<T>(
        s.drop_first(),
    ));
    if i > 0 {
        lemma_items_jsonv_index::<T>(s.drop_first(), i - 1);
    } else if s.len() > 1 {
        lemma_items_jsonv_index::<T>(s.drop_first(), 0);
    } else {
        assert(items_jsonv_spec::<T>(s.drop_first()) == Seq::<JsonV>::empty());
    }
}

/// A list of well-formed element encodings is a well-formed array.
pub proof fn lemma_items_jsonv_wf<T: JsonRecord>(s: Seq<T::V>)
    requires
        forall|i: int| 0 <= i < s.len() ==> wf(T::to_jsonv_spec(#[trigger] s[i])),
    ensures
        wf(JsonV::Arr(items_jsonv_spec::<T>(s))),
    decreases s,
{
    let items = items_jsonv_spec::<T>(s);
    if s.len() == 0 {
        assert(items == Seq::<JsonV>::empty());
    } else {
        lemma_items_jsonv_index::<T>(s, 0);
        assert forall|i: int| 0 <= i < items.len() implies wf(#[trigger] items[i]) by {
            lemma_items_jsonv_index::<T>(s, i);
            assert(wf(T::to_jsonv_spec(s[i])));
        }
    }
}

/// The round trip for lists, from the element round trip: a list whose every
/// element decodes back to itself decodes back whole.
pub proof fn lemma_items_roundtrip<T: JsonRecord>(s: Seq<T::V>)
    requires
        forall|i: int| 0 <= i < s.len() ==> T::of_jsonv_spec(
            T::to_jsonv_spec(#[trigger] s[i]),
        ) == Some(s[i]),
    ensures
        items_of_jsonv_spec::<T>(items_jsonv_spec::<T>(s)) == Some(s),
    decreases s,
{
    if s.len() == 0 {
        assert(items_jsonv_spec::<T>(s) == Seq::<JsonV>::empty());
        assert(items_of_jsonv_spec::<T>(Seq::<JsonV>::empty()) == Some(Seq::<T::V>::empty()));
        assert(s =~= Seq::<T::V>::empty());
    } else {
        let enc = items_jsonv_spec::<T>(s);
        assert(enc == seq![T::to_jsonv_spec(s[0])] + items_jsonv_spec::<T>(s.drop_first()));
        assert(enc[0] == T::to_jsonv_spec(s[0]));
        assert(enc.drop_first() =~= items_jsonv_spec::<T>(s.drop_first()));
        lemma_items_roundtrip::<T>(s.drop_first());
        assert(T::of_jsonv_spec(enc[0]) == Some(s[0]));
        assert(seq![s[0]] + s.drop_first() =~= s);
    }
}

} // verus!
