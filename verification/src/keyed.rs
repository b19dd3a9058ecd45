//! Lists keyed by text, written the way a JSON object is written: setting a key that is
//! there replaces its value in place, setting a new one adds it at the end.
use vstd::prelude::*;
use crate::json::{at, field, key_pos, pair_views, views, Json, JsonValue};
use crate::text::{copy, str_eq};

verus! {

/// Position of the first entry with key `k` at or after `i`, or -1.
pub open spec fn kpos<X>(s: Seq<(Seq<char>, X)>, k: Seq<char>, i: int) -> int
    decreases s.len() - i,
{
    if i < 0 || i >= s.len() {
        -1
    } else if s[i].0 == k {
        i
    } else {
        kpos(s, k, i + 1)
    }
}

/// The value of the first entry with key `k`.
pub open spec fn kget<X>(s: Seq<(Seq<char>, X)>, k: Seq<char>) -> Option<X> {
    let p = kpos(s, k, 0);
    if 0 <= p < s.len() {
        Some(s[p].1)
    } else {
        None
    }
}

/// `s` with `k` set to `v`: the first entry with key `k` takes the value, or a new entry is
/// added at the end.
pub open spec fn kset<X>(s: Seq<(Seq<char>, X)>, k: Seq<char>, v: X) -> Seq<(Seq<char>, X)> {
    let p = kpos(s, k, 0);
    if 0 <= p < s.len() {
        s.update(p, (k, v))
    } else {
        s.push((k, v))
    }
}

pub proof fn lemma_kpos<X>(s: Seq<(Seq<char>, X)>, k: Seq<char>, i: int)
    requires
        0 <= i,
    ensures
        kpos(s, k, i) == -1 || (i <= kpos(s, k, i) < s.len() && s[kpos(s, k, i)].0 == k),
        kpos(s, k, i) == -1 ==> forall|j: int| i <= j < s.len() ==> s[j].0 != k,
        forall|j: int| i <= j < kpos(s, k, i) ==> s[j].0 != k,
    decreases s.len() - i,
{
    if i < s.len() && s[i].0 != k {
        lemma_kpos(s, k, i + 1);
    }
}

/// The first position of `k` is the first index holding it.
pub proof fn lemma_kpos_first<X>(s: Seq<(Seq<char>, X)>, k: Seq<char>, p: int)
    requires
        0 <= p < s.len(),
        s[p].0 == k,
        forall|j: int| 0 <= j < p ==> s[j].0 != k,
    ensures
        kpos(s, k, 0) == p,
{
    lemma_kpos(s, k, 0);
    let q = kpos(s, k, 0);
    if q == -1 {
        assert(s[p].0 != k);
    } else if q < p {
        assert(s[q].0 != k);
    }
}

/// No entry holds `k`.
pub proof fn lemma_kpos_absent<X>(s: Seq<(Seq<char>, X)>, k: Seq<char>)
    requires
        forall|j: int| 0 <= j < s.len() ==> s[j].0 != k,
    ensures
        kpos(s, k, 0) == -1,
{
    lemma_kpos(s, k, 0);
    let q = kpos(s, k, 0);
    if q != -1 {
        assert(s[q].0 == k);
    }
}

/// Reading after setting: the key set reads the new value, every other key what it read.
pub proof fn lemma_kset<X>(s: Seq<(Seq<char>, X)>, k: Seq<char>, v: X, k2: Seq<char>)
    ensures
        kget(kset(s, k, v), k2) == if k2 == k {
            Some(v)
        } else {
            kget(s, k2)
        },
        kset(s, k, v).len() == if kget(s, k) is Some {
            s.len()
        } else {
            s.len() + 1
        },
{
    let t = kset(s, k, v);
    let p = kpos(s, k, 0);
    lemma_kpos(s, k, 0);
    lemma_kpos(s, k2, 0);
    let q = kpos(s, k2, 0);
    if 0 <= p < s.len() {
        assert(t =~= s.update(p, (k, v)));
        if k2 == k {
            lemma_kpos_first(t, k2, p);
        } else if q == -1 {
            assert forall|j: int| 0 <= j < t.len() implies t[j].0 != k2 by {
                if j != p {
                    assert(t[j] == s[j]);
                }
            }
            lemma_kpos_absent(t, k2);
        } else {
            assert forall|j: int| 0 <= j < q implies t[j].0 != k2 by {
                if j != p {
                    assert(t[j] == s[j]);
                }
            }
            assert(q != p);
            lemma_kpos_first(t, k2, q);
        }
    } else {
        assert(t =~= s.push((k, v)));
        if k2 == k {
            lemma_kpos_first(t, k2, s.len() as int);
        } else if q == -1 {
            assert forall|j: int| 0 <= j < t.len() implies t[j].0 != k2 by {
                if j < s.len() {
                    assert(t[j] == s[j]);
                }
            }
            lemma_kpos_absent(t, k2);
        } else {
            assert forall|j: int| 0 <= j < q implies t[j].0 != k2 by {
                assert(t[j] == s[j]);
            }
            lemma_kpos_first(t, k2, q);
        }
    }
}

/// The JSON lookup finds the same member as the keyed lookup.
pub proof fn lemma_key_pos_kpos(ps: Seq<(Seq<char>, Json)>, k: Seq<char>, i: int)
    ensures
        key_pos(ps, k, i) == kpos(ps, k, i),
    decreases ps.len() - i,
{
    if 0 <= i < ps.len() && ps[i].0 != k {
        lemma_key_pos_kpos(ps, k, i + 1);
    }
}

/// The members of an object; none for `null`.
pub open spec fn obj_members(j: Json) -> Seq<(Seq<char>, Json)> {
    match j {
        Json::Object(ps) => ps,
        _ => Seq::empty(),
    }
}

/// `j[k] = v` on an object, or on `null`, which becomes an object first.
pub open spec fn jset(j: Json, k: Seq<char>, v: Json) -> Json {
    Json::Object(kset(obj_members(j), k, v))
}

/// An object or `null`: what a member can be set on.
pub open spec fn settable(j: Json) -> bool {
    j is Object || j is Null
}

pub open spec fn list_map_view(m: Seq<(String, Vec<JsonValue>)>) -> Seq<(Seq<char>, Seq<Json>)> {
    Seq::new(m.len(), |i: int| (m[i].0@, views(m[i].1@)))
}

pub open spec fn index_view(m: Seq<(String, usize)>) -> Seq<(Seq<char>, int)> {
    Seq::new(m.len(), |i: int| (m[i].0@, m[i].1 as int))
}

/// Sets the member `k` of a member list.
pub fn set_member(ps: &mut Vec<(String, JsonValue)>, k: &str, v: JsonValue)
    ensures
        pair_views(final(ps)@) == kset(pair_views(old(ps)@), k@, v@),
{
    let ghost s = pair_views(ps@);
    let mut i: usize = 0;
    while i < ps.len()
        invariant
            0 <= i <= ps.len(),
            ps@ == old(ps)@,
            s == pair_views(ps@),
            kpos(s, k@, 0) == kpos(s, k@, i as int),
        decreases ps.len() - i,
    {
        if str_eq(ps[i].0.as_str(), k) {
            let key = copy(k);
            ps.set(i, (key, v));
            assert(pair_views(ps@) =~= s.update(i as int, (k@, v@)));
            return;
        }
        i += 1;
    }
    ps.push((copy(k), v));
    assert(pair_views(ps@) =~= s.push((k@, v@)));
}

/// Sets the entry `k` of a map from keys to lists of documents.
pub fn set_list(m: &mut Vec<(String, Vec<JsonValue>)>, k: &str, bl: Vec<JsonValue>)
    ensures
        list_map_view(final(m)@) == kset(list_map_view(old(m)@), k@, views(bl@)),
{
    let ghost s = list_map_view(m@);
    let ghost bv = views(bl@);
    let mut i: usize = 0;
    while i < m.len()
        invariant
            0 <= i <= m.len(),
            m@ == old(m)@,
            s == list_map_view(m@),
            bv == views(bl@),
            kpos(s, k@, 0) == kpos(s, k@, i as int),
        decreases m.len() - i,
    {
        if str_eq(m[i].0.as_str(), k) {
            let key = copy(k);
            m.set(i, (key, bl));
            assert(list_map_view(m@) =~= s.update(i as int, (k@, bv)));
            return;
        }
        i += 1;
    }
    m.push((copy(k), bl));
    assert(list_map_view(m@) =~= s.push((k@, bv)));
}

/// Sets the entry `k` of a map from keys to positions.
pub fn set_index(m: &mut Vec<(String, usize)>, k: &str, v: usize)
    ensures
        index_view(final(m)@) == kset(index_view(old(m)@), k@, v as int),
{
    let ghost s = index_view(m@);
    let mut i: usize = 0;
    while i < m.len()
        invariant
            0 <= i <= m.len(),
            m@ == old(m)@,
            s == index_view(m@),
            kpos(s, k@, 0) == kpos(s, k@, i as int),
        decreases m.len() - i,
    {
        if str_eq(m[i].0.as_str(), k) {
            let key = copy(k);
            m.set(i, (key, v));
            assert(index_view(m@) =~= s.update(i as int, (k@, v as int)));
            return;
        }
        i += 1;
    }
    m.push((copy(k), v));
    assert(index_view(m@) =~= s.push((k@, v as int)));
}

/// The position stored for `k`, if any.
pub fn get_index(m: &Vec<(String, usize)>, k: &str) -> (r: Option<usize>)
    ensures
        match r {
            Some(v) => kget(index_view(m@), k@) == Some(v as int),
            None => kget(index_view(m@), k@) is None,
        },
{
    let ghost s = index_view(m@);
    let mut i: usize = 0;
    while i < m.len()
        invariant
            0 <= i <= m.len(),
            s == index_view(m@),
            kpos(s, k@, 0) == kpos(s, k@, i as int),
        decreases m.len() - i,
    {
        if str_eq(m[i].0.as_str(), k) {
            return Some(m[i].1);
        }
        i += 1;
    }
    None
}

/// `j[k] = v`: sets the member `k` of an object; `null` becomes an object first.
pub fn assign(j: &mut JsonValue, k: &str, v: JsonValue)
    requires
        settable(old(j)@),
    ensures
        final(j)@ == jset(old(j)@, k@, v@),
{
    let mut tmp = JsonValue::Null;
    std::mem::swap(&mut tmp, j);
    match tmp {
        JsonValue::Object(mut ps) => {
            assert(pair_views(ps@) =~= obj_members(old(j)@));
            set_member(&mut ps, k, v);
            let r = JsonValue::Object(ps);
            assert(obj_members(r@) =~= pair_views(ps@));
            *j = r;
        },
        _ => {
            let mut ps: Vec<(String, JsonValue)> = Vec::new();
            assert(pair_views(ps@) =~= obj_members(old(j)@));
            set_member(&mut ps, k, v);
            let r = JsonValue::Object(ps);
            assert(obj_members(r@) =~= pair_views(ps@));
            *j = r;
        },
    }
}

/// Reading a member after setting one.
pub proof fn lemma_at_jset(j: Json, k: Seq<char>, v: Json, k2: Seq<char>)
    ensures
        at(jset(j, k, v), k2) == if k2 == k {
            v
        } else {
            at(j, k2)
        },
        field(jset(j, k, v), k2) == if k2 == k {
            Some(v)
        } else {
            field(j, k2)
        },
{
    let ps = obj_members(j);
    lemma_kset(ps, k, v, k2);
    lemma_key_pos_kpos(kset(ps, k, v), k2, 0);
    lemma_key_pos_kpos(ps, k2, 0);
}

/// Reading a member of an object through the keyed lookup.
pub proof fn lemma_field_kget(j: Json, k: Seq<char>)
    ensures
        field(j, k) == match j {
            Json::Object(ps) => kget(ps, k),
            _ => None,
        },
{
    lemma_key_pos_kpos(obj_members(j), k, 0);
}

} // verus!
