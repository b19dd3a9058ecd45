use vstd::prelude::*;
use crate::text::{all_digits, copy, digits_value, is_ascii_digit, parse_digits, str_eq, to_chars};

verus! {

/// A JSON document as the library holds it.
pub enum JsonValue {
    Null,
    Bool(bool),
    /// A number, kept as its decimal text.
    Number(String),
    Str(String),
    Array(Vec<JsonValue>),
    /// An object, as its members in order.
    Object(Vec<(String, JsonValue)>),
}

/// The mathematical model of a JSON document.
#[verifier::ext_equal]
pub enum Json {
    Null,
    Bool(bool),
    Number(Seq<char>),
    Str(Seq<char>),
    Array(Seq<Json>),
    Object(Seq<(Seq<char>, Json)>),
}

pub open spec fn json_model(j: JsonValue) -> Json
    decreases j,
{
    match j {
        JsonValue::Null => Json::Null,
        JsonValue::Bool(b) => Json::Bool(b),
        JsonValue::Number(n) => Json::Number(n@),
        JsonValue::Str(s) => Json::Str(s@),
        JsonValue::Array(v) => Json::Array(
            Seq::new(v@.len(), |i: int| if 0 <= i < v@.len() { json_model(v@[i]) } else { Json::Null }),
        ),
        JsonValue::Object(ps) => Json::Object(
            Seq::new(
                ps@.len(),
                |i: int| if 0 <= i < ps@.len() { (ps@[i].0@, json_model(ps@[i].1)) } else { (Seq::empty(), Json::Null) },
            ),
        ),
    }
}

impl View for JsonValue {
    type V = Json;

    open spec fn view(&self) -> Json {
        json_model(*self)
    }
}

} // verus!

verus! {

/// Position of the first member named `key` at or after `i`, or -1.
pub open spec fn key_pos(ps: Seq<(Seq<char>, Json)>, key: Seq<char>, i: int) -> int
    decreases ps.len() - i,
{
    if i < 0 || i >= ps.len() {
        -1
    } else if ps[i].0 == key {
        i
    } else {
        key_pos(ps, key, i + 1)
    }
}

pub proof fn lemma_key_pos(ps: Seq<(Seq<char>, Json)>, key: Seq<char>, i: int)
    requires
        0 <= i,
    ensures
        key_pos(ps, key, i) == -1 || (i <= key_pos(ps, key, i) < ps.len() && ps[key_pos(
            ps,
            key,
            i,
        )].0 == key),
    decreases ps.len() - i,
{
    if i < ps.len() && ps[i].0 != key {
        lemma_key_pos(ps, key, i + 1);
    }
}

/// The models of a run of documents.
pub open spec fn views(v: Seq<JsonValue>) -> Seq<Json> {
    Seq::new(v.len(), |i: int| v[i]@)
}

pub open spec fn opt_str_view(o: Option<&str>) -> Option<Seq<char>> {
    match o {
        Some(s) => Some(s@),
        None => None,
    }
}

/// The member `key` of an object (the first one of that name); `None` for other values.
pub open spec fn field(j: Json, key: Seq<char>) -> Option<Json> {
    match j {
        Json::Object(ps) => {
            let i = key_pos(ps, key, 0);
            if 0 <= i < ps.len() {
                Some(ps[i].1)
            } else {
                None
            }
        },
        _ => None,
    }
}

/// `j` looked up by `key`, with a missing member read as `null` (as `value[key]` reads it).
pub open spec fn at(j: Json, key: Seq<char>) -> Json {
    match field(j, key) {
        Some(v) => v,
        None => Json::Null,
    }
}

pub open spec fn json_str(j: Json) -> Option<Seq<char>> {
    match j {
        Json::Str(s) => Some(s),
        _ => None,
    }
}

pub open spec fn json_bool(j: Json) -> Option<bool> {
    match j {
        Json::Bool(b) => Some(b),
        _ => None,
    }
}

pub open spec fn json_array(j: Json) -> Option<Seq<Json>> {
    match j {
        Json::Array(s) => Some(s),
        _ => None,
    }
}

/// The value of a number that is a non-negative integer fitting in a `u64`.
pub open spec fn json_u64(j: Json) -> Option<nat> {
    match j {
        Json::Number(t) => if t.len() > 0 && all_digits(t) && digits_value(t) <= u64::MAX {
            Some(digits_value(t))
        } else {
            None
        },
        _ => None,
    }
}

pub open spec fn str_or(o: Option<Seq<char>>, d: Seq<char>) -> Seq<char> {
    match o {
        Some(s) => s,
        None => d,
    }
}

pub open spec fn bool_or(o: Option<bool>, d: bool) -> bool {
    match o {
        Some(b) => b,
        None => d,
    }
}

/// The string member `key`, if there is one.
pub open spec fn str_at(j: Json, key: Seq<char>) -> Option<Seq<char>> {
    json_str(at(j, key))
}

impl JsonValue {
    pub fn get<'a>(&'a self, key: &str) -> (r: Option<&'a JsonValue>)
        ensures
            match r {
                Some(v) => field(self@, key@) == Some(v@),
                None => field(self@, key@) is None,
            },
    {
        match self {
            JsonValue::Object(ps) => {
                let ghost vps = match self@ {
                    Json::Object(s) => s,
                    _ => Seq::empty(),
                };
                assert(vps.len() == ps@.len());
                let mut i: usize = 0;
                while i < ps.len()
                    invariant
                        0 <= i <= ps.len(),
                        vps.len() == ps@.len(),
                        forall|k: int| 0 <= k < ps@.len() ==> #[trigger] vps[k] == (ps@[k].0@, json_model(ps@[k].1)),
                        self@ == Json::Object(vps),
                        key_pos(vps, key@, 0) == key_pos(vps, key@, i as int),
                    decreases ps.len() - i,
                {
                    assert(vps[i as int] == (ps@[i as int].0@, json_model(ps@[i as int].1)));
                    if str_eq(ps[i].0.as_str(), key) {
                        return Some(&ps[i].1);
                    }
                    i += 1;
                }
                None
            },
            _ => None,
        }
    }

    /// The string member `key`.
    pub fn str_member(&self, key: &str) -> (r: Option<&str>)
        ensures
            opt_str_view(r) == str_at(self@, key@),
    {
        match self.get(key) {
            Some(v) => v.as_str(),
            None => None,
        }
    }

    /// The boolean member `key`.
    pub fn bool_member(&self, key: &str) -> (r: Option<bool>)
        ensures
            r == json_bool(at(self@, key@)),
    {
        match self.get(key) {
            Some(v) => v.as_bool(),
            None => None,
        }
    }

    /// The array member `key`.
    pub fn array_member(&self, key: &str) -> (r: Option<&Vec<JsonValue>>)
        ensures
            match r {
                Some(v) => json_array(at(self@, key@)) == Some(views(v@)),
                None => json_array(at(self@, key@)) is None,
            },
    {
        match self.get(key) {
            Some(v) => v.as_array(),
            None => None,
        }
    }

    pub fn as_str(&self) -> (r: Option<&str>)
        ensures
            match r {
                Some(s) => json_str(self@) == Some(s@),
                None => json_str(self@) is None,
            },
    {
        match self {
            JsonValue::Str(s) => Some(s.as_str()),
            _ => None,
        }
    }

    pub fn as_bool(&self) -> (r: Option<bool>)
        ensures
            r == json_bool(self@),
    {
        match self {
            JsonValue::Bool(b) => Some(*b),
            _ => None,
        }
    }

    pub fn as_array(&self) -> (r: Option<&Vec<JsonValue>>)
        ensures
            match r {
                Some(v) => json_array(self@) == Some(views(v@)),
                None => json_array(self@) is None,
            },
    {
        match self {
            JsonValue::Array(v) => {
                assert(json_array(self@).unwrap() =~= views(v@));
                Some(v)
            },
            _ => None,
        }
    }

    pub fn is_null(&self) -> (r: bool)
        ensures
            r == (self@ == Json::Null),
    {
        match self {
            JsonValue::Null => true,
            _ => false,
        }
    }

    #[verifier::loop_isolation(false)]
    pub fn as_u64(&self) -> (r: Option<u64>)
        ensures
            match r {
                Some(n) => json_u64(self@) == Some(n as nat),
                None => json_u64(self@) is None,
            },
    {
        match self {
            JsonValue::Number(t) => {
                let v = to_chars(t.as_str());
                if v.len() == 0 {
                    return None;
                }
                let mut i: usize = 0;
                while i < v.len()
                    invariant
                        0 <= i <= v.len(),
                        forall|k: int| 0 <= k < i ==> is_ascii_digit(#[trigger] v@[k]),
                    decreases v.len() - i,
                {
                    if !('0' <= v[i] && v[i] <= '9') {
                        assert(!is_ascii_digit(v@[i as int]));
                        assert(self@ == Json::Number(t@));
                        assert(!all_digits(t@));
                        return None;
                    }
                    i += 1;
                }
                assert(v@.subrange(0, v@.len() as int) =~= v@);
                parse_digits(&v, 0, v.len())
            },
            _ => None,
        }
    }

    /// A copy of this document.
    #[verifier::loop_isolation(false)]
    pub fn deep_clone(&self) -> (r: JsonValue)
        ensures
            r@ == self@,
        decreases self,
    {
        match self {
            JsonValue::Null => {
                let r = JsonValue::Null;
                assert(r@ == self@);
                r
            },
            JsonValue::Bool(b) => {
                let r = JsonValue::Bool(*b);
                assert(r@ == self@);
                r
            },
            JsonValue::Number(n) => {
                let c = n.clone();
                assert(c@ == n@);
                let r = JsonValue::Number(c);
                assert(r@ == self@);
                r
            },
            JsonValue::Str(s) => {
                let c = s.clone();
                assert(c@ == s@);
                let r = JsonValue::Str(c);
                assert(r@ == self@);
                r
            },
            JsonValue::Array(v) => {
                let mut out: Vec<JsonValue> = Vec::new();
                let mut i: usize = 0;
                while i < v.len()
                    invariant
                        0 <= i <= v.len(),
                        out@.len() == i,
                        forall|k: int| 0 <= k < i ==> (#[trigger] out@[k])@ == v@[k]@,
                    decreases v.len() - i,
                {
                    out.push(v[i].deep_clone());
                    i += 1;
                }
                let r = JsonValue::Array(out);
                assert(json_array(r@).unwrap() =~= json_array(self@).unwrap());
                assert(r@ == self@);
                r
            },
            JsonValue::Object(ps) => {
                let mut out: Vec<(String, JsonValue)> = Vec::new();
                let mut i: usize = 0;
                while i < ps.len()
                    invariant
                        0 <= i <= ps.len(),
                        out@.len() == i,
                        forall|k: int|
                            0 <= k < i ==> (#[trigger] out@[k]).0@ == ps@[k].0@ && out@[k].1@
                                == ps@[k].1@,
                    decreases ps.len() - i,
                {
                    out.push((ps[i].0.clone(), ps[i].1.deep_clone()));
                    i += 1;
                }
                let r = JsonValue::Object(out);
                assert(match r@ { Json::Object(x) => x, _ => Seq::empty() } =~= match self@ { Json::Object(x) => x, _ => Seq::empty() });
                assert(r@ == self@);
                r
            },
        }
    }
}

} // verus!

verus! {

pub open spec fn pair_views(ps: Seq<(String, JsonValue)>) -> Seq<(Seq<char>, Json)> {
    Seq::new(ps.len(), |i: int| (ps[i].0@, ps[i].1@))
}

/// An empty list of members.
pub fn members() -> (r: Vec<(String, JsonValue)>)
    ensures
        r@.len() == 0,
        pair_views(r@) == Seq::<(Seq<char>, Json)>::empty(),
{
    let r: Vec<(String, JsonValue)> = Vec::new();
    assert(pair_views(r@) =~= Seq::<(Seq<char>, Json)>::empty());
    r
}

/// The object with the members `ps`.
pub fn object(ps: Vec<(String, JsonValue)>) -> (r: JsonValue)
    ensures
        r@ == Json::Object(pair_views(ps@)),
{
    let r = JsonValue::Object(ps);
    assert(match r@ {
        Json::Object(x) => x,
        _ => Seq::empty(),
    } =~= pair_views(ps@));
    r
}

/// The array with the elements `v`.
pub fn array(v: Vec<JsonValue>) -> (r: JsonValue)
    ensures
        r@ == Json::Array(views(v@)),
{
    let r = JsonValue::Array(v);
    assert(json_array(r@).unwrap() =~= views(v@));
    r
}

/// The empty array.
pub fn empty_array() -> (r: JsonValue)
    ensures
        r@ == Json::Array(Seq::empty()),
{
    let v: Vec<JsonValue> = Vec::new();
    assert(views(v@) =~= Seq::<Json>::empty());
    array(v)
}

/// Adds the member `key` with value `v`.
pub fn put(ps: &mut Vec<(String, JsonValue)>, key: &str, v: JsonValue)
    ensures
        pair_views(final(ps)@) == pair_views(old(ps)@).push((key@, v@)),
{
    ps.push((copy(key), v));
    assert(pair_views(ps@) =~= pair_views(old(ps)@).push((key@, v@)));
}

/// The string `s`.
pub fn string(s: &str) -> (r: JsonValue)
    ensures
        r@ == Json::Str(s@),
{
    JsonValue::Str(copy(s))
}

} // verus!
