//! The properties and block lists of an object being written, built up from definitions,
//! user values and a markdown body.
use vstd::prelude::*;
use crate::defs::{md_blocks, name_index, normalize_property, normalized, resolve_prop_key, resolved, val_obj, val_wrap};
use crate::json::{empty_array, members, object, pair_views, string, views, Json, JsonValue};
use crate::keyed::{assign, jset, kset, list_map_view, set_list, settable};
use crate::markdown::markdown_to_blocks;
use crate::text::{str_eq, string_views};
use crate::types::RawPropertyDefinition;

verus! {

/// What a draft holds: the properties object and the block list of each blocks property.
#[verifier::ext_equal]
pub struct Sketch {
    pub props: Json,
    pub blocks: Seq<(Seq<char>, Seq<Json>)>,
}

/// The properties and block lists of an object being written.
pub struct Draft {
    pub props: JsonValue,
    pub blocks: Vec<(String, Vec<JsonValue>)>,
}

impl View for Draft {
    type V = Sketch;

    open spec fn view(&self) -> Sketch {
        Sketch { props: self.props@, blocks: list_map_view(self.blocks@) }
    }
}

/// The draft after the first `n` definitions gave their properties an empty value (those in
/// `reserved` keep theirs): a blocks property names its own block list, which starts empty;
/// labels and entities start as empty lists, the rest as empty objects.
pub open spec fn seeded(s: Sketch, defs: Seq<RawPropertyDefinition>, reserved: Seq<Seq<char>>, n: int) -> Sketch
    decreases n,
{
    if n <= 0 {
        s
    } else {
        let p = seeded(s, defs, reserved, n - 1);
        let d = defs[n - 1];
        let id = d.id@;
        let dt = d.data_type@;
        if reserved.contains(id) {
            p
        } else if dt == "blocks"@ {
            Sketch { props: jset(p.props, id, val_obj(Json::Str(id))), blocks: kset(p.blocks, id, Seq::empty()) }
        } else if dt == "label"@ || dt == "entity"@ {
            Sketch { props: jset(p.props, id, val_obj(Json::Array(Seq::empty()))), blocks: p.blocks }
        } else {
            Sketch { props: jset(p.props, id, Json::Object(Seq::empty())), blocks: p.blocks }
        }
    }
}

/// `s1` is `s0` with the user's value `val` for `key` written in: through the definition the
/// key names where there is one, else as it is under the key itself.
pub open spec fn apply_step(s0: Sketch, s1: Sketch, defs: Seq<RawPropertyDefinition>, key: Seq<char>, val: Json) -> bool {
    let (pid, d) = resolved(key, defs);
    match d {
        Some(i) => exists|out: Json|
            normalized(defs[i], pid, val, out, s0.blocks, s1.blocks) && s1.props == #[trigger] jset(s0.props, pid, out),
        None => s1.props == jset(s0.props, pid, val) && s1.blocks == s0.blocks,
    }
}

/// `states` runs from `from` to `to`, one step for each user value in turn.
pub open spec fn applies(
    states: Seq<Sketch>,
    from: Sketch,
    to: Sketch,
    defs: Seq<RawPropertyDefinition>,
    user: Seq<(Seq<char>, Json)>,
) -> bool {
    &&& states.len() == user.len() + 1
    &&& states[0] == from
    &&& states[user.len() as int] == to
    &&& forall|i: int| 0 <= i < user.len() ==> #[trigger] apply_step(states[i], states[i + 1], defs, user[i].0, user[i].1)
}

/// `to` is `from` with every user value written in, in turn.
pub open spec fn applied(from: Sketch, to: Sketch, defs: Seq<RawPropertyDefinition>, user: Seq<(Seq<char>, Json)>) -> bool {
    exists|states: Seq<Sketch>| #[trigger] applies(states, from, to, defs, user)
}

/// `to` is `from` with the block list `key` set to the blocks of `md`.
pub open spec fn with_body(from: Sketch, to: Sketch, key: Seq<char>, md: Seq<char>) -> bool {
    to.props == from.props && exists|bl: Seq<Json>| md_blocks(md, bl) && to.blocks == #[trigger] kset(from.blocks, key, bl)
}

/// The user's key names a blocks property.
pub open spec fn keys_blocks(defs: Seq<RawPropertyDefinition>, key: Seq<char>) -> bool {
    match resolved(key, defs).1 {
        Some(i) => defs[i].data_type@ == "blocks"@,
        None => false,
    }
}

/// One of the first `n` user keys names a blocks property.
pub open spec fn blocks_keyed(defs: Seq<RawPropertyDefinition>, user: Seq<(Seq<char>, Json)>, n: int) -> bool
    decreases n,
{
    n > 0 && (blocks_keyed(defs, user, n - 1) || keys_blocks(defs, user[n - 1].0))
}

/// Whether `s` is one of `v`.
pub fn holds_str(v: &Vec<String>, s: &str) -> (r: bool)
    ensures
        r == string_views(v@).contains(s@),
{
    let mut i: usize = 0;
    while i < v.len()
        invariant
            0 <= i <= v.len(),
            forall|k: int| 0 <= k < i ==> v@[k]@ != s@,
        decreases v.len() - i,
    {
        if str_eq(v[i].as_str(), s) {
            assert(string_views(v@)[i as int] == s@);
            return true;
        }
        i += 1;
    }
    proof {
        if string_views(v@).contains(s@) {
            let k = choose|k: int| 0 <= k < string_views(v@).len() && string_views(v@)[k] == s@;
            assert(v@[k]@ == s@);
        }
    }
    false
}

impl Draft {
    /// A draft with the properties `props` and no block lists.
    pub fn new(props: JsonValue) -> (r: Draft)
        ensures
            r@ == (Sketch { props: props@, blocks: Seq::empty() }),
    {
        let blocks: Vec<(String, Vec<JsonValue>)> = Vec::new();
        let r = Draft { props, blocks };
        assert(r@.blocks =~= Seq::<(Seq<char>, Seq<Json>)>::empty());
        r
    }

    /// Gives each defined property, but those in `reserved`, its empty value.
    pub fn seed(&mut self, defs: &Vec<RawPropertyDefinition>, reserved: &Vec<String>)
        requires
            settable(old(self).props@),
        ensures
            final(self)@ == seeded(old(self)@, defs@, string_views(reserved@), defs@.len() as int),
            settable(final(self).props@),
    {
        let ghost start = self@;
        let mut i: usize = 0;
        while i < defs.len()
            invariant
                0 <= i <= defs.len(),
                self@ == seeded(start, defs@, string_views(reserved@), i as int),
                settable(self.props@),
            decreases defs.len() - i,
        {
            let d = &defs[i];
            let id = d.id.as_str();
            let dt = d.data_type.as_str();
            if holds_str(reserved, id) {
            } else if str_eq(dt, "blocks") {
                assign(&mut self.props, id, val_wrap(string(id)));
                let empty: Vec<JsonValue> = Vec::new();
                assert(views(empty@) =~= Seq::<Json>::empty());
                set_list(&mut self.blocks, id, empty);
            } else if str_eq(dt, "label") || str_eq(dt, "entity") {
                assign(&mut self.props, id, val_wrap(empty_array()));
            } else {
                let ps = members();
                let o = object(ps);
                assert(o@ == Json::Object(Seq::empty()));
                assign(&mut self.props, id, o);
            }
            i += 1;
        }
    }

    /// Writes in each user value, in turn, in the form its property's definition asks for.
    pub fn apply_props(&mut self, defs: &Vec<RawPropertyDefinition>, user: &Vec<(String, JsonValue)>)
        requires
            settable(old(self).props@),
        ensures
            applied(old(self)@, final(self)@, defs@, pair_views(user@)),
            settable(final(self).props@),
            !blocks_keyed(defs@, pair_views(user@), user@.len() as int) ==> final(self)@.blocks == old(self)@.blocks,
    {
        let names = name_index(defs);
        let ghost uv = pair_views(user@);
        let ghost mut states: Seq<Sketch> = seq![self@];
        let mut i: usize = 0;
        while i < user.len()
            invariant
                0 <= i <= user.len(),
                uv == pair_views(user@),
                states.len() == i + 1,
                states[0] == old(self)@,
                states[i as int] == self@,
                forall|k: int| 0 <= k < i ==> #[trigger] apply_step(states[k], states[k + 1], defs@, uv[k].0, uv[k].1),
                settable(self.props@),
                !blocks_keyed(defs@, uv, i as int) ==> self@.blocks == old(self)@.blocks,
                forall|k: Seq<char>| #[trigger] crate::keyed::kget(crate::keyed::index_view(names@), k) == crate::defs::last_named(defs@, k, defs@.len() as int),
                forall|j: int| 0 <= j < names@.len() ==> (#[trigger] names@[j]).1 < defs@.len(),
            decreases user.len() - i,
        {
            let ghost s0 = self@;
            let key = user[i].0.as_str();
            let val = &user[i].1;
            let (pid, pdef) = resolve_prop_key(key, defs, &names);
            assert(resolved(key@, defs@) == (pid@, crate::defs::opt_index(pdef)));
            match pdef {
                Some(j) => {
                    let mut n = normalize_property(&defs[j], pid.as_str(), val, &mut self.blocks);
                    let (k, v) = n.remove(0);
                    let ghost out = v@;
                    assign(&mut self.props, k.as_str(), v);
                    assert(self@.props == jset(s0.props, pid@, out));
                },
                None => {
                    assign(&mut self.props, pid.as_str(), val.deep_clone());
                },
            }
            assert(apply_step(s0, self@, defs@, uv[i as int].0, uv[i as int].1));
            proof {
                states = states.push(self@);
            }
            i += 1;
        }
        assert(applies(states, old(self)@, self@, defs@, uv));
    }

    /// Sets the block list `key` to the blocks of markdown `md`.
    pub fn set_body(&mut self, key: &str, md: &str)
        ensures
            with_body(old(self)@, final(self)@, key@, md@),
            final(self).props == old(self).props,
    {
        let bl = markdown_to_blocks(md);
        let ghost bv = views(bl@);
        assert(md_blocks(md@, bv));
        set_list(&mut self.blocks, key, bl);
        assert(self@.blocks == kset(old(self)@.blocks, key@, bv));
    }
}

} // verus!
