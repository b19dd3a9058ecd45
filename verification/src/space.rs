//! Reading a space: its content is fetched in batches of identifiers, and each batch is
//! searched for what a command needs.
use vstd::prelude::*;
use chrono::Datelike;
use crate::json::{at, field, json_str, Json, JsonValue};
use crate::sync::member_or_null;
use crate::text::{copy, lowercase, str_eq, string_views, to_lowercase};
use crate::types::{Component, LabelOption, RawPropertyDefinition, SpaceContentElement, StructureInfo, StructureProperty};

verus! {

/// How many identifiers go in one request for content.
pub const BATCH: usize = 50;

pub open spec fn element_ids(elements: Seq<SpaceContentElement>) -> Seq<Seq<char>> {
    Seq::new(elements.len(), |i: int| elements[i].id@)
}

/// `ids` cut into runs of 50, the last one shorter.
pub open spec fn batched(ids: Seq<Seq<char>>, batches: Seq<Seq<Seq<char>>>) -> bool {
    &&& batches.len() == (ids.len() + 49) / 50
    &&& forall|k: int|
        0 <= k < batches.len() ==> #[trigger] batches[k] == ids.subrange(
            50 * k,
            if 50 * k + 50 <= ids.len() {
                50 * k + 50
            } else {
                ids.len() as int
            },
        )
}

pub open spec fn batch_views(b: Seq<Vec<String>>) -> Seq<Seq<Seq<char>>> {
    Seq::new(b.len(), |i: int| string_views(b[i]@))
}

/// The identifiers of the space's content, in batches of 50.
pub fn element_batches(elements: &Vec<SpaceContentElement>) -> (r: Vec<Vec<String>>)
    ensures
        batched(element_ids(elements@), batch_views(r@)),
{
    let ghost ids = element_ids(elements@);
    let mut r: Vec<Vec<String>> = Vec::new();
    let mut start: usize = 0;
    while start < elements.len()
        invariant
            ids == element_ids(elements@),
            start <= elements.len(),
            start == 50 * r@.len() || start == elements.len(),
            start < elements.len() ==> start == 50 * r@.len(),
            r@.len() == (start + 49) / 50,
            forall|k: int|
                0 <= k < r@.len() ==> #[trigger] batch_views(r@)[k] == ids.subrange(
                    50 * k,
                    if 50 * k + 50 <= ids.len() {
                        50 * k + 50
                    } else {
                        ids.len() as int
                    },
                ),
        decreases elements.len() - start,
    {
        let end: usize = if elements.len() - start > BATCH {
            start + BATCH
        } else {
            elements.len()
        };
        let mut batch: Vec<String> = Vec::new();
        let mut i: usize = start;
        while i < end
            invariant
                start <= i <= end <= elements.len(),
                ids == element_ids(elements@),
                string_views(batch@) == ids.subrange(start as int, i as int),
            decreases end - i,
        {
            let ghost before = string_views(batch@);
            let id = elements[i].id.clone();
            assert(id@ == ids[i as int]);
            batch.push(id);
            assert(string_views(batch@) =~= before.push(ids[i as int]));
            assert(ids.subrange(start as int, i + 1) =~= ids.subrange(start as int, i as int).push(ids[i as int]));
            i += 1;
        }
        let ghost before = r@;
        r.push(batch);
        assert forall|k: int|
            0 <= k < r@.len() implies #[trigger] batch_views(r@)[k] == ids.subrange(
                50 * k,
                if 50 * k + 50 <= ids.len() {
                    50 * k + 50
                } else {
                    ids.len() as int
                },
            ) by {
            if k < before.len() {
                assert(batch_views(r@)[k] == batch_views(before)[k]);
            }
        }
        start = end;
    }
    r
}

/// Which component's database a new object goes to: the first of a type, or the first object
/// of a structure.
pub enum DatabaseOwner {
    OfType(String),
    OfStructure(String),
}

pub open spec fn owns(c: Component, owner: DatabaseOwner) -> bool {
    match owner {
        DatabaseOwner::OfType(t) => c.comp_type@ == t@,
        DatabaseOwner::OfStructure(s) => c.structure_id@ == s@ && c.comp_type@ == "RootEntity"@,
    }
}

/// The identifier of a component's first database.
pub open spec fn database_id(c: Component) -> Option<Seq<char>> {
    match c.databases {
        Some(v) => if v@.len() > 0 {
            json_str(at(v@[0]@, "id"@))
        } else {
            None
        },
        None => None,
    }
}

/// The first database among `comps` (from `i` on) that belongs to a component of `owner`.
pub open spec fn first_database(comps: Seq<Component>, owner: DatabaseOwner, i: int) -> Option<Seq<char>>
    decreases comps.len() - i,
{
    if i < 0 || i >= comps.len() {
        None
    } else if owns(comps[i], owner) && database_id(comps[i]) is Some {
        database_id(comps[i])
    } else {
        first_database(comps, owner, i + 1)
    }
}

fn owns_exec(c: &Component, owner: &DatabaseOwner) -> (r: bool)
    ensures
        r == owns(*c, *owner),
{
    match owner {
        DatabaseOwner::OfType(t) => str_eq(c.comp_type.as_str(), t.as_str()),
        DatabaseOwner::OfStructure(s) => str_eq(c.structure_id.as_str(), s.as_str()) && str_eq(c.comp_type.as_str(), "RootEntity"),
    }
}

fn database_id_exec(c: &Component) -> (r: Option<String>)
    ensures
        match r {
            Some(s) => database_id(*c) == Some(s@),
            None => database_id(*c) is None,
        },
{
    match &c.databases {
        Some(v) => if v.len() > 0 {
            match v[0].get("id") {
                Some(j) => match j.as_str() {
                    Some(s) => Some(copy(s)),
                    None => None,
                },
                None => None,
            }
        } else {
            None
        },
        None => None,
    }
}

/// The database in a batch of components that a new object of `owner` goes to.
pub fn find_database_in(components: &Vec<Component>, owner: &DatabaseOwner) -> (r: Option<String>)
    ensures
        match r {
            Some(s) => first_database(components@, *owner, 0) == Some(s@),
            None => first_database(components@, *owner, 0) is None,
        },
{
    let mut i: usize = 0;
    while i < components.len()
        invariant
            0 <= i <= components.len(),
            first_database(components@, *owner, 0) == first_database(components@, *owner, i as int),
        decreases components.len() - i,
    {
        if owns_exec(&components[i], owner) {
            match database_id_exec(&components[i]) {
                Some(s) => return Some(s),
                None => {},
            }
        }
        i += 1;
    }
    None
}

/// The calendar day of a `YYYY-MM-DD` text, as `chrono::NaiveDate::parse_from_str` with that
/// format reads it (year, month, day); nothing where it does not read.
pub uninterp spec fn calendar_day(s: Seq<char>) -> Option<(int, int, int)>;

/// The calendar day, in its own offset, of an RFC 3339 time, as
/// `chrono::DateTime::parse_from_rfc3339` and `date_naive` read it.
pub uninterp spec fn rfc3339_day(s: Seq<char>) -> Option<(int, int, int)>;

/// The calendar day of a time written `%Y-%m-%dT%H:%M:%S%.fZ`, as
/// `chrono::NaiveDateTime::parse_from_str` with that format reads it.
pub uninterp spec fn stamp_day(s: Seq<char>) -> Option<(int, int, int)>;

pub open spec fn day_view(d: Option<(i32, u32, u32)>) -> Option<(int, int, int)> {
    match d {
        Some((y, m, dd)) => Some((y as int, m as int, dd as int)),
        None => None,
    }
}

/// Reads a `YYYY-MM-DD` date (`chrono::NaiveDate::parse_from_str`); the day read is a function
/// of the text alone.
#[verifier::external_body]
pub(crate) fn parse_day(date: &str) -> (r: Option<(i32, u32, u32)>)
    ensures
        day_view(r) == calendar_day(date@),
{
    match chrono::NaiveDate::parse_from_str(date, "%Y-%m-%d") {
        Ok(d) => Some((d.year(), d.month(), d.day())),
        Err(_) => None,
    }
}

/// The day whose daily note a `YYYY-MM-DD` date asks for; `None` where the date does not read
/// as a calendar day, and the request is refused.
pub fn daily_note_day(date: &str) -> (r: Option<(i32, u32, u32)>)
    ensures
        day_view(r) == calendar_day(date@),
{
    parse_day(date)
}

/// Reads the day of an RFC 3339 time (`chrono::DateTime::parse_from_rfc3339`, then
/// `date_naive`); the day read is a function of the text alone.
#[verifier::external_body]
fn rfc3339_date(s: &str) -> (r: Option<(i32, u32, u32)>)
    ensures
        day_view(r) == rfc3339_day(s@),
{
    match chrono::DateTime::parse_from_rfc3339(s) {
        Ok(dt) => {
            let d = dt.date_naive();
            Some((d.year(), d.month(), d.day()))
        },
        Err(_) => None,
    }
}

/// Reads the day of a `%Y-%m-%dT%H:%M:%S%.fZ` time (`chrono::NaiveDateTime::parse_from_str`,
/// then `date`); the day read is a function of the text alone.
#[verifier::external_body]
fn stamp_date(s: &str) -> (r: Option<(i32, u32, u32)>)
    ensures
        day_view(r) == stamp_day(s@),
{
    match chrono::NaiveDateTime::parse_from_str(s, "%Y-%m-%dT%H:%M:%S%.fZ") {
        Ok(dt) => {
            let d = dt.date();
            Some((d.year(), d.month(), d.day()))
        },
        Err(_) => None,
    }
}

/// A daily note of the day `target`, given the days its creation time reads as: an RFC 3339
/// time, or a UTC stamp.
pub open spec fn note_matches(c: Component, rfc: Option<(int, int, int)>, stamp: Option<(int, int, int)>, target: (int, int, int)) -> bool {
    &&& c.comp_type@ == "RootDailyNote"@
    &&& c.created_at is Some
    &&& (rfc == Some(target) || stamp == Some(target))
}

/// Whether `c` is the daily note of `target`, given the days its creation time was read as.
pub fn daily_note_matches(
    c: &Component,
    rfc: Option<(i32, u32, u32)>,
    stamp: Option<(i32, u32, u32)>,
    target: (i32, u32, u32),
) -> (r: bool)
    ensures
        r == note_matches(*c, day_view(rfc), day_view(stamp), day_view(Some(target))->Some_0),
{
    let same = |d: Option<(i32, u32, u32)>| -> (b: bool)
        ensures
            b == (day_view(d) == day_view(Some(target))),
        {
            match d {
                Some((y, m, dd)) => y == target.0 && m == target.1 && dd == target.2,
                None => false,
            }
        };
    str_eq(c.comp_type.as_str(), "RootDailyNote") && c.created_at.is_some() && (same(rfc) || same(stamp))
}

/// `c` is the daily note of the day `target`.
pub open spec fn is_daily_note(c: Component, target: (int, int, int)) -> bool {
    match c.created_at {
        Some(s) => note_matches(c, rfc3339_day(s@), stamp_day(s@), target),
        None => false,
    }
}

/// The first daily note of `target` among `comps`, from `i` on.
pub open spec fn daily_note_pos(comps: Seq<Component>, target: (int, int, int), i: int) -> Option<int>
    decreases comps.len() - i,
{
    if i < 0 || i >= comps.len() {
        None
    } else if is_daily_note(comps[i], target) {
        Some(i)
    } else {
        daily_note_pos(comps, target, i + 1)
    }
}

/// The position of the daily note of the day `target` in a batch of components.
pub fn find_daily_note(components: &Vec<Component>, target: (i32, u32, u32)) -> (r: Option<usize>)
    ensures
        opt_pos(r) == daily_note_pos(components@, day_view(Some(target))->Some_0, 0),
{
    let ghost t = day_view(Some(target))->Some_0;
    let mut i: usize = 0;
    while i < components.len()
        invariant
            0 <= i <= components.len(),
            t == day_view(Some(target))->Some_0,
            daily_note_pos(components@, t, 0) == daily_note_pos(components@, t, i as int),
        decreases components.len() - i,
    {
        let c = &components[i];
        let hit = match &c.created_at {
            Some(s) => daily_note_matches(c, rfc3339_date(s.as_str()), stamp_date(s.as_str()), target),
            None => false,
        };
        if hit {
            return Some(i);
        }
        i += 1;
    }
    None
}

pub open spec fn opt_pos(o: Option<usize>) -> Option<int> {
    match o {
        Some(i) => Some(i as int),
        None => None,
    }
}

/// The text of the property `key` of an object (`properties[key].val`), or `default`.
pub open spec fn prop_text(props: Json, key: Seq<char>, default: Seq<char>) -> Seq<char> {
    match json_str(at(at(props, key), "val"@)) {
        Some(s) => s,
        None => default,
    }
}

pub fn prop_text_exec(props: &JsonValue, key: &str, default: &str) -> (r: String)
    ensures
        r@ == prop_text(props@, key@, default@),
{
    let p = member_or_null(props, key);
    match p.str_member("val") {
        Some(s) => copy(s),
        None => copy(default),
    }
}

pub open spec fn label_views(v: Seq<LabelOption>) -> Seq<(Seq<char>, Seq<char>, Seq<char>)> {
    Seq::new(v.len(), |i: int| (v[i].id@, v[i].text@, v[i].color@))
}

pub open spec fn opt_labels(o: Option<Vec<LabelOption>>) -> Option<Seq<(Seq<char>, Seq<char>, Seq<char>)>> {
    match o {
        Some(v) => Some(label_views(v@)),
        None => None,
    }
}

pub open spec fn opt_strings(o: Option<Vec<String>>) -> Option<Seq<Seq<char>>> {
    match o {
        Some(v) => Some(string_views(v@)),
        None => None,
    }
}

pub fn copy_labels(v: &Vec<LabelOption>) -> (r: Vec<LabelOption>)
    ensures
        label_views(r@) == label_views(v@),
{
    let mut out: Vec<LabelOption> = Vec::new();
    let mut i: usize = 0;
    while i < v.len()
        invariant
            0 <= i <= v.len(),
            out@.len() == i,
            forall|k: int| 0 <= k < i ==> #[trigger] label_views(out@)[k] == label_views(v@)[k],
        decreases v.len() - i,
    {
        let ghost before = out@;
        out.push(LabelOption { id: v[i].id.clone(), text: v[i].text.clone(), color: v[i].color.clone() });
        assert forall|k: int| 0 <= k < i + 1 implies #[trigger] label_views(out@)[k] == label_views(v@)[k] by {
            if k < i {
                assert(out@[k] == before[k]);
                assert(label_views(before)[k] == label_views(v@)[k]);
            }
        }
        i += 1;
    }
    assert(label_views(out@) =~= label_views(v@));
    out
}

pub fn copy_strings(v: &Vec<String>) -> (r: Vec<String>)
    ensures
        string_views(r@) == string_views(v@),
{
    let mut out: Vec<String> = Vec::new();
    let mut i: usize = 0;
    while i < v.len()
        invariant
            0 <= i <= v.len(),
            out@.len() == i,
            forall|k: int| 0 <= k < i ==> (#[trigger] out@[k])@ == v@[k]@,
        decreases v.len() - i,
    {
        out.push(v[i].clone());
        i += 1;
    }
    assert(string_views(out@) =~= string_views(v@));
    out
}

/// `p` describes the property defined by `d`: its name is the definition's, or its
/// identifier.
pub open spec fn property_info(p: StructureProperty, d: RawPropertyDefinition) -> bool {
    &&& p.id@ == d.id@
    &&& p.name@ == match d.name {
        Some(n) => n.val@,
        None => d.id@,
    }
    &&& p.data_type@ == d.data_type@
    &&& p.prop_type@ == d.prop_type@
    &&& p.is_array == d.is_array
    &&& opt_labels(p.options) == opt_labels(d.set)
    &&& opt_strings(p.allowed_structures) == opt_strings(d.allowed_structures)
}

pub open spec fn opt_doc_view(o: Option<JsonValue>) -> Option<Json> {
    match o {
        Some(j) => Some(j@),
        None => None,
    }
}

/// `s` describes the structure component `c`, whose property definitions are `defs`.
pub open spec fn structure_ok(s: StructureInfo, c: Component, defs: Seq<RawPropertyDefinition>) -> bool {
    &&& s.id@ == c.id@
    &&& s.title@ == prop_text(c.properties@, "title"@, ""@)
    &&& s.plural_name@ == prop_text(c.properties@, "pluralName"@, ""@)
    &&& opt_doc_view(s.icon) == field(c.properties@, "icon"@)
    &&& s.properties@.len() == defs.len()
    &&& forall|i: int| 0 <= i < defs.len() ==> property_info(#[trigger] s.properties@[i], defs[i])
}

fn property_of(d: &RawPropertyDefinition) -> (r: StructureProperty)
    ensures
        property_info(r, *d),
{
    let name = match &d.name {
        Some(n) => n.val.clone(),
        None => d.id.clone(),
    };
    let options = match &d.set {
        Some(v) => Some(copy_labels(v)),
        None => None,
    };
    let allowed = match &d.allowed_structures {
        Some(v) => Some(copy_strings(v)),
        None => None,
    };
    StructureProperty {
        id: d.id.clone(),
        name,
        data_type: d.data_type.clone(),
        prop_type: d.prop_type.clone(),
        is_array: d.is_array,
        options,
        allowed_structures: allowed,
    }
}

/// The description of the structure component `c`, whose property definitions are `defs`.
pub fn structure_info(c: &Component, defs: &Vec<RawPropertyDefinition>) -> (r: StructureInfo)
    ensures
        structure_ok(r, *c, defs@),
{
    let mut properties: Vec<StructureProperty> = Vec::new();
    let mut i: usize = 0;
    while i < defs.len()
        invariant
            0 <= i <= defs.len(),
            properties@.len() == i,
            forall|k: int| 0 <= k < i ==> property_info(#[trigger] properties@[k], defs@[k]),
        decreases defs.len() - i,
    {
        properties.push(property_of(&defs[i]));
        i += 1;
    }
    let icon = match c.properties.get("icon") {
        Some(j) => Some(j.deep_clone()),
        None => None,
    };
    StructureInfo {
        id: c.id.clone(),
        title: prop_text_exec(&c.properties, "title", ""),
        plural_name: prop_text_exec(&c.properties, "pluralName", ""),
        icon,
        properties,
    }
}

/// The positions of the structure components among the first `n` of `comps`.
pub open spec fn structure_positions(comps: Seq<Component>, n: int) -> Seq<int>
    decreases n,
{
    if n <= 0 {
        Seq::empty()
    } else {
        structure_positions(comps, n - 1) + if comps[n - 1].comp_type@ == "RootStructure"@ {
            seq![n - 1]
        } else {
            Seq::empty()
        }
    }
}

/// The descriptions of the structure components of a batch, in order; `defs[i]` are the
/// property definitions of `components[i]`.
pub fn structures_in(components: &Vec<Component>, defs: &Vec<Vec<RawPropertyDefinition>>) -> (r: Vec<StructureInfo>)
    requires
        components@.len() == defs@.len(),
    ensures
        r@.len() == structure_positions(components@, components@.len() as int).len(),
        forall|k: int|
            0 <= k < r@.len() ==> {
                let p = structure_positions(components@, components@.len() as int)[k];
                structure_ok(#[trigger] r@[k], components@[p], defs@[p]@)
            },
{
    let mut out: Vec<StructureInfo> = Vec::new();
    let mut i: usize = 0;
    while i < components.len()
        invariant
            0 <= i <= components.len(),
            components@.len() == defs@.len(),
            out@.len() == structure_positions(components@, i as int).len(),
            forall|k: int|
                0 <= k < out@.len() ==> {
                    let p = structure_positions(components@, i as int)[k];
                    structure_ok(#[trigger] out@[k], components@[p], defs@[p]@)
                },
        decreases components.len() - i,
    {
        let ghost before = out@;
        let ghost pb = structure_positions(components@, i as int);
        if str_eq(components[i].comp_type.as_str(), "RootStructure") {
            out.push(structure_info(&components[i], &defs[i]));
            assert(structure_positions(components@, i + 1) =~= pb.push(i as int));
            assert forall|k: int|
                0 <= k < out@.len() implies {
                    let p = structure_positions(components@, i + 1)[k];
                    structure_ok(#[trigger] out@[k], components@[p], defs@[p]@)
                } by {
                if k < before.len() {
                    assert(out@[k] == before[k]);
                }
            }
        } else {
            assert(structure_positions(components@, i + 1) =~= pb);
        }
        i += 1;
    }
    out
}

/// The first structure whose title or plural name is `name`, in any case.
pub open spec fn structure_named(ss: Seq<StructureInfo>, name: Seq<char>, i: int) -> Option<int>
    decreases ss.len() - i,
{
    if i < 0 || i >= ss.len() {
        None
    } else if lowercase(ss[i].title@) == lowercase(name) || lowercase(ss[i].plural_name@) == lowercase(name) {
        Some(i)
    } else {
        structure_named(ss, name, i + 1)
    }
}

/// The position of the structure a type name names: by title or plural name, in any case.
pub fn find_structure_by_name(structures: &Vec<StructureInfo>, type_label: &str) -> (r: Option<usize>)
    ensures
        opt_pos(r) == structure_named(structures@, type_label@, 0),
{
    let lower = to_lowercase(type_label);
    let mut i: usize = 0;
    while i < structures.len()
        invariant
            0 <= i <= structures.len(),
            lower@ == lowercase(type_label@),
            structure_named(structures@, type_label@, 0) == structure_named(structures@, type_label@, i as int),
        decreases structures.len() - i,
    {
        let t = to_lowercase(structures[i].title.as_str());
        let p = to_lowercase(structures[i].plural_name.as_str());
        if str_eq(t.as_str(), lower.as_str()) || str_eq(p.as_str(), lower.as_str()) {
            return Some(i);
        }
        i += 1;
    }
    None
}

} // verus!
