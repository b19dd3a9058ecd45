//! The portal API: where requests go, what they carry, and the small decisions between them.
use vstd::prelude::*;
use crate::ids::{is_uuid, is_uuid_text, new_id};
use crate::json::{array, at, json_array, members, object, pair_views, put, string, views, Json, JsonValue};
use crate::render::{blocks_md, blocks_to_markdown};
use crate::sync::member_or_null;
use crate::text::{append, copy, lowercase, str_eq, string_views, to_lowercase};
use crate::types::{Component, SearchResponse};

verus! {

/// Where the portal API lives unless told otherwise.
pub open spec fn default_portal_url() -> Seq<char> {
    "https://portal.capacities.io"@
}

/// The app version the client announces unless told otherwise.
pub open spec fn default_appversion() -> Seq<char> {
    "electron-1.58.42-1"@
}

/// A client of the portal API: its token, announced app version and base URL.
pub struct Api {
    pub token: String,
    pub appversion: String,
    pub portal_url: String,
}

pub open spec fn text_or(o: Option<String>, d: Seq<char>) -> Seq<char> {
    match o {
        Some(s) => s@,
        None => d,
    }
}

impl Api {
    /// A client with the token `token`, and the app version and base URL given, or the
    /// defaults.
    pub fn new(token: String, appversion: Option<String>, portal_url: Option<String>) -> (r: Api)
        ensures
            r.token@ == token@,
            r.appversion@ == text_or(appversion, default_appversion()),
            r.portal_url@ == text_or(portal_url, default_portal_url()),
    {
        let appversion = match appversion {
            Some(a) => a,
            None => copy("electron-1.58.42-1"),
        };
        let portal_url = match portal_url {
            Some(u) => u,
            None => copy("https://portal.capacities.io"),
        };
        Api { token, appversion, portal_url }
    }

    pub fn appversion(&self) -> (r: &str)
        ensures
            r@ == self.appversion@,
    {
        self.appversion.as_str()
    }

    pub fn portal_url(&self) -> (r: &str)
        ensures
            r@ == self.portal_url@,
    {
        self.portal_url.as_str()
    }

    /// The URL of the endpoint `path`.
    pub fn url(&self, path: &str) -> (r: String)
        ensures
            r@ == self.portal_url@ + path@,
    {
        let mut r = self.portal_url.clone();
        append(&mut r, path);
        r
    }

    /// The headers every request carries: JSON content, the token and the app version.
    pub fn headers(&self) -> (r: Vec<(String, String)>)
        ensures
            r@.len() == 3,
            r@[0].0@ == "Content-Type"@ && r@[0].1@ == "application/json"@,
            r@[1].0@ == "auth-token"@ && r@[1].1@ == self.token@,
            r@[2].0@ == "appversion"@ && r@[2].1@ == self.appversion@,
    {
        let mut r: Vec<(String, String)> = Vec::new();
        r.push((copy("Content-Type"), copy("application/json")));
        r.push((copy("auth-token"), self.token.clone()));
        r.push((copy("appversion"), self.appversion.clone()));
        r
    }

    /// The markdown of a daily note's blocks; empty when it has none.
    pub fn daily_note_to_markdown(component: &Component) -> (r: String)
        ensures
            r@ == daily_markdown(*component),
    {
        let b = member_or_null(&component.data, "blocks");
        let notes = member_or_null(&b, "RootDailyNote_notes");
        match notes.as_array() {
            Some(blocks) => blocks_to_markdown(blocks),
            None => copy(""),
        }
    }
}

/// The markdown of a daily note: its `RootDailyNote_notes` blocks.
pub open spec fn daily_markdown(c: Component) -> Seq<char> {
    match json_array(at(at(c.data@, "blocks"@), "RootDailyNote_notes"@)) {
        Some(blocks) => blocks_md(blocks),
        None => ""@,
    }
}

/// `{ k1: v1, k2: v2 }`.
pub open spec fn pair_doc(k1: Seq<char>, v1: Json, k2: Seq<char>, v2: Json) -> Json {
    Json::Object(seq![(k1, v1), (k2, v2)])
}

fn pair_doc_exec(k1: &str, v1: JsonValue, k2: &str, v2: JsonValue) -> (r: JsonValue)
    ensures
        r@ == pair_doc(k1@, v1@, k2@, v2@),
{
    let ghost (a, b) = (v1@, v2@);
    let mut ps = members();
    put(&mut ps, k1, v1);
    put(&mut ps, k2, v2);
    assert(pair_views(ps@) =~= seq![(k1@, a), (k2@, b)]);
    object(ps)
}

/// The body of a search.
pub fn lookup_body(query: &str, space_id: &str) -> (r: JsonValue)
    ensures
        r@ == pair_doc("searchTerm"@, Json::Str(query@), "spaceId"@, Json::Str(space_id@)),
{
    pair_doc_exec("searchTerm", string(query), "spaceId", string(space_id))
}

/// The body asking for the content of a space.
pub fn space_content_body(space_id: &str) -> (r: JsonValue)
    ensures
        r@ == Json::Object(seq![("spaceId"@, Json::Str(space_id@))]),
{
    let mut ps = members();
    put(&mut ps, "spaceId", string(space_id));
    assert(pair_views(ps@) =~= seq![("spaceId"@, Json::Str(space_id@))]);
    object(ps)
}

/// The body asking for the content with the identifiers `ids`.
pub fn ids_body(ids: &Vec<String>) -> (r: JsonValue)
    ensures
        r@ == Json::Object(seq![("ids"@, Json::Array(string_views(ids@).map_values(|s: Seq<char>| Json::Str(s))))]),
{
    let mut items: Vec<JsonValue> = Vec::new();
    let mut i: usize = 0;
    while i < ids.len()
        invariant
            0 <= i <= ids.len(),
            items@.len() == i,
            forall|k: int| 0 <= k < i ==> (#[trigger] items@[k])@ == Json::Str(ids@[k]@),
        decreases ids.len() - i,
    {
        items.push(string(ids[i].as_str()));
        i += 1;
    }
    let ghost want = string_views(ids@).map_values(|s: Seq<char>| Json::Str(s));
    assert(views(items@) =~= want);
    let a = array(items);
    let mut ps = members();
    put(&mut ps, "ids", a);
    assert(pair_views(ps@) =~= seq![("ids"@, Json::Array(want))]);
    object(ps)
}

/// The body that duplicates the content `id`.
pub fn duplicate_body(id: &str, space_id: &str) -> (r: JsonValue)
    ensures
        r@ == pair_doc("id"@, Json::Str(id@), "spaceId"@, Json::Str(space_id@)),
{
    pair_doc_exec("id", string(id), "spaceId", string(space_id))
}

/// The body that restores the deleted content `id`, from the sync client `cid`.
pub open spec fn undo_doc(id: Seq<char>, space: Seq<char>, cid: Seq<char>) -> Json {
    Json::Object(seq![("id"@, Json::Str(id)), ("spaceId"@, Json::Str(space)), ("syncClientId"@, Json::Str(cid))])
}

/// The body that restores the deleted content `id`, from a new sync client.
pub fn undo_delete_body(id: &str, space_id: &str) -> (r: JsonValue)
    ensures
        exists|cid: Seq<char>| is_uuid_text(cid) && r@ == #[trigger] undo_doc(id@, space_id@, cid),
{
    let cid = new_id();
    let ghost cv = cid@;
    let mut ps = members();
    put(&mut ps, "id", string(id));
    put(&mut ps, "spaceId", string(space_id));
    put(&mut ps, "syncClientId", JsonValue::Str(cid));
    assert(pair_views(ps@) =~= seq![("id"@, Json::Str(id@)), ("spaceId"@, Json::Str(space_id@)), ("syncClientId"@, Json::Str(cv))]);
    let r = object(ps);
    assert(r@ == undo_doc(id@, space_id@, cv));
    r
}

/// The path of the trash of a space.
pub fn trash_path(space_id: &str) -> (r: String)
    ensures
        r@ == "/content/trash/"@ + space_id@,
{
    let mut r = copy("/content/trash/");
    append(&mut r, space_id);
    r
}

/// `k: v` where there is a value.
pub open spec fn opt_member(k: Seq<char>, v: Option<Json>) -> Seq<(Seq<char>, Json)> {
    match v {
        Some(j) => seq![(k, j)],
        None => Seq::empty(),
    }
}

pub open spec fn opt_str_json(o: Option<&str>) -> Option<Json> {
    match o {
        Some(s) => Some(Json::Str(s@)),
        None => None,
    }
}

pub open spec fn opt_tags_json(o: Option<&Vec<String>>) -> Option<Json> {
    match o {
        Some(v) => Some(Json::Array(string_views(v@).map_values(|s: Seq<char>| Json::Str(s)))),
        None => None,
    }
}

/// The body that saves the weblink `url`, with the overrides given.
pub open spec fn weblink_doc(
    space: Seq<char>,
    url: Seq<char>,
    title: Option<Json>,
    desc: Option<Json>,
    tags: Option<Json>,
    md: Option<Json>,
) -> Json {
    Json::Object(
        seq![("spaceId"@, Json::Str(space)), ("url"@, Json::Str(url))] + opt_member("titleOverwrite"@, title)
            + opt_member("descriptionOverwrite"@, desc) + opt_member("tags"@, tags) + opt_member("mdText"@, md),
    )
}

fn put_opt(ps: &mut Vec<(String, JsonValue)>, k: &str, v: Option<JsonValue>)
    ensures
        pair_views(final(ps)@) == pair_views(old(ps)@) + opt_member(
            k@,
            match v {
                Some(j) => Some(j@),
                None => None,
            },
        ),
{
    match v {
        Some(j) => {
            let ghost jv = j@;
            put(ps, k, j);
            assert(pair_views(ps@) =~= pair_views(old(ps)@) + seq![(k@, jv)]);
        },
        None => {
            assert(pair_views(ps@) =~= pair_views(old(ps)@) + Seq::<(Seq<char>, Json)>::empty());
        },
    }
}

fn opt_string(o: Option<&str>) -> (r: Option<JsonValue>)
    ensures
        match r {
            Some(j) => Some(j@),
            None => None,
        } == opt_str_json(o),
{
    match o {
        Some(s) => Some(string(s)),
        None => None,
    }
}

/// The body that saves a weblink.
pub fn weblink_body(
    space_id: &str,
    url: &str,
    title: Option<&str>,
    description: Option<&str>,
    tags: Option<&Vec<String>>,
    md_text: Option<&str>,
) -> (r: JsonValue)
    ensures
        r@ == weblink_doc(
            space_id@,
            url@,
            opt_str_json(title),
            opt_str_json(description),
            opt_tags_json(tags),
            opt_str_json(md_text),
        ),
{
    let mut ps = members();
    put(&mut ps, "spaceId", string(space_id));
    put(&mut ps, "url", string(url));
    assert(pair_views(ps@) =~= seq![("spaceId"@, Json::Str(space_id@)), ("url"@, Json::Str(url@))]);
    put_opt(&mut ps, "titleOverwrite", opt_string(title));
    put_opt(&mut ps, "descriptionOverwrite", opt_string(description));
    let tag_doc = match tags {
        Some(v) => {
            let mut items: Vec<JsonValue> = Vec::new();
            let mut i: usize = 0;
            while i < v.len()
                invariant
                    0 <= i <= v.len(),
                    items@.len() == i,
                    forall|k: int| 0 <= k < i ==> (#[trigger] items@[k])@ == Json::Str(v@[k]@),
                decreases v.len() - i,
            {
                items.push(string(v[i].as_str()));
                i += 1;
            }
            assert(views(items@) =~= string_views(v@).map_values(|s: Seq<char>| Json::Str(s)));
            Some(array(items))
        },
        None => None,
    };
    put_opt(&mut ps, "tags", tag_doc);
    put_opt(&mut ps, "mdText", opt_string(md_text));
    object(ps)
}

/// The body that appends `md_text` to today's daily note, without a time stamp if asked.
pub fn daily_note_body(space_id: &str, md_text: &str, no_timestamp: bool) -> (r: JsonValue)
    ensures
        r@ == Json::Object(
            seq![("spaceId"@, Json::Str(space_id@)), ("mdText"@, Json::Str(md_text@))] + if no_timestamp {
                seq![("noTimeStamp"@, Json::Bool(true))]
            } else {
                Seq::empty()
            },
        ),
{
    let mut ps = members();
    put(&mut ps, "spaceId", string(space_id));
    put(&mut ps, "mdText", string(md_text));
    let ghost base = pair_views(ps@);
    if no_timestamp {
        put(&mut ps, "noTimeStamp", JsonValue::Bool(true));
    }
    assert(pair_views(ps@) =~= seq![("spaceId"@, Json::Str(space_id@)), ("mdText"@, Json::Str(md_text@))] + if no_timestamp {
        seq![("noTimeStamp"@, Json::Bool(true))]
    } else {
        Seq::empty()
    });
    object(ps)
}

/// A context reference that is a UUID (in any case) names an entity itself; anything else is
/// searched for.
pub fn context_ref_is_id(r: &str) -> (b: bool)
    ensures
        b == is_uuid_text(lowercase(r@)),
{
    let lower = to_lowercase(r);
    is_uuid(lower.as_str())
}

/// The identifier and title of the first search result.
pub fn first_result(results: &SearchResponse) -> (r: Option<(String, String)>)
    ensures
        match r {
            Some((id, title)) => results.results@.len() > 0 && id@ == results.results@[0].id@ && title@
                == results.results@[0].title@,
            None => results.results@.len() == 0,
        },
{
    if results.results.len() > 0 {
        Some((results.results[0].id.clone(), results.results[0].title.clone()))
    } else {
        None
    }
}

/// Context is added to a new object when it was created and there is some to add.
pub fn should_add_context(status: &str, context_ids: Option<&Vec<String>>) -> (r: bool)
    ensures
        r == (status@ == "success"@ && context_ids is Some && context_ids->0@.len() > 0),
{
    str_eq(status, "success") && match context_ids {
        Some(ids) => ids.len() > 0,
        None => false,
    }
}

} // verus!
