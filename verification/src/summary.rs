//! The objects of a space and how many there are of each type, gathered batch by batch.
use vstd::prelude::*;
use crate::keyed::{get_index, index_view, kget, kpos, kset, set_index};
use crate::space::{prop_text, prop_text_exec};
use crate::text::{copy, lowercase, str_eq, string_views, to_lowercase};
use crate::types::{Component, SpaceContentElement, SpaceObjectElement, SpaceObjectsSummary};

verus! {

/// An object found while scanning: identifier, title, last update and structure.
pub struct EntityRow {
    pub id: String,
    pub title: String,
    pub last_updated: String,
    pub structure_id: String,
}

/// What a scan has gathered: the title of each structure met, and the objects met.
pub struct SummaryScan {
    pub names: Vec<(String, String)>,
    pub rows: Vec<EntityRow>,
}

pub type Row = (Seq<char>, Seq<char>, Seq<char>, Seq<char>);

#[verifier::ext_equal]
pub struct ScanView {
    pub names: Seq<(Seq<char>, Seq<char>)>,
    pub rows: Seq<Row>,
}

pub open spec fn names_view(v: Seq<(String, String)>) -> Seq<(Seq<char>, Seq<char>)> {
    Seq::new(v.len(), |i: int| (v[i].0@, v[i].1@))
}

pub open spec fn rows_view(v: Seq<EntityRow>) -> Seq<Row> {
    Seq::new(v.len(), |i: int| (v[i].id@, v[i].title@, v[i].last_updated@, v[i].structure_id@))
}

impl View for SummaryScan {
    type V = ScanView;

    open spec fn view(&self) -> ScanView {
        ScanView { names: names_view(self.names@), rows: rows_view(self.rows@) }
    }
}

/// The first element with identifier `id`, from `i` on.
pub open spec fn element_pos(elements: Seq<SpaceContentElement>, id: Seq<char>, i: int) -> Option<int>
    decreases elements.len() - i,
{
    if i < 0 || i >= elements.len() {
        None
    } else if elements[i].id@ == id {
        Some(i)
    } else {
        element_pos(elements, id, i + 1)
    }
}

/// What one component adds: a structure its title (or its identifier), an object listed in
/// the space its row.
pub open spec fn scan_one(s: ScanView, elements: Seq<SpaceContentElement>, c: Component) -> ScanView {
    if c.comp_type@ == "RootStructure"@ {
        ScanView { names: kset(s.names, c.id@, prop_text(c.properties@, "title"@, c.id@)), rows: s.rows }
    } else if c.comp_type@ == "RootEntity"@ {
        match element_pos(elements, c.id@, 0) {
            Some(e) => ScanView {
                names: s.names,
                rows: s.rows.push(
                    (c.id@, prop_text(c.properties@, "title"@, "Untitled"@), elements[e].last_updated@, c.structure_id@),
                ),
            },
            None => s,
        }
    } else {
        s
    }
}

/// The scan after the first `n` components.
pub open spec fn scan_all(s: ScanView, elements: Seq<SpaceContentElement>, comps: Seq<Component>, n: int) -> ScanView
    decreases n,
{
    if n <= 0 {
        s
    } else {
        scan_one(scan_all(s, elements, comps, n - 1), elements, comps[n - 1])
    }
}

/// The titles after the structures among the first `n` components.
pub open spec fn name_all(names: Seq<(Seq<char>, Seq<char>)>, comps: Seq<Component>, n: int) -> Seq<(Seq<char>, Seq<char>)>
    decreases n,
{
    if n <= 0 {
        names
    } else {
        let p = name_all(names, comps, n - 1);
        let c = comps[n - 1];
        if c.comp_type@ == "RootStructure"@ {
            kset(p, c.id@, prop_text(c.properties@, "title"@, c.id@))
        } else {
            p
        }
    }
}

/// The structures of the first `n` rows that have no title yet, each once, in the order met.
pub open spec fn unresolved_ids(rows: Seq<Row>, names: Seq<(Seq<char>, Seq<char>)>, n: int) -> Seq<Seq<char>>
    decreases n,
{
    if n <= 0 {
        Seq::empty()
    } else {
        let u = unresolved_ids(rows, names, n - 1);
        let sid = rows[n - 1].3;
        if kget(names, sid) is None && !u.contains(sid) {
            u.push(sid)
        } else {
            u
        }
    }
}

/// The type name of a structure: its title, or its identifier.
pub open spec fn type_of(names: Seq<(Seq<char>, Seq<char>)>, sid: Seq<char>) -> Seq<char> {
    match kget(names, sid) {
        Some(t) => t,
        None => sid,
    }
}

/// The count of `t` raised by one.
pub open spec fn bump(counts: Seq<(Seq<char>, int)>, t: Seq<char>) -> Seq<(Seq<char>, int)> {
    kset(
        counts,
        t,
        match kget(counts, t) {
            Some(c) => c + 1,
            None => 1,
        },
    )
}

/// How many of the first `n` rows there are of each type.
pub open spec fn counts_of(rows: Seq<Row>, names: Seq<(Seq<char>, Seq<char>)>, n: int) -> Seq<(Seq<char>, int)>
    decreases n,
{
    if n <= 0 {
        Seq::empty()
    } else {
        bump(counts_of(rows, names, n - 1), type_of(names, rows[n - 1].3))
    }
}

/// A type is kept when there is no filter, or the filter names it in any case.
pub open spec fn kept(t: Seq<char>, filter: Option<Seq<Seq<char>>>) -> bool {
    filter is None || exists|k: int| 0 <= k < filter->0.len() && #[trigger] lowercase(filter->0[k]) == lowercase(t)
}

pub type Listed = (Seq<char>, Seq<char>, Seq<char>, Seq<char>, Seq<char>);

/// The kept objects among the first `n` rows, each with its type name.
pub open spec fn listed(rows: Seq<Row>, names: Seq<(Seq<char>, Seq<char>)>, filter: Option<Seq<Seq<char>>>, n: int) -> Seq<Listed>
    decreases n,
{
    if n <= 0 {
        Seq::empty()
    } else {
        let l = listed(rows, names, filter, n - 1);
        let r = rows[n - 1];
        let t = type_of(names, r.3);
        if kept(t, filter) {
            l.push((r.0, r.1, r.2, r.3, t))
        } else {
            l
        }
    }
}

pub open spec fn element_views(v: Seq<SpaceObjectElement>) -> Seq<Listed> {
    Seq::new(v.len(), |i: int| (v[i].id@, v[i].title@, v[i].last_updated@, v[i].structure_id@, v[i].type_title@))
}

pub open spec fn opt_names(o: Option<&Vec<String>>) -> Option<Seq<Seq<char>>> {
    match o {
        Some(v) => Some(string_views(v@)),
        None => None,
    }
}

fn element_pos_exec(elements: &Vec<SpaceContentElement>, id: &str) -> (r: Option<usize>)
    ensures
        match r {
            Some(i) => element_pos(elements@, id@, 0) == Some(i as int) && i < elements@.len(),
            None => element_pos(elements@, id@, 0) is None,
        },
{
    let mut i: usize = 0;
    while i < elements.len()
        invariant
            0 <= i <= elements.len(),
            element_pos(elements@, id@, 0) == element_pos(elements@, id@, i as int),
        decreases elements.len() - i,
    {
        if str_eq(elements[i].id.as_str(), id) {
            return Some(i);
        }
        i += 1;
    }
    None
}

pub fn set_name(names: &mut Vec<(String, String)>, k: &str, v: String)
    ensures
        names_view(final(names)@) == kset(names_view(old(names)@), k@, v@),
{
    let ghost s = names_view(names@);
    let ghost vv = v@;
    let mut i: usize = 0;
    while i < names.len()
        invariant
            0 <= i <= names.len(),
            names@ == old(names)@,
            s == names_view(names@),
            v@ == vv,
            kpos(s, k@, 0) == kpos(s, k@, i as int),
        decreases names.len() - i,
    {
        if str_eq(names[i].0.as_str(), k) {
            let pair = (copy(k), v);
            assert(pair.0@ == k@ && pair.1@ == vv);
            names.set(i, pair);
            assert(names_view(names@) =~= s.update(i as int, (k@, vv)));
            return;
        }
        i += 1;
    }
    names.push((copy(k), v));
    assert(names_view(names@) =~= s.push((k@, vv)));
}

pub fn get_name(names: &Vec<(String, String)>, k: &str) -> (r: Option<String>)
    ensures
        match r {
            Some(v) => kget(names_view(names@), k@) == Some(v@),
            None => kget(names_view(names@), k@) is None,
        },
{
    let ghost s = names_view(names@);
    let mut i: usize = 0;
    while i < names.len()
        invariant
            0 <= i <= names.len(),
            s == names_view(names@),
            kpos(s, k@, 0) == kpos(s, k@, i as int),
        decreases names.len() - i,
    {
        if str_eq(names[i].0.as_str(), k) {
            return Some(names[i].1.clone());
        }
        i += 1;
    }
    None
}

impl SummaryScan {
    pub fn new() -> (r: SummaryScan)
        ensures
            r@ == (ScanView { names: Seq::empty(), rows: Seq::empty() }),
    {
        let r = SummaryScan { names: Vec::new(), rows: Vec::new() };
        assert(r@.names =~= Seq::<(Seq<char>, Seq<char>)>::empty());
        assert(r@.rows =~= Seq::<Row>::empty());
        r
    }

    /// Takes in one batch of the space's content; `elements` is the space's list.
    pub fn scan_batch(&mut self, elements: &Vec<SpaceContentElement>, components: &Vec<Component>)
        ensures
            final(self)@ == scan_all(old(self)@, elements@, components@, components@.len() as int),
    {
        let mut i: usize = 0;
        while i < components.len()
            invariant
                0 <= i <= components.len(),
                self@ == scan_all(old(self)@, elements@, components@, i as int),
            decreases components.len() - i,
        {
            let c = &components[i];
            if str_eq(c.comp_type.as_str(), "RootStructure") {
                let title = prop_text_exec(&c.properties, "title", c.id.as_str());
                let ghost rows = self@.rows;
                set_name(&mut self.names, c.id.as_str(), title);
                assert(self@.rows == rows);
            } else if str_eq(c.comp_type.as_str(), "RootEntity") {
                match element_pos_exec(elements, c.id.as_str()) {
                    Some(e) => {
                        let ghost before = self.rows@;
                        let row = EntityRow {
                            id: c.id.clone(),
                            title: prop_text_exec(&c.properties, "title", "Untitled"),
                            last_updated: elements[e].last_updated.clone(),
                            structure_id: c.structure_id.clone(),
                        };
                        self.rows.push(row);
                        assert(rows_view(self.rows@) =~= rows_view(before).push(
                            (c.id@, prop_text(c.properties@, "title"@, "Untitled"@), elements@[e as int].last_updated@, c.structure_id@),
                        ));
                    },
                    None => {},
                }
            }
            i += 1;
        }
    }

    /// The structures of the objects met that have no title yet, each once.
    pub fn unresolved(&self) -> (r: Vec<String>)
        ensures
            string_views(r@) == unresolved_ids(self@.rows, self@.names, self@.rows.len() as int),
    {
        let ghost rv = self@.rows;
        let mut out: Vec<String> = Vec::new();
        let mut i: usize = 0;
        while i < self.rows.len()
            invariant
                0 <= i <= self.rows.len(),
                rv == self@.rows,
                string_views(out@) == unresolved_ids(rv, self@.names, i as int),
            decreases self.rows.len() - i,
        {
            let sid = self.rows[i].structure_id.as_str();
            let ghost u = string_views(out@);
            let named = get_name(&self.names, sid);
            let mut seen = false;
            let mut j: usize = 0;
            while j < out.len()
                invariant
                    0 <= j <= out.len(),
                    u == string_views(out@),
                    seen == exists|k: int| 0 <= k < j && #[trigger] u[k] == sid@,
                decreases out.len() - j,
            {
                if str_eq(out[j].as_str(), sid) {
                    seen = true;
                }
                assert(u[j as int] == out@[j as int]@);
                j += 1;
            }
            assert(seen == u.contains(sid@));
            if named.is_none() && !seen {
                out.push(copy(sid));
                assert(string_views(out@) =~= u.push(sid@));
            }
            i += 1;
        }
        out
    }

    /// Takes in the structure components fetched for the unresolved structures.
    pub fn scan_structures(&mut self, components: &Vec<Component>)
        ensures
            final(self)@.rows == old(self)@.rows,
            final(self)@.names == name_all(old(self)@.names, components@, components@.len() as int),
    {
        let mut i: usize = 0;
        while i < components.len()
            invariant
                0 <= i <= components.len(),
                self@.rows == old(self)@.rows,
                self@.names == name_all(old(self)@.names, components@, i as int),
            decreases components.len() - i,
        {
            let c = &components[i];
            if str_eq(c.comp_type.as_str(), "RootStructure") {
                let title = prop_text_exec(&c.properties, "title", c.id.as_str());
                set_name(&mut self.names, c.id.as_str(), title);
            }
            i += 1;
        }
    }

    /// The summary: every object met with its type name (kept by `filter`, where there is
    /// one), the count of each type, and how many objects there are in all.
    pub fn finish(&self, filter: Option<&Vec<String>>) -> (r: SpaceObjectsSummary)
        ensures
            r.total == self@.rows.len(),
            index_view(r.summary@) == counts_of(self@.rows, self@.names, self@.rows.len() as int),
            element_views(r.elements@) == listed(self@.rows, self@.names, opt_names(filter), self@.rows.len() as int),
    {
        let ghost rv = self@.rows;
        let ghost nv = self@.names;
        let lowered: Vec<String> = match filter {
            Some(ns) => {
                let mut l: Vec<String> = Vec::new();
                let mut k: usize = 0;
                while k < ns.len()
                    invariant
                        0 <= k <= ns.len(),
                        l@.len() == k,
                        forall|m: int| 0 <= m < k ==> (#[trigger] l@[m])@ == lowercase(ns@[m]@),
                    decreases ns.len() - k,
                {
                    l.push(to_lowercase(ns[k].as_str()));
                    k += 1;
                }
                l
            },
            None => Vec::new(),
        };
        let mut counts: Vec<(String, usize)> = Vec::new();
        let mut elements: Vec<SpaceObjectElement> = Vec::new();
        assert(index_view(counts@) =~= Seq::<(Seq<char>, int)>::empty());
        assert(element_views(elements@) =~= Seq::<Listed>::empty());
        let mut i: usize = 0;
        while i < self.rows.len()
            invariant
                0 <= i <= self.rows.len(),
                rv == self@.rows,
                nv == self@.names,
                filter is Some ==> lowered@.len() == filter->0@.len() && forall|m: int|
                    0 <= m < lowered@.len() ==> (#[trigger] lowered@[m])@ == lowercase(filter->0@[m]@),
                index_view(counts@) == counts_of(rv, nv, i as int),
                forall|j: int| 0 <= j < counts@.len() ==> (#[trigger] counts@[j]).1 <= i,
                element_views(elements@) == listed(rv, nv, opt_names(filter), i as int),
            decreases self.rows.len() - i,
        {
            let row = &self.rows[i];
            let t = match get_name(&self.names, row.structure_id.as_str()) {
                Some(n) => n,
                None => row.structure_id.clone(),
            };
            assert(t@ == type_of(nv, rv[i as int].3));
            let ghost cb = counts@;
            let n: usize = match get_index(&counts, t.as_str()) {
                Some(c) => {
                    proof {
                        let p = kpos(index_view(cb), t@, 0);
                        crate::keyed::lemma_kpos(index_view(cb), t@, 0);
                        assert(index_view(cb)[p].1 == cb[p].1 as int);
                    }
                    c + 1
                },
                None => 1,
            };
            set_index(&mut counts, t.as_str(), n);
            assert forall|j: int| 0 <= j < counts@.len() implies (#[trigger] counts@[j]).1 <= i + 1 by {
                assert(index_view(counts@)[j].1 == counts@[j].1 as int);
                let p = kpos(index_view(cb), t@, 0);
                if 0 <= p < cb.len() {
                    assert(index_view(counts@) == index_view(cb).update(p, (t@, n as int)));
                    assert(index_view(counts@).len() == counts@.len());
                    assert(index_view(cb).len() == cb.len());
                    if j != p {
                        assert(index_view(cb)[j] == index_view(counts@)[j]);
                        assert(index_view(cb)[j].1 == cb[j].1 as int);
                    }
                } else {
                    assert(index_view(counts@) == index_view(cb).push((t@, n as int)));
                    assert(index_view(counts@).len() == counts@.len());
                    assert(index_view(cb).len() == cb.len());
                    if j < cb.len() {
                        assert(index_view(cb)[j] == index_view(counts@)[j]);
                        assert(index_view(cb)[j].1 == cb[j].1 as int);
                    }
                }
            }
            let keep = match filter {
                Some(ns) => {
                    let lt = to_lowercase(t.as_str());
                    let mut found = false;
                    let mut k: usize = 0;
                    while k < lowered.len()
                        invariant
                            0 <= k <= lowered.len(),
                            filter is Some,
                            lowered@.len() == filter->0@.len(),
                            forall|m: int|
                                0 <= m < lowered@.len() ==> (#[trigger] lowered@[m])@ == lowercase(filter->0@[m]@),
                            lt@ == lowercase(t@),
                            found == exists|m: int| 0 <= m < k && #[trigger] lowercase(string_views(filter->0@)[m]) == lowercase(t@),
                        decreases lowered.len() - k,
                    {
                        assert(string_views(filter->0@)[k as int] == filter->0@[k as int]@);
                        if str_eq(lowered[k].as_str(), lt.as_str()) {
                            found = true;
                        }
                        k += 1;
                    }
                    let ghost ns2 = string_views(filter->0@);
                    assert(found == kept(t@, opt_names(filter))) by {
                        assert(opt_names(filter) == Some(ns2));
                        assert(k == lowered@.len());
                        assert(ns2.len() == k);
                        if kept(t@, opt_names(filter)) {
                            let m = choose|m: int| 0 <= m < ns2.len() && #[trigger] lowercase(ns2[m]) == lowercase(t@);
                            assert(0 <= m < k);
                            assert(found);
                        }
                        if found {
                            let m = choose|m: int| 0 <= m < k && #[trigger] lowercase(string_views(filter->0@)[m]) == lowercase(t@);
                            assert(lowercase(ns2[m]) == lowercase(t@));
                            assert(opt_names(filter)->0[m] == ns2[m]);
                            assert(lowercase(opt_names(filter)->0[m]) == lowercase(t@));
                            assert(kept(t@, opt_names(filter)));
                        }
                    }
                    found
                },
                None => true,
            };
            assert(keep == kept(t@, opt_names(filter)));
            if keep {
                let ghost eb = elements@;
                elements.push(SpaceObjectElement {
                    id: row.id.clone(),
                    title: row.title.clone(),
                    last_updated: row.last_updated.clone(),
                    structure_id: row.structure_id.clone(),
                    type_title: t,
                });
                assert(element_views(elements@) =~= element_views(eb).push(
                    (rv[i as int].0, rv[i as int].1, rv[i as int].2, rv[i as int].3, type_of(nv, rv[i as int].3)),
                ));
            }
            i += 1;
        }
        SpaceObjectsSummary { elements, summary: counts, total: self.rows.len() }
    }
}

} // verus!
