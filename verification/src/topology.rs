//! The adjacency mapping that a broadcast node is told: for each node, the
//! list of its neighbours.
use crate::fields::{
    clone_texts, lemma_texts_round_trip, put_texts, text_views, texts_from, texts_of, texts_tree,
};
use crate::json::{
    fields_of, map_get, map_keys, map_new, tree_of, value_as_object, value_from_map, JsonValue,
};
use vstd::prelude::*;

verus! {

/// The mapping that a list of entries spells, where no name occurs twice.
pub open spec fn entries_map(es: Seq<(String, Vec<String>)>) -> Map<Seq<char>, Seq<Seq<char>>> {
    Map::new(
        |k: Seq<char>| exists|i: int| 0 <= i < es.len() && (#[trigger] es[i]).0@ == k,
        |k: Seq<char>|
            {
                let i = choose|i: int| 0 <= i < es.len() && (#[trigger] es[i]).0@ == k;
                text_views(es[i].1@)
            },
    )
}

/// No name occurs twice among the entries.
pub open spec fn distinct_names(es: Seq<(String, Vec<String>)>) -> bool {
    forall|i: int, j: int|
        0 <= i < j < es.len() ==> (#[trigger] es[i]).0@ != (#[trigger] es[j]).0@
}

/// Each entry is found under its own name.
pub proof fn lemma_entry_found(es: Seq<(String, Vec<String>)>, i: int)
    requires
        distinct_names(es),
        0 <= i < es.len(),
    ensures
        entries_map(es).contains_key(es[i].0@),
        entries_map(es)[es[i].0@] == text_views(es[i].1@),
{
    let k = es[i].0@;
    let j = choose|j: int| 0 <= j < es.len() && (#[trigger] es[j]).0@ == k;
    assert(j == i);
}

/// Appending an entry under a new name inserts it into the mapping.
pub proof fn lemma_entry_pushed(es: Seq<(String, Vec<String>)>, e: (String, Vec<String>))
    requires
        distinct_names(es),
        !entries_map(es).contains_key(e.0@),
    ensures
        distinct_names(es.push(e)),
        entries_map(es.push(e)) == entries_map(es).insert(e.0@, text_views(e.1@)),
{
    let after = es.push(e);
    assert forall|i: int, j: int| 0 <= i < j < after.len() implies (#[trigger] after[i]).0@ != (
    #[trigger] after[j]).0@ by {
        if j == es.len() {
            assert(after[i] == es[i]);
        } else {
            assert(after[i] == es[i] && after[j] == es[j]);
        }
    }
    let target = entries_map(es).insert(e.0@, text_views(e.1@));
    assert forall|k: Seq<char>| entries_map(after).contains_key(k) <==> target.contains_key(
        k,
    ) by {
        if entries_map(after).contains_key(k) {
            let i = choose|i: int| 0 <= i < after.len() && (#[trigger] after[i]).0@ == k;
            if i < es.len() {
                assert(es[i].0@ == k);
            }
        }
        if target.contains_key(k) {
            if k == e.0@ {
                assert(after[es.len() as int].0@ == k);
            } else {
                let i = choose|i: int| 0 <= i < es.len() && (#[trigger] es[i]).0@ == k;
                assert(after[i].0@ == k);
            }
        }
    }
    assert forall|k: Seq<char>| entries_map(after).contains_key(k) implies entries_map(after)[k]
        == target[k] by {
        let i = choose|i: int| 0 <= i < after.len() && (#[trigger] after[i]).0@ == k;
        lemma_entry_found(after, i);
        if i < es.len() {
            assert(after[i] == es[i]);
            lemma_entry_found(es, i);
        }
    }
    assert(entries_map(after) =~= target);
}

/// Replacing an entry by one of the same name replaces it in the mapping.
pub proof fn lemma_entry_replaced(es: Seq<(String, Vec<String>)>, at: int, e: (String, Vec<String>))
    requires
        distinct_names(es),
        0 <= at < es.len(),
        es[at].0@ == e.0@,
    ensures
        distinct_names(es.update(at, e)),
        entries_map(es.update(at, e)) == entries_map(es).insert(e.0@, text_views(e.1@)),
{
    let after = es.update(at, e);
    assert forall|i: int, j: int| 0 <= i < j < after.len() implies (#[trigger] after[i]).0@ != (
    #[trigger] after[j]).0@ by {
        assert(after[i].0@ == es[i].0@ && after[j].0@ == es[j].0@);
    }
    let target = entries_map(es).insert(e.0@, text_views(e.1@));
    assert forall|k: Seq<char>| entries_map(after).contains_key(k) <==> target.contains_key(
        k,
    ) by {
        if entries_map(after).contains_key(k) {
            let i = choose|i: int| 0 <= i < after.len() && (#[trigger] after[i]).0@ == k;
            assert(es[i].0@ == k);
        }
        if target.contains_key(k) {
            if k == e.0@ {
                assert(after[at].0@ == k);
            } else {
                let i = choose|i: int| 0 <= i < es.len() && (#[trigger] es[i]).0@ == k;
                assert(after[i].0@ == k);
            }
        }
    }
    assert forall|k: Seq<char>| entries_map(after).contains_key(k) implies entries_map(after)[k]
        == target[k] by {
        let i = choose|i: int| 0 <= i < after.len() && (#[trigger] after[i]).0@ == k;
        lemma_entry_found(after, i);
        if i != at {
            assert(after[i] == es[i]);
            lemma_entry_found(es, i);
        }
    }
    assert(entries_map(after) =~= target);
}

/// Entries that agree, place by place, in name and in neighbours spell the
/// same mapping.
pub proof fn lemma_same_entries(es: Seq<(String, Vec<String>)>, copy: Seq<(String, Vec<String>)>)
    requires
        distinct_names(es),
        copy.len() == es.len(),
        forall|j: int|
            0 <= j < es.len() ==> (#[trigger] copy[j]).0@ == es[j].0@ && copy[j].1@ == es[j].1@,
    ensures
        distinct_names(copy),
        entries_map(copy) == entries_map(es),
{
    assert forall|i: int, j: int| 0 <= i < j < copy.len() implies (#[trigger] copy[i]).0@ != (
    #[trigger] copy[j]).0@ by {
        assert(copy[i].0@ == es[i].0@ && copy[j].0@ == es[j].0@);
    }
    assert forall|k: Seq<char>| entries_map(copy).contains_key(k) <==> entries_map(
        es,
    ).contains_key(k) by {
        if entries_map(copy).contains_key(k) {
            let i = choose|i: int| 0 <= i < copy.len() && (#[trigger] copy[i]).0@ == k;
            assert(es[i].0@ == k);
        }
        if entries_map(es).contains_key(k) {
            let i = choose|i: int| 0 <= i < es.len() && (#[trigger] es[i]).0@ == k;
            assert(copy[i].0@ == k);
        }
    }
    assert forall|k: Seq<char>| entries_map(copy).contains_key(k) implies entries_map(copy)[k]
        == entries_map(es)[k] by {
        let i = choose|i: int| 0 <= i < copy.len() && (#[trigger] copy[i]).0@ == k;
        lemma_entry_found(copy, i);
        assert(es[i].0@ == k);
        lemma_entry_found(es, i);
    }
    assert(entries_map(copy) =~= entries_map(es));
}

/// An adjacency mapping: node name to the names of its neighbours.
#[derive(Debug)]
pub struct Topology {
    entries: Vec<(String, Vec<String>)>,
}

impl View for Topology {
    type V = Map<Seq<char>, Seq<Seq<char>>>;

    closed spec fn view(&self) -> Map<Seq<char>, Seq<Seq<char>>> {
        entries_map(self.entries@)
    }
}

impl Topology {
    #[verifier::type_invariant]
    spec fn well_formed(&self) -> bool {
        distinct_names(self.entries@)
    }

    /// A mapping without entries.
    pub fn new() -> (t: Self)
        ensures
            t@ == Map::<Seq<char>, Seq<Seq<char>>>::empty(),
    {
        let t = Topology { entries: Vec::new() };
        assert(t@ =~= Map::<Seq<char>, Seq<Seq<char>>>::empty());
        t
    }

    /// The number of nodes the mapping lists.
    pub fn len(&self) -> (n: usize)
        ensures
            n == self@.len(),
            self@.dom().finite(),
    {
        proof {
            use_type_invariant(self);
            lemma_entries_count(self.entries@);
        }
        self.entries.len()
    }

    fn position(&self, node: &String) -> (r: Option<usize>)
        ensures
            r matches Some(i) ==> i < self.entries@.len() && self.entries@[i as int].0@ == node@,
            r is None ==> !self@.contains_key(node@),
    {
        let mut i: usize = 0;
        while i < self.entries.len()
            invariant
                i <= self.entries@.len(),
                forall|j: int| 0 <= j < i ==> (#[trigger] self.entries@[j]).0@ != node@,
            decreases self.entries@.len() - i,
        {
            if self.entries[i].0 == *node {
                return Some(i);
            }
            i += 1;
        }
        None
    }

    /// The neighbours listed for a node.
    pub fn get(&self, node: &String) -> (r: Option<&Vec<String>>)
        ensures
            r matches Some(ns) ==> self@.contains_key(node@) && self@[node@] == text_views(ns@),
            r is None ==> !self@.contains_key(node@),
    {
        proof {
            use_type_invariant(self);
        }
        match self.position(node) {
            Some(i) => {
                proof {
                    lemma_entry_found(self.entries@, i as int);
                }
                Some(&self.entries[i].1)
            },
            None => None,
        }
    }

    /// Lists `neighbours` for `node`, in place of what was listed for it.
    pub fn insert(&mut self, node: String, neighbours: Vec<String>)
        ensures
            final(self)@ == old(self)@.insert(node@, text_views(neighbours@)),
    {
        proof {
            use_type_invariant(&*self);
        }
        match self.position(&node) {
            Some(i) => {
                proof {
                    lemma_entry_replaced(self.entries@, i as int, (node, neighbours));
                }
                let mut entries: Vec<(String, Vec<String>)> = Vec::new();
                core::mem::swap(&mut self.entries, &mut entries);
                entries.set(i, (node, neighbours));
                core::mem::swap(&mut self.entries, &mut entries);
            },
            None => {
                proof {
                    lemma_entry_pushed(self.entries@, (node, neighbours));
                }
                let mut entries: Vec<(String, Vec<String>)> = Vec::new();
                core::mem::swap(&mut self.entries, &mut entries);
                entries.push((node, neighbours));
                core::mem::swap(&mut self.entries, &mut entries);
            },
        }
    }

    /// The entries: each node once, with its neighbours.
    pub fn entries(&self) -> (es: &Vec<(String, Vec<String>)>)
        ensures
            distinct_names(es@),
            entries_map(es@) == self@,
    {
        proof {
            use_type_invariant(self);
        }
        &self.entries
    }
}

impl Clone for Topology {
    fn clone(&self) -> (t: Self)
        ensures
            t@ == self@,
    {
        proof {
            use_type_invariant(self);
        }
        let mut entries: Vec<(String, Vec<String>)> = Vec::new();
        let mut i: usize = 0;
        while i < self.entries.len()
            invariant
                i <= self.entries@.len(),
                entries@.len() == i,
                forall|j: int|
                    0 <= j < i ==> (#[trigger] entries@[j]).0@ == self.entries@[j].0@
                        && entries@[j].1@ == self.entries@[j].1@,
            decreases self.entries@.len() - i,
        {
            entries.push((self.entries[i].0.clone(), clone_texts(&self.entries[i].1)));
            i += 1;
        }
        proof {
            lemma_same_entries(self.entries@, entries@);
        }
        Topology { entries }
    }
}

impl Default for Topology {
    fn default() -> (t: Self)
        ensures
            t@ == Map::<Seq<char>, Seq<Seq<char>>>::empty(),
    {
        Topology::new()
    }
}

/// A list of entries with distinct names spells a mapping of as many nodes.
pub proof fn lemma_entries_count(es: Seq<(String, Vec<String>)>)
    requires
        distinct_names(es),
    ensures
        entries_map(es).dom().finite(),
        entries_map(es).len() == es.len(),
    decreases es.len(),
{
    if es.len() == 0 {
        assert(entries_map(es) =~= Map::<Seq<char>, Seq<Seq<char>>>::empty());
    } else {
        let front = es.drop_last();
        let e = es.last();
        assert(distinct_names(front)) by {
            assert forall|i: int, j: int| 0 <= i < j < front.len() implies (#[trigger] front[i]).0@
                != (#[trigger] front[j]).0@ by {
                assert(front[i] == es[i] && front[j] == es[j]);
            }
        }
        lemma_entries_count(front);
        if entries_map(front).contains_key(e.0@) {
            let i = choose|i: int| 0 <= i < front.len() && (#[trigger] front[i]).0@ == e.0@;
            assert(es[i].0@ == es[es.len() - 1].0@);
        }
        lemma_entry_pushed(front, e);
        assert(front.push(e) =~= es);
    }
}

/// The members of the JSON object for a mapping: one per node, holding the
/// list of its neighbours.
pub open spec fn topology_members(t: Map<Seq<char>, Seq<Seq<char>>>) -> Map<Seq<char>, JsonValue> {
    Map::new(|k: Seq<char>| t.contains_key(k), |k: Seq<char>| texts_tree(t[k]))
}

/// The JSON object for a mapping.
pub open spec fn topology_tree(t: Map<Seq<char>, Seq<Seq<char>>>) -> JsonValue {
    JsonValue::Object(topology_members(t))
}

/// The mapping that a document spells, where it is an object whose every
/// member is an array of strings.
pub open spec fn topology_of(t: JsonValue) -> Option<Map<Seq<char>, Seq<Seq<char>>>> {
    match t {
        JsonValue::Object(members) => if forall|k: Seq<char>| #[trigger]
            members.contains_key(k) ==> texts_of(members[k]) is Some {
            Some(
                Map::new(
                    |k: Seq<char>| members.contains_key(k),
                    |k: Seq<char>| texts_of(members[k]).unwrap(),
                ),
            )
        } else {
            None
        },
        _ => None,
    }
}

/// Reading back the document for a mapping gives the mapping.
pub proof fn lemma_topology_round_trip(t: Map<Seq<char>, Seq<Seq<char>>>)
    ensures
        topology_of(topology_tree(t)) == Some(t),
{
    let members = topology_members(t);
    assert forall|k: Seq<char>| #[trigger] members.contains_key(k) implies texts_of(members[k])
        == Some(t[k]) by {
        lemma_texts_round_trip(t[k]);
    }
    assert(Map::new(
        |k: Seq<char>| members.contains_key(k),
        |k: Seq<char>| texts_of(members[k]).unwrap(),
    ) =~= t);
}

/// The value for a mapping.
pub fn topology_value(t: &Topology) -> (v: serde_json::Value)
    ensures
        tree_of(v) == topology_tree(t@),
{
    let es = t.entries();
    let mut m = map_new();
    let mut i: usize = 0;
    proof {
        assert(fields_of(m) =~= topology_members(entries_map(es@.take(0))));
    }
    while i < es.len()
        invariant
            i <= es.len(),
            distinct_names(es@),
            fields_of(m) == topology_members(entries_map(es@.take(i as int))),
        decreases es.len() - i,
    {
        proof {
            let front = es@.take(i as int);
            let e = es@[i as int];
            assert forall|a: int, b: int| 0 <= a < b < front.len() implies (#[trigger] front[a]).0@
                != (#[trigger] front[b]).0@ by {
                assert(front[a] == es@[a] && front[b] == es@[b]);
            }
            if entries_map(front).contains_key(e.0@) {
                let j = choose|j: int| 0 <= j < front.len() && (#[trigger] front[j]).0@ == e.0@;
                assert(es@[j].0@ == es@[i as int].0@);
            }
            lemma_entry_pushed(front, e);
            assert(front.push(e) =~= es@.take(i + 1));
            assert(topology_members(entries_map(front)).insert(e.0@, texts_tree(text_views(e.1@)))
                =~= topology_members(entries_map(front).insert(e.0@, text_views(e.1@))));
        }
        put_texts(&mut m, es[i].0.as_str(), &es[i].1);
        i += 1;
    }
    proof {
        assert(es@.take(es@.len() as int) =~= es@);
    }
    value_from_map(m)
}

/// Reads a value as a mapping.
pub fn topology_from(v: &serde_json::Value) -> (r: Option<Topology>)
    ensures
        r matches Some(t) ==> topology_of(tree_of(*v)) == Some(t@),
        r is None ==> topology_of(tree_of(*v)) is None,
{
    let m = match value_as_object(v) {
        Some(m) => m,
        None => { return None; },
    };
    let ghost members = fields_of(*m);
    let keys = map_keys(m);
    let mut t = Topology::new();
    let mut i: usize = 0;
    while i < keys.len()
        invariant
            i <= keys.len(),
            members == fields_of(*m),
            tree_of(*v) == JsonValue::Object(members),
            forall|j: int| 0 <= j < keys@.len() ==> members.contains_key(#[trigger] keys@[j]@),
            forall|j: int| 0 <= j < i ==> texts_of(members[#[trigger] keys@[j]@]) is Some,
            t@ =~= Map::new(
                |k: Seq<char>| exists|j: int| 0 <= j < i && #[trigger] keys@[j]@ == k,
                |k: Seq<char>| texts_of(members[k]).unwrap(),
            ),
        decreases keys.len() - i,
    {
        let neighbours = match map_get(m, keys[i].as_str()) {
            Some(value) => texts_from(value),
            None => None,
        };
        match neighbours {
            Some(neighbours) => {
                t.insert(keys[i].clone(), neighbours);
            },
            None => {
                assert(members.contains_key(keys@[i as int]@));
                return None;
            },
        }
        i += 1;
    }
    proof {
        assert forall|k: Seq<char>| #[trigger] members.contains_key(k) implies texts_of(
            members[k],
        ) is Some by {
            let j = choose|j: int| 0 <= j < keys@.len() && keys@[j]@ == k;
            assert(texts_of(members[keys@[j]@]) is Some);
        }
        assert(t@ =~= Map::new(
            |k: Seq<char>| members.contains_key(k),
            |k: Seq<char>| texts_of(members[k]).unwrap(),
        ));
    }
    Some(t)
}

} // verus!
