//! A map by text that can be walked.

use vstd::hash_map::StringHashMap;
use vstd::prelude::*;

verus! {

/// Whether `name` stands in `names`.
pub open spec fn named(names: Seq<String>, name: Seq<char>) -> bool {
    exists|i: int| 0 <= i < names.len() && (#[trigger] names[i])@ == name
}

/// Whether `names` lists the keys of `map`, each of them once.
pub open spec fn lists<V>(names: Seq<String>, map: Map<Seq<char>, V>) -> bool {
    &&& forall|i: int, j: int|
        0 <= i < j < names.len() ==> (#[trigger] names[i])@ != (#[trigger] names[j])@
    &&& forall|name: Seq<char>| #[trigger] map.contains_key(name) <==> named(names, name)
}

/// A map by text, with the list of its keys.
#[verifier::reject_recursive_types(V)]
pub struct ListedMap<V> {
    values: StringHashMap<V>,
    names: Vec<String>,
}

impl<V> View for ListedMap<V> {
    type V = Map<Seq<char>, V>;

    closed spec fn view(&self) -> Map<Seq<char>, V> {
        self.values@
    }
}

impl<V> ListedMap<V> {
    #[verifier::type_invariant]
    spec fn is_listed(self) -> bool {
        lists(self.names@, self.values@)
    }

    /// A map without keys.
    pub fn new() -> (r: ListedMap<V>)
        ensures
            r@ == Map::<Seq<char>, V>::empty(),
    {
        ListedMap { values: StringHashMap::new(), names: Vec::new() }
    }

    /// The keys, each of them once.
    pub fn names(&self) -> (r: &Vec<String>)
        ensures
            lists(r@, self@),
    {
        proof {
            use_type_invariant(self);
        }
        &self.names
    }

    /// The value of a key.
    pub fn get(&self, name: &str) -> (r: Option<&V>)
        ensures
            match r {
                Some(value) => self@.contains_key(name@) && *value == self@[name@],
                None => !self@.contains_key(name@),
            },
    {
        self.values.get(name)
    }

    /// Whether there is such a key.
    pub fn contains_key(&self, name: &str) -> (r: bool)
        ensures
            r == self@.contains_key(name@),
    {
        self.values.contains_key(name)
    }

    /// How many keys there are.
    pub fn len(&self) -> (r: usize)
        ensures
            r == self@.len(),
    {
        self.values.len()
    }

    /// The map with one more key, or with another value for it.
    pub fn with(self, name: String, value: V) -> (r: ListedMap<V>)
        ensures
            r@ == self@.insert(name@, value),
    {
        proof {
            use_type_invariant(&self);
        }
        let ListedMap { mut values, mut names } = self;
        let ghost before = names@;
        let ghost known = values@;
        if !values.contains_key(name.as_str()) {
            names.push(name.clone());
            proof {
                assert(names@ =~= before.push(name));
                lemma_name_added(before, name);
            }
        }
        proof {
            assert forall|other: Seq<char>| #[trigger]
                known.insert(name@, value).contains_key(other) <==> named(names@, other) by {
                assert(known.contains_key(other) <==> named(before, other));
            }
        }
        values.insert(name, value);
        ListedMap { values, names }
    }
}

/// A new name adds itself.
proof fn lemma_name_added(names: Seq<String>, name: String)
    ensures
        forall|other: Seq<char>| #[trigger]
            named(names.push(name), other) <==> named(names, other) || other == name@,
{
    let more = names.push(name);
    assert forall|other: Seq<char>| #[trigger]
        named(more, other) <==> named(names, other) || other == name@ by {
        if named(names, other) {
            let i = choose|i: int| 0 <= i < names.len() && (#[trigger] names[i])@ == other;
            assert(more[i]@ == other);
        }
        if other == name@ {
            assert(more[names.len() as int]@ == other);
        }
        if named(more, other) && other != name@ {
            let i = choose|i: int| 0 <= i < more.len() && (#[trigger] more[i])@ == other;
            assert(names[i]@ == other);
        }
    }
}

/// A list of keys names every key of its map, names nothing else, and names none
/// twice.
pub proof fn law_every_key_is_listed_once<V>(
    names: Seq<String>,
    map: Map<Seq<char>, V>,
    name: Seq<char>,
    i: int,
    j: int,
)
    requires
        lists(names, map),
    ensures
        map.contains_key(name) ==> exists|at: int|
            0 <= at < names.len() && (#[trigger] names[at])@ == name,
        0 <= i < names.len() ==> map.contains_key(names[i]@),
        0 <= i < j < names.len() ==> names[i]@ != names[j]@,
{
    if 0 <= i < names.len() {
        assert(named(names, names[i]@));
    }
}

} // verus!
