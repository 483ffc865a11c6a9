//! The table that remembers which label holds which string literal, and
//! the set that remembers which variables have a cell for a float's text.

use vstd::hash_map::StringHashMap;
use vstd::prelude::*;
use vstd::string::*;

verus! {

/// A mapping from string literals to the labels of their blobs: a hash
/// map keyed by the literal.
pub struct LabelTable {
    map: StringHashMap<String>,
}

impl View for LabelTable {
    type V = Map<Seq<char>, Seq<char>>;

    closed spec fn view(&self) -> Map<Seq<char>, Seq<char>> {
        self.map@.map_values(|label: String| label@)
    }
}

impl LabelTable {
    /// A table without labels.
    pub fn new() -> (r: LabelTable)
        ensures
            r@ == Map::<Seq<char>, Seq<char>>::empty(),
    {
        let r = LabelTable { map: StringHashMap::new() };
        assert(r@ =~= Map::<Seq<char>, Seq<char>>::empty());
        r
    }

    /// The label of a literal.
    pub fn get(&self, literal: &str) -> (r: Option<&String>)
        ensures
            match r {
                Some(label) => self@.contains_key(literal@) && label@ == self@[literal@],
                None => !self@.contains_key(literal@),
            },
    {
        self.map.get(literal)
    }

    /// Gives a literal its label.
    pub fn insert(&mut self, literal: String, label: String)
        ensures
            final(self)@ == old(self)@.insert(literal@, label@),
    {
        self.map.insert(literal, label);
        assert(self@ =~= old(self)@.insert(literal@, label@));
    }
}

/// A set of names: a hash map keyed by the name.
pub struct NameSet {
    map: StringHashMap<bool>,
}

impl View for NameSet {
    type V = Set<Seq<char>>;

    closed spec fn view(&self) -> Set<Seq<char>> {
        self.map@.dom()
    }
}

impl NameSet {
    /// A set without names.
    pub fn new() -> (r: NameSet)
        ensures
            r@ == Set::<Seq<char>>::empty(),
    {
        let r = NameSet { map: StringHashMap::new() };
        assert(r@ =~= Set::<Seq<char>>::empty());
        r
    }

    /// Whether a name is in the set.
    pub fn contains(&self, name: &str) -> (r: bool)
        ensures
            r == self@.contains(name@),
    {
        self.map.contains_key(name)
    }

    /// Puts a name into the set.
    pub fn insert(&mut self, name: String)
        ensures
            final(self)@ == old(self)@.insert(name@),
    {
        self.map.insert(name, true);
        assert(self@ =~= old(self)@.insert(name@));
    }
}

} // verus!
