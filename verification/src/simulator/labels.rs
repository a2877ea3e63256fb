//! The label table: from the name of a label to the address it stands at.

use vstd::hash_map::StringHashMap;
use vstd::prelude::*;

verus! {

/// The address that `table` binds `name` to, if it binds it.
pub open spec fn lookup(table: Map<Seq<char>, usize>, name: Seq<char>) -> Option<usize> {
    if table.contains_key(name) {
        Some(table[name])
    } else {
        None
    }
}

/// A table from label names to instruction addresses.
pub struct Labels {
    table: StringHashMap<usize>,
}

impl View for Labels {
    type V = Map<Seq<char>, usize>;

    closed spec fn view(&self) -> Map<Seq<char>, usize> {
        self.table@
    }
}

impl Labels {
    /// A table that binds no name.
    pub fn new() -> (labels: Labels)
        ensures
            labels@ == Map::<Seq<char>, usize>::empty(),
    {
        Labels { table: StringHashMap::new() }
    }

    /// Binds `name` to `address`. An earlier binding of the name is lost.
    pub fn insert(&mut self, name: String, address: usize)
        ensures
            final(self)@ == old(self)@.insert(name@, address),
    {
        self.table.insert(name, address);
    }

    /// The address that `name` is bound to.
    pub fn get(&self, name: &str) -> (address: Option<usize>)
        ensures
            address == lookup(self@, name@),
    {
        match self.table.get(name) {
            Some(address) => Some(*address),
            None => None,
        }
    }

    /// How many names the table binds.
    pub fn len(&self) -> (n: usize)
        ensures
            n == self@.len(),
    {
        self.table.len()
    }
}

} // verus!
