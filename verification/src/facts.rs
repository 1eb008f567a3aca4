//! Schema facts that a host supplies in place of reading data files.
use vstd::prelude::*;

use crate::assoc::{copy_entries, entry_map, keys_unique, lookup_entry, put_entry};
use crate::text::{copy_str, copy_strings, strings_view};

verus! {

/// A host's knowledge of the column names of data files, by path.
pub trait ExternalFacts {
    /// The column names of the file at `path`, where known.
    fn schema_for_path(&self, path: &str) -> Option<Vec<String>>;
}

/// Schema facts held in memory.
#[derive(Debug, Eq, PartialEq)]
pub struct InMemoryFacts {
    schemas: Vec<(String, Vec<String>)>,
}

impl InMemoryFacts {
    #[verifier::type_invariant]
    spec fn well_formed(self) -> bool {
        keys_unique(self.schemas@)
    }

    /// The facts as a map from path to column names.
    pub closed spec fn facts(self) -> Map<Seq<char>, Seq<Seq<char>>> {
        entry_map(self.schemas@).map_values(|v: Vec<String>| strings_view(v@))
    }

    /// These facts with `columns` recorded for `path`, replacing any earlier
    /// record for it.
    pub fn with_schema(self, path: &str, columns: Vec<String>) -> (r: Self)
        ensures
            r.facts() == self.facts().insert(path@, strings_view(columns@)),
    {
        proof {
            use_type_invariant(&self);
        }
        let ghost before = self.facts();
        let mut schemas = self.schemas;
        let ghost old_entries = schemas@;
        put_entry(&mut schemas, copy_str(path), columns);
        let r = InMemoryFacts { schemas };
        assert(r.facts() =~= before.insert(path@, strings_view(columns@)));
        r
    }
}

impl Clone for InMemoryFacts {
    fn clone(&self) -> (r: Self)
        ensures
            r.facts() == self.facts(),
    {
        proof {
            use_type_invariant(self);
        }
        let schemas = copy_entries(&self.schemas);
        InMemoryFacts { schemas }
    }
}

impl Default for InMemoryFacts {
    fn default() -> (r: Self)
        ensures
            r.facts() == Map::<Seq<char>, Seq<Seq<char>>>::empty(),
    {
        let r = InMemoryFacts { schemas: Vec::new() };
        assert(r.facts() =~= Map::<Seq<char>, Seq<Seq<char>>>::empty());
        r
    }
}

impl ExternalFacts for InMemoryFacts {
    fn schema_for_path(&self, path: &str) -> (r: Option<Vec<String>>)
        ensures
            match r {
                Some(v) => self.facts().contains_key(path@) && strings_view(v@) == self.facts()[path@],
                None => !self.facts().contains_key(path@),
            },
    {
        proof {
            use_type_invariant(self);
        }
        match lookup_entry(&self.schemas, path) {
            Some(v) => Some(copy_strings(v.as_slice())),
            None => None,
        }
    }
}

/// What is recorded for a path is what is read back for it; other paths
/// keep what they had.
pub proof fn lemma_facts_read_after_write(
    facts: Map<Seq<char>, Seq<Seq<char>>>,
    path: Seq<char>,
    columns: Seq<Seq<char>>,
    other: Seq<char>,
)
    requires
        other != path,
    ensures
        facts.insert(path, columns).contains_key(path),
        facts.insert(path, columns)[path] == columns,
        facts.insert(path, columns).contains_key(other) == facts.contains_key(other),
        facts.contains_key(other) ==> facts.insert(path, columns)[other] == facts[other],
{
}

} // verus!
