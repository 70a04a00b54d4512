//! The schema manager: the one compiled schema that is current for each
//! namespace. A schema is replaced whole, and only by one that compiled.

use vstd::prelude::*;
use vstd::string::*;
use crate::error::{ApiError, ApiFault, CompileFault};
use crate::schema::{schema_of_text, Schema, SchemaSpec};
use crate::text::text_eq;

verus! {

/// The schemas of a service, one per namespace at most.
pub struct SchemaManager {
    schemas: Vec<Schema>,
}

/// The map from namespace to schema after `text` was offered as the new
/// schema of `namespace`: the text's schema stands in for the old one where
/// it compiles, and nothing changes where it does not.
pub open spec fn installed(
    before: Map<Seq<char>, SchemaSpec>,
    namespace: Seq<char>,
    text: Seq<char>,
) -> Map<Seq<char>, SchemaSpec> {
    match schema_of_text(namespace, text) {
        Ok(schema) => before.insert(namespace, schema),
        Err(_) => before,
    }
}

/// Whoever loads a schema after an install finds, for every namespace, the
/// schema that was there before or the one that the new text compiles to,
/// each as a whole; for namespaces other than the one installed, always the
/// former.
pub proof fn lemma_install_swaps_whole(
    before: Map<Seq<char>, SchemaSpec>,
    namespace: Seq<char>,
    text: Seq<char>,
    reader: Seq<char>,
)
    ensures
        ({
            let after = installed(before, namespace, text);
            if reader == namespace && schema_of_text(namespace, text) is Ok {
                after.contains_key(reader) && schema_of_text(namespace, text) == Ok::<
                    SchemaSpec,
                    CompileFault,
                >(after[reader])
            } else {
                after.contains_key(reader) == before.contains_key(reader) && (after.contains_key(
                    reader,
                ) ==> after[reader] == before[reader])
            }
        }),
{
}

impl SchemaManager {
    /// The schemas that the manager holds, in the order of their first install.
    spec fn entries(&self) -> Seq<SchemaSpec> {
        self.schemas@.map_values(|schema: Schema| schema@)
    }

    /// Whether the schema at `at` is that of the namespace.
    spec fn holds(&self, namespace: Seq<char>, at: int) -> bool {
        0 <= at < self.entries().len() && self.entries()[at].namespace == namespace
    }

    /// The invariant of a manager: no namespace has two schemas.
    pub closed spec fn wf(&self) -> bool {
        forall|i: int, j: int|
            0 <= i < j < self.entries().len() ==> (#[trigger] self.entries()[i]).namespace != (
            #[trigger] self.entries()[j]).namespace
    }
}

impl View for SchemaManager {
    type V = Map<Seq<char>, SchemaSpec>;

    closed spec fn view(&self) -> Map<Seq<char>, SchemaSpec> {
        Map::new(
            |namespace: Seq<char>| exists|at: int| self.holds(namespace, at),
            |namespace: Seq<char>| self.entries()[choose|at: int| self.holds(namespace, at)],
        )
    }
}

impl SchemaManager {
    /// A manager without any schema.
    pub fn new() -> (manager: SchemaManager)
        ensures
            manager.wf(),
            manager@ == Map::<Seq<char>, SchemaSpec>::empty(),
    {
        let manager = SchemaManager { schemas: Vec::new() };
        assert(manager@ =~= Map::<Seq<char>, SchemaSpec>::empty());
        manager
    }

    /// Where the schema of the namespace is held.
    fn position(&self, namespace: &str) -> (found: Option<usize>)
        requires
            self.wf(),
        ensures
            match found {
                Some(at) => self.holds(namespace@, at as int) && self@.contains_key(namespace@)
                    && self@[namespace@] == self.entries()[at as int],
                None => !self@.contains_key(namespace@) && forall|at: int|
                    !self.holds(namespace@, at),
            },
    {
        let mut i: usize = 0;
        while i < self.schemas.len()
            invariant
                i <= self.schemas.len(),
                self.wf(),
                forall|at: int| 0 <= at < i ==> !self.holds(namespace@, at),
            decreases self.schemas.len() - i,
        {
            if text_eq(self.schemas[i].namespace.as_str(), namespace) {
                assert(self.holds(namespace@, i as int));
                let ghost chosen = choose|at: int| self.holds(namespace@, at);
                assert(chosen == i);
                return Some(i);
            }
            i += 1;
        }
        None
    }

    /// A copy of the schema that is current for the namespace. Fails with
    /// `NotFound`, which names the namespace, where none was ever installed.
    pub fn load_schema(&self, namespace: &str) -> (loaded: Result<Schema, ApiError>)
        requires
            self.wf(),
        ensures
            loaded is Ok <==> self@.contains_key(namespace@),
            loaded matches Ok(schema) ==> schema@ == self@[namespace@],
            loaded matches Err(e) ==> e@ == ApiFault::NotFound(namespace@),
    {
        match self.position(namespace) {
            Some(at) => Ok(self.schemas[at].duplicate()),
            None => Err(ApiError::NotFound(String::from_str(namespace))),
        }
    }

    /// Compiles `text` and makes the result the current schema of the
    /// namespace. Where the text does not compile the call fails with the
    /// compiler's reason and every schema stays as it was.
    pub fn new_schema(&mut self, namespace: &str, text: &str) -> (done: Result<(), ApiError>)
        requires
            old(self).wf(),
        ensures
            final(self).wf(),
            final(self)@ == installed(old(self)@, namespace@, text@),
            match schema_of_text(namespace@, text@) {
                Ok(_) => done is Ok,
                Err(fault) => done matches Err(e) && e@ == ApiFault::Compile(fault),
            },
    {
        let schema = match Schema::compile(namespace, text) {
            Ok(schema) => schema,
            Err(e) => {
                return Err(ApiError::Compile(e));
            },
        };
        let ghost before = self.entries();
        let ghost target = old(self)@.insert(namespace@, schema@);
        match self.position(namespace) {
            Some(at) => {
                self.schemas.set(at, schema);
                proof {
                    assert(self.entries() =~= before.update(at as int, schema@));
                    assert forall|name: Seq<char>| #[trigger]
                        target.contains_key(name) implies self@.contains_key(name) && self@[name]
                        == target[name] by {
                        let k = if name == namespace@ {
                            at as int
                        } else {
                            choose|k: int| old(self).holds(name, k)
                        };
                        assert(self.holds(name, k));
                        let chosen = choose|c: int| self.holds(name, c);
                        assert(chosen == k);
                    }
                    assert forall|name: Seq<char>| #[trigger]
                        self@.contains_key(name) implies target.contains_key(name) by {
                        let k = choose|k: int| self.holds(name, k);
                        if k != at {
                            assert(old(self).holds(name, k));
                        }
                    }
                    assert(self@ =~= target);
                }
            },
            None => {
                self.schemas.push(schema);
                proof {
                    let last = before.len() as int;
                    assert(self.entries() =~= before.push(schema@));
                    assert forall|i: int, j: int| 0 <= i < j < self.entries().len() implies (
                    #[trigger] self.entries()[i]).namespace != (
                    #[trigger] self.entries()[j]).namespace by {
                        if j == last {
                            assert(!old(self).holds(namespace@, i));
                        }
                    }
                    assert forall|name: Seq<char>| #[trigger]
                        target.contains_key(name) implies self@.contains_key(name) && self@[name]
                        == target[name] by {
                        let k = if name == namespace@ {
                            last
                        } else {
                            choose|k: int| old(self).holds(name, k)
                        };
                        assert(self.holds(name, k));
                        let chosen = choose|c: int| self.holds(name, c);
                        assert(chosen == k);
                    }
                    assert forall|name: Seq<char>| #[trigger]
                        self@.contains_key(name) implies target.contains_key(name) by {
                        let k = choose|k: int| self.holds(name, k);
                        if k != last {
                            assert(old(self).holds(name, k));
                        }
                    }
                    assert(self@ =~= target);
                }
            },
        }
        Ok(())
    }
}

} // verus!
