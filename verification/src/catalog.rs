use vstd::prelude::*;
use crate::table::{spec_get, StrTable};

verus! {

/// The SQL catalog: a table from name to a handle of the registered
/// table's plan.  Plans themselves live with the application layer; the
/// catalog's logic is the name resolution.
#[derive(Debug)]
pub struct SQLCatalog {
    pub tables: StrTable<u64>,
}

impl SQLCatalog {
    /// The catalog's invariant.
    pub open spec fn wf(&self) -> bool {
        self.tables.wf()
    }

    /// An empty catalog.
    pub fn new() -> (r: Self)
        ensures
            r.wf(),
            r.tables.pairs@.len() == 0,
    {
        SQLCatalog { tables: StrTable::new() }
    }

    /// Register a table under `name`, replacing any earlier registration.
    pub fn register_table(&mut self, name: &str, plan: u64)
        requires
            old(self).wf(),
        ensures
            final(self).wf(),
            spec_get(final(self).tables.pairs@, name@) == Some(plan),
            forall|k2: Seq<char>|
                k2 != name@ ==> #[trigger] spec_get(final(self).tables.pairs@, k2) == spec_get(
                    old(self).tables.pairs@,
                    k2,
                ),
    {
        let ghost t0 = self.tables.pairs@;
        self.tables.insert(name.to_owned(), plan);
        proof {
            assert forall|k2: Seq<char>| k2 != name@ implies #[trigger] spec_get(
                self.tables.pairs@,
                k2,
            ) == spec_get(t0, k2) by {
                assert(self.tables.spec_index(k2) == spec_get(t0, k2));
            };
        }
    }

    /// The plan handle registered under `name`, if any.
    pub fn get_table(&self, name: &String) -> (r: Option<&u64>)
        requires
            self.wf(),
        ensures
            match r {
                Some(p) => spec_get(self.tables.pairs@, name@) == Some(*p),
                None => spec_get(self.tables.pairs@, name@) is None,
            },
    {
        self.tables.get(name)
    }

    /// Copy every registration of `other` into this catalog; on a name
    /// held by both, `other`'s registration wins.
    pub fn copy_from(&mut self, other: &SQLCatalog)
        requires
            old(self).wf(),
            other.wf(),
        ensures
            final(self).wf(),
            forall|k: Seq<char>|
                #[trigger] spec_get(final(self).tables.pairs@, k) == (match spec_get(
                    other.tables.pairs@,
                    k,
                ) {
                    Some(p) => Some(p),
                    None => spec_get(old(self).tables.pairs@, k),
                }),
    {
        let ghost t0 = self.tables.pairs@;
        let ghost o = other.tables.pairs@;
        let mut i: usize = 0;
        while i < other.tables.pairs.len()
            invariant
                self.wf(),
                other.wf(),
                t0 == old(self).tables.pairs@,
                o == other.tables.pairs@,
                i <= o.len(),
                forall|k: Seq<char>|
                    #[trigger] spec_get(self.tables.pairs@, k) == (match spec_get(
                        o.take(i as int),
                        k,
                    ) {
                        Some(p) => Some(p),
                        None => spec_get(t0, k),
                    }),
            decreases o.len() - i,
        {
            let ghost before = self.tables.pairs@;
            let name = other.tables.pairs[i].0.as_str().to_owned();
            let plan = other.tables.pairs[i].1;
            self.tables.insert(name, plan);
            proof {
                let ghost k0 = o[i as int].0@;
                // in the longer prefix, the new entry decides exactly key k0
                assert(o.take(i + 1).drop_last() =~= o.take(i as int));
                assert(o.take(i + 1).last() == o[i as int]);
                assert forall|k: Seq<char>| #[trigger] spec_get(self.tables.pairs@, k) == (
                match spec_get(o.take(i + 1), k) {
                    Some(p) => Some(p),
                    None => spec_get(t0, k),
                }) by {
                    crate::table::lemma_idx_of_props(o.take(i + 1), k);
                    crate::table::lemma_idx_of_props(o.take(i as int), k);
                    let fl = crate::table::idx_of(o.take(i + 1), k);
                    let fs = crate::table::idx_of(o.take(i as int), k);
                    if k == k0 {
                        assert(self.tables.spec_index(k) == Some(plan));
                        crate::table::lemma_get_at(o.take(i + 1), i as int);
                        assert(o.take(i + 1)[i as int] == o[i as int]);
                        assert(spec_get(o.take(i + 1), k) == Some(o[i as int].1));
                    } else {
                        assert(self.tables.spec_index(k) == spec_get(before, k));
                        // the added entry does not carry k, so both
                        // prefixes agree on it
                        if fl == -1 && fs == -1 {
                        } else if fl == -1 {
                            assert(o.take(i as int)[fs] == o.take(i + 1)[fs]);
                            assert(o.take(i + 1)[fs].0@ != k);
                            assert(false);
                        } else {
                            assert(fl < i + 1);
                            if fl == i as int {
                                assert(o.take(i + 1)[fl] == o[i as int]);
                                assert(false);
                            }
                            assert(o.take(i + 1)[fl] == o.take(i as int)[fl]);
                            if fs == -1 {
                                assert(o.take(i as int)[fl].0@ != k);
                                assert(false);
                            }
                            if fs < fl {
                                assert(o.take(i + 1)[fs] == o.take(i as int)[fs]);
                                assert(o.take(i + 1)[fs].0@ != k);
                                assert(false);
                            }
                            if fl < fs {
                                assert(o.take(i as int)[fl].0@ != k);
                                assert(false);
                            }
                            assert(spec_get(o.take(i + 1), k) == spec_get(o.take(i as int), k));
                        }
                    }
                };
            }
            i = i + 1;
        }
        proof {
            assert(o.take(o.len() as int) =~= o);
        }
    }
}

/// The embedding-facing face of the catalog, as the host bindings use it:
/// construction, table registration, and bulk copy.
#[derive(Debug)]
pub struct PyCatalog {
    pub catalog: SQLCatalog,
}

impl PyCatalog {
    /// Construct an empty catalog.
    pub fn new() -> (r: Self)
        ensures
            r.catalog.wf(),
            r.catalog.tables.pairs@.len() == 0,
    {
        PyCatalog { catalog: SQLCatalog::new() }
    }

    /// Register a table (by its plan handle) with the catalog.
    pub fn register_table(&mut self, name: &str, plan: u64)
        requires
            old(self).catalog.wf(),
        ensures
            final(self).catalog.wf(),
            spec_get(final(self).catalog.tables.pairs@, name@) == Some(plan),
            forall|k2: Seq<char>|
                k2 != name@ ==> #[trigger] spec_get(final(self).catalog.tables.pairs@, k2)
                    == spec_get(old(self).catalog.tables.pairs@, k2),
    {
        self.catalog.register_table(name, plan);
    }

    /// Copy from another catalog, using tables from `other` in case of
    /// conflict.
    pub fn copy_from(&mut self, other: &Self)
        requires
            old(self).catalog.wf(),
            other.catalog.wf(),
        ensures
            final(self).catalog.wf(),
            forall|k: Seq<char>|
                #[trigger] spec_get(final(self).catalog.tables.pairs@, k) == (match spec_get(
                    other.catalog.tables.pairs@,
                    k,
                ) {
                    Some(p) => Some(p),
                    None => spec_get(old(self).catalog.tables.pairs@, k),
                }),
    {
        self.catalog.copy_from(&other.catalog);
    }
}

impl Default for PyCatalog {
    /// An empty catalog.
    fn default() -> (r: Self)
        ensures
            r.catalog.wf(),
            r.catalog.tables.pairs@.len() == 0,
    {
        PyCatalog::new()
    }
}

} // verus!
