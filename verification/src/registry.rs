use vstd::prelude::*;
use crate::dtype::DataType;
use crate::table::{spec_get, StrTable};

verus! {

/// Handle to a value owned by the host-language runtime (a callable, or a
/// bundle of initialization arguments).  The engine never looks inside;
/// the application layer maps handles to the real host objects.
#[derive(Clone, Copy, Debug, PartialEq, Eq, Structural)]
pub struct HostObjectRef {
    pub id: u64,
}

/// Resource hints carried by a registered function: fractional CPU and
/// GPU demands in thousandths, and a memory bound in bytes.
#[derive(Clone, Copy, Debug, PartialEq, Eq, Structural)]
pub struct ResourceRequest {
    pub num_cpus_milli: Option<u64>,
    pub num_gpus_milli: Option<u64>,
    pub memory_bytes: Option<u64>,
}

/// A host-language user-defined function registered for use from SQL: the
/// opaque callable and its initialization arguments, the declared return
/// element type, and the optional execution hints.
pub struct SQLPythonFunction {
    pub name: String,
    pub inner: HostObjectRef,
    pub return_dtype: DataType,
    pub init_args: HostObjectRef,
    pub resource_request: Option<ResourceRequest>,
    pub batch_size: Option<usize>,
    pub concurrency: Option<usize>,
}

/// What the introspection surface reports of one registered function.
pub struct SQLFunctionStub {
    pub name: String,
    pub docstring: String,
    pub arg_names: Vec<String>,
}

impl SQLFunctionStub {
    /// The function's registered name.
    pub fn name(&self) -> (r: &String)
        ensures
            r@ == self.name@,
    {
        &self.name
    }

    /// The function's docstring.
    pub fn docstring(&self) -> (r: &String)
        ensures
            r@ == self.docstring@,
    {
        &self.docstring
    }

    /// The declared argument names.
    pub fn arg_names(&self) -> (r: &Vec<String>)
        ensures
            r@ == self.arg_names@,
    {
        &self.arg_names
    }
}

/// The function registry: one table from name to the registered function,
/// and a parallel table from name to (docstring, argument names).  Both
/// tables always carry exactly the same names, so introspection never
/// meets a name without metadata.
pub struct SQLFunctions {
    pub map: StrTable<SQLPythonFunction>,
    pub docsmap: StrTable<(String, Vec<String>)>,
}

impl SQLFunctions {
    /// The registry's invariant: well-formed tables over one set of names.
    pub open spec fn wf(&self) -> bool {
        &&& self.map.wf()
        &&& self.docsmap.wf()
        &&& self.map.pairs@.len() == self.docsmap.pairs@.len()
        &&& forall|i: int|
            0 <= i < self.map.pairs@.len() ==> (#[trigger] self.map.pairs@[i]).0@
                == self.docsmap.pairs@[i].0@
    }

    /// An empty registry.
    pub fn new() -> (r: Self)
        ensures
            r.wf(),
            r.map.pairs@.len() == 0,
    {
        SQLFunctions { map: StrTable::new(), docsmap: StrTable::new() }
    }

    /// Register a host-language UDF under `name`, replacing any earlier
    /// registration of that name.  The metadata table receives an empty
    /// docstring and argument list for it.
    pub fn register_sql_udf(
        &mut self,
        name: &str,
        inner: HostObjectRef,
        return_dtype: DataType,
        init_args: HostObjectRef,
        resource_request: Option<ResourceRequest>,
        batch_size: Option<usize>,
        concurrency: Option<usize>,
    )
        requires
            old(self).wf(),
        ensures
            final(self).wf(),
            ({
                let f = spec_get(final(self).map.pairs@, name@);
                &&& f matches Some(g)
                &&& g.name@ == name@
                &&& g.inner == inner
                &&& g.return_dtype == return_dtype
                &&& g.init_args == init_args
                &&& g.resource_request == resource_request
                &&& g.batch_size == batch_size
                &&& g.concurrency == concurrency
            }),
            ({
                let d = spec_get(final(self).docsmap.pairs@, name@);
                &&& d matches Some(doc)
                &&& doc.0@ == Seq::<char>::empty()
                &&& doc.1@.len() == 0
            }),
            forall|k2: Seq<char>|
                k2 != name@ ==> #[trigger] spec_get(final(self).map.pairs@, k2) == spec_get(
                    old(self).map.pairs@,
                    k2,
                ),
            forall|k2: Seq<char>|
                k2 != name@ ==> #[trigger] spec_get(final(self).docsmap.pairs@, k2) == spec_get(
                    old(self).docsmap.pairs@,
                    k2,
                ),
    {
        let func = SQLPythonFunction {
            name: name.to_owned(),
            inner,
            return_dtype,
            init_args,
            resource_request,
            batch_size,
            concurrency,
        };
        let ghost n0 = self.map.pairs@.len() as int;
        let ghost m0 = self.map.pairs@;
        let ghost d0 = self.docsmap.pairs@;
        let ghost hit = crate::table::idx_of(m0, name@);
        proof {
            crate::table::lemma_idx_of_props(m0, name@);
            crate::table::lemma_idx_of_props(d0, name@);
            let h2 = crate::table::idx_of(d0, name@);
            if hit == -1 {
                if h2 != -1 {
                    assert(m0[h2].0@ != name@);
                    assert(false);
                }
            } else {
                if h2 == -1 {
                    assert(d0[hit].0@ != name@);
                    assert(false);
                }
                if h2 < hit {
                    assert(m0[h2].0@ != name@);
                    assert(d0[h2].0@ == name@);
                    assert(false);
                }
                if hit < h2 {
                    assert(d0[hit].0@ != name@);
                    assert(m0[hit].0@ == name@);
                    assert(false);
                }
            }
            assert(h2 == hit);
        }
        self.map.insert(name.to_owned(), func);
        self.docsmap.insert(name.to_owned(), (String::new(), Vec::new()));
        proof {
            assert forall|k2: Seq<char>| k2 != name@ implies #[trigger] spec_get(
                self.map.pairs@,
                k2,
            ) == spec_get(m0, k2) by {
                assert(self.map.spec_index(k2) == spec_get(m0, k2));
            };
            assert forall|k2: Seq<char>| k2 != name@ implies #[trigger] spec_get(
                self.docsmap.pairs@,
                k2,
            ) == spec_get(d0, k2) by {
                assert(self.docsmap.spec_index(k2) == spec_get(d0, k2));
            };
            assert forall|i: int| 0 <= i < self.map.pairs@.len() implies (
            #[trigger] self.map.pairs@[i]).0@ == self.docsmap.pairs@[i].0@ by {
                if hit == -1 {
                    assert(self.map.pairs@.len() == n0 + 1);
                    if i < n0 {
                        assert(self.map.pairs@[i] == m0[i]);
                        assert(self.docsmap.pairs@[i] == d0[i]);
                    }
                } else {
                    if i != hit {
                        assert(self.map.pairs@[i] == m0[i]);
                        assert(self.docsmap.pairs@[i] == d0[i]);
                    }
                }
            };
        }
    }

    /// The introspection surface: one stub per registered name, in
    /// registration order, carrying the name with its docstring and
    /// argument names from the metadata table.
    pub fn list_sql_functions(&self) -> (r: Vec<SQLFunctionStub>)
        requires
            self.wf(),
        ensures
            r@.len() == self.map.pairs@.len(),
            forall|i: int|
                0 <= i < r@.len() ==> {
                    let entry = self.docsmap.pairs@[i];
                    &&& (#[trigger] r@[i]).name@ == self.map.pairs@[i].0@
                    &&& r@[i].docstring@ == entry.1.0@
                    &&& r@[i].arg_names@.len() == entry.1.1@.len()
                    &&& forall|j: int|
                        0 <= j < entry.1.1@.len() ==> (#[trigger] r@[i].arg_names@[j])@
                            == entry.1.1@[j]@
                },
    {
        let mut out: Vec<SQLFunctionStub> = Vec::new();
        let mut i: usize = 0;
        while i < self.map.pairs.len()
            invariant
                self.wf(),
                i <= self.map.pairs@.len(),
                out@.len() == i,
                forall|i2: int|
                    0 <= i2 < i ==> {
                        let entry = self.docsmap.pairs@[i2];
                        &&& (#[trigger] out@[i2]).name@ == self.map.pairs@[i2].0@
                        &&& out@[i2].docstring@ == entry.1.0@
                        &&& out@[i2].arg_names@.len() == entry.1.1@.len()
                        &&& forall|j: int|
                            0 <= j < entry.1.1@.len() ==> (#[trigger] out@[i2].arg_names@[j])@
                                == entry.1.1@[j]@
                    },
            decreases self.map.pairs@.len() - i,
        {
            let name = self.map.pairs[i].0.as_str().to_owned();
            let docstring = self.docsmap.pairs[i].1.0.as_str().to_owned();
            let mut arg_names: Vec<String> = Vec::new();
            let mut j: usize = 0;
            while j < self.docsmap.pairs[i].1.1.len()
                invariant
                    i < self.docsmap.pairs@.len(),
                    j <= self.docsmap.pairs@[i as int].1.1@.len(),
                    arg_names@.len() == j,
                    forall|j2: int|
                        0 <= j2 < j ==> (#[trigger] arg_names@[j2])@ == self.docsmap.pairs@[i as int].1.1@[j2]@,
                decreases self.docsmap.pairs@[i as int].1.1@.len() - j,
            {
                arg_names.push(self.docsmap.pairs[i].1.1[j].as_str().to_owned());
                j = j + 1;
            }
            out.push(SQLFunctionStub { name, docstring, arg_names });
            i = i + 1;
        }
        out
    }
}

/// A module of SQL functions: its `register` hook adds the module's
/// functions to a registry.
pub trait SQLModule {
    fn register(parent: &mut SQLFunctions);
}

/// The host-language module.  Its built-in functions are registered
/// individually through [`SQLFunctions::register_sql_udf`], so the module
/// hook itself has nothing to add.
pub struct SQLModulePython;

impl SQLModule for SQLModulePython {
    fn register(_parent: &mut SQLFunctions) {
    }
}

} // verus!
