//! The schema service handed to callers: it owns the registry and
//! validates stores against it.  Callers that share it across tasks
//! wrap it in their own lock.

use vstd::prelude::*;

use crate::registry::{reg_get, Registry};
use crate::schema::Schema;
use crate::validator::{spec_validate_store, SpecVErr, Validator, ValidatorError};
use crate::value_store::ValueStore;

verus! {

/// The schemas one validation run needs, resolved up front: the
/// store's own schema and one schema per declared nested property.
#[derive(Debug)]
pub struct ValidationDescriptor {
    pub main: Schema,
    pub properties: Vec<(String, Schema)>,
}

impl ValidationDescriptor {
    /// The schema validating the store itself.
    pub fn main(&self) -> (r: &Schema)
        ensures
            r == &self.main,
    {
        &self.main
    }

    /// The resolved schema of each declared nested property.
    pub fn properties(&self) -> (r: &Vec<(String, Schema)>)
        ensures
            r == &self.properties,
    {
        &self.properties
    }
}

/// Owns the registry; registration and validation go through it.
#[derive(Debug)]
pub struct SchemaManager {
    pub registry: Registry,
}

impl SchemaManager {
    /// A manager over an already loaded registry.
    pub fn new(registry: Registry) -> (r: Self)
        ensures
            r.registry@ == registry@,
    {
        SchemaManager { registry }
    }

    /// Upsert a schema under a name.
    pub fn register(&mut self, name: &str, schema: Schema)
        ensures
            reg_get(final(self).registry@, name@) == Some(schema@),
            forall|n2: Seq<char>| n2 != name@ ==> reg_get(final(self).registry@, n2) == reg_get(
                old(self).registry@,
                n2,
            ),
    {
        self.registry.register(name, schema);
    }

    /// The registry itself, for direct lookups.
    pub fn registry(&self) -> (r: &Registry)
        ensures
            r == &self.registry,
    {
        &self.registry
    }

    /// Resolve up front every schema a validation of the store would
    /// consult: the store's own schema and one per declared nested
    /// property, present in the store or not.  The first name that
    /// does not resolve names the error.
    #[verifier::loop_isolation(false)]
    pub fn descriptor(&self, value: &ValueStore) -> (r: Result<
        ValidationDescriptor,
        ValidatorError,
    >)
        ensures
            match r {
                Ok(d) => (value@.schema_name matches Some(n) && reg_get(self.registry@, n) == Some(
                    d.main@,
                )) && crate::registry::spec_reg(d.properties@).len() == value@.props.len() && (
                forall|j: int|
                    0 <= j < value@.props.len() ==> {
                        let p = #[trigger] value@.props[j];
                        let q = crate::registry::spec_reg(d.properties@)[j];
                        q.0 == p.0 && reg_get(self.registry@, p.1) == Some(q.1)
                    }),
                Err(e) => (value@.schema_name is None && e@
                    == crate::validator::SpecVErr::SchemaIdentifierMissing) || (
                value@.schema_name matches Some(n) && reg_get(self.registry@, n) is None && e@
                    == crate::validator::SpecVErr::SchemaNotFound(n)) || (exists|j: int|
                    0 <= j < value@.props.len() && reg_get(
                        self.registry@,
                        (#[trigger] value@.props[j]).1,
                    ) is None && e@ == crate::validator::SpecVErr::SchemaNotFound(
                        value@.props[j].1,
                    )),
            },
    {
        let name = match value.schema_name() {
            Some(n) => n,
            None => {
                return Err(ValidatorError::SchemaIdentifierMissing);
            },
        };
        let main = match self.registry.get_schema(name.as_str()) {
            Some(s) => s.clone(),
            None => {
                return Err(ValidatorError::SchemaNotFound(name.clone()));
            },
        };
        let props = value.object_properties_schemas();
        let n = props.len();
        let mut out: Vec<(String, Schema)> = Vec::new();
        let mut i: usize = 0;
        proof {
            crate::value_store::lemma_spec_props_len(props@);
        }
        while i < n
            invariant
                i <= n,
                crate::registry::spec_reg(out@).len() == i,
                forall|j: int|
                    0 <= j < i ==> {
                        let p = #[trigger] value@.props[j];
                        let q = crate::registry::spec_reg(out@)[j];
                        q.0 == p.0 && reg_get(self.registry@, p.1) == Some(q.1)
                    },
            decreases n - i,
        {
            proof {
                crate::value_store::lemma_spec_props_index(props@, i as int);
            }
            let schema = match self.registry.get_schema(props[i].1.as_str()) {
                Some(s) => s.clone(),
                None => {
                    return Err(ValidatorError::SchemaNotFound(props[i].1.clone()));
                },
            };
            let key = props[i].0.clone();
            let ghost prev = out@;
            out.push((key, schema));
            proof {
                crate::registry::lemma_spec_reg_push(prev, out@.last());
                assert forall|j: int|
                    0 <= j < i + 1 implies {
                    let p = #[trigger] value@.props[j];
                    let q = crate::registry::spec_reg(out@)[j];
                    q.0 == p.0 && reg_get(self.registry@, p.1) == Some(q.1)
                } by {
                    if j < i {
                        assert(crate::registry::spec_reg(out@)[j] == crate::registry::spec_reg(
                            prev,
                        )[j]);
                    }
                }
            }
            i = i + 1;
        }
        Ok(ValidationDescriptor { main, properties: out })
    }

    /// Validate a store against the schema it names, resolving that
    /// name and the names of the declared nested schemas here.
    pub fn validate(&self, value: &ValueStore) -> (r: Result<(), ValidatorError>)
        ensures
            match r {
                Ok(_) => spec_validate_store(self.registry@, value@) == Ok::<(), SpecVErr>(()),
                Err(e) => spec_validate_store(self.registry@, value@) == Err::<(), SpecVErr>(e@),
            },
    {
        let validator = Validator::new(&self.registry);
        validator.validate(value)
    }
}

} // verus!
