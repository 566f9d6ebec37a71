//! The in-memory name-to-schema lookup service.  Registration is an
//! unconditional upsert: the last write under a name wins.

use vstd::prelude::*;

use crate::schema::{Schema, SpecSchema};
use crate::value::str_eq;

verus! {

/// Model of the registry: name/schema pairs, pair by pair.
pub open spec fn spec_reg(rs: Seq<(String, Schema)>) -> Seq<(Seq<char>, SpecSchema)>
    decreases rs,
{
    if rs.len() == 0 {
        Seq::empty()
    } else {
        spec_reg(rs.drop_last()).push((rs.last().0@, rs.last().1@))
    }
}

/// Lookup by name: the first pair that matches.
pub open spec fn reg_get(rs: Seq<(Seq<char>, SpecSchema)>, name: Seq<char>) -> Option<SpecSchema>
    decreases rs,
{
    if rs.len() == 0 {
        None
    } else if rs.first().0 == name {
        Some(rs.first().1)
    } else {
        reg_get(rs.drop_first(), name)
    }
}

/// The model of a pair list has the list's length.
pub proof fn lemma_spec_reg_len(rs: Seq<(String, Schema)>)
    ensures
        spec_reg(rs).len() == rs.len(),
    decreases rs.len(),
{
    if rs.len() > 0 {
        lemma_spec_reg_len(rs.drop_last());
    }
}

/// The model of a pair list indexes pointwise.
pub proof fn lemma_spec_reg_index(rs: Seq<(String, Schema)>, i: int)
    requires
        0 <= i < rs.len(),
    ensures
        spec_reg(rs).len() == rs.len(),
        spec_reg(rs)[i] == (rs[i].0@, rs[i].1@),
    decreases rs.len(),
{
    lemma_spec_reg_len(rs);
    lemma_spec_reg_len(rs.drop_last());
    if i < rs.len() - 1 {
        assert(rs.drop_last()[i] == rs[i]);
        lemma_spec_reg_index(rs.drop_last(), i);
    }
}

/// Appending a pair extends the model.
pub proof fn lemma_spec_reg_push(rs: Seq<(String, Schema)>, p: (String, Schema))
    ensures
        spec_reg(rs.push(p)) == spec_reg(rs).push((p.0@, p.1@)),
{
    assert(rs.push(p).drop_last() =~= rs);
}

/// Updating one pair then modelling equals modelling then updating.
pub proof fn lemma_spec_reg_update(rs: Seq<(String, Schema)>, i: int, p: (String, Schema))
    ensures
        0 <= i < rs.len() ==> spec_reg(rs.update(i, p)) == spec_reg(rs).update(i, (p.0@, p.1@)),
{
    if 0 <= i < rs.len() {
        lemma_spec_reg_len(rs);
        lemma_spec_reg_len(rs.update(i, p));
        assert(spec_reg(rs.update(i, p)) =~= spec_reg(rs).update(i, (p.0@, p.1@))) by {
            assert forall|k: int| 0 <= k < rs.len() implies spec_reg(rs.update(i, p))[k]
                == spec_reg(rs).update(i, (p.0@, p.1@))[k] by {
                lemma_spec_reg_index(rs.update(i, p), k);
                lemma_spec_reg_index(rs, k);
            }
        }
    }
}

/// A first-match witness pins down the lookup.
pub proof fn lemma_reg_get_first(rs: Seq<(Seq<char>, SpecSchema)>, i: int, name: Seq<char>)
    requires
        0 <= i < rs.len(),
        rs[i].0 == name,
        forall|j: int| 0 <= j < i ==> (#[trigger] rs[j]).0 != name,
    ensures
        reg_get(rs, name) == Some(rs[i].1),
    decreases i,
{
    if i > 0 {
        assert(rs.drop_first()[i - 1] == rs[i]);
        assert(forall|j: int| 0 <= j < i - 1 ==> (#[trigger] rs.drop_first()[j]).0 != name);
        lemma_reg_get_first(rs.drop_first(), i - 1, name);
    }
}

/// Without a matching pair the lookup is absent.
pub proof fn lemma_reg_get_none(rs: Seq<(Seq<char>, SpecSchema)>, name: Seq<char>)
    requires
        forall|j: int| 0 <= j < rs.len() ==> (#[trigger] rs[j]).0 != name,
    ensures
        reg_get(rs, name) is None,
    decreases rs.len(),
{
    if rs.len() > 0 {
        assert(forall|j: int| 0 <= j < rs.len() - 1 ==> (#[trigger] rs.drop_first()[j]).0 != name);
        lemma_reg_get_none(rs.drop_first(), name);
    }
}

/// Updating the schema behind the first match changes that name's
/// lookup and no other.
pub proof fn lemma_reg_get_after_update(
    rs: Seq<(Seq<char>, SpecSchema)>,
    i: int,
    name: Seq<char>,
    s: SpecSchema,
)
    requires
        0 <= i < rs.len(),
        rs[i].0 == name,
        forall|j: int| 0 <= j < i ==> (#[trigger] rs[j]).0 != name,
    ensures
        reg_get(rs.update(i, (name, s)), name) == Some(s),
        forall|n2: Seq<char>| n2 != name ==> reg_get(rs.update(i, (name, s)), n2) == reg_get(
            rs,
            n2,
        ),
{
    let rs2 = rs.update(i, (name, s));
    assert(forall|j: int| 0 <= j < i ==> (#[trigger] rs2[j]).0 != name);
    lemma_reg_get_first(rs2, i, name);
    assert forall|n2: Seq<char>| n2 != name implies reg_get(rs2, n2) == reg_get(rs, n2) by {
        lemma_reg_get_update_other(rs, i, name, s, n2);
    }
}

/// Helper: one other name, one update.
proof fn lemma_reg_get_update_other(
    rs: Seq<(Seq<char>, SpecSchema)>,
    i: int,
    name: Seq<char>,
    s: SpecSchema,
    n2: Seq<char>,
)
    requires
        0 <= i < rs.len(),
        rs[i].0 == name,
        n2 != name,
    ensures
        reg_get(rs.update(i, (name, s)), n2) == reg_get(rs, n2),
    decreases rs.len(),
{
    let rs2 = rs.update(i, (name, s));
    if i == 0 {
        assert(rs.first() == rs[0]);
        assert(rs2.drop_first() =~= rs.drop_first());
    } else {
        assert(rs2.first() == rs.first());
        assert(rs2.drop_first() =~= rs.drop_first().update(i - 1, (name, s)));
        assert(rs.drop_first()[i - 1] == rs[i]);
        lemma_reg_get_update_other(rs.drop_first(), i - 1, name, s, n2);
    }
}

/// Appending a fresh name makes it found; other names are untouched.
pub proof fn lemma_reg_get_after_push(
    rs: Seq<(Seq<char>, SpecSchema)>,
    name: Seq<char>,
    s: SpecSchema,
)
    ensures
        reg_get(rs, name) is None ==> reg_get(rs.push((name, s)), name) == Some(s),
        forall|n2: Seq<char>| n2 != name ==> reg_get(rs.push((name, s)), n2) == reg_get(rs, n2),
    decreases rs.len(),
{
    if rs.len() == 0 {
        assert(rs.push((name, s)).first() == (name, s));
        assert(rs.push((name, s)).drop_first() =~= Seq::<(Seq<char>, SpecSchema)>::empty());
        assert forall|n2: Seq<char>| n2 != name implies reg_get(rs.push((name, s)), n2)
            == reg_get(rs, n2) by {
            assert(reg_get(Seq::<(Seq<char>, SpecSchema)>::empty(), n2) is None);
            assert(reg_get(rs.push((name, s)), n2) == reg_get(
                rs.push((name, s)).drop_first(),
                n2,
            ));
            assert(reg_get(rs, n2) is None);
        }
    } else {
        assert(rs.push((name, s)).first() == rs.first());
        assert(rs.push((name, s)).drop_first() =~= rs.drop_first().push((name, s)));
        lemma_reg_get_after_push(rs.drop_first(), name, s);
        assert forall|n2: Seq<char>| n2 != name implies reg_get(rs.push((name, s)), n2)
            == reg_get(rs, n2) by {
            if rs.first().0 == n2 {
                assert(reg_get(rs.push((name, s)), n2) == Some(rs.push((name, s)).first().1));
                assert(reg_get(rs, n2) == Some(rs.first().1));
            } else {
                assert(reg_get(rs.push((name, s)), n2) == reg_get(
                    rs.drop_first().push((name, s)),
                    n2,
                ));
                assert(reg_get(rs, n2) == reg_get(rs.drop_first(), n2));
            }
        }
    }
}

/// A plain bundle of schemas loaded from a file.
pub struct BulkSchema {
    pub schemas: Vec<Schema>,
}

/// The last schema in a list carrying a name, if any: the one a bulk
/// load leaves registered under that name.
pub open spec fn spec_lookup_last(ss: Seq<Schema>, name: Seq<char>) -> Option<SpecSchema>
    decreases ss,
{
    if ss.len() == 0 {
        None
    } else if ss.last()@.name == name {
        Some(ss.last()@)
    } else {
        spec_lookup_last(ss.drop_last(), name)
    }
}

/// The name-to-schema map, kept in sync with persistent storage by
/// its callers.
#[derive(Debug)]
pub struct Registry {
    pub schemas: Vec<(String, Schema)>,
}

impl View for Registry {
    type V = Seq<(Seq<char>, SpecSchema)>;

    open spec fn view(&self) -> Seq<(Seq<char>, SpecSchema)> {
        spec_reg(self.schemas@)
    }
}

impl Registry {
    /// An empty registry.
    pub fn new() -> (r: Self)
        ensures
            r@ == Seq::<(Seq<char>, SpecSchema)>::empty(),
    {
        Registry { schemas: Vec::new() }
    }

    /// Find the position of a name, fixing its modelled lookup.
    fn find_name(&self, name: &str) -> (r: Option<usize>)
        ensures
            match r {
                Some(i) => i < self@.len() && self@[i as int].0 == name@ && (forall|j: int|
                    0 <= j < i ==> (#[trigger] self@[j]).0 != name@) && reg_get(self@, name@)
                    == Some(self@[i as int].1),
                None => reg_get(self@, name@) is None,
            },
    {
        let n = self.schemas.len();
        let mut i: usize = 0;
        proof {
            lemma_spec_reg_len(self.schemas@);
        }
        while i < n
            invariant
                i <= n,
                n == self.schemas@.len(),
                self@.len() == n,
                forall|j: int| 0 <= j < i ==> (#[trigger] self@[j]).0 != name@,
            decreases n - i,
        {
            proof {
                lemma_spec_reg_index(self.schemas@, i as int);
            }
            if str_eq(self.schemas[i].0.as_str(), name) {
                proof {
                    lemma_reg_get_first(self@, i as int, name@);
                }
                return Some(i);
            }
            i = i + 1;
        }
        proof {
            lemma_reg_get_none(self@, name@);
        }
        None
    }

    /// Unconditional upsert: the name now maps to the schema; every
    /// other name is untouched.
    pub fn register(&mut self, name: &str, schema: Schema)
        ensures
            reg_get(final(self)@, name@) == Some(schema@),
            forall|n2: Seq<char>| n2 != name@ ==> reg_get(final(self)@, n2) == reg_get(
                old(self)@,
                n2,
            ),
            reg_get(old(self)@, name@) is None ==> final(self)@ == old(self)@.push(
                (name@, schema@),
            ),
    {
        let ghost sv = schema@;
        match self.find_name(name) {
            Some(i) => {
                let ghost prev = self.schemas@;
                proof {
                    lemma_spec_reg_len(prev);
                }
                self.schemas[i] = (name.to_owned(), schema);
                proof {
                    lemma_spec_reg_update(prev, i as int, self.schemas@[i as int]);
                    lemma_reg_get_after_update(spec_reg(prev), i as int, name@, sv);
                }
            },
            None => {
                let ghost prev = self.schemas@;
                self.schemas.push((name.to_owned(), schema));
                proof {
                    lemma_spec_reg_push(prev, self.schemas@.last());
                    lemma_reg_get_after_push(spec_reg(prev), name@, sv);
                }
            },
        }
    }

    /// The schema registered under a name.
    pub fn get_schema(&self, name: &str) -> (r: Option<&Schema>)
        ensures
            match r {
                Some(s) => reg_get(self@, name@) == Some(s@),
                None => reg_get(self@, name@) is None,
            },
    {
        match self.find_name(name) {
            Some(i) => {
                proof {
                    lemma_spec_reg_len(self.schemas@);
                    lemma_spec_reg_index(self.schemas@, i as int);
                }
                Some(&self.schemas[i].1)
            },
            None => None,
        }
    }

    /// A mutable borrow of the schema registered under a name.
    pub fn edit_schema(&mut self, name: &str) -> (r: Option<&mut Schema>)
        ensures
            match r {
                Some(m) => reg_get(old(self)@, name@) == Some((*m)@) && (exists|i: int|
                    0 <= i < old(self).schemas@.len() && (#[trigger] old(self).schemas@[i]).0@
                        == name@ && *m == old(self).schemas@[i].1 && final(self).schemas@ == old(
                        self,
                    ).schemas@.update(i, (old(self).schemas@[i].0, *final(m)))),
                None => reg_get(old(self)@, name@) is None && final(self).schemas@ == old(
                    self,
                ).schemas@,
            },
    {
        match self.find_name(name) {
            Some(i) => {
                proof {
                    lemma_spec_reg_len(self.schemas@);
                    lemma_spec_reg_index(self.schemas@, i as int);
                }
                Some(&mut self.schemas[i].1)
            },
            None => None,
        }
    }

    /// Bulk registration from a loaded file: schemas are registered
    /// under their own names in order, so on a name collision the
    /// last one wins.
    #[verifier::loop_isolation(false)]
    pub fn load_from_file(schemas: BulkSchema) -> (r: Self)
        ensures
            forall|n: Seq<char>| #[trigger] reg_get(r@, n) == spec_lookup_last(
                schemas.schemas@,
                n,
            ),
    {
        let mut registry = Registry::new();
        let mut rest = schemas.schemas;
        let ghost orig = rest@;
        let n0 = rest.len();
        let mut i: usize = 0;
        proof {
            assert(orig.subrange(0, 0) =~= Seq::<Schema>::empty());
            assert(orig.len() == n0);
        }
        while rest.len() > 0
            invariant
                i <= orig.len(),
                rest@ == orig.subrange(i as int, orig.len() as int),
                forall|n: Seq<char>| #[trigger] reg_get(registry@, n) == spec_lookup_last(
                    orig.subrange(0, i as int),
                    n,
                ),
            decreases rest@.len(),
        {
            let s = rest.remove(0);
            let name = s.name();
            let ghost prevreg = registry@;
            registry.register(name.as_str(), s);
            proof {
                assert(orig.subrange(i as int, orig.len() as int)[0] == orig[i as int]);
                assert(orig.subrange(i + 1, orig.len() as int) =~= orig.subrange(
                    i as int,
                    orig.len() as int,
                ).drop_first());
                assert(orig.subrange(0, i + 1).drop_last() =~= orig.subrange(0, i as int));
                assert(orig.subrange(0, i + 1).last() == orig[i as int]);
                assert forall|n: Seq<char>| #[trigger] reg_get(registry@, n) == spec_lookup_last(
                    orig.subrange(0, i + 1),
                    n,
                ) by {
                    if n == orig[i as int]@.name {
                    } else {
                        assert(reg_get(registry@, n) == reg_get(prevreg, n));
                    }
                }
            }
            i = i + 1;
        }
        proof {
            assert(orig.subrange(0, i as int) =~= orig);
        }
        registry
    }
}

} // verus!
