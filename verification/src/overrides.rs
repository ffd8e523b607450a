//! Model options that can be overridden by the user at runtime.
//!
//! Each model has its own set of options, but calling code may not know
//! the model's type at compile time, so the overrides are stored
//! generically as named values.

use vstd::prelude::*;

verus! {

/// Valid value types for dynamic model overrides. Front ends that need a
/// floating-point override keep it in their own unverified copy of this
/// type; verified code holds none.
#[derive(Debug, PartialEq, Clone)]
pub enum ModelDynamicOverrideValue {
    /// A boolean value.
    Bool(bool),
    /// A string value.
    Text(String),
    /// An integer value.
    Int(i64),
}

/// The overrides as named values, later insertions shadowing earlier ones
/// with the same key.
pub struct ModelDynamicOverrides {
    entries: Vec<(String, ModelDynamicOverrideValue)>,
}

impl View for ModelDynamicOverrides {
    type V = Seq<(Seq<char>, ModelDynamicOverrideValue)>;

    closed spec fn view(&self) -> Seq<(Seq<char>, ModelDynamicOverrideValue)> {
        self.entries@.map_values(
            |p: (String, ModelDynamicOverrideValue)| (p.0@, p.1),
        )
    }
}

/// The index of the first entry with key `k`, or -1 where none is.
pub open spec fn spec_find_key(
    es: Seq<(Seq<char>, ModelDynamicOverrideValue)>,
    k: Seq<char>,
) -> int
    decreases es.len(),
{
    if es.len() == 0 {
        -1
    } else if es[0].0 == k {
        0
    } else {
        let r = spec_find_key(es.subrange(1, es.len() as int), k);
        if r == -1 {
            -1
        } else {
            r + 1
        }
    }
}

/// What `spec_find_key` returns: -1 exactly when no entry has the key,
/// and otherwise the least index of one that does.
pub proof fn lemma_spec_find_key(es: Seq<(Seq<char>, ModelDynamicOverrideValue)>, k: Seq<char>)
    ensures
        spec_find_key(es, k) == -1 <==> (forall|i: int|
            0 <= i < es.len() ==> (#[trigger] es[i]).0 != k),
        spec_find_key(es, k) != -1 ==> {
            &&& 0 <= spec_find_key(es, k) < es.len()
            &&& es[spec_find_key(es, k)].0 == k
            &&& forall|i: int| 0 <= i < spec_find_key(es, k) ==> (#[trigger] es[i]).0 != k
        },
    decreases es.len(),
{
    if es.len() != 0 && es[0].0 != k {
        lemma_spec_find_key(es.subrange(1, es.len() as int), k);
        assert forall|i: int| 1 <= i < es.len() implies es.subrange(1, es.len() as int)[i - 1]
            == es[i] by {}
    }
}

/// Inserting one named value: replace the first entry with the same key,
/// or append a new one.
pub open spec fn spec_insert(
    es: Seq<(Seq<char>, ModelDynamicOverrideValue)>,
    k: Seq<char>,
    v: ModelDynamicOverrideValue,
) -> Seq<(Seq<char>, ModelDynamicOverrideValue)> {
    let i = spec_find_key(es, k);
    if i == -1 {
        es.push((k, v))
    } else {
        es.update(i, (k, v))
    }
}

/// Merging: insert the other set's entries one by one, in order, so the
/// other set's values win on shared keys.
pub open spec fn spec_merge(
    a: Seq<(Seq<char>, ModelDynamicOverrideValue)>,
    b: Seq<(Seq<char>, ModelDynamicOverrideValue)>,
) -> Seq<(Seq<char>, ModelDynamicOverrideValue)>
    decreases b.len(),
{
    if b.len() == 0 {
        a
    } else {
        spec_merge(spec_insert(a, b[0].0, b[0].1), b.subrange(1, b.len() as int))
    }
}

impl ModelDynamicOverrides {
    /// An empty set of overrides.
    pub fn new() -> (r: ModelDynamicOverrides)
        ensures
            r@ == Seq::<(Seq<char>, ModelDynamicOverrideValue)>::empty(),
    {
        let r = ModelDynamicOverrides { entries: Vec::new() };
        proof {
            assert(r@ =~= Seq::<(Seq<char>, ModelDynamicOverrideValue)>::empty());
        }
        r
    }

    /// The number of stored overrides.
    pub fn len(&self) -> (r: usize)
        ensures
            r == self@.len(),
    {
        self.entries.len()
    }

    /// Get the value of the override with the given `key`.
    pub fn get(&self, key: &String) -> (r: Option<&ModelDynamicOverrideValue>)
        ensures
            spec_find_key(self@, key@) == -1 ==> r is None,
            spec_find_key(self@, key@) != -1 ==> r is Some && *r->Some_0 == self@[spec_find_key(
                self@,
                key@,
            )].1,
    {
        proof {
            lemma_spec_find_key(self@, key@);
        }
        let n = self.entries.len();
        let mut i: usize = 0;
        while i < n
            invariant
                i <= n,
                n == self@.len(),
                forall|j: int| 0 <= j < i ==> (#[trigger] self@[j]).0 != key@,
            decreases n - i,
        {
            if self.entries[i].0 == *key {
                proof {
                    lemma_spec_find_key(self@, key@);
                    assert(self@[i as int].0 == key@);
                    assert(spec_find_key(self@, key@) != -1);
                    let f = spec_find_key(self@, key@);
                    if f < i {
                        assert(self@[f].0 != key@);
                        assert(false);
                    }
                    if f > i {
                        assert(self@[i as int].0 != key@);
                        assert(false);
                    }
                }
                return Some(&self.entries[i].1);
            }
            i = i + 1;
        }
        None
    }

    /// Insert a new override with the given `key` and `value`, replacing
    /// any present value under the same key.
    pub fn insert(&mut self, key: String, value: ModelDynamicOverrideValue)
        ensures
            final(self)@ == spec_insert(old(self)@, key@, value),
    {
        proof {
            lemma_spec_find_key(self@, key@);
        }
        let n = self.entries.len();
        let mut i: usize = 0;
        while i < n
            invariant
                i <= n,
                n == self@.len(),
                self@ == old(self)@,
                forall|j: int| 0 <= j < i ==> (#[trigger] self@[j]).0 != key@,
            decreases n - i,
        {
            if self.entries[i].0 == key {
                proof {
                    lemma_spec_find_key(self@, key@);
                    assert(self@[i as int].0 == key@);
                    let f = spec_find_key(self@, key@);
                    if f < i {
                        assert(self@[f].0 != key@);
                        assert(false);
                    }
                    if f > i {
                        assert(self@[i as int].0 != key@);
                        assert(false);
                    }
                }
                self.entries[i] = (key, value);
                proof {
                    assert(self@ =~= spec_insert(old(self)@, key@, value));
                }
                return ;
            }
            i = i + 1;
        }
        self.entries.push((key, value));
        proof {
            assert(self@ =~= spec_insert(old(self)@, key@, value));
        }
    }

    /// Merge the overrides from `other` into this one; `other`'s values
    /// win on shared keys.
    pub fn merge(&mut self, other: ModelDynamicOverrides)
        ensures
            final(self)@ == spec_merge(old(self)@, other@),
    {
        let mut rest = other;
        while rest.entries.len() > 0
            invariant
                spec_merge(self@, rest@) == spec_merge(old(self)@, other@),
            decreases rest.entries.len(),
        {
            let ghost rest0 = rest@;
            let (k, v) = rest.entries.remove(0);
            proof {
                assert(rest@ =~= rest0.subrange(1, rest0.len() as int));
                assert((k@, v) == rest0[0]);
            }
            self.insert(k, v);
        }
        proof {
            assert(rest@.len() == 0);
        }
    }
}

} // verus!
