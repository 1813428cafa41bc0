//! Type-erased values and a store keyed by type identity.
//!
//! The engine keeps singletons, assets and events of arbitrary types. A value
//! is erased into an [`ErasedValue`] together with the [`TypeId`] of its type,
//! and [`TypeMap`] keeps at most one entry per type id.

use std::any::TypeId;
use vstd::prelude::*;

verus! {

/// `std::any::TypeId`, the identity of a `'static` type. Its contents are
/// not modelled.
#[verifier::external_type_specification]
#[verifier::external_body]
pub struct ExTypeId(TypeId);

/// The identity of type `T`: calls `std::any::TypeId::of::<T>()`.
///
/// Nothing is promised of the result: a contract cannot relate a type
/// parameter to a value here.
#[verifier::external_body]
pub fn type_key<T: 'static>() -> TypeId {
    TypeId::of::<T>()
}

/// Compares two type ids with `<TypeId as PartialEq>::eq`, which holds exactly
/// when both name the same type, that is when they are the same value.
#[verifier::external_body]
pub fn same_type(a: &TypeId, b: &TypeId) -> (r: bool)
    ensures
        r == (*a == *b),
{
    *a == *b
}

/// A boxed value of some `'static` type, with its type erased
/// (`Box<dyn std::any::Any>`).
///
/// A `dyn Any` cannot be modelled, so the box is kept opaque; its
/// contents are reached only through the downcasting methods below.
#[verifier::external_body]
pub struct ErasedValue {
    inner: Box<dyn std::any::Any>,
}

impl ErasedValue {
    /// Erase `value`: boxes it as `Box<dyn Any>` (`Box::new` with an unsizing
    /// coercion). Nothing is promised of the box beyond its existence.
    #[verifier::external_body]
    pub fn new<T: 'static>(value: T) -> ErasedValue {
        ErasedValue { inner: Box::new(value) }
    }

    /// `<dyn Any>::downcast_ref::<T>`: a reference to the contents when they
    /// are of type `T`, else `None`. Nothing is promised of which it is.
    #[verifier::external_body]
    pub fn downcast_ref<T: 'static>(&self) -> Option<&T> {
        self.inner.downcast_ref::<T>()
    }

    /// `<dyn Any>::downcast_mut::<T>`: a mutable reference to the contents
    /// when they are of type `T`, else `None`. Nothing is promised of which it
    /// is, nor of what the caller writes through it.
    #[verifier::external_body]
    pub fn downcast_mut<T: 'static>(&mut self) -> Option<&mut T> {
        self.inner.downcast_mut::<T>()
    }

    /// `Box::<dyn Any>::downcast::<T>`: the contents by value when they are
    /// of type `T`, else `None`. Nothing is promised of which it is.
    #[verifier::external_body]
    pub fn downcast<T: 'static>(self) -> Option<T> {
        match self.inner.downcast::<T>() {
            Ok(b) => Some(*b),
            Err(_) => None,
        }
    }
}

/// A map keyed by type identity, holding at most one value per type.
///
/// Keys are searched linearly; the invariant keeps them distinct.
pub struct TypeMap<V> {
    keys: Vec<TypeId>,
    values: Vec<V>,
}

impl<V> View for TypeMap<V> {
    type V = Map<TypeId, V>;

    closed spec fn view(&self) -> Map<TypeId, V> {
        Map::new(
            |k: TypeId| self.keys@.contains(k),
            |k: TypeId| self.values@[self.keys@.index_of(k)],
        )
    }
}

impl<V> TypeMap<V> {
    /// The keys are distinct and each has a value.
    pub closed spec fn wf(&self) -> bool {
        &&& self.keys@.len() == self.values@.len()
        &&& self.keys@.no_duplicates()
    }

    /// An empty map.
    pub fn new() -> (m: Self)
        ensures
            m.wf(),
            m@ == Map::<TypeId, V>::empty(),
    {
        let m = TypeMap { keys: Vec::new(), values: Vec::new() };
        assert(m@ =~= Map::<TypeId, V>::empty());
        m
    }

    /// The number of keys.
    pub fn len(&self) -> (r: usize)
        requires
            self.wf(),
        ensures
            r == self@.dom().len(),
    {
        proof {
            self.lemma_dom_len();
        }
        self.keys.len()
    }

    proof fn lemma_dom_len(&self)
        requires
            self.wf(),
        ensures
            self@.dom().len() == self.keys@.len(),
            self@.dom().finite(),
    {
        assert(self@.dom() =~= self.keys@.to_set());
        self.keys@.unique_seq_to_set();
    }

    proof fn lemma_index(&self, i: int)
        requires
            self.wf(),
            0 <= i < self.keys@.len(),
        ensures
            self@.contains_key(self.keys@[i]),
            self.keys@.index_of(self.keys@[i]) == i,
            self@[self.keys@[i]] == self.values@[i],
    {
        let k = self.keys@[i];
        assert(self.keys@.contains(k));
        let j = self.keys@.index_of(k);
        assert(self.keys@[j] == k);
    }

    /// The position of `key` among the keys, if present.
    pub(crate) fn find(&self, key: &TypeId) -> (r: Option<usize>)
        requires
            self.wf(),
        ensures
            match r {
                Some(i) => i < self.len_spec() && self.key_at(i as int) == *key,
                None => !self@.contains_key(*key),
            },
    {
        let n = self.keys.len();
        for i in 0..n
            invariant
                n == self.keys@.len(),
                forall|j: int| 0 <= j < i ==> self.keys@[j] != *key,
        {
            if same_type(&self.keys[i], key) {
                return Some(i);
            }
        }
        None
    }

    /// Mutable access to the value at position `i`, whose key is
    /// `self.key_at(i)`.
    pub(crate) fn value_at_mut(&mut self, i: usize) -> (r: &mut V)
        requires
            old(self).wf(),
            i < old(self).len_spec(),
        ensures
            final(self).wf(),
            old(self)@.contains_key(old(self).key_at(i as int)),
            *r == old(self)@[old(self).key_at(i as int)],
            final(self)@ == old(self)@.insert(old(self).key_at(i as int), *final(r)),
        no_unwind
    {
        proof {
            old(self).lemma_index(i as int);
            assert forall|k: TypeId| #[trigger] old(self)@.contains_key(k) && k != old(self).key_at(i as int)
                implies old(self).keys@.index_of(k) != i by {
                let j = old(self).keys@.index_of(k);
                assert(old(self).keys@[j] == k);
            }
        }
        &mut self.values[i]
    }

    /// The key at position `i`.
    pub(crate) closed spec fn key_at(&self, i: int) -> TypeId {
        self.keys@[i]
    }

    /// The number of keys, as a spec value.
    pub(crate) closed spec fn len_spec(&self) -> nat {
        self.keys@.len()
    }

    /// Whether `key` has a value.
    pub fn contains_key(&self, key: &TypeId) -> (r: bool)
        requires
            self.wf(),
        ensures
            r == self@.contains_key(*key),
    {
        match self.find(key) {
            Some(i) => {
                proof {
                    self.lemma_index(i as int);
                }
                true
            },
            None => false,
        }
    }

    /// Set the value of `key`, replacing any previous one.
    pub fn insert(&mut self, key: TypeId, value: V)
        requires
            old(self).wf(),
        ensures
            final(self).wf(),
            final(self)@ == old(self)@.insert(key, value),
    {
        match self.find(&key) {
            Some(i) => {
                proof {
                    old(self).lemma_index(i as int);
                }
                self.values.set(i, value);
                assert forall|k: TypeId| #[trigger] self@.contains_key(k) && k != key implies self@[k]
                    == old(self)@[k] by {
                    let j = self.keys@.index_of(k);
                    assert(self.keys@[j] == k);
                    assert(j != i);
                }
                assert(self@ =~= old(self)@.insert(key, value)) by {
                    self.lemma_index(i as int);
                }
            },
            None => {
                self.keys.push(key);
                self.values.push(value);
                let ghost n: int = old(self).keys@.len() as int;
                assert(self.keys@.no_duplicates()) by {
                    assert(!old(self).keys@.contains(key));
                }
                assert forall|k: TypeId| #[trigger] self@.contains_key(k) && k != key implies self@[k]
                    == old(self)@[k] && old(self)@.contains_key(k) by {
                    assert(self.keys@ == old(self).keys@.push(key));
                    let j = self.keys@.index_of(k);
                    assert(self.keys@[j] == k);
                    assert(j != n);
                    assert(old(self).keys@[j] == k);
                    old(self).lemma_index(j);
                }
                assert forall|k: TypeId| old(self)@.contains_key(k) implies #[trigger] self@.contains_key(
                    k,
                ) by {
                    let j = old(self).keys@.index_of(k);
                    assert(self.keys@[j] == k);
                }
                assert(self@ =~= old(self)@.insert(key, value)) by {
                    self.lemma_index(n);
                }
            },
        }
    }

    /// The value of `key`, if any.
    pub fn get(&self, key: &TypeId) -> (r: Option<&V>)
        requires
            self.wf(),
        ensures
            r == (if self@.contains_key(*key) {
                Some(&self@[*key])
            } else {
                None::<&V>
            }),
    {
        match self.find(key) {
            Some(i) => {
                proof {
                    self.lemma_index(i as int);
                }
                Some(&self.values[i])
            },
            None => None,
        }
    }

    /// Mutable access to the value of `key`, if any.
    pub fn get_mut(&mut self, key: &TypeId) -> (r: Option<&mut V>)
        requires
            old(self).wf(),
        ensures
            final(self).wf(),
            match r {
                Some(v) => {
                    &&& old(self)@.contains_key(*key)
                    &&& *v == old(self)@[*key]
                    &&& final(self)@ == old(self)@.insert(*key, *final(v))
                },
                None => {
                    &&& !old(self)@.contains_key(*key)
                    &&& final(self)@ == old(self)@
                },
            },
    {
        match self.find(key) {
            Some(i) => {
                proof {
                    old(self).lemma_index(i as int);
                    assert forall|k: TypeId| #[trigger] old(self)@.contains_key(k) && k != *key
                        implies old(self).keys@.index_of(k) != i by {
                        let j = old(self).keys@.index_of(k);
                        assert(old(self).keys@[j] == k);
                    }
                }
                Some(&mut self.values[i])
            },
            None => None,
        }
    }

    /// Remove the value of `key` and return it, if any.
    pub fn remove(&mut self, key: &TypeId) -> (r: Option<V>)
        requires
            old(self).wf(),
        ensures
            final(self).wf(),
            final(self)@ == old(self)@.remove(*key),
            r == (if old(self)@.contains_key(*key) {
                Some(old(self)@[*key])
            } else {
                None::<V>
            }),
    {
        match self.find(key) {
            Some(i) => {
                proof {
                    old(self).lemma_index(i as int);
                }
                let ghost ok = old(self).keys@;
                let _k = self.keys.remove(i);
                let v = self.values.remove(i);
                assert(self.keys@ == ok.remove(i as int));
                assert(self.keys@.no_duplicates()) by {
                    assert forall|a: int, b: int|
                        0 <= a < self.keys@.len() && 0 <= b < self.keys@.len() && a != b implies
                        self.keys@[a] != self.keys@[b] by {
                        let oa = if a < i { a } else { a + 1 };
                        let ob = if b < i { b } else { b + 1 };
                        assert(self.keys@[a] == ok[oa]);
                        assert(self.keys@[b] == ok[ob]);
                    }
                }
                assert forall|k: TypeId| #[trigger] old(self)@.contains_key(k) && k != *key
                    implies self@.contains_key(k) && self@[k] == old(self)@[k] by {
                    let j = ok.index_of(k);
                    assert(ok[j] == k);
                    assert(j != i);
                    let nj = if j < i { j } else { j - 1 };
                    assert(self.keys@[nj] == k);
                    self.lemma_index(nj);
                }
                assert forall|k: TypeId| #[trigger] self@.contains_key(k) implies old(
                    self,
                )@.contains_key(k) && k != *key by {
                    let j = self.keys@.index_of(k);
                    assert(self.keys@[j] == k);
                    let oj = if j < i { j } else { j + 1 };
                    assert(ok[oj] == k);
                }
                assert(self@ =~= old(self)@.remove(*key));
                Some(v)
            },
            None => {
                assert(self@ =~= old(self)@.remove(*key));
                None
            },
        }
    }
}

} // verus!
