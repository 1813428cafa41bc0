//! Global resource storage for the ECS.
//!
//! Resources are singletons (time, input, assets...) reachable by any system
//! without being attached to an entity. At most one value of each type is
//! held; inserting a second one replaces the first.

use std::any::TypeId;
use vstd::prelude::*;

use crate::erased::{type_key, ErasedValue, TypeMap};

verus! {

/// A container for application-wide singletons, one per type.
pub struct Resources {
    data: TypeMap<ErasedValue>,
}

/// The error of [`Resources::expect`]: no resource of the requested type.
/// It carries the identity of that type.
#[derive(Clone, Copy, Debug, PartialEq, Eq)]
pub struct ResourceNotFound {
    key: TypeId,
}

impl ResourceNotFound {
    /// The identity of the resource type that was not found.
    pub closed spec fn missing(&self) -> TypeId {
        self.key
    }

    /// The identity of the resource type that was not found.
    pub fn key(&self) -> (r: TypeId)
        ensures
            r == self.missing(),
    {
        self.key
    }
}

impl View for Resources {
    type V = Map<TypeId, ErasedValue>;

    /// The stored values, keyed by the identity of their type.
    closed spec fn view(&self) -> Map<TypeId, ErasedValue> {
        self.data@
    }
}

impl Resources {
    /// The container's invariant: the type map is well formed.
    #[verifier::type_invariant]
    closed spec fn wf(&self) -> bool {
        self.data.wf()
    }

    /// Takes the type map out, leaving an empty one in its place.
    fn take_data(&mut self) -> (d: TypeMap<ErasedValue>)
        ensures
            d.wf(),
            d@ == old(self)@,
            final(self)@ == Map::<TypeId, ErasedValue>::empty(),
    {
        proof {
            use_type_invariant(&*self);
        }
        let mut d = TypeMap::new();
        std::mem::swap(&mut d, &mut self.data);
        d
    }

    /// Create an empty resource container.
    pub fn new() -> (r: Self)
        ensures
            r@ == Map::<TypeId, ErasedValue>::empty(),
    {
        Resources { data: TypeMap::new() }
    }

    /// Insert a resource, replacing the one of the same type if there is one.
    ///
    /// Exactly one type key is set; every other resource is untouched.
    pub fn insert<T: 'static>(&mut self, resource: T)
        ensures
            exists|k: TypeId, v: ErasedValue| final(self)@ == old(self)@.insert(k, v),
    {
        let key = type_key::<T>();
        let value = ErasedValue::new(resource);
        let mut d = self.take_data();
        d.insert(key, value);
        self.data = d;
        assert(self@ == old(self)@.insert(key, value));
    }

    /// Remove the resource of type `T` and return it.
    ///
    /// At most one type key is removed; a value is returned only if one was
    /// stored under it.
    pub fn remove<T: 'static>(&mut self) -> (r: Option<T>)
        ensures
            exists|k: TypeId|
                {
                    &&& #[trigger] final(self)@ == old(self)@.remove(k)
                    &&& (r is Some ==> old(self)@.contains_key(k))
                },
    {
        let key = type_key::<T>();
        let mut d = self.take_data();
        let removed = d.remove(&key);
        self.data = d;
        assert(self@ == old(self)@.remove(key));
        match removed {
            Some(boxed) => boxed.downcast::<T>(),
            None => None,
        }
    }

    /// Get the resource of type `T`.
    pub fn get<T: 'static>(&self) -> (r: Option<&T>)
        ensures
            r is Some ==> exists|k: TypeId| #[trigger] self@.contains_key(k),
    {
        proof {
            use_type_invariant(self);
        }
        let key = type_key::<T>();
        match self.data.get(&key) {
            Some(boxed) => {
                assert(self@.contains_key(key));
                boxed.downcast_ref::<T>()
            },
            None => None,
        }
    }

    /// Get the resource of type `T` mutably.
    ///
    /// The set of stored types does not change.
    pub fn get_mut<T: 'static>(&mut self) -> (r: Option<&mut T>)
        ensures
            final(self)@.dom() == old(self)@.dom(),
            r is Some ==> exists|k: TypeId| #[trigger] old(self)@.contains_key(k),
    {
        proof {
            use_type_invariant(&*self);
        }
        let key = type_key::<T>();
        match self.data.find(&key) {
            Some(i) => {
                let v = self.data.value_at_mut(i);
                assert(old(self)@.contains_key(key));
                v.downcast_mut::<T>()
            },
            None => None,
        }
    }

    /// Get the resource of type `T`, or an error when it is missing. The
    /// error carries the identity of `T`, the key that was looked up.
    pub fn expect<T: 'static>(&self) -> (r: Result<&T, ResourceNotFound>)
        ensures
            exists|k: TypeId|
                {
                    &&& (r is Ok ==> #[trigger] self@.contains_key(k))
                    &&& (r matches Err(e) ==> e.missing() == k)
                },
    {
        proof {
            use_type_invariant(self);
        }
        let key = type_key::<T>();
        match self.data.get(&key) {
            Some(boxed) => match boxed.downcast_ref::<T>() {
                Some(v) => {
                    assert(self@.contains_key(key));
                    Ok(v)
                },
                None => {
                    assert(self@.contains_key(key));
                    Err(ResourceNotFound { key })
                },
            },
            None => {
                assert(!self@.contains_key(key));
                Err(ResourceNotFound { key })
            },
        }
    }

    /// Get the resource of type `T` mutably, or an error carrying the
    /// identity of `T` when it is missing. The set of stored types does not
    /// change.
    pub fn expect_mut<T: 'static>(&mut self) -> (r: Result<&mut T, ResourceNotFound>)
        ensures
            final(self)@.dom() == old(self)@.dom(),
            exists|k: TypeId|
                {
                    &&& (r is Ok ==> #[trigger] old(self)@.contains_key(k))
                    &&& (r matches Err(e) ==> e.missing() == k)
                },
    {
        proof {
            use_type_invariant(&*self);
        }
        let key = type_key::<T>();
        match self.data.find(&key) {
            Some(i) => {
                let v = self.data.value_at_mut(i);
                assert(old(self)@.contains_key(key));
                match v.downcast_mut::<T>() {
                    Some(x) => Ok(x),
                    None => Err(ResourceNotFound { key }),
                }
            },
            None => {
                assert(!old(self)@.contains_key(key));
                Err(ResourceNotFound { key })
            },
        }
    }

    /// Whether a resource of type `T` is stored: the answer is whether the
    /// key of `T` (`TypeId::of::<T>()`) has a value.
    pub fn contains<T: 'static>(&self) -> (r: bool)
        ensures
            exists|k: TypeId| r == #[trigger] self@.contains_key(k),
    {
        proof {
            use_type_invariant(self);
        }
        let key = type_key::<T>();
        let r = self.data.contains_key(&key);
        assert(r == self@.contains_key(key));
        r
    }
}

impl Default for Resources {
    /// An empty resource container.
    fn default() -> (r: Self)
        ensures
            r@ == Map::<TypeId, ErasedValue>::empty(),
    {
        Self::new()
    }
}

} // verus!
