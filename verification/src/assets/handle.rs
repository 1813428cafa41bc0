//! Typed references to loaded assets.

use std::marker::PhantomData;
use vstd::prelude::*;

verus! {

/// A unique identifier of a loaded asset.
#[derive(Clone, Copy, Debug, PartialEq, Eq, Structural, Hash)]
pub struct AssetId(pub u64);

/// A handle to an asset of type `T`: its id, with the asset type kept in the
/// handle's type. Handles are cheap to copy and compare by id.
#[derive(Debug, Hash)]
pub struct Handle<T> {
    id: AssetId,
    marker: PhantomData<T>,
}

impl<T> View for Handle<T> {
    type V = AssetId;

    /// A handle is determined by the id it refers to.
    closed spec fn view(&self) -> AssetId {
        self.id
    }
}

impl<T> Clone for Handle<T> {
    fn clone(&self) -> (r: Self)
        ensures
            r@ == self@,
    {
        Handle { id: self.id, marker: PhantomData }
    }
}

impl<T> Copy for Handle<T> {
}

impl<T> PartialEq for Handle<T> {
    fn eq(&self, other: &Self) -> (r: bool) {
        self.id.0 == other.id.0
    }
}

impl<T> vstd::std_specs::cmp::PartialEqSpecImpl for Handle<T> {
    open spec fn obeys_eq_spec() -> bool {
        true
    }

    /// Handles are equal exactly when they refer to the same id.
    open spec fn eq_spec(&self, other: &Self) -> bool {
        self@ == other@
    }
}

impl<T> Eq for Handle<T> {
}

impl<T> Handle<T> {
    /// Create a handle for the given asset id.
    pub fn new(id: AssetId) -> (h: Self)
        ensures
            h@ == id,
    {
        Handle { id, marker: PhantomData }
    }

    /// The id of the asset this handle refers to.
    pub fn id(&self) -> (r: AssetId)
        ensures
            r == self@,
    {
        self.id
    }

    /// The same handle with its asset type erased.
    pub fn untyped(&self) -> (r: UntypedHandle)
        ensures
            r@ == self@,
    {
        UntypedHandle { id: self.id }
    }
}

/// A handle with its asset type erased.
#[derive(Clone, Copy, Debug, PartialEq, Eq, Structural, Hash)]
pub struct UntypedHandle {
    pub(crate) id: AssetId,
}

impl View for UntypedHandle {
    type V = AssetId;

    closed spec fn view(&self) -> AssetId {
        self.id
    }
}

impl UntypedHandle {
    /// Give the handle an asset type again. Only the id is kept: nothing
    /// checks that the asset is of type `T`.
    pub fn typed<T>(&self) -> (r: Handle<T>)
        ensures
            r@ == self@,
    {
        Handle::new(self.id)
    }

    /// The id of the asset this handle refers to.
    pub fn id(&self) -> (r: AssetId)
        ensures
            r == self@,
    {
        self.id
    }
}

} // verus!
