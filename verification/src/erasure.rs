//! Type identity and type erasure over the standard library's `Any`.
//!
//! A registry finds a service by its concrete Rust type. The standard library
//! provides the two halves of that: `TypeId` names a type at run time, and
//! `dyn Any` holds a value whose type has been forgotten. Verus knows neither,
//! so the few calls into them are gathered here.
use std::any::{Any, TypeId};
use std::sync::Arc;

use vstd::prelude::*;

verus! {

/// `std::any::TypeId`, an opaque identifier of a type.
#[verifier::external_type_specification]
#[verifier::external_body]
pub struct ExTypeId(TypeId);

/// `TypeId::of`: nothing is said here of the identifier that comes back; see [`key_of`].
pub assume_specification<T: ?Sized + 'static>[ TypeId::of::<T> ]() -> (key: TypeId)
;

/// The identifier of the type `T`: the one value that `TypeId::of::<T>()` returns.
pub open spec fn type_key<T: ?Sized + 'static>() -> TypeId {
    choose|key: TypeId| call_ensures(TypeId::of::<T>, (), key)
}

/// Calls `TypeId::of`. The claim is that every call for one type returns the same
/// identifier, which is what the standard library documents a `TypeId` to be.
#[verifier::external_body]
pub(crate) fn key_of<T: ?Sized + 'static>() -> (key: TypeId)
    ensures
        key == type_key::<T>(),
{
    TypeId::of::<T>()
}

/// Compares two identifiers with `TypeId`'s `==`, which holds exactly for equal ones.
#[verifier::external_body]
pub(crate) fn same_key(a: &TypeId, b: &TypeId) -> (same: bool)
    ensures
        same == (*a == *b),
{
    a == b
}

/// A shared instance whose concrete type has been forgotten.
///
/// The field is an `Arc<dyn Any + Send + Sync>`. Verus takes no trait object of
/// more than one trait, so the whole struct is opaque to it.
#[verifier::external_body]
pub struct SharedAny {
    instance: Arc<dyn Any + Send + Sync>,
}

impl Clone for SharedAny {
    /// Clones the `Arc`, which gives another handle of the same instance.
    #[verifier::external_body]
    fn clone(&self) -> (handle: Self)
        ensures
            handle == *self,
    {
        SharedAny { instance: self.instance.clone() }
    }
}

/// The identifier of the concrete type behind `shared`: what `Any::type_id` returns for it.
pub uninterp spec fn shared_type(shared: SharedAny) -> TypeId;

/// `shared` is the type-erased form of the instance `item`.
pub closed spec fn shares<T: Send + Sync + 'static>(item: Arc<T>, shared: SharedAny) -> bool {
    call_ensures(erase_shared::<T>, (&item,), shared)
}

/// Turns a clone of an `Arc<T>` into an `Arc<dyn Any + Send + Sync>` of the same
/// allocation. The claim is that `Any::type_id` of the result identifies `T`.
#[verifier::external_body]
pub(crate) fn erase_shared<T: Send + Sync + 'static>(item: &Arc<T>) -> (shared: SharedAny)
    ensures
        shared_type(shared) == type_key::<T>(),
{
    SharedAny { instance: item.clone() }
}

/// What [`erase_shared`] gives is the type-erased form of what it was given.
pub(crate) proof fn lemma_erased_is_shared<T: Send + Sync + 'static>(
    item: Arc<T>,
    shared: SharedAny,
)
    requires
        call_ensures(erase_shared::<T>, (&item,), shared),
    ensures
        shares(item, shared),
{
}

/// Calls `Arc::downcast` on a clone of the handle. It succeeds exactly when `T` is
/// the concrete type, and then hands back the instance that was erased.
#[verifier::external_body]
pub(crate) fn downcast_shared<T: Send + Sync + 'static>(shared: &SharedAny) -> (item: Option<Arc<T>>)
    ensures
        item is Some <==> shared_type(*shared) == type_key::<T>(),
        item matches Some(found) ==> shares(found, *shared),
        forall|erased: Arc<T>| #[trigger] shares(erased, *shared) ==> item == Some(erased),
{
    Arc::downcast::<T>(shared.instance.clone()).ok()
}

/// An owned value whose concrete type has been forgotten.
///
/// The field is a `Box<dyn Any + Send + Sync>`, opaque for the same reason as in [`SharedAny`].
#[verifier::external_body]
pub struct BoxedAny {
    value: Box<dyn Any + Send + Sync>,
}

/// The identifier of the concrete type inside `boxed`: what `Any::type_id` returns for it.
pub uninterp spec fn boxed_type(boxed: BoxedAny) -> TypeId;

/// `boxed` is the type-erased form of `value`.
pub closed spec fn boxes<T: Send + Sync + 'static>(value: T, boxed: BoxedAny) -> bool {
    call_ensures(erase_boxed::<T>, (value,), boxed)
}

/// Boxes a value as a `Box<dyn Any + Send + Sync>`. The claim is that `Any::type_id`
/// of what is inside identifies `T`.
#[verifier::external_body]
pub(crate) fn erase_boxed<T: Send + Sync + 'static>(value: T) -> (boxed: BoxedAny)
    ensures
        boxed_type(boxed) == type_key::<T>(),
{
    BoxedAny { value: Box::new(value) }
}

/// What [`erase_boxed`] gives is the type-erased form of what it was given.
pub(crate) proof fn lemma_erased_is_boxed<T: Send + Sync + 'static>(value: T, boxed: BoxedAny)
    requires
        call_ensures(erase_boxed::<T>, (value,), boxed),
    ensures
        boxes(value, boxed),
{
}

/// Calls `downcast_ref` on the box. It succeeds exactly when `T` is the concrete
/// type, and then shows the value that was boxed.
#[verifier::external_body]
pub(crate) fn downcast_boxed<T: Send + Sync + 'static>(boxed: &BoxedAny) -> (value: Option<&T>)
    ensures
        value is Some <==> boxed_type(*boxed) == type_key::<T>(),
        value matches Some(found) ==> boxes(*found, *boxed),
        forall|erased: T| #[trigger] boxes(erased, *boxed) ==> value == Some(&erased),
{
    boxed.value.downcast_ref::<T>()
}

} // verus!
