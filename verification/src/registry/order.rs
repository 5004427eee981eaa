//! Hints on which providers come before which.
use std::any::TypeId;

use vstd::prelude::*;

use crate::erasure::key_of;
#[allow(unused_imports)]
use crate::erasure::type_key;

verus! {

/// Type-based lifecycle ordering hints.
///
/// Numeric priorities still provide a coarse tie-breaker. `ProviderOrder`
/// adds explicit relationships between provider concrete types, so code can
/// say "run me before `T`" without relying on magic numbers or provider names.
#[derive(Clone, Debug)]
pub struct ProviderOrder {
    before: Vec<TypeId>,
    after: Vec<TypeId>,
}

impl ProviderOrder {
    /// The types that must come later, in the order in which they were named.
    pub closed spec fn comes_before(&self) -> Seq<TypeId> {
        self.before@
    }

    /// The types that must come earlier, in the order in which they were named.
    pub closed spec fn comes_after(&self) -> Seq<TypeId> {
        self.after@
    }

    pub fn new() -> (order: Self)
        ensures
            order.comes_before() == Seq::<TypeId>::empty(),
            order.comes_after() == Seq::<TypeId>::empty(),
    {
        ProviderOrder { before: Vec::new(), after: Vec::new() }
    }

    pub fn before<T: 'static>(self) -> (order: Self)
        ensures
            order.comes_before() == self.comes_before().push(type_key::<T>()),
            order.comes_after() == self.comes_after(),
    {
        let mut order = self;
        order.before.push(key_of::<T>());
        order
    }

    pub fn after<T: 'static>(self) -> (order: Self)
        ensures
            order.comes_before() == self.comes_before(),
            order.comes_after() == self.comes_after().push(type_key::<T>()),
    {
        let mut order = self;
        order.after.push(key_of::<T>());
        order
    }

    pub fn before_types(&self) -> (types: &[TypeId])
        ensures
            types@ == self.comes_before(),
    {
        self.before.as_slice()
    }

    pub fn after_types(&self) -> (types: &[TypeId])
        ensures
            types@ == self.comes_after(),
    {
        self.after.as_slice()
    }
}

impl Default for ProviderOrder {
    fn default() -> (order: Self)
        ensures
            order.comes_before() == Seq::<TypeId>::empty(),
            order.comes_after() == Seq::<TypeId>::empty(),
    {
        ProviderOrder::new()
    }
}

/// Hints add up: each call names one more type on its side, and takes nothing away that was
/// named before, on either side.
pub proof fn law_hints_add_up<T: 'static>(
    order: ProviderOrder,
    before: ProviderOrder,
    after: ProviderOrder,
)
    requires
        call_ensures(ProviderOrder::before::<T>, (order,), before),
        call_ensures(ProviderOrder::after::<T>, (order,), after),
    ensures
        before.comes_before().contains(type_key::<T>()),
        after.comes_after().contains(type_key::<T>()),
        forall|key: TypeId|
            order.comes_before().contains(key) ==> #[trigger] before.comes_before().contains(key),
        forall|key: TypeId|
            order.comes_after().contains(key) ==> #[trigger] after.comes_after().contains(key),
        before.comes_after() == order.comes_after(),
        after.comes_before() == order.comes_before(),
        forall|key: TypeId| #[trigger]
            before.comes_before().contains(key) ==> key == type_key::<T>()
                || order.comes_before().contains(key),
        forall|key: TypeId| #[trigger]
            after.comes_after().contains(key) ==> key == type_key::<T>()
                || order.comes_after().contains(key),
{
    lemma_push_adds(order.comes_before(), type_key::<T>());
    lemma_push_adds(order.comes_after(), type_key::<T>());
}

proof fn lemma_push_adds(keys: Seq<TypeId>, last: TypeId)
    ensures
        forall|key: TypeId| #[trigger]
            keys.push(last).contains(key) <==> keys.contains(key) || key == last,
{
    let longer = keys.push(last);
    assert forall|key: TypeId| #[trigger] longer.contains(key) <==> keys.contains(key) || key
        == last by {
        if keys.contains(key) {
            let k = keys.index_of(key);
            assert(longer[k] == key);
        }
        assert(longer[keys.len() as int] == last);
    }
}

} // verus!
